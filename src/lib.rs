//! Sampling, buffering and batched delivery of host telemetry snapshots.

pub mod snapshot;
pub mod buffer;
pub mod counter;
pub mod transmit;
pub mod pipeline;
