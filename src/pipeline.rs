use vstd::prelude::*;
use crate::buffer::SharedBuffer;
use crate::counter::SentCounter;
use crate::snapshot::{PerfInfo, same_snapshot};

verus! {

/// Snapshots per delivered batch.
pub const BATCH_SIZE: usize = 50;

/// Seconds between two sampling ticks.
pub const SAMPLE_INTERVAL_SECS: u64 = 30;

/// The state the sampling loop and the deliveries share.
pub struct Pipeline {
    pub buffer: SharedBuffer,
    pub counter: SentCounter,
    pub batch_size: usize,
}

impl Pipeline {
    pub open spec fn wf(&self) -> bool {
        self.batch_size > 0
    }
}

/// The service's entry: the state the monitoring service starts from, which
/// its sampling loop and deliveries then share. An empty buffer, nothing
/// sent, batches of `BATCH_SIZE`. The service's arguments are not used.
pub fn service_main(_arguments: Vec<String>) -> (r: Pipeline)
    ensures
        r.wf(),
        r.buffer@ == Seq::<PerfInfo>::empty(),
        r.counter@ == 0,
        r.batch_size == BATCH_SIZE,
{
    Pipeline { buffer: SharedBuffer::new(), counter: SentCounter::new(), batch_size: BATCH_SIZE }
}

/// Takes one batch off the front of the buffer once it holds at least
/// `batch_size` snapshots; otherwise leaves it alone. At most one batch is
/// taken per call, however many have built up.
pub fn extract_batch(buffer: &mut SharedBuffer, batch_size: usize) -> (r: Option<Vec<PerfInfo>>)
    requires
        batch_size > 0,
    ensures
        old(buffer)@.len() >= batch_size ==> (r matches Some(b) && b@ == old(buffer)@.take(
            batch_size as int,
        ) && final(buffer)@ == old(buffer)@.skip(batch_size as int)),
        old(buffer)@.len() < batch_size ==> r is None && final(buffer)@ == old(buffer)@,
{
    if buffer.length() < batch_size {
        return None;
    }
    match buffer.drain_front(batch_size) {
        Ok(batch) => Some(batch),
        Err(_) => None,
    }
}

/// One sampling tick after the snapshot was captured: append it, then take a
/// batch for delivery when the threshold is reached.
pub fn sample_tick(buffer: &mut SharedBuffer, snapshot: PerfInfo, batch_size: usize) -> (r: Option<
    Vec<PerfInfo>,
>)
    requires
        batch_size > 0,
    ensures
        ({
            let grown = old(buffer)@.push(snapshot);
            &&& grown.len() >= batch_size ==> (r matches Some(b) && b@ == grown.take(
                batch_size as int,
            ) && final(buffer)@ == grown.skip(batch_size as int))
            &&& grown.len() < batch_size ==> r is None && final(buffer)@ == grown
        }),
{
    buffer.append(snapshot);
    extract_batch(buffer, batch_size)
}

/// A point-in-time view: the last buffered snapshot, the buffer's length and
/// the number of snapshots delivered.
#[derive(Debug)]
pub struct BufferStatus {
    pub last_item: Option<PerfInfo>,
    pub buffer_size: usize,
    pub total_sent: usize,
}

pub fn get_buffer_status(buffer: &SharedBuffer, counter: &SentCounter) -> (r: BufferStatus)
    ensures
        buffer@.len() == 0 ==> r.last_item is None,
        buffer@.len() > 0 ==> (r.last_item matches Some(p) && same_snapshot(p, buffer@.last())),
        r.buffer_size == buffer@.len(),
        r.total_sent == counter@,
{
    let last_item = match buffer.peek_last() {
        Some(p) => Some(p.duplicate()),
        None => None,
    };
    BufferStatus { last_item, buffer_size: buffer.length(), total_sent: counter.value() }
}

} // verus!
