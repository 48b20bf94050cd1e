use perf_mon_lib::buffer::{BufferError, SharedBuffer};
use perf_mon_lib::counter::SentCounter;
use perf_mon_lib::pipeline::{extract_batch, get_buffer_status, sample_tick, service_main, BATCH_SIZE};
use perf_mon_lib::snapshot::{
    merge_interfaces, retain_readable, MemoryInfo, NetworkInfo, PerfInfo, ProcessInfo, SystemInfo, Timestamp,
};
use perf_mon_lib::transmit::{
    can_take, complete_delivery, delivery_headers, is_success_status, prepare_payload, server_url,
    DeliveryError, Response,
};

fn process(pid: i32, name: &str) -> ProcessInfo {
    ProcessInfo { pid, name: name.to_string(), cpu_usage_bits: 1.5f32.to_bits(), memory: 4096 }
}

fn snapshot(tick: u64) -> PerfInfo {
    let system = SystemInfo::from_probe(
        Some("Linux".to_string()),
        Some("host-a".to_string()),
        1000 + tick,
        Some("6.1".to_string()),
        None,
    );
    let memory = MemoryInfo { total: 16, used: 8, total_swap: 4, used_swap: 1 };
    let net = NetworkInfo {
        received_bytes: 10,
        total_received_bytes: 100,
        transmitted_bytes: 20,
        total_transmitted_bytes: 200,
    };
    PerfInfo::assemble(
        Timestamp::new(tick, 0).unwrap(),
        system,
        vec![12.5f32.to_bits(), 3.0f32.to_bits()],
        memory,
        vec![Some(process(1, "init"))],
        vec![("eth0".to_string(), net)],
    )
}

#[test]
fn appends_set_length_and_last() {
    let mut buffer = SharedBuffer::new();
    for t in 0..5u64 {
        buffer.append(snapshot(t));
    }
    assert_eq!(buffer.length(), 5);
    assert_eq!(buffer.peek_last().unwrap().time.secs, 4);
}

#[test]
fn empty_buffer_has_no_last() {
    let buffer = SharedBuffer::new();
    assert_eq!(buffer.length(), 0);
    assert!(buffer.peek_last().is_none());
}

#[test]
fn drain_short_buffer_fails_unchanged() {
    let mut buffer = SharedBuffer::new();
    buffer.append(snapshot(0));
    buffer.append(snapshot(1));
    let r = buffer.drain_front(3);
    assert_eq!(r.unwrap_err(), BufferError::InsufficientData);
    assert_eq!(buffer.length(), 2);
    assert_eq!(buffer.peek_last().unwrap().time.secs, 1);
}

#[test]
fn drain_takes_prefix_in_order() {
    let mut buffer = SharedBuffer::new();
    for t in 0..5u64 {
        buffer.append(snapshot(t));
    }
    let batch = buffer.drain_front(3).unwrap();
    let secs: Vec<u64> = batch.iter().map(|p| p.time.secs).collect();
    assert_eq!(secs, vec![0, 1, 2]);
    assert_eq!(buffer.length(), 2);
    let rest = buffer.drain_front(2).unwrap();
    let secs: Vec<u64> = rest.iter().map(|p| p.time.secs).collect();
    assert_eq!(secs, vec![3, 4]);
    assert_eq!(buffer.length(), 0);
}

#[test]
fn drain_exact_length_empties() {
    let mut buffer = SharedBuffer::new();
    buffer.append(snapshot(7));
    let batch = buffer.drain_front(1).unwrap();
    assert_eq!(batch.len(), 1);
    assert_eq!(buffer.length(), 0);
}

#[test]
fn counter_sums_increments() {
    let mut counter = SentCounter::new();
    for v in [3usize, 0, 50, 7] {
        assert!(counter.can_add(v));
        counter.add(v);
    }
    assert_eq!(counter.value(), 60);
}

#[test]
fn counter_under_lock_loses_nothing() {
    let shared = std::sync::Arc::new(std::sync::Mutex::new(SentCounter::new()));
    let rt = tokio::runtime::Runtime::new().unwrap();
    rt.block_on(async {
        let mut handles = Vec::new();
        for v in 1..=8usize {
            let c = shared.clone();
            handles.push(tokio::spawn(async move {
                c.lock().unwrap().add(v);
            }));
        }
        for h in handles {
            h.await.unwrap();
        }
    });
    assert_eq!(shared.lock().unwrap().value(), 36);
}

#[test]
fn counter_refuses_overflow() {
    let mut counter = SentCounter::new();
    counter.add(usize::MAX - 1);
    assert!(counter.can_add(1));
    assert!(!counter.can_add(2));
}

#[test]
fn seven_ticks_batch_three() {
    let mut buffer = SharedBuffer::new();
    let mut batches: Vec<Vec<u64>> = Vec::new();
    for t in 0..7u64 {
        if let Some(batch) = sample_tick(&mut buffer, snapshot(t), 3) {
            batches.push(batch.iter().map(|p| p.time.secs).collect());
        }
    }
    assert_eq!(batches, vec![vec![0, 1, 2], vec![3, 4, 5]]);
    assert_eq!(buffer.length(), 1);
}

#[test]
fn backlog_drains_one_batch_per_call() {
    let mut buffer = SharedBuffer::new();
    for t in 0..7u64 {
        buffer.append(snapshot(t));
    }
    let first = extract_batch(&mut buffer, 3).unwrap();
    assert_eq!(first[0].time.secs, 0);
    assert_eq!(buffer.length(), 4);
    let second = extract_batch(&mut buffer, 3).unwrap();
    assert_eq!(second[0].time.secs, 3);
    assert_eq!(buffer.length(), 1);
    assert!(extract_batch(&mut buffer, 3).is_none());
    assert_eq!(buffer.length(), 1);
}

#[test]
fn failed_then_successful_delivery() {
    let mut counter = SentCounter::new();
    let first = complete_delivery(&mut counter, 3, Response::Answered(500));
    let second = complete_delivery(&mut counter, 4, Response::Answered(200));
    assert_eq!(first, Err(DeliveryError::Status(500)));
    assert_eq!(second, Ok(()));
    assert_ne!(first, second);
    assert_eq!(counter.value(), 4);
}

#[test]
fn transport_failure_leaves_counter() {
    let mut counter = SentCounter::new();
    counter.add(10);
    assert_eq!(complete_delivery(&mut counter, 5, Response::Failed), Err(DeliveryError::Transport));
    assert_eq!(counter.value(), 10);
}

#[test]
fn status_classification() {
    assert!(!is_success_status(199));
    assert!(is_success_status(200));
    assert!(is_success_status(204));
    assert!(is_success_status(299));
    assert!(!is_success_status(300));
    assert!(!is_success_status(404));
}

#[test]
fn unreadable_processes_are_dropped() {
    let records = vec![
        Some(process(1, "a")),
        None,
        Some(process(3, "c")),
        None,
        Some(process(5, "e")),
    ];
    let memory = MemoryInfo { total: 32, used: 16, total_swap: 8, used_swap: 2 };
    let system = SystemInfo::from_probe(
        Some("Linux".to_string()),
        Some("h".to_string()),
        9,
        None,
        Some("6.1".to_string()),
    );
    let snap = PerfInfo::assemble(
        Timestamp::new(5, 6).unwrap(),
        system,
        vec![1, 2, 3],
        memory,
        records,
        Vec::new(),
    );
    let pids: Vec<i32> = snap.processes.iter().map(|p| p.pid).collect();
    assert_eq!(pids, vec![1, 3, 5]);
    assert_eq!(snap.cpu_bits, vec![1, 2, 3]);
    assert_eq!(snap.memory, memory);
    assert_eq!(snap.system.name, "Linux");
    assert_eq!(snap.system.uptime, 9);
    assert_eq!(snap.time, Timestamp { secs: 5, nanos: 6 });
}

#[test]
fn retain_readable_all_failed() {
    let out = retain_readable(vec![None, None]);
    assert!(out.is_empty());
}

#[test]
fn missing_identity_fields() {
    let s = SystemInfo::from_probe(None, None, 0, None, None);
    assert_eq!(s.name, "Unknown");
    assert_eq!(s.hostname, "Unknown");
    assert_eq!(s.os_version, "");
    assert_eq!(s.kernel_version, "");
}

#[test]
fn timestamp_carries_seconds() {
    assert_eq!(Timestamp::new(1, 2_500_000_000), Some(Timestamp { secs: 3, nanos: 500_000_000 }));
    assert_eq!(Timestamp::new(u64::MAX, 999_999_999), Some(Timestamp { secs: u64::MAX, nanos: 999_999_999 }));
    assert_eq!(Timestamp::new(u64::MAX, 1_000_000_000), None);
}

#[test]
fn payload_uncompressed_is_unchanged() {
    let json = b"[{\"a\":1}]".to_vec();
    let p = prepare_payload(json.clone(), false).unwrap();
    assert_eq!(p.body, json);
    assert!(!p.gzipped);
}

#[test]
fn payload_compressed_is_gzip() {
    let json = b"[{\"a\":1},{\"a\":1},{\"a\":1}]".to_vec();
    let p = prepare_payload(json.clone(), true).unwrap();
    assert!(p.gzipped);
    assert_ne!(p.body, json);
    assert_eq!(&p.body[0..2], &[0x1f, 0x8b]);
    let again = prepare_payload(json, true).unwrap();
    assert_eq!(p.body, again.body);
}

#[test]
fn headers_follow_compression() {
    let plain = delivery_headers(false);
    assert_eq!(plain, vec![("Content-Type".to_string(), "application/json".to_string())]);
    let gz = delivery_headers(true);
    assert_eq!(
        gz,
        vec![
            ("Content-Type".to_string(), "application/json".to_string()),
            ("Content-Encoding".to_string(), "gzip".to_string()),
        ]
    );
}

#[test]
fn endpoint_default_and_configured() {
    assert_eq!(server_url(None), "http://yourserver.com/api/monitor");
    assert_eq!(server_url(Some("http://c/x".to_string())), "http://c/x");
}

#[test]
fn status_view_tracks_buffer_and_counter() {
    let mut pipeline = service_main(Vec::new());
    assert_eq!(pipeline.batch_size, BATCH_SIZE);
    let empty = get_buffer_status(&pipeline.buffer, &pipeline.counter);
    assert!(empty.last_item.is_none());
    assert_eq!(empty.buffer_size, 0);
    assert_eq!(empty.total_sent, 0);
    pipeline.buffer.append(snapshot(1));
    pipeline.buffer.append(snapshot(2));
    pipeline.counter.add(50);
    let s = get_buffer_status(&pipeline.buffer, &pipeline.counter);
    let last = s.last_item.unwrap();
    assert_eq!(last.time.secs, 2);
    assert_eq!(last.processes[0].name, "init");
    assert_eq!(last.networks[0].0, "eth0");
    assert_eq!(s.buffer_size, 2);
    assert_eq!(s.total_sent, 50);
}

#[test]
fn successful_then_failed_delivery() {
    let mut counter = SentCounter::new();
    counter.add(2);
    let ok = complete_delivery(&mut counter, 4, Response::Answered(201));
    let failed = complete_delivery(&mut counter, 3, Response::Answered(503));
    assert_eq!(ok, Ok(()));
    assert_eq!(failed, Err(DeliveryError::Status(503)));
    assert_eq!(counter.value(), 6);
}

#[test]
fn failed_delivery_at_counter_bound() {
    let mut counter = SentCounter::new();
    counter.add(usize::MAX);
    assert!(can_take(&counter, 5, Response::Answered(500)));
    assert!(can_take(&counter, 5, Response::Failed));
    assert!(!can_take(&counter, 5, Response::Answered(200)));
    assert!(can_take(&counter, 0, Response::Answered(200)));
    assert_eq!(complete_delivery(&mut counter, 5, Response::Answered(500)), Err(DeliveryError::Status(500)));
    assert_eq!(counter.value(), usize::MAX);
}

fn counters(n: u64) -> NetworkInfo {
    NetworkInfo {
        received_bytes: n,
        total_received_bytes: n * 10,
        transmitted_bytes: n + 1,
        total_transmitted_bytes: n * 10 + 1,
    }
}

#[test]
fn interfaces_one_entry_per_name() {
    let merged = merge_interfaces(vec![
        ("eth0".to_string(), counters(1)),
        ("lo".to_string(), counters(2)),
        ("eth0".to_string(), counters(3)),
    ]);
    assert_eq!(merged, vec![("eth0".to_string(), counters(3)), ("lo".to_string(), counters(2))]);
    assert!(merge_interfaces(Vec::new()).is_empty());
}

#[test]
fn snapshot_merges_interfaces() {
    let system = SystemInfo::from_probe(None, None, 1, None, None);
    let memory = MemoryInfo { total: 1, used: 1, total_swap: 0, used_swap: 0 };
    let snap = PerfInfo::assemble(
        Timestamp::new(0, 0).unwrap(),
        system,
        Vec::new(),
        memory,
        Vec::new(),
        vec![("wlan0".to_string(), counters(4)), ("wlan0".to_string(), counters(5))],
    );
    assert_eq!(snap.networks, vec![("wlan0".to_string(), counters(5))]);
}
