use siem_rust_core::dispatcher::fingerprint_event;
use siem_rust_core::dispatcher::Dispatcher;
use siem_rust_core::dispatcher::DispatcherConfig;
use siem_rust_core::dispatcher::DispatcherError;
use siem_rust_core::dispatcher::DropReason;
use siem_rust_core::dispatcher::SubmitResult;
use siem_rust_core::model::RawEvent;
use siem_rust_core::model::SourceKind;
use siem_rust_core::text::hash_bytes;

fn event(id: &str, message: &str, source_ip: &str) -> RawEvent {
    RawEvent {
        id: id.to_string(),
        timestamp: 1_640_995_200_000_000_000,
        source_kind: SourceKind::Auth,
        source_id: "adapter-1".to_string(),
        source_ip: source_ip.to_string(),
        destination_ip: "".to_string(),
        user_id: "u1".to_string(),
        action: "login".to_string(),
        message: message.to_string(),
        attributes: vec![("k".to_string(), "v".to_string())],
    }
}

fn config(workers: usize, capacity: usize) -> DispatcherConfig {
    DispatcherConfig {
        worker_count: workers,
        shard_queue_capacity: capacity,
        dedup_window_ms: 60_000,
        dedup_capacity: 8,
    }
}

#[test]
fn dispatcher_needs_a_worker() {
    assert!(matches!(Dispatcher::new(config(0, 1)), Err(DispatcherError::NoWorkers)));
    assert!(Dispatcher::new(config(1, 0)).is_ok());
    assert_eq!(DispatcherConfig::standard().shard_queue_capacity, 1_000_000);
    assert_eq!(DispatcherConfig::standard().dedup_window_ms, 60_000);
}

#[test]
fn full_queue_drops_the_newcomer() {
    let mut d = Dispatcher::new(config(1, 2)).unwrap();
    assert_eq!(d.submit(event("a", "one", "10.0.0.1"), 0), SubmitResult::Ack { shard: 0 });
    assert_eq!(d.submit(event("b", "two", "10.0.0.1"), 0), SubmitResult::Ack { shard: 0 });
    // the queue stands at its capacity
    assert_eq!(
        d.submit(event("c", "three", "10.0.0.1"), 0),
        SubmitResult::Dropped(DropReason::QueueFull)
    );
    assert_eq!(d.queue_len(0), 2);
    assert_eq!(d.counters().dropped_queue_full, 1);
    assert_eq!(d.counters().accepted, 2);
    // after a consumption the same event is taken
    assert_eq!(d.next_event(0).unwrap().id, "a");
    assert_eq!(d.submit(event("c", "three", "10.0.0.1"), 0), SubmitResult::Ack { shard: 0 });
    assert_eq!(d.next_event(0).unwrap().id, "b");
    assert_eq!(d.next_event(0).unwrap().id, "c");
    assert!(d.next_event(0).is_none());
    assert!(d.next_event(7).is_none());
    assert_eq!(d.queue_len(7), 0);
}

#[test]
fn duplicates_are_suppressed_within_the_window() {
    let mut d = Dispatcher::new(config(1, 10)).unwrap();
    assert_eq!(d.submit(event("a", "same", "10.0.0.1"), 1_000), SubmitResult::Ack { shard: 0 });
    assert_eq!(
        d.submit(event("a", "same", "10.0.0.1"), 11_000),
        SubmitResult::Dropped(DropReason::DuplicateWithinWindow)
    );
    assert_eq!(
        d.submit(event("other id", "same", "10.0.0.9"), 60_999),
        SubmitResult::Dropped(DropReason::DuplicateWithinWindow)
    );
    assert_eq!(d.counters().dropped_duplicate, 2);
    assert_eq!(d.queue_len(0), 1);
    // another source, or the window run out: taken
    let mut elsewhere = event("b", "same", "10.0.0.1");
    elsewhere.source_id = "adapter-2".to_string();
    assert_eq!(d.submit(elsewhere, 11_000), SubmitResult::Ack { shard: 0 });
    assert_eq!(d.submit(event("c", "same", "10.0.0.1"), 61_000), SubmitResult::Ack { shard: 0 });
}

#[test]
fn whitelist_turns_events_away_first() {
    let mut d = Dispatcher::new(config(1, 0)).unwrap();
    d.add_to_whitelist("10.0.0.1".to_string());
    d.add_to_whitelist("10.0.0.1".to_string());
    assert_eq!(
        d.submit(event("a", "x", "10.0.0.1"), 0),
        SubmitResult::Dropped(DropReason::WhitelistedEarly)
    );
    assert_eq!(d.counters().dropped_whitelisted, 1);
    d.add_to_whitelist("u1".to_string());
    assert!(d.is_whitelisted(&event("a", "x", "10.9.9.9")));
    d.remove_from_whitelist("u1");
    d.remove_from_whitelist("10.0.0.1");
    assert_eq!(d.submit(event("a", "x", "10.0.0.1"), 0), SubmitResult::Dropped(DropReason::QueueFull));
}

#[test]
fn shards_follow_the_source_address() {
    let mut d = Dispatcher::new(config(4, 10)).unwrap();
    for (i, ip) in ["10.0.0.1", "10.0.0.2", "10.0.0.3", "192.168.7.7"].iter().enumerate() {
        let e = event(&format!("e{}", i), &format!("m{}", i), ip);
        let expected = (hash_bytes(ip.as_bytes()) % 4) as usize;
        assert_eq!(d.shard_for(&e), expected);
        assert_eq!(d.submit(e, 0), SubmitResult::Ack { shard: expected });
        assert_eq!(d.queue_len(expected) > 0, true);
    }
    // FNV-1a, 64 bits
    assert_eq!(hash_bytes(b""), 0xcbf29ce484222325);
    assert_eq!(hash_bytes(b"a"), 0xaf63dc4c8601ec8c);
    assert_eq!(hash_bytes(b"foobar"), 0x85944171f73967e8);
}

#[test]
fn a_shard_is_first_in_first_out() {
    let mut d = Dispatcher::new(config(1, 100)).unwrap();
    for i in 0..20 {
        let mut e = event(&format!("e{}", i), &format!("message {}", i), "10.0.0.1");
        e.source_id = format!("adapter-{}", i % 3);
        assert!(matches!(d.submit(e, i), SubmitResult::Ack { .. }));
    }
    let mut seen = Vec::new();
    while let Some(e) = d.next_event(0) {
        seen.push(e.id);
    }
    let expected: Vec<String> = (0..20).map(|i| format!("e{}", i)).collect();
    assert_eq!(seen, expected);
}

#[test]
fn memory_of_taken_events_is_bounded() {
    let mut d = Dispatcher::new(DispatcherConfig {
        worker_count: 1,
        shard_queue_capacity: 100,
        dedup_window_ms: 60_000,
        dedup_capacity: 2,
    })
    .unwrap();
    assert!(matches!(d.submit(event("a", "one", "10.0.0.1"), 0), SubmitResult::Ack { .. }));
    assert!(matches!(d.submit(event("b", "two", "10.0.0.1"), 1), SubmitResult::Ack { .. }));
    assert!(matches!(d.submit(event("c", "three", "10.0.0.1"), 2), SubmitResult::Ack { .. }));
    // the oldest entry had to leave: the first event is no duplicate any more
    assert!(matches!(d.submit(event("a", "one", "10.0.0.1"), 3), SubmitResult::Ack { .. }));
    assert_eq!(
        d.submit(event("c", "three", "10.0.0.1"), 4),
        SubmitResult::Dropped(DropReason::DuplicateWithinWindow)
    );
}

#[test]
fn fingerprint_covers_message_action_and_attributes() {
    let base = event("a", "m", "10.0.0.1");
    let mut other_id = event("b", "m", "10.9.9.9");
    other_id.timestamp = 5;
    assert_eq!(fingerprint_event(&base), fingerprint_event(&other_id));
    let mut changed = event("a", "m", "10.0.0.1");
    changed.attributes[0].1 = "w".to_string();
    assert_ne!(fingerprint_event(&base), fingerprint_event(&changed));
    let mut changed = event("a", "m", "10.0.0.1");
    changed.action = "logout".to_string();
    assert_ne!(fingerprint_event(&base), fingerprint_event(&changed));
    assert_ne!(fingerprint_event(&base), fingerprint_event(&event("a", "n", "10.0.0.1")));
}
