use lynxrdp_client::outbound::{Backlog, MAX_BYTES};

#[test]
fn graceful_close_preserves_message_order_and_collects_worker() {
    let mut backlog = Backlog::new();
    for _ in 0..100 {
        backlog.send(128).unwrap();
    }
    assert_eq!(backlog.queued, 12_800);
    backlog.close();
    // What waits is still written; nothing more is taken.
    assert_eq!(
        backlog.send(1),
        Err("connection writer closed".to_string())
    );
    for _ in 0..100 {
        backlog.written(128);
    }
    assert_eq!(backlog.queued, 0);
    assert_eq!(backlog.error, None);
}

#[test]
fn a_stalled_peer_cannot_block_sends_or_abandonment_or_grow_the_queue() {
    let mut backlog = Backlog::new();
    let mut overloaded = false;
    for _ in 0..4096 {
        if backlog.send(64 * 1024).is_err() {
            overloaded = true;
            break;
        }
        assert!(backlog.queued <= MAX_BYTES);
    }
    assert!(
        overloaded,
        "a peer that never reads must hit the queue limit"
    );
    assert!(backlog.error.is_some());
    assert_eq!(
        backlog.send(1),
        Err("outgoing connection stalled: byte queue limit reached".to_string())
    );
    backlog.close();
    assert!(!backlog.open);
}

#[test]
fn the_first_failure_stays() {
    let mut backlog = Backlog::new();
    backlog.send(10).unwrap();
    assert_eq!(
        backlog.refused(10),
        "outgoing connection stalled: message queue unavailable"
    );
    assert_eq!(backlog.queued, 0);
    assert_eq!(
        backlog.fail("later"),
        "outgoing connection stalled: message queue unavailable"
    );
    let mut backlog = Backlog::new();
    backlog.write_failed("broken pipe");
    let first = backlog.error.clone().unwrap();
    assert!(first.contains("broken pipe"), "{first}");
    backlog.write_failed("again");
    assert_eq!(backlog.error, Some(first));
}
