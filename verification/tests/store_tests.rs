use keepkey_vault::events::{EventBuffer, QueuedEvent};
use keepkey_vault::responses::{ResponseStore, StoredResponse};

fn resp(rid: &str, dev: &str, ts: u64, payload: &str) -> StoredResponse {
    StoredResponse {
        request_id: String::from(rid),
        device_id: String::from(dev),
        timestamp: ts,
        payload: String::from(payload),
    }
}

#[test]
fn responses_are_stored_and_found_by_request_id() {
    let mut store = ResponseStore::new();
    assert!(store.response_for("r-1").is_none());
    store.insert(resp("r-1", "dev-1", 10, "first"));
    let got = store.response_for("r-1").expect("stored");
    assert_eq!(got.payload, "first");
    // the same request id is replaced, not duplicated
    store.insert(resp("r-1", "dev-1", 11, "second"));
    assert_eq!(store.records.len(), 1);
    assert_eq!(store.response_for("r-1").expect("stored").payload, "second");
}

#[test]
fn latest_response_per_device_goes_by_timestamp() {
    let mut store = ResponseStore::new();
    assert!(store.latest_for_device("dev-1").is_none());
    store.insert(resp("a", "dev-1", 5, "old"));
    store.insert(resp("b", "dev-2", 50, "other device"));
    store.insert(resp("c", "dev-1", 9, "new"));
    store.insert(resp("d", "dev-1", 7, "middle"));
    let latest = store.latest_for_device("dev-1").expect("found");
    assert_eq!(latest.payload, "new");
    assert_eq!(latest.timestamp, 9);
    assert_eq!(store.latest_for_device("dev-2").expect("found").payload, "other device");
}

fn ev(name: &str, payload: &str) -> QueuedEvent {
    QueuedEvent { event_name: String::from(name), payload: String::from(payload) }
}

#[test]
fn events_queue_until_readiness_and_flush_in_order() {
    let mut buffer = EventBuffer::new();
    assert!(!buffer.offer(ev("features-updated", "one")));
    assert!(!buffer.offer(ev("pin-request-triggered", "two")));
    assert!(!buffer.offer(ev("response-completed", "three")));
    let flushed = buffer.mark_ready();
    let names: Vec<&str> = flushed.iter().map(|e| e.payload.as_str()).collect();
    assert_eq!(names, vec!["one", "two", "three"]);
    // once ready, events deliver immediately and nothing queues
    assert!(buffer.offer(ev("features-updated", "four")));
    assert_eq!(buffer.queued.len(), 0);
    assert_eq!(buffer.mark_ready().len(), 0);
}
