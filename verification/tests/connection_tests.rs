use kv_store::connection::{Action, Event, Worker};
use kv_store::store::KeyValueStore;

fn received(bytes: &[u8]) -> Event {
    Event::Received(bytes.to_vec())
}

fn write(reply: &str) -> Action {
    Action::Write { reply: reply.to_string() }
}

#[test]
fn a_new_worker_waits_for_input() {
    let worker = Worker::new(false);
    assert!(!worker.is_closed());
    assert_eq!(worker.buffered(), 0);
}

#[test]
fn a_whole_line_is_served_and_answered() {
    let mut store = KeyValueStore::new();
    let mut worker = Worker::new(false);
    assert_eq!(worker.step(received(b"SET a 1\n"), &mut store), write("Value set successfully\n"));
    assert_eq!(store.get("a"), Some("1".to_string()));
    assert_eq!(worker.buffered(), 0);
    assert_eq!(worker.step(Event::Written, &mut store), Action::Read);
    assert_eq!(worker.step(received(b"GET a\n"), &mut store), write("1\n"));
    assert_eq!(worker.step(Event::Written, &mut store), Action::Read);
    assert!(!worker.is_closed());
}

#[test]
fn bytes_are_gathered_until_the_line_feed() {
    let mut store = KeyValueStore::new();
    let mut worker = Worker::new(false);
    assert_eq!(worker.step(received(b"SET "), &mut store), Action::Read);
    assert_eq!(worker.step(received(b"key va"), &mut store), Action::Read);
    assert_eq!(worker.buffered(), 10);
    assert_eq!(store.len(), 0);
    assert_eq!(worker.step(received(b"lue\r\n"), &mut store), write("Value set successfully\n"));
    assert_eq!(store.get("key"), Some("value".to_string()));
    assert_eq!(worker.buffered(), 0);
}

#[test]
fn lines_received_together_are_answered_in_order() {
    let mut store = KeyValueStore::new();
    let mut worker = Worker::new(false);
    assert_eq!(
        worker.step(received(b"SET a 1\nGET a\nDELETE a\nGET a\nGE"), &mut store),
        write("Value set successfully\n")
    );
    assert_eq!(worker.step(Event::Written, &mut store), write("1\n"));
    assert_eq!(worker.step(Event::Written, &mut store), write("Key deleted\n"));
    assert_eq!(worker.step(Event::Written, &mut store), write("Key not found\n"));
    assert_eq!(worker.step(Event::Written, &mut store), Action::Read);
    assert_eq!(worker.buffered(), 2);
    assert_eq!(worker.step(received(b"T b\n"), &mut store), write("Key not found\n"));
}

#[test]
fn a_malformed_request_is_answered_and_the_connection_goes_on() {
    let mut store = KeyValueStore::new();
    store.set("a", "1");
    let mut worker = Worker::new(true);
    assert_eq!(worker.step(received(b"SET\n"), &mut store), write("Unsupported command\n"));
    assert_eq!(store.entries(), vec![("a".to_string(), "1".to_string())]);
    assert!(!worker.is_closed());
    assert_eq!(worker.step(Event::Written, &mut store), Action::Read);
    assert_eq!(worker.step(received(b"\n"), &mut store), write("Unsupported command\n"));
    assert_eq!(worker.step(Event::Written, &mut store), Action::Read);
    assert_eq!(worker.step(received(b"GET a\n"), &mut store), write("1\n"));
    assert!(!worker.is_closed());
}

#[test]
fn a_line_with_too_many_words_is_answered_and_changes_nothing() {
    let mut store = KeyValueStore::new();
    let mut worker = Worker::new(true);
    assert_eq!(worker.step(received(b"SET a b c\n"), &mut store), write("Unsupported command\n"));
    assert_eq!(store.len(), 0);
    assert_eq!(worker.step(Event::Written, &mut store), Action::Read);
    assert_eq!(worker.step(received(b"GET a b\n"), &mut store), write("Unsupported command\n"));
    assert_eq!(worker.step(Event::Written, &mut store), Action::Read);
    assert_eq!(
        worker.step(received(b"SET a b\n"), &mut store),
        Action::Save { snapshot: r#"{"a":"b"}"#.to_string() }
    );
    assert_eq!(worker.step(Event::Saved, &mut store), write("Value set successfully\n"));
}

#[test]
fn the_peer_leaving_closes_the_worker() {
    let mut store = KeyValueStore::new();
    let mut worker = Worker::new(false);
    assert_eq!(worker.step(received(b"SET a"), &mut store), Action::Read);
    assert_eq!(worker.step(received(b""), &mut store), Action::Close);
    assert!(worker.is_closed());
    assert_eq!(worker.buffered(), 0);
    assert_eq!(store.len(), 0);
}

#[test]
fn a_failed_read_closes_the_worker() {
    let mut store = KeyValueStore::new();
    let mut worker = Worker::new(false);
    assert_eq!(worker.step(Event::ReadFailed, &mut store), Action::Close);
    assert!(worker.is_closed());
}

#[test]
fn a_failed_write_closes_the_worker_and_keeps_the_change() {
    let mut store = KeyValueStore::new();
    let mut worker = Worker::new(false);
    assert_eq!(
        worker.step(received(b"SET a 1\nSET b 2\n"), &mut store),
        write("Value set successfully\n")
    );
    assert_eq!(worker.step(Event::WriteFailed, &mut store), Action::Close);
    assert!(worker.is_closed());
    assert_eq!(store.get("a"), Some("1".to_string()));
    assert_eq!(store.get("b"), None);
}

#[test]
fn a_closed_worker_leaves_the_store_alone() {
    let mut store = KeyValueStore::new();
    let mut worker = Worker::new(true);
    worker.step(Event::ReadFailed, &mut store);
    for event in [
        received(b"SET a 1\n"),
        Event::Written,
        Event::Saved,
        Event::SaveFailed,
        Event::ReadFailed,
        Event::WriteFailed,
    ] {
        assert_eq!(worker.step(event, &mut store), Action::Close);
        assert!(worker.is_closed());
        assert_eq!(store.len(), 0);
    }
}

#[test]
fn an_event_out_of_turn_closes_the_worker() {
    let mut store = KeyValueStore::new();
    let mut worker = Worker::new(false);
    assert_eq!(worker.step(Event::Written, &mut store), Action::Close);
    assert!(worker.is_closed());
    let mut worker = Worker::new(false);
    assert_eq!(worker.step(received(b"GET a\n"), &mut store), write("Key not found\n"));
    assert_eq!(worker.step(received(b"GET a\n"), &mut store), Action::Close);
    let mut worker = Worker::new(true);
    assert_eq!(worker.step(Event::Saved, &mut store), Action::Close);
}

#[test]
fn a_persistent_worker_saves_after_a_mutation() {
    let mut store = KeyValueStore::new();
    let mut worker = Worker::new(true);
    assert_eq!(
        worker.step(received(b"SET b 2\n"), &mut store),
        Action::Save { snapshot: r#"{"b":"2"}"#.to_string() }
    );
    assert_eq!(worker.step(Event::Saved, &mut store), write("Value set successfully\n"));
    assert_eq!(worker.step(Event::Written, &mut store), Action::Read);
    assert_eq!(
        worker.step(received(b"SET a 1\n"), &mut store),
        Action::Save { snapshot: r#"{"a":"1","b":"2"}"#.to_string() }
    );
    assert_eq!(worker.step(Event::Saved, &mut store), write("Value set successfully\n"));
    assert_eq!(worker.step(Event::Written, &mut store), Action::Read);
    assert_eq!(
        worker.step(received(b"DELETE b\n"), &mut store),
        Action::Save { snapshot: r#"{"a":"1"}"#.to_string() }
    );
    assert_eq!(worker.step(Event::Saved, &mut store), write("Key deleted\n"));
}

#[test]
fn a_persistent_worker_saves_after_a_delete_of_a_missing_key() {
    let mut store = KeyValueStore::new();
    let mut worker = Worker::new(true);
    assert_eq!(
        worker.step(received(b"DELETE nothing\n"), &mut store),
        Action::Save { snapshot: "{}".to_string() }
    );
}

#[test]
fn a_read_is_never_saved() {
    let mut store = KeyValueStore::new();
    store.set("a", "1");
    let mut worker = Worker::new(true);
    assert_eq!(worker.step(received(b"GET a\n"), &mut store), write("1\n"));
    assert_eq!(worker.step(Event::Written, &mut store), Action::Read);
    assert_eq!(worker.step(received(b"GET b\n"), &mut store), write("Key not found\n"));
}

#[test]
fn a_failed_save_is_reported_and_not_rolled_back() {
    let mut store = KeyValueStore::new();
    let mut worker = Worker::new(true);
    assert_eq!(
        worker.step(received(b"SET a 1\n"), &mut store),
        Action::Save { snapshot: r#"{"a":"1"}"#.to_string() }
    );
    assert_eq!(worker.step(Event::SaveFailed, &mut store), write("Persistence failed\n"));
    assert_eq!(store.get("a"), Some("1".to_string()));
    assert_eq!(worker.step(Event::Written, &mut store), Action::Read);
    assert_eq!(worker.step(received(b"GET a\n"), &mut store), write("1\n"));
}

#[test]
fn a_worker_that_is_not_persistent_never_saves() {
    let mut store = KeyValueStore::new();
    let mut worker = Worker::new(false);
    assert_eq!(worker.step(received(b"SET a 1\n"), &mut store), write("Value set successfully\n"));
    assert_eq!(worker.step(Event::Written, &mut store), Action::Read);
    assert_eq!(worker.step(received(b"DELETE a\n"), &mut store), write("Key deleted\n"));
}

#[test]
fn invalid_utf8_in_a_line_is_replaced() {
    let mut store = KeyValueStore::new();
    let mut worker = Worker::new(false);
    assert_eq!(
        worker.step(received(b"SET k\xC3 v\n"), &mut store),
        write("Value set successfully\n")
    );
    assert_eq!(store.get("k\u{FFFD}"), Some("v".to_string()));
}

#[test]
fn two_connections_share_one_store() {
    let mut store = KeyValueStore::new();
    let mut one = Worker::new(false);
    let mut two = Worker::new(false);
    assert_eq!(one.step(received(b"SET a 1\n"), &mut store), write("Value set successfully\n"));
    assert_eq!(two.step(received(b"SET b 2\n"), &mut store), write("Value set successfully\n"));
    assert_eq!(one.step(Event::Written, &mut store), Action::Read);
    assert_eq!(two.step(Event::Written, &mut store), Action::Read);
    assert_eq!(two.step(received(b"GET a\n"), &mut store), write("1\n"));
    assert_eq!(one.step(received(b"GET b\n"), &mut store), write("2\n"));
}
