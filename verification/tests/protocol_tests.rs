use kv_store::command::{reply_after_save, Command};
use kv_store::protocol::{dispatch, ProtocolHandler, Request, Response};
use kv_store::store::KeyValueStore;

fn text(s: &str) -> String {
    s.to_string()
}

#[test]
fn dispatch_get_answers_with_key_and_value() {
    let mut store = KeyValueStore::new();
    store.set("a", "1");
    assert_eq!(
        dispatch(&mut store, Request::Get { key: text("a") }),
        Response::Value { key: text("a"), value: Some(text("1")) }
    );
    assert_eq!(
        dispatch(&mut store, Request::Get { key: text("b") }),
        Response::Value { key: text("b"), value: None }
    );
    assert_eq!(store.len(), 1);
}

#[test]
fn dispatch_put_then_get() {
    let mut store = KeyValueStore::new();
    assert_eq!(
        dispatch(&mut store, Request::Put { key: text("k"), value: text("v") }),
        Response::Stored
    );
    assert_eq!(
        dispatch(&mut store, Request::Get { key: text("k") }),
        Response::Value { key: text("k"), value: Some(text("v")) }
    );
}

#[test]
fn dispatch_delete_then_get() {
    let mut store = KeyValueStore::new();
    store.set("k", "v");
    assert_eq!(dispatch(&mut store, Request::Delete { key: text("k") }), Response::Deleted);
    assert_eq!(
        dispatch(&mut store, Request::Get { key: text("k") }),
        Response::Value { key: text("k"), value: None }
    );
    assert_eq!(dispatch(&mut store, Request::Delete { key: text("k") }), Response::Deleted);
    assert_eq!(store.len(), 0);
}

#[test]
fn dispatch_batch_put_sets_both_keys() {
    let mut store = KeyValueStore::new();
    let pairs = vec![(text("k1"), text("v1")), (text("k2"), text("v2"))];
    assert_eq!(dispatch(&mut store, Request::BatchPut { pairs }), Response::Stored);
    assert_eq!(store.get("k1"), Some(text("v1")));
    assert_eq!(store.get("k2"), Some(text("v2")));
}

#[test]
fn only_reads_are_no_mutation() {
    assert!(!Request::Get { key: text("a") }.is_mutation());
    assert!(Request::Put { key: text("a"), value: text("b") }.is_mutation());
    assert!(Request::Delete { key: text("a") }.is_mutation());
    assert!(Request::BatchPut { pairs: Vec::new() }.is_mutation());
}

#[test]
fn protocol_handler_accepts_everything() {
    let handler = ProtocolHandler::init();
    assert!(handler.handle_request("SET a b"));
    assert!(handler.handle_request(""));
}

#[test]
fn command_put_is_not_answered() {
    let mut store = KeyValueStore::new();
    let reply = store.process_command(Command::Put { key: text("k"), value: text("v") });
    assert_eq!(reply, None);
    assert_eq!(store.get("k"), Some(text("v")));
}

#[test]
fn command_batch_put_then_fetch() {
    let mut store = KeyValueStore::new();
    let reply = store.process_command(Command::BatchPut(vec![
        (text("key1"), text("value1")),
        (text("key2"), text("value2")),
    ]));
    assert_eq!(reply, None);
    assert_eq!(
        store.process_command(Command::Fetch { key: text("key1") }),
        Some(Command::Reply { key: Some(text("key1")), value: Some(text("value1")) })
    );
    assert_eq!(
        store.process_command(Command::Fetch { key: text("key2") }),
        Some(Command::Reply { key: Some(text("key2")), value: Some(text("value2")) })
    );
}

#[test]
fn command_fetch_of_a_missing_key_is_answered_without_a_value() {
    let mut store = KeyValueStore::new();
    assert_eq!(
        store.process_command(Command::Fetch { key: text("nope") }),
        Some(Command::Reply { key: Some(text("nope")), value: None })
    );
    assert_eq!(store.len(), 0);
}

#[test]
fn command_fetch_tells_an_empty_value_from_an_absent_key() {
    let mut store = KeyValueStore::new();
    store.set("empty", "");
    assert_eq!(
        store.process_command(Command::Fetch { key: text("empty") }),
        Some(Command::Reply { key: Some(text("empty")), value: Some(text("")) })
    );
    assert_eq!(
        store.process_command(Command::Fetch { key: text("absent") }),
        Some(Command::Reply { key: Some(text("absent")), value: None })
    );
}

#[test]
fn command_put_and_batch_put_are_mutations() {
    assert!(Command::Put { key: text("k"), value: text("v") }.is_mutation());
    assert!(Command::BatchPut(Vec::new()).is_mutation());
    assert!(!Command::Fetch { key: text("k") }.is_mutation());
    assert!(!Command::Reply { key: None, value: None }.is_mutation());
}

#[test]
fn command_reply_after_a_save() {
    let fetched = || Some(Command::Reply { key: Some(text("k")), value: Some(text("v")) });
    let not_saved = Some(Command::Reply { key: None, value: None });
    assert_eq!(reply_after_save(None, true, true), None);
    assert_eq!(reply_after_save(None, true, false), not_saved);
    assert_eq!(reply_after_save(None, false, false), None);
    assert_eq!(reply_after_save(fetched(), false, false), fetched());
    assert_eq!(reply_after_save(fetched(), false, true), fetched());
}

#[test]
fn command_reply_as_a_request_is_ignored() {
    let mut store = KeyValueStore::new();
    store.set("a", "1");
    let reply = store.process_command(Command::Reply { key: Some(text("a")), value: None });
    assert_eq!(reply, None);
    assert_eq!(store.get("a"), Some(text("1")));
    assert_eq!(store.len(), 1);
}
