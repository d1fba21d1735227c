use kv_store::snapshot::{from_pairs, load, save, SnapshotError};
use kv_store::store::KeyValueStore;
use std::collections::BTreeMap;

fn pair(k: &str, v: &str) -> (String, String) {
    (k.to_string(), v.to_string())
}

fn sorted(mut entries: Vec<(String, String)>) -> Vec<(String, String)> {
    entries.sort();
    entries
}

#[test]
fn snapshot_of_an_empty_store() {
    assert_eq!(save(&KeyValueStore::new()), "{}");
}

#[test]
fn snapshot_is_one_json_object_ordered_by_key() {
    let mut store = KeyValueStore::new();
    store.set("b", "2");
    store.set("a", "1");
    store.set("c", "");
    assert_eq!(save(&store), r#"{"a":"1","b":"2","c":""}"#);
}

#[test]
fn snapshot_does_not_depend_on_the_order_of_writes() {
    let mut one = KeyValueStore::new();
    one.set("a", "1");
    one.set("b", "2");
    let mut other = KeyValueStore::new();
    other.set("b", "0");
    other.set("a", "1");
    other.set("b", "2");
    assert_eq!(save(&one), save(&other));
}

#[test]
fn snapshot_escapes_what_json_must_escape() {
    let mut store = KeyValueStore::new();
    store.set("quote\"d", "line\nfeed");
    assert_eq!(save(&store), r#"{"quote\"d":"line\nfeed"}"#);
}

#[test]
fn load_reads_an_object_of_strings() {
    let store = load(br#"{"a": "1", "b": "2"}"#).unwrap();
    assert_eq!(sorted(store.entries()), vec![pair("a", "1"), pair("b", "2")]);
    assert_eq!(store.get("a"), Some("1".to_string()));
}

#[test]
fn load_of_an_empty_object_is_an_empty_store() {
    let store = load(b"{}").unwrap();
    assert_eq!(store.len(), 0);
}

#[test]
fn load_lets_the_later_member_win() {
    let store = load(br#"{"a":"1","a":"2"}"#).unwrap();
    assert_eq!(store.entries(), vec![pair("a", "2")]);
}

#[test]
fn load_fails_on_what_is_no_snapshot() {
    for data in [&b""[..], b"not json", b"[]", b"{\"a\":1}", b"{\"a\":\"1\"", b"{} x", b"\xFF"] {
        let expected = serde_json::from_slice::<BTreeMap<String, String>>(data).unwrap_err();
        let error = load(data).err().unwrap();
        assert_eq!(error, SnapshotError { line: expected.line(), column: expected.column() });
    }
}

#[test]
fn load_error_says_where() {
    assert_eq!(load(b"{\"a\":\n 7}").err(), Some(SnapshotError { line: 2, column: 2 }));
    assert_eq!(load(b"").err(), Some(SnapshotError { line: 1, column: 0 }));
}

#[test]
fn set_survives_save_and_load() {
    let mut store = KeyValueStore::new();
    store.set("k", "v");
    store.set("clé", "va\"leur\n");
    store.set("empty", "");
    let snapshot = save(&store);
    let reloaded = load(snapshot.as_bytes()).unwrap();
    assert_eq!(reloaded.get("k"), Some("v".to_string()));
    assert_eq!(reloaded.get("clé"), Some("va\"leur\n".to_string()));
    assert_eq!(reloaded.get("empty"), Some(String::new()));
    assert_eq!(sorted(reloaded.entries()), sorted(store.entries()));
}

#[test]
fn deleted_key_stays_deleted_after_reload() {
    let mut store = KeyValueStore::new();
    store.set("a", "1");
    store.set("b", "2");
    store.delete("a");
    let reloaded = load(save(&store).as_bytes()).unwrap();
    assert_eq!(reloaded.get("a"), None);
    assert_eq!(reloaded.entries(), vec![pair("b", "2")]);
}

#[test]
fn from_pairs_upserts_in_order() {
    let store = from_pairs(&vec![pair("a", "1"), pair("b", "2"), pair("a", "3")]);
    assert_eq!(sorted(store.entries()), vec![pair("a", "3"), pair("b", "2")]);
    assert_eq!(from_pairs(&Vec::new()).len(), 0);
}
