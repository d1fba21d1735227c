use kv_store::store::KeyValueStore;

fn pair(k: &str, v: &str) -> (String, String) {
    (k.to_string(), v.to_string())
}

fn sorted(mut entries: Vec<(String, String)>) -> Vec<(String, String)> {
    entries.sort();
    entries
}

#[test]
fn set_then_get_returns_the_value() {
    let mut store = KeyValueStore::new();
    store.set("name", "ada");
    assert_eq!(store.get("name"), Some("ada".to_string()));
}

#[test]
fn get_of_a_missing_key_is_none() {
    let store = KeyValueStore::new();
    assert_eq!(store.get("nothing"), None);
    assert_eq!(store.get_ref("nothing"), None);
    assert_eq!(store.len(), 0);
}

#[test]
fn set_overwrites_and_keeps_one_value_per_key() {
    let mut store = KeyValueStore::new();
    store.set("k", "one");
    store.set("k", "two");
    assert_eq!(store.get("k"), Some("two".to_string()));
    assert_eq!(store.len(), 1);
    assert_eq!(store.entries(), vec![pair("k", "two")]);
}

#[test]
fn set_leaves_other_keys_alone() {
    let mut store = KeyValueStore::new();
    store.set("a", "1");
    store.set("b", "2");
    store.set("a", "3");
    assert_eq!(store.get("a"), Some("3".to_string()));
    assert_eq!(store.get("b"), Some("2".to_string()));
    assert_eq!(store.len(), 2);
}

#[test]
fn an_empty_value_is_not_an_absent_key() {
    let mut store = KeyValueStore::new();
    store.set("k", "");
    assert_eq!(store.get("k"), Some(String::new()));
    assert_eq!(store.get("other"), None);
}

#[test]
fn delete_returns_the_old_value_and_removes_the_key() {
    let mut store = KeyValueStore::new();
    store.set("a", "1");
    store.set("b", "2");
    assert_eq!(store.delete("a"), Some("1".to_string()));
    assert_eq!(store.get("a"), None);
    assert_eq!(store.get("b"), Some("2".to_string()));
    assert_eq!(store.len(), 1);
}

#[test]
fn delete_of_a_missing_key_is_a_no_op() {
    let mut store = KeyValueStore::new();
    store.set("a", "1");
    assert_eq!(store.delete("zz"), None);
    assert_eq!(store.entries(), vec![pair("a", "1")]);
}

#[test]
fn delete_is_idempotent() {
    let mut store = KeyValueStore::new();
    store.set("a", "1");
    store.delete("a");
    for _ in 0..3 {
        assert_eq!(store.delete("a"), None);
        assert_eq!(store.get("a"), None);
    }
}

#[test]
fn set_is_idempotent() {
    let mut store = KeyValueStore::new();
    store.set("a", "1");
    let once = sorted(store.entries());
    store.set("a", "1");
    store.set("a", "1");
    assert_eq!(sorted(store.entries()), once);
    assert_eq!(store.get("a"), Some("1".to_string()));
}

#[test]
fn put_takes_owned_text() {
    let mut store = KeyValueStore::new();
    store.put("k".to_string(), "v".to_string());
    assert_eq!(store.get_ref("k"), Some(&"v".to_string()));
}

#[test]
fn batch_put_sets_every_pair() {
    let mut store = KeyValueStore::new();
    store.batch_put(&vec![pair("k1", "v1"), pair("k2", "v2")]);
    assert_eq!(store.get("k1"), Some("v1".to_string()));
    assert_eq!(store.get("k2"), Some("v2".to_string()));
    assert_eq!(store.len(), 2);
}

#[test]
fn batch_put_lets_the_later_pair_win() {
    let mut store = KeyValueStore::new();
    store.set("a", "old");
    store.set("keep", "me");
    store.batch_put(&vec![pair("a", "1"), pair("b", "2"), pair("a", "3")]);
    assert_eq!(
        sorted(store.entries()),
        vec![pair("a", "3"), pair("b", "2"), pair("keep", "me")]
    );
}

#[test]
fn batch_put_of_nothing_changes_nothing() {
    let mut store = KeyValueStore::new();
    store.set("a", "1");
    store.batch_put(&Vec::new());
    assert_eq!(store.entries(), vec![pair("a", "1")]);
}

#[test]
fn keys_differ_by_case_and_by_unicode() {
    let mut store = KeyValueStore::new();
    store.set("key", "lower");
    store.set("KEY", "upper");
    store.set("clé", "accent");
    assert_eq!(store.get("key"), Some("lower".to_string()));
    assert_eq!(store.get("KEY"), Some("upper".to_string()));
    assert_eq!(store.get("clé"), Some("accent".to_string()));
    assert_eq!(store.get("cle"), None);
    assert_eq!(store.len(), 3);
}

#[test]
fn requests_on_different_keys_commute() {
    let mut one = KeyValueStore::new();
    one.set("a", "1");
    one.delete("b");
    one.set("c", "3");
    let mut other = KeyValueStore::new();
    other.set("c", "3");
    other.set("a", "1");
    other.delete("b");
    assert_eq!(sorted(one.entries()), sorted(other.entries()));
}
