use kv_store::node::Node;
use kv_store::storage::{parse_initial_data, Storage};

fn pair(k: &str, v: &str) -> (String, String) {
    (k.to_string(), v.to_string())
}

#[test]
fn initial_data_is_a_list_of_pairs() {
    assert_eq!(parse_initial_data("a=1,b=2"), vec![pair("a", "1"), pair("b", "2")]);
    assert_eq!(parse_initial_data("a=1"), vec![pair("a", "1")]);
}

#[test]
fn initial_data_skips_entries_without_an_equals_sign() {
    assert_eq!(parse_initial_data(""), Vec::new());
    assert_eq!(parse_initial_data("a"), Vec::new());
    assert_eq!(parse_initial_data("a,b=2,,c"), vec![pair("b", "2")]);
    assert_eq!(parse_initial_data(",,"), Vec::new());
}

#[test]
fn initial_data_cuts_a_value_at_a_second_equals_sign() {
    assert_eq!(parse_initial_data("a=b=c,d=e"), vec![pair("a", "b"), pair("d", "e")]);
    assert_eq!(parse_initial_data("a==c"), vec![pair("a", "")]);
}

#[test]
fn initial_data_may_have_empty_keys_and_values() {
    assert_eq!(parse_initial_data("=v,k=,="), vec![pair("", "v"), pair("k", ""), pair("", "")]);
    assert_eq!(parse_initial_data("a=1,"), vec![pair("a", "1")]);
}

#[test]
fn initial_data_agrees_with_split() {
    for data in ["", "a=1,b=2", "a=b=c,,x,=,k=,é=ü", "a=1,a=2", " a = 1 , b"] {
        let mut expected = Vec::new();
        for entry in data.split(',') {
            let mut parts = entry.split('=');
            if let (Some(key), Some(value)) = (parts.next(), parts.next()) {
                expected.push(pair(key, value));
            }
        }
        assert_eq!(parse_initial_data(data), expected, "{:?}", data);
    }
}

#[test]
fn storage_starts_empty_without_initial_data() {
    let storage = Storage::init(None);
    assert_eq!(storage.retrieve("a"), None);
}

#[test]
fn storage_starts_with_its_initial_data() {
    let storage = Storage::init(Some("a=1,b=2,a=3"));
    assert_eq!(storage.retrieve("a"), Some(&"3".to_string()));
    assert_eq!(storage.retrieve("b"), Some(&"2".to_string()));
    assert_eq!(storage.retrieve("c"), None);
}

#[test]
fn storage_store_then_retrieve() {
    let mut storage = Storage::init(None);
    storage.store("k".to_string(), "v".to_string());
    assert_eq!(storage.retrieve("k"), Some(&"v".to_string()));
    storage.store("k".to_string(), "w".to_string());
    assert_eq!(storage.retrieve("k"), Some(&"w".to_string()));
    assert_eq!(storage.retrieve("other"), None);
}

#[test]
fn node_create_and_operate() {
    let node = Node::create();
    assert!(node.operate());
    assert_eq!(node.address(), "");
    assert_eq!(node.get("key1"), None);
}

#[test]
fn node_set_then_get() {
    let mut node = Node::new("127.0.0.1:8080".to_string());
    assert_eq!(node.address(), "127.0.0.1:8080");
    node.set("key1".to_string(), "value1".to_string());
    assert_eq!(node.get("key1"), Some("value1".to_string()));
    assert_eq!(node.get("key2"), None);
}

#[test]
fn node_remembers_what_it_computed() {
    let mut node = Node::create();
    assert_eq!(
        node.expensive_computation("example_key", "example_value"),
        "ExpensiveResultOf_example_value"
    );
    assert_eq!(
        node.expensive_computation("example_key", "another_value"),
        "ExpensiveResultOf_example_value"
    );
    assert_eq!(node.expensive_computation("other_key", ""), "ExpensiveResultOf_");
    assert_eq!(node.get("example_key"), None);
}
