use kv_store::chars::{joined, same_text, to_chars};
use kv_store::protocol::{Request, Response};
use kv_store::store::KeyValueStore;
use kv_store::text::{
    check_word, decode, encode, encode_request, process_line, process_request, serve_line,
};
use kv_store::words::{is_whitespace, leading_words};

fn text(s: &str) -> String {
    s.to_string()
}

#[test]
fn white_space_is_what_std_says() {
    for n in 0u32..0x11000 {
        if let Some(c) = char::from_u32(n) {
            assert_eq!(is_whitespace(c), c.is_whitespace(), "U+{:04X}", n);
        }
    }
}

#[test]
fn leading_words_splits_like_split_whitespace() {
    let line = "  SET\tkey \u{3000} value\r\n more";
    let all: Vec<String> = line.split_whitespace().map(|w| w.to_string()).collect();
    assert_eq!(leading_words(line, 10), all);
    assert_eq!(leading_words(line, 4), all);
    assert_eq!(leading_words(line, 3), vec![text("SET"), text("key"), text("value")]);
    assert_eq!(leading_words(line, 1), vec![text("SET")]);
    assert_eq!(leading_words(line, 0), Vec::<String>::new());
}

#[test]
fn leading_words_of_blank_text_is_empty() {
    assert_eq!(leading_words("", 3), Vec::<String>::new());
    assert_eq!(leading_words(" \t\n ", 3), Vec::<String>::new());
}

#[test]
fn leading_words_keeps_unicode_words_whole() {
    assert_eq!(
        leading_words("clé ключ 鍵", 3),
        vec![text("clé"), text("ключ"), text("鍵")]
    );
}

#[test]
fn same_text_compares_contents() {
    assert!(same_text("", ""));
    assert!(same_text("SET", "SET"));
    assert!(!same_text("SET", "SEt"));
    assert!(!same_text("SET", "SETS"));
    assert!(!same_text("é", "e"));
}

#[test]
fn to_chars_and_joined() {
    assert_eq!(to_chars("aé鍵"), vec!['a', 'é', '鍵']);
    assert_eq!(joined("ab", "cd"), "abcd");
    assert_eq!(joined("", ""), "");
}

#[test]
fn decode_set_get_delete() {
    assert_eq!(decode("SET k v"), Some(Request::Put { key: text("k"), value: text("v") }));
    assert_eq!(decode("GET k"), Some(Request::Get { key: text("k") }));
    assert_eq!(decode("DELETE k"), Some(Request::Delete { key: text("k") }));
}

#[test]
fn decode_ignores_white_space_around_the_words() {
    assert_eq!(
        decode("  SET   k\tv  \r\n"),
        Some(Request::Put { key: text("k"), value: text("v") })
    );
    assert_eq!(decode("\tGET\u{3000}k\n"), Some(Request::Get { key: text("k") }));
    assert_eq!(decode(" DELETE k "), Some(Request::Delete { key: text("k") }));
}

#[test]
fn decode_rejects_extra_words() {
    assert_eq!(decode("SET a b c"), None);
    assert_eq!(decode("SET k v extra words"), None);
    assert_eq!(decode("GET k extra"), None);
    assert_eq!(decode("DELETE k extra"), None);
    assert_eq!(decode("GET k v w x y z"), None);
}

#[test]
fn decode_rejects_missing_words() {
    assert_eq!(decode("SET"), None);
    assert_eq!(decode("SET k"), None);
    assert_eq!(decode("GET"), None);
    assert_eq!(decode("DELETE"), None);
    assert_eq!(decode(""), None);
    assert_eq!(decode("   "), None);
}

#[test]
fn decode_rejects_unknown_verbs() {
    assert_eq!(decode("PUT k v"), None);
    assert_eq!(decode("set k v"), None);
    assert_eq!(decode("GETS k"), None);
    assert_eq!(decode("k GET"), None);
}

#[test]
fn encode_gives_the_exact_reply_lines() {
    assert_eq!(encode(&Response::Stored), "Value set successfully\n");
    assert_eq!(encode(&Response::Deleted), "Key deleted\n");
    assert_eq!(encode(&Response::Unsupported), "Unsupported command\n");
    assert_eq!(encode(&Response::NotSaved), "Persistence failed\n");
    assert_eq!(encode(&Response::Value { key: text("k"), value: None }), "Key not found\n");
    assert_eq!(
        encode(&Response::Value { key: text("k"), value: Some(text("some value")) }),
        "some value\n"
    );
    assert_eq!(encode(&Response::Value { key: text("k"), value: Some(text("")) }), "\n");
}

#[test]
fn set_line_then_get_line() {
    let mut store = KeyValueStore::new();
    assert_eq!(process_line("SET color blue", &mut store), "Value set successfully\n");
    assert_eq!(process_line("GET color", &mut store), "blue\n");
    assert_eq!(process_line("SET color red", &mut store), "Value set successfully\n");
    assert_eq!(process_line("GET color", &mut store), "red\n");
}

#[test]
fn delete_line_then_get_line() {
    let mut store = KeyValueStore::new();
    store.set("color", "blue");
    assert_eq!(process_line("DELETE color", &mut store), "Key deleted\n");
    assert_eq!(process_line("GET color", &mut store), "Key not found\n");
    assert_eq!(process_line("DELETE color", &mut store), "Key deleted\n");
    assert_eq!(process_line("DELETE never-there", &mut store), "Key deleted\n");
    assert_eq!(process_line("GET never-there", &mut store), "Key not found\n");
    assert_eq!(store.len(), 0);
}

#[test]
fn malformed_line_leaves_the_store_unchanged() {
    let mut store = KeyValueStore::new();
    store.set("a", "1");
    let lines = [
        "SET", "SET a", "GET", "DELETE", "", "FLUSH", "set a 2", "a SET 2", "SET a b c",
        "SET a 2 3", "GET a b", "DELETE a b",
    ];
    for line in lines {
        assert_eq!(process_line(line, &mut store), "Unsupported command\n", "{:?}", line);
        assert_eq!(store.entries(), vec![(text("a"), text("1"))]);
    }
    assert_eq!(process_line("GET a", &mut store), "1\n");
}

#[test]
fn serve_line_gives_the_response() {
    let mut store = KeyValueStore::new();
    assert_eq!(serve_line("SET a 1", &mut store), Response::Stored);
    assert_eq!(
        serve_line("GET a", &mut store),
        Response::Value { key: text("a"), value: Some(text("1")) }
    );
    assert_eq!(serve_line("nonsense", &mut store), Response::Unsupported);
}

#[test]
fn process_request_reads_bytes_as_utf8() {
    let mut store = KeyValueStore::new();
    assert_eq!(process_request(b"SET k v\n", &mut store), "Value set successfully\n");
    assert_eq!(process_request(b"GET k", &mut store), "v\n");
    assert_eq!(
        process_request("SET clé valeur".as_bytes(), &mut store),
        "Value set successfully\n"
    );
    assert_eq!(process_request("GET clé".as_bytes(), &mut store), "valeur\n");
    assert_eq!(process_request(b"", &mut store), "Unsupported command\n");
}

#[test]
fn process_request_replaces_invalid_utf8() {
    let mut store = KeyValueStore::new();
    assert_eq!(process_request(b"SET k\xFF v\xFE", &mut store), "Value set successfully\n");
    assert_eq!(store.get("k\u{FFFD}"), Some(text("v\u{FFFD}")));
    assert_eq!(process_request(b"GET k\xFF", &mut store), "v\u{FFFD}\n");
    assert_eq!(process_request(b"\xFFGET k", &mut store), "Unsupported command\n");
}

#[test]
fn check_word_wants_text_without_white_space() {
    assert!(check_word("key"));
    assert!(check_word("clé"));
    assert!(!check_word(""));
    assert!(!check_word("two words"));
    assert!(!check_word("tab\t"));
    assert!(!check_word("\u{2003}"));
}

#[test]
fn encode_request_gives_the_request_line() {
    assert_eq!(
        encode_request(&Request::Put { key: text("k"), value: text("v") }),
        Some(text("SET k v"))
    );
    assert_eq!(encode_request(&Request::Get { key: text("k") }), Some(text("GET k")));
    assert_eq!(encode_request(&Request::Delete { key: text("k") }), Some(text("DELETE k")));
}

#[test]
fn encode_request_refuses_what_a_line_cannot_say() {
    assert_eq!(encode_request(&Request::Put { key: text("a b"), value: text("v") }), None);
    assert_eq!(encode_request(&Request::Put { key: text("k"), value: text("") }), None);
    assert_eq!(encode_request(&Request::Get { key: text("") }), None);
    assert_eq!(encode_request(&Request::Delete { key: text("a\nb") }), None);
    assert_eq!(encode_request(&Request::BatchPut { pairs: Vec::new() }), None);
}

#[test]
fn decode_undoes_encode_request() {
    let requests = vec![
        Request::Put { key: text("k"), value: text("v") },
        Request::Put { key: text("SET"), value: text("GET") },
        Request::Get { key: text("clé") },
        Request::Delete { key: text("DELETE") },
    ];
    for request in requests {
        let line = encode_request(&request).unwrap();
        assert_eq!(decode(&line), Some(request));
    }
}
