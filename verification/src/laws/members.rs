//! What holds of the requests of the JSON protocol.

use vstd::prelude::*;
use crate::json::{is_key, members_effect, members_reply, JsonRequestText};
use crate::store::{lookup, TextMap};

verus! {

/// The request that asks to set `key` to `value`.
pub open spec fn set_request(key: Seq<char>, value: Seq<char>) -> JsonRequestText {
    JsonRequestText { kind: Some("set"@), key: Some(key), value: Some(value) }
}

/// The request that asks for the value of `key`.
pub open spec fn get_request(key: Seq<char>) -> JsonRequestText {
    JsonRequestText { kind: Some("get"@), key: Some(key), value: None }
}

/// The two types are not the same.
proof fn lemma_types()
    ensures
        "set"@ != "get"@,
{
    reveal_strlit("set");
    reveal_strlit("get");
    assert("set"@[0] == 's');
    assert("get"@[0] == 'g');
}

/// A read after a write gives what was written, as it was written: once a
/// `set` of `key` to `value` was served, a `get` of `key` is answered with
/// `value` and a line feed, whatever characters `value` holds.
pub proof fn law_json_get_after_set(m: TextMap, key: Seq<char>, value: Seq<char>)
    requires
        key.len() > 0,
    ensures
        members_effect(m, set_request(key, value)) == m.insert(key, value),
        members_reply(m, set_request(key, value)) == "OK\n"@,
        members_reply(members_effect(m, set_request(key, value)), get_request(key)) == value
            + "\n"@,
        members_effect(m.insert(key, value), get_request(key)) == m.insert(key, value),
{
    lemma_types();
}

/// A `set` without a key that is a non-empty string, or without a value
/// that is a string, and a `get` without such a key, are answered with
/// `Invalid request` and change nothing.
pub proof fn law_json_malformed_changes_nothing(m: TextMap, r: JsonRequestText)
    requires
        r.kind == Some("set"@) || r.kind == Some("get"@),
        !is_key(r.key) || (r.kind == Some("set"@) && r.value is None),
    ensures
        members_effect(m, r) == m,
        members_reply(m, r) == "Invalid request\n"@,
{
    lemma_types();
}

/// A value with another type than `set` and `get`, or with none, is
/// answered with `Invalid request type` and changes nothing.
pub proof fn law_json_unknown_type_changes_nothing(m: TextMap, r: JsonRequestText)
    requires
        r.kind != Some("set"@),
        r.kind != Some("get"@),
    ensures
        members_effect(m, r) == m,
        members_reply(m, r) == "Invalid request type\n"@,
{
}

/// Nothing is ever stored under an empty key: where a request changes the
/// mapping, it is a `set` of a key that is not empty, and every other key
/// is as it was.
pub proof fn law_json_keys_are_not_empty(m: TextMap, r: JsonRequestText, k: Seq<char>)
    ensures
        k.len() == 0 ==> lookup(members_effect(m, r), k) == lookup(m, k),
        members_effect(m, r) != m ==> r.kind == Some("set"@) && is_key(r.key) && r.value is Some,
{
}

} // verus!
