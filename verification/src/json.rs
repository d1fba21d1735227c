//! The JSON protocol: a request is one JSON value with the members `type`,
//! `key` and, for a `set`, `value`, each of them a JSON string.
//!
//! | request                                        | reply                         |
//! |------------------------------------------------|-------------------------------|
//! | `type` is `"set"`, with a key and a value      | `OK`                          |
//! | `type` is `"get"`, with a key                  | the value, or `Key not found` |
//! | `set` or `get` that lacks what it needs        | `Invalid request`             |
//! | any other `type`, or none                      | `Invalid request type`        |
//!
//! Every reply ends with a line feed. A key is a JSON string that is not
//! empty, and a value is a JSON string; what is stored and what is sent
//! back is the string's own text, not its JSON form. A request that is
//! answered with an error changes nothing. Bytes that are no JSON value are
//! dropped without a reply, and the connection stays open.

use vstd::prelude::*;
use crate::chars::{joined, same_text};
use crate::protocol::{
    answer,
    apply,
    dispatch,
    mutates,
    Request,
    RequestText,
    Response,
    ResponseText,
};
use crate::store::{text_of, KeyValueStore, TextMap};

verus! {

/// What a request's logic reads of a JSON value: the text of each of three
/// members where the member is a JSON string, and `None` where the value
/// has no such member or the member is no string.
#[derive(Debug, PartialEq, Eq)]
pub struct JsonRequest {
    /// The member `type`.
    pub kind: Option<String>,
    /// The member `key`.
    pub key: Option<String>,
    /// The member `value`.
    pub value: Option<String>,
}

/// A JSON request as mathematical text.
pub struct JsonRequestText {
    pub kind: Option<Seq<char>>,
    pub key: Option<Seq<char>>,
    pub value: Option<Seq<char>>,
}

impl View for JsonRequest {
    type V = JsonRequestText;

    open spec fn view(&self) -> JsonRequestText {
        JsonRequestText {
            kind: text_of(self.kind),
            key: text_of(self.key),
            value: text_of(self.value),
        }
    }
}

/// The view of an optional JSON request.
pub open spec fn json_request_text(r: Option<JsonRequest>) -> Option<JsonRequestText> {
    match r {
        Some(request) => Some(request@),
        None => None,
    }
}

/// What `serde_json` reads from a byte sequence under three member names:
/// `None` where `serde_json::from_slice` finds no JSON value in the bytes;
/// otherwise, for each name, the text of the member of that name where it
/// is a JSON string.
pub uninterp spec fn frame_members(
    bytes: Seq<u8>,
    kind: Seq<char>,
    key: Seq<char>,
    value: Seq<char>,
) -> Option<JsonRequestText>;

/// Calls `serde_json::from_slice` for a `serde_json::Value` and takes three
/// members out of the value: it is indexed by each name, which gives the
/// member of that name or JSON's `null`, and the member is asked for its
/// text with `serde_json::Value::as_str`, which gives one for a JSON string
/// only. Believed, not proved: the outcome depends on the bytes and the
/// names alone. Nothing is claimed of which bytes are accepted, nor of the
/// texts.
#[verifier::external_body]
fn read_members(data: &[u8], kind: &str, key: &str, value: &str) -> (r: Option<JsonRequest>)
    ensures
        json_request_text(r) == frame_members(data@, kind@, key@, value@),
{
    let v: serde_json::Value = serde_json::from_slice(data).ok()?;
    Some(
        JsonRequest {
            kind: v[kind].as_str().map(|s| s.to_owned()),
            key: v[key].as_str().map(|s| s.to_owned()),
            value: v[value].as_str().map(|s| s.to_owned()),
        },
    )
}

/// Why a JSON value is no request.
#[derive(Debug, Clone, Copy, PartialEq, Eq)]
pub enum Fault {
    /// The member `type` is neither `"set"` nor `"get"`.
    UnknownType,
    /// The key is missing, empty or no string, or a `set` has no value that
    /// is a string.
    Malformed,
}

/// What decoding a JSON request gives, as mathematical text.
pub enum Decoded {
    Request(RequestText),
    Fault(Fault),
}

/// Whether `key` may be a key: it is a string and not empty.
pub open spec fn is_key(key: Option<Seq<char>>) -> bool {
    key is Some && key->0.len() > 0
}

/// The request that a JSON value with the given members stands for, or why
/// it stands for none.
pub open spec fn decoded(r: JsonRequestText) -> Decoded {
    if r.kind == Some("set"@) {
        if is_key(r.key) && r.value is Some {
            Decoded::Request(RequestText::Put { key: r.key->0, value: r.value->0 })
        } else {
            Decoded::Fault(Fault::Malformed)
        }
    } else if r.kind == Some("get"@) {
        if is_key(r.key) {
            Decoded::Request(RequestText::Get { key: r.key->0 })
        } else {
            Decoded::Fault(Fault::Malformed)
        }
    } else {
        Decoded::Fault(Fault::UnknownType)
    }
}

/// The view of the outcome of decoding.
pub open spec fn decoded_text(r: Result<Request, Fault>) -> Decoded {
    match r {
        Ok(request) => Decoded::Request(request@),
        Err(fault) => Decoded::Fault(fault),
    }
}

/// The reply line for a response.
pub open spec fn reply_text(response: ResponseText) -> Seq<char> {
    match response {
        ResponseText::Value { key, value: Some(v) } => v + "\n"@,
        ResponseText::Value { key, value: None } => "Key not found\n"@,
        ResponseText::Stored => "OK\n"@,
        ResponseText::Deleted => "OK\n"@,
        ResponseText::Unsupported => "Invalid request\n"@,
        ResponseText::NotSaved => "Persistence failed\n"@,
    }
}

/// The reply line for a value that is no request.
pub open spec fn fault_text(fault: Fault) -> Seq<char> {
    match fault {
        Fault::UnknownType => "Invalid request type\n"@,
        Fault::Malformed => "Invalid request\n"@,
    }
}

/// The mapping after a request with the given members was served on the
/// mapping `m`: a value that is no request changes nothing.
pub open spec fn members_effect(m: TextMap, r: JsonRequestText) -> TextMap {
    match decoded(r) {
        Decoded::Request(request) => apply(m, request),
        Decoded::Fault(_) => m,
    }
}

/// The reply to a request with the given members served on the mapping `m`.
pub open spec fn members_reply(m: TextMap, r: JsonRequestText) -> Seq<char> {
    match decoded(r) {
        Decoded::Request(request) => reply_text(answer(m, request)),
        Decoded::Fault(fault) => fault_text(fault),
    }
}

/// Whether a request with the given members is one that may change the
/// mapping: a `set` with a key and a value.
pub open spec fn members_mutate(r: JsonRequestText) -> bool {
    match decoded(r) {
        Decoded::Request(request) => mutates(request),
        Decoded::Fault(_) => false,
    }
}

/// What serving one request has come to.
#[derive(Debug, PartialEq, Eq)]
pub struct Served {
    /// The reply to send.
    pub reply: String,
    /// Whether the request was one that may have changed the store, so
    /// that a snapshot is due.
    pub mutated: bool,
}

/// The view of what was served, if anything was.
pub open spec fn served_text(s: Option<Served>) -> Option<(Seq<char>, bool)> {
    match s {
        Some(served) => Some((served.reply@, served.mutated)),
        None => None,
    }
}

/// A non-empty string, if `member` is one.
fn key_of(member: &Option<String>) -> (r: Option<String>)
    ensures
        text_of(r) == if is_key(text_of(*member)) {
            text_of(*member)
        } else {
            None
        },
{
    match member {
        Some(text) => {
            if text.as_str().is_empty() {
                None
            } else {
                Some(text.clone())
            }
        },
        None => None,
    }
}

impl JsonRequest {
    /// Decodes the request: the operation that it stands for, or why it
    /// stands for none.
    pub fn decode(&self) -> (r: Result<Request, Fault>)
        ensures
            decoded_text(r) == decoded(self@),
    {
        let set = match &self.kind {
            Some(kind) => same_text(kind.as_str(), "set"),
            None => false,
        };
        let get = match &self.kind {
            Some(kind) => same_text(kind.as_str(), "get"),
            None => false,
        };
        if set {
            match (key_of(&self.key), &self.value) {
                (Some(key), Some(value)) => Ok(Request::Put { key, value: value.clone() }),
                _ => Err(Fault::Malformed),
            }
        } else if get {
            match key_of(&self.key) {
                Some(key) => Ok(Request::Get { key }),
                None => Err(Fault::Malformed),
            }
        } else {
            Err(Fault::UnknownType)
        }
    }
}

/// Encodes a response as its reply line.
pub fn encode(response: &Response) -> (r: String)
    ensures
        r@ == reply_text(response@),
{
    match response {
        Response::Value { key, value: Some(v) } => joined(v.as_str(), "\n"),
        Response::Value { key, value: None } => "Key not found\n".to_owned(),
        Response::Stored => "OK\n".to_owned(),
        Response::Deleted => "OK\n".to_owned(),
        Response::Unsupported => "Invalid request\n".to_owned(),
        Response::NotSaved => "Persistence failed\n".to_owned(),
    }
}

/// Encodes the reply to a value that is no request.
pub fn encode_fault(fault: Fault) -> (r: String)
    ensures
        r@ == fault_text(fault),
{
    match fault {
        Fault::UnknownType => "Invalid request type\n".to_owned(),
        Fault::Malformed => "Invalid request\n".to_owned(),
    }
}

/// Serves one request on `store`: a `set` stores the value under the key, a
/// `get` reads the key, and a value that is no request is told so and
/// changes nothing. The outcome says whether a snapshot is due.
pub fn serve_request(request: &JsonRequest, store: &mut KeyValueStore) -> (served: Served)
    ensures
        final(store)@ == members_effect(old(store)@, request@),
        served.reply@ == members_reply(old(store)@, request@),
        served.mutated == members_mutate(request@),
{
    match request.decode() {
        Ok(operation) => {
            let mutated = operation.is_mutation();
            let response = dispatch(store, operation);
            Served { reply: encode(&response), mutated }
        },
        Err(fault) => Served { reply: encode_fault(fault), mutated: false },
    }
}

/// Serves one request on `store` and gives the reply.
pub fn process_request(request: &JsonRequest, store: &mut KeyValueStore) -> (reply: String)
    ensures
        final(store)@ == members_effect(old(store)@, request@),
        reply@ == members_reply(old(store)@, request@),
{
    serve_request(request, store).reply
}

/// The reply that is sent once the snapshot for a request was written, or
/// could not be: where a snapshot was due and was not written, the reply
/// says that the change was not saved. The store keeps the change.
pub fn reply_after_save(served: Served, saved: bool) -> (reply: String)
    ensures
        reply@ == if served.mutated && !saved {
            reply_text(ResponseText::NotSaved)
        } else {
            served.reply@
        },
{
    if served.mutated && !saved {
        encode(&Response::NotSaved)
    } else {
        served.reply
    }
}

/// The request that the bytes of one frame hold, or `None` where they are
/// no JSON value.
pub open spec fn frame_request(bytes: Seq<u8>) -> Option<JsonRequestText> {
    frame_members(bytes, "type"@, "key"@, "value"@)
}

/// The mapping after the bytes of one frame were served on the mapping `m`.
pub open spec fn frame_effect(m: TextMap, bytes: Seq<u8>) -> TextMap {
    match frame_request(bytes) {
        Some(request) => members_effect(m, request),
        None => m,
    }
}

/// The reply to the bytes of one frame served on the mapping `m`, or `None`
/// where the frame is dropped.
pub open spec fn frame_reply(m: TextMap, bytes: Seq<u8>) -> Option<Seq<char>> {
    match frame_request(bytes) {
        Some(request) => Some(members_reply(m, request)),
        None => None,
    }
}

/// Reads the request that the bytes of one frame hold.
pub fn read_request(data: &[u8]) -> (r: Option<JsonRequest>)
    ensures
        json_request_text(r) == frame_request(data@),
{
    read_members(data, "type", "key", "value")
}

/// Serves the bytes of one frame on `store`. Bytes that are no JSON value
/// change nothing and are not answered. The outcome says whether a
/// snapshot is due.
pub fn serve_frame(data: &[u8], store: &mut KeyValueStore) -> (served: Option<Served>)
    ensures
        final(store)@ == frame_effect(old(store)@, data@),
        served_text(served) == match frame_request(data@) {
            Some(request) => Some((members_reply(old(store)@, request), members_mutate(request))),
            None => None,
        },
{
    match read_request(data) {
        Some(request) => Some(serve_request(&request, store)),
        None => None,
    }
}

/// Serves the bytes of one frame on `store` and gives the reply. Bytes that
/// are no JSON value change nothing and get no reply.
pub fn process_frame(data: &[u8], store: &mut KeyValueStore) -> (reply: Option<String>)
    ensures
        final(store)@ == frame_effect(old(store)@, data@),
        text_of(reply) == frame_reply(old(store)@, data@),
{
    match serve_frame(data, store) {
        Some(served) => Some(served.reply),
        None => None,
    }
}

} // verus!
