//! Requests, responses, and what a request does to a store.

use vstd::prelude::*;
use crate::store::{lookup, pairs_text, put_all, text_of, KeyValueStore, TextMap, TextPair};

verus! {

/// One decoded client operation.
#[derive(Debug, PartialEq, Eq)]
pub enum Request {
    /// Read the value of a key.
    Get { key: String },
    /// Give a key a value, whether or not it had one.
    Put { key: String, value: String },
    /// Remove a key if it is present.
    Delete { key: String },
    /// Give each key of an ordered list its value, as one operation.
    BatchPut { pairs: Vec<(String, String)> },
}

/// A request as mathematical text.
pub enum RequestText {
    Get { key: Seq<char> },
    Put { key: Seq<char>, value: Seq<char> },
    Delete { key: Seq<char> },
    BatchPut { pairs: Seq<TextPair> },
}

impl View for Request {
    type V = RequestText;

    open spec fn view(&self) -> RequestText {
        match *self {
            Request::Get { key } => RequestText::Get { key: key@ },
            Request::Put { key, value } => RequestText::Put { key: key@, value: value@ },
            Request::Delete { key } => RequestText::Delete { key: key@ },
            Request::BatchPut { pairs } => RequestText::BatchPut { pairs: pairs_text(pairs@) },
        }
    }
}

/// What is sent back for one request.
#[derive(Debug, PartialEq, Eq)]
pub enum Response {
    /// The answer to a read: the key asked for, and its value if it has one.
    Value { key: String, value: Option<String> },
    /// A key, or a batch of keys, was given its value.
    Stored,
    /// A key is gone, whether or not it was present.
    Deleted,
    /// The request was malformed or its verb unknown; nothing was done.
    Unsupported,
    /// The store was changed, but the change could not be written to the
    /// backing file.
    NotSaved,
}

/// A response as mathematical text.
pub enum ResponseText {
    Value { key: Seq<char>, value: Option<Seq<char>> },
    Stored,
    Deleted,
    Unsupported,
    NotSaved,
}

impl View for Response {
    type V = ResponseText;

    open spec fn view(&self) -> ResponseText {
        match *self {
            Response::Value { key, value } => ResponseText::Value {
                key: key@,
                value: text_of(value),
            },
            Response::Stored => ResponseText::Stored,
            Response::Deleted => ResponseText::Deleted,
            Response::Unsupported => ResponseText::Unsupported,
            Response::NotSaved => ResponseText::NotSaved,
        }
    }
}

/// The mapping after `request` was executed on the mapping `m`.
pub open spec fn apply(m: TextMap, request: RequestText) -> TextMap {
    match request {
        RequestText::Get { key } => m,
        RequestText::Put { key, value } => m.insert(key, value),
        RequestText::Delete { key } => m.remove(key),
        RequestText::BatchPut { pairs } => put_all(m, pairs),
    }
}

/// The response to `request` when it is executed on the mapping `m`.
pub open spec fn answer(m: TextMap, request: RequestText) -> ResponseText {
    match request {
        RequestText::Get { key } => ResponseText::Value { key, value: lookup(m, key) },
        RequestText::Put { key, value } => ResponseText::Stored,
        RequestText::Delete { key } => ResponseText::Deleted,
        RequestText::BatchPut { pairs } => ResponseText::Stored,
    }
}

/// Whether `request` is one that may change the mapping: every request but
/// a read.
pub open spec fn mutates(request: RequestText) -> bool {
    !(request is Get)
}

impl Request {
    /// Decides `mutates`.
    pub fn is_mutation(&self) -> (r: bool)
        ensures
            r == mutates(self@),
    {
        match self {
            Request::Get { .. } => false,
            _ => true,
        }
    }
}

/// Executes `request` on `store` and gives the response. A read leaves the
/// store as it was; a batch is applied whole.
pub fn dispatch(store: &mut KeyValueStore, request: Request) -> (r: Response)
    ensures
        final(store)@ == apply(old(store)@, request@),
        r@ == answer(old(store)@, request@),
{
    match request {
        Request::Get { key } => {
            let value = store.get(key.as_str());
            Response::Value { key, value }
        },
        Request::Put { key, value } => {
            store.put(key, value);
            Response::Stored
        },
        Request::Delete { key } => {
            store.delete(key.as_str());
            Response::Deleted
        },
        Request::BatchPut { pairs } => {
            store.batch_put(&pairs);
            Response::Stored
        },
    }
}

/// A stand-in for a protocol front end that accepts whatever it is shown.
pub struct ProtocolHandler {}

impl ProtocolHandler {
    /// A new handler.
    pub fn init() -> ProtocolHandler {
        ProtocolHandler {  }
    }

    /// Accepts `data`: the answer is always `true`.
    pub fn handle_request(&self, data: &str) -> (accepted: bool)
        ensures
            accepted,
    {
        true
    }
}

} // verus!
