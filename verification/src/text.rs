//! The text protocol: one request per line, words separated by white space.
//!
//! | request line          | reply                                         |
//! |-----------------------|-----------------------------------------------|
//! | `SET <key> <value>`   | `Value set successfully`                      |
//! | `GET <key>`           | the value, or `Key not found`                 |
//! | `DELETE <key>`        | `Key deleted`                                 |
//! | anything else         | `Unsupported command`                         |
//!
//! Every reply ends with a line feed. A verb takes exactly the words shown:
//! a line with fewer words or with more is unsupported, and so is a verb in
//! another case. A line never closes the connection.

use vstd::prelude::*;
use vstd::utf8::*;
use vstd::string::*;
use crate::chars::{joined, same_text, to_chars};
use crate::protocol::{answer, apply, dispatch, Request, RequestText, Response, ResponseText};
use crate::store::{text_of, KeyValueStore, TextMap};
use crate::words::{is_space, is_whitespace, is_word, leading_words, words};

verus! {

/// The request that a list of words stands for, if it stands for one.
pub open spec fn parse_words(w: Seq<Seq<char>>) -> Option<RequestText> {
    if w.len() == 3 && w[0] == "SET"@ {
        Some(RequestText::Put { key: w[1], value: w[2] })
    } else if w.len() == 2 && w[0] == "GET"@ {
        Some(RequestText::Get { key: w[1] })
    } else if w.len() == 2 && w[0] == "DELETE"@ {
        Some(RequestText::Delete { key: w[1] })
    } else {
        None
    }
}

/// The request that a line stands for, if it stands for one.
pub open spec fn parse_line(line: Seq<char>) -> Option<RequestText> {
    parse_words(words(line))
}

/// The reply line for a response.
pub open spec fn reply_text(response: ResponseText) -> Seq<char> {
    match response {
        ResponseText::Value { key, value: Some(v) } => v + "\n"@,
        ResponseText::Value { key, value: None } => "Key not found\n"@,
        ResponseText::Stored => "Value set successfully\n"@,
        ResponseText::Deleted => "Key deleted\n"@,
        ResponseText::Unsupported => "Unsupported command\n"@,
        ResponseText::NotSaved => "Persistence failed\n"@,
    }
}

/// The mapping after the request line `line` was served on the mapping `m`:
/// a line that stands for no request changes nothing.
pub open spec fn line_effect(m: TextMap, line: Seq<char>) -> TextMap {
    match parse_line(line) {
        Some(request) => apply(m, request),
        None => m,
    }
}

/// The response to the request line `line` served on the mapping `m`.
pub open spec fn line_response(m: TextMap, line: Seq<char>) -> ResponseText {
    match parse_line(line) {
        Some(request) => answer(m, request),
        None => ResponseText::Unsupported,
    }
}

/// The view of an optional request.
pub open spec fn request_text(r: Option<Request>) -> Option<RequestText> {
    match r {
        Some(request) => Some(request@),
        None => None,
    }
}

/// Decodes one request line. `None` stands for a line that is no request:
/// an unknown verb, or a number of words that the verb does not take.
pub fn decode(line: &str) -> (r: Option<Request>)
    ensures
        request_text(r) == parse_line(line@),
{
    // One word more than any verb takes shows whether the line is too long.
    let w = leading_words(line, 4);
    proof {
        // What was split off is the start of the line's words.
        let all = words(line@);
        let head = all.take(w@.len() as int);
        assert(forall|i: int| 0 <= i < w@.len() ==> w@[i]@ == #[trigger] head[i]);
        assert(forall|i: int| 0 <= i < w@.len() ==> head[i] == all[i]);
    }
    if w.len() == 3 && same_text(w[0].as_str(), "SET") {
        Some(Request::Put { key: w[1].clone(), value: w[2].clone() })
    } else if w.len() == 2 && same_text(w[0].as_str(), "GET") {
        Some(Request::Get { key: w[1].clone() })
    } else if w.len() == 2 && same_text(w[0].as_str(), "DELETE") {
        Some(Request::Delete { key: w[1].clone() })
    } else {
        None
    }
}

/// Encodes a response as its reply line.
pub fn encode(response: &Response) -> (r: String)
    ensures
        r@ == reply_text(response@),
{
    match response {
        Response::Value { key, value: Some(v) } => joined(v.as_str(), "\n"),
        Response::Value { key, value: None } => "Key not found\n".to_owned(),
        Response::Stored => "Value set successfully\n".to_owned(),
        Response::Deleted => "Key deleted\n".to_owned(),
        Response::Unsupported => "Unsupported command\n".to_owned(),
        Response::NotSaved => "Persistence failed\n".to_owned(),
    }
}

/// Serves one request line on `store`: decodes it, executes the request if
/// it is one, and gives the response.
pub fn serve_line(line: &str, store: &mut KeyValueStore) -> (r: Response)
    ensures
        final(store)@ == line_effect(old(store)@, line@),
        r@ == line_response(old(store)@, line@),
{
    match decode(line) {
        Some(request) => dispatch(store, request),
        None => Response::Unsupported,
    }
}

/// Serves one request line on `store` and gives the reply line.
pub fn process_line(line: &str, store: &mut KeyValueStore) -> (reply: String)
    ensures
        final(store)@ == line_effect(old(store)@, line@),
        reply@ == reply_text(line_response(old(store)@, line@)),
{
    let response = serve_line(line, store);
    encode(&response)
}

/// The line that asks to set `key` to `value`.
pub open spec fn set_line(key: Seq<char>, value: Seq<char>) -> Seq<char> {
    "SET"@ + seq![' '] + key + seq![' '] + value
}

/// The line that asks for the value of `key`.
pub open spec fn get_line(key: Seq<char>) -> Seq<char> {
    "GET"@ + seq![' '] + key
}

/// The line that asks to delete `key`.
pub open spec fn delete_line(key: Seq<char>) -> Seq<char> {
    "DELETE"@ + seq![' '] + key
}

/// The line that stands for `request`, where the text protocol has one: the
/// protocol has no batches, and a key or a value must be a word.
pub open spec fn request_line(request: RequestText) -> Option<Seq<char>> {
    match request {
        RequestText::Put { key, value } => if is_word(key) && is_word(value) {
            Some(set_line(key, value))
        } else {
            None
        },
        RequestText::Get { key } => if is_word(key) {
            Some(get_line(key))
        } else {
            None
        },
        RequestText::Delete { key } => if is_word(key) {
            Some(delete_line(key))
        } else {
            None
        },
        RequestText::BatchPut { pairs } => None,
    }
}

/// Decides `is_word`.
pub fn check_word(text: &str) -> (r: bool)
    ensures
        r == is_word(text@),
{
    let cs = to_chars(text);
    if cs.len() == 0 {
        return false;
    }
    let mut i: usize = 0;
    while i < cs.len()
        invariant
            cs@ == text@,
            i <= cs@.len(),
            forall|j: int| 0 <= j < i ==> !is_space(#[trigger] cs@[j]),
        decreases cs@.len() - i,
    {
        if is_whitespace(cs[i]) {
            return false;
        }
        i += 1;
    }
    true
}

/// Encodes a request as its line, without a line feed; `None` where the
/// text protocol cannot express it.
pub fn encode_request(request: &Request) -> (r: Option<String>)
    ensures
        text_of(r) == request_line(request@),
{
    match request {
        Request::Put { key, value } => {
            if check_word(key.as_str()) && check_word(value.as_str()) {
                let line = joined("SET", " ").concat(key.as_str()).concat(" ").concat(
                    value.as_str(),
                );
                proof {
                    reveal_strlit(" ");
                }
                Some(line)
            } else {
                None
            }
        },
        Request::Get { key } => {
            if check_word(key.as_str()) {
                let line = joined("GET", " ").concat(key.as_str());
                proof {
                    reveal_strlit(" ");
                }
                Some(line)
            } else {
                None
            }
        },
        Request::Delete { key } => {
            if check_word(key.as_str()) {
                let line = joined("DELETE", " ").concat(key.as_str());
                proof {
                    reveal_strlit(" ");
                }
                Some(line)
            } else {
                None
            }
        },
        Request::BatchPut { pairs } => None,
    }
}

/// The text that `String::from_utf8_lossy` makes of a byte sequence.
pub uninterp spec fn lossy_text(bytes: Seq<u8>) -> Seq<char>;

/// Calls `String::from_utf8_lossy` and takes the text it gives as a
/// `String`. Believed, not proved: the text depends on the bytes alone, and
/// for bytes that are valid UTF-8 it is the text that they encode. (Where
/// they are not, std replaces each invalid sequence by U+FFFD; that is not
/// stated here.)
#[verifier::external_body]
pub(crate) fn decode_lossy(data: &[u8]) -> (r: String)
    ensures
        r@ == lossy_text(data@),
        valid_utf8(data@) ==> r@ == decode_utf8(data@),
{
    String::from_utf8_lossy(data).into_owned()
}

/// Serves the request held in the bytes of one frame: the bytes are read as
/// UTF-8, invalid sequences replaced, and the text served as a request line.
pub fn process_request(data: &[u8], store: &mut KeyValueStore) -> (reply: String)
    ensures
        final(store)@ == line_effect(old(store)@, lossy_text(data@)),
        reply@ == reply_text(line_response(old(store)@, lossy_text(data@))),
        valid_utf8(data@) ==> lossy_text(data@) == decode_utf8(data@),
{
    let line = decode_lossy(data);
    process_line(line.as_str(), store)
}

} // verus!
