//! Snapshots: the whole mapping as one JSON object, for the backing file.
//!
//! A snapshot is written after every request that may have changed the
//! store, and read once when the program starts. A backing file that does
//! not parse is an error, and the program must then not serve: an operator
//! who finds the store empty after a restart could not tell a lost file from
//! a damaged one.

use vstd::prelude::*;
use crate::store::{pairs_text, put_all, KeyValueStore, TextMap, TextPair};

verus! {

/// The error type of `serde_json`.
#[verifier::external_type_specification]
#[verifier::external_body]
pub struct ExJsonError(serde_json::Error);

/// The line that an error of `serde_json` holds: the line of the input at
/// which the error was found.
pub uninterp spec fn error_line(e: serde_json::Error) -> usize;

/// The column that an error of `serde_json` holds: the column of the input
/// at which the error was found.
pub uninterp spec fn error_column(e: serde_json::Error) -> usize;

/// `serde_json::Error::line`, which reads the line that the error holds.
/// Believed, not proved: the number depends on the error alone. Nothing is
/// claimed of which number it is.
pub assume_specification[ serde_json::Error::line ](e: &serde_json::Error) -> (n: usize)
    ensures
        n == error_line(*e),
;

/// `serde_json::Error::column`, which reads the column that the error
/// holds. Believed, not proved: the number depends on the error alone.
/// Nothing is claimed of which number it is.
pub assume_specification[ serde_json::Error::column ](e: &serde_json::Error) -> (n: usize)
    ensures
        n == error_column(*e),
;

/// Why a snapshot could not be read.
#[derive(Debug, Clone, Copy, PartialEq, Eq)]
pub struct SnapshotError {
    /// The line of the snapshot at which it stopped making sense, from 1; 0
    /// where the error has no place in a text.
    pub line: usize,
    /// The column in that line.
    pub column: usize,
}

/// The JSON text that `serde_json::to_string` makes of a map from strings to
/// strings.
pub uninterp spec fn snapshot_json(m: TextMap) -> Seq<char>;

/// What `serde_json::from_slice` makes of a byte sequence when it is asked
/// for a map from strings to strings: the pairs of the map, or the place of
/// the error that it reports.
pub uninterp spec fn snapshot_pairs(bytes: Seq<u8>) -> Result<Seq<TextPair>, SnapshotError>;

/// What a `serde_json` result stands for in the terms of `snapshot_pairs`.
pub open spec fn pairs_outcome(r: Result<Vec<(String, String)>, serde_json::Error>) -> Result<
    Seq<TextPair>,
    SnapshotError,
> {
    match r {
        Ok(pairs) => Ok(pairs_text(pairs@)),
        Err(e) => Err(SnapshotError { line: error_line(e), column: error_column(e) }),
    }
}

/// Calls `serde_json::to_string` on the entries, handed over as a
/// `BTreeMap` from key to value. Believed, not proved: there is a text, and
/// it depends on the mapping alone. The function fails only where a value's
/// `Serialize` fails or a map has keys that are no strings, and neither can
/// happen to a map from strings to strings. The map is walked in the order
/// of its keys, so the order of `entries`, whose keys are distinct, does
/// not show in the text. Nothing is claimed of what the text looks like.
#[verifier::external_body]
fn entries_to_json(entries: &Vec<(String, String)>) -> (r: Result<String, serde_json::Error>)
    requires
        crate::store::distinct_keys(pairs_text(entries@)),
    ensures
        r is Ok,
        r->Ok_0@ == snapshot_json(put_all(Map::empty(), pairs_text(entries@))),
{
    let map: std::collections::BTreeMap<&str, &str> = entries.iter().map(
        |p| (p.0.as_str(), p.1.as_str()),
    ).collect();
    serde_json::to_string(&map)
}

/// Calls `serde_json::from_slice` for a `BTreeMap` from `String` to
/// `String`, and lists the pairs of the map it gives in the map's order.
/// Believed, not proved: the outcome depends on the bytes alone, the place
/// that an error holds included. Nothing is claimed of which bytes are
/// accepted, of the pairs that are read, nor of the place of an error.
#[verifier::external_body]
fn json_to_entries(data: &[u8]) -> (r: Result<Vec<(String, String)>, serde_json::Error>)
    ensures
        pairs_outcome(r) == snapshot_pairs(data@),
{
    let map: std::collections::BTreeMap<String, String> = serde_json::from_slice(data)?;
    Ok(map.into_iter().collect())
}

/// The library's error for an error of `serde_json`: it holds the line and
/// the column that the outside error holds.
fn error_of(e: &serde_json::Error) -> (r: SnapshotError)
    ensures
        r == (SnapshotError { line: error_line(*e), column: error_column(*e) }),
{
    SnapshotError { line: e.line(), column: e.column() }
}

/// The store that a list of pairs describes: each pair is upserted in turn.
pub fn from_pairs(pairs: &Vec<(String, String)>) -> (store: KeyValueStore)
    ensures
        store@ == put_all(Map::empty(), pairs_text(pairs@)),
{
    let mut store = KeyValueStore::new();
    store.batch_put(pairs);
    store
}

/// The snapshot of `store`: its whole mapping as the text of one JSON
/// object. There always is one, and the store is not changed.
pub fn save(store: &KeyValueStore) -> (text: String)
    ensures
        text@ == snapshot_json(store@),
{
    let entries = store.entries();
    match entries_to_json(&entries) {
        Ok(text) => text,
        Err(_) => unreached(),
    }
}

/// The store that the bytes of a snapshot describe. Bytes that are no JSON
/// object of strings are an error, never an empty store; the error says
/// where the bytes stopped making sense.
pub fn load(data: &[u8]) -> (r: Result<KeyValueStore, SnapshotError>)
    ensures
        match r {
            Ok(store) => snapshot_pairs(data@) is Ok && store@ == put_all(
                Map::empty(),
                snapshot_pairs(data@)->Ok_0,
            ),
            Err(error) => snapshot_pairs(data@) == Err::<Seq<TextPair>, SnapshotError>(error),
        },
{
    match json_to_entries(data) {
        Ok(pairs) => Ok(from_pairs(&pairs)),
        Err(e) => Err(error_of(&e)),
    }
}

} // verus!
