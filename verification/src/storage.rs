//! A store with a read cache in front of it, and the text form of its
//! initial contents.

use vstd::prelude::*;
use vstd::string::*;
use crate::chars::to_chars;
use crate::store::{
    lookup,
    pairs_text,
    put_all,
    text_of_ref,
    KeyValueStore,
    TextMap,
    TextPair,
};

verus! {

/// The first position from `i` on that holds `c`, or the length of `s`
/// where `c` does not follow.
pub open spec fn position_of(s: Seq<char>, i: int, c: char) -> int
    decreases s.len() - i,
{
    if 0 <= i < s.len() && s[i] != c {
        position_of(s, i + 1, c)
    } else {
        i
    }
}

/// `position_of` moves right and stays inside `s`.
pub proof fn lemma_position_of_bounds(s: Seq<char>, i: int, c: char)
    requires
        0 <= i <= s.len(),
    ensures
        i <= position_of(s, i, c) <= s.len(),
    decreases s.len() - i,
{
    if i < s.len() && s[i] != c {
        lemma_position_of_bounds(s, i + 1, c);
    }
}

/// The pair that one entry of the initial data stands for: the text before
/// its first `=` is the key, and the text after it, up to the next `=` or
/// the end, is the value. An entry without `=` stands for nothing.
pub open spec fn entry_pair(entry: Seq<char>) -> Option<TextPair> {
    let q = position_of(entry, 0, '=');
    if q < entry.len() {
        Some((entry.subrange(0, q), entry.subrange(q + 1, position_of(entry, q + 1, '='))))
    } else {
        None
    }
}

/// The pairs of the entries of `s` that begin at position `i` or later,
/// where `i` is the start of an entry. Entries are separated by `,`.
pub open spec fn entries_from(s: Seq<char>, i: int) -> Seq<TextPair>
    decreases s.len() - i,
{
    let e = position_of(s, i, ',');
    let here = match entry_pair(s.subrange(i, e)) {
        Some(p) => seq![p],
        None => Seq::empty(),
    };
    if 0 <= i && e < s.len() {
        proof {
            lemma_position_of_bounds(s, i, ',');
        }
        here + entries_from(s, e + 1)
    } else {
        here
    }
}

/// The pairs that initial data of the form `key=value,key=value` stands
/// for, in order.
pub open spec fn initial_pairs(data: Seq<char>) -> Seq<TextPair> {
    entries_from(data, 0)
}

/// The first position at or after `i`, and before `end`, that holds `c`;
/// `end` where there is none.
fn find(cs: &Vec<char>, i: usize, end: usize, c: char) -> (r: usize)
    requires
        i <= end <= cs@.len(),
    ensures
        i <= r <= end,
        r == position_of(cs@.subrange(0, end as int), i as int, c),
{
    let ghost s = cs@.subrange(0, end as int);
    let mut j: usize = i;
    while j < end && cs[j] != c
        invariant
            i <= j <= end <= cs@.len(),
            s == cs@.subrange(0, end as int),
            position_of(s, i as int, c) == position_of(s, j as int, c),
        decreases end - j,
    {
        j += 1;
    }
    j
}

/// `position_of` in a piece of `s` is `position_of` in `s` cut at the
/// piece's end, moved by the piece's start.
proof fn lemma_position_of_piece(s: Seq<char>, a: int, b: int, i: int, c: char)
    requires
        0 <= a <= i <= b <= s.len(),
    ensures
        position_of(s.subrange(a, b), i - a, c) == position_of(s.subrange(0, b), i, c) - a,
    decreases b - i,
{
    let piece = s.subrange(a, b);
    let cut = s.subrange(0, b);
    if i < b {
        if cut[i] != c {
            lemma_position_of_piece(s, a, b, i + 1, c);
        }
    }
}

/// Reads initial data of the form `key=value,key=value` into its pairs.
pub fn parse_initial_data(data: &str) -> (r: Vec<(String, String)>)
    ensures
        pairs_text(r@) == initial_pairs(data@),
{
    let cs = to_chars(data);
    let n: usize = cs.len();
    let mut out: Vec<(String, String)> = Vec::new();
    let mut i: usize = 0;
    let mut more: bool = true;
    while more
        invariant
            cs@ == data@,
            n == cs@.len(),
            i <= n,
            more ==> initial_pairs(cs@) == pairs_text(out@) + entries_from(cs@, i as int),
            !more ==> initial_pairs(cs@) == pairs_text(out@),
        decreases n - i + if more { 1int } else { 0int },
    {
        let e = find(&cs, i, n, ',');
        proof {
            assert(cs@.subrange(0, n as int) =~= cs@);
        }
        let ghost entry = cs@.subrange(i as int, e as int);
        let q = find(&cs, i, e, '=');
        proof {
            lemma_position_of_piece(cs@, i as int, e as int, i as int, '=');
        }
        let ghost before = pairs_text(out@);
        if q < e {
            let r = find(&cs, q + 1, e, '=');
            proof {
                lemma_position_of_piece(cs@, i as int, e as int, q + 1, '=');
                assert(entry.subrange(0, q - i) =~= cs@.subrange(i as int, q as int));
                assert(entry.subrange(q + 1 - i, r - i) =~= cs@.subrange(q + 1, r as int));
            }
            let key = data.substring_char(i, q).to_owned();
            let value = data.substring_char(q + 1, r).to_owned();
            out.push((key, value));
            assert(pairs_text(out@) =~= before.push((key@, value@)));
        }
        proof {
            let here = match entry_pair(entry) {
                Some(p) => seq![p],
                None => Seq::<TextPair>::empty(),
            };
            if e < n {
                assert(before + (here + entries_from(cs@, e + 1)) =~= (before + here)
                    + entries_from(cs@, e + 1));
            }
        }
        if e < n {
            i = e + 1;
        } else {
            i = e;
            more = false;
        }
    }
    out
}

/// A store with a cache of the values that were written. The cache never
/// holds anything that the records do not hold.
pub struct Storage {
    records: KeyValueStore,
    cache: KeyValueStore,
}

impl View for Storage {
    type V = TextMap;

    /// The mapping that the storage holds.
    closed spec fn view(&self) -> TextMap {
        self.records@
    }
}

impl Storage {
    #[verifier::type_invariant]
    spec fn well_formed(&self) -> bool {
        self.cache@.submap_of(self.records@)
    }

    /// A storage that holds the pairs of `initial_data`, which has the form
    /// `key=value,key=value`; a later pair overrides an earlier one with the
    /// same key. Without initial data the storage is empty.
    pub fn init(initial_data: Option<&str>) -> (s: Storage)
        ensures
            s@ == match initial_data {
                Some(data) => put_all(Map::empty(), initial_pairs(data@)),
                None => TextMap::empty(),
            },
    {
        let mut records = KeyValueStore::new();
        let mut cache = KeyValueStore::new();
        match initial_data {
            Some(data) => {
                let pairs = parse_initial_data(data);
                records.batch_put(&pairs);
                cache.batch_put(&pairs);
            },
            None => {},
        }
        Storage { records, cache }
    }

    /// Upserts: afterwards `key` has `value`, and every other key is as it
    /// was.
    pub fn store(&mut self, key: String, value: String)
        ensures
            final(self)@ == old(self)@.insert(key@, value@),
    {
        proof {
            use_type_invariant(&*self);
        }
        let mut cache = KeyValueStore::new();
        std::mem::swap(&mut cache, &mut self.cache);
        let mut records = KeyValueStore::new();
        std::mem::swap(&mut records, &mut self.records);
        records.put(key.clone(), value.clone());
        cache.put(key, value);
        self.records = records;
        self.cache = cache;
    }

    /// The value of `key`, or `None` where the key is absent. The cache is
    /// asked first, and the records where it does not know the key.
    pub fn retrieve(&self, key: &str) -> (r: Option<&String>)
        ensures
            text_of_ref(r) == lookup(self@, key@),
    {
        proof {
            use_type_invariant(self);
        }
        match self.cache.get_ref(key) {
            Some(value) => Some(value),
            None => self.records.get_ref(key),
        }
    }
}

} // verus!
