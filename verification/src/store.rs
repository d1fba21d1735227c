//! The in-memory mapping from keys to values.
//!
//! A store is held exclusively by whoever changes it: every operation that
//! writes takes `&mut self`. A program that serves several connections puts
//! the store behind one lock and takes the lock for each operation, so that
//! reads see whole operations only and a batch is never seen in part.
//!
//! The entries are kept in a vector, each key once, and a key is found by
//! comparing texts: every operation is proved against the mapping down to
//! the characters of a key, and pays for it with a lookup that is linear in
//! the number of keys.

use vstd::prelude::*;
use crate::chars::same_text;

verus! {

/// A key and a value as mathematical text.
pub type TextPair = (Seq<char>, Seq<char>);

/// The mathematical content of a store: a finite map from key text to value text.
pub type TextMap = Map<Seq<char>, Seq<char>>;

/// The text of one executable pair.
pub open spec fn pair_text(p: (String, String)) -> TextPair {
    (p.0@, p.1@)
}

/// The text of a sequence of executable pairs, in the same order.
pub open spec fn pairs_text(pairs: Seq<(String, String)>) -> Seq<TextPair> {
    pairs.map_values(|p: (String, String)| pair_text(p))
}

/// The map obtained from `m` by upserting `pairs` from first to last, so that
/// a later pair overrides an earlier one with the same key.
pub open spec fn put_all(m: TextMap, pairs: Seq<TextPair>) -> TextMap
    decreases pairs.len(),
{
    if pairs.len() == 0 {
        m
    } else {
        put_all(m, pairs.drop_last()).insert(pairs.last().0, pairs.last().1)
    }
}

/// What a map holds for `k`: its value, or `None` where `k` is absent.
pub open spec fn lookup(m: TextMap, k: Seq<char>) -> Option<Seq<char>> {
    if m.contains_key(k) {
        Some(m[k])
    } else {
        None
    }
}

/// The text of an optional string.
pub open spec fn text_of(r: Option<String>) -> Option<Seq<char>> {
    match r {
        Some(v) => Some(v@),
        None => None,
    }
}

/// The text of an optional borrowed string.
pub open spec fn text_of_ref(r: Option<&String>) -> Option<Seq<char>> {
    match r {
        Some(v) => Some(v@),
        None => None,
    }
}

/// No key occurs at two positions of `pairs`.
pub open spec fn distinct_keys(pairs: Seq<TextPair>) -> bool {
    forall|i: int, j: int|
        0 <= i < pairs.len() && 0 <= j < pairs.len() && i != j ==> pairs[i].0 != pairs[j].0
}

/// Whether some pair of `pairs` has the key `k`.
pub open spec fn has_key(pairs: Seq<TextPair>, k: Seq<char>) -> bool {
    exists|i: int| 0 <= i < pairs.len() && #[trigger] pairs[i].0 == k
}

/// A list with distinct keys has distinct keys without its last pair.
proof fn lemma_distinct_front(pairs: Seq<TextPair>)
    requires
        distinct_keys(pairs),
        pairs.len() > 0,
    ensures
        distinct_keys(pairs.drop_last()),
{
    let front = pairs.drop_last();
    assert forall|a: int, b: int|
        0 <= a < front.len() && 0 <= b < front.len() && a != b implies front[a].0
        != front[b].0 by {
        assert(pairs[a].0 != pairs[b].0);
    }
}

/// `put_all` with one more pair at the end is one more upsert.
pub proof fn lemma_put_all_push(m: TextMap, pairs: Seq<TextPair>, p: TextPair)
    ensures
        put_all(m, pairs.push(p)) == put_all(m, pairs).insert(p.0, p.1),
{
    assert(pairs.push(p).drop_last() =~= pairs);
}

/// The keys of `put_all(m, pairs)` are those of `m` and those of `pairs`.
pub proof fn lemma_put_all_dom(m: TextMap, pairs: Seq<TextPair>, k: Seq<char>)
    ensures
        put_all(m, pairs).contains_key(k) <==> (m.contains_key(k) || has_key(pairs, k)),
    decreases pairs.len(),
{
    if pairs.len() > 0 {
        let front = pairs.drop_last();
        lemma_put_all_dom(m, front, k);
        if has_key(pairs, k) {
            let i = choose|i: int| 0 <= i < pairs.len() && #[trigger] pairs[i].0 == k;
            if i < pairs.len() - 1 {
                assert(front[i].0 == k);
            }
        }
        if has_key(front, k) {
            let i = choose|i: int| 0 <= i < front.len() && #[trigger] front[i].0 == k;
            assert(pairs[i].0 == k);
        }
    }
}

/// A batch leaves every key alone that it does not name.
pub proof fn lemma_put_all_keeps(m: TextMap, pairs: Seq<TextPair>, k: Seq<char>)
    requires
        !has_key(pairs, k),
    ensures
        lookup(put_all(m, pairs), k) == lookup(m, k),
    decreases pairs.len(),
{
    if pairs.len() > 0 {
        let front = pairs.drop_last();
        assert(!has_key(front, k)) by {
            if has_key(front, k) {
                let i = choose|i: int| 0 <= i < front.len() && #[trigger] front[i].0 == k;
                assert(pairs[i].0 == k);
            }
        }
        lemma_put_all_keeps(m, front, k);
    }
}

/// What a batch holds for a key that it names does not depend on the
/// mapping it is applied to.
pub proof fn lemma_put_all_decides(m: TextMap, n: TextMap, pairs: Seq<TextPair>, k: Seq<char>)
    requires
        has_key(pairs, k),
    ensures
        lookup(put_all(m, pairs), k) == lookup(put_all(n, pairs), k),
        put_all(m, pairs).contains_key(k),
    decreases pairs.len(),
{
    let front = pairs.drop_last();
    if pairs.last().0 != k {
        let i = choose|i: int| 0 <= i < pairs.len() && #[trigger] pairs[i].0 == k;
        assert(front[i].0 == k);
        lemma_put_all_decides(m, n, front, k);
    }
}

/// Where the keys of `pairs` are distinct, `put_all` maps each of them to the
/// value it is paired with.
pub proof fn lemma_put_all_distinct(m: TextMap, pairs: Seq<TextPair>, i: int)
    requires
        distinct_keys(pairs),
        0 <= i < pairs.len(),
    ensures
        put_all(m, pairs).contains_key(pairs[i].0),
        put_all(m, pairs)[pairs[i].0] == pairs[i].1,
    decreases pairs.len(),
{
    if i < pairs.len() - 1 {
        let front = pairs.drop_last();
        lemma_distinct_front(pairs);
        lemma_put_all_distinct(m, front, i);
    }
}

/// A flat mapping from keys to values. A key has at most one value, and a key
/// that was never set, or was deleted, is absent: that differs from a key
/// whose value is the empty text.
pub struct KeyValueStore {
    entries: Vec<(String, String)>,
}

impl View for KeyValueStore {
    type V = TextMap;

    /// The mapping that the store holds.
    closed spec fn view(&self) -> TextMap {
        put_all(Map::empty(), pairs_text(self.entries@))
    }
}

impl KeyValueStore {
    #[verifier::type_invariant]
    spec fn well_formed(&self) -> bool {
        distinct_keys(pairs_text(self.entries@))
    }

    /// The position of `key` among the entries, if it has one.
    fn position(&self, key: &str) -> (r: Option<usize>)
        ensures
            match r {
                Some(i) => i < self.entries@.len() && self.entries@[i as int].0@ == key@,
                None => forall|j: int|
                    0 <= j < self.entries@.len() ==> (#[trigger] self.entries@[j]).0@ != key@,
            },
    {
        let mut i: usize = 0;
        while i < self.entries.len()
            invariant
                i <= self.entries@.len(),
                forall|j: int| 0 <= j < i ==> (#[trigger] self.entries@[j]).0@ != key@,
            decreases self.entries@.len() - i,
        {
            if same_text(self.entries[i].0.as_str(), key) {
                return Some(i);
            }
            i += 1;
        }
        None
    }

    /// An empty store.
    pub fn new() -> (s: KeyValueStore)
        ensures
            s@ == TextMap::empty(),
    {
        KeyValueStore { entries: Vec::new() }
    }

    /// Upserts: afterwards `key` has `value`, whatever it had before, and
    /// every other key is as it was.
    pub fn set(&mut self, key: &str, value: &str)
        ensures
            final(self)@ == old(self)@.insert(key@, value@),
    {
        self.put(key.to_owned(), value.to_owned());
    }

    /// `set` for owned text.
    pub fn put(&mut self, key: String, value: String)
        ensures
            final(self)@ == old(self)@.insert(key@, value@),
    {
        proof {
            use_type_invariant(&*self);
        }
        let ghost before = pairs_text(self.entries@);
        match self.position(key.as_str()) {
            Some(i) => {
                let mut entries: Vec<(String, String)> = Vec::new();
                std::mem::swap(&mut entries, &mut self.entries);
                entries.set(i, (key, value));
                proof {
                    let after = pairs_text(entries@);
                    assert(after =~= before.update(i as int, (key@, value@)));
                    lemma_update_is_insert(before, i as int, value@);
                }
                self.entries = entries;
            },
            None => {
                let mut entries: Vec<(String, String)> = Vec::new();
                std::mem::swap(&mut entries, &mut self.entries);
                entries.push((key, value));
                proof {
                    let after = pairs_text(entries@);
                    assert(after =~= before.push((key@, value@)));
                    lemma_put_all_push(Map::empty(), before, (key@, value@));
                    lemma_push_distinct(before, (key@, value@));
                }
                self.entries = entries;
            },
        }
    }

    /// The value of `key`, or `None` where the key is absent. The store is
    /// not changed.
    pub fn get(&self, key: &str) -> (r: Option<String>)
        ensures
            text_of(r) == lookup(self@, key@),
    {
        proof {
            use_type_invariant(self);
        }
        let ghost pairs = pairs_text(self.entries@);
        match self.position(key) {
            Some(i) => {
                proof {
                    lemma_put_all_distinct(Map::empty(), pairs, i as int);
                }
                Some(self.entries[i].1.clone())
            },
            None => {
                proof {
                    lemma_put_all_dom(Map::empty(), pairs, key@);
                }
                None
            },
        }
    }

    /// Removes `key` if it is present and returns the value it had. An absent
    /// key is no error: the store is then unchanged and the result is `None`.
    pub fn delete(&mut self, key: &str) -> (r: Option<String>)
        ensures
            final(self)@ == old(self)@.remove(key@),
            text_of(r) == lookup(old(self)@, key@),
    {
        proof {
            use_type_invariant(&*self);
        }
        let ghost before = pairs_text(self.entries@);
        match self.position(key) {
            Some(i) => {
                proof {
                    lemma_put_all_distinct(Map::empty(), before, i as int);
                }
                let mut entries: Vec<(String, String)> = Vec::new();
                std::mem::swap(&mut entries, &mut self.entries);
                let removed = entries.remove(i);
                proof {
                    let after = pairs_text(entries@);
                    assert(after =~= before.remove(i as int));
                    lemma_remove_is_remove(before, i as int);
                }
                self.entries = entries;
                Some(removed.1)
            },
            None => {
                proof {
                    lemma_put_all_dom(Map::empty(), before, key@);
                }
                None
            },
        }
    }

    /// The value of `key` by reference, or `None` where the key is absent.
    pub fn get_ref(&self, key: &str) -> (r: Option<&String>)
        ensures
            text_of_ref(r) == lookup(self@, key@),
    {
        proof {
            use_type_invariant(self);
        }
        let ghost pairs = pairs_text(self.entries@);
        match self.position(key) {
            Some(i) => {
                proof {
                    lemma_put_all_distinct(Map::empty(), pairs, i as int);
                }
                Some(&self.entries[i].1)
            },
            None => {
                proof {
                    lemma_put_all_dom(Map::empty(), pairs, key@);
                }
                None
            },
        }
    }

    /// Upserts `pairs` from first to last in one call: a later pair
    /// overrides an earlier one with the same key. The caller holds the store
    /// exclusively for the whole call, so nobody sees only part of a batch.
    pub fn batch_put(&mut self, pairs: &Vec<(String, String)>)
        ensures
            final(self)@ == put_all(old(self)@, pairs_text(pairs@)),
    {
        let ghost all = pairs_text(pairs@);
        let ghost start = self@;
        let mut i: usize = 0;
        while i < pairs.len()
            invariant
                i <= pairs@.len(),
                all == pairs_text(pairs@),
                self@ == put_all(start, all.subrange(0, i as int)),
            decreases pairs@.len() - i,
        {
            let key = pairs[i].0.clone();
            let value = pairs[i].1.clone();
            self.put(key, value);
            proof {
                lemma_put_all_push(start, all.subrange(0, i as int), all[i as int]);
                assert(all.subrange(0, i + 1) =~= all.subrange(0, i as int).push(all[i as int]));
            }
            i += 1;
        }
        assert(all.subrange(0, i as int) =~= all);
    }

    /// The number of keys.
    pub fn len(&self) -> (n: usize)
        ensures
            n == self@.dom().len(),
            self@.dom().finite(),
    {
        proof {
            use_type_invariant(self);
            lemma_distinct_len(pairs_text(self.entries@));
        }
        self.entries.len()
    }

    /// All entries, each key once, in no promised order.
    pub fn entries(&self) -> (r: Vec<(String, String)>)
        ensures
            distinct_keys(pairs_text(r@)),
            put_all(Map::empty(), pairs_text(r@)) == self@,
    {
        proof {
            use_type_invariant(self);
        }
        let mut out: Vec<(String, String)> = Vec::new();
        let mut i: usize = 0;
        while i < self.entries.len()
            invariant
                i <= self.entries@.len(),
                pairs_text(out@) =~= pairs_text(self.entries@).subrange(0, i as int),
            decreases self.entries@.len() - i,
        {
            let ghost before = pairs_text(out@);
            let k = self.entries[i].0.clone();
            let v = self.entries[i].1.clone();
            out.push((k, v));
            assert(pairs_text(out@) =~= before.push((k@, v@)));
            i += 1;
        }
        assert(pairs_text(self.entries@).subrange(0, i as int) =~= pairs_text(self.entries@));
        out
    }
}

/// Replacing the value at position `i` of a list with distinct keys is an
/// upsert of that key.
proof fn lemma_update_is_insert(pairs: Seq<TextPair>, i: int, v: Seq<char>)
    requires
        distinct_keys(pairs),
        0 <= i < pairs.len(),
    ensures
        distinct_keys(pairs.update(i, (pairs[i].0, v))),
        put_all(Map::empty(), pairs.update(i, (pairs[i].0, v))) == put_all(
            Map::empty(),
            pairs,
        ).insert(pairs[i].0, v),
    decreases pairs.len(),
{
    let k = pairs[i].0;
    let after = pairs.update(i, (k, v));
    assert forall|a: int, b: int|
        0 <= a < after.len() && 0 <= b < after.len() && a != b implies after[a].0
        != after[b].0 by {
        assert(pairs[a].0 != pairs[b].0);
    }
    let front = pairs.drop_last();
    let base = put_all(Map::empty(), front);
    let last = pairs.last();
    if i == pairs.len() - 1 {
        assert(after.drop_last() =~= front);
        assert(base.insert(k, v) =~= base.insert(k, last.1).insert(k, v));
    } else {
        lemma_distinct_front(pairs);
        lemma_update_is_insert(front, i, v);
        assert(after.drop_last() =~= front.update(i, (k, v)));
        assert(last.0 != k);
        assert(base.insert(k, v).insert(last.0, last.1) =~= base.insert(last.0, last.1).insert(
            k,
            v,
        ));
    }
}

/// A pair whose key is new keeps the keys distinct.
proof fn lemma_push_distinct(pairs: Seq<TextPair>, p: TextPair)
    requires
        distinct_keys(pairs),
        forall|j: int| 0 <= j < pairs.len() ==> (#[trigger] pairs[j]).0 != p.0,
    ensures
        distinct_keys(pairs.push(p)),
{
    let after = pairs.push(p);
    assert forall|a: int, b: int|
        0 <= a < after.len() && 0 <= b < after.len() && a != b implies after[a].0
        != after[b].0 by {
        if a < pairs.len() && b < pairs.len() {
            assert(pairs[a].0 != pairs[b].0);
        } else if a < pairs.len() {
            assert(pairs[a].0 != p.0);
        } else {
            assert(pairs[b].0 != p.0);
        }
    }
}

/// In a list with distinct keys, the pairs before the last do not hold the
/// last key.
proof fn lemma_last_key_is_new(pairs: Seq<TextPair>)
    requires
        distinct_keys(pairs),
        pairs.len() > 0,
    ensures
        !put_all(Map::empty(), pairs.drop_last()).contains_key(pairs.last().0),
{
    let front = pairs.drop_last();
    let k = pairs.last().0;
    lemma_put_all_dom(Map::empty(), front, k);
    if has_key(front, k) {
        let j = choose|j: int| 0 <= j < front.len() && #[trigger] front[j].0 == k;
        assert(pairs[j].0 != pairs[pairs.len() - 1].0);
    }
}

/// Taking position `i` out of a list with distinct keys removes that key.
proof fn lemma_remove_is_remove(pairs: Seq<TextPair>, i: int)
    requires
        distinct_keys(pairs),
        0 <= i < pairs.len(),
    ensures
        distinct_keys(pairs.remove(i)),
        put_all(Map::empty(), pairs.remove(i)) == put_all(Map::empty(), pairs).remove(
            pairs[i].0,
        ),
    decreases pairs.len(),
{
    let k = pairs[i].0;
    let after = pairs.remove(i);
    assert forall|a: int, b: int|
        0 <= a < after.len() && 0 <= b < after.len() && a != b implies after[a].0
        != after[b].0 by {
        let a0 = if a < i { a } else { a + 1 };
        let b0 = if b < i { b } else { b + 1 };
        assert(pairs[a0].0 != pairs[b0].0);
    }
    let front = pairs.drop_last();
    let base = put_all(Map::empty(), front);
    let last = pairs.last();
    if i == pairs.len() - 1 {
        lemma_last_key_is_new(pairs);
        assert(after =~= front);
        assert(base =~= base.insert(k, last.1).remove(k));
    } else {
        lemma_distinct_front(pairs);
        lemma_remove_is_remove(front, i);
        assert(after.drop_last() =~= front.remove(i));
        assert(last.0 != k);
        assert(base.remove(k).insert(last.0, last.1) =~= base.insert(last.0, last.1).remove(k));
    }
}

/// A list with distinct keys has as many pairs as its map has keys.
proof fn lemma_distinct_len(pairs: Seq<TextPair>)
    requires
        distinct_keys(pairs),
    ensures
        put_all(Map::empty(), pairs).dom().finite(),
        put_all(Map::empty(), pairs).dom().len() == pairs.len(),
    decreases pairs.len(),
{
    if pairs.len() > 0 {
        let front = pairs.drop_last();
        lemma_distinct_front(pairs);
        lemma_distinct_len(front);
        lemma_last_key_is_new(pairs);
        assert(put_all(Map::empty(), pairs).dom() =~= put_all(Map::empty(), front).dom().insert(
            pairs.last().0,
        ));
    }
}

} // verus!
