//! A node of a cluster that is yet to be: its own data, and a cache of the
//! results it has computed.

use vstd::prelude::*;
use crate::chars::joined;
use crate::store::{lookup, text_of, KeyValueStore, TextMap};

verus! {

/// One node: an address, the data it holds, and the results it remembers.
pub struct Node {
    address: String,
    data: KeyValueStore,
    cache: KeyValueStore,
}

/// The result that is computed for `value`.
pub open spec fn computed(value: Seq<char>) -> Seq<char> {
    "ExpensiveResultOf_"@ + value
}

impl Node {
    /// The address that the node was made with.
    pub closed spec fn address_text(&self) -> Seq<char> {
        self.address@
    }

    /// The data that the node holds.
    pub closed spec fn data(&self) -> TextMap {
        self.data@
    }

    /// The results that the node remembers, by key.
    pub closed spec fn remembered(&self) -> TextMap {
        self.cache@
    }

    /// A node without an address, data or remembered results.
    pub fn create() -> (node: Node)
        ensures
            node.address_text() == Seq::<char>::empty(),
            node.data() == TextMap::empty(),
            node.remembered() == TextMap::empty(),
    {
        Node { address: String::new(), data: KeyValueStore::new(), cache: KeyValueStore::new() }
    }

    /// A node at `address` without data or remembered results.
    pub fn new(address: String) -> (node: Node)
        ensures
            node.address_text() == address@,
            node.data() == TextMap::empty(),
            node.remembered() == TextMap::empty(),
    {
        Node { address, data: KeyValueStore::new(), cache: KeyValueStore::new() }
    }

    /// Whether the node is in working order: it always is.
    pub fn operate(&self) -> (working: bool)
        ensures
            working,
    {
        true
    }

    /// The address that the node was made with.
    pub fn address(&self) -> (r: &str)
        ensures
            r@ == self.address_text(),
    {
        self.address.as_str()
    }

    /// Upserts into the node's data; what it remembers is left alone.
    pub fn set(&mut self, key: String, value: String)
        ensures
            final(self).data() == old(self).data().insert(key@, value@),
            final(self).remembered() == old(self).remembered(),
            final(self).address_text() == old(self).address_text(),
    {
        self.data.put(key, value);
    }

    /// The value of `key` in the node's data, or `None` where it is absent.
    pub fn get(&self, key: &str) -> (r: Option<String>)
        ensures
            text_of(r) == lookup(self.data(), key@),
    {
        self.data.get(key)
    }

    /// The result for `key`: the one remembered for it where there is one,
    /// whatever `value` is; otherwise the result computed for `value`, which
    /// is then remembered for `key`.
    pub fn expensive_computation(&mut self, key: &str, value: &str) -> (r: String)
        ensures
            r@ == match lookup(old(self).remembered(), key@) {
                Some(known) => known,
                None => computed(value@),
            },
            final(self).remembered() == old(self).remembered().insert(key@, r@),
            final(self).data() == old(self).data(),
            final(self).address_text() == old(self).address_text(),
    {
        match self.cache.get(key) {
            Some(known) => {
                known
            },
            None => {
                let result = joined("ExpensiveResultOf_", value);
                self.cache.put(key.to_owned(), result.clone());
                result
            },
        }
    }
}

} // verus!
