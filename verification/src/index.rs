//! The entry store: a hash table mapping each key to the slot that holds
//! its value.
//!
//! Hashing, collision resolution and capacity growth are delegated to
//! `hashbrown::HashMap<String, usize>`. Verus never looks inside it; the
//! functions here are the trusted boundary, and each contract states only
//! what hashbrown's documentation promises of the call it makes. Everything
//! above this module is verified against these contracts.

use vstd::prelude::*;

verus! {

/// The key-to-slot table. The field is opaque to Verus; its abstract
/// contents are given by [`index_entries`] and [`index_capacity`].
#[verifier::external_body]
pub struct KeyIndex {
    inner: hashbrown::HashMap<String, usize>,
}

/// The abstract contents of a [`KeyIndex`]: which slot each stored key
/// maps to.
pub uninterp spec fn index_entries(ix: KeyIndex) -> Map<Seq<char>, usize>;

/// The contents of a [`KeyIndex`] with nothing in it.
pub open spec fn no_entries() -> Map<Seq<char>, usize> {
    Map::empty()
}

/// The number of entries a [`KeyIndex`] can hold without reallocating,
/// as hashbrown reports it: a lower bound, never below the entry count.
pub uninterp spec fn index_capacity(ix: KeyIndex) -> nat;

/// Beyond this entry count the trusted boundary makes no promise: a table
/// growth past it could ask the allocator for more than `isize::MAX` bytes,
/// which hashbrown answers with a panic, even where `usize` is 32 bits wide.
pub const MAX_KEYS: usize = 0x0100_0000;

impl KeyIndex {
    /// Relies on `hashbrown::HashMap::new`: an empty map with capacity 0.
    #[verifier::external_body]
    pub fn new() -> (r: KeyIndex)
        ensures
            index_entries(r) == no_entries(),
            index_capacity(r) == 0,
    {
        KeyIndex { inner: hashbrown::HashMap::new() }
    }

    /// Relies on `hashbrown::HashMap::with_capacity`: an empty map able to
    /// hold at least `capacity` entries without reallocating.
    #[verifier::external_body]
    pub fn with_capacity(capacity: usize) -> (r: KeyIndex)
        requires
            capacity <= MAX_KEYS,
        ensures
            index_entries(r) == no_entries(),
            index_capacity(r) >= capacity,
    {
        KeyIndex { inner: hashbrown::HashMap::with_capacity(capacity) }
    }

    /// Relies on `hashbrown::HashMap::capacity`: the lower bound on how
    /// many entries fit without reallocating.
    #[verifier::external_body]
    pub fn capacity(&self) -> (r: usize)
        ensures
            r == index_capacity(*self),
            r >= index_entries(*self).dom().len(),
    {
        self.inner.capacity()
    }

    /// Relies on `hashbrown::HashMap::reserve`: afterwards at least
    /// `additional` more entries fit without reallocating; the contents do
    /// not change.
    #[verifier::external_body]
    pub fn reserve(&mut self, additional: usize)
        requires
            index_entries(*old(self)).dom().len() + additional <= MAX_KEYS,
        ensures
            index_entries(*final(self)) == index_entries(*old(self)),
            index_capacity(*final(self)) >= index_entries(*old(self)).dom().len() + additional,
    {
        self.inner.reserve(additional);
    }

    /// Relies on `hashbrown::HashMap::shrink_to_fit`: the contents do not
    /// change, and the capacity stays at least the entry count.
    #[verifier::external_body]
    pub fn shrink_to_fit(&mut self)
        ensures
            index_entries(*final(self)) == index_entries(*old(self)),
            index_capacity(*final(self)) >= index_entries(*old(self)).dom().len(),
    {
        self.inner.shrink_to_fit();
    }

    /// Relies on `hashbrown::HashMap::get` with `String` keys queried by
    /// `&str`: the slot stored under a key equal character by character,
    /// if there is one.
    #[verifier::external_body]
    pub fn get(&self, key: &str) -> (r: Option<usize>)
        ensures
            match r {
                Some(i) => index_entries(*self).contains_key(key@) && index_entries(*self)[key@]
                    == i,
                None => !index_entries(*self).contains_key(key@),
            },
    {
        self.inner.get(key).copied()
    }

    /// Relies on `hashbrown::HashMap::insert`: the slot is stored under the
    /// key, replacing any previous slot under an equal key; other entries
    /// are untouched.
    #[verifier::external_body]
    pub fn insert(&mut self, key: String, slot: usize)
        requires
            index_entries(*old(self)).dom().len() < MAX_KEYS,
        ensures
            index_entries(*final(self)) == index_entries(*old(self)).insert(key@, slot),
            index_capacity(*final(self)) >= index_capacity(*old(self)),
    {
        self.inner.insert(key, slot);
    }

    /// Relies on `hashbrown::HashMap::iter`: it visits every entry exactly
    /// once, in no promised order.
    #[verifier::external_body]
    pub fn pairs<'s>(&'s self) -> (r: Vec<(&'s String, usize)>)
        ensures
            r@.len() == index_entries(*self).dom().len(),
            forall|j: int|
                0 <= j < r@.len() ==> index_entries(*self).contains_key((#[trigger] r@[j]).0@)
                    && index_entries(*self)[r@[j].0@] == r@[j].1,
            forall|j1: int, j2: int|
                0 <= j1 < j2 < r@.len() ==> (#[trigger] r@[j1]).0@ != (#[trigger] r@[j2]).0@,
            forall|k: Seq<char>|
                index_entries(*self).contains_key(k) ==> exists|j: int|
                    0 <= j < r@.len() && (#[trigger] r@[j]).0@ == k,
    {
        self.inner.iter().map(|(k, v)| (k, *v)).collect()
    }
}

} // verus!
