//! The copy-on-write map itself.
//!
//! A [`CowHashMap`] owns an entry store ([`KeyIndex`]) that maps each key to
//! a slot, and a vector of [`CowValue`] slots holding the values. Keys are
//! always stored in owned form; when a key is inserted again, the first
//! stored key is retained, as the entry store's replace semantics keep it.
//! Values are borrowed or owned per entry, and move from borrowed to owned
//! lazily, only when mutation or materialization demands it.

use crate::index::index_capacity;
use crate::index::index_entries;
use crate::index::KeyIndex;
use crate::index::MAX_KEYS;
use crate::value::CowValue;
use crate::value::Form;
use vstd::pervasive::VecAdditionalExecFns;
use vstd::prelude::*;

verus! {

broadcast use vstd::map::group_map_axioms, vstd::set::group_set_axioms;

/// The largest entry count the map supports; beyond it the entry store
/// could no longer grow without risking an allocation past the allocator's
/// limits.
pub const MAX_LEN: usize = MAX_KEYS;

/// A hash map whose entries remember whether they are borrowed references
/// into data owned elsewhere or private copies, cloning lazily on first
/// mutation.
pub struct CowHashMap<'a> {
    index: KeyIndex,
    slots: Vec<CowValue<'a>>,
}

impl<'a> View for CowHashMap<'a> {
    type V = Map<Seq<char>, (Form, Seq<u8>)>;

    /// Each key maps to the form its value is held in and the bytes it
    /// denotes.
    closed spec fn view(&self) -> Map<Seq<char>, (Form, Seq<u8>)> {
        index_entries(self.index).map_values(
            |i: usize| (self.slots@[i as int].form(), self.slots@[i as int].data()),
        )
    }
}

impl<'a> CowHashMap<'a> {
    /// The bytes stored under each key, regardless of form.
    pub open spec fn contents(&self) -> Map<Seq<char>, Seq<u8>> {
        self@.map_values(|e: (Form, Seq<u8>)| e.1)
    }

    /// The form under which each key's value is currently held.
    pub open spec fn forms(&self) -> Map<Seq<char>, Form> {
        self@.map_values(|e: (Form, Seq<u8>)| e.0)
    }

    /// The number of entries.
    pub open spec fn spec_len(&self) -> nat {
        self@.dom().len()
    }

    /// The number of entries the map can hold without reallocating.
    pub closed spec fn spec_capacity(&self) -> nat {
        index_capacity(self.index)
    }

    /// Well-formedness: the entry store sends its keys injectively to
    /// slots of the slot vector, one slot per key.
    pub closed spec fn inv(&self) -> bool {
        let ix = index_entries(self.index);
        &&& ix.dom().finite()
        &&& ix.dom().len() == self.slots@.len()
        &&& forall|k: Seq<char>| #[trigger] ix.contains_key(k) ==> ix[k] < self.slots@.len()
        &&& ix.is_injective()
        &&& self.slots@.len() <= MAX_LEN
    }

    proof fn lemma_view_dom(self)
        ensures
            self@.dom() == index_entries(self.index).dom(),
    {
        assert(self@.dom() =~= index_entries(self.index).dom());
    }

    /// Creates an empty map.
    pub fn new() -> (r: Self)
        ensures
            r.inv(),
            r@ == Map::<Seq<char>, (Form, Seq<u8>)>::empty(),
            r.spec_capacity() == 0,
    {
        let r = CowHashMap { index: KeyIndex::new(), slots: Vec::new() };
        proof {
            assert(r@ =~= Map::<Seq<char>, (Form, Seq<u8>)>::empty());
            r.lemma_view_dom();
        }
        r
    }

    /// Creates an empty map that can hold at least `capacity` entries
    /// without reallocating.
    pub fn with_capacity(capacity: usize) -> (r: Self)
        requires
            capacity <= MAX_LEN,
        ensures
            r.inv(),
            r@ == Map::<Seq<char>, (Form, Seq<u8>)>::empty(),
            r.spec_capacity() >= capacity,
    {
        let r = CowHashMap { index: KeyIndex::with_capacity(capacity), slots: Vec::new() };
        proof {
            assert(r@ =~= Map::<Seq<char>, (Form, Seq<u8>)>::empty());
            r.lemma_view_dom();
        }
        r
    }

    /// The number of entries the map can hold without reallocating: a
    /// lower bound, never below the entry count.
    pub fn capacity(&self) -> (r: usize)
        requires
            self.inv(),
        ensures
            r == self.spec_capacity(),
            r >= self.spec_len(),
    {
        proof {
            self.lemma_view_dom();
        }
        self.index.capacity()
    }

    /// Reserves room for at least `additional` more entries.
    pub fn reserve(&mut self, additional: usize)
        requires
            old(self).inv(),
            old(self).spec_len() + additional <= MAX_LEN,
        ensures
            final(self).inv(),
            final(self)@ == old(self)@,
            final(self).spec_capacity() >= old(self).spec_len() + additional,
    {
        proof {
            old(self).lemma_view_dom();
        }
        self.index.reserve(additional);
    }

    /// Releases unused capacity as far as the entry store allows.
    pub fn shrink_to_fit(&mut self)
        requires
            old(self).inv(),
        ensures
            final(self).inv(),
            final(self)@ == old(self)@,
            final(self).spec_capacity() >= final(self).spec_len(),
    {
        self.index.shrink_to_fit();
        proof {
            self.lemma_view_dom();
        }
    }

    /// The number of entries currently in the map.
    pub fn len(&self) -> (r: usize)
        requires
            self.inv(),
        ensures
            r == self.spec_len(),
    {
        proof {
            self.lemma_view_dom();
        }
        self.slots.len()
    }

    /// True if the map holds no entries.
    pub fn is_empty(&self) -> (r: bool)
        requires
            self.inv(),
        ensures
            r == (self.spec_len() == 0),
    {
        self.len() == 0
    }

    /// Stores `value` under `key`. If the key was absent, a fresh slot is
    /// created; if it was present, the old value is materialized to owned
    /// form — cloning it if it was borrowed — and returned, and the slot is
    /// overwritten with the new value in its requested form.
    fn insert_slot(&mut self, key: String, value: CowValue<'a>) -> (r: Option<Vec<u8>>)
        requires
            old(self).inv(),
            old(self).spec_len() < MAX_LEN,
        ensures
            final(self).inv(),
            final(self)@ == old(self)@.insert(key@, (value.form(), value.data())),
            final(self).spec_capacity() >= old(self).spec_capacity(),
            match r {
                Some(prev) => old(self)@.contains_key(key@) && prev@ == old(self).contents()[key@],
                None => !old(self)@.contains_key(key@),
            },
    {
        proof {
            old(self).lemma_view_dom();
        }
        let ghost entry = (value.form(), value.data());
        match self.index.get(key.as_str()) {
            Some(i) => {
                proof {
                    let ix = index_entries(self.index);
                    assert forall|k2: Seq<char>|
                        #[trigger] ix.contains_key(k2) && k2 != key@ implies ix[k2] != ix[key@] by {}
                }
                let mut v = value;
                self.slots.set_and_swap(i, &mut v);
                let prev = v.into_owned();
                proof {
                    assert(self@ =~= old(self)@.insert(key@, entry));
                }
                Some(prev)
            },
            None => {
                let i = self.slots.len();
                self.slots.push(value);
                self.index.insert(key, i);
                proof {
                    let ix0 = index_entries(old(self).index);
                    let ix = index_entries(self.index);
                    assert(ix.dom() =~= ix0.dom().insert(key@));
                    assert(ix.is_injective()) by {
                        assert forall|x: Seq<char>, y: Seq<char>|
                            x != y && ix.contains_key(x) && ix.contains_key(y) implies #[trigger] ix[x]
                            != #[trigger] ix[y] by {
                            if x != key@ && y != key@ {
                                assert(ix0[x] == ix[x] && ix0[y] == ix[y]);
                            }
                        }
                    }
                    assert(self@ =~= old(self)@.insert(key@, entry));
                }
                None
            },
        }
    }

    /// Inserts with both key and value in owned form. Returns the previous
    /// value, materialized to owned form, if the key was already present.
    pub fn insert_owned(&mut self, key: String, value: Vec<u8>) -> (r: Option<Vec<u8>>)
        requires
            old(self).inv(),
            old(self).spec_len() < MAX_LEN,
        ensures
            final(self).inv(),
            final(self)@ == old(self)@.insert(key@, (Form::Owned, value@)),
            final(self).spec_capacity() >= old(self).spec_capacity(),
            match r {
                Some(prev) => old(self)@.contains_key(key@) && prev@ == old(self).contents()[key@],
                None => !old(self)@.contains_key(key@),
            },
    {
        self.insert_slot(key, CowValue::Owned(value))
    }

    /// Inserts with the value in owned form; the key is given borrowed and
    /// stored as the map's own copy. Returns the previous value,
    /// materialized to owned form, if the key was already present.
    pub fn insert_owned_borrowed_key(&mut self, key: &str, value: Vec<u8>) -> (r: Option<
        Vec<u8>,
    >)
        requires
            old(self).inv(),
            old(self).spec_len() < MAX_LEN,
        ensures
            final(self).inv(),
            final(self)@ == old(self)@.insert(key@, (Form::Owned, value@)),
            final(self).spec_capacity() >= old(self).spec_capacity(),
            match r {
                Some(prev) => old(self)@.contains_key(key@) && prev@ == old(self).contents()[key@],
                None => !old(self)@.contains_key(key@),
            },
    {
        self.insert_slot(key.to_owned(), CowValue::Owned(value))
    }

    /// Inserts with the value in borrowed form: the map keeps only a
    /// reference to `value`, which must stay valid for the map's whole
    /// borrow scope. Returns the previous value, materialized to owned
    /// form, if the key was already present.
    pub fn insert_borrowed(&mut self, key: &str, value: &'a Vec<u8>) -> (r: Option<Vec<u8>>)
        requires
            old(self).inv(),
            old(self).spec_len() < MAX_LEN,
        ensures
            final(self).inv(),
            final(self)@ == old(self)@.insert(key@, (Form::Borrowed, value@)),
            final(self).spec_capacity() >= old(self).spec_capacity(),
            match r {
                Some(prev) => old(self)@.contains_key(key@) && prev@ == old(self).contents()[key@],
                None => !old(self)@.contains_key(key@),
            },
    {
        self.insert_slot(key.to_owned(), CowValue::Borrowed(value))
    }

    /// Inserts with the key in owned form and the value in borrowed form.
    /// Returns the previous value, materialized to owned form, if the key
    /// was already present.
    pub fn insert_borrowed_owned_key(&mut self, key: String, value: &'a Vec<u8>) -> (r: Option<
        Vec<u8>,
    >)
        requires
            old(self).inv(),
            old(self).spec_len() < MAX_LEN,
        ensures
            final(self).inv(),
            final(self)@ == old(self)@.insert(key@, (Form::Borrowed, value@)),
            final(self).spec_capacity() >= old(self).spec_capacity(),
            match r {
                Some(prev) => old(self)@.contains_key(key@) && prev@ == old(self).contents()[key@],
                None => !old(self)@.contains_key(key@),
            },
    {
        self.insert_slot(key, CowValue::Borrowed(value))
    }

    /// Looks up the bytes stored under `key`, whatever form they are held
    /// in.
    pub fn get(&self, key: &str) -> (r: Option<&Vec<u8>>)
        requires
            self.inv(),
        ensures
            match r {
                Some(v) => self@.contains_key(key@) && v@ == self.contents()[key@],
                None => !self@.contains_key(key@),
            },
    {
        match self.index.get(key) {
            Some(i) => {
                let slot = &self.slots[i];
                Some(slot.read())
            },
            None => None,
        }
    }

    /// Exclusive access to the owned form of the value under `key`. A
    /// borrowed entry is cloned first; afterwards the entry is owned, and
    /// whatever the caller writes through the result is what the entry
    /// holds — the data the borrowed reference pointed at is never touched.
    pub fn get_mut(&mut self, key: &str) -> (r: Option<&mut Vec<u8>>)
        requires
            old(self).inv(),
        ensures
            final(self).inv(),
            r.is_some() == old(self)@.contains_key(key@),
            r.is_none() ==> *final(self) == *old(self),
            r.is_some() ==> {
                &&& r.unwrap()@ == old(self).contents()[key@]
                &&& final(self)@[key@] == (Form::Owned, final(r.unwrap())@)
                &&& forall|k: Seq<char>|
                    #[trigger] final(self)@.contains_key(k) == old(self)@.contains_key(k)
                &&& forall|k: Seq<char>|
                    #[trigger] old(self)@.contains_key(k) && k != key@ ==> final(self)@[k] == old(self)@[k]
            },
    {
        match self.index.get(key) {
            Some(i) => {
                proof {
                    let ix = index_entries(self.index);
                    assert forall|k2: Seq<char>|
                        #[trigger] ix.contains_key(k2) && k2 != key@ implies ix[k2] != ix[key@] by {}
                }
                let slot = &mut self.slots[i];
                let v = slot.to_mut();
                Some(v)
            },
            None => None,
        }
    }

    /// Forces the value under `key` into owned form — cloning it if it was
    /// borrowed, doing nothing if it was owned already — and returns a
    /// read-only view of it. The bytes stored under the key are unchanged.
    pub fn make_owned(&mut self, key: &str) -> (r: Option<&Vec<u8>>)
        requires
            old(self).inv(),
        ensures
            final(self).inv(),
            r.is_some() == old(self)@.contains_key(key@),
            r.is_none() ==> *final(self) == *old(self),
            r.is_some() ==> {
                &&& r.unwrap()@ == old(self).contents()[key@]
                &&& final(self)@ == old(self)@.insert(
                    key@,
                    (Form::Owned, old(self).contents()[key@]),
                )
            },
    {
        match self.index.get(key) {
            Some(i) => {
                proof {
                    let ix = index_entries(self.index);
                    assert forall|k2: Seq<char>|
                        #[trigger] ix.contains_key(k2) && k2 != key@ implies ix[k2] != ix[key@] by {}
                }
                let slot = &mut self.slots[i];
                slot.materialize();
                proof {
                    assert(self@ =~= old(self)@.insert(
                        key@,
                        (Form::Owned, old(self).contents()[key@]),
                    ));
                }
                let done = &self.slots[i];
                Some(done.read())
            },
            None => None,
        }
    }

    /// The form — borrowed or owned — in which the value under `key` is
    /// currently held, if the key is present.
    pub fn entry_form(&self, key: &str) -> (r: Option<Form>)
        requires
            self.inv(),
        ensures
            match r {
                Some(f) => self@.contains_key(key@) && f == self.forms()[key@],
                None => !self@.contains_key(key@),
            },
    {
        match self.index.get(key) {
            Some(i) => {
                let slot = &self.slots[i];
                Some(slot.current_form())
            },
            None => None,
        }
    }

    /// The keys of the map, each exactly once, in no promised order.
    pub fn keys(&self) -> (r: Vec<&String>)
        requires
            self.inv(),
        ensures
            r@.len() == self.spec_len(),
            forall|j: int| 0 <= j < r@.len() ==> self@.contains_key((#[trigger] r@[j])@),
            forall|j1: int, j2: int|
                0 <= j1 < j2 < r@.len() ==> (#[trigger] r@[j1])@ != (#[trigger] r@[j2])@,
            forall|k: Seq<char>|
                self@.contains_key(k) ==> exists|j: int|
                    0 <= j < r@.len() && (#[trigger] r@[j])@ == k,
    {
        proof {
            self.lemma_view_dom();
        }
        let pairs = self.index.pairs();
        let mut out: Vec<&String> = Vec::with_capacity(pairs.len());
        let mut j: usize = 0;
        while j < pairs.len()
            invariant
                j <= pairs@.len(),
                out@.len() == j,
                forall|j2: int| 0 <= j2 < j ==> (#[trigger] out@[j2]) == pairs@[j2].0,
            decreases pairs@.len() - j,
        {
            let kref = pairs[j].0;
            out.push(kref);
            j += 1;
        }
        proof {
            assert forall|k: Seq<char>| self@.contains_key(k) implies exists|j2: int|
                0 <= j2 < out@.len() && (#[trigger] out@[j2])@ == k by {
                let j2 = choose|j2: int| 0 <= j2 < pairs@.len() && pairs@[j2].0@ == k;
                assert(out@[j2] == pairs@[j2].0);
                assert((out@[j2])@ == k);
            }
        }
        out
    }

    /// A new map over the same entries in which every value is held in
    /// borrowed form, referencing data the source map (or what it borrows
    /// from) owns. The source map is read, never changed, and must outlive
    /// the result.
    pub fn borrow_fields(&'a self) -> (r: CowHashMap<'a>)
        requires
            self.inv(),
        ensures
            r.inv(),
            r@ == self@.map_values(|e: (Form, Seq<u8>)| (Form::Borrowed, e.1)),
            r.spec_len() == self.spec_len(),
    {
        proof {
            self.lemma_view_dom();
        }
        let pairs = self.index.pairs();
        let mut out: CowHashMap<'a> = CowHashMap::with_capacity(pairs.len());
        let mut j: usize = 0;
        while j < pairs.len()
            invariant
                self.inv(),
                out.inv(),
                j <= pairs@.len(),
                out.spec_len() == j,
                pairs@.len() == index_entries(self.index).dom().len(),
                pairs@.len() <= MAX_LEN,
                forall|j2: int|
                    0 <= j2 < pairs@.len() ==> index_entries(self.index).contains_key(
                        (#[trigger] pairs@[j2]).0@,
                    ) && index_entries(self.index)[pairs@[j2].0@] == pairs@[j2].1,
                forall|j1: int, j2: int|
                    0 <= j1 < j2 < pairs@.len() ==> (#[trigger] pairs@[j1]).0@ != (
                    #[trigger] pairs@[j2]).0@,
                forall|k: Seq<char>|
                    index_entries(self.index).contains_key(k) ==> exists|j2: int|
                        0 <= j2 < pairs@.len() && (#[trigger] pairs@[j2]).0@ == k,
                forall|j2: int|
                    0 <= j2 < j ==> out@.contains_key((#[trigger] pairs@[j2]).0@) && out@[
                        pairs@[j2].0@
                    ] == (Form::Borrowed, self.contents()[pairs@[j2].0@]),
                forall|k: Seq<char>|
                    #[trigger] out@.contains_key(k) ==> exists|j2: int|
                        0 <= j2 < j && (#[trigger] pairs@[j2]).0@ == k,
                out@.dom().finite(),
                self@.dom() == index_entries(self.index).dom(),
            decreases pairs@.len() - j,
        {
            let (kref, i) = pairs[j];
            let slot = &self.slots[i];
            let vref: &'a Vec<u8> = slot.read();
            let ghost pre = out@;
            out.insert_slot(kref.clone(), CowValue::Borrowed(vref));
            proof {
                assert(out@.dom() =~= pre.dom().insert(kref@));
                assert(!pre.contains_key(kref@)) by {
                    if pre.contains_key(kref@) {
                        let j2 = choose|j2: int| 0 <= j2 < j && pairs@[j2].0@ == kref@;
                        assert(pairs@[j2].0@ != pairs@[j as int].0@);
                        assert(false);
                    }
                }
                assert(out@.dom().len() == pre.dom().len() + 1);
            }
            j += 1;
        }
        proof {
            assert(out@ =~= self@.map_values(|e: (Form, Seq<u8>)| (Form::Borrowed, e.1))) by {
                let goal = self@.map_values(|e: (Form, Seq<u8>)| (Form::Borrowed, e.1));
                assert forall|k: Seq<char>| #[trigger] out@.contains_key(k)
                    == goal.contains_key(k) by {
                    if self@.contains_key(k) {
                        assert(index_entries(self.index).contains_key(k));
                        let j2 = choose|j2: int|
                            0 <= j2 < pairs@.len() && pairs@[j2].0@ == k;
                        assert(out@.contains_key(k));
                    }
                }
                assert forall|k: Seq<char>| #[trigger] out@.contains_key(k) implies out@[k]
                    == goal[k] by {
                    let j2 = choose|j2: int|
                        0 <= j2 < pairs@.len() && pairs@[j2].0@ == k;
                }
            }
            out.lemma_view_dom();
        }
        out
    }
}

} // verus!
