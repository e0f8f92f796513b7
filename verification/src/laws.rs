//! Laws of the copy-on-write map, stated over the views that the public
//! contracts use and proved once and for all.
//!
//! Each lemma's hypotheses are exactly what the corresponding operations
//! ensure, so together with those contracts the lemmas describe whole call
//! sequences.

use crate::map::CowHashMap;
use crate::value::Form;
use vstd::prelude::*;

verus! {

broadcast use vstd::map::group_map_axioms, vstd::set::group_set_axioms;

/// Inserting an owned value under a key and then looking the key up yields
/// exactly that value, whatever the map held before.
pub proof fn lemma_insert_owned_then_get<'a>(
    pre: CowHashMap<'a>,
    post: CowHashMap<'a>,
    k: Seq<char>,
    v: Seq<u8>,
)
    requires
        post@ == pre@.insert(k, (Form::Owned, v)),
    ensures
        post.contents().contains_key(k),
        post.contents()[k] == v,
{
}

/// An entry whose value was handed out for mutation is held in owned form
/// afterwards, whatever bytes the caller wrote through the handle.
pub proof fn lemma_get_mut_forces_owned<'a>(
    post: CowHashMap<'a>,
    k: Seq<char>,
    w: Seq<u8>,
)
    requires
        post@.contains_key(k),
        post@[k] == (Form::Owned, w),
    ensures
        post.forms().contains_key(k),
        post.forms()[k] == Form::Owned,
{
}

/// Materializing an entry that is already owned changes nothing: the step
/// that forces an entry to owned form is stable, so no second clone can be
/// observed however often it is repeated.
pub proof fn lemma_owned_entry_stable<'a>(pre: CowHashMap<'a>, post: CowHashMap<'a>, k: Seq<char>)
    requires
        pre@.contains_key(k),
        pre.forms()[k] == Form::Owned,
        post@ == pre@.insert(k, (Form::Owned, pre.contents()[k])),
    ensures
        post@ == pre@,
{
    assert(post@ =~= pre@);
}

/// Forcing an entry to owned form is idempotent: the first call leaves the
/// entry owned with its bytes unchanged, and a second call returns the same
/// content and leaves the map exactly as the first call left it.
pub proof fn lemma_make_owned_idempotent<'a>(
    m: CowHashMap<'a>,
    once: CowHashMap<'a>,
    twice: CowHashMap<'a>,
    k: Seq<char>,
)
    requires
        m@.contains_key(k),
        once@ == m@.insert(k, (Form::Owned, m.contents()[k])),
        twice@ == once@.insert(k, (Form::Owned, once.contents()[k])),
    ensures
        twice@ == once@,
        once.contents()[k] == m.contents()[k],
        once.forms()[k] == Form::Owned,
{
    assert(twice@ =~= once@);
}

/// The borrow-fields snapshot keeps the key set and every key's bytes,
/// while every entry of the snapshot is held in borrowed form. (The source
/// map itself is never changed: the snapshot operation only reads it.)
pub proof fn lemma_borrow_fields_view<'a>(src: CowHashMap<'a>, snap: CowHashMap<'a>)
    requires
        snap@ == src@.map_values(|e: (Form, Seq<u8>)| (Form::Borrowed, e.1)),
    ensures
        snap.spec_len() == src.spec_len(),
        forall|k: Seq<char>| #[trigger] snap@.contains_key(k) == src@.contains_key(k),
        forall|k: Seq<char>|
            #[trigger] src@.contains_key(k) ==> snap.contents()[k] == src.contents()[k],
        forall|k: Seq<char>| #[trigger] src@.contains_key(k) ==> snap.forms()[k] == Form::Borrowed,
{
    assert(snap@.dom() =~= src@.dom());
}

/// A map with the empty view holds no entries.
pub proof fn lemma_empty_len<'a>(m: CowHashMap<'a>)
    requires
        m@ == Map::<Seq<char>, (Form, Seq<u8>)>::empty(),
    ensures
        m.spec_len() == 0,
{
    assert(m@.dom() =~= Set::<Seq<char>>::empty());
}

} // verus!
