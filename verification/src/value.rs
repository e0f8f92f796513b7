//! The per-entry copy-on-write state machine.
//!
//! A [`CowValue`] is in exactly one of two states: `Borrowed`, a shared
//! reference into a buffer that outlives the map, or `Owned`, a buffer the
//! map holds privately. The only transition on a live slot is
//! `Borrowed -> Owned`, performed at most once by [`CowValue::materialize`].

use vstd::prelude::*;

verus! {

/// The form of an entry in the map: either borrowed or owned.
#[derive(Clone, Copy, Debug, PartialEq, Eq, Structural)]
pub enum Form {
    /// The entry is a shared reference into data owned outside the map.
    Borrowed,
    /// The entry is a private copy owned by the map.
    Owned,
}

/// A single copy-on-write slot.
pub enum CowValue<'a> {
    /// A shared reference into a buffer that remains valid for the map's
    /// whole borrow scope.
    Borrowed(&'a Vec<u8>),
    /// A buffer owned by the map itself.
    Owned(Vec<u8>),
}

impl<'a> CowValue<'a> {
    /// The bytes this slot denotes, regardless of its form.
    pub open spec fn data(&self) -> Seq<u8> {
        match self {
            CowValue::Borrowed(v) => v@,
            CowValue::Owned(v) => v@,
        }
    }

    /// The form the slot is currently in.
    pub open spec fn form(&self) -> Form {
        match self {
            CowValue::Borrowed(_) => Form::Borrowed,
            CowValue::Owned(_) => Form::Owned,
        }
    }

    /// The current form, for introspection; no transition happens.
    pub fn current_form(&self) -> (f: Form)
        ensures
            f == self.form(),
    {
        match self {
            CowValue::Borrowed(_) => Form::Borrowed,
            CowValue::Owned(_) => Form::Owned,
        }
    }

    /// Read access: dereferences either state uniformly.
    pub fn read(&self) -> (r: &Vec<u8>)
        ensures
            r@ == self.data(),
    {
        match self {
            CowValue::Borrowed(v) => v,
            CowValue::Owned(v) => v,
        }
    }

    /// Lazily materialize: a borrowed slot deep-copies the referenced bytes
    /// into a private buffer; an owned slot is left untouched. After the
    /// call the slot is owned and denotes the same bytes as before.
    pub fn materialize(&mut self)
        ensures
            final(self).form() == Form::Owned,
            final(self).data() == old(self).data(),
    {
        match self {
            CowValue::Borrowed(v) => {
                let copy: Vec<u8> = (*v).clone();
                proof {
                    assert(copy@ =~= v@);
                }
                *self = CowValue::Owned(copy);
            },
            CowValue::Owned(_) => {},
        }
    }

    /// Materialize, then hand out exclusive access to the owned buffer.
    /// Whatever the caller writes through the result is what the slot
    /// holds afterwards; the slot stays owned.
    pub fn to_mut(&mut self) -> (r: &mut Vec<u8>)
        ensures
            r@ == old(self).data(),
            final(self).form() == Form::Owned,
            final(self).data() == final(r)@,
    {
        self.materialize();
        match self {
            CowValue::Owned(v) => v,
            CowValue::Borrowed(_) => unreached(),
        }
    }

    /// Consume the slot and return its bytes as an owned buffer, cloning
    /// them if the slot was still borrowed.
    pub fn into_owned(self) -> (r: Vec<u8>)
        ensures
            r@ == self.data(),
    {
        match self {
            CowValue::Borrowed(v) => {
                let copy: Vec<u8> = v.clone();
                proof {
                    assert(copy@ =~= v@);
                }
                copy
            },
            CowValue::Owned(v) => v,
        }
    }
}

} // verus!
