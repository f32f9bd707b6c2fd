use vstd::prelude::*;

use crate::region::{cleared, filled, indices, Region, Span};
use crate::pinned::Pinned;

verus! {

/// The proof that a place is filled. It is also the owner of the values
/// there: dropping it through [`Init::drop`] destroys them.
pub struct Init {
    span: Span,
}

impl View for Init {
    type V = Span;

    closed spec fn view(&self) -> Span {
        self.span
    }
}

impl Init {
    /// Creates the proof for a place whose slots all hold values.
    pub fn from_raw<T>(region: &Region<T>, data: Span) -> (r: Init)
        requires
            filled(region.cells(), data),
        ensures
            r@ == data,
    {
        Init { span: data }
    }

    /// The place this proof covers.
    pub fn span(&self) -> (s: Span)
        ensures
            s == self@,
    {
        self.span
    }

    /// The value of a single-slot place.
    pub fn get<'a, T>(&self, region: &'a Region<T>) -> (v: &'a T)
        requires
            self@.len == 1,
            filled(region.cells(), self@),
        ensures
            region.cells()[self@.start as int] == Some(*v),
    {
        region.get(self.span.start).unwrap()
    }

    /// Replaces the value of a single-slot place, returning the old one.
    pub fn replace<T>(&self, region: &mut Region<T>, value: T) -> (v: T)
        requires
            self@.len == 1,
            filled(old(region).cells(), self@),
        ensures
            old(region).cells()[self@.start as int] == Some(v),
            final(region).cells() == old(region).cells().update(self@.start as int, Some(value)),
            final(region).log() == old(region).log(),
    {
        region.swap_slot(self.span.start, Some(value)).unwrap()
    }

    /// Fixes the values where they stand: the pinned handle keeps the duty
    /// to destroy them and gives no way to move them.
    pub fn into_pin(this: Init) -> (r: Pinned)
        ensures
            r@ == this@,
    {
        Pinned::new(this.span)
    }

    /// Destroys the values of the place, lowest slot first.
    pub fn drop<T>(self, region: &mut Region<T>)
        requires
            filled(old(region).cells(), self@),
        ensures
            final(region).cells() == cleared(old(region).cells(), self@),
            final(region).log() == old(region).log() + indices(self@),
    {
        region.destroy(self.span)
    }
}

} // verus!
