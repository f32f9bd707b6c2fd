use vstd::prelude::*;

use crate::region::{cleared, filled, indices, Region, Span};

verus! {

/// An owner whose values stay where they are: it offers reading and
/// destruction in place, and no way to move the values out or elsewhere.
pub struct Pinned {
    span: Span,
}

impl View for Pinned {
    type V = Span;

    closed spec fn view(&self) -> Span {
        self.span
    }
}

impl Pinned {
    pub(crate) fn new(span: Span) -> (r: Pinned)
        ensures
            r@ == span,
    {
        Pinned { span }
    }

    /// The place owned.
    pub fn span(&self) -> (s: Span)
        ensures
            s == self@,
    {
        self.span
    }

    /// The value of a single-slot place.
    pub fn get<'a, T>(&self, region: &'a Region<T>) -> (v: &'a T)
        requires
            self@.len == 1,
            filled(region.cells(), self@),
        ensures
            region.cells()[self@.start as int] == Some(*v),
    {
        region.get(self.span.start).unwrap()
    }

    /// Destroys the owned values where they stand, lowest slot first.
    pub fn drop<T>(self, region: &mut Region<T>)
        requires
            filled(old(region).cells(), self@),
        ensures
            final(region).cells() == cleared(old(region).cells(), self@),
            final(region).log() == old(region).log() + indices(self@),
    {
        region.destroy(self.span)
    }
}

} // verus!
