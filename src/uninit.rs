use vstd::prelude::*;

use crate::init::Init;
use crate::region::{filled, unchanged_outside, vacant, Region, Span};

verus! {

/// `proof` is what a well-behaved constructor hands back for `place`: the
/// place is filled, nothing else in the region changed, and nothing was
/// destroyed.
pub open spec fn builds<T>(before: Region<T>, place: Span, after: Region<T>, proof: Init) -> bool {
    &&& proof@ == place
    &&& filled(after.cells(), place)
    &&& unchanged_outside(before.cells(), after.cells(), place)
    &&& after.log() == before.log()
}

/// `f` may be run on `place` in `region`, and whatever it returns builds
/// that place.
pub open spec fn is_ctor<T, F: FnOnce(Region<T>, Uninit) -> (Region<T>, Init)>(
    f: F,
    region: Region<T>,
    place: Span,
) -> bool {
    forall|u: Uninit|
        u@ == place ==> {
            &&& #[trigger] f.requires((region, u))
            &&& forall|out: (Region<T>, Init)|
                #[trigger] f.ensures((region, u), out) ==> builds(region, place, out.0, out.1)
        }
}

/// A place that may be filled: the right to write into a span of a region.
/// It says nothing of what the slots currently hold; writing through it
/// asks that they be vacant.
pub struct Uninit {
    span: Span,
}

impl View for Uninit {
    type V = Span;

    closed spec fn view(&self) -> Span {
        self.span
    }
}

impl Uninit {
    /// Creates a handle for the place `data`.
    pub fn from_ptr(data: Span) -> (u: Uninit)
        ensures
            u@ == data,
    {
        Uninit { span: data }
    }

    /// The place this handle addresses.
    pub fn as_mut_ptr(&self) -> (s: Span)
        ensures
            s == self@,
    {
        self.span
    }

    /// The number of slots of the place.
    pub fn len(&self) -> (n: usize)
        ensures
            n == self@.len,
    {
        self.span.len
    }

    /// Writes `value` into the single slot of this place and returns the
    /// proof that it is filled.
    pub fn init<T>(self, region: &mut Region<T>, value: T) -> (r: Init)
        requires
            self@.len == 1,
            vacant(old(region).cells(), self@),
        ensures
            r@ == self@,
            final(region).cells() == old(region).cells().update(self@.start as int, Some(value)),
            final(region).log() == old(region).log(),
    {
        let _ = region.swap_slot(self.span.start, Some(value));
        assert(filled(region.cells(), self@));
        self.assume_init(region)
    }

    /// Hands this place, with the region, to the constructor `f` and returns
    /// the proof it produces.
    pub fn init_with<T, F>(self, region: &mut Region<T>, f: F) -> (r: Init)
        where
            F: FnOnce(Region<T>, Uninit) -> (Region<T>, Init),
        requires
            f.requires((*old(region), self)),
        ensures
            f.ensures((*old(region), self), (*final(region), r)),
    {
        let mut taken = Region::new();
        std::mem::swap(&mut taken, region);
        let (back, r) = f(taken, self);
        *region = back;
        r
    }

    /// Declares the place filled, consuming this handle.
    pub fn assume_init<T>(self, region: &Region<T>) -> (r: Init)
        requires
            filled(region.cells(), self@),
        ensures
            r@ == self@,
    {
        Init::from_raw(region, self.span)
    }
}

} // verus!
