use vstd::prelude::*;

use crate::region::{cleared, filled, indices, unchanged_outside, Region, Span};
use crate::storage::Storage;
use crate::init::Init;
use crate::uninit::{builds, is_ctor, Uninit};
use crate::pinned::Pinned;

verus! {

/// The owner of the values in a place, not of the place itself. Exactly one
/// of [`Own::drop`], [`Own::into_inner`] and [`Own::leak`] ends it: the
/// first destroys the values, the other two hand them on.
pub struct Own {
    span: Span,
}

impl View for Own {
    type V = Span;

    closed spec fn view(&self) -> Span {
        self.span
    }
}

/// Writing `v` into a vacant slot and then moving the value out of it gives
/// back `v`, and leaves the slot vacant again.
pub proof fn law_round_trip<T>(cells: Seq<Option<T>>, i: int, v: T, w: T)
    requires
        0 <= i < cells.len(),
        cells[i] is None,
        cells.update(i, Some(v))[i] == Some(w),
    ensures
        w == v,
        cells.update(i, Some(v)).update(i, None) == cells,
{
    assert(cells.update(i, Some(v)).update(i, None) =~= cells);
}

impl Own {
    /// Takes ownership of the values in a filled place.
    pub fn from_raw<T>(region: &Region<T>, data: Span) -> (r: Own)
        requires
            filled(region.cells(), data),
        ensures
            r@ == data,
    {
        Own { span: data }
    }

    /// Fixes the values where they stand: the pinned handle keeps the duty
    /// to destroy them and gives no way to move them.
    pub fn into_pin(this: Own) -> (r: Pinned)
        ensures
            r@ == this@,
    {
        Pinned::new(this.span)
    }

    /// Gives up ownership without destroying anything, returning the place.
    pub fn leak(this: Own) -> (s: Span)
        ensures
            s == this@,
    {
        this.span
    }

    /// The place owned.
    pub fn span(&self) -> (s: Span)
        ensures
            s == self@,
    {
        self.span
    }

    /// Builds the values of `storage`'s place with the constructor `f` and
    /// takes ownership of them.
    pub fn new_with<T, S, F>(region: &mut Region<T>, storage: &mut S, f: F) -> (r: Own)
        where
            S: Storage,
            F: FnOnce(Region<T>, Uninit) -> (Region<T>, Init),
        requires
            is_ctor(f, *old(region), old(storage).place()),
        ensures
            r@ == old(storage).place(),
            final(storage).place() == old(storage).place(),
            filled(final(region).cells(), r@),
            unchanged_outside(old(region).cells(), final(region).cells(), r@),
            final(region).log() == old(region).log(),
            exists|u: Uninit, p: Init|
                u@ == r@ && p@ == r@ && #[trigger] f.ensures((*old(region), u), (*final(region), p)),
    {
        let ptr = storage.as_mut_ptr();
        let uninit = Uninit::from_ptr(ptr);
        let ghost before = *region;
        let ghost u = uninit;
        let init = uninit.init_with(region, f);
        assert(builds(before, ptr, *region, init)) by {
            assert(u@ == ptr);
            assert(f.requires((before, u)));
            assert(f.ensures((before, u), (*region, init)));
        }
        // The proof is spent: the duty to destroy passes to the new owner.
        Own::from_raw(region, init.span())
    }

    /// Moves the value of a single-slot place out, leaving the slot vacant.
    pub fn into_inner<T>(this: Own, region: &mut Region<T>) -> (v: T)
        requires
            this@.len == 1,
            filled(old(region).cells(), this@),
        ensures
            old(region).cells()[this@.start as int] == Some(v),
            final(region).cells() == old(region).cells().update(this@.start as int, None),
            final(region).log() == old(region).log(),
    {
        region.swap_slot(this.span.start, None).unwrap()
    }

    /// Moves the values out of the place, in slot order, leaving the place
    /// vacant.
    pub fn into_values<T>(this: Own, region: &mut Region<T>) -> (vs: Vec<T>)
        requires
            filled(old(region).cells(), this@),
        ensures
            vs@.len() == this@.len,
            forall|j: int|
                0 <= j < this@.len ==> old(region).cells()[this@.start + j] == Some(
                    #[trigger] vs@[j],
                ),
            final(region).cells() == cleared(old(region).cells(), this@),
            final(region).log() == old(region).log(),
    {
        proof {
            region.lemma_len_bound();
        }
        let s = this.span;
        let mut vs: Vec<T> = Vec::new();
        let mut k: usize = 0;
        while k < s.len
            invariant
                s == this@,
                k <= s.len,
                filled(old(region).cells(), s),
                old(region).cells().len() <= usize::MAX,
                vs@.len() == k,
                forall|j: int|
                    0 <= j < k ==> old(region).cells()[s.start + j] == Some(#[trigger] vs@[j]),
                region.cells() == cleared(old(region).cells(), Span { start: s.start, len: k }),
                region.log() == old(region).log(),
            decreases s.len - k,
        {
            assert(old(region).cells()[s.start + k] is Some);
            let v = region.swap_slot(s.start + k, None).unwrap();
            vs.push(v);
            k = k + 1;
            assert(region.cells() =~= cleared(
                old(region).cells(),
                Span { start: s.start, len: k },
            ));
        }
        vs
    }

    /// The value of a single-slot place.
    pub fn get<'a, T>(&self, region: &'a Region<T>) -> (v: &'a T)
        requires
            self@.len == 1,
            filled(region.cells(), self@),
        ensures
            region.cells()[self@.start as int] == Some(*v),
    {
        region.get(self.span.start).unwrap()
    }

    /// Replaces the value of a single-slot place, returning the old one.
    pub fn replace<T>(&self, region: &mut Region<T>, value: T) -> (v: T)
        requires
            self@.len == 1,
            filled(old(region).cells(), self@),
        ensures
            old(region).cells()[self@.start as int] == Some(v),
            final(region).cells() == old(region).cells().update(self@.start as int, Some(value)),
            final(region).log() == old(region).log(),
    {
        region.swap_slot(self.span.start, Some(value)).unwrap()
    }

    /// Destroys the owned values, lowest slot first.
    pub fn drop<T>(self, region: &mut Region<T>)
        requires
            filled(old(region).cells(), self@),
        ensures
            final(region).cells() == cleared(old(region).cells(), self@),
            final(region).log() == old(region).log() + indices(self@),
    {
        region.destroy(self.span)
    }
}

} // verus!
