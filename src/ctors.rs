use vstd::prelude::*;

use crate::init::Init;
use crate::own::Own;
use crate::project::{covers, field, splits, Lt, ProjConstruct, WithInitProj, WithUninitProj};
use crate::region::{cleared, filled, indices, moved, unchanged_outside, vacant, Region, Span};
use crate::uninit::{builds, Uninit};

verus! {

/// Moves the values owned by `value` into the place of `uninit`, slot by
/// slot in order. The source slots are left vacant and their owner spent,
/// so the values are destroyed only where they now stand.
pub fn move_from<T>(region: &mut Region<T>, value: Own, uninit: Uninit) -> (r: Init)
    requires
        value@.len == uninit@.len,
        filled(old(region).cells(), value@),
        vacant(old(region).cells(), uninit@),
    ensures
        r@ == uninit@,
        final(region).cells() == moved(old(region).cells(), value@, uninit@),
        final(region).log() == old(region).log(),
{
    proof {
        region.lemma_len_bound();
    }
    let src = Own::leak(value);
    let dst = uninit.as_mut_ptr();
    let mut k: usize = 0;
    while k < src.len
        invariant
            src == value@,
            dst == uninit@,
            k <= src.len,
            src.len == dst.len,
            filled(old(region).cells(), src),
            vacant(old(region).cells(), dst),
            old(region).cells().len() <= usize::MAX,
            region.cells() == moved(
                old(region).cells(),
                Span { start: src.start, len: k },
                Span { start: dst.start, len: k },
            ),
            region.log() == old(region).log(),
        decreases src.len - k,
    {
        let ghost c = old(region).cells();
        assert(c[src.start + k] is Some);
        assert(c[dst.start + k] is None);
        let v = region.swap_slot(src.start + k, None);
        let _ = region.swap_slot(dst.start + k, v);
        k = k + 1;
        assert forall|i: int| 0 <= i < c.len() implies region.cells()[i] == moved(
            c,
            Span { start: src.start, len: k },
            Span { start: dst.start, len: k },
        )[i] by {
            if src.contains(i) {
                assert(c[i] is Some);
            }
            if dst.contains(i) {
                assert(c[i] is None);
            }
        }
        assert(region.cells() =~= moved(
            c,
            Span { start: src.start, len: k },
            Span { start: dst.start, len: k },
        ));
    }
    assert(filled(region.cells(), dst)) by {
        assert forall|i: int| dst.contains(i) implies (#[trigger] region.cells()[i]) is Some by {
            assert(old(region).cells()[src.start + (i - dst.start)] is Some);
        }
    }
    uninit.assume_init(region)
}

/// The slots of `s` before `k` hold what `f` built for their index.
pub open spec fn built_prefix<T, F: Fn(usize) -> Option<T>>(
    cells: Seq<Option<T>>,
    s: Span,
    f: F,
    k: int,
) -> bool {
    forall|j: int|
        0 <= j < k ==> {
            &&& (#[trigger] cells[s.start + j]) is Some
            &&& f.ensures((j as usize,), cells[s.start + j])
        }
}

/// `f` can give a value for index `j`.
pub open spec fn gave_value<T, F: Fn(usize) -> Option<T>>(f: F, j: int) -> bool {
    exists|v: T| f.ensures((j as usize,), Some(v))
}

proof fn lemma_prefix_gave_values<T, F: Fn(usize) -> Option<T>>(
    cells: Seq<Option<T>>,
    s: Span,
    f: F,
    k: int,
)
    requires
        built_prefix(cells, s, f, k),
    ensures
        forall|j: int| 0 <= j < k ==> #[trigger] gave_value(f, j),
{
    assert forall|j: int| 0 <= j < k implies #[trigger] gave_value(f, j) by {
        assert(cells[s.start + j] is Some);
        assert(f.ensures((j as usize,), Some(cells[s.start + j]->Some_0)));
    }
}

proof fn lemma_prefix_filled<T, F: Fn(usize) -> Option<T>>(
    cells: Seq<Option<T>>,
    s: Span,
    f: F,
    k: int,
)
    requires
        built_prefix(cells, s, f, k),
        0 <= k <= s.len,
        s.end() <= cells.len(),
    ensures
        filled(cells, Span { start: s.start, len: k as usize }),
{
    assert forall|i: int| (Span { start: s.start, len: k as usize }).contains(i) implies (
    #[trigger] cells[i]) is Some by {
        assert(cells[s.start + (i - s.start)] is Some);
    }
}

/// Clearing the built prefix of a place that was vacant before the build
/// started gives back the slots as they were.
proof fn lemma_rollback_restores<T>(before: Seq<Option<T>>, cur: Seq<Option<T>>, s: Span, k: int)
    requires
        vacant(before, s),
        unchanged_outside(before, cur, s),
        0 <= k <= s.len,
        forall|j: int| k <= j < s.len ==> (#[trigger] cur[s.start + j]) is None,
    ensures
        cleared(cur, Span { start: s.start, len: k as usize }) == before,
{
    let done = Span { start: s.start, len: k as usize };
    assert forall|i: int| 0 <= i < cur.len() implies cleared(cur, done)[i] == before[i] by {
        if s.contains(i) {
            assert(before[i] is None);
            if i >= s.start + k {
                assert(cur[s.start + (i - s.start)] is None);
            }
        } else {
            assert(cur[i] == before[i]);
        }
    }
    assert(cleared(cur, done) =~= before);
}

/// Marks the elements of a sequence built so far. Unwinding it destroys
/// exactly those, in order; disarming it leaves them to the caller.
struct Rollback {
    start: usize,
    current: usize,
}

impl Rollback {
    spec fn done(&self) -> Span {
        Span { start: self.start, len: self.current }
    }

    fn unwind<T>(self, region: &mut Region<T>)
        requires
            filled(old(region).cells(), self.done()),
        ensures
            final(region).cells() == cleared(old(region).cells(), self.done()),
            final(region).log() == old(region).log() + indices(self.done()),
    {
        Init::from_raw(region, Span { start: self.start, len: self.current }).drop(region)
    }

    fn disarm(self) -> (s: Span)
        ensures
            s == self.done(),
    {
        Span { start: self.start, len: self.current }
    }
}

/// Builds the sequence in the place of `uninit`, element `0` first, with
/// the value `f(i)` for index `i`. Where `f(k)` gives nothing, the elements
/// `0..k` already built are destroyed in order, the slots from `k` on are
/// never touched, and `Err(k)` is returned.
pub fn slice_each<T, F>(region: &mut Region<T>, uninit: Uninit, f: F) -> (r: Result<Init, usize>)
    where
        F: Fn(usize) -> Option<T>,
    requires
        vacant(old(region).cells(), uninit@),
        forall|i: usize| i < uninit@.len ==> f.requires((i,)),
    ensures
        match r {
            Ok(init) => {
                &&& init@ == uninit@
                &&& filled(final(region).cells(), uninit@)
                &&& built_prefix(final(region).cells(), uninit@, f, uninit@.len as int)
                &&& unchanged_outside(old(region).cells(), final(region).cells(), uninit@)
                &&& final(region).log() == old(region).log()
            },
            Err(k) => {
                &&& k < uninit@.len
                &&& f.ensures((k,), None)
                &&& forall|j: int| 0 <= j < k ==> #[trigger] gave_value(f, j)
                &&& final(region).cells() == old(region).cells()
                &&& final(region).log() == old(region).log() + indices(
                    Span { start: uninit@.start, len: k },
                )
            },
        },
{
    let s = uninit.as_mut_ptr();
    let len = uninit.len();
    let mut guard = Rollback { start: s.start, current: 0 };
    while guard.current != len
        invariant
            s == uninit@,
            len == s.len,
            guard.start == s.start,
            guard.current <= len,
            s.end() <= region.cells().len(),
            vacant(old(region).cells(), s),
            unchanged_outside(old(region).cells(), region.cells(), s),
            built_prefix(region.cells(), s, f, guard.current as int),
            forall|j: int| guard.current <= j < len ==> (#[trigger] region.cells()[s.start + j]) is None,
            forall|i: usize| i < len ==> f.requires((i,)),
            region.log() == old(region).log(),
        decreases len - guard.current,
    {
        let k = guard.current;
        match f(k) {
            Some(v) => {
                proof {
                    region.lemma_len_bound();
                }
                let slot = Uninit::from_ptr(Span { start: s.start + k, len: 1 });
                let _ = slot.init(region, v);
                guard.current = k + 1;
            },
            None => {
                proof {
                    lemma_prefix_filled(region.cells(), s, f, k as int);
                    lemma_rollback_restores(old(region).cells(), region.cells(), s, k as int);
                    lemma_prefix_gave_values(region.cells(), s, f, k as int);
                }
                guard.unwind(region);
                return Err(k);
            },
        }
    }
    let whole = guard.disarm();
    proof {
        lemma_prefix_filled(region.cells(), s, f, len as int);
    }
    assert(whole == s);
    Ok(uninit.assume_init(region))
}

/// `f` may be run on every split of the place `parent` of an `S`, and
/// whatever it returns holds one proof per field, changes nothing outside
/// `parent` and destroys nothing.
pub open spec fn is_field_ctor<S: ProjConstruct, T, F>(f: F, region: Region<T>, parent: Span) -> bool
    where
        F: FnOnce(Lt, Region<T>, <S as WithUninitProj>::UninitProj) -> (Region<T>, <S as WithInitProj>::InitProj),
{
    forall|lt: Lt, proj: <S as WithUninitProj>::UninitProj|
        lt@ == parent && splits(parent, S::uninit_places(proj)) ==> {
            &&& #[trigger] f.requires((lt, region, proj))
            &&& forall|out: (Region<T>, <S as WithInitProj>::InitProj)|
                #[trigger] f.ensures((lt, region, proj), out) ==> {
                    &&& covers(out.0.cells(), parent, S::init_places(out.1))
                    &&& unchanged_outside(region.cells(), out.0.cells(), parent)
                    &&& out.0.log() == region.log()
                }
        }
}

/// Builds the place of `uninit`, an `S`, field by field: `f` receives the
/// scope of the split, the region and one handle per field, and returns the
/// region with one proof per field, from which the proof of the whole is
/// put together.
pub fn proj_fn<S, T, F>(region: &mut Region<T>, uninit: Uninit, f: F) -> (r: Init)
    where
        S: ProjConstruct,
        F: FnOnce(Lt, Region<T>, <S as WithUninitProj>::UninitProj) -> (Region<T>, <S as WithInitProj>::InitProj),
    requires
        uninit@.len == S::fields(),
        uninit@.end() <= old(region).cells().len(),
        is_field_ctor::<S, T, F>(f, *old(region), uninit@),
    ensures
        builds(*old(region), uninit@, *final(region), r),
        exists|
            lt: Lt,
            proj: <S as WithUninitProj>::UninitProj,
            proofs: <S as WithInitProj>::InitProj,
        |
            lt@ == uninit@ && #[trigger] f.ensures((lt, *old(region), proj), (*final(region), proofs)),
{
    proof {
        region.lemma_len_bound();
    }
    let ghost parent = uninit@;
    let (lt, proj) = S::project(uninit);
    let mut taken = Region::new();
    std::mem::swap(&mut taken, region);
    let ghost before = taken;
    assert(f.requires((lt, before, proj)));
    let (back, proofs) = f(lt, taken, proj);
    assert(f.ensures((lt, before, proj), (back, proofs)));
    *region = back;
    let r = S::compose(region, lt, proofs);
    proof {
        crate::project::law_projection_complete(region.cells(), parent, S::init_places(proofs));
    }
    r
}

/// Destroys, first to last, the elements whose proofs are in `proofs`: the
/// first `proofs.len()` elements of `s`.
fn drop_built<T>(region: &mut Region<T>, proofs: Vec<Init>, Ghost(s): Ghost<Span>)
    requires
        proofs@.len() <= s.len,
        forall|k: int| 0 <= k < proofs@.len() ==> (#[trigger] proofs@[k])@ == field(s, k),
        filled(old(region).cells(), Span { start: s.start, len: proofs@.len() as usize }),
    ensures
        final(region).cells() == cleared(
            old(region).cells(),
            Span { start: s.start, len: proofs@.len() as usize },
        ),
        final(region).log() == old(region).log() + indices(
            Span { start: s.start, len: proofs@.len() as usize },
        ),
{
    proof {
        region.lemma_len_bound();
    }
    let mut rest = proofs;
    let ghost total = proofs@.len();
    let mut j: usize = 0;
    while rest.len() > 0
        invariant
            total == proofs@.len(),
            j + rest@.len() == total,
            total <= s.len,
            s.start + total <= old(region).cells().len() <= usize::MAX,
            forall|k: int| 0 <= k < rest@.len() ==> (#[trigger] rest@[k])@ == field(s, j + k),
            filled(old(region).cells(), Span { start: s.start, len: total as usize }),
            region.cells() == cleared(old(region).cells(), Span { start: s.start, len: j }),
            region.log() == old(region).log() + indices(Span { start: s.start, len: j }),
        decreases rest@.len(),
    {
        let ghost prev = rest@;
        let p = rest.remove(0);
        assert(p@ == field(s, j as int));
        assert(old(region).cells()[s.start + j] is Some);
        assert(filled(region.cells(), p@));
        p.drop(region);
        j = j + 1;
        assert(region.cells() =~= cleared(old(region).cells(), Span { start: s.start, len: j }));
        assert(region.log() =~= old(region).log() + indices(Span { start: s.start, len: j }));
        assert forall|k: int| 0 <= k < rest@.len() implies (#[trigger] rest@[k])@ == field(
            s,
            j + k,
        ) by {
            assert(rest@[k] == prev[k + 1]);
        }
    }
}

/// Builds the array in the place of `uninit` through its projection, one
/// element per field, element `0` first, with the value `f(i)` for index
/// `i`. Where `f(k)` gives nothing, the proofs of the elements `0..k` are
/// dropped in order, which destroys exactly those, the slots from `k` on
/// are never touched, and `Err(k)` is returned.
pub fn array_each<T, F, const N: usize>(region: &mut Region<T>, uninit: Uninit, f: F) -> (r: Result<
    Init,
    usize,
>)
    where
        F: Fn(usize) -> Option<T>,
    requires
        uninit@.len == N,
        vacant(old(region).cells(), uninit@),
        forall|i: usize| i < N ==> f.requires((i,)),
    ensures
        match r {
            Ok(init) => {
                &&& init@ == uninit@
                &&& filled(final(region).cells(), uninit@)
                &&& built_prefix(final(region).cells(), uninit@, f, N as int)
                &&& unchanged_outside(old(region).cells(), final(region).cells(), uninit@)
                &&& final(region).log() == old(region).log()
            },
            Err(k) => {
                &&& k < N
                &&& f.ensures((k,), None)
                &&& forall|j: int| 0 <= j < k ==> #[trigger] gave_value(f, j)
                &&& final(region).cells() == old(region).cells()
                &&& final(region).log() == old(region).log() + indices(
                    Span { start: uninit@.start, len: k },
                )
            },
        },
{
    proof {
        region.lemma_len_bound();
    }
    let ghost s = uninit@;
    let (lt, mut places) = <[T; N] as ProjConstruct>::project(uninit);
    let mut proofs: Vec<Init> = Vec::new();
    let mut i: usize = 0;
    assert forall|k: int| 0 <= k < places@.len() implies (#[trigger] places@[k])@ == field(s, k) by {
        assert(<[T; N] as WithUninitProj>::uninit_places(places)[k] == places@[k]@);
    }
    while i < N
        invariant
            i <= N,
            s == uninit@,
            s.len == N,
            lt@ == s,
            s.end() <= region.cells().len() <= usize::MAX,
            places@.len() == N - i,
            forall|k: int| 0 <= k < places@.len() ==> (#[trigger] places@[k])@ == field(s, i + k),
            proofs@.len() == i,
            forall|k: int| 0 <= k < i ==> (#[trigger] proofs@[k])@ == field(s, k),
            vacant(old(region).cells(), s),
            unchanged_outside(old(region).cells(), region.cells(), s),
            built_prefix(region.cells(), s, f, i as int),
            forall|j: int| i <= j < N ==> (#[trigger] region.cells()[s.start + j]) is None,
            forall|j: usize| j < N ==> f.requires((j,)),
            region.log() == old(region).log(),
        decreases N - i,
    {
        let ghost prev = places@;
        let place = places.remove(0);
        assert(place@ == field(s, i as int));
        assert forall|k: int| 0 <= k < places@.len() implies (#[trigger] places@[k])@ == field(
            s,
            i + 1 + k,
        ) by {
            assert(places@[k] == prev[k + 1]);
        }
        let built = f(i);
        match built {
            Some(v) => {
                assert(region.cells()[s.start + i] is None);
                let p = place.init(region, v);
                proofs.push(p);
                i = i + 1;
            },
            None => {
                proof {
                    lemma_prefix_filled(region.cells(), s, f, i as int);
                    lemma_prefix_gave_values(region.cells(), s, f, i as int);
                    lemma_rollback_restores(old(region).cells(), region.cells(), s, i as int);
                }
                drop_built(region, proofs, Ghost(s));
                return Err(i);
            },
        }
    }
    proof {
        lemma_prefix_filled(region.cells(), s, f, N as int);
        let places = <[T; N] as WithInitProj>::init_places(proofs);
        assert forall|k: int| 0 <= k < places.len() implies filled(
            region.cells(),
            #[trigger] places[k],
        ) by {
            assert(places[k] == field(s, k));
            assert(region.cells()[s.start + k] is Some);
        }
    }
    Ok(<[T; N] as ProjConstruct>::compose(region, lt, proofs))
}

} // verus!
