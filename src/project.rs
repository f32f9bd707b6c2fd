//! Building an aggregate field by field.
//!
//! An aggregate of `n` fields occupies `n` consecutive slots, field `i` in
//! slot `start + i`; the shapes are tuples of up to eight fields and arrays,
//! whose type parameters name the shape while the field values are of the
//! region's element type. Its place is split into one [`Uninit`] per field, and
//! the whole is declared filled only from one [`Init`] per field, each at
//! its own field's place and each backed by a value in the region.
use vstd::prelude::*;

use crate::init::Init;
use crate::region::{filled, Region, Span};
use crate::uninit::Uninit;

verus! {

/// The scope of one split: it names the aggregate's place, and only the
/// composition of that place accepts the field proofs back.
#[derive(Clone, Copy)]
pub struct Lt {
    parent: Span,
}

impl View for Lt {
    type V = Span;

    closed spec fn view(&self) -> Span {
        self.parent
    }
}

/// The place of field `i` of the aggregate at `parent`.
pub open spec fn field(parent: Span, i: int) -> Span {
    Span { start: (parent.start + i) as usize, len: 1 }
}

/// `places` are the places of the fields of `parent`, one each, in order.
pub open spec fn splits(parent: Span, places: Seq<Span>) -> bool {
    &&& parent.end() <= usize::MAX
    &&& places.len() == parent.len
    &&& forall|i: int| 0 <= i < places.len() ==> #[trigger] places[i] == field(parent, i)
}

/// `places` are the places of the fields of `parent`, which lies in
/// `cells`, one each, in order, and each of them holds a value in `cells`.
pub open spec fn covers<T>(cells: Seq<Option<T>>, parent: Span, places: Seq<Span>) -> bool {
    &&& splits(parent, places)
    &&& parent.end() <= cells.len()
    &&& forall|i: int| 0 <= i < places.len() ==> filled(cells, #[trigger] places[i])
}

/// Shapes whose place can be split into one place per field.
pub trait WithUninitProj {
    /// One handle per field.
    type UninitProj;

    /// The number of fields.
    spec fn fields() -> nat;

    /// The places of the handles, in field order.
    spec fn uninit_places(proj: Self::UninitProj) -> Seq<Span>;
}

/// Shapes whose field proofs can be put together into one proof.
pub trait WithInitProj: WithUninitProj {
    /// One proof per field.
    type InitProj;

    /// The places of the proofs, in field order.
    spec fn init_places(proj: Self::InitProj) -> Seq<Span>;
}

/// Shapes that can be built field by field.
pub trait ProjConstruct: WithInitProj + Sized {
    /// Splits the place of `uninit` into its fields.
    fn project(uninit: Uninit) -> (r: (Lt, Self::UninitProj))
        requires
            uninit@.len == Self::fields(),
            uninit@.end() <= usize::MAX,
        ensures
            r.0@ == uninit@,
            splits(uninit@, Self::uninit_places(r.1)),
    ;

    /// Puts one proof per field back together into the proof of the whole.
    fn compose<T>(region: &Region<T>, lt: Lt, proj: Self::InitProj) -> (r: Init)
        requires
            covers(region.cells(), lt@, Self::init_places(proj)),
        ensures
            r@ == lt@,
    ;
}

/// A place all of whose fields hold values holds values throughout.
pub proof fn law_projection_complete<T>(cells: Seq<Option<T>>, parent: Span, places: Seq<Span>)
    requires
        covers(cells, parent, places),
    ensures
        filled(cells, parent),
{
    assert forall|j: int| parent.contains(j) implies (#[trigger] cells[j]) is Some by {
        let i = j - parent.start;
        assert(filled(cells, places[i]));
        assert(places[i].contains(j));
    }
}

/// Where one field of a place holds no value, no set of field proofs covers
/// the place: the whole cannot be put together with a field left out.
pub proof fn law_missing_field_uncovered<T>(
    cells: Seq<Option<T>>,
    parent: Span,
    places: Seq<Span>,
    i: int,
)
    requires
        0 <= i < parent.len,
        parent.end() <= cells.len(),
        cells[parent.start + i] is None,
    ensures
        !covers(cells, parent, places),
{
    if covers(cells, parent, places) {
        assert(places[i] == field(parent, i));
        assert(filled(cells, places[i]));
        assert(places[i].contains(parent.start + i));
    }
}

impl<A> WithUninitProj for (A,) {
    type UninitProj = (Uninit,);

    open spec fn fields() -> nat {
        1
    }

    open spec fn uninit_places(proj: (Uninit,)) -> Seq<Span> {
        seq![proj.0@]
    }
}

impl<A> WithInitProj for (A,) {
    type InitProj = (Init,);

    open spec fn init_places(proj: (Init,)) -> Seq<Span> {
        seq![proj.0@]
    }
}

impl<A> ProjConstruct for (A,) {
    fn project(uninit: Uninit) -> (r: (Lt, (Uninit,))) {
        let s = uninit.as_mut_ptr();
        let first = Uninit::from_ptr(s.nth(0));
        let r = (Lt { parent: s }, (first,));
        assert(Self::uninit_places(r.1) =~= seq![field(s, 0)]);
        r
    }

    fn compose<T>(region: &Region<T>, lt: Lt, proj: (Init,)) -> (r: Init) {
        proof {
            law_projection_complete(region.cells(), lt.parent, Self::init_places(proj));
        }
        Init::from_raw(region, lt.parent)
    }
}

impl<A, B> WithUninitProj for (A, B) {
    type UninitProj = (Uninit, Uninit);

    open spec fn fields() -> nat {
        2
    }

    open spec fn uninit_places(proj: (Uninit, Uninit)) -> Seq<Span> {
        seq![proj.0@, proj.1@]
    }
}

impl<A, B> WithInitProj for (A, B) {
    type InitProj = (Init, Init);

    open spec fn init_places(proj: (Init, Init)) -> Seq<Span> {
        seq![proj.0@, proj.1@]
    }
}

impl<A, B> ProjConstruct for (A, B) {
    fn project(uninit: Uninit) -> (r: (Lt, (Uninit, Uninit))) {
        let s = uninit.as_mut_ptr();
        let first = Uninit::from_ptr(s.nth(0));
        let second = Uninit::from_ptr(s.nth(1));
        let r = (Lt { parent: s }, (first, second));
        assert(Self::uninit_places(r.1) =~= seq![field(s, 0), field(s, 1)]);
        r
    }

    fn compose<T>(region: &Region<T>, lt: Lt, proj: (Init, Init)) -> (r: Init) {
        proof {
            law_projection_complete(region.cells(), lt.parent, Self::init_places(proj));
        }
        Init::from_raw(region, lt.parent)
    }
}

impl<A, B, C> WithUninitProj for (A, B, C) {
    type UninitProj = (Uninit, Uninit, Uninit);

    open spec fn fields() -> nat {
        3
    }

    open spec fn uninit_places(proj: (Uninit, Uninit, Uninit)) -> Seq<Span> {
        seq![proj.0@, proj.1@, proj.2@]
    }
}

impl<A, B, C> WithInitProj for (A, B, C) {
    type InitProj = (Init, Init, Init);

    open spec fn init_places(proj: (Init, Init, Init)) -> Seq<Span> {
        seq![proj.0@, proj.1@, proj.2@]
    }
}

impl<A, B, C> ProjConstruct for (A, B, C) {
    fn project(uninit: Uninit) -> (r: (Lt, (Uninit, Uninit, Uninit))) {
        let s = uninit.as_mut_ptr();
        let first = Uninit::from_ptr(s.nth(0));
        let second = Uninit::from_ptr(s.nth(1));
        let third = Uninit::from_ptr(s.nth(2));
        let r = (Lt { parent: s }, (first, second, third));
        assert(Self::uninit_places(r.1) =~= seq![field(s, 0), field(s, 1), field(s, 2)]);
        r
    }

    fn compose<T>(region: &Region<T>, lt: Lt, proj: (Init, Init, Init)) -> (r: Init) {
        proof {
            law_projection_complete(region.cells(), lt.parent, Self::init_places(proj));
        }
        Init::from_raw(region, lt.parent)
    }
}

impl<A, B, C, D> WithUninitProj for (A, B, C, D) {
    type UninitProj = (Uninit, Uninit, Uninit, Uninit);

    open spec fn fields() -> nat {
        4
    }

    open spec fn uninit_places(proj: (Uninit, Uninit, Uninit, Uninit)) -> Seq<Span> {
        seq![proj.0@, proj.1@, proj.2@, proj.3@]
    }
}

impl<A, B, C, D> WithInitProj for (A, B, C, D) {
    type InitProj = (Init, Init, Init, Init);

    open spec fn init_places(proj: (Init, Init, Init, Init)) -> Seq<Span> {
        seq![proj.0@, proj.1@, proj.2@, proj.3@]
    }
}

impl<A, B, C, D> ProjConstruct for (A, B, C, D) {
    fn project(uninit: Uninit) -> (r: (Lt, (Uninit, Uninit, Uninit, Uninit))) {
        let s = uninit.as_mut_ptr();
        let first = Uninit::from_ptr(s.nth(0));
        let second = Uninit::from_ptr(s.nth(1));
        let third = Uninit::from_ptr(s.nth(2));
        let fourth = Uninit::from_ptr(s.nth(3));
        let r = (Lt { parent: s }, (first, second, third, fourth));
        assert(Self::uninit_places(r.1) =~= seq![field(s, 0), field(s, 1), field(s, 2), field(s, 3)]);
        r
    }

    fn compose<T>(region: &Region<T>, lt: Lt, proj: (Init, Init, Init, Init)) -> (r: Init) {
        proof {
            law_projection_complete(region.cells(), lt.parent, Self::init_places(proj));
        }
        Init::from_raw(region, lt.parent)
    }
}

impl<A, B, C, D, E> WithUninitProj for (A, B, C, D, E) {
    type UninitProj = (Uninit, Uninit, Uninit, Uninit, Uninit);

    open spec fn fields() -> nat {
        5
    }

    open spec fn uninit_places(proj: (Uninit, Uninit, Uninit, Uninit, Uninit)) -> Seq<Span> {
        seq![proj.0@, proj.1@, proj.2@, proj.3@, proj.4@]
    }
}

impl<A, B, C, D, E> WithInitProj for (A, B, C, D, E) {
    type InitProj = (Init, Init, Init, Init, Init);

    open spec fn init_places(proj: (Init, Init, Init, Init, Init)) -> Seq<Span> {
        seq![proj.0@, proj.1@, proj.2@, proj.3@, proj.4@]
    }
}

impl<A, B, C, D, E> ProjConstruct for (A, B, C, D, E) {
    fn project(uninit: Uninit) -> (r: (Lt, (Uninit, Uninit, Uninit, Uninit, Uninit))) {
        let s = uninit.as_mut_ptr();
        let first = Uninit::from_ptr(s.nth(0));
        let second = Uninit::from_ptr(s.nth(1));
        let third = Uninit::from_ptr(s.nth(2));
        let fourth = Uninit::from_ptr(s.nth(3));
        let fifth = Uninit::from_ptr(s.nth(4));
        let r = (Lt { parent: s }, (first, second, third, fourth, fifth));
        assert(Self::uninit_places(r.1) =~= seq![field(s, 0), field(s, 1), field(s, 2), field(s, 3), field(s, 4)]);
        r
    }

    fn compose<T>(region: &Region<T>, lt: Lt, proj: (Init, Init, Init, Init, Init)) -> (r: Init) {
        proof {
            law_projection_complete(region.cells(), lt.parent, Self::init_places(proj));
        }
        Init::from_raw(region, lt.parent)
    }
}

impl<A, B, C, D, E, F> WithUninitProj for (A, B, C, D, E, F) {
    type UninitProj = (Uninit, Uninit, Uninit, Uninit, Uninit, Uninit);

    open spec fn fields() -> nat {
        6
    }

    open spec fn uninit_places(proj: (Uninit, Uninit, Uninit, Uninit, Uninit, Uninit)) -> Seq<Span> {
        seq![proj.0@, proj.1@, proj.2@, proj.3@, proj.4@, proj.5@]
    }
}

impl<A, B, C, D, E, F> WithInitProj for (A, B, C, D, E, F) {
    type InitProj = (Init, Init, Init, Init, Init, Init);

    open spec fn init_places(proj: (Init, Init, Init, Init, Init, Init)) -> Seq<Span> {
        seq![proj.0@, proj.1@, proj.2@, proj.3@, proj.4@, proj.5@]
    }
}

impl<A, B, C, D, E, F> ProjConstruct for (A, B, C, D, E, F) {
    fn project(uninit: Uninit) -> (r: (Lt, (Uninit, Uninit, Uninit, Uninit, Uninit, Uninit))) {
        let s = uninit.as_mut_ptr();
        let first = Uninit::from_ptr(s.nth(0));
        let second = Uninit::from_ptr(s.nth(1));
        let third = Uninit::from_ptr(s.nth(2));
        let fourth = Uninit::from_ptr(s.nth(3));
        let fifth = Uninit::from_ptr(s.nth(4));
        let sixth = Uninit::from_ptr(s.nth(5));
        let r = (Lt { parent: s }, (first, second, third, fourth, fifth, sixth));
        assert(Self::uninit_places(r.1) =~= seq![field(s, 0), field(s, 1), field(s, 2), field(s, 3), field(s, 4), field(s, 5)]);
        r
    }

    fn compose<T>(region: &Region<T>, lt: Lt, proj: (Init, Init, Init, Init, Init, Init)) -> (r: Init) {
        proof {
            law_projection_complete(region.cells(), lt.parent, Self::init_places(proj));
        }
        Init::from_raw(region, lt.parent)
    }
}

impl<A, B, C, D, E, F, G> WithUninitProj for (A, B, C, D, E, F, G) {
    type UninitProj = (Uninit, Uninit, Uninit, Uninit, Uninit, Uninit, Uninit);

    open spec fn fields() -> nat {
        7
    }

    open spec fn uninit_places(proj: (Uninit, Uninit, Uninit, Uninit, Uninit, Uninit, Uninit)) -> Seq<Span> {
        seq![proj.0@, proj.1@, proj.2@, proj.3@, proj.4@, proj.5@, proj.6@]
    }
}

impl<A, B, C, D, E, F, G> WithInitProj for (A, B, C, D, E, F, G) {
    type InitProj = (Init, Init, Init, Init, Init, Init, Init);

    open spec fn init_places(proj: (Init, Init, Init, Init, Init, Init, Init)) -> Seq<Span> {
        seq![proj.0@, proj.1@, proj.2@, proj.3@, proj.4@, proj.5@, proj.6@]
    }
}

impl<A, B, C, D, E, F, G> ProjConstruct for (A, B, C, D, E, F, G) {
    fn project(uninit: Uninit) -> (r: (Lt, (Uninit, Uninit, Uninit, Uninit, Uninit, Uninit, Uninit))) {
        let s = uninit.as_mut_ptr();
        let first = Uninit::from_ptr(s.nth(0));
        let second = Uninit::from_ptr(s.nth(1));
        let third = Uninit::from_ptr(s.nth(2));
        let fourth = Uninit::from_ptr(s.nth(3));
        let fifth = Uninit::from_ptr(s.nth(4));
        let sixth = Uninit::from_ptr(s.nth(5));
        let seventh = Uninit::from_ptr(s.nth(6));
        let r = (Lt { parent: s }, (first, second, third, fourth, fifth, sixth, seventh));
        assert(Self::uninit_places(r.1) =~= seq![field(s, 0), field(s, 1), field(s, 2), field(s, 3), field(s, 4), field(s, 5), field(s, 6)]);
        r
    }

    fn compose<T>(region: &Region<T>, lt: Lt, proj: (Init, Init, Init, Init, Init, Init, Init)) -> (r: Init) {
        proof {
            law_projection_complete(region.cells(), lt.parent, Self::init_places(proj));
        }
        Init::from_raw(region, lt.parent)
    }
}

impl<A, B, C, D, E, F, G, H> WithUninitProj for (A, B, C, D, E, F, G, H) {
    type UninitProj = (Uninit, Uninit, Uninit, Uninit, Uninit, Uninit, Uninit, Uninit);

    open spec fn fields() -> nat {
        8
    }

    open spec fn uninit_places(proj: (Uninit, Uninit, Uninit, Uninit, Uninit, Uninit, Uninit, Uninit)) -> Seq<Span> {
        seq![proj.0@, proj.1@, proj.2@, proj.3@, proj.4@, proj.5@, proj.6@, proj.7@]
    }
}

impl<A, B, C, D, E, F, G, H> WithInitProj for (A, B, C, D, E, F, G, H) {
    type InitProj = (Init, Init, Init, Init, Init, Init, Init, Init);

    open spec fn init_places(proj: (Init, Init, Init, Init, Init, Init, Init, Init)) -> Seq<Span> {
        seq![proj.0@, proj.1@, proj.2@, proj.3@, proj.4@, proj.5@, proj.6@, proj.7@]
    }
}

impl<A, B, C, D, E, F, G, H> ProjConstruct for (A, B, C, D, E, F, G, H) {
    fn project(uninit: Uninit) -> (r: (Lt, (Uninit, Uninit, Uninit, Uninit, Uninit, Uninit, Uninit, Uninit))) {
        let s = uninit.as_mut_ptr();
        let first = Uninit::from_ptr(s.nth(0));
        let second = Uninit::from_ptr(s.nth(1));
        let third = Uninit::from_ptr(s.nth(2));
        let fourth = Uninit::from_ptr(s.nth(3));
        let fifth = Uninit::from_ptr(s.nth(4));
        let sixth = Uninit::from_ptr(s.nth(5));
        let seventh = Uninit::from_ptr(s.nth(6));
        let eighth = Uninit::from_ptr(s.nth(7));
        let r = (Lt { parent: s }, (first, second, third, fourth, fifth, sixth, seventh, eighth));
        assert(Self::uninit_places(r.1) =~= seq![field(s, 0), field(s, 1), field(s, 2), field(s, 3), field(s, 4), field(s, 5), field(s, 6), field(s, 7)]);
        r
    }

    fn compose<T>(region: &Region<T>, lt: Lt, proj: (Init, Init, Init, Init, Init, Init, Init, Init)) -> (r: Init) {
        proof {
            law_projection_complete(region.cells(), lt.parent, Self::init_places(proj));
        }
        Init::from_raw(region, lt.parent)
    }
}

impl<A, const N: usize> WithUninitProj for [A; N] {
    type UninitProj = Vec<Uninit>;

    open spec fn fields() -> nat {
        N as nat
    }

    open spec fn uninit_places(proj: Vec<Uninit>) -> Seq<Span> {
        proj@.map_values(|u: Uninit| u@)
    }
}

impl<A, const N: usize> WithInitProj for [A; N] {
    type InitProj = Vec<Init>;

    open spec fn init_places(proj: Vec<Init>) -> Seq<Span> {
        proj@.map_values(|p: Init| p@)
    }
}

impl<A, const N: usize> ProjConstruct for [A; N] {
    fn project(uninit: Uninit) -> (r: (Lt, Vec<Uninit>)) {
        let s = uninit.as_mut_ptr();
        let mut places: Vec<Uninit> = Vec::new();
        let mut i: usize = 0;
        while i < N
            invariant
                s == uninit@,
                s.len == N,
                s.end() <= usize::MAX,
                i <= N,
                places@.len() == i,
                forall|k: int| 0 <= k < i ==> (#[trigger] places@[k])@ == field(s, k),
            decreases N - i,
        {
            places.push(Uninit::from_ptr(s.nth(i)));
            i = i + 1;
        }
        let r = (Lt { parent: s }, places);
        assert(splits(s, Self::uninit_places(r.1)));
        r
    }

    fn compose<T>(region: &Region<T>, lt: Lt, proj: Vec<Init>) -> (r: Init) {
        proof {
            law_projection_complete(region.cells(), lt.parent, Self::init_places(proj));
        }
        Init::from_raw(region, lt.parent)
    }
}

} // verus!
