use vstd::prelude::*;

verus! {

/// A place in a [`Region`]: `len` consecutive slots from `start`.
#[derive(Clone, Copy, Debug, PartialEq, Eq, Structural)]
pub struct Span {
    pub start: usize,
    pub len: usize,
}

impl Span {
    /// One past the last slot of the span.
    pub open spec fn end(self) -> int {
        self.start + self.len
    }

    pub open spec fn contains(self, i: int) -> bool {
        self.start <= i < self.end()
    }

    /// The single slot at `index`.
    pub fn single(index: usize) -> (s: Span)
        ensures
            s.start == index,
            s.len == 1,
    {
        Span { start: index, len: 1 }
    }

    /// The `i`-th slot of this span, as a span of its own.
    pub fn nth(&self, i: usize) -> (s: Span)
        requires
            i < self.len,
            self.end() <= usize::MAX,
        ensures
            s.start == self.start + i,
            s.len == 1,
    {
        Span { start: self.start + i, len: 1 }
    }
}

/// Caller-owned memory: a sequence of slots, each vacant (`None`) or holding
/// a value, together with the log of every destruction performed through a
/// handle, as slot indices in the order they happened.
pub struct Region<T> {
    slots: Vec<Option<T>>,
    dropped: Vec<usize>,
}

/// Every slot of `s` lies in the region and holds a value.
pub open spec fn filled<T>(cells: Seq<Option<T>>, s: Span) -> bool {
    &&& s.end() <= cells.len()
    &&& forall|i: int| s.contains(i) ==> (#[trigger] cells[i]) is Some
}

/// Every slot of `s` lies in the region and is vacant.
pub open spec fn vacant<T>(cells: Seq<Option<T>>, s: Span) -> bool {
    &&& s.end() <= cells.len()
    &&& forall|i: int| s.contains(i) ==> (#[trigger] cells[i]) is None
}

/// `after` differs from `before` at most inside `s`.
pub open spec fn unchanged_outside<T>(before: Seq<Option<T>>, after: Seq<Option<T>>, s: Span) -> bool {
    &&& after.len() == before.len()
    &&& forall|i: int| 0 <= i < before.len() && !s.contains(i) ==> after[i] == before[i]
}

/// The indices of `s` in increasing order.
pub open spec fn indices(s: Span) -> Seq<usize> {
    Seq::new(s.len as nat, |k: int| (s.start + k) as usize)
}

/// `cells` after the values of `src` are moved, in order, into `dst`: slot
/// `dst.start + j` gets what slot `src.start + j` held, and the slots of
/// `src` are left vacant.
pub open spec fn moved<T>(cells: Seq<Option<T>>, src: Span, dst: Span) -> Seq<Option<T>> {
    Seq::new(
        cells.len(),
        |i: int|
            if dst.contains(i) {
                cells[src.start + (i - dst.start)]
            } else if src.contains(i) {
                None
            } else {
                cells[i]
            },
    )
}

/// `cells` with every slot of `s` made vacant.
pub open spec fn cleared<T>(cells: Seq<Option<T>>, s: Span) -> Seq<Option<T>> {
    Seq::new(cells.len(), |i: int| if s.contains(i) { None } else { cells[i] })
}

/// Destroying the values of a place logs each of its slots exactly once:
/// the entries appended are the slots of the place, with none repeated.
pub proof fn law_destroyed_once(s: Span)
    requires
        s.end() <= usize::MAX,
    ensures
        indices(s).no_duplicates(),
        forall|i: int| 0 <= i <= usize::MAX ==> (indices(s).contains(i as usize) <==> s.contains(i)),
{
    assert forall|i: int| 0 <= i <= usize::MAX implies (indices(s).contains(i as usize)
        <==> s.contains(i)) by {
        if s.contains(i) {
            assert(indices(s)[i - s.start] == i as usize);
        }
    }
}

/// Once the values of a non-empty place are destroyed, the place is no
/// longer filled: no handle can read or destroy them a second time.
pub proof fn law_no_second_destruction<T>(cells: Seq<Option<T>>, s: Span)
    requires
        s.len > 0,
    ensures
        !filled(cleared(cells, s), s),
{
    if s.end() <= cells.len() {
        assert(cleared(cells, s)[s.start as int] is None);
    }
}

impl<T> Region<T> {
    /// The slots' contents.
    pub closed spec fn cells(&self) -> Seq<Option<T>> {
        self.slots@
    }

    /// The destruction log.
    pub closed spec fn log(&self) -> Seq<usize> {
        self.dropped@
    }

    /// A region never has more slots than a `usize` can count.
    pub proof fn lemma_len_bound(&self)
        ensures
            self.cells().len() <= usize::MAX,
    {
        assert(self.slots@.len() == self.slots.len());
    }

    /// An empty region.
    pub fn new() -> (r: Region<T>)
        ensures
            r.cells() == Seq::<Option<T>>::empty(),
            r.log() == Seq::<usize>::empty(),
    {
        Region { slots: Vec::new(), dropped: Vec::new() }
    }

    /// The number of slots.
    pub fn len(&self) -> (n: usize)
        ensures
            n == self.cells().len(),
    {
        self.slots.len()
    }

    /// Appends `n` vacant slots and returns the span they form.
    pub fn reserve(&mut self, n: usize) -> (s: Span)
        requires
            old(self).cells().len() + n <= usize::MAX,
        ensures
            s.start == old(self).cells().len(),
            s.len == n,
            final(self).cells() == old(self).cells() + Seq::new(n as nat, |k: int| None::<T>),
            final(self).log() == old(self).log(),
    {
        let start = self.slots.len();
        let mut k: usize = 0;
        while k < n
            invariant
                k <= n,
                start == old(self).slots@.len(),
                start + n <= usize::MAX,
                self.slots@ == old(self).slots@ + Seq::new(k as nat, |j: int| None::<T>),
                self.dropped@ == old(self).dropped@,
            decreases n - k,
        {
            self.slots.push(None);
            k = k + 1;
            assert(self.slots@ =~= old(self).slots@ + Seq::new(k as nat, |j: int| None::<T>));
        }
        Span { start, len: n }
    }

    /// The value in slot `i`, if any.
    pub fn get(&self, i: usize) -> (r: Option<&T>)
        requires
            i < self.cells().len(),
        ensures
            r matches Some(v) ==> self.cells()[i as int] == Some(*v),
            r is None <==> self.cells()[i as int] is None,
    {
        match &self.slots[i] {
            Some(v) => Some(v),
            None => None,
        }
    }

    /// Whether slot `i` is vacant.
    pub fn is_vacant(&self, i: usize) -> (b: bool)
        requires
            i < self.cells().len(),
        ensures
            b == self.cells()[i as int] is None,
    {
        self.slots[i].is_none()
    }

    /// The destruction log: the index of each slot whose value a handle
    /// destroyed, in order.
    pub fn drops(&self) -> (r: &Vec<usize>)
        ensures
            r@ == self.log(),
    {
        &self.dropped
    }

    /// Replaces slot `i` by `x` and returns what it held, without logging.
    pub(crate) fn swap_slot(&mut self, i: usize, x: Option<T>) -> (r: Option<T>)
        requires
            i < old(self).cells().len(),
        ensures
            r == old(self).cells()[i as int],
            final(self).cells() == old(self).cells().update(i as int, x),
            final(self).log() == old(self).log(),
    {
        self.slots.push(x);
        let r = self.slots.swap_remove(i);
        assert(self.slots@ =~= old(self).slots@.update(i as int, x));
        r
    }

    /// Destroys the values in `s`, lowest index first, logging each one.
    pub(crate) fn destroy(&mut self, s: Span)
        requires
            filled(old(self).cells(), s),
        ensures
            final(self).cells() == cleared(old(self).cells(), s),
            final(self).log() == old(self).log() + indices(s),
    {
        let n = self.slots.len();
        let mut k: usize = 0;
        while k < s.len
            invariant
                k <= s.len,
                s.end() <= n,
                n == self.slots@.len(),
                self.slots@ == cleared(old(self).slots@, Span { start: s.start, len: k }),
                self.dropped@ == old(self).dropped@ + indices(Span { start: s.start, len: k }),
            decreases s.len - k,
        {
            let i = s.start + k;
            // The value taken out is dropped here, running its destructor.
            let _ = self.swap_slot(i, None);
            self.dropped.push(i);
            k = k + 1;
            assert(self.slots@ =~= cleared(old(self).slots@, Span { start: s.start, len: k }));
            assert(self.dropped@ =~= old(self).dropped@ + indices(Span { start: s.start, len: k }));
        }
        assert(Span { start: s.start, len: k } == s);
    }
}

} // verus!
