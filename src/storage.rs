use vstd::prelude::*;

use crate::region::Span;

verus! {

/// Memory set aside for a value: it names the same place every time it is
/// asked.
pub trait Storage {
    /// The place this storage stands for.
    spec fn place(&self) -> Span;

    /// Returns the place, leaving the storage as it was.
    fn as_mut_ptr(&mut self) -> (s: Span)
        ensures
            s == old(self).place(),
            final(self).place() == old(self).place(),
    ;
}

/// Storage for a single value: one slot.
pub struct Slot {
    index: usize,
}

impl Slot {
    pub fn new(index: usize) -> (s: Slot)
        ensures
            s.place() == (Span { start: index, len: 1 }),
    {
        Slot { index }
    }
}

impl Storage for Slot {
    closed spec fn place(&self) -> Span {
        Span { start: self.index, len: 1 }
    }

    fn as_mut_ptr(&mut self) -> (s: Span) {
        Span::single(self.index)
    }
}

/// Storage for a sequence: a run of consecutive slots.
pub struct Run {
    span: Span,
}

impl Run {
    pub fn new(span: Span) -> (r: Run)
        ensures
            r.place() == span,
    {
        Run { span }
    }
}

impl Storage for Run {
    closed spec fn place(&self) -> Span {
        self.span
    }

    fn as_mut_ptr(&mut self) -> (s: Span) {
        self.span
    }
}

} // verus!
