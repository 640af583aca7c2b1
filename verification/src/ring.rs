//! An index that walks a ring of journal slots and wraps to zero after its
//! highest slot.

use std::cmp::Ordering;
use std::cmp::PartialOrd;
use vstd::prelude::*;
use vstd::std_specs::cmp::PartialEqSpecImpl;
use vstd::std_specs::cmp::PartialOrdSpecImpl;

verus! {

/// Two indices are close when at most this many steps lie between them.
pub const PAD: usize = 10;

/// A position in a ring whose slots are numbered from zero to `max`.
///
/// `max` may be raised above `initial_max` while the ring is full; the next
/// wrap to zero takes it back.
#[derive(Clone, Copy, Debug)]
pub struct Index {
    pub current: usize,
    pub max: usize,
    pub initial_max: usize,
}

impl Index {
    /// The position lies within the ring, and the ring is no smaller than it
    /// was made.
    pub open spec fn wf(self) -> bool {
        self.current <= self.max && self.initial_max <= self.max
    }

    /// The index after one step: the next slot, or slot zero of the ring at
    /// its first size when the highest slot has been reached.
    pub open spec fn next(self) -> Index {
        if self.current != self.max {
            Index { current: (self.current + 1) as usize, ..self }
        } else {
            Index { current: 0, max: self.initial_max, initial_max: self.initial_max }
        }
    }

    /// The index with its highest slot raised by `additional`.
    pub open spec fn extended(self, additional: int) -> Index {
        Index { max: (self.max + additional) as usize, ..self }
    }

    /// The number of steps from `self` forward to `other`, counted in the
    /// ring of `self`: modulo `self.max + 1` (see `lemma_forward_distance`).
    pub open spec fn forward_distance(self, other: Index) -> int {
        if self.current > other.current {
            self.max + 1 - self.current + other.current
        } else {
            other.current - self.current
        }
    }

    pub fn new(max: usize) -> (index: Index)
        ensures
            index == (Index { current: 0, max: max, initial_max: max }),
            index.wf(),
    {
        Index { current: 0, max: max, initial_max: max }
    }

    pub fn inc(&mut self)
        requires
            old(self).wf(),
        ensures
            *final(self) == old(self).next(),
            final(self).wf(),
    {
        if self.current != self.max {
            self.current += 1;
        } else {
            self.current = 0;
            self.max = self.initial_max;
        }
    }

    pub fn extend(&mut self, additional: usize)
        requires
            old(self).max + additional <= usize::MAX,
        ensures
            *final(self) == old(self).extended(additional as int),
            old(self).wf() ==> final(self).wf(),
    {
        self.max += additional;
    }

    pub fn nb(&self) -> (slot: usize)
        ensures
            slot == self.current,
    {
        self.current
    }

    /// Whether `other` lies at most `PAD` steps ahead of `self`.
    pub fn is_back_close(&self, other: &Index) -> (close: bool)
        requires
            self.wf(),
        ensures
            close == (self.forward_distance(*other) <= PAD),
    {
        if self.current > other.current {
            other.current < PAD && self.max - self.current <= PAD - 1 - other.current
        } else {
            other.current - self.current <= PAD
        }
    }
}

/// The forward distance is the difference of the two positions modulo the
/// number of slots, for positions within the ring.
pub proof fn lemma_forward_distance(from: Index, to: Index)
    requires
        from.wf(),
        to.current <= from.max,
    ensures
        from.forward_distance(to) == (to.current - from.current) % (from.max + 1),
        0 <= from.forward_distance(to) <= from.max,
{
    let n = from.max + 1;
    let d = to.current - from.current;
    if from.current > to.current {
        assert((d + n) % n == d % n) by {
            vstd::arithmetic::div_mod::lemma_mod_add_multiples_vanish(d, n);
        }
        assert((d + n) % n == d + n) by {
            vstd::arithmetic::div_mod::lemma_small_mod((d + n) as nat, n as nat);
        }
    } else {
        assert(d % n == d) by {
            vstd::arithmetic::div_mod::lemma_small_mod(d as nat, n as nat);
        }
    }
}

/// Two indices are equal when they stand on the same slot, whatever the size
/// of their rings.
impl PartialEq for Index {
    fn eq(&self, other: &Index) -> (same: bool) {
        self.current == other.current
    }
}

impl PartialEqSpecImpl for Index {
    open spec fn obeys_eq_spec() -> bool {
        true
    }

    open spec fn eq_spec(&self, other: &Index) -> bool {
        self.current == other.current
    }
}

/// Indices are ordered by their slots alone: one that has wrapped to zero
/// counts as smaller than one that has not, though it is further on.
impl PartialOrd for Index {
    fn partial_cmp(&self, other: &Index) -> (order: Option<Ordering>) {
        if self.current < other.current {
            Some(Ordering::Less)
        } else if self.current == other.current {
            Some(Ordering::Equal)
        } else {
            Some(Ordering::Greater)
        }
    }
}

impl PartialOrdSpecImpl for Index {
    open spec fn obeys_partial_cmp_spec() -> bool {
        true
    }

    open spec fn partial_cmp_spec(&self, other: &Index) -> Option<Ordering> {
        if self.current < other.current {
            Some(Ordering::Less)
        } else if self.current == other.current {
            Some(Ordering::Equal)
        } else {
            Some(Ordering::Greater)
        }
    }
}

} // verus!
