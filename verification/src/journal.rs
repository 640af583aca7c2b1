//! The journal: the slots of the ring, each holding an inode and the time at
//! which it was stored there.

use vstd::prelude::*;

verus! {

/// The slots that the journal gains each time it has to grow.
pub const MARGIN: usize = 100;

/// One slot of the journal. An inode of zero marks the slot as empty.
#[derive(Clone, Copy, Debug, PartialEq, Eq, Structural)]
pub struct JournalEntry {
    pub ino: u64,
    /// Nanoseconds from the cache's start to the moment the slot was filled
    /// or made.
    pub time: u128,
}

impl JournalEntry {
    /// An empty slot made at time `now`.
    pub fn empty(now: u128) -> (entry: JournalEntry)
        ensures
            entry == (JournalEntry { ino: 0, time: now }),
    {
        JournalEntry { ino: 0, time: now }
    }
}

pub type Journal = Vec<JournalEntry>;

/// `count` empty slots made at time `now`.
pub open spec fn empty_slots(count: int, now: u128) -> Seq<JournalEntry> {
    Seq::new(count as nat, |i: int| JournalEntry { ino: 0, time: now })
}

/// The slots `journal` with `MARGIN` empty ones put in before slot `bottom`.
pub open spec fn grown(journal: Seq<JournalEntry>, bottom: int, now: u128) -> Seq<JournalEntry> {
    journal.subrange(0, bottom) + empty_slots(MARGIN as int, now) + journal.subrange(
        bottom,
        journal.len() as int,
    )
}

pub trait Journaling: Sized {
    spec fn slots(&self) -> Seq<JournalEntry>;

    /// A journal of `max` empty slots, with room for one growth.
    fn create(max: usize, now: u128) -> (journal: Self)
        requires
            max + MARGIN <= usize::MAX,
        ensures
            journal.slots() == empty_slots(max as int, now),
    ;

    /// Puts `MARGIN` empty slots in before slot `bottom`; the slots from
    /// `bottom` on move up by as many.
    fn grow(&mut self, bottom: usize, now: u128)
        requires
            bottom <= old(self).slots().len(),
            old(self).slots().len() + MARGIN <= usize::MAX,
        ensures
            final(self).slots() == grown(old(self).slots(), bottom as int, now),
    ;
}

impl Journaling for Vec<JournalEntry> {
    open spec fn slots(&self) -> Seq<JournalEntry> {
        self@
    }

    fn create(max: usize, now: u128) -> (journal: Journal) {
        let mut journal: Vec<JournalEntry> = Vec::with_capacity(max + MARGIN);
        let mut made: usize = 0;
        while made < max
            invariant
                made <= max,
                journal@ == empty_slots(made as int, now),
            decreases max - made,
        {
            journal.push(JournalEntry::empty(now));
            made += 1;
        }
        journal
    }

    fn grow(&mut self, bottom: usize, now: u128) {
        let top: usize = self.len();
        let ghost before = self@;
        let mut made: usize = 0;
        while made < MARGIN
            invariant
                made <= MARGIN,
                top == before.len(),
                top + MARGIN <= usize::MAX,
                self@ == before + empty_slots(made as int, now),
            decreases MARGIN - made,
        {
            self.push(JournalEntry::empty(now));
            made += 1;
        }
        // Move each slot from `bottom` on up by MARGIN, the highest first.
        let mut i: usize = top;
        while i > bottom
            invariant
                bottom <= i <= top,
                top == before.len(),
                top + MARGIN <= usize::MAX,
                self@.len() == top + MARGIN,
                forall|k: int| 0 <= k < i ==> self@[k] == before[k],
                forall|k: int| i <= k < i + MARGIN ==> self@[k] == (JournalEntry { ino: 0, time: now }),
                forall|k: int| i + MARGIN <= k < top + MARGIN ==> self@[k] == before[k - MARGIN],
            decreases i,
        {
            i -= 1;
            let moved = self[i];
            self.set(i + MARGIN, moved);
            self.set(i, JournalEntry::empty(now));
        }
        assert(self@ =~= grown(before, bottom as int, now));
    }
}

} // verus!
