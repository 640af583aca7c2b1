//! The inode cache as a mathematical value: what each operation makes of it,
//! and what holds of every cache.
//!
//! The cache maps an inode to the journal slot it was last stored in and to
//! the paths that lead to it. The journal is the ring of slots; `position`
//! is the slot stored last, `gc_index` the slot that eviction looks at next.

use crate::clock::older_than;
use crate::filehandles::Inode;
use crate::journal::grown;
use crate::journal::JournalEntry;
use crate::journal::MARGIN;
use crate::ring::Index;
use crate::ring::PAD;
use vstd::prelude::*;

verus! {

/// Eviction looks at no more than this many slots after one store.
pub const MIN_USABLE: usize = 20;

/// The least age, in seconds, below which no entry is evicted.
pub const MIN_AGE: u64 = 1;

/// What the cache knows of one inode.
pub struct EntryModel {
    /// The journal slot that the inode was last stored in.
    pub index: int,
    /// The paths that lead to the inode, in the order they were stored.
    pub links: Seq<Seq<u8>>,
}

pub struct CacheModel {
    pub map: Map<Inode, EntryModel>,
    pub journal: Seq<JournalEntry>,
    pub position: Index,
    pub gc_index: Index,
    /// Seconds.
    pub min_age: u64,
}

/// The bytes accounted for a list of paths: two for each byte of each path.
pub open spec fn links_bytes(links: Seq<Seq<u8>>) -> nat
    decreases links.len(),
{
    if links.len() == 0 {
        0
    } else {
        links_bytes(links.drop_last()) + 2 * links.last().len()
    }
}

/// The paths `links` with `path` added, unless it is there already.
pub open spec fn with_link(links: Seq<Seq<u8>>, path: Seq<u8>) -> Seq<Seq<u8>> {
    if links.contains(path) {
        links
    } else {
        links.push(path)
    }
}

/// The paths `links` without `path`.
pub open spec fn without_link(links: Seq<Seq<u8>>, path: Seq<u8>) -> Seq<Seq<u8>> {
    if links.contains(path) {
        links.remove(links.index_of(path))
    } else {
        links
    }
}

impl CacheModel {
    /// What holds of every cache: both ring indices stand on slots of the
    /// journal, and every inode in the cache has a slot of the journal and at
    /// least one path, none of them twice.
    pub open spec fn wf(self) -> bool {
        &&& self.position.wf()
        &&& self.position.max < self.journal.len()
        &&& self.gc_index.wf()
        &&& self.gc_index.max < self.journal.len()
        &&& forall|ino: Inode| (#[trigger] self.map.contains_key(ino)) ==> self.entry_wf(ino)
    }

    pub open spec fn entry_wf(self, ino: Inode) -> bool {
        &&& 0 <= self.map[ino].index < self.journal.len()
        &&& self.map[ino].links.len() >= 1
        &&& self.map[ino].links.no_duplicates()
    }

    /// Every inode of the cache has a slot that holds it or is empty.
    pub open spec fn slots_own_or_empty(self) -> bool {
        forall|ino: Inode| (#[trigger] self.map.contains_key(ino)) ==> {
            ||| self.journal[self.map[ino].index].ino == ino
            ||| self.journal[self.map[ino].index].ino == 0
        }
    }

    /// Every slot that holds an inode is the slot of that inode in the cache.
    pub open spec fn live_slots_mapped(self) -> bool {
        forall|slot: int|
            0 <= slot < self.journal.len() && (#[trigger] self.journal[slot]).ino != 0 ==> {
                &&& self.map.contains_key(self.journal[slot].ino)
                &&& self.map[self.journal[slot].ino].index == slot
            }
    }

    /// The journal and the map agree, in both directions.
    pub open spec fn consistent(self) -> bool {
        self.slots_own_or_empty() && self.live_slots_mapped()
    }

    /// The slot holds a hot inode whose entry points back at it: such a slot
    /// is given to no other inode.
    pub open spec fn pinned_at(self, slot: int, hot: Set<Inode>) -> bool {
        let ino = self.journal[slot].ino;
        hot.contains(ino) && self.map.contains_key(ino) && self.map[ino].index == slot
    }

    /// The journal with `slot` emptied. The slot keeps its time.
    pub open spec fn cleared(self, slot: int) -> Seq<JournalEntry> {
        self.journal.update(slot, JournalEntry { ino: 0, time: self.journal[slot].time })
    }

    /// The cache after an attempt to recycle `slot`: the slot is emptied
    /// unless it is pinned.
    pub open spec fn recycle(self, slot: int, hot: Set<Inode>) -> CacheModel {
        if self.pinned_at(slot, hot) {
            self
        } else {
            CacheModel { journal: self.cleared(slot), ..self }
        }
    }

    /// Eviction goes no further: the slot it looks at is not older than the
    /// least age.
    pub open spec fn gc_stops(self, now: u128) -> bool {
        !older_than(now, self.journal[self.gc_index.current as int].time, self.min_age)
    }

    /// Whether one step of eviction drops the inode of the slot it looks at
    /// from the cache: the inode is not hot, and its entry points at the slot.
    pub open spec fn gc_evicts(self, hot: Set<Inode>) -> bool {
        let slot = self.gc_index.current as int;
        let ino = self.journal[slot].ino;
        !hot.contains(ino) && self.map.contains_key(ino) && self.map[ino].index == slot
    }

    /// One step of eviction. A hot inode is passed over. Any other slot is
    /// emptied, and its inode leaves the cache if its entry points at that
    /// slot; an entry that points elsewhere stays.
    pub open spec fn gc_step(self, hot: Set<Inode>) -> CacheModel {
        let slot = self.gc_index.current as int;
        let ino = self.journal[slot].ino;
        if hot.contains(ino) {
            CacheModel { gc_index: self.gc_index.next(), ..self }
        } else if self.gc_evicts(hot) {
            CacheModel {
                map: self.map.remove(ino),
                journal: self.cleared(slot),
                gc_index: self.gc_index.next(),
                ..self
            }
        } else {
            CacheModel { journal: self.cleared(slot), gc_index: self.gc_index.next(), ..self }
        }
    }

    /// The bytes that one step of eviction frees.
    pub open spec fn gc_step_freed(self, hot: Set<Inode>) -> nat {
        if self.gc_evicts(hot) {
            links_bytes(self.map[self.journal[self.gc_index.current as int].ino].links)
        } else {
            0
        }
    }

    /// At most `steps` steps of eviction at time `now`, ended early by a slot
    /// that is not old enough.
    pub open spec fn gc_run(self, hot: Set<Inode>, now: u128, steps: nat) -> CacheModel
        decreases steps,
    {
        if steps == 0 || self.gc_stops(now) {
            self
        } else {
            self.gc_step(hot).gc_run(hot, now, (steps - 1) as nat)
        }
    }

    /// The bytes that `gc_run` frees.
    pub open spec fn gc_run_freed(self, hot: Set<Inode>, now: u128, steps: nat) -> nat
        decreases steps,
    {
        if steps == 0 || self.gc_stops(now) {
            0
        } else {
            self.gc_step_freed(hot) + self.gc_step(hot).gc_run_freed(hot, now, (steps - 1) as nat)
        }
    }

    /// Eviction is due when `gc_index` lies at most `PAD` slots ahead of
    /// `position`.
    pub open spec fn gc_due(self) -> bool {
        self.position.forward_distance(self.gc_index) <= PAD
    }

    /// The cache after the eviction that follows a store.
    pub open spec fn autoremove(self, hot: Set<Inode>, now: u128) -> CacheModel {
        if self.gc_due() {
            self.gc_run(hot, now, MIN_USABLE as nat)
        } else {
            self
        }
    }

    /// The bytes that `autoremove` frees.
    pub open spec fn autoremove_freed(self, hot: Set<Inode>, now: u128) -> nat {
        if self.gc_due() {
            self.gc_run_freed(hot, now, MIN_USABLE as nat)
        } else {
            0
        }
    }

    /// A store may take the slot: it is empty, or not pinned.
    pub open spec fn free_at(self, slot: int, hot: Set<Inode>) -> bool {
        self.journal[slot].ino == 0 || !self.pinned_at(slot, hot)
    }

    /// The walk of a store from `pos` on, over at most `fuel` slots: it ends
    /// on the first slot that is free, with `true`, or where it comes to slot
    /// `start` or has no fuel left, with `false`.
    pub open spec fn seek_from(self, hot: Set<Inode>, pos: Index, start: int, fuel: nat) -> (
        Index,
        bool,
    )
        decreases fuel,
    {
        if fuel == 0 || pos.current == start {
            (pos, false)
        } else if self.free_at(pos.current as int, hot) {
            (pos, true)
        } else {
            self.seek_from(hot, pos.next(), start, (fuel - 1) as nat)
        }
    }

    /// The walk of a store: from the slot after `position` once round the
    /// ring, over no more slots than the journal has.
    pub open spec fn seek(self, hot: Set<Inode>) -> (Index, bool) {
        self.seek_from(hot, self.position.next(), self.position.current as int, self.journal.len())
    }

    /// Whether a store finds a free slot without growing the journal.
    pub open spec fn finds_slot(self, hot: Set<Inode>) -> bool {
        self.seek(hot).1
    }

    /// The cache with `position` on the slot that the next store fills. Where
    /// the walk finds a free slot, that slot. Where it finds none, the
    /// journal grows by `MARGIN` empty slots after the slot the walk ended
    /// on, both rings grow as much, and the first of the new slots is taken.
    pub open spec fn placed(self, hot: Set<Inode>, now: u128) -> CacheModel {
        let (pos, found) = self.seek(hot);
        if found {
            CacheModel { position: pos, ..self }
        } else {
            CacheModel {
                journal: grown(self.journal, pos.current + 1, now),
                position: pos.extended(MARGIN as int).next(),
                gc_index: self.gc_index.extended(MARGIN as int),
                ..self
            }
        }
    }

    /// The slot that a store fills.
    pub open spec fn store_slot(self, hot: Set<Inode>, now: u128) -> int {
        self.placed(hot, now).position.current as int
    }

    /// The cache with `ino` stored in `slot` at time `now` under `path`: the
    /// slot holds the inode, the inode's entry points at the slot, and `path`
    /// is among its paths.
    pub open spec fn occupy(self, slot: int, ino: Inode, path: Seq<u8>, now: u128) -> CacheModel {
        CacheModel {
            journal: self.journal.update(slot, JournalEntry { ino: ino, time: now }),
            map: self.map.insert(
                ino,
                EntryModel {
                    index: slot,
                    links: if self.map.contains_key(ino) {
                        with_link(self.map[ino].links, path)
                    } else {
                        seq![path]
                    },
                },
            ),
            ..self
        }
    }

    /// Whether a store of `path` under `ino` adds a path to the cache.
    pub open spec fn adds_link(self, ino: Inode, path: Seq<u8>) -> bool {
        !self.map.contains_key(ino) || !self.map[ino].links.contains(path)
    }

    /// The cache after the store, before the eviction that follows it.
    pub open spec fn stored(self, hot: Set<Inode>, ino: Inode, path: Seq<u8>, now: u128) -> CacheModel {
        let placed = self.placed(hot, now);
        placed.occupy(placed.position.current as int, ino, path, now)
    }

    /// The cache after `path` is stored under `ino` at time `now`, the
    /// eviction that follows included.
    pub open spec fn store(self, hot: Set<Inode>, ino: Inode, path: Seq<u8>, now: u128) -> CacheModel {
        self.stored(hot, ino, path, now).autoremove(hot, now)
    }

    /// The cache without the entry of `ino`, and with the slot that the entry
    /// pointed at emptied.
    pub open spec fn dropped(self, ino: Inode) -> CacheModel {
        CacheModel {
            map: self.map.remove(ino),
            journal: self.cleared(self.map[ino].index),
            ..self
        }
    }

    /// The cache after a removal. An inode that is not cached changes
    /// nothing. Without a path the whole entry leaves. With one, that path
    /// leaves the entry, and the entry leaves with its last path.
    pub open spec fn remove(self, ino: Inode, link: Option<Seq<u8>>) -> CacheModel {
        if !self.map.contains_key(ino) {
            self
        } else {
            match link {
                None => self.dropped(ino),
                Some(path) => {
                    let rest = without_link(self.map[ino].links, path);
                    if rest.len() == 0 {
                        self.dropped(ino)
                    } else {
                        CacheModel {
                            map: self.map.insert(
                                ino,
                                EntryModel { index: self.map[ino].index, links: rest },
                            ),
                            ..self
                        }
                    }
                },
            }
        }
    }

    /// The path that the cache gives for `ino`: the first of its paths, and
    /// the empty path for an inode that is not cached.
    pub open spec fn resolve(self, ino: Inode) -> Seq<u8> {
        if self.map.contains_key(ino) {
            self.map[ino].links[0]
        } else {
            Seq::empty()
        }
    }
}

} // verus!
