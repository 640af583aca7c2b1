//! A lightweight inode cache: from the inode numbers that the kernel sees to
//! the backing paths, bounded by a ring journal whose slots are recycled.

use crate::cachelaws::evicted_from;
use crate::cachelaws::lemma_autoremove;
use crate::cachelaws::lemma_empty_consistent;
use crate::cachelaws::lemma_store_binds;
use crate::cachemodel::links_bytes;
use crate::cachemodel::without_link;
use crate::cachemodel::CacheModel;
use crate::cachemodel::EntryModel;
use crate::cachemodel::MIN_AGE;
use crate::cachemodel::MIN_USABLE;
use crate::clock::age;
use crate::clock::instant_now;
use crate::clock::is_older_than;
use crate::clock::nanos_since;
use crate::filehandles::HotFiles;
use crate::filehandles::Inode;
use crate::journal::empty_slots;
use crate::journal::Journal;
use crate::journal::JournalEntry;
use crate::journal::Journaling;
use crate::journal::MARGIN;
use crate::ring::Index;
use crate::ring::PAD;
use std::collections::HashMap;
use std::time::Instant;
use vstd::prelude::*;
use vstd::slice::slice_to_vec;

verus! {

broadcast use vstd::std_specs::hash::group_hash_axioms;

/// A count of bytes as far as a `usize` can hold it.
pub open spec fn clip(bytes: nat) -> usize {
    if bytes > usize::MAX {
        usize::MAX
    } else {
        bytes as usize
    }
}

/// The sum of two counts of bytes, as far as a `usize` can hold it.
pub fn add_clipped(left: usize, right: usize) -> (sum: usize)
    ensures
        sum == clip((left + right) as nat),
{
    if left > usize::MAX - right {
        usize::MAX
    } else {
        left + right
    }
}

/// A path, if there is one, as a sequence of bytes.
pub open spec fn view_of(link: Option<&[u8]>) -> Option<Seq<u8>> {
    match link {
        Some(path) => Some(path@),
        None => None,
    }
}

/// The bytes that a removal takes off the books: those of all the paths
/// where the whole entry is asked for, the length of the path where the entry
/// stays with other paths, and nothing where the last path takes the entry
/// with it.
pub open spec fn remove_freed(cache: CacheModel, ino: Inode, link: Option<Seq<u8>>) -> nat {
    if !cache.map.contains_key(ino) {
        0
    } else {
        match link {
            None => links_bytes(cache.map[ino].links),
            Some(path) => if without_link(cache.map[ino].links, path).len() == 0 {
                0
            } else {
                path.len()
            },
        }
    }
}

/// What the cache keeps for one inode: its journal slot and its paths.
pub struct InoMapValue {
    pub index: usize,
    pub links: Vec<Vec<u8>>,
}

/// Stored paths as sequences of bytes.
pub open spec fn paths_view(links: Seq<Vec<u8>>) -> Seq<Seq<u8>> {
    Seq::new(links.len(), |i: int| links[i]@)
}

impl View for InoMapValue {
    type V = EntryModel;

    open spec fn view(&self) -> EntryModel {
        EntryModel { index: self.index as int, links: paths_view(self.links@) }
    }
}

/// Whether a stored path and a path hold the same bytes.
pub fn same_path(stored: &Vec<u8>, path: &[u8]) -> (same: bool)
    ensures
        same == (stored@ == path@),
{
    if stored.len() != path.len() {
        return false;
    }
    let mut i: usize = 0;
    while i < stored.len()
        invariant
            i <= stored.len(),
            stored.len() == path.len(),
            forall|k: int| 0 <= k < i ==> stored@[k] == path@[k],
        decreases stored.len() - i,
    {
        if stored[i] != path[i] {
            return false;
        }
        i += 1;
    }
    assert(stored@ =~= path@);
    true
}

/// Where `path` stands among `links`.
pub fn find_link(links: &Vec<Vec<u8>>, path: &[u8]) -> (found: Option<usize>)
    ensures
        match found {
            Some(i) => i < links.len() && links[i as int]@ == path@,
            None => !paths_view(links@).contains(path@),
        },
{
    let mut i: usize = 0;
    while i < links.len()
        invariant
            i <= links.len(),
            forall|k: int| 0 <= k < i ==> links[k]@ != path@,
        decreases links.len() - i,
    {
        if same_path(&links[i], path) {
            return Some(i);
        }
        i += 1;
    }
    None
}

/// The bytes accounted for `links`: two for each byte of each path.
pub fn links_size(links: &Vec<Vec<u8>>) -> (size: usize)
    ensures
        size == clip(links_bytes(paths_view(links@))),
{
    let mut size: usize = 0;
    let mut i: usize = 0;
    while i < links.len()
        invariant
            i <= links.len(),
            size == clip(links_bytes(paths_view(links@.take(i as int)))),
        decreases links.len() - i,
    {
        let len: usize = links[i].len();
        let twice: usize = add_clipped(len, len);
        proof {
            let upto = paths_view(links@.take(i + 1));
            assert(upto.drop_last() =~= paths_view(links@.take(i as int)));
            assert(upto.last() == links[i as int]@);
        }
        size = add_clipped(size, twice);
        i += 1;
    }
    assert(links@.take(links.len() as int) =~= links@);
    size
}

/// The state of the cache: the map from inodes to slots and paths, the
/// journal, and the two ring indices.
pub struct InodeCacheMutex {
    map: HashMap<Inode, InoMapValue>,
    journal: Journal,
    /// The slot that was stored last, not the next free one.
    position: Index,
    gc_index: Index,
    /// Seconds.
    min_age: u64,
    /// Where the clock of this cache starts.
    epoch: Instant,
}

impl View for InodeCacheMutex {
    type V = CacheModel;

    closed spec fn view(&self) -> CacheModel {
        CacheModel {
            map: Map::new(|ino: Inode| self.map@.contains_key(ino), |ino: Inode| self.map@[ino]@),
            journal: self.journal@,
            position: self.position,
            gc_index: self.gc_index,
            min_age: self.min_age,
        }
    }
}

impl InodeCacheMutex {
    pub open spec fn wf(&self) -> bool {
        self@.wf()
    }

    /// A cache of `size` empty slots made at time `now`, whose clock starts
    /// at `epoch`.
    pub fn new_at(size: usize, min_age: u64, epoch: Instant, now: u128) -> (cache: InodeCacheMutex)
        requires
            1 <= size,
            size + MARGIN <= usize::MAX,
        ensures
            cache.wf(),
            cache@.map == Map::<Inode, EntryModel>::empty(),
            cache@.journal == empty_slots(size as int, now),
            cache@.position == (Index { current: 0, max: (size - 1) as usize, initial_max: (size - 1) as usize }),
            cache@.gc_index == cache@.position,
            cache@.min_age == min_age,
            cache@.consistent(),
    {
        let cache = InodeCacheMutex {
            map: HashMap::with_capacity(size + MARGIN),
            journal: Journal::create(size, now),
            position: Index::new(size - 1),
            gc_index: Index::new(size - 1),
            min_age: min_age,
            epoch: epoch,
        };
        assert(cache@.map =~= Map::<Inode, EntryModel>::empty());
        proof {
            lemma_empty_consistent(cache@);
        }
        cache
    }

    /// The nanoseconds that have passed on this cache's clock. The clock is
    /// read at the moment of the call, so two calls may differ and nothing
    /// holds of every answer; `store_at`, `autoremove_at` and `stats_at` say
    /// what is done with whatever time is read.
    pub fn now(&self) -> u128 {
        nanos_since(&self.epoch)
    }

    pub fn journal_len(&self) -> (len: usize)
        ensures
            len == self@.journal.len(),
    {
        self.journal.len()
    }

    /// What slot `index` of the journal holds.
    pub fn slot(&self, index: usize) -> (entry: JournalEntry)
        requires
            index < self@.journal.len(),
        ensures
            entry == self@.journal[index as int],
    {
        self.journal[index]
    }

    /// The slot that `ino` was last stored in, if it is cached.
    pub fn slot_of(&self, ino: Inode) -> (slot: Option<usize>)
        ensures
            match slot {
                Some(slot) => self@.map.contains_key(ino) && self@.map[ino].index == slot,
                None => !self@.map.contains_key(ino),
            },
    {
        match self.map.get(&ino) {
            Some(entry) => Some(entry.index),
            None => None,
        }
    }

    /// The number of paths that lead to `ino`, none where it is not cached.
    pub fn link_count(&self, ino: Inode) -> (count: usize)
        ensures
            count == (if self@.map.contains_key(ino) {
                self@.map[ino].links.len()
            } else {
                0
            }),
    {
        match self.map.get(&ino) {
            Some(entry) => entry.links.len(),
            None => 0,
        }
    }

    /// The slot that was stored last.
    pub fn position(&self) -> (position: Index)
        ensures
            position == self@.position,
    {
        self.position
    }

    /// The slot that eviction looks at next.
    pub fn gc_index(&self) -> (gc_index: Index)
        ensures
            gc_index == self@.gc_index,
    {
        self.gc_index
    }

    /// The least age of what is evicted, in seconds.
    pub fn min_age(&self) -> (min_age: u64)
        ensures
            min_age == self@.min_age,
    {
        self.min_age
    }

    /// Empties slot `index`, whatever it holds.
    fn clear_slot(&mut self, index: usize)
        requires
            old(self).wf(),
            index < old(self)@.journal.len(),
        ensures
            final(self).wf(),
            final(self)@ == (CacheModel { journal: old(self)@.cleared(index as int), ..old(self)@ }),
    {
        let time: u128 = self.journal[index].time;
        self.journal.set(index, JournalEntry { ino: 0, time: time });
        assert(self@.map == old(self)@.map);
    }

    /// Whether the entry of `ino` points at slot `index`.
    fn points_at(&self, ino: Inode, index: usize) -> (points: bool)
        ensures
            points == (self@.map.contains_key(ino) && self@.map[ino].index == index),
    {
        match self.map.get(&ino) {
            Some(entry) => entry.index == index,
            None => false,
        }
    }

    /// Tries to free slot `index` for another inode. The slot of a hot inode
    /// whose entry points at it is left alone; any other slot is emptied.
    pub fn journal_recycle<F>(&mut self, index: usize, hot: &HotFiles<F>) -> (recycled: bool)
        requires
            old(self).wf(),
            index < old(self)@.journal.len(),
        ensures
            final(self).wf(),
            recycled == !old(self)@.pinned_at(index as int, hot@.hot()),
            final(self)@ == old(self)@.recycle(index as int, hot@.hot()),
    {
        let ino: Inode = self.journal[index].ino;
        if hot.is_hot(ino) && self.points_at(ino, index) {
            false
        } else {
            self.clear_slot(index);
            true
        }
    }

    /// One step of eviction, on a slot that is old enough. Gives the bytes
    /// that it frees.
    fn gc_step<F>(&mut self, hot: &HotFiles<F>) -> (freed: usize)
        requires
            old(self).wf(),
        ensures
            final(self).wf(),
            final(self)@ == old(self)@.gc_step(hot@.hot()),
            freed == clip(old(self)@.gc_step_freed(hot@.hot())),
    {
        let slot: usize = self.gc_index.nb();
        let ino: Inode = self.journal[slot].ino;
        let mut freed: usize = 0;
        if hot.is_hot(ino) {
            self.gc_index.inc();
            assert(self@.map == old(self)@.map);
        } else {
            if self.points_at(ino, slot) {
                let entry = self.map.remove(&ino);
                freed = links_size(&entry.unwrap().links);
                assert(self@.map =~= old(self)@.map.remove(ino));
            }
            let ghost map = self@.map;
            self.clear_slot(slot);
            self.gc_index.inc();
            assert(self@.map == map);
        }
        freed
    }

    /// The eviction that follows a store, at time `now`: where `gc_index`
    /// lies at most `PAD` slots ahead of `position`, up to `MIN_USABLE` slots
    /// are looked at, until one is not older than the least age. Gives the
    /// bytes freed.
    pub fn autoremove_at<F>(&mut self, hot: &HotFiles<F>, now: u128) -> (freed: usize)
        requires
            old(self).wf(),
        ensures
            final(self).wf(),
            final(self)@ == old(self)@.autoremove(hot@.hot(), now),
            freed == clip(old(self)@.autoremove_freed(hot@.hot(), now)),
            evicted_from(old(self)@, final(self)@, hot@.hot(), now),
    {
        proof {
            lemma_autoremove(old(self)@, hot@.hot(), now);
        }
        let mut freed: usize = 0;
        if self.position.is_back_close(&self.gc_index) {
            let mut left: usize = MIN_USABLE;
            let ghost mut sum: nat = 0;
            while left > 0 && is_older_than(now, self.journal[self.gc_index.nb()].time, self.min_age)
                invariant
                    self.wf(),
                    left <= MIN_USABLE,
                    self@.gc_run(hot@.hot(), now, left as nat) == old(self)@.gc_run(
                        hot@.hot(),
                        now,
                        MIN_USABLE as nat,
                    ),
                    sum + self@.gc_run_freed(hot@.hot(), now, left as nat) == old(self)@.gc_run_freed(
                        hot@.hot(),
                        now,
                        MIN_USABLE as nat,
                    ),
                    freed == clip(sum),
                decreases left,
            {
                let ghost before = self@;
                let step: usize = self.gc_step(hot);
                proof {
                    sum = sum + before.gc_step_freed(hot@.hot());
                }
                freed = add_clipped(freed, step);
                left -= 1;
            }
        }
        freed
    }

    /// The walk of a store: moves `position` forward from the slot after it
    /// to the first slot that can be taken, and empties that slot. Says
    /// whether there was one; where there was none, `position` is where the
    /// walk ended.
    fn seek<F>(&mut self, hot: &HotFiles<F>) -> (found: bool)
        requires
            old(self).wf(),
        ensures
            final(self).wf(),
            (final(self)@.position, found) == old(self)@.seek(hot@.hot()),
            final(self)@.journal.len() == old(self)@.journal.len(),
            final(self)@ == (CacheModel {
                position: final(self)@.position,
                journal: if found {
                    old(self)@.cleared(final(self)@.position.current as int)
                } else {
                    old(self)@.journal
                },
                ..old(self)@
            }),
    {
        let start: Index = self.position;
        self.position.inc();
        let mut fuel: usize = self.journal.len();
        let mut found: bool = false;
        assert(self@.map == old(self)@.map);
        while !found && fuel > 0 && self.position != start
            invariant
                self.wf(),
                start == old(self)@.position,
                self@.map == old(self)@.map,
                self@.gc_index == old(self)@.gc_index,
                self@.min_age == old(self)@.min_age,
                self@.journal.len() == old(self)@.journal.len(),
                !found ==> self@.journal == old(self)@.journal,
                !found ==> old(self)@.seek_from(
                    hot@.hot(),
                    self@.position,
                    start.current as int,
                    fuel as nat,
                ) == old(self)@.seek(hot@.hot()),
                found ==> (self@.position, true) == old(self)@.seek(hot@.hot()),
                found ==> self@.journal == old(self)@.cleared(self@.position.current as int),
            decreases (if found { 0int } else { 1int }), fuel,
        {
            let index: usize = self.position.nb();
            if self.journal[index].ino == 0 {
                found = true;
                assert(self@.journal =~= old(self)@.cleared(index as int));
            } else if self.journal_recycle(index, hot) {
                found = true;
            } else {
                self.position.inc();
                fuel -= 1;
                assert(self@.map == old(self)@.map);
            }
        }
        found
    }

    /// Puts `position` on the slot that the next store fills, growing the
    /// journal where the walk finds no slot.
    fn place<F>(&mut self, hot: &HotFiles<F>, now: u128)
        requires
            old(self).wf(),
            old(self)@.journal.len() + MARGIN <= usize::MAX,
        ensures
            final(self).wf(),
            final(self)@.position == old(self)@.placed(hot@.hot(), now).position,
            final(self)@.gc_index == old(self)@.placed(hot@.hot(), now).gc_index,
            final(self)@.map == old(self)@.map,
            final(self)@.min_age == old(self)@.min_age,
            final(self)@.journal.len() == old(self)@.placed(hot@.hot(), now).journal.len(),
            final(self)@.journal.update(
                final(self)@.position.current as int,
                JournalEntry { ino: 0, time: 0 },
            ) == old(self)@.placed(hot@.hot(), now).journal.update(
                final(self)@.position.current as int,
                JournalEntry { ino: 0, time: 0 },
            ),
    {
        let found: bool = self.seek(hot);
        if !found {
            let index: usize = self.position.nb();
            let ghost before = self@;
            self.journal.grow(index + 1, now);
            self.position.extend(MARGIN);
            self.gc_index.extend(MARGIN);
            self.position.inc();
            assert(self@.map == before.map);
            assert(self@.journal.len() == before.journal.len() + MARGIN);
            assert forall|ino: Inode| (#[trigger] self@.map.contains_key(ino)) implies self@.entry_wf(
                ino,
            ) by {
                assert(before.entry_wf(ino));
            }
        } else {
            let ghost slot = self@.position.current as int;
            let ghost blank = JournalEntry { ino: 0, time: 0 };
            assert(self@.wf());
            assert(self@.journal == old(self)@.cleared(slot));
            assert(0 <= slot < old(self)@.journal.len());
            assert(self@.journal.update(slot, blank) =~= old(self)@.journal.update(slot, blank));
        }
    }

    /// Stores `ino` in slot `slot` at time `now`, with `path` among its
    /// paths. Says whether the path is new to the cache.
    fn occupy(&mut self, slot: usize, ino: Inode, path: &[u8], now: u128) -> (added: bool)
        requires
            old(self).wf(),
            slot < old(self)@.journal.len(),
        ensures
            final(self).wf(),
            final(self)@ == old(self)@.occupy(slot as int, ino, path@, now),
            added == old(self)@.adds_link(ino, path@),
    {
        self.journal.set(slot, JournalEntry { ino: ino, time: now });
        let mut entry: InoMapValue = match self.map.remove(&ino) {
            Some(entry) => entry,
            None => InoMapValue { index: 0, links: Vec::new() },
        };
        assert(old(self)@.map.contains_key(ino) ==> old(self)@.entry_wf(ino));
        let ghost links = entry.links@;
        assert(old(self)@.map.contains_key(ino) ==> paths_view(links) == old(self)@.map[ino].links);
        assert(!old(self)@.map.contains_key(ino) ==> paths_view(links) =~= Seq::<Seq<u8>>::empty());
        entry.index = slot;
        let at: Option<usize> = find_link(&entry.links, path);
        let added: bool = at.is_none();
        if added {
            entry.links.push(slice_to_vec(path));
            assert(paths_view(entry.links@) =~= paths_view(links).push(path@));
        } else {
            assert(paths_view(links)[at.unwrap() as int] == path@);
        }
        assert(paths_view(entry.links@).no_duplicates());
        let ghost wanted = old(self)@.occupy(slot as int, ino, path@, now).map;
        assert(entry@.links =~= wanted[ino].links);
        self.map.insert(ino, entry);
        assert(self@.map =~= wanted);
        assert forall|other: Inode| (#[trigger] self@.map.contains_key(other)) implies self@.entry_wf(
            other,
        ) by {
            if other != ino {
                assert(old(self)@.entry_wf(other));
            }
        }
        added
    }

    /// Stores `path` under `ino` at time `now`: the inode gets the next slot
    /// of the ring that can be taken, the journal growing where there is
    /// none, and then the eviction runs. Gives whether the path is new to
    /// the cache, and the bytes that the eviction freed.
    pub fn store_at<F>(&mut self, hot: &HotFiles<F>, ino: Inode, path: &[u8], now: u128) -> (done: (
        bool,
        usize,
    ))
        requires
            old(self).wf(),
            old(self)@.journal.len() + MARGIN <= usize::MAX,
        ensures
            final(self).wf(),
            final(self)@ == old(self)@.store(hot@.hot(), ino, path@, now),
            final(self)@.map.contains_key(ino),
            final(self)@.map[ino].links.contains(path@),
            final(self)@.journal[final(self)@.map[ino].index] == (JournalEntry { ino: ino, time: now }),
            done.0 == old(self)@.adds_link(ino, path@),
            done.1 == clip(old(self)@.stored(hot@.hot(), ino, path@, now).autoremove_freed(hot@.hot(), now)),
    {
        proof {
            lemma_store_binds(old(self)@, hot@.hot(), ino, path@, now);
        }
        self.place(hot, now);
        let slot: usize = self.position.nb();
        let ghost placed = old(self)@.placed(hot@.hot(), now);
        let added: bool = self.occupy(slot, ino, path, now);
        proof {
            let blank = JournalEntry { ino: 0, time: 0 };
            let entry = JournalEntry { ino: ino, time: now };
            assert(self@.journal =~= placed.journal.update(slot as int, blank).update(slot as int, entry));
            assert(self@.journal =~= placed.journal.update(slot as int, entry));
            assert(self@ == placed.occupy(slot as int, ino, path@, now));
        }
        let freed: usize = self.autoremove_at(hot, now);
        (added, freed)
    }

    /// The path of `ino`: the first that was stored of those that the cache
    /// still has, and the empty path for an inode that is not cached.
    pub fn resolve(&self, ino: Inode) -> (path: Vec<u8>)
        requires
            self.wf(),
        ensures
            path@ == self@.resolve(ino),
    {
        match self.map.get(&ino) {
            Some(entry) => {
                assert(self@.map.contains_key(ino));
                assert(self@.entry_wf(ino));
                slice_to_vec(entry.links[0].as_slice())
            },
            None => Vec::new(),
        }
    }

    pub fn contains(&self, ino: Inode) -> (cached: bool)
        ensures
            cached == self@.map.contains_key(ino),
    {
        self.map.contains_key(&ino)
    }

    /// The slots that hold an inode, each with its age at `now`.
    pub fn stats_at(&self, now: u128) -> (stats: Vec<(usize, u128)>)
        ensures
            stats@ == live_ages(self@.journal, now),
    {
        let mut stats: Vec<(usize, u128)> = Vec::new();
        let mut n: usize = 0;
        while n < self.journal.len()
            invariant
                n <= self.journal.len(),
                stats@ == live_ages(self.journal@.take(n as int), now),
            decreases self.journal.len() - n,
        {
            let entry: JournalEntry = self.journal[n];
            proof {
                let upto = self.journal@.take(n + 1);
                assert(upto.drop_last() =~= self.journal@.take(n as int));
                assert(upto.last() == entry);
            }
            if entry.ino != 0 {
                let age: u128 = if now >= entry.time {
                    now - entry.time
                } else {
                    0
                };
                stats.push((n, age));
            }
            n += 1;
        }
        assert(self.journal@.take(n as int) =~= self.journal@);
        stats
    }

    /// Removes `ino` from the cache, or only `link` from its paths. Gives
    /// the bytes to take off the books.
    pub fn remove(&mut self, ino: Inode, link: Option<&[u8]>) -> (freed: usize)
        requires
            old(self).wf(),
        ensures
            final(self).wf(),
            final(self)@ == old(self)@.remove(ino, view_of(link)),
            freed == clip(remove_freed(old(self)@, ino, view_of(link))),
    {
        let mut entry: InoMapValue = match self.map.remove(&ino) {
            Some(entry) => entry,
            None => {
                assert(self@.map =~= old(self)@.map);
                return 0;
            },
        };
        assert(old(self)@.map.contains_key(ino));
        assert(old(self)@.entry_wf(ino));
        assert(self@.map =~= old(self)@.map.remove(ino));
        let ghost links = entry.links@;
        match link {
            None => {
                self.clear_slot(entry.index);
                links_size(&entry.links)
            },
            Some(path) => {
                match find_link(&entry.links, path) {
                    Some(at) => {
                        proof {
                            let paths = paths_view(links);
                            assert(paths[at as int] == path@);
                            assert(paths.contains(path@));
                            assert(paths.index_of(path@) == at);
                        }
                        entry.links.remove(at);
                        assert(paths_view(entry.links@) =~= without_link(paths_view(links), path@));
                        assert(paths_view(entry.links@).no_duplicates()) by {
                            let paths = paths_view(links);
                            let rest = paths_view(entry.links@);
                            assert forall|i: int, j: int|
                                0 <= i < rest.len() && 0 <= j < rest.len() && i != j implies rest[i]
                                != rest[j] by {
                                let from_i = if i < at { i } else { i + 1 };
                                let from_j = if j < at { j } else { j + 1 };
                                assert(rest[i] == paths[from_i]);
                                assert(rest[j] == paths[from_j]);
                            }
                        }
                    },
                    None => {},
                }
                if entry.links.len() == 0 {
                    self.clear_slot(entry.index);
                    0
                } else {
                    let ghost map = self@.map;
                    self.map.insert(ino, entry);
                    assert(self@.map =~= old(self)@.remove(ino, view_of(link)).map);
                    assert forall|other: Inode| (#[trigger] self@.map.contains_key(other)) implies self@.entry_wf(
                        other,
                    ) by {
                        if other != ino {
                            assert(old(self)@.entry_wf(other));
                        }
                    }
                    path.len()
                }
            },
        }
    }

    /// The eviction that follows a store, at the present time.
    pub fn autoremove<F>(&mut self, hot: &HotFiles<F>) -> (freed: usize)
        requires
            old(self).wf(),
        ensures
            final(self).wf(),
            exists|now: u128|
                {
                    &&& final(self)@ == old(self)@.autoremove(hot@.hot(), now)
                    &&& freed == clip(old(self)@.autoremove_freed(hot@.hot(), now))
                    &&& evicted_from(old(self)@, final(self)@, hot@.hot(), now)
                },
    {
        let now: u128 = self.now();
        self.autoremove_at(hot, now)
    }
}

/// The least number of slots that a cache is made with.
pub open spec fn floor_size(size: usize) -> usize {
    if size > PAD + MIN_USABLE {
        size
    } else {
        (PAD + MIN_USABLE) as usize
    }
}

/// The least age that a cache is made with, in seconds.
pub open spec fn floor_age(min_age: u64) -> u64 {
    if min_age > MIN_AGE {
        min_age
    } else {
        MIN_AGE
    }
}

/// The difference of two counts of bytes, and zero where the second is the
/// greater.
pub open spec fn sub_clipped(left: usize, right: usize) -> usize {
    if left >= right {
        (left - right) as usize
    } else {
        0
    }
}

/// The books of a new cache of `size` slots: six units for each slot that
/// the journal has room for.
pub open spec fn books_of_new(size: usize) -> usize {
    clip((6 * (size + MARGIN)) as nat)
}

/// The books after a store: two units more for each byte of a path that is
/// new to the cache, less what the eviction freed.
pub open spec fn books_after_store(books: usize, added: bool, path_len: nat, freed: nat) -> usize {
    sub_clipped(
        if added {
            clip((books + clip(2 * path_len)) as nat)
        } else {
            books
        },
        clip(freed),
    )
}

/// The slots of `journal` that hold an inode, each with its age at `now` in
/// nanoseconds, in the order of the slots.
pub open spec fn live_ages(journal: Seq<JournalEntry>, now: u128) -> Seq<(usize, u128)>
    decreases journal.len(),
{
    if journal.len() == 0 {
        Seq::empty()
    } else {
        let before = live_ages(journal.drop_last(), now);
        if journal.last().ino != 0 {
            before.push(((journal.len() - 1) as usize, age(now, journal.last().time) as u128))
        } else {
            before
        }
    }
}

/// The cache and its books.
pub struct CacheState {
    pub model: CacheModel,
    /// The approximate size of the cache, in units of a machine word.
    pub books: usize,
}

impl CacheState {
    /// The cache and its books after `path` is stored under `ino` at time
    /// `now`, the inodes of `hot` being pinned.
    pub open spec fn store(self, hot: Set<Inode>, ino: Inode, path: Seq<u8>, now: u128) -> CacheState {
        CacheState {
            model: self.model.store(hot, ino, path, now),
            books: books_after_store(
                self.books,
                self.model.adds_link(ino, path),
                path.len(),
                self.model.stored(hot, ino, path, now).autoremove_freed(hot, now),
            ),
        }
    }

    /// The cache and its books after `path` is stored under `ino` at some
    /// time.
    pub open spec fn stored_into(self, after: CacheState, hot: Set<Inode>, ino: Inode, path: Seq<u8>) -> bool {
        exists|now: u128| after == self.store(hot, ino, path, now)
    }

    /// The cache and its books after a removal.
    pub open spec fn remove(self, ino: Inode, link: Option<Seq<u8>>) -> CacheState {
        CacheState {
            model: self.model.remove(ino, link),
            books: sub_clipped(self.books, clip(remove_freed(self.model, ino, link))),
        }
    }
}

/// The inode cache with the registry of the handles that pin its inodes, over
/// any type of opened file.
pub struct InodeCache<F> {
    pub inode_mutex: InodeCacheMutex,
    pub hot_files: HotFiles<F>,
    /// The approximate size of the cache, in units of a machine word.
    pub total_size: usize,
}

impl<F> View for InodeCache<F> {
    type V = CacheModel;

    open spec fn view(&self) -> CacheModel {
        self.inode_mutex@
    }
}

impl<F> InodeCache<F> {
    pub open spec fn wf(&self) -> bool {
        self@.wf() && self.hot_files.wf()
    }

    /// The inodes that a handle pins.
    pub open spec fn hot(&self) -> Set<Inode> {
        self.hot_files@.hot()
    }

    /// The approximate size that the cache has on its books.
    pub open spec fn books(&self) -> usize {
        self.total_size
    }

    pub open spec fn state(&self) -> CacheState {
        CacheState { model: self@, books: self.total_size }
    }

    /// A cache whose clock starts at `epoch` and stands at `now`. A size
    /// below `PAD + MIN_USABLE` is raised to that, a least age below
    /// `MIN_AGE` to that.
    pub fn new_at(size: usize, min_age: u64, epoch: Instant, now: u128) -> (cache: InodeCache<F>)
        requires
            size + MARGIN <= usize::MAX,
        ensures
            cache.wf(),
            cache@.map == Map::<Inode, EntryModel>::empty(),
            cache@.journal == empty_slots(floor_size(size) as int, now),
            cache@.position == (Index {
                current: 0,
                max: (floor_size(size) - 1) as usize,
                initial_max: (floor_size(size) - 1) as usize,
            }),
            cache@.gc_index == cache@.position,
            cache@.min_age == floor_age(min_age),
            cache@.consistent(),
            cache.hot() == Set::<Inode>::empty(),
            cache.hot_files@.count == 0,
            cache.books() == books_of_new(floor_size(size)),
    {
        let size: usize = if size > PAD + MIN_USABLE {
            size
        } else {
            PAD + MIN_USABLE
        };
        let min_age: u64 = if min_age > MIN_AGE {
            min_age
        } else {
            MIN_AGE
        };
        let room: usize = size + MARGIN;
        let twice: usize = add_clipped(room, room);
        let cache = InodeCache {
            inode_mutex: InodeCacheMutex::new_at(size, min_age, epoch, now),
            hot_files: HotFiles::new(),
            total_size: add_clipped(add_clipped(twice, twice), twice),
        };
        assert(cache.hot() =~= Set::<Inode>::empty());
        cache
    }

    /// A cache whose clock starts now.
    pub fn new(size: usize, min_age: u64) -> (cache: InodeCache<F>)
        requires
            size + MARGIN <= usize::MAX,
        ensures
            cache.wf(),
            cache@.map == Map::<Inode, EntryModel>::empty(),
            exists|now: u128| cache@.journal == empty_slots(floor_size(size) as int, now),
            cache@.position == (Index {
                current: 0,
                max: (floor_size(size) - 1) as usize,
                initial_max: (floor_size(size) - 1) as usize,
            }),
            cache@.gc_index == cache@.position,
            cache@.min_age == floor_age(min_age),
            cache@.consistent(),
            cache.hot() == Set::<Inode>::empty(),
            cache.hot_files@.count == 0,
            cache.books() == books_of_new(floor_size(size)),
    {
        let epoch: Instant = instant_now();
        let now: u128 = nanos_since(&epoch);
        InodeCache::new_at(size, min_age, epoch, now)
    }

    /// The nanoseconds that have passed on this cache's clock. The clock is
    /// read at the moment of the call, so two calls may differ and nothing
    /// holds of every answer; `store_at` and `stats_at` say what is done with
    /// whatever time is read.
    pub fn now(&self) -> u128 {
        self.inode_mutex.now()
    }

    pub fn journal_len(&self) -> (len: usize)
        ensures
            len == self@.journal.len(),
    {
        self.inode_mutex.journal_len()
    }

    pub fn approximate_size(&self) -> (size: usize)
        ensures
            size == self.books(),
    {
        self.total_size
    }

    /// Stores `path` under `ino` at time `now`, and runs the eviction.
    pub fn store_at(&mut self, ino: Inode, path: &[u8], pid: u32, now: u128)
        requires
            old(self).wf(),
            old(self)@.journal.len() + MARGIN <= usize::MAX,
        ensures
            final(self).wf(),
            final(self).hot_files == old(self).hot_files,
            final(self).state() == old(self).state().store(old(self).hot(), ino, path@, now),
            final(self)@.map.contains_key(ino),
            final(self)@.map[ino].links.contains(path@),
    {
        let (added, freed) = self.inode_mutex.store_at(&self.hot_files, ino, path, now);
        if added {
            let len: usize = path.len();
            self.total_size = add_clipped(self.total_size, add_clipped(len, len));
        }
        self.total_size = if self.total_size >= freed {
            self.total_size - freed
        } else {
            0
        };
    }

    /// Stores `path` under `ino` at the present time, and runs the eviction.
    pub fn store(&mut self, ino: Inode, path: &[u8], pid: u32)
        requires
            old(self).wf(),
            old(self)@.journal.len() + MARGIN <= usize::MAX,
        ensures
            final(self).wf(),
            final(self).hot_files == old(self).hot_files,
            old(self).state().stored_into(final(self).state(), old(self).hot(), ino, path@),
            final(self)@.map.contains_key(ino),
            final(self)@.map[ino].links.contains(path@),
    {
        let now: u128 = self.now();
        self.store_at(ino, path, pid, now);
    }

    /// The path of `ino`: the first that was stored of those that the cache
    /// still has, and the empty path for an inode that is not cached.
    pub fn resolve(&self, ino: Inode) -> (path: Vec<u8>)
        requires
            self.wf(),
        ensures
            path@ == self@.resolve(ino),
    {
        self.inode_mutex.resolve(ino)
    }

    pub fn contains(&self, ino: Inode) -> (cached: bool)
        ensures
            cached == self@.map.contains_key(ino),
    {
        self.inode_mutex.contains(ino)
    }

    /// Removes `ino` from the cache, or only `link` from its paths. An inode
    /// that is not cached changes nothing.
    pub fn remove(&mut self, ino: Inode, link: Option<&[u8]>, pid: u32, count: usize)
        requires
            old(self).wf(),
        ensures
            final(self).wf(),
            final(self).hot_files == old(self).hot_files,
            final(self).state() == old(self).state().remove(ino, view_of(link)),
    {
        let freed: usize = self.inode_mutex.remove(ino, link);
        self.total_size = if self.total_size >= freed {
            self.total_size - freed
        } else {
            0
        };
    }

    /// The slots that hold an inode, each with its age at `now`.
    pub fn stats_at(&self, now: u128) -> (stats: Vec<(usize, u128)>)
        ensures
            stats@ == live_ages(self@.journal, now),
    {
        self.inode_mutex.stats_at(now)
    }

    /// The slots that hold an inode, each with its present age.
    pub fn print_stats(&self) -> (stats: Vec<(usize, u128)>)
        ensures
            exists|now: u128| stats@ == live_ages(self@.journal, now),
    {
        let now: u128 = self.now();
        self.stats_at(now)
    }
}

} // verus!
