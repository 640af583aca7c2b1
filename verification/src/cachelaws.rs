//! What holds of the inode cache whatever is stored and removed: hot inodes
//! and young entries survive eviction, a path stored under an inode resolves
//! until it is removed, and the journal and the map stay in agreement as
//! long as no slot changes hands while its inode is cached.

use crate::cachemodel::with_link;
use crate::cachemodel::CacheModel;
use crate::cachemodel::EntryModel;
use crate::cachemodel::MIN_USABLE;
use crate::clock::older_than;
use crate::filehandles::Inode;
use crate::journal::empty_slots;
use crate::journal::JournalEntry;
use crate::journal::MARGIN;
use crate::ring::Index;
use vstd::prelude::*;

verus! {

/// How a cache `after` some steps of eviction at time `now` relates to the
/// cache `before` them.
///
/// The entries that are left are as they were. An entry has left only if its
/// inode is not hot and its slot was older than the least age. A slot has
/// changed only by being emptied, and only if it was older than the least age
/// and held no hot inode.
pub open spec fn evicted_from(before: CacheModel, after: CacheModel, hot: Set<Inode>, now: u128) -> bool {
    &&& after.journal.len() == before.journal.len()
    &&& after.position == before.position
    &&& after.min_age == before.min_age
    &&& forall|ino: Inode| (#[trigger] after.map.contains_key(ino)) ==> {
        &&& before.map.contains_key(ino)
        &&& after.map[ino] == before.map[ino]
    }
    &&& forall|ino: Inode|
        (#[trigger] before.map.contains_key(ino)) && !after.map.contains_key(ino) ==> {
            &&& !hot.contains(ino)
            &&& older_than(now, before.journal[before.map[ino].index].time, before.min_age)
        }
    &&& forall|slot: int|
        0 <= slot < before.journal.len() ==> {
            ||| (#[trigger] after.journal[slot]) == before.journal[slot]
            ||| {
                &&& after.journal[slot] == (JournalEntry { ino: 0, time: before.journal[slot].time })
                &&& older_than(now, before.journal[slot].time, before.min_age)
                &&& !hot.contains(before.journal[slot].ino)
            }
        }
}

/// One step of eviction on a slot that is old enough.
pub proof fn lemma_gc_step(cache: CacheModel, hot: Set<Inode>, now: u128)
    requires
        cache.wf(),
        !cache.gc_stops(now),
    ensures
        cache.gc_step(hot).wf(),
        evicted_from(cache, cache.gc_step(hot), hot, now),
{
    let after = cache.gc_step(hot);
    assert forall|ino: Inode| (#[trigger] after.map.contains_key(ino)) implies after.entry_wf(ino) by {
        assert(cache.map.contains_key(ino));
        assert(cache.entry_wf(ino));
    }
}

/// Eviction after eviction is eviction.
pub proof fn lemma_evicted_twice(
    first: CacheModel,
    second: CacheModel,
    third: CacheModel,
    hot: Set<Inode>,
    now: u128,
)
    requires
        first.wf(),
        second.wf(),
        evicted_from(first, second, hot, now),
        evicted_from(second, third, hot, now),
    ensures
        evicted_from(first, third, hot, now),
{
    assert forall|ino: Inode|
        (#[trigger] first.map.contains_key(ino)) && !third.map.contains_key(ino) implies {
        &&& !hot.contains(ino)
        &&& older_than(now, first.journal[first.map[ino].index].time, first.min_age)
    } by {
        if second.map.contains_key(ino) {
            assert(first.entry_wf(ino));
            let slot = first.map[ino].index;
            assert(second.journal[slot].time == first.journal[slot].time);
        }
    }
    assert forall|slot: int| 0 <= slot < first.journal.len() implies {
        ||| (#[trigger] third.journal[slot]) == first.journal[slot]
        ||| {
            &&& third.journal[slot] == (JournalEntry { ino: 0, time: first.journal[slot].time })
            &&& older_than(now, first.journal[slot].time, first.min_age)
            &&& !hot.contains(first.journal[slot].ino)
        }
    } by {
        assert(second.journal[slot] == first.journal[slot] || second.journal[slot] == (JournalEntry {
            ino: 0,
            time: first.journal[slot].time,
        }));
        assert(third.journal[slot] == second.journal[slot] || third.journal[slot] == (JournalEntry {
            ino: 0,
            time: second.journal[slot].time,
        }));
    }
}

/// Any number of steps of eviction.
pub proof fn lemma_gc_run(cache: CacheModel, hot: Set<Inode>, now: u128, steps: nat)
    requires
        cache.wf(),
    ensures
        cache.gc_run(hot, now, steps).wf(),
        evicted_from(cache, cache.gc_run(hot, now, steps), hot, now),
    decreases steps,
{
    if steps == 0 || cache.gc_stops(now) {
    } else {
        let next = cache.gc_step(hot);
        lemma_gc_step(cache, hot, now);
        lemma_gc_run(next, hot, now, (steps - 1) as nat);
        lemma_evicted_twice(cache, next, next.gc_run(hot, now, (steps - 1) as nat), hot, now);
    }
}

/// The eviction that follows a store keeps the cache well formed and only
/// evicts.
pub proof fn lemma_autoremove(cache: CacheModel, hot: Set<Inode>, now: u128)
    requires
        cache.wf(),
    ensures
        cache.autoremove(hot, now).wf(),
        evicted_from(cache, cache.autoremove(hot, now), hot, now),
{
    if cache.gc_due() {
        lemma_gc_run(cache, hot, now, MIN_USABLE as nat);
    }
}

/// Eviction never takes a hot inode from the cache: the inode keeps its
/// entry, and the slot that holds it is left as it is.
pub proof fn lemma_hot_inodes_stay(cache: CacheModel, hot: Set<Inode>, now: u128, ino: Inode)
    requires
        cache.wf(),
        hot.contains(ino),
        cache.map.contains_key(ino),
    ensures
        cache.autoremove(hot, now).map.contains_key(ino),
        cache.autoremove(hot, now).map[ino] == cache.map[ino],
        cache.journal[cache.map[ino].index].ino == ino ==> cache.autoremove(hot, now).journal[cache.map[ino].index]
            == cache.journal[cache.map[ino].index],
{
    lemma_autoremove(cache, hot, now);
    assert(cache.entry_wf(ino));
    let after = cache.autoremove(hot, now);
    let slot = cache.map[ino].index;
    assert(after.journal[slot] == cache.journal[slot] || !hot.contains(cache.journal[slot].ino));
}

/// Whatever eviction takes from the cache was older than the least age: its
/// slot was stamped more than `min_age` seconds before the eviction ran.
pub proof fn lemma_evicted_were_old(cache: CacheModel, hot: Set<Inode>, now: u128, ino: Inode)
    requires
        cache.wf(),
        cache.map.contains_key(ino),
        !cache.autoremove(hot, now).map.contains_key(ino),
    ensures
        older_than(now, cache.journal[cache.map[ino].index].time, cache.min_age),
        !hot.contains(ino),
{
    lemma_autoremove(cache, hot, now);
}

/// The walk of a store ends on a slot of the ring.
pub proof fn lemma_seek_from(cache: CacheModel, hot: Set<Inode>, pos: Index, start: int, fuel: nat)
    requires
        cache.wf(),
        pos.wf(),
        pos.max <= cache.position.max,
        pos.initial_max == cache.position.initial_max,
    ensures
        ({
            let (end, found) = cache.seek_from(hot, pos, start, fuel);
            &&& end.wf()
            &&& end.max <= cache.position.max
            &&& end.initial_max == cache.position.initial_max
            &&& found ==> cache.free_at(end.current as int, hot)
        }),
    decreases fuel,
{
    if fuel == 0 || pos.current == start {
    } else if cache.free_at(pos.current as int, hot) {
    } else {
        lemma_seek_from(cache, hot, pos.next(), start, (fuel - 1) as nat);
    }
}

/// The cache with `position` on the slot of the next store is well formed,
/// has the entries it had, and is no more than `MARGIN` slots longer.
pub proof fn lemma_placed(cache: CacheModel, hot: Set<Inode>, now: u128)
    requires
        cache.wf(),
        cache.journal.len() + MARGIN <= usize::MAX,
    ensures
        cache.placed(hot, now).wf(),
        cache.placed(hot, now).map == cache.map,
        cache.placed(hot, now).min_age == cache.min_age,
        cache.journal.len() <= cache.placed(hot, now).journal.len() <= cache.journal.len() + MARGIN,
        cache.finds_slot(hot) ==> cache.placed(hot, now).journal == cache.journal,
        cache.finds_slot(hot) ==> cache.free_at(cache.store_slot(hot, now), hot),
{
    lemma_seek_from(
        cache,
        hot,
        cache.position.next(),
        cache.position.current as int,
        cache.journal.len(),
    );
    let placed = cache.placed(hot, now);
    assert forall|ino: Inode| (#[trigger] placed.map.contains_key(ino)) implies placed.entry_wf(ino) by {
        assert(cache.entry_wf(ino));
    }
}

/// A store binds: afterwards the inode is cached with the path among its
/// paths, after those it had, and its slot holds it with the time of the
/// store. The eviction that follows the store does not reach it.
pub proof fn lemma_store_binds(cache: CacheModel, hot: Set<Inode>, ino: Inode, path: Seq<u8>, now: u128)
    requires
        cache.wf(),
        cache.journal.len() + MARGIN <= usize::MAX,
    ensures
        ({
            let after = cache.store(hot, ino, path, now);
            &&& after.wf()
            &&& after.journal.len() <= cache.journal.len() + MARGIN
            &&& after.map.contains_key(ino)
            &&& after.map[ino].links == if cache.map.contains_key(ino) {
                with_link(cache.map[ino].links, path)
            } else {
                seq![path]
            }
            &&& after.map[ino].links.contains(path)
            &&& after.journal[after.map[ino].index] == (JournalEntry { ino: ino, time: now })
        }),
{
    lemma_placed(cache, hot, now);
    let placed = cache.placed(hot, now);
    let slot = placed.position.current as int;
    let stored = cache.stored(hot, ino, path, now);
    assert(stored.wf()) by {
        assert forall|other: Inode| (#[trigger] stored.map.contains_key(other)) implies stored.entry_wf(
            other,
        ) by {
            if other == ino {
                if cache.map.contains_key(ino) {
                    assert(cache.entry_wf(ino));
                }
            } else {
                assert(placed.entry_wf(other));
            }
        }
    }
    let links = stored.map[ino].links;
    assert(links.contains(path)) by {
        if cache.map.contains_key(ino) && cache.map[ino].links.contains(path) {
        } else {
            assert(links.last() == path);
        }
    }
    lemma_autoremove(stored, hot, now);
    let after = stored.autoremove(hot, now);
    // The slot was stamped at `now`: it is not older than any least age.
    assert(0 <= slot < placed.journal.len());
    assert(stored.journal[slot] == (JournalEntry { ino: ino, time: now }));
    assert(stored.map.contains_key(ino));
    assert(stored.map[ino].index == slot);
    assert(!older_than(now, stored.journal[slot].time, stored.min_age));
    assert(after.journal[slot] == stored.journal[slot]);
    assert(after.map.contains_key(ino));
    assert(after.map[ino] == stored.map[ino]);
    assert(stored.journal.len() == placed.journal.len());
}

/// A store never takes a hot inode from the cache, and, where it finds a
/// slot without growing the journal, it leaves the slot of a hot inode as it
/// is: that slot is not given to another inode.
pub proof fn lemma_store_spares_hot(
    cache: CacheModel,
    hot: Set<Inode>,
    ino: Inode,
    path: Seq<u8>,
    now: u128,
    pinned: Inode,
)
    requires
        cache.wf(),
        cache.journal.len() + MARGIN <= usize::MAX,
        hot.contains(pinned),
        cache.map.contains_key(pinned),
        pinned != 0,
    ensures
        ({
            let after = cache.store(hot, ino, path, now);
            let slot = cache.map[pinned].index;
            &&& after.map.contains_key(pinned)
            &&& pinned != ino ==> after.map[pinned] == cache.map[pinned]
            &&& pinned != ino && cache.finds_slot(hot) && cache.journal[slot].ino == pinned
                ==> after.journal[slot] == cache.journal[slot]
        }),
{
    lemma_placed(cache, hot, now);
    lemma_store_binds(cache, hot, ino, path, now);
    let placed = cache.placed(hot, now);
    let stored = cache.stored(hot, ino, path, now);
    assert(cache.entry_wf(pinned));
    if pinned != ino {
        assert(stored.map.contains_key(pinned));
        assert(stored.wf()) by {
            assert forall|other: Inode| (#[trigger] stored.map.contains_key(other)) implies stored.entry_wf(
                other,
            ) by {
                if other == ino {
                    if cache.map.contains_key(ino) {
                        assert(cache.entry_wf(ino));
                    }
                } else {
                    assert(placed.entry_wf(other));
                }
            }
        }
        lemma_hot_inodes_stay(stored, hot, now, pinned);
    }
}

/// A hot inode resolves after a store to what it resolved to before.
pub proof fn lemma_store_keeps_hot_path(
    cache: CacheModel,
    hot: Set<Inode>,
    ino: Inode,
    path: Seq<u8>,
    now: u128,
    pinned: Inode,
)
    requires
        cache.wf(),
        cache.journal.len() + MARGIN <= usize::MAX,
        hot.contains(pinned),
        cache.map.contains_key(pinned),
        pinned != 0,
    ensures
        cache.store(hot, ino, path, now).map.contains_key(pinned),
        cache.store(hot, ino, path, now).resolve(pinned) == cache.resolve(pinned),
{
    lemma_store_spares_hot(cache, hot, ino, path, now, pinned);
    lemma_store_binds(cache, hot, ino, path, now);
    assert(cache.entry_wf(pinned));
}

/// A removal keeps the cache well formed.
pub proof fn lemma_remove_wf(cache: CacheModel, ino: Inode, link: Option<Seq<u8>>)
    requires
        cache.wf(),
    ensures
        cache.remove(ino, link).wf(),
        cache.remove(ino, link).journal.len() == cache.journal.len(),
{
    let after = cache.remove(ino, link);
    if cache.map.contains_key(ino) {
        assert(cache.entry_wf(ino));
        assert forall|other: Inode| (#[trigger] after.map.contains_key(other)) implies after.entry_wf(
            other,
        ) by {
            if other == ino {
                let path = link->0;
                let links = cache.map[ino].links;
                if links.contains(path) {
                    let at = links.index_of(path);
                    let rest = links.remove(at);
                    assert forall|i: int, j: int|
                        0 <= i < rest.len() && 0 <= j < rest.len() && i != j implies rest[i] != rest[j] by {
                        let from_i = if i < at { i } else { i + 1 };
                        let from_j = if j < at { j } else { j + 1 };
                        assert(rest[i] == links[from_i]);
                        assert(rest[j] == links[from_j]);
                    }
                }
            } else {
                assert(cache.entry_wf(other));
            }
        }
    }
}

/// Two names of one inode: after both paths are stored under the inode and
/// the first is removed, the inode is still cached, the second path is among
/// its paths, and its slot holds it. Where the inode was not cached before,
/// the second path is the one that the cache resolves it to.
pub proof fn lemma_hard_link_survives(
    cache: CacheModel,
    hot: Set<Inode>,
    ino: Inode,
    first: Seq<u8>,
    second: Seq<u8>,
    now_first: u128,
    now_second: u128,
)
    requires
        cache.wf(),
        cache.journal.len() + 2 * MARGIN <= usize::MAX,
        first != second,
    ensures
        ({
            let after = cache.store(hot, ino, first, now_first).store(
                hot,
                ino,
                second,
                now_second,
            ).remove(ino, Some(first));
            &&& after.wf()
            &&& after.map.contains_key(ino)
            &&& after.map[ino].links.contains(second)
            &&& after.journal[after.map[ino].index].ino == ino
            &&& !cache.map.contains_key(ino) ==> after.resolve(ino) == second
        }),
{
    lemma_store_binds(cache, hot, ino, first, now_first);
    let one = cache.store(hot, ino, first, now_first);
    lemma_store_binds(one, hot, ino, second, now_second);
    let two = one.store(hot, ino, second, now_second);
    lemma_remove_wf(two, ino, Some(first));
    let after = two.remove(ino, Some(first));
    let links = two.map[ino].links;
    assert(two.entry_wf(ino));
    assert(links.contains(first)) by {
        let had = one.map[ino].links;
        let at = choose|i: int| 0 <= i < had.len() && had[i] == first;
        assert(links[at] == first);
    }
    let at = links.index_of(first);
    let rest = links.remove(at);
    let other = choose|i: int| 0 <= i < links.len() && links[i] == second;
    assert(other != at);
    let moved = if other < at { other } else { other - 1 };
    assert(rest[moved] == second);
    assert(rest.len() >= 1);
    if !cache.map.contains_key(ino) {
        assert(one.map[ino].links =~= seq![first]);
        assert(links =~= seq![first, second]);
        assert(at == 0);
        assert(rest =~= seq![second]);
    }
}

/// A removal keeps the journal and the map in agreement.
pub proof fn lemma_remove_consistent(cache: CacheModel, ino: Inode, link: Option<Seq<u8>>)
    requires
        cache.wf(),
        cache.consistent(),
    ensures
        cache.remove(ino, link).wf(),
        cache.remove(ino, link).consistent(),
{
    lemma_remove_wf(cache, ino, link);
    let after = cache.remove(ino, link);
    if cache.map.contains_key(ino) {
        assert(cache.entry_wf(ino));
        assert forall|other: Inode| (#[trigger] after.map.contains_key(other)) implies {
            ||| after.journal[after.map[other].index].ino == other
            ||| after.journal[after.map[other].index].ino == 0
        } by {
            if other != ino {
                assert(cache.map.contains_key(other));
                assert(cache.entry_wf(other));
            }
        }
        assert forall|slot: int|
            0 <= slot < after.journal.len() && (#[trigger] after.journal[slot]).ino != 0 implies {
            &&& after.map.contains_key(after.journal[slot].ino)
            &&& after.map[after.journal[slot].ino].index == slot
        } by {
            assert(cache.journal[slot].ino != 0);
        }
    }
}

/// Eviction keeps the journal and the map in agreement.
pub proof fn lemma_gc_step_consistent(cache: CacheModel, hot: Set<Inode>)
    requires
        cache.wf(),
        cache.consistent(),
    ensures
        cache.gc_step(hot).consistent(),
{
    let after = cache.gc_step(hot);
    let at = cache.gc_index.current as int;
    assert forall|other: Inode| (#[trigger] after.map.contains_key(other)) implies {
        ||| after.journal[after.map[other].index].ino == other
        ||| after.journal[after.map[other].index].ino == 0
    } by {
        assert(cache.map.contains_key(other));
        assert(cache.entry_wf(other));
    }
    assert forall|slot: int|
        0 <= slot < after.journal.len() && (#[trigger] after.journal[slot]).ino != 0 implies {
        &&& after.map.contains_key(after.journal[slot].ino)
        &&& after.map[after.journal[slot].ino].index == slot
    } by {
        assert(cache.journal[slot].ino != 0);
        if !hot.contains(cache.journal[at].ino) {
            assert(slot != at);
            if cache.journal[at].ino != 0 {
                assert(cache.map[cache.journal[at].ino].index == at);
            }
        }
    }
}

pub proof fn lemma_gc_run_consistent(cache: CacheModel, hot: Set<Inode>, now: u128, steps: nat)
    requires
        cache.wf(),
        cache.consistent(),
    ensures
        cache.gc_run(hot, now, steps).consistent(),
    decreases steps,
{
    if steps == 0 || cache.gc_stops(now) {
    } else {
        lemma_gc_step(cache, hot, now);
        lemma_gc_step_consistent(cache, hot);
        lemma_gc_run_consistent(cache.gc_step(hot), hot, now, (steps - 1) as nat);
    }
}

/// The stores that keep the journal and the map in agreement: the inode has
/// no slot that holds it, the slot that the store fills is empty, no entry of
/// another inode points at it, and the journal does not grow in its middle.
/// Any other store leaves a slot that holds an inode whose entry points
/// elsewhere, or an entry whose slot holds another inode.
pub open spec fn store_keeps_order(cache: CacheModel, hot: Set<Inode>, ino: Inode, now: u128) -> bool {
    let slot = cache.store_slot(hot, now);
    &&& cache.map.contains_key(ino) ==> cache.journal[cache.map[ino].index].ino != ino
    &&& cache.placed(hot, now).journal[slot].ino == 0
    &&& forall|other: Inode|
        (#[trigger] cache.map.contains_key(other)) && other != ino ==> cache.map[other].index != slot
    &&& cache.finds_slot(hot) || cache.seek(hot).0.current + 1 == cache.journal.len()
}

/// The journal and the map agree after every store that takes an empty slot
/// for an inode that no slot holds: each cached inode has a slot that holds
/// it or is empty, and each slot that holds an inode is the slot of that
/// inode.
pub proof fn lemma_store_consistent(cache: CacheModel, hot: Set<Inode>, ino: Inode, path: Seq<u8>, now: u128)
    requires
        cache.wf(),
        cache.consistent(),
        cache.journal.len() + MARGIN <= usize::MAX,
        store_keeps_order(cache, hot, ino, now),
    ensures
        cache.store(hot, ino, path, now).wf(),
        cache.store(hot, ino, path, now).consistent(),
{
    lemma_store_binds(cache, hot, ino, path, now);
    lemma_placed(cache, hot, now);
    let placed = cache.placed(hot, now);
    let slot = placed.position.current as int;
    let stored = cache.stored(hot, ino, path, now);
    assert(0 <= slot < placed.journal.len());
    if !cache.finds_slot(hot) {
        let end = cache.seek(hot).0;
        assert(placed.journal =~= cache.journal + empty_slots(MARGIN as int, now));
    }
    assert forall|k: int| 0 <= k < cache.journal.len() implies #[trigger] placed.journal[k]
        == cache.journal[k] by {}
    assert forall|k: int| cache.journal.len() <= k < placed.journal.len() implies (
    #[trigger] placed.journal[k]).ino == 0 by {}
    assert(stored.wf()) by {
        assert forall|other: Inode| (#[trigger] stored.map.contains_key(other)) implies stored.entry_wf(
            other,
        ) by {
            if other != ino {
                assert(placed.entry_wf(other));
            }
        }
    }
    assert(stored.slots_own_or_empty()) by {
        assert forall|other: Inode| (#[trigger] stored.map.contains_key(other)) implies {
            ||| stored.journal[stored.map[other].index].ino == other
            ||| stored.journal[stored.map[other].index].ino == 0
        } by {
            if other != ino {
                assert(cache.map.contains_key(other));
                assert(cache.entry_wf(other));
            }
        }
    }
    assert(stored.live_slots_mapped()) by {
        assert forall|k: int|
            0 <= k < stored.journal.len() && (#[trigger] stored.journal[k]).ino != 0 implies {
            &&& stored.map.contains_key(stored.journal[k].ino)
            &&& stored.map[stored.journal[k].ino].index == k
        } by {
            if k != slot {
                assert(placed.journal[k].ino != 0);
                assert(k < cache.journal.len());
                assert(cache.journal[k].ino != 0);
            }
        }
    }
    if stored.gc_due() {
        lemma_gc_run_consistent(stored, hot, now, MIN_USABLE as nat);
    }
}

/// One call that changes what the cache holds.
pub enum CacheOp {
    Store { ino: Inode, path: Seq<u8>, now: u128 },
    Remove { ino: Inode, link: Option<Seq<u8>> },
}

/// The cache after one call, the inodes of `hot` being pinned.
pub open spec fn applied(cache: CacheModel, hot: Set<Inode>, op: CacheOp) -> CacheModel {
    match op {
        CacheOp::Store { ino, path, now } => cache.store(hot, ino, path, now),
        CacheOp::Remove { ino, link } => cache.remove(ino, link),
    }
}

/// The cache after the calls `ops`, made in order.
pub open spec fn ran(cache: CacheModel, hot: Set<Inode>, ops: Seq<CacheOp>) -> CacheModel
    decreases ops.len(),
{
    if ops.len() == 0 {
        cache
    } else {
        applied(ran(cache, hot, ops.drop_last()), hot, ops.last())
    }
}

/// Every store among `ops` is one that keeps the journal and the map in
/// agreement, made while the journal can still grow.
pub open spec fn orderly(cache: CacheModel, hot: Set<Inode>, ops: Seq<CacheOp>) -> bool {
    forall|i: int|
        0 <= i < ops.len() ==> (#[trigger] ops[i] matches CacheOp::Store { ino, path, now } ==> {
            &&& store_keeps_order(ran(cache, hot, ops.take(i)), hot, ino, now)
            &&& ran(cache, hot, ops.take(i)).journal.len() + MARGIN <= usize::MAX
        })
}

/// A cache that holds nothing is in agreement with its journal of empty
/// slots.
pub proof fn lemma_empty_consistent(cache: CacheModel)
    requires
        cache.map == Map::<Inode, EntryModel>::empty(),
        forall|slot: int| 0 <= slot < cache.journal.len() ==> (#[trigger] cache.journal[slot]).ino == 0,
    ensures
        cache.consistent(),
{
}

/// The journal and the map agree after every call of any run of stores and
/// removals in which each store takes an empty slot for an inode that no
/// slot holds: each cached inode has at least one path and a slot that holds
/// it or is empty, and each slot that holds an inode is the slot of that
/// inode.
pub proof fn lemma_run_consistent(cache: CacheModel, hot: Set<Inode>, ops: Seq<CacheOp>, upto: int)
    requires
        cache.wf(),
        cache.consistent(),
        orderly(cache, hot, ops),
        0 <= upto <= ops.len(),
    ensures
        ran(cache, hot, ops.take(upto)).wf(),
        ran(cache, hot, ops.take(upto)).consistent(),
    decreases upto,
{
    if upto > 0 {
        lemma_run_consistent(cache, hot, ops, upto - 1);
        let before = ran(cache, hot, ops.take(upto - 1));
        assert(ops.take(upto).drop_last() =~= ops.take(upto - 1));
        assert(ops.take(upto).last() == ops[upto - 1]);
        match ops[upto - 1] {
            CacheOp::Store { ino, path, now } => {
                lemma_store_consistent(before, hot, ino, path, now);
            },
            CacheOp::Remove { ino, link } => {
                lemma_remove_consistent(before, ino, link);
            },
        }
    }
}

} // verus!
