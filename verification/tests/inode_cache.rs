use mirrorfs::inodecache::InodeCache;
use std::time::Instant;

const SECOND: u128 = 1_000_000_000;

fn cache(size: usize, min_age: u64) -> InodeCache<u32> {
    InodeCache::new_at(size, min_age, Instant::now(), 0)
}

#[test]
fn small_sizes_and_ages_are_raised() {
    let c = cache(3, 0);
    assert_eq!(c.journal_len(), 30);
    assert_eq!(c.approximate_size(), (30 + 100) * 6);
    let c = cache(31, 5);
    assert_eq!(c.journal_len(), 31);
    assert_eq!(c.approximate_size(), (31 + 100) * 6);
}

#[test]
fn hard_links_share_an_inode() {
    let mut c = cache(30, 1);
    c.store_at(42, b"/a", 0, 0);
    c.store_at(42, b"/b", 0, 0);
    let got = c.resolve(42);
    assert!(got == b"/a".to_vec() || got == b"/b".to_vec());
    c.remove(42, Some(b"/a"), 0, 0);
    assert_eq!(c.resolve(42), b"/b".to_vec());
    assert!(c.contains(42));
    c.remove(42, Some(b"/b"), 0, 0);
    assert_eq!(c.resolve(42), Vec::<u8>::new());
    assert!(!c.contains(42));
}

#[test]
fn removing_an_unknown_inode_changes_nothing() {
    let mut c = cache(30, 1);
    c.store_at(7, b"/x", 0, 0);
    let size = c.approximate_size();
    c.remove(8, None, 0, 0);
    assert_eq!(c.approximate_size(), size);
    assert_eq!(c.resolve(7), b"/x".to_vec());
}

#[test]
fn removing_without_a_path_drops_every_path() {
    let mut c = cache(30, 1);
    c.store_at(7, b"/x", 0, 0);
    c.store_at(7, b"/yy", 0, 0);
    assert_eq!(c.approximate_size(), 780 + 4 + 6);
    c.remove(7, None, 0, 0);
    assert!(!c.contains(7));
    assert_eq!(c.approximate_size(), 780);
}

#[test]
fn storing_a_path_twice_keeps_it_once() {
    let mut c = cache(30, 1);
    c.store_at(7, b"/x", 0, 0);
    c.store_at(7, b"/x", 0, 0);
    assert_eq!(c.approximate_size(), 780 + 4);
    c.remove(7, Some(b"/x"), 0, 0);
    assert!(!c.contains(7));
}

#[test]
fn removing_one_of_two_paths_takes_its_length_off_the_books() {
    let mut c = cache(30, 1);
    c.store_at(7, b"/x", 0, 0);
    c.store_at(7, b"/yy", 0, 0);
    c.remove(7, Some(b"/x"), 0, 0);
    assert_eq!(c.approximate_size(), 780 + 10 - 2);
    assert_eq!(c.resolve(7), b"/yy".to_vec());
}

#[test]
fn a_pinned_inode_outlives_the_ring() {
    let mut c = cache(30, 0);
    c.store_at(1000, b"/pinned", 0, 0);
    let fh = c.hot_files.make_handle(None, 1000);
    let mut now = 0;
    // The nineteenth store fills slot 20, ten slots behind the eviction
    // index, and the eviction looks at slots 0 to 19.
    for ino in 1..=19u64 {
        now += 2 * SECOND;
        c.store_at(ino, format!("/f{}", ino).as_bytes(), 0, now);
    }
    assert!(c.contains(1000));
    assert!(!c.contains(1));
    assert!(!c.contains(18));
    assert!(c.contains(19));
    for ino in 20..200u64 {
        now += 2 * SECOND;
        c.store_at(ino, format!("/f{}", ino).as_bytes(), 0, now);
        assert_eq!(c.resolve(1000), b"/pinned".to_vec());
    }
    assert_eq!(c.journal_len(), 30);
    assert!(!c.inode_mutex.journal_recycle(1, &c.hot_files));
    c.hot_files.release_handle(fh);
    assert!(!c.hot_files.is_hot(1000));
    assert!(c.inode_mutex.journal_recycle(1, &c.hot_files));
}

#[test]
fn a_released_inode_is_evicted_when_its_slot_is_looked_at() {
    let mut c = cache(30, 0);
    c.store_at(1000, b"/pinned", 0, 0);
    let fh = c.hot_files.make_handle(None, 1000);
    let mut now = 0;
    for ino in 1..=18u64 {
        now += 2 * SECOND;
        c.store_at(ino, format!("/f{}", ino).as_bytes(), 0, now);
    }
    assert!(c.contains(1000));
    c.hot_files.release_handle(fh);
    c.store_at(19, b"/f19", 0, now + 2 * SECOND);
    assert!(!c.contains(1000));
    assert_eq!(c.resolve(1000), Vec::<u8>::new());
}

#[test]
fn eviction_spares_what_is_not_older_than_the_least_age() {
    let mut c = cache(30, 5);
    // Slots 1 to 20 are filled one second apart; the eviction that follows
    // the last store runs at second 20 and stops at the first slot whose
    // age is five seconds or less.
    for ino in 1..=20u64 {
        c.store_at(ino, b"/p", 0, ino as u128 * SECOND);
    }
    for ino in 1..=14u64 {
        assert!(!c.contains(ino));
    }
    for ino in 15..=20u64 {
        assert!(c.contains(ino));
    }
}

#[test]
fn young_entries_are_not_evicted() {
    let mut c = cache(30, 10);
    // All stores fall within ten seconds: nothing is old enough to leave.
    for ino in 1..=30u64 {
        c.store_at(ino, b"/p", 0, ino as u128 * 1000);
    }
    for ino in 1..=30u64 {
        assert!(c.contains(ino));
    }
}

#[test]
fn a_full_ring_of_hot_inodes_grows() {
    let mut c = cache(30, 1);
    for ino in 1..=30u64 {
        c.store_at(ino, format!("/f{}", ino).as_bytes(), 0, 0);
        c.hot_files.make_handle(None, ino);
    }
    assert_eq!(c.journal_len(), 30);
    c.store_at(31, b"/f31", 0, 0);
    assert_eq!(c.journal_len(), 130);
    for ino in 1..=31u64 {
        assert_eq!(c.resolve(ino), format!("/f{}", ino).into_bytes());
    }
}

#[test]
fn stats_list_the_live_slots_with_their_ages() {
    let mut c = cache(30, 1);
    c.store_at(5, b"/a", 0, 10);
    c.store_at(6, b"/b", 0, 30);
    assert_eq!(c.stats_at(100), vec![(1, 90), (2, 70)]);
    assert_eq!(c.stats_at(20), vec![(1, 10), (2, 0)]);
}

#[test]
fn the_clock_of_a_new_cache_runs() {
    let mut c: InodeCache<u32> = InodeCache::new(30, 1);
    c.store(9, b"/nine", 0);
    assert_eq!(c.resolve(9), b"/nine".to_vec());
    let stats = c.print_stats();
    assert_eq!(stats.len(), 1);
    assert_eq!(stats[0].0, 1);
}

/// Whether the journal and the map agree: each cached inode of `inodes` has
/// a slot that holds it or is empty, and each slot that holds an inode is
/// the slot of that inode.
fn in_agreement(c: &InodeCache<u32>, inodes: &[u64]) -> bool {
    for ino in inodes {
        if let Some(slot) = c.inode_mutex.slot_of(*ino) {
            let held = c.inode_mutex.slot(slot).ino;
            if held != *ino && held != 0 {
                return false;
            }
            if c.inode_mutex.link_count(*ino) == 0 {
                return false;
            }
        }
    }
    for slot in 0..c.journal_len() {
        let held = c.inode_mutex.slot(slot).ino;
        if held != 0 && c.inode_mutex.slot_of(held) != Some(slot) {
            return false;
        }
    }
    true
}

#[test]
fn the_journal_and_the_map_agree_after_each_call() {
    let mut c = cache(30, 1);
    let inodes: Vec<u64> = (1..=60).collect();
    assert!(in_agreement(&c, &inodes));
    let mut now = 0;
    for ino in 1..=60u64 {
        now += 3 * SECOND;
        c.store_at(ino, format!("/f{}", ino).as_bytes(), 0, now);
        assert!(in_agreement(&c, &inodes));
        if ino % 3 == 0 {
            c.remove(ino, None, 0, 0);
            assert!(in_agreement(&c, &inodes));
        }
        if ino % 5 == 0 {
            c.remove(ino - 1, Some(format!("/f{}", ino - 1).as_bytes()), 0, 0);
            assert!(in_agreement(&c, &inodes));
        }
    }
}

#[test]
fn a_second_store_leaves_the_first_slot_behind() {
    let mut c = cache(30, 1);
    c.store_at(7, b"/a", 0, 0);
    assert_eq!(c.inode_mutex.slot_of(7), Some(1));
    c.store_at(7, b"/b", 0, 0);
    assert_eq!(c.inode_mutex.slot_of(7), Some(2));
    // The first slot still holds the inode, though its entry points
    // elsewhere.
    assert_eq!(c.inode_mutex.slot(1).ino, 7);
    assert!(!in_agreement(&c, &[7]));
    // Such a slot can be recycled even while the inode is hot; the slot
    // that the entry points at cannot.
    c.hot_files.make_handle(None, 7);
    assert!(c.inode_mutex.journal_recycle(1, &c.hot_files));
    assert_eq!(c.inode_mutex.slot(1).ino, 0);
    assert!(!c.inode_mutex.journal_recycle(2, &c.hot_files));
    assert_eq!(c.inode_mutex.slot(2).ino, 7);
    assert_eq!(c.resolve(7), b"/a".to_vec());
}

#[test]
fn the_ring_indices_move_as_told() {
    let mut c = cache(30, 1);
    assert_eq!(c.inode_mutex.position().nb(), 0);
    assert_eq!(c.inode_mutex.gc_index().nb(), 0);
    assert_eq!(c.inode_mutex.position().max, 29);
    c.store_at(7, b"/a", 0, 5 * SECOND);
    assert_eq!(c.inode_mutex.position().nb(), 1);
    // The eviction index is 29 steps ahead: too far for an eviction.
    assert_eq!(c.inode_mutex.gc_index().nb(), 0);
    assert_eq!(c.inode_mutex.slot(1), mirrorfs::journal::JournalEntry { ino: 7, time: 5 * SECOND });
}

#[test]
fn growth_is_taken_back_at_the_next_wrap() {
    let mut c = cache(30, 1);
    for ino in 1..=30u64 {
        c.store_at(ino, b"/p", 0, 0);
        c.hot_files.make_handle(None, ino);
    }
    c.store_at(31, b"/p", 0, 0);
    assert_eq!(c.inode_mutex.position().max, 129);
    assert_eq!(c.inode_mutex.gc_index().max, 129);
    assert_eq!(c.inode_mutex.position().nb(), 1);
    assert_eq!(c.inode_mutex.position().initial_max, 29);
    // The hundred new slots take the next stores.
    for ino in 32..=130u64 {
        c.store_at(ino, b"/p", 0, 0);
    }
    assert_eq!(c.inode_mutex.position().nb(), 100);
    assert_eq!(c.journal_len(), 130);
    for ino in 131..=159u64 {
        c.store_at(ino, b"/p", 0, 0);
    }
    assert_eq!(c.inode_mutex.position().nb(), 129);
    // The next store wraps: slot 0 holds a hot inode, so slot 1 is taken,
    // and the ring is back to its first size.
    c.store_at(160, b"/p", 0, 0);
    assert_eq!(c.inode_mutex.position().nb(), 1);
    assert_eq!(c.inode_mutex.position().max, 29);
    assert_eq!(c.inode_mutex.slot(1).ino, 160);
    assert_eq!(c.journal_len(), 130);
}

#[test]
fn eviction_takes_the_paths_off_the_books() {
    let mut c = cache(30, 1);
    let mut now = 0;
    for ino in 1..=19u64 {
        now += 2 * SECOND;
        c.store_at(ino, format!("/f{}", ino).as_bytes(), 0, now);
    }
    // Nine paths of three bytes and ten of four, two units a byte.
    assert_eq!(c.approximate_size(), 780 + 2 * (9 * 3 + 10 * 4));
    now += 2 * SECOND;
    c.store_at(20, b"/f20", 0, now);
    // The eviction has taken the first nineteen inodes.
    assert_eq!(c.approximate_size(), 780 + 2 * 4);
    assert_eq!(c.inode_mutex.gc_index().nb(), 20);
}

#[test]
fn an_eviction_gives_the_bytes_it_freed() {
    let mut c = cache(30, 1);
    c.store_at(1, b"/one", 0, 0);
    c.store_at(1, b"/uno", 0, 0);
    c.store_at(2, b"/two", 0, 0);
    // Nothing is old enough at the time of the stores.
    assert_eq!(c.inode_mutex.autoremove_at(&c.hot_files, 0), 0);
    assert_eq!(c.inode_mutex.gc_index().nb(), 0);
    // The eviction index is 27 steps ahead of the position: too far.
    assert_eq!(c.inode_mutex.autoremove_at(&c.hot_files, 100 * SECOND), 0);
    assert!(c.contains(1));
    for ino in 3..=18u64 {
        c.store_at(ino, b"/p", 0, 0);
    }
    assert_eq!(c.inode_mutex.position().nb(), 19);
    assert_eq!(c.inode_mutex.autoremove_at(&c.hot_files, 100 * SECOND), 0);
    c.store_at(19, b"/p", 0, 0);
    assert_eq!(c.inode_mutex.position().nb(), 20);
    // Ten steps ahead: slots 0 to 19 are looked at. Slot 1 holds inode 1,
    // whose entry points at slot 2: the slot is emptied and the entry stays
    // until slot 2 is looked at.
    let freed = c.inode_mutex.autoremove_at(&c.hot_files, 100 * SECOND);
    assert_eq!(freed, 2 * (4 + 4) + 2 * 4 + 16 * 2 * 2);
    assert!(!c.contains(1));
    assert!(!c.contains(18));
    assert!(c.contains(19));
    assert_eq!(c.inode_mutex.gc_index().nb(), 20);
}

#[test]
fn an_eviction_at_the_present_time_spares_the_new() {
    let mut c: InodeCache<u32> = InodeCache::new(30, 1);
    for ino in 1..=20u64 {
        c.store(ino, b"/p", 0);
    }
    assert_eq!(c.inode_mutex.autoremove(&c.hot_files), 0);
    for ino in 1..=20u64 {
        assert!(c.contains(ino));
    }
}
