use mirrorfs::clock::is_older_than;
use mirrorfs::journal::{Journal, JournalEntry, Journaling, MARGIN};

const SECOND: u128 = 1_000_000_000;

#[test]
fn an_empty_slot_holds_no_inode() {
    assert_eq!(JournalEntry::empty(5), JournalEntry { ino: 0, time: 5 });
}

#[test]
fn a_new_journal_is_empty() {
    let j = Journal::create(4, 9);
    assert_eq!(j, vec![JournalEntry { ino: 0, time: 9 }; 4]);
    assert!(Journal::create(0, 9).is_empty());
}

#[test]
fn growing_puts_the_margin_in_the_middle() {
    let mut j: Journal = (1..=5).map(|i| JournalEntry { ino: i, time: i as u128 }).collect();
    j.grow(2, 99);
    assert_eq!(MARGIN, 100);
    assert_eq!(j.len(), 105);
    assert_eq!(j[0], JournalEntry { ino: 1, time: 1 });
    assert_eq!(j[1], JournalEntry { ino: 2, time: 2 });
    for slot in 2..102 {
        assert_eq!(j[slot], JournalEntry { ino: 0, time: 99 });
    }
    assert_eq!(j[102], JournalEntry { ino: 3, time: 3 });
    assert_eq!(j[103], JournalEntry { ino: 4, time: 4 });
    assert_eq!(j[104], JournalEntry { ino: 5, time: 5 });
}

#[test]
fn growing_at_either_end() {
    let mut j: Journal = (1..=3).map(|i| JournalEntry { ino: i, time: 0 }).collect();
    j.grow(3, 7);
    assert_eq!(j.len(), 103);
    assert_eq!(j[2].ino, 3);
    assert_eq!(j[3], JournalEntry { ino: 0, time: 7 });
    let mut j: Journal = (1..=3).map(|i| JournalEntry { ino: i, time: 0 }).collect();
    j.grow(0, 7);
    assert_eq!(j[0], JournalEntry { ino: 0, time: 7 });
    assert_eq!(j[100].ino, 1);
    assert_eq!(j[102].ino, 3);
}

#[test]
fn age_is_counted_in_whole_nanoseconds() {
    assert!(!is_older_than(SECOND, 0, 1));
    assert!(is_older_than(SECOND + 1, 0, 1));
    assert!(!is_older_than(5 * SECOND, 4 * SECOND, 1));
    assert!(is_older_than(5 * SECOND + 1, 4 * SECOND, 1));
    assert!(is_older_than(1, 0, 0));
    assert!(!is_older_than(0, 0, 0));
    // A stamp from the future has no age.
    assert!(!is_older_than(0, 10 * SECOND, 0));
    assert!(!is_older_than(u128::MAX, 0, u64::MAX) || u128::MAX > u64::MAX as u128 * SECOND);
}
