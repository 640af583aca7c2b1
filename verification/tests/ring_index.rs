use mirrorfs::ring::Index;

#[test]
fn a_new_index_stands_on_slot_zero() {
    let i = Index::new(29);
    assert_eq!(i.nb(), 0);
    assert_eq!(i.max, 29);
    assert_eq!(i.initial_max, 29);
}

#[test]
fn inc_wraps_after_the_highest_slot() {
    let mut i = Index::new(2);
    i.inc();
    assert_eq!(i.nb(), 1);
    i.inc();
    assert_eq!(i.nb(), 2);
    i.inc();
    assert_eq!(i.nb(), 0);
}

#[test]
fn a_wrap_takes_back_an_extension() {
    let mut i = Index::new(2);
    i.extend(100);
    assert_eq!(i.max, 102);
    for _ in 0..102 {
        i.inc();
    }
    assert_eq!(i.nb(), 102);
    i.inc();
    assert_eq!(i.nb(), 0);
    assert_eq!(i.max, 2);
}

#[test]
fn back_close_counts_steps_forward() {
    let mut a = Index::new(29);
    let mut b = Index::new(29);
    assert!(a.is_back_close(&b));
    for _ in 0..10 {
        b.inc();
    }
    assert!(a.is_back_close(&b));
    b.inc();
    assert!(!a.is_back_close(&b));
    // Across the wrap: from slot 25 to slot 5 there are ten steps.
    for _ in 0..25 {
        a.inc();
    }
    let mut c = Index::new(29);
    for _ in 0..5 {
        c.inc();
    }
    assert!(a.is_back_close(&c));
    c.inc();
    assert!(!a.is_back_close(&c));
}

#[test]
fn indices_compare_by_slot() {
    let mut a = Index::new(5);
    let mut b = Index::new(9);
    assert!(a == b);
    b.inc();
    assert!(a != b);
    assert!(a < b);
    a.inc();
    a.inc();
    assert!(a > b);
}
