use entity_borrow::AtomicBorrow;

#[test]
fn fresh_counter_shared_acquires_all_succeed() {
    let mut c = AtomicBorrow::new();
    assert!(c.borrow());
    assert!(c.borrow());
    assert!(c.borrow());
    assert_eq!(c.shared_count(), 3);
    assert!(!c.exclusive_held());
}

#[test]
fn exclusive_acquire_fails_while_shared_and_leaves_count_unchanged() {
    let mut c = AtomicBorrow::new();
    assert!(c.borrow());
    assert!(c.borrow());
    assert!(!c.borrow_mut());
    assert_eq!(c.shared_count(), 2);
    assert!(!c.exclusive_held());
}

#[test]
fn exclusive_succeeds_exactly_once_from_zero() {
    let mut c = AtomicBorrow::new();
    assert!(c.borrow_mut());
    assert!(c.exclusive_held());
    assert!(!c.borrow_mut());
    assert!(!c.borrow());
    assert_eq!(c.shared_count(), 0);
    assert!(c.exclusive_held());
}

#[test]
fn release_exclusive_returns_counter_to_zero() {
    let mut c = AtomicBorrow::new();
    assert!(c.borrow_mut());
    c.release_mut();
    assert_eq!(c.shared_count(), 0);
    assert!(!c.exclusive_held());
    assert!(c.borrow());
    assert_eq!(c.shared_count(), 1);
}

#[test]
fn matching_releases_undo_matching_acquires() {
    let mut c = AtomicBorrow::new();
    assert!(c.borrow());
    c.release();
    assert_eq!(c.shared_count(), 0);
    assert!(!c.exclusive_held());
    assert!(c.borrow_mut());
    c.release_mut();
    assert_eq!(c.shared_count(), 0);
    assert!(!c.exclusive_held());
}

#[test]
fn many_shared_holders_then_full_release() {
    let mut c = AtomicBorrow::new();
    for _ in 0..100 {
        assert!(c.borrow());
    }
    assert_eq!(c.shared_count(), 100);
    assert!(!c.borrow_mut());
    for _ in 0..100 {
        c.release();
    }
    assert_eq!(c.shared_count(), 0);
    assert!(c.borrow_mut());
}
