use preemption::spinlock::classify_attempt;
use preemption::spinlock::Attempt;
use preemption::spinlock::Spinlock;

#[test]
fn new_lock_is_free() {
    let l = Spinlock::new();
    assert_eq!(l.try_lock(), Attempt::Acquired);
}

#[test]
fn held_lock_is_busy() {
    let l = Spinlock::new();
    assert_eq!(l.try_lock(), Attempt::Acquired);
    assert_eq!(l.try_lock(), Attempt::Busy);
}

#[test]
fn unlock_frees_the_flag() {
    let l = Spinlock::new();
    assert!(l.lock(1));
    l.unlock();
    assert_eq!(l.try_lock(), Attempt::Acquired);
}

#[test]
fn lock_with_no_attempts_fails() {
    let l = Spinlock::new();
    assert!(!l.lock(0));
    assert_eq!(l.try_lock(), Attempt::Acquired);
}

#[test]
fn lock_on_held_flag_gives_up() {
    let l = Spinlock::new();
    assert!(l.lock(3));
    assert!(!l.lock(50));
    l.unlock();
    assert!(l.lock(3));
}

#[test]
fn second_unlock_keeps_flag_free() {
    let l = Spinlock::new();
    assert!(l.lock(1));
    l.unlock();
    l.unlock();
    assert_eq!(l.try_lock(), Attempt::Acquired);
    assert_eq!(l.try_lock(), Attempt::Busy);
}

#[test]
fn attempt_outcomes() {
    assert_eq!(classify_attempt(1, None), Attempt::Busy);
    assert_eq!(classify_attempt(1, Some(0)), Attempt::Busy);
    assert_eq!(classify_attempt(0, Some(0)), Attempt::Acquired);
    assert_eq!(classify_attempt(0, Some(1)), Attempt::Lost);
    assert_eq!(classify_attempt(0, None), Attempt::Lost);
}
