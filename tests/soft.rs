use preemption::soft::SoftBackend;
use preemption::spinlock::Attempt;

#[test]
fn soft_new_is_free_and_unmasked() {
    let b = SoftBackend::new();
    assert_eq!(b.flag(), 0);
    assert!(!b.is_masked());
}

#[test]
fn soft_disable_then_enable_leaves_flag_free() {
    let mut b = SoftBackend::new();
    assert!(b.preempt_disable(1));
    assert!(b.is_masked());
    assert_eq!(b.flag(), 1);
    b.preempt_enable();
    assert_eq!(b.flag(), 0);
    assert!(!b.is_masked());
}

#[test]
fn soft_disable_on_held_flag_gives_up_unmasked() {
    let mut b = SoftBackend::new();
    assert!(b.lock(1));
    assert!(!b.preempt_disable(10));
    assert!(!b.is_masked());
    assert_eq!(b.flag(), 1);
}

#[test]
fn soft_zero_attempts_fail() {
    let mut b = SoftBackend::new();
    assert!(!b.preempt_disable(0));
    assert!(!b.is_masked());
    assert_eq!(b.flag(), 0);
}

#[test]
fn soft_second_release_keeps_flag_free() {
    let mut b = SoftBackend::new();
    assert!(b.lock(3));
    b.unlock();
    assert_eq!(b.flag(), 0);
    b.unlock();
    assert_eq!(b.flag(), 0);
}

#[test]
fn soft_attempts_follow_the_flag() {
    let mut b = SoftBackend::new();
    assert_eq!(b.try_lock(), Attempt::Acquired);
    assert_eq!(b.flag(), 1);
    assert_eq!(b.try_lock(), Attempt::Busy);
    assert_eq!(b.flag(), 1);
}
