use preemption::preemption::InterruptMask;
use preemption::preemption::PreemptControl;
use std::sync::atomic::AtomicU64;
use std::sync::atomic::Ordering;

#[test]
fn disable_then_enable_single_thread() {
    let ctl = PreemptControl::new();
    let irq = InterruptMask::new();
    let g = ctl.preempt_disable(irq, 1).ok().expect("a free lock is taken at once");
    assert!(g.is_masked());
    let irq = ctl.preempt_enable(g);
    assert!(!irq.is_masked());
    let again = ctl.preempt_disable(irq, 1);
    assert!(again.is_ok());
}

#[test]
fn zero_attempts_leave_interrupts_enabled() {
    let ctl = PreemptControl::new();
    let irq = ctl.preempt_disable(InterruptMask::new(), 0).err().unwrap();
    assert!(!irq.is_masked());
}

#[test]
fn second_core_waits_while_held() {
    let ctl = PreemptControl::new();
    let g = ctl.preempt_disable(InterruptMask::new(), 1).ok().unwrap();
    let b = ctl.preempt_disable(InterruptMask::new(), 100).err().unwrap();
    assert!(!b.is_masked());
    let a = ctl.preempt_enable(g);
    assert!(!a.is_masked());
    let h = ctl.preempt_disable(b, 1).ok().unwrap();
    assert!(h.is_masked());
}

#[test]
fn dropping_guard_releases_lock() {
    let ctl = PreemptControl::new();
    {
        let g = ctl.preempt_disable(InterruptMask::new(), 1).ok().unwrap();
        assert!(g.is_masked());
    }
    assert!(ctl.preempt_disable(InterruptMask::new(), 1).is_ok());
}

#[test]
fn eight_cores_count_to_eighty_thousand() {
    let ctl = PreemptControl::new();
    let mut masks: Vec<InterruptMask> = (0..8).map(|_| InterruptMask::new()).collect();
    let counter = AtomicU64::new(0);
    for _ in 0..10_000 {
        for c in 0..8 {
            let mine = masks.remove(c);
            let g = ctl.preempt_disable(mine, 1).ok().expect("the lock is free between sections");
            let other = masks.remove(0);
            let other = ctl.preempt_disable(other, 2).err().expect("a held lock is not taken");
            masks.insert(0, other);
            let v = counter.load(Ordering::Relaxed);
            counter.store(v + 1, Ordering::Relaxed);
            masks.insert(c, ctl.preempt_enable(g));
        }
    }
    assert_eq!(counter.load(Ordering::Relaxed), 80_000);
    assert_eq!(masks.len(), 8);
    assert!(masks.iter().all(|m| !m.is_masked()));
}

#[test]
fn guard_release_then_fresh_disable_after_failures() {
    let ctl = PreemptControl::new();
    let g = ctl.preempt_disable(InterruptMask::new(), 3).ok().unwrap();
    let waiting = ctl.preempt_disable(InterruptMask::new(), 3).err().unwrap();
    assert!(!waiting.is_masked());
    drop(g);
    let h = ctl.preempt_disable(waiting, 3).ok().unwrap();
    assert!(h.is_masked());
    let back = ctl.preempt_enable(h);
    assert!(!back.is_masked());
}
