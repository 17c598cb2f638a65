use preemption::machine::CoreState;
use preemption::machine::Event;
use preemption::machine::Machine;
use preemption::machine::Phase;

#[test]
fn simulated_single_cycle_leaves_flag_free() {
    let mut m = Machine::new(1);
    assert!(m.begin_disable(0));
    assert!(m.core_state(0).masked);
    assert!(m.try_acquire(0));
    assert_eq!(m.flag(), 1);
    assert!(m.increment(0));
    assert!(m.release(0));
    assert_eq!(m.flag(), 0);
    assert_eq!(m.core_state(0), CoreState { phase: Phase::Idle, masked: false });
    assert_eq!(m.counter(), 1);
}

#[test]
fn simulated_second_core_cannot_enter() {
    let mut m = Machine::new(2);
    assert!(m.begin_disable(0));
    assert!(m.begin_disable(1));
    assert!(m.try_acquire(0));
    assert!(!m.try_acquire(1));
    assert_eq!(m.core_state(1).phase, Phase::Entering);
    assert!(m.release(0));
    assert!(m.try_acquire(1));
    assert_eq!(m.core_state(1).phase, Phase::Critical);
    assert_eq!(m.flag(), 1);
}

#[test]
fn simulated_second_release_changes_nothing() {
    let mut m = Machine::new(2);
    m.begin_disable(0);
    m.try_acquire(0);
    assert!(m.release(0));
    assert_eq!(m.flag(), 0);
    assert!(!m.release(0));
    assert!(!m.release(1));
    assert_eq!(m.flag(), 0);
}

#[test]
fn simulated_mask_follows_phase() {
    let mut m = Machine::new(1);
    assert!(!m.core_state(0).masked);
    m.begin_disable(0);
    assert!(m.core_state(0).masked);
    m.try_acquire(0);
    assert!(m.core_state(0).masked);
    m.release(0);
    assert_eq!(m.core_state(0), CoreState { phase: Phase::Idle, masked: false });
    m.begin_disable(0);
    assert!(m.give_up(0));
    assert_eq!(m.core_state(0), CoreState { phase: Phase::Idle, masked: false });
}

#[test]
fn simulated_out_of_order_steps_are_refused() {
    let mut m = Machine::new(1);
    assert!(!m.try_acquire(0));
    assert!(!m.release(0));
    assert!(!m.give_up(0));
    assert!(!m.increment(0));
    assert!(m.begin_disable(0));
    assert!(!m.begin_disable(0));
    assert!(!m.step(5, Event::BeginDisable));
    assert_eq!(m.counter(), 0);
}

#[test]
fn simulated_eight_cores_count_to_eighty_thousand() {
    let n: usize = 8;
    let mut m = Machine::new(n);
    let order = [Event::BeginDisable, Event::Acquire, Event::Increment, Event::Release];
    let mut pos = vec![0usize; n];
    let mut done = vec![0u32; n];
    while done.iter().any(|d| *d < 10_000) {
        for c in 0..n {
            if done[c] == 10_000 {
                continue;
            }
            let applied = m.step(c, order[pos[c]]);
            if applied {
                pos[c] += 1;
                if pos[c] == order.len() {
                    pos[c] = 0;
                    done[c] += 1;
                }
            }
            let holders = (0..m.num_cores()).filter(|i| m.core_state(*i).phase == Phase::Critical).count();
            assert!(holders <= 1);
        }
    }
    assert_eq!(m.counter(), 80_000);
    assert_eq!(m.flag(), 0);
}
