use vstd::prelude::*;
use crate::spinlock::Attempt;
use crate::spinlock::attempt_spec;
use crate::spinlock::classify_attempt;

verus! {

/// Where one core stands in a critical-section cycle.
#[derive(PartialEq, Eq, Structural, Clone, Copy, Debug)]
pub enum Phase {
    /// Interrupts enabled, no claim on the lock.
    Idle,
    /// Interrupts masked, waiting for the lock.
    Entering,
    /// Interrupts masked, lock held: a guard is outstanding.
    Critical,
}

/// One thing a core can do to the system.
#[derive(PartialEq, Eq, Structural, Clone, Copy, Debug)]
pub enum Event {
    BeginDisable,
    Acquire,
    GiveUp,
    Release,
    Increment,
}

/// The core-local state: its phase and its interrupt mask.
#[derive(PartialEq, Eq, Structural, Clone, Copy, Debug)]
pub struct CoreState {
    pub phase: Phase,
    pub masked: bool,
}

/// The whole system as a value: the shared lock flag, every core, and a
/// counter that is only ever changed from inside the critical section.
pub ghost struct MachineView {
    pub flag: u32,
    pub cores: Seq<CoreState>,
    pub counter: u64,
}

pub open spec fn critical(c: CoreState) -> bool {
    c.phase == Phase::Critical
}

impl MachineView {
    /// The system invariant: the flag is `0` or `1`, it is `1` exactly when
    /// some core is in its critical section, at most one core is, and each
    /// core's interrupts are masked exactly when it is not idle.
    pub open spec fn wf(self) -> bool {
        &&& self.flag <= 1
        &&& (self.flag == 1 <==> exists|i: int| 0 <= i < self.cores.len() && critical(#[trigger] self.cores[i]))
        &&& forall|i: int, j: int|
            0 <= i < self.cores.len() && 0 <= j < self.cores.len() && critical(#[trigger] self.cores[i])
                && critical(#[trigger] self.cores[j]) ==> i == j
        &&& forall|i: int| 0 <= i < self.cores.len() ==> (#[trigger] self.cores[i]).masked == (self.cores[i].phase != Phase::Idle)
    }

    pub open spec fn with_core(self, c: int, s: CoreState) -> MachineView {
        MachineView { cores: self.cores.update(c, s), ..self }
    }

    /// `disable` starts on core `c`: it masks its interrupts.
    pub open spec fn begin_disable(self, c: int) -> MachineView {
        if self.cores[c].phase == Phase::Idle {
            self.with_core(c, CoreState { phase: Phase::Entering, masked: true })
        } else {
            self
        }
    }

    /// Core `c` makes one exclusive attempt on the flag.
    pub open spec fn acquire(self, c: int) -> MachineView {
        if self.cores[c].phase == Phase::Entering && attempt_spec(self.flag, Some(self.flag))
            == Attempt::Acquired {
            MachineView { flag: 1, ..self.with_core(c, CoreState { phase: Phase::Critical, masked: true }) }
        } else {
            self
        }
    }

    /// Core `c`'s guard is released: the flag goes back to `0` and the
    /// core's interrupts are unmasked.
    pub open spec fn release(self, c: int) -> MachineView {
        if self.cores[c].phase == Phase::Critical {
            MachineView { flag: 0, ..self.with_core(c, CoreState { phase: Phase::Idle, masked: false }) }
        } else {
            self
        }
    }

    /// A `disable` on core `c` that stops waiting: its interrupts are
    /// unmasked again, with no claim on the lock.
    pub open spec fn give_up(self, c: int) -> MachineView {
        if self.cores[c].phase == Phase::Entering {
            self.with_core(c, CoreState { phase: Phase::Idle, masked: false })
        } else {
            self
        }
    }

    /// Core `c` increments the shared counter, which only the holder may do.
    pub open spec fn increment(self, c: int) -> MachineView {
        if self.cores[c].phase == Phase::Critical && self.counter < u64::MAX {
            MachineView { counter: (self.counter + 1) as u64, ..self }
        } else {
            self
        }
    }
    /// Core `c` takes the step `e`; a core outside the system changes nothing.
    pub open spec fn step(self, c: int, e: Event) -> MachineView {
        if 0 <= c < self.cores.len() {
            match e {
                Event::BeginDisable => self.begin_disable(c),
                Event::Acquire => self.acquire(c),
                Event::GiveUp => self.give_up(c),
                Event::Release => self.release(c),
                Event::Increment => self.increment(c),
            }
        } else {
            self
        }
    }

    /// The state after the steps of `trace`, taken in order, interleaved
    /// among the cores in whatever way the trace says.
    pub open spec fn run(self, trace: Seq<(int, Event)>) -> MachineView
        decreases trace.len(),
    {
        if trace.len() == 0 {
            self
        } else {
            self.run(trace.drop_last()).step(trace.last().0, trace.last().1)
        }
    }
}

/// `n` idle cores, the flag free and the counter at zero.
pub open spec fn initial(n: nat) -> MachineView {
    MachineView {
        flag: 0,
        cores: Seq::new(n, |i: int| CoreState { phase: Phase::Idle, masked: false }),
        counter: 0,
    }
}

/// Replacing core `c`'s state by another that is not critical, where `c` was
/// not critical either, keeps the invariant as long as `s` masks exactly
/// when it is not idle.
proof fn lemma_swap_noncritical(v: MachineView, c: int, s: CoreState)
    requires
        v.wf(),
        0 <= c < v.cores.len(),
        !critical(v.cores[c]),
        !critical(s),
        s.masked == (s.phase != Phase::Idle),
    ensures
        v.with_core(c, s).wf(),
{
    let w = v.with_core(c, s);
    if v.flag == 1 {
        let k = choose|i: int| 0 <= i < v.cores.len() && critical(#[trigger] v.cores[i]);
        assert(critical(w.cores[k]));
    }
    if exists|i: int| 0 <= i < w.cores.len() && critical(#[trigger] w.cores[i]) {
        let k = choose|i: int| 0 <= i < w.cores.len() && critical(#[trigger] w.cores[i]);
        assert(critical(v.cores[k]));
    }
}

/// Each step of any core keeps the system invariant.
pub proof fn lemma_step_keeps_wf(v: MachineView, c: int)
    requires
        v.wf(),
        0 <= c < v.cores.len(),
    ensures
        v.begin_disable(c).wf(),
        v.acquire(c).wf(),
        v.release(c).wf(),
        v.give_up(c).wf(),
        v.increment(c).wf(),
{
    if v.cores[c].phase == Phase::Idle {
        lemma_swap_noncritical(v, c, CoreState { phase: Phase::Entering, masked: true });
    }
    if v.cores[c].phase == Phase::Entering {
        lemma_swap_noncritical(v, c, CoreState { phase: Phase::Idle, masked: false });
    }
    if v.cores[c].phase == Phase::Entering && v.flag == 0 {
        let w = v.acquire(c);
        assert(critical(w.cores[c]));
        assert forall|i: int| 0 <= i < w.cores.len() && critical(#[trigger] w.cores[i]) implies i == c by {
            if i != c {
                assert(critical(v.cores[i]));
            }
        }
    }
    if v.cores[c].phase == Phase::Critical {
        let w = v.release(c);
        assert forall|i: int| 0 <= i < w.cores.len() implies !critical(#[trigger] w.cores[i]) by {
            if i != c {
                assert(!critical(v.cores[i]) || i == c);
            }
        }
    }
}

/// Every state that any interleaving of steps reaches from the initial
/// state satisfies the system invariant.
pub proof fn lemma_run_keeps_wf(n: nat, trace: Seq<(int, Event)>)
    ensures
        initial(n).run(trace).wf(),
    decreases trace.len(),
{
    if trace.len() > 0 {
        lemma_run_keeps_wf(n, trace.drop_last());
        let v = initial(n).run(trace.drop_last());
        let c = trace.last().0;
        if 0 <= c < v.cores.len() {
            lemma_step_keeps_wf(v, c);
        }
    }
}

/// Mutual exclusion: whatever the interleaving of the cores' steps, no two
/// distinct cores are ever in their critical sections at once.
pub proof fn lemma_mutual_exclusion(n: nat, trace: Seq<(int, Event)>, i: int, j: int)
    requires
        0 <= i < n,
        0 <= j < n,
        i != j,
    ensures
        !(critical(initial(n).run(trace).cores[i]) && critical(initial(n).run(trace).cores[j])),
{
    lemma_run_keeps_wf(n, trace);
    lemma_run_keeps_len(n, trace);
}

/// Steps never add or remove cores.
pub proof fn lemma_run_keeps_len(n: nat, trace: Seq<(int, Event)>)
    ensures
        initial(n).run(trace).cores.len() == n,
    decreases trace.len(),
{
    if trace.len() > 0 {
        lemma_run_keeps_len(n, trace.drop_last());
    }
}

/// Interrupt-mask symmetry: in every reachable state a core's interrupts
/// are masked exactly while a `disable` on it waits for the lock or a guard
/// of it is outstanding; so, whenever no `disable` is in progress on it,
/// exactly when it holds a guard.
pub proof fn lemma_mask_symmetry(n: nat, trace: Seq<(int, Event)>, c: int)
    requires
        0 <= c < n,
    ensures
        initial(n).run(trace).cores[c].masked == (initial(n).run(trace).cores[c].phase == Phase::Entering
            || critical(initial(n).run(trace).cores[c])),
        initial(n).run(trace).cores[c].phase != Phase::Entering
            ==> (initial(n).run(trace).cores[c].masked == critical(initial(n).run(trace).cores[c])),
{
    lemma_run_keeps_wf(n, trace);
    lemma_run_keeps_len(n, trace);
}

/// Release exactly once: releasing a held guard takes the flag from `1` to
/// `0`, and a second release changes nothing, so the flag stays `0` or `1`.
pub proof fn lemma_release_once(v: MachineView, c: int)
    requires
        v.wf(),
        0 <= c < v.cores.len(),
        critical(v.cores[c]),
    ensures
        v.flag == 1,
        v.release(c).flag == 0,
        v.release(c).release(c) == v.release(c),
        v.release(c).release(c).flag <= 1,
{
}

/// A core waiting for the lock gets it on its next attempt once no core
/// holds it; and a holder's release leaves no core holding it.
pub proof fn lemma_acquire_when_free(v: MachineView, c: int)
    requires
        v.wf(),
        0 <= c < v.cores.len(),
        v.cores[c].phase == Phase::Entering,
    ensures
        (forall|i: int| 0 <= i < v.cores.len() ==> !critical(#[trigger] v.cores[i]))
            ==> critical(v.acquire(c).cores[c]),
        forall|h: int| 0 <= h < v.cores.len() && critical(#[trigger] v.cores[h])
            ==> critical(v.release(h).acquire(c).cores[c]),
{
    assert forall|h: int| 0 <= h < v.cores.len() && critical(#[trigger] v.cores[h])
        implies critical(v.release(h).acquire(c).cores[c]) by {
        assert(h != c);
        assert(v.release(h).cores[c] == v.cores[c]);
    }
}

/// A complete cycle on a core while no core holds the lock (`disable`,
/// one increment, release of the guard) adds exactly one to the counter and
/// otherwise leaves the system as it was: the flag free, the core idle with
/// its interrupts enabled.
pub proof fn lemma_full_cycle(v: MachineView, c: int)
    requires
        v.wf(),
        0 <= c < v.cores.len(),
        v.cores[c].phase == Phase::Idle,
        forall|i: int| 0 <= i < v.cores.len() ==> !critical(#[trigger] v.cores[i]),
        v.counter < u64::MAX,
    ensures
        v.begin_disable(c).acquire(c).increment(c).release(c)
            == (MachineView { counter: (v.counter + 1) as u64, ..v }),
{
    let w = v.begin_disable(c).acquire(c).increment(c).release(c);
    assert(v.flag == 0);
    assert(w.cores =~= v.cores);
}

/// A software simulation of the lock and of each core's interrupt mask,
/// driven one step at a time.
pub struct Machine {
    flag: u32,
    cores: Vec<CoreState>,
    counter: u64,
}

impl View for Machine {
    type V = MachineView;

    closed spec fn view(&self) -> MachineView {
        MachineView { flag: self.flag, cores: self.cores@, counter: self.counter }
    }
}

impl Machine {
    /// `n` idle cores, the flag free and the counter at zero.
    pub fn new(n: usize) -> (r: Machine)
        ensures
            r@ == initial(n as nat),
            r@.wf(),
    {
        let mut cores: Vec<CoreState> = Vec::new();
        let mut k: usize = 0;
        while k < n
            invariant
                k <= n,
                cores@.len() == k,
                forall|i: int| 0 <= i < k ==> (#[trigger] cores@[i]) == (CoreState { phase: Phase::Idle, masked: false }),
            decreases n - k,
        {
            cores.push(CoreState { phase: Phase::Idle, masked: false });
            k = k + 1;
        }
        let r = Machine { flag: 0, cores, counter: 0 };
        assert(r@.cores =~= initial(n as nat).cores);
        proof {
            lemma_run_keeps_wf(n as nat, Seq::empty());
        }
        r
    }

    pub fn flag(&self) -> (r: u32)
        ensures
            r == self@.flag,
    {
        self.flag
    }

    pub fn counter(&self) -> (r: u64)
        ensures
            r == self@.counter,
    {
        self.counter
    }

    pub fn num_cores(&self) -> (r: usize)
        ensures
            r == self@.cores.len(),
    {
        self.cores.len()
    }

    pub fn core_state(&self, c: usize) -> (r: CoreState)
        requires
            c < self@.cores.len(),
        ensures
            r == self@.cores[c as int],
    {
        self.cores[c]
    }

    /// Starts `disable` on core `c`: masks its interrupts. Returns whether
    /// the core was idle, and so whether the step applied.
    pub fn begin_disable(&mut self, c: usize) -> (r: bool)
        requires
            old(self)@.wf(),
            c < old(self)@.cores.len(),
        ensures
            final(self)@ == old(self)@.begin_disable(c as int),
            final(self)@.wf(),
            r == (old(self)@.cores[c as int].phase == Phase::Idle),
    {
        proof {
            lemma_step_keeps_wf(self@, c as int);
        }
        if self.cores[c].phase == Phase::Idle {
            self.cores.set(c, CoreState { phase: Phase::Entering, masked: true });
            assert(self@ =~= old(self)@.begin_disable(c as int));
            true
        } else {
            false
        }
    }

    /// One exclusive attempt of core `c` on the lock flag. In this
    /// simulation the conditional store always finds what the load saw.
    /// Returns whether the core now holds the lock.
    pub fn try_acquire(&mut self, c: usize) -> (r: bool)
        requires
            old(self)@.wf(),
            c < old(self)@.cores.len(),
        ensures
            final(self)@ == old(self)@.acquire(c as int),
            final(self)@.wf(),
            r == (old(self)@.cores[c as int].phase == Phase::Entering && old(self)@.flag == 0),
    {
        proof {
            lemma_step_keeps_wf(self@, c as int);
        }
        if self.cores[c].phase != Phase::Entering {
            return false;
        }
        let flag = self.flag;
        if classify_attempt(flag, Some(flag)) == Attempt::Acquired {
            self.flag = 1;
            self.cores.set(c, CoreState { phase: Phase::Critical, masked: true });
            assert(self@ =~= old(self)@.acquire(c as int));
            true
        } else {
            false
        }
    }

    /// Releases core `c`'s guard: the flag goes from `1` to `0` and the
    /// core's interrupts are unmasked. On a core that holds no guard nothing
    /// changes. Returns whether it held one.
    pub fn release(&mut self, c: usize) -> (r: bool)
        requires
            old(self)@.wf(),
            c < old(self)@.cores.len(),
        ensures
            final(self)@ == old(self)@.release(c as int),
            final(self)@.wf(),
            r == (old(self)@.cores[c as int].phase == Phase::Critical),
            r ==> old(self)@.flag == 1 && final(self)@.flag == 0 && !final(self)@.cores[c as int].masked,
    {
        proof {
            lemma_step_keeps_wf(self@, c as int);
        }
        if self.cores[c].phase == Phase::Critical {
            self.flag = 0;
            self.cores.set(c, CoreState { phase: Phase::Idle, masked: false });
            assert(self@ =~= old(self)@.release(c as int));
            true
        } else {
            false
        }
    }

    /// Stops a waiting `disable` on core `c`: unmasks its interrupts.
    /// Returns whether the core was waiting, and so whether it applied.
    pub fn give_up(&mut self, c: usize) -> (r: bool)
        requires
            old(self)@.wf(),
            c < old(self)@.cores.len(),
        ensures
            final(self)@ == old(self)@.give_up(c as int),
            final(self)@.wf(),
            r == (old(self)@.cores[c as int].phase == Phase::Entering),
    {
        proof {
            lemma_step_keeps_wf(self@, c as int);
        }
        if self.cores[c].phase == Phase::Entering {
            self.cores.set(c, CoreState { phase: Phase::Idle, masked: false });
            assert(self@ =~= old(self)@.give_up(c as int));
            true
        } else {
            false
        }
    }

    /// Core `c` adds one to the shared counter, if it holds the lock and the
    /// counter has room. Returns whether it did.
    pub fn increment(&mut self, c: usize) -> (r: bool)
        requires
            old(self)@.wf(),
            c < old(self)@.cores.len(),
        ensures
            final(self)@ == old(self)@.increment(c as int),
            final(self)@.wf(),
            r == (old(self)@.cores[c as int].phase == Phase::Critical && old(self)@.counter < u64::MAX),
    {
        proof {
            lemma_step_keeps_wf(self@, c as int);
        }
        if self.cores[c].phase == Phase::Critical && self.counter < u64::MAX {
            self.counter = self.counter + 1;
            true
        } else {
            false
        }
    }
    /// Core `c` takes the step `e`. Returns whether the step applied; a core
    /// outside the system changes nothing.
    pub fn step(&mut self, c: usize, e: Event) -> (r: bool)
        requires
            old(self)@.wf(),
        ensures
            final(self)@ == old(self)@.step(c as int, e),
            final(self)@.wf(),
            r == (final(self)@ != old(self)@),
    {
        if c >= self.cores.len() {
            return false;
        }
        match e {
            Event::BeginDisable => self.begin_disable(c),
            Event::Acquire => self.try_acquire(c),
            Event::GiveUp => self.give_up(c),
            Event::Release => self.release(c),
            Event::Increment => self.increment(c),
        }
    }
}

} // verus!
