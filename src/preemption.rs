use vstd::prelude::*;
use crate::spinlock::Attempt;
use crate::spinlock::Spinlock;
use crate::spinlock::spin_hint;

verus! {

/// One primitive operation on a core, in the order it was made.
#[derive(PartialEq, Eq, Structural, Clone, Copy, Debug)]
pub enum Op {
    Mask,
    Unmask,
    Attempt(Attempt),
    Release,
}

/// Every operation of `s` is an attempt on the lock that did not take it.
pub open spec fn all_failed(s: Seq<Op>) -> bool {
    forall|i: int|
        0 <= i < s.len() ==> (#[trigger] s[i]) == Op::Attempt(Attempt::Busy) || s[i] == Op::Attempt(Attempt::Lost)
}

/// The operations a `disable` adds after `before`: the mask first, then the
/// attempts that failed, then `last`.
pub open spec fn disable_ops(before: Seq<Op>, failed: Seq<Op>, last: Op) -> Seq<Op> {
    (before.push(Op::Mask) + failed).push(last)
}

/// The interrupt mask of one core, kept as a flag: `true` while ordinary
/// and fast interrupts are masked on that core.
pub struct InterruptMask {
    masked: bool,
    log: Ghost<Seq<Op>>,
}

impl View for InterruptMask {
    type V = bool;

    closed spec fn view(&self) -> bool {
        self.masked
    }
}

impl InterruptMask {
    /// The operations made on this core so far, oldest first.
    pub closed spec fn ops(&self) -> Seq<Op> {
        self.log@
    }

    /// A core with its interrupts enabled and nothing done on it yet.
    pub fn new() -> (r: InterruptMask)
        ensures
            !r@,
            r.ops() == Seq::<Op>::empty(),
    {
        InterruptMask { masked: false, log: Ghost(Seq::empty()) }
    }

    pub fn is_masked(&self) -> (r: bool)
        ensures
            r == self@,
    {
        self.masked
    }

    /// Masks ordinary and fast interrupts on this core.
    fn mask_interrupts(&mut self)
        ensures
            final(self)@,
            final(self).ops() == old(self).ops().push(Op::Mask),
    {
        self.masked = true;
        self.log = Ghost(self.log@.push(Op::Mask));
    }

    /// Notes an attempt on the lock made from this core.
    fn record(&mut self, a: Attempt)
        ensures
            final(self)@ == old(self)@,
            final(self).ops() == old(self).ops().push(Op::Attempt(a)),
    {
        self.log = Ghost(self.log@.push(Op::Attempt(a)));
    }

    /// Unmasks ordinary and fast interrupts on this core.
    fn unmask_interrupts(&mut self)
        ensures
            !final(self)@,
            final(self).ops() == old(self).ops().push(Op::Unmask),
        opens_invariants none
        no_unwind
    {
        self.masked = false;
        self.log = Ghost(self.log@.push(Op::Unmask));
    }
}

/// Makes a critical section atomic with respect to both local interrupts
/// and the other cores: local masking combined with one shared spinlock.
pub struct PreemptControl {
    spinlock: Spinlock,
}

/// The token of a held lock. It holds the core's interrupt mask, masked,
/// for as long as it lives; dropping it releases the lock and unmasks the
/// interrupts, once.
pub struct PreemptGuard<'a> {
    spinlock: &'a Spinlock,
    irq: InterruptMask,
}

impl<'a> View for PreemptGuard<'a> {
    type V = bool;

    /// Whether the interrupts of the guard's core are masked.
    closed spec fn view(&self) -> bool {
        self.irq@
    }
}

impl<'a> PreemptGuard<'a> {
    /// The operations made on the guard's core so far, oldest first.
    pub closed spec fn ops(&self) -> Seq<Op> {
        self.irq.ops()
    }

    pub fn is_masked(&self) -> (r: bool)
        ensures
            r == self@,
    {
        self.irq.is_masked()
    }
}

impl<'a> Drop for PreemptGuard<'a> {
    fn drop(&mut self)
        ensures
            !final(self)@,
            final(self).ops() == old(self).ops().push(Op::Unmask),
        opens_invariants none
        no_unwind
    {
        self.spinlock.unlock();
        self.irq.unmask_interrupts();
    }
}

impl PreemptControl {
    /// A control whose lock starts free.
    pub fn new() -> (r: PreemptControl) {
        PreemptControl { spinlock: Spinlock::new() }
    }

    /// Masks the interrupts of the core that `irq` stands for, then makes up
    /// to `max_attempts` exclusive attempts on the lock, with a spin hint
    /// between them, all while masked. On success the guard, which now holds
    /// the masked core, is returned; otherwise the interrupts are unmasked
    /// again and the core is handed back.
    pub fn preempt_disable(&self, irq: InterruptMask, max_attempts: u64) -> (r: Result<PreemptGuard<'_>, InterruptMask>)
        ensures
            r matches Ok(g) ==> g@ && exists|f: Seq<Op>|
                all_failed(f) && f.len() < max_attempts && g.ops() == #[trigger] disable_ops(
                    irq.ops(),
                    f,
                    Op::Attempt(Attempt::Acquired),
                ),
            r matches Err(m) ==> !m@ && exists|f: Seq<Op>|
                all_failed(f) && f.len() == max_attempts && m.ops() == #[trigger] disable_ops(
                    irq.ops(),
                    f,
                    Op::Unmask,
                ),
            max_attempts == 0 ==> r is Err,
    {
        let ghost before = irq.ops();
        let mut cur = irq;
        cur.mask_interrupts();
        let ghost mut failed: Seq<Op> = Seq::empty();
        assert(cur.ops() =~= before.push(Op::Mask) + failed);
        let mut n: u64 = 0;
        while n < max_attempts
            invariant
                n <= max_attempts,
                before == irq.ops(),
                cur@,
                failed.len() == n,
                all_failed(failed),
                cur.ops() == before.push(Op::Mask) + failed,
            decreases max_attempts - n,
        {
            let a = self.spinlock.try_lock();
            cur.record(a);
            if a == Attempt::Acquired {
                assert(cur.ops() =~= disable_ops(before, failed, Op::Attempt(Attempt::Acquired)));
                return Ok(PreemptGuard { spinlock: &self.spinlock, irq: cur });
            }
            proof {
                failed = failed.push(Op::Attempt(a));
            }
            assert(cur.ops() =~= before.push(Op::Mask) + failed);
            spin_hint();
            n = n + 1;
        }
        cur.unmask_interrupts();
        assert(cur.ops() =~= disable_ops(before, failed, Op::Unmask));
        Err(cur)
    }

    /// Unmasks the interrupts of the guard's core, then releases the lock as
    /// the guard is dropped, and hands the core back.
    pub fn preempt_enable(&self, guard: PreemptGuard<'_>) -> (m: InterruptMask)
        ensures
            !m@,
            m.ops() == guard.ops().push(Op::Unmask),
    {
        let mut guard = guard;
        let mut m = InterruptMask::new();
        std::mem::swap(&mut m, &mut guard.irq);
        m.unmask_interrupts();
        m
    }
}

} // verus!
