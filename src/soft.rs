use vstd::prelude::*;
use crate::spinlock::Attempt;
use crate::spinlock::attempt_spec;
use crate::spinlock::classify_attempt;
use crate::preemption::Op;

verus! {

/// `n` attempts that each found the flag held.
pub open spec fn busy_attempts(n: nat) -> Seq<Op> {
    Seq::new(n, |i: int| Op::Attempt(Attempt::Busy))
}

/// What a software backend holds: the lock flag, one core's interrupt mask,
/// and the operations made on them so far.
pub ghost struct SoftView {
    pub flag: u32,
    pub masked: bool,
    pub log: Seq<Op>,
}

/// A software backend for the lock and preemption algorithm: the flag is a
/// plain value and the interrupt mask a plain flag of one core, so that
/// every step can be stated exactly.
pub struct SoftBackend {
    flag: u32,
    masked: bool,
    log: Ghost<Seq<Op>>,
}

impl View for SoftBackend {
    type V = SoftView;

    closed spec fn view(&self) -> SoftView {
        SoftView { flag: self.flag, masked: self.masked, log: self.log@ }
    }
}

impl SoftBackend {
    /// The flag free, interrupts enabled, nothing done yet.
    pub fn new() -> (r: SoftBackend)
        ensures
            r@ == (SoftView { flag: 0, masked: false, log: Seq::empty() }),
    {
        SoftBackend { flag: 0, masked: false, log: Ghost(Seq::empty()) }
    }

    pub fn flag(&self) -> (r: u32)
        ensures
            r == self@.flag,
    {
        self.flag
    }

    pub fn is_masked(&self) -> (r: bool)
        ensures
            r == self@.masked,
    {
        self.masked
    }

    fn mask_interrupts(&mut self)
        ensures
            final(self)@ == (SoftView { masked: true, log: old(self)@.log.push(Op::Mask), ..old(self)@ }),
    {
        self.masked = true;
        self.log = Ghost(self.log@.push(Op::Mask));
    }

    fn unmask_interrupts(&mut self)
        ensures
            final(self)@ == (SoftView { masked: false, log: old(self)@.log.push(Op::Unmask), ..old(self)@ }),
    {
        self.masked = false;
        self.log = Ghost(self.log@.push(Op::Unmask));
    }

    /// One exclusive attempt: load the flag and, if it is free, store `1`.
    pub fn try_lock(&mut self) -> (r: Attempt)
        ensures
            r == attempt_spec(old(self)@.flag, Some(old(self)@.flag)),
            final(self)@ == (SoftView {
                flag: if r == Attempt::Acquired { 1 } else { old(self)@.flag },
                log: old(self)@.log.push(Op::Attempt(r)),
                ..old(self)@
            }),
    {
        let loaded = self.flag;
        let r = if loaded != 0 {
            classify_attempt(loaded, None)
        } else {
            let found = self.flag;
            if found == 0 {
                self.flag = 1;
            }
            classify_attempt(loaded, Some(found))
        };
        self.log = Ghost(self.log@.push(Op::Attempt(r)));
        r
    }

    /// Up to `max_attempts` attempts. It succeeds exactly when there is an
    /// attempt to make and the flag is free; else every attempt finds it held.
    pub fn lock(&mut self, max_attempts: u64) -> (r: bool)
        ensures
            r == (max_attempts > 0 && old(self)@.flag == 0),
            final(self)@.masked == old(self)@.masked,
            final(self)@.flag == if r { 1 } else { old(self)@.flag },
            r ==> final(self)@.log == old(self)@.log.push(Op::Attempt(Attempt::Acquired)),
            !r ==> final(self)@.log == old(self)@.log + busy_attempts(max_attempts as nat),
    {
        let mut n: u64 = 0;
        while n < max_attempts
            invariant
                n <= max_attempts,
                self@.masked == old(self)@.masked,
                self@.flag == old(self)@.flag,
                n > 0 ==> old(self)@.flag != 0,
                self@.log == old(self)@.log + busy_attempts(n as nat),
            decreases max_attempts - n,
        {
            let a = self.try_lock();
            if a == Attempt::Acquired {
                assert(busy_attempts(0) =~= Seq::empty());
                assert(self@.log =~= old(self)@.log.push(Op::Attempt(Attempt::Acquired)));
                return true;
            }
            assert(busy_attempts((n + 1) as nat) =~= busy_attempts(n as nat).push(Op::Attempt(Attempt::Busy)));
            assert(self@.log =~= old(self)@.log + busy_attempts((n + 1) as nat));
            n = n + 1;
        }
        assert(max_attempts == 0 ==> self@.log =~= old(self)@.log + busy_attempts(0));
        false
    }

    /// Releases the lock with a plain store of `0`.
    pub fn unlock(&mut self)
        ensures
            final(self)@ == (SoftView { flag: 0, log: old(self)@.log.push(Op::Release), ..old(self)@ }),
    {
        self.flag = 0;
        self.log = Ghost(self.log@.push(Op::Release));
    }

    /// Masks interrupts, then makes up to `max_attempts` attempts on the
    /// lock. On success the core stays masked and holds the lock; otherwise
    /// it is unmasked again and the flag is as it was. The mask comes first.
    pub fn preempt_disable(&mut self, max_attempts: u64) -> (r: bool)
        requires
            !old(self)@.masked,
        ensures
            r == (max_attempts > 0 && old(self)@.flag == 0),
            final(self)@.masked == r,
            final(self)@.flag == if r { 1 } else { old(self)@.flag },
            r ==> final(self)@.log == old(self)@.log.push(Op::Mask).push(Op::Attempt(Attempt::Acquired)),
            !r ==> final(self)@.log == (old(self)@.log.push(Op::Mask) + busy_attempts(max_attempts as nat)).push(
                Op::Unmask,
            ),
    {
        self.mask_interrupts();
        if self.lock(max_attempts) {
            true
        } else {
            self.unmask_interrupts();
            false
        }
    }

    /// Releases the guard: the lock is freed and the interrupts unmasked.
    pub fn preempt_enable(&mut self)
        ensures
            final(self)@ == (SoftView {
                flag: 0,
                masked: false,
                log: old(self)@.log.push(Op::Release).push(Op::Unmask),
            }),
    {
        self.unlock();
        self.unmask_interrupts();
    }
}

} // verus!
