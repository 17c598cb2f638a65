use std::sync::atomic::AtomicU32;
use std::sync::atomic::Ordering;
use vstd::prelude::*;

verus! {

/// What one exclusive load / store attempt on the lock flag came to.
#[derive(PartialEq, Eq, Structural, Clone, Copy, Debug)]
pub enum Attempt {
    /// The flag was seen held: abandon this attempt.
    Busy,
    /// The flag was seen free, but the store lost exclusivity to another access.
    Lost,
    /// The flag went from free to held: the caller now holds the lock.
    Acquired,
}

/// The outcome of an attempt, from the value the exclusive load saw and,
/// where a store was tried, the value the store found in place.
pub open spec fn attempt_spec(loaded: u32, stored: Option<u32>) -> Attempt {
    if loaded != 0 {
        Attempt::Busy
    } else {
        match stored {
            Some(found) => if found == 0 { Attempt::Acquired } else { Attempt::Lost },
            None => Attempt::Lost,
        }
    }
}

/// Decides an attempt from what the exclusive load and the conditional
/// store observed.
pub fn classify_attempt(loaded: u32, stored: Option<u32>) -> (r: Attempt)
    ensures
        r == attempt_spec(loaded, stored),
{
    if loaded != 0 {
        Attempt::Busy
    } else {
        match stored {
            Some(found) => if found == 0 { Attempt::Acquired } else { Attempt::Lost },
            None => Attempt::Lost,
        }
    }
}

/// Relies on std::hint::spin_loop: a processor hint between spin retries,
/// with no effect on any value.
#[verifier::external_body]
pub(crate) fn spin_hint() {
    std::hint::spin_loop()
}

/// Relies on std's AtomicU32::store: writes `v` atomically with release
/// ordering. It panics only for the acquire orderings, so it does not unwind
/// here, and it opens no invariant.
#[verifier::external_body]
fn atomic_store_release(flag: &AtomicU32, v: u32)
    opens_invariants none
    no_unwind
{
    flag.store(v, Ordering::Release)
}

/// A spin-wait mutual-exclusion lock over one shared flag:
/// `0` is free, `1` is held.
pub struct Spinlock {
    locked: AtomicU32,
}

impl Spinlock {
    /// A lock whose flag starts free.
    pub fn new() -> (r: Spinlock) {
        Spinlock { locked: AtomicU32::new(0) }
    }

    /// One exclusive-access attempt: load the flag; if it is free, try to
    /// store `1` in its place with acquire ordering.
    pub fn try_lock(&self) -> (r: Attempt) {
        let loaded = self.locked.load(Ordering::Relaxed);
        if loaded != 0 {
            return classify_attempt(loaded, None);
        }
        let found = match self.locked.compare_exchange(0, 1, Ordering::Acquire, Ordering::Relaxed) {
            Ok(prev) => prev,
            Err(cur) => cur,
        };
        classify_attempt(loaded, Some(found))
    }

    /// Retries `try_lock` up to `max_attempts` times, with a spin hint
    /// between retries. Returns whether the lock was acquired.
    pub fn lock(&self, max_attempts: u64) -> (r: bool)
        ensures
            max_attempts == 0 ==> !r,
    {
        let mut n: u64 = 0;
        while n < max_attempts
            invariant
                n <= max_attempts,
            decreases max_attempts - n,
        {
            if self.try_lock() == Attempt::Acquired {
                return true;
            }
            spin_hint();
            n = n + 1;
        }
        false
    }

    /// Releases the lock: a plain atomic store of `0` with release ordering.
    pub fn unlock(&self)
        opens_invariants none
        no_unwind
    {
        atomic_store_release(&self.locked, 0);
    }
}

} // verus!
