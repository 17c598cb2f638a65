//! A spin lock over one shared flag, and a preemption control that pairs
//! local interrupt masking with that lock; a software backend that runs the
//! same algorithm on a plain flag, where every step is stated exactly; and a
//! step-by-step simulation of many cores, over which mutual exclusion and
//! mask symmetry are proved.

pub mod spinlock;
pub mod machine;
pub mod preemption;
pub mod soft;
