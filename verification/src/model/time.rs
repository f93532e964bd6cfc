//! Simulation time.
use vstd::prelude::*;

verus! {

/// A point of simulation time, in seconds.
#[derive(Debug, Clone, Copy, PartialEq, Eq, PartialOrd, Ord, Hash, Structural)]
pub struct SimTime(pub u64);

/// The time `dt` seconds after `t`.
pub open spec fn advanced(t: SimTime, dt: u64) -> SimTime {
    SimTime((t.0 + dt) as u64)
}

impl SimTime {
    pub fn new(t: u64) -> (s: Self)
        ensures
            s.0 == t,
    {
        SimTime(t)
    }

    /// Moves the time `dt` seconds on.
    pub fn advance(&mut self, dt: u64)
        requires
            old(self).0 + dt <= u64::MAX,
        ensures
            final(self).0 == old(self).0 + dt,
            *final(self) == advanced(*old(self), dt),
    {
        self.0 = self.0 + dt;
    }
}

/// Advancing by `a` and then by `b` is advancing by `a + b`: what two
/// calls of `advance` leave is what one call with the sum leaves.
pub proof fn lemma_advance_additive(t: SimTime, a: u64, b: u64)
    requires
        t.0 + a + b <= u64::MAX,
    ensures
        advanced(advanced(t, a), b) == advanced(t, (a + b) as u64),
{
}

} // verus!
