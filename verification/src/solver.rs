//! When the Jacobi iteration for the pressure stops.
//!
//! The pressure solve sweeps the grid again and again; it stops as soon as a
//! sweep changes no interior cell by more than the tolerance, and in any case
//! after `MAX_JACOBI_SWEEPS` sweeps.  The caller performs each sweep and
//! reports whether it converged; this schedule decides whether to go on.
use vstd::prelude::*;

verus! {

/// The most Jacobi sweeps one pressure solve performs.
pub const MAX_JACOBI_SWEEPS: u32 = 5000;

/// Progress of one pressure solve.
pub struct JacobiSchedule {
    sweeps: u32,
    finished: bool,
}

impl JacobiSchedule {
    #[verifier::type_invariant]
    spec fn within_budget(&self) -> bool {
        &&& self.sweeps <= MAX_JACOBI_SWEEPS
        &&& self.sweeps == MAX_JACOBI_SWEEPS ==> self.finished
    }

    /// Number of sweeps performed so far.
    pub closed spec fn sweeps_done(&self) -> nat {
        self.sweeps as nat
    }

    /// Whether the solve has stopped.
    pub closed spec fn is_finished(&self) -> bool {
        self.finished
    }

    /// A solve that has performed no sweep.
    pub fn new() -> (s: JacobiSchedule)
        ensures
            s.sweeps_done() == 0,
            !s.is_finished(),
    {
        JacobiSchedule { sweeps: 0, finished: false }
    }

    /// Number of sweeps performed so far.
    /// A schedule never exceeds its budget, and one that has spent it has stopped.
    pub fn sweeps(&self) -> (n: u32)
        ensures
            n == self.sweeps_done(),
            n <= MAX_JACOBI_SWEEPS,
            n == MAX_JACOBI_SWEEPS ==> self.is_finished(),
    {
        proof {
            use_type_invariant(self);
        }
        self.sweeps
    }

    /// Whether another sweep is to be performed.
    pub fn wants_sweep(&self) -> (b: bool)
        ensures
            b == !self.is_finished(),
            b ==> self.sweeps_done() < MAX_JACOBI_SWEEPS,
    {
        proof {
            use_type_invariant(self);
        }
        !self.finished
    }

    /// Record one sweep, and whether the largest change it made to an interior
    /// cell was below the tolerance.  Returns whether to sweep again: the solve
    /// stops at the first converged sweep, or when the budget is spent.
    pub fn record_sweep(&mut self, converged: bool) -> (again: bool)
        requires
            !old(self).is_finished(),
        ensures
            final(self).sweeps_done() == old(self).sweeps_done() + 1,
            again == (!converged && final(self).sweeps_done() < MAX_JACOBI_SWEEPS),
            final(self).is_finished() == !again,
            final(self).sweeps_done() <= MAX_JACOBI_SWEEPS,
    {
        proof {
            use_type_invariant(&*self);
        }
        let n = self.sweeps + 1;
        let again = !converged && n < MAX_JACOBI_SWEEPS;
        *self = JacobiSchedule { sweeps: n, finished: !again };
        again
    }
}

/// The budget of one pressure solve is 5000 sweeps.
pub proof fn lemma_sweep_budget()
    ensures
        MAX_JACOBI_SWEEPS == 5000,
{
}

} // verus!
