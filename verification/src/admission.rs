//! Connection admission control: a live-session counter with a fixed cap.
//!
//! Every accepted connection must be admitted here before any protocol work
//! is done on it, and released exactly once when the session closes. The
//! counter never exceeds the cap, so the number of concurrently live
//! sessions is bounded however the peers behave.

use vstd::prelude::*;

verus! {

/// Default cap on concurrently admitted sessions.
pub const DEFAULT_MAX_SESSIONS: usize = 8;

/// Outcome of trying to admit one more session when `active` sessions are
/// live under a cap of `cap`: the new live count, and whether the admission
/// succeeded.
pub open spec fn spec_admit(active: nat, cap: nat) -> (nat, bool) {
    if active < cap {
        ((active + 1) as nat, true)
    } else {
        (active, false)
    }
}

/// Outcome of releasing one admitted session.
pub open spec fn spec_release(active: nat) -> nat
    recommends
        active >= 1,
{
    (active - 1) as nat
}

/// Counts the live sessions and refuses admission past a fixed cap.
pub struct AdmissionController {
    active: usize,
    cap: usize,
}

impl AdmissionController {
    /// Number of currently admitted sessions.
    pub closed spec fn active(&self) -> nat {
        self.active as nat
    }

    /// The admission cap this controller was created with.
    pub closed spec fn cap(&self) -> nat {
        self.cap as nat
    }

    /// The live count never exceeds the cap.
    pub closed spec fn wf(&self) -> bool {
        self.active <= self.cap
    }

    /// What well-formedness gives callers: the live count never exceeds
    /// the cap.
    pub proof fn lemma_wf_bound(&self)
        requires
            self.wf(),
        ensures
            self.active() <= self.cap(),
    {
    }

    pub fn new(cap: usize) -> (r: Self)
        ensures
            r.wf(),
            r.active() == 0,
            r.cap() == cap,
    {
        AdmissionController { active: 0, cap }
    }

    /// Admit one more session if the cap allows it. On refusal the count is
    /// unchanged and the caller must drop the connection without any
    /// protocol work.
    pub fn try_admit(&mut self) -> (admitted: bool)
        requires
            old(self).wf(),
        ensures
            final(self).wf(),
            final(self).cap() == old(self).cap(),
            (final(self).active(), admitted) == spec_admit(old(self).active(), old(self).cap()),
    {
        if self.active < self.cap {
            self.active = self.active + 1;
            true
        } else {
            false
        }
    }

    /// Release one admitted session. Callers pair this with exactly one
    /// successful `try_admit`, so the count is always positive here.
    pub fn release(&mut self)
        requires
            old(self).wf(),
            old(self).active() >= 1,
        ensures
            final(self).wf(),
            final(self).cap() == old(self).cap(),
            final(self).active() == spec_release(old(self).active()),
    {
        self.active = self.active - 1;
    }

    /// Current live count, for observability reporting.
    pub fn active_count(&self) -> (n: usize)
        ensures
            n == self.active(),
    {
        self.active
    }

    /// The cap, for observability reporting.
    pub fn capacity(&self) -> (n: usize)
        ensures
            n == self.cap(),
    {
        self.cap
    }
}

/// Law: admitting a session and then releasing it returns the live count to
/// its prior value, and a refused admission leaves the count unchanged.
pub proof fn lemma_admit_release_round_trip(active: nat, cap: nat)
    ensures
        spec_admit(active, cap).1 ==> spec_release(spec_admit(active, cap).0) == active,
        !spec_admit(active, cap).1 ==> spec_admit(active, cap).0 == active,
{
}

} // verus!
