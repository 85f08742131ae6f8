use vstd::prelude::*;

verus! {

/// The single result of one enumeration-and-reconfiguration pass.
#[derive(Clone, Copy, Debug, PartialEq, Eq, Structural)]
pub enum Outcome {
    /// At least one device was reconfigured.
    Refreshed,
    /// Devices were found, and every reconfiguration request failed.
    AllFailed,
    /// The device set was empty.
    NoDevices,
}

/// The outcome that a tally of `s` successes and `f` failures reduces to.
pub open spec fn outcome_of(s: nat, f: nat) -> Outcome {
    if s > 0 {
        Outcome::Refreshed
    } else if f > 0 {
        Outcome::AllFailed
    } else {
        Outcome::NoDevices
    }
}

/// Running counts of the reconfiguration requests that succeeded and failed.
#[derive(Clone, Copy, Debug, PartialEq, Eq, Structural)]
pub struct Tally {
    pub succeeded: u64,
    pub failed: u64,
}

impl Tally {
    /// Number of devices processed so far.
    pub open spec fn total(self) -> nat {
        self.succeeded as nat + self.failed as nat
    }

    /// The tally after one more request with result `ok`.
    pub open spec fn recorded(self, ok: bool) -> Tally {
        if ok {
            Tally { succeeded: (self.succeeded + 1) as u64, failed: self.failed }
        } else {
            Tally { succeeded: self.succeeded, failed: (self.failed + 1) as u64 }
        }
    }

    /// The outcome this tally reduces to.
    pub open spec fn outcome_spec(self) -> Outcome {
        outcome_of(self.succeeded as nat, self.failed as nat)
    }

    /// An empty tally.
    pub fn new() -> (t: Tally)
        ensures
            t.succeeded == 0,
            t.failed == 0,
    {
        Tally { succeeded: 0, failed: 0 }
    }

    /// Counts one request: a success when `ok`, a failure otherwise.
    pub fn record(&mut self, ok: bool)
        requires
            old(self).total() < u64::MAX,
        ensures
            *final(self) == old(self).recorded(ok),
            final(self).total() == old(self).total() + 1,
    {
        if ok {
            self.succeeded = self.succeeded + 1;
        } else {
            self.failed = self.failed + 1;
        }
    }

    /// Reduces the tally to its outcome.
    pub fn outcome(&self) -> (r: Outcome)
        ensures
            r == self.outcome_spec(),
            r == Outcome::Refreshed <==> self.succeeded > 0,
            r == Outcome::AllFailed <==> (self.succeeded == 0 && self.failed > 0),
            r == Outcome::NoDevices <==> self.total() == 0,
    {
        if self.succeeded > 0 {
            Outcome::Refreshed
        } else if self.failed > 0 {
            Outcome::AllFailed
        } else {
            Outcome::NoDevices
        }
    }
}

/// Every tally reduces to exactly one outcome: `Refreshed` exactly when some
/// request succeeded, `AllFailed` exactly when none succeeded and some failed,
/// and `NoDevices` exactly when no device was processed.
pub proof fn lemma_outcome_partition(s: nat, f: nat)
    ensures
        outcome_of(s, f) == Outcome::Refreshed <==> s > 0,
        outcome_of(s, f) == Outcome::AllFailed <==> (s == 0 && f > 0),
        outcome_of(s, f) == Outcome::NoDevices <==> s + f == 0,
{
}

/// The outcome is a function of the two counters alone: tallies with the same
/// counts reduce to the same outcome.
pub proof fn lemma_outcome_depends_on_counts(a: Tally, b: Tally)
    requires
        a.succeeded == b.succeeded,
        a.failed == b.failed,
    ensures
        a.outcome_spec() == b.outcome_spec(),
{
}

/// Recording two results gives the same tally in either order, so the
/// outcome does not depend on the order in which devices are visited.
pub proof fn lemma_record_order_irrelevant(t: Tally, x: bool, y: bool)
    requires
        t.total() + 2 <= u64::MAX,
    ensures
        t.recorded(x).recorded(y) == t.recorded(y).recorded(x),
        t.recorded(x).recorded(y).outcome_spec() == t.recorded(y).recorded(x).outcome_spec(),
{
}

} // verus!
