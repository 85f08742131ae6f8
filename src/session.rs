use vstd::prelude::*;

use crate::outcome::{outcome_of, Outcome, Tally};

verus! {

/// The device-set snapshot could not be acquired; no device was touched.
#[derive(Clone, Copy, Debug, PartialEq, Eq, Structural)]
pub struct EnumerationUnavailable;

/// Where a pass stands, with the data the next decision needs.
#[derive(Clone, Copy, Debug, PartialEq, Eq)]
pub enum Phase {
    /// The device set has not been opened yet.
    Start,
    /// The set is open; the entry at `index` has been asked for.
    Listing { index: u32, tally: Tally },
    /// The device at `index` has been asked to reconfigure.
    Reconfiguring { index: u32, tally: Tally },
    /// The pass is over.
    Finished { result: Result<Outcome, EnumerationUnavailable> },
}

/// What the environment reports back after performing an action.
#[derive(Clone, Copy, Debug, PartialEq, Eq, Structural)]
pub enum Event {
    /// The device set was opened.
    Opened,
    /// The operating system refused to create the device set.
    OpenRefused,
    /// An entry exists at the requested index.
    Found,
    /// No entry exists at the requested index.
    Exhausted,
    /// The reconfiguration request finished, successfully or not.
    Reconfigured { succeeded: bool },
}

/// What the environment is asked to do next.
#[derive(Clone, Copy, Debug, PartialEq, Eq, Structural)]
pub enum Action {
    /// Open the set of present devices of all classes.
    Open,
    /// Fetch the entry at this zero-based index.
    Fetch(u32),
    /// Force reconfiguration of the device fetched at this index.
    Reconfigure(u32),
    /// Release the device set; the pass is then over.
    Close,
    /// Nothing more to do.
    Done,
}

impl Phase {
    /// The counters match the number of devices visited.
    pub open spec fn wf(self) -> bool {
        match self {
            Phase::Listing { index, tally } => tally.total() == index as nat,
            Phase::Reconfiguring { index, tally } => tally.total() == index as nat,
            _ => true,
        }
    }

    /// Whether the pass is over.
    pub open spec fn is_finished(self) -> bool {
        self is Finished
    }

    /// Whether the device set is open in this phase.
    pub open spec fn holds_set(self) -> bool {
        self is Listing || self is Reconfiguring
    }
}

/// The action a phase waits on.
pub open spec fn pending_spec(p: Phase) -> Action {
    match p {
        Phase::Start => Action::Open,
        Phase::Listing { index, .. } => Action::Fetch(index),
        Phase::Reconfiguring { index, .. } => Action::Reconfigure(index),
        Phase::Finished { .. } => Action::Done,
    }
}

/// Whether `e` is a report on the action that `p` waits on.
pub open spec fn answers(p: Phase, e: Event) -> bool {
    match p {
        Phase::Start => e is Opened || e is OpenRefused,
        Phase::Listing { .. } => e is Found || e is Exhausted,
        Phase::Reconfiguring { .. } => e is Reconfigured,
        Phase::Finished { .. } => false,
    }
}

/// The phase after the last device, with the tally reduced.
pub open spec fn finish_with(t: Tally) -> Phase {
    Phase::Finished { result: Ok(outcome_of(t.succeeded as nat, t.failed as nat)) }
}

/// One decision: the next phase and the action to perform. Device indices
/// are 32-bit, so the device at the largest index is the last one visited.
pub open spec fn step_spec(p: Phase, e: Event) -> (Phase, Action) {
    if !answers(p, e) {
        (p, pending_spec(p))
    } else {
        match p {
            Phase::Start => if e is Opened {
                (Phase::Listing { index: 0, tally: Tally { succeeded: 0, failed: 0 } }, Action::Fetch(0))
            } else {
                (Phase::Finished { result: Err(EnumerationUnavailable) }, Action::Done)
            },
            Phase::Listing { index, tally } => if e is Found {
                (Phase::Reconfiguring { index, tally }, Action::Reconfigure(index))
            } else {
                (finish_with(tally), Action::Close)
            },
            Phase::Reconfiguring { index, tally } => {
                let t = tally.recorded(e->succeeded);
                if index < u32::MAX {
                    let next = (index + 1) as u32;
                    (Phase::Listing { index: next, tally: t }, Action::Fetch(next))
                } else {
                    (finish_with(t), Action::Close)
                }
            },
            Phase::Finished { .. } => (p, Action::Done),
        }
    }
}

/// One pass of device enumeration and reconfiguration, driven by the events
/// that the environment reports.
pub struct Session {
    phase: Phase,
}

impl View for Session {
    type V = Phase;

    closed spec fn view(&self) -> Phase {
        self.phase
    }
}

impl Session {
    #[verifier::type_invariant]
    spec fn inv(self) -> bool {
        self.phase.wf()
    }

    /// A pass that has not opened the device set yet.
    pub fn new() -> (s: Session)
        ensures
            s@ == Phase::Start,
    {
        Session { phase: Phase::Start }
    }

    /// The current phase.
    pub fn phase(&self) -> (p: Phase)
        ensures
            p == self@,
            p.wf(),
    {
        proof { use_type_invariant(self); }
        self.phase
    }

    /// The action the session waits on.
    pub fn pending(&self) -> (a: Action)
        ensures
            a == pending_spec(self@),
    {
        match self.phase {
            Phase::Start => Action::Open,
            Phase::Listing { index, .. } => Action::Fetch(index),
            Phase::Reconfiguring { index, .. } => Action::Reconfigure(index),
            Phase::Finished { .. } => Action::Done,
        }
    }

    /// The result of the pass, once it is over.
    pub fn result(&self) -> (r: Option<Result<Outcome, EnumerationUnavailable>>)
        ensures
            match self@ {
                Phase::Finished { result } => r == Some(result),
                _ => r is None,
            },
    {
        match self.phase {
            Phase::Finished { result } => Some(result),
            _ => None,
        }
    }

    /// Takes in the report `e` on the last action and returns the next action.
    /// A report that does not answer the pending action changes nothing.
    pub fn step(&mut self, e: Event) -> (a: Action)
        ensures
            (final(self)@, a) == step_spec(old(self)@, e),
    {
        proof { use_type_invariant(&*self); }
        let p = self.phase;
        match p {
            Phase::Start => match e {
                Event::Opened => {
                    self.phase = Phase::Listing { index: 0, tally: Tally::new() };
                    Action::Fetch(0)
                },
                Event::OpenRefused => {
                    self.phase = Phase::Finished { result: Err(EnumerationUnavailable) };
                    Action::Done
                },
                _ => Action::Open,
            },
            Phase::Listing { index, tally } => match e {
                Event::Found => {
                    self.phase = Phase::Reconfiguring { index, tally };
                    Action::Reconfigure(index)
                },
                Event::Exhausted => {
                    self.phase = Phase::Finished { result: Ok(tally.outcome()) };
                    Action::Close
                },
                _ => Action::Fetch(index),
            },
            Phase::Reconfiguring { index, tally } => match e {
                Event::Reconfigured { succeeded } => {
                    let mut t = tally;
                    t.record(succeeded);
                    if index < u32::MAX {
                        let next = index + 1;
                        self.phase = Phase::Listing { index: next, tally: t };
                        Action::Fetch(next)
                    } else {
                        self.phase = Phase::Finished { result: Ok(t.outcome()) };
                        Action::Close
                    }
                },
                _ => Action::Reconfigure(index),
            },
            Phase::Finished { .. } => Action::Done,
        }
    }
}

} // verus!
