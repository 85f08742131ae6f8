//! Forced re-enumeration of every present device, as a verified decision
//! procedure.
//!
//! `outcome` holds the per-device tally and its reduction to one outcome.
//! `session` holds the pass itself: a state machine that asks its driver to
//! open the device set, fetch each entry, reconfigure it and close the set,
//! and that reduces the reports it gets back. `trace` states what holds of
//! every sequence of reports: the set is closed once per successful open, and
//! a pass over a finite set ends with the outcome of that set's counts.
use vstd::prelude::*;

pub mod outcome;
pub mod session;
pub mod trace;

verus! {

} // verus!
