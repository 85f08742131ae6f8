use vstd::prelude::*;

use crate::outcome::{outcome_of, Tally};
use crate::session::{answers, pending_spec, step_spec, Action, EnumerationUnavailable, Event, Phase};

verus! {

/// The phase reached from `p` after the events `evs`, in order.
pub open spec fn run(p: Phase, evs: Seq<Event>) -> Phase
    decreases evs.len(),
{
    if evs.len() == 0 {
        p
    } else {
        step_spec(run(p, evs.drop_last()), evs.last()).0
    }
}

/// How many `Close` actions the session asks for along `evs`.
pub open spec fn closes(p: Phase, evs: Seq<Event>) -> nat
    decreases evs.len(),
{
    if evs.len() == 0 {
        0
    } else {
        closes(p, evs.drop_last()) + if step_spec(run(p, evs.drop_last()), evs.last()).1 is Close {
            1nat
        } else {
            0nat
        }
    }
}

/// How many times the device set was opened along `evs`.
pub open spec fn opens(p: Phase, evs: Seq<Event>) -> nat
    decreases evs.len(),
{
    if evs.len() == 0 {
        0
    } else {
        opens(p, evs.drop_last()) + if run(p, evs.drop_last()) is Start && evs.last() is Opened {
            1nat
        } else {
            0nat
        }
    }
}

/// Whether every event of `evs` reports on the action the session waited on.
pub open spec fn all_answer(p: Phase, evs: Seq<Event>) -> bool
    decreases evs.len(),
{
    evs.len() == 0 || (all_answer(p, evs.drop_last()) && answers(
        run(p, evs.drop_last()),
        evs.last(),
    ))
}

/// An upper bound on the number of steps left before the pass is over.
pub open spec fn measure(p: Phase) -> nat {
    match p {
        Phase::Start => 0x2_0000_0002,
        Phase::Listing { index, .. } => (2 * (0x1_0000_0000 - index as int) + 1) as nat,
        Phase::Reconfiguring { index, .. } => (2 * (0x1_0000_0000 - index as int)) as nat,
        Phase::Finished { .. } => 0,
    }
}

/// How many device sets the pass holds open in phase `p`.
pub open spec fn held(p: Phase) -> int {
    if p.holds_set() {
        1
    } else {
        0
    }
}

/// Whether the pass ended because the device set could not be opened.
pub open spec fn refused(p: Phase) -> bool {
    p == Phase::Finished { result: Err(EnumerationUnavailable) }
}

/// Every report on the pending action brings the pass strictly closer to its
/// end; any other report leaves the session as it was.
pub proof fn lemma_step_progress(p: Phase, e: Event)
    ensures
        answers(p, e) ==> measure(step_spec(p, e).0) < measure(p),
        !answers(p, e) ==> step_spec(p, e) == (p, pending_spec(p)),
        p.is_finished() ==> step_spec(p, e) == (p, Action::Done),
{
}

/// A pass driven by reports on its pending actions ends: it takes no more
/// steps than the measure of the phase it starts from.
pub proof fn lemma_run_bounded(p: Phase, evs: Seq<Event>)
    requires
        all_answer(p, evs),
    ensures
        measure(run(p, evs)) + evs.len() <= measure(p),
    decreases evs.len(),
{
    if evs.len() > 0 {
        lemma_run_bounded(p, evs.drop_last());
        lemma_step_progress(run(p, evs.drop_last()), evs.last());
    }
}

proof fn lemma_accounting(p: Phase, evs: Seq<Event>)
    ensures
        held(p) + opens(p, evs) == closes(p, evs) + held(run(p, evs)),
        !(p is Start) ==> opens(p, evs) == 0 && !(run(p, evs) is Start),
        p is Start ==> opens(p, evs) <= 1,
        p is Start && run(p, evs) is Start ==> opens(p, evs) == 0,
        p is Start && opens(p, evs) == 0 ==> run(p, evs) is Start || refused(run(p, evs)),
        !(p is Start) && !refused(p) ==> !refused(run(p, evs)),
        p is Start && opens(p, evs) == 1 ==> !refused(run(p, evs)),
        run(p, evs).is_finished() && !p.is_finished() && !(p is Start) ==> closes(p, evs) == 1,
    decreases evs.len(),
{
    if evs.len() > 0 {
        lemma_accounting(p, evs.drop_last());
    }
}

/// Along any sequence of reports, a pass opens the device set at most once,
/// closes it only after opening it, and closes it at most once. A pass that
/// is over has closed the set exactly as often as it opened it: once when it
/// reduced a tally, never when the open was refused.
pub proof fn lemma_close_once_per_open(evs: Seq<Event>)
    ensures
        opens(Phase::Start, evs) <= 1,
        closes(Phase::Start, evs) <= opens(Phase::Start, evs),
        run(Phase::Start, evs).is_finished() ==> closes(Phase::Start, evs) == opens(
            Phase::Start,
            evs,
        ),
        refused(run(Phase::Start, evs)) ==> opens(Phase::Start, evs) == 0 && closes(
            Phase::Start,
            evs,
        ) == 0,
        (run(Phase::Start, evs).is_finished() && !refused(run(Phase::Start, evs)))
            ==> closes(Phase::Start, evs) == 1,
{
    lemma_accounting(Phase::Start, evs);
}

/// Number of `true` entries of `devs`.
pub open spec fn count_ok(devs: Seq<bool>) -> nat
    decreases devs.len(),
{
    if devs.len() == 0 {
        0
    } else {
        count_ok(devs.drop_last()) + if devs.last() {
            1nat
        } else {
            0nat
        }
    }
}

/// The report on action `a` of an environment whose device set opens when
/// `open_ok`, and holds one device per entry of `devs`, in order, whose
/// reconfiguration succeeds when that entry is `true`.
pub open spec fn respond(open_ok: bool, devs: Seq<bool>, a: Action) -> Event {
    match a {
        Action::Open => if open_ok {
            Event::Opened
        } else {
            Event::OpenRefused
        },
        Action::Fetch(i) => if (i as int) < devs.len() {
            Event::Found
        } else {
            Event::Exhausted
        },
        Action::Reconfigure(i) => Event::Reconfigured { succeeded: devs[i as int] },
        _ => Event::Exhausted,
    }
}

/// The first `k` reports of that environment to a pass that starts afresh.
pub open spec fn script(open_ok: bool, devs: Seq<bool>, k: nat) -> Seq<Event>
    decreases k,
{
    if k == 0 {
        Seq::empty()
    } else {
        let prev = script(open_ok, devs, (k - 1) as nat);
        prev.push(respond(open_ok, devs, pending_spec(run(Phase::Start, prev))))
    }
}

proof fn lemma_script_prefix(open_ok: bool, devs: Seq<bool>, k: nat)
    requires
        k > 0,
    ensures
        script(open_ok, devs, k).len() == k,
        script(open_ok, devs, k).drop_last() == script(open_ok, devs, (k - 1) as nat),
        run(Phase::Start, script(open_ok, devs, k)) == step_spec(
            run(Phase::Start, script(open_ok, devs, (k - 1) as nat)),
            respond(
                open_ok,
                devs,
                pending_spec(run(Phase::Start, script(open_ok, devs, (k - 1) as nat))),
            ),
        ).0,
        all_answer(Phase::Start, script(open_ok, devs, (k - 1) as nat)) && answers(
            run(Phase::Start, script(open_ok, devs, (k - 1) as nat)),
            respond(
                open_ok,
                devs,
                pending_spec(run(Phase::Start, script(open_ok, devs, (k - 1) as nat))),
            ),
        ) ==> all_answer(Phase::Start, script(open_ok, devs, k)),
    decreases k,
{
    let prev = script(open_ok, devs, (k - 1) as nat);
    if k > 1 {
        lemma_script_prefix(open_ok, devs, (k - 1) as nat);
    }
    assert(script(open_ok, devs, k).drop_last() =~= prev);
}

proof fn lemma_script_listing(devs: Seq<bool>, k: nat)
    requires
        k <= devs.len(),
        devs.len() <= u32::MAX,
    ensures
        run(Phase::Start, script(true, devs, 2 * k + 1)) == (Phase::Listing {
            index: k as u32,
            tally: Tally {
                succeeded: count_ok(devs.take(k as int)) as u64,
                failed: (k - count_ok(devs.take(k as int))) as u64,
            },
        }),
        count_ok(devs.take(k as int)) <= k,
        all_answer(Phase::Start, script(true, devs, 2 * k + 1)),
    decreases k,
{
    lemma_script_prefix(true, devs, 2 * k + 1);
    if k == 0 {
        assert(script(true, devs, 0) =~= Seq::<Event>::empty());
        assert(devs.take(0) =~= Seq::<bool>::empty());
    } else {
        let j = (k - 1) as nat;
        lemma_script_listing(devs, j);
        lemma_script_prefix(true, devs, 2 * j + 2);
        assert(devs.take(k as int).drop_last() =~= devs.take(j as int));
    }
}

/// A pass driven by an environment that holds a finite device set ends: after
/// one report per action, two per device and one for the end of the set, it
/// has reduced the counts of that set to their outcome and closed the set
/// exactly once. When the set cannot be opened, the pass ends at once with the
/// error and never closes.
pub proof fn lemma_finite_set_pass(open_ok: bool, devs: Seq<bool>)
    requires
        devs.len() <= u32::MAX,
    ensures
        open_ok ==> {
            let evs = script(true, devs, 2 * devs.len() + 2);
            &&& all_answer(Phase::Start, evs)
            &&& run(Phase::Start, evs) == (Phase::Finished {
                result: Ok(outcome_of(count_ok(devs), (devs.len() - count_ok(devs)) as nat)),
            })
            &&& closes(Phase::Start, evs) == 1
        },
        !open_ok ==> {
            let evs = script(false, devs, 1);
            &&& run(Phase::Start, evs) == (Phase::Finished { result: Err(EnumerationUnavailable) })
            &&& closes(Phase::Start, evs) == 0
        },
{
    if open_ok {
        let n = devs.len();
        lemma_script_listing(devs, n);
        lemma_script_prefix(true, devs, 2 * n + 2);
        assert(devs.take(n as int) =~= devs);
        lemma_close_once_per_open(script(true, devs, 2 * n + 2));
    } else {
        lemma_script_prefix(false, devs, 1);
        assert(script(false, devs, 0) =~= Seq::<Event>::empty());
        lemma_close_once_per_open(script(false, devs, 1));
    }
}

} // verus!
