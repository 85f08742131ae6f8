use device_refresh::outcome::{Outcome, Tally};
use device_refresh::session::{Action, EnumerationUnavailable, Event, Phase, Session};

struct Record {
    result: Option<Result<Outcome, EnumerationUnavailable>>,
    opens: u32,
    closes: u32,
    steps: u32,
    tally: Option<Tally>,
}

/// Drives a pass against a device set that opens when `open_ok` and whose
/// devices reconfigure with the given results.
fn drive(open_ok: bool, devices: &[bool]) -> Record {
    let mut session = Session::new();
    let mut action = session.pending();
    let mut rec = Record { result: None, opens: 0, closes: 0, steps: 0, tally: None };
    loop {
        let event = match action {
            Action::Open => {
                if open_ok {
                    rec.opens += 1;
                    Event::Opened
                } else {
                    Event::OpenRefused
                }
            }
            Action::Fetch(i) => {
                if (i as usize) < devices.len() {
                    Event::Found
                } else {
                    Event::Exhausted
                }
            }
            Action::Reconfigure(i) => Event::Reconfigured { succeeded: devices[i as usize] },
            Action::Close => {
                rec.closes += 1;
                break;
            }
            Action::Done => break,
        };
        if let Phase::Reconfiguring { tally, .. } = session.phase() {
            rec.tally = Some(tally);
        }
        action = session.step(event);
        rec.steps += 1;
        if let Phase::Listing { tally, .. } = session.phase() {
            rec.tally = Some(tally);
        }
        assert!(rec.steps < 1000, "the pass did not end");
    }
    rec.result = session.result();
    rec
}

#[test]
fn no_devices_gives_no_devices() {
    let r = drive(true, &[]);
    assert_eq!(r.result, Some(Ok(Outcome::NoDevices)));
    assert_eq!(r.opens, 1);
    assert_eq!(r.closes, 1);
    assert_eq!(r.tally, Some(Tally { succeeded: 0, failed: 0 }));
}

#[test]
fn three_successes_give_refreshed() {
    let r = drive(true, &[true, true, true]);
    assert_eq!(r.result, Some(Ok(Outcome::Refreshed)));
    assert_eq!(r.tally, Some(Tally { succeeded: 3, failed: 0 }));
    assert_eq!(r.closes, 1);
}

#[test]
fn three_failures_give_all_failed() {
    let r = drive(true, &[false, false, false]);
    assert_eq!(r.result, Some(Ok(Outcome::AllFailed)));
    assert_eq!(r.tally, Some(Tally { succeeded: 0, failed: 3 }));
    assert_eq!(r.closes, 1);
}

#[test]
fn two_of_five_give_refreshed() {
    let r = drive(true, &[false, true, false, true, false]);
    assert_eq!(r.result, Some(Ok(Outcome::Refreshed)));
    assert_eq!(r.tally, Some(Tally { succeeded: 2, failed: 3 }));
    assert_eq!(r.closes, 1);
}

#[test]
fn refused_open_gives_error_and_no_close() {
    let r = drive(false, &[true, true]);
    assert_eq!(r.result, Some(Err(EnumerationUnavailable)));
    assert_eq!(r.opens, 0);
    assert_eq!(r.closes, 0);
    assert_eq!(r.tally, None);
    assert_eq!(r.steps, 1);
}

#[test]
fn pass_takes_two_steps_per_device_plus_two() {
    for n in 0..6usize {
        let devices = vec![true; n];
        let r = drive(true, &devices);
        assert_eq!(r.steps as usize, 2 * n + 2);
        assert_eq!(r.closes, 1);
    }
}

#[test]
fn order_of_results_does_not_change_outcome() {
    let a = drive(true, &[true, false, false]);
    let b = drive(true, &[false, false, true]);
    assert_eq!(a.result, b.result);
    assert_eq!(a.tally, b.tally);
}

#[test]
fn outcome_partition_on_small_tallies() {
    for s in 0..4u64 {
        for f in 0..4u64 {
            let t = Tally { succeeded: s, failed: f };
            let expected = if s > 0 {
                Outcome::Refreshed
            } else if f > 0 {
                Outcome::AllFailed
            } else {
                Outcome::NoDevices
            };
            assert_eq!(t.outcome(), expected);
            assert_eq!(t.outcome(), t.outcome());
        }
    }
}

#[test]
fn record_counts_each_result_once() {
    let mut t = Tally::new();
    t.record(true);
    t.record(false);
    t.record(false);
    assert_eq!(t, Tally { succeeded: 1, failed: 2 });
    assert_eq!(t.outcome(), Outcome::Refreshed);
}

#[test]
fn unexpected_report_changes_nothing() {
    let mut s = Session::new();
    assert_eq!(s.step(Event::Found), Action::Open);
    assert_eq!(s.phase(), Phase::Start);
    assert_eq!(s.step(Event::Opened), Action::Fetch(0));
    assert_eq!(s.step(Event::Reconfigured { succeeded: true }), Action::Fetch(0));
    assert_eq!(s.step(Event::Found), Action::Reconfigure(0));
    assert_eq!(s.step(Event::Exhausted), Action::Reconfigure(0));
    assert_eq!(s.step(Event::Reconfigured { succeeded: true }), Action::Fetch(1));
    assert_eq!(s.step(Event::Exhausted), Action::Close);
    assert_eq!(s.step(Event::Exhausted), Action::Done);
    assert_eq!(s.result(), Some(Ok(Outcome::Refreshed)));
}

#[test]
fn pending_matches_phase() {
    let mut s = Session::new();
    assert_eq!(s.pending(), Action::Open);
    assert_eq!(s.result(), None);
    s.step(Event::Opened);
    assert_eq!(s.pending(), Action::Fetch(0));
    s.step(Event::Found);
    assert_eq!(s.pending(), Action::Reconfigure(0));
    s.step(Event::OpenRefused);
    assert_eq!(s.pending(), Action::Reconfigure(0));
}
