//! The poll cycle as a state machine: scan, report, wait, and scan again.
//!
//! The caller performs each action that a step returns (prints the lines,
//! issues the scan, sleeps) and hands the outcome back as the next event.

use crate::address::address_text;
use crate::report::{banner, banner_line, error_line, found_report, report_error, report_found};
use vstd::prelude::*;

verus! {

/// Seconds to wait after each scan before the next one.
pub const POLL_INTERVAL_SECS: u64 = 5;

/// Where the poller stands in its cycle.
#[derive(PartialEq, Eq, Structural, Clone, Copy, Debug)]
pub enum Phase {
    /// Not started yet.
    Idle,
    /// A scan has been asked for and its outcome is awaited.
    Scanning,
    /// The wait after a scan is running.
    Waiting,
}

/// What the caller reports to the poller.
pub enum Event {
    /// The process has started.
    Started,
    /// The scan returned the pools with these addresses, in the provider's order.
    ScanSucceeded(Vec<[u8; 32]>),
    /// The scan failed; the text describes the failure.
    ScanFailed(String),
    /// The wait has run out.
    WaitElapsed,
}

/// What the caller is to do after printing a step's lines.
#[derive(PartialEq, Eq, Structural, Clone, Copy, Debug)]
pub enum Action {
    /// Issue the pool scan.
    Scan,
    /// Sleep for this many seconds.
    Wait { secs: u64 },
    /// Nothing: the event did not fit the phase.
    Nothing,
}

/// The outcome of one step: lines to print, then an action to perform.
pub struct Step {
    pub lines: Vec<String>,
    pub action: Action,
}

/// The wait that follows every scan.
pub open spec fn poll_wait() -> Action {
    Action::Wait { secs: POLL_INTERVAL_SECS }
}

/// The next phase and the action for event `e` in phase `p`.
pub open spec fn transition(p: Phase, e: Event) -> (Phase, Action) {
    if p == Phase::Idle && e is Started {
        (Phase::Scanning, Action::Scan)
    } else if p == Phase::Scanning && (e is ScanSucceeded || e is ScanFailed) {
        (Phase::Waiting, poll_wait())
    } else if p == Phase::Waiting && e is WaitElapsed {
        (Phase::Scanning, Action::Scan)
    } else {
        (p, Action::Nothing)
    }
}

/// The lines to print for event `e` in phase `p`.
pub open spec fn step_lines(p: Phase, e: Event) -> Seq<Seq<char>> {
    if p == Phase::Idle && e is Started {
        seq![banner_line()]
    } else if p == Phase::Scanning && e is ScanSucceeded {
        found_report(e->ScanSucceeded_0@.map_values(|a: [u8; 32]| address_text(a@)))
    } else if p == Phase::Scanning && e is ScanFailed {
        seq![error_line(e->ScanFailed_0@)]
    } else {
        Seq::empty()
    }
}

/// The phase reached and the actions taken when events `es` arrive, in
/// order, in phase `p`.
pub open spec fn run(p: Phase, es: Seq<Event>) -> (Phase, Seq<Action>)
    decreases es.len(),
{
    if es.len() == 0 {
        (p, Seq::empty())
    } else {
        let prev = run(p, es.drop_last());
        let next = transition(prev.0, es.last());
        (next.0, prev.1.push(next.1))
    }
}

/// Whether every two scans in `acts` have the poll wait between them.
pub open spec fn scans_separated(acts: Seq<Action>) -> bool {
    forall|i: int, j: int|
        0 <= i < j < acts.len() && #[trigger] acts[i] == Action::Scan && #[trigger] acts[j]
            == Action::Scan ==> exists|k: int| i < k < j && acts[k] == poll_wait()
}

/// What holds of a run from a poller that has not started: its actions
/// answer its events one for one, scans are separated by the poll wait, no
/// scan is taken before start, and in the wait phase every scan so far has
/// been followed by the poll wait.
proof fn lemma_run_invariant(es: Seq<Event>)
    ensures
        run(Phase::Idle, es).1.len() == es.len(),
        scans_separated(run(Phase::Idle, es).1),
        run(Phase::Idle, es).0 == Phase::Idle ==> forall|i: int|
            0 <= i < es.len() ==> #[trigger] run(Phase::Idle, es).1[i] != Action::Scan,
        run(Phase::Idle, es).0 == Phase::Waiting ==> forall|i: int|
            0 <= i < es.len() && #[trigger] run(Phase::Idle, es).1[i] == Action::Scan ==> exists|
                k: int,
            | i < k < es.len() && run(Phase::Idle, es).1[k] == poll_wait(),
    decreases es.len(),
{
    if es.len() > 0 {
        let prev = run(Phase::Idle, es.drop_last());
        lemma_run_invariant(es.drop_last());
        let next = transition(prev.0, es.last());
        let acts = prev.1.push(next.1);
        let n = es.len() - 1;
        assert(run(Phase::Idle, es).1 == acts);
        assert forall|i: int, j: int|
            0 <= i < j < acts.len() && #[trigger] acts[i] == Action::Scan && #[trigger] acts[j]
                == Action::Scan implies exists|k: int| i < k < j && acts[k] == poll_wait() by {
            if j < n {
                assert(prev.1[i] == Action::Scan && prev.1[j] == Action::Scan);
                let k = choose|k: int| i < k < j && prev.1[k] == poll_wait();
                assert(acts[k] == poll_wait());
            } else {
                assert(prev.1[i] == Action::Scan);
                let k = choose|k: int| i < k < n && prev.1[k] == poll_wait();
                assert(acts[k] == poll_wait());
            }
        }
        if next.0 == Phase::Waiting {
            assert forall|i: int|
                0 <= i < es.len() && #[trigger] acts[i] == Action::Scan implies exists|k: int|
                i < k < es.len() && acts[k] == poll_wait() by {
                if prev.0 == Phase::Waiting {
                    assert(prev.1[i] == Action::Scan);
                    let k = choose|k: int| i < k < n && prev.1[k] == poll_wait();
                    assert(acts[k] == poll_wait());
                } else {
                    assert(acts[n] == poll_wait());
                }
            }
        }
        if next.0 == Phase::Idle {
            assert forall|i: int| 0 <= i < es.len() implies #[trigger] acts[i] != Action::Scan by {
                if i < n {
                    assert(prev.1[i] != Action::Scan);
                }
            }
        }
    }
}

/// From start on, every two scans that a poller asks for have the wait of
/// `POLL_INTERVAL_SECS` seconds between them, whatever the events.
pub proof fn lemma_scans_separated_by_wait(es: Seq<Event>)
    ensures
        scans_separated(run(Phase::Idle, es).1),
{
    lemma_run_invariant(es);
}

/// A failed scan is reported and followed by the poll wait; when the wait
/// runs out the poller scans again.
pub proof fn lemma_failure_keeps_polling(failure: Event)
    requires
        failure is ScanFailed,
    ensures
        transition(Phase::Scanning, failure) == (Phase::Waiting, poll_wait()),
        step_lines(Phase::Scanning, failure) == seq![error_line(failure->ScanFailed_0@)],
        transition(Phase::Waiting, Event::WaitElapsed) == (Phase::Scanning, Action::Scan),
{
}

/// The poller.
pub struct Poller {
    phase: Phase,
}

impl Poller {
    /// The phase of the poller.
    pub closed spec fn spec_phase(&self) -> Phase {
        self.phase
    }

    /// A poller that has not started.
    pub fn new() -> (r: Poller)
        ensures
            r.spec_phase() == Phase::Idle,
    {
        Poller { phase: Phase::Idle }
    }

    /// The phase of the poller.
    pub fn phase(&self) -> (r: Phase)
        ensures
            r == self.spec_phase(),
    {
        self.phase
    }

    /// Takes event `event`: moves to the next phase and says what to print
    /// and what to do.
    pub fn step(&mut self, event: Event) -> (r: Step)
        ensures
            (final(self).spec_phase(), r.action) == transition(old(self).spec_phase(), event),
            r.lines@.map_values(|l: String| l@) == step_lines(old(self).spec_phase(), event),
    {
        let ghost e = event;
        match event {
            Event::Started => {
                if self.phase == Phase::Idle {
                    self.phase = Phase::Scanning;
                    let mut lines: Vec<String> = Vec::new();
                    lines.push(banner());
                    assert(lines@.map_values(|l: String| l@) =~= seq![banner_line()]);
                    return Step { lines, action: Action::Scan };
                }
            },
            Event::ScanSucceeded(addresses) => {
                if self.phase == Phase::Scanning {
                    self.phase = Phase::Waiting;
                    let lines = report_found(&addresses);
                    return Step { lines, action: Action::Wait { secs: POLL_INTERVAL_SECS } };
                }
            },
            Event::ScanFailed(desc) => {
                if self.phase == Phase::Scanning {
                    self.phase = Phase::Waiting;
                    let mut lines: Vec<String> = Vec::new();
                    lines.push(report_error(desc.as_str()));
                    assert(lines@.map_values(|l: String| l@) =~= seq![error_line(desc@)]);
                    return Step { lines, action: Action::Wait { secs: POLL_INTERVAL_SECS } };
                }
            },
            Event::WaitElapsed => {
                if self.phase == Phase::Waiting {
                    self.phase = Phase::Scanning;
                    let lines: Vec<String> = Vec::new();
                    assert(lines@.map_values(|l: String| l@) =~= Seq::<Seq<char>>::empty());
                    return Step { lines, action: Action::Scan };
                }
            },
        }
        let lines: Vec<String> = Vec::new();
        assert(lines@.map_values(|l: String| l@) =~= Seq::<Seq<char>>::empty());
        Step { lines, action: Action::Nothing }
    }
}

} // verus!
