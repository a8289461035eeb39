use pool_scanner::poller::{Action, Event, Phase, Poller, POLL_INTERVAL_SECS};

fn started() -> Poller {
    let mut p = Poller::new();
    let s = p.step(Event::Started);
    assert_eq!(s.lines, vec!["Listening for new liquidity pools..."]);
    assert_eq!(s.action, Action::Scan);
    p
}

#[test]
fn zero_matches_report_only_the_count() {
    let mut p = started();
    let s = p.step(Event::ScanSucceeded(vec![]));
    assert_eq!(s.lines, vec!["Found 0 new liquidity pools!"]);
    assert_eq!(s.action, Action::Wait { secs: 5 });
}

#[test]
fn matches_are_listed_in_order() {
    let mut p = started();
    let s = p.step(Event::ScanSucceeded(vec![[0u8; 32], [0u8; 32]]));
    let zero = "1".repeat(32);
    assert_eq!(
        s.lines,
        vec![
            "Found 2 new liquidity pools!".to_string(),
            format!("Pool Address: {zero}"),
            format!("Pool Address: {zero}"),
        ]
    );
    assert_eq!(p.phase(), Phase::Waiting);
}

#[test]
fn failure_is_reported_and_polling_goes_on() {
    let mut p = started();
    let s = p.step(Event::ScanFailed("connection refused".to_string()));
    assert_eq!(s.lines, vec!["Error fetching LP accounts: connection refused"]);
    assert_eq!(s.action, Action::Wait { secs: POLL_INTERVAL_SECS });
    let s = p.step(Event::WaitElapsed);
    assert!(s.lines.is_empty());
    assert_eq!(s.action, Action::Scan);
    assert_eq!(p.phase(), Phase::Scanning);
}

#[test]
fn every_scan_after_the_first_follows_a_wait() {
    let mut p = started();
    let mut actions = vec![Action::Scan];
    for round in 0..4 {
        let outcome = if round % 2 == 0 {
            Event::ScanSucceeded(vec![[1u8; 32]])
        } else {
            Event::ScanFailed("e".to_string())
        };
        actions.push(p.step(outcome).action);
        actions.push(p.step(Event::WaitElapsed).action);
    }
    for (i, a) in actions.iter().enumerate().skip(1) {
        if *a == Action::Scan {
            assert_eq!(actions[i - 1], Action::Wait { secs: 5 });
        }
    }
    assert_eq!(POLL_INTERVAL_SECS, 5);
}

#[test]
fn events_out_of_turn_change_nothing() {
    let mut p = Poller::new();
    let s = p.step(Event::WaitElapsed);
    assert!(s.lines.is_empty());
    assert_eq!(s.action, Action::Nothing);
    assert_eq!(p.phase(), Phase::Idle);
    let mut p = started();
    let s = p.step(Event::Started);
    assert_eq!(s.action, Action::Nothing);
    assert_eq!(p.phase(), Phase::Scanning);
    let s = p.step(Event::WaitElapsed);
    assert_eq!(s.action, Action::Nothing);
    p.step(Event::ScanSucceeded(vec![]));
    let s = p.step(Event::ScanFailed("late".to_string()));
    assert!(s.lines.is_empty());
    assert_eq!(s.action, Action::Nothing);
    assert_eq!(p.phase(), Phase::Waiting);
}
