use bouclier_bleu::heuristics::remediation::{
    neutralize_threat_tree, step_notice, ProcessInfo, Remediation,
};
use bouclier_bleu::heuristics::strikes::{
    condemnation_notice, StrikeTracker, STRIKE_LIFETIME, STRIKE_WINDOW,
};

const SECOND: u128 = 1_000_000_000;

#[test]
fn three_strikes_within_the_window_condemn() {
    let mut tracker = StrikeTracker::new();
    assert!(!tracker.on_alert(9, 0, 0));
    assert!(!tracker.on_alert(9, SECOND, SECOND));
    assert!(tracker.on_alert(9, STRIKE_WINDOW, STRIKE_WINDOW));
    // The slate is clean again.
    assert!(!tracker.on_alert(9, STRIKE_WINDOW + 1, STRIKE_WINDOW + 1));
}

#[test]
fn two_strikes_do_not_condemn() {
    let mut tracker = StrikeTracker::new();
    assert!(!tracker.on_alert(9, 0, 0));
    assert!(!tracker.on_alert(9, 1, 1));
}

#[test]
fn an_expired_window_starts_anew() {
    let mut tracker = StrikeTracker::new();
    assert!(!tracker.on_alert(9, 0, 0));
    assert!(!tracker.on_alert(9, SECOND, SECOND));
    let late = STRIKE_WINDOW + 1;
    assert!(!tracker.on_alert(9, late, late));
    assert!(!tracker.on_alert(9, late + 1, late + 1));
    assert!(tracker.on_alert(9, late + 2, late + 2));
}

#[test]
fn parents_are_counted_separately() {
    let mut tracker = StrikeTracker::new();
    for t in 0..2u128 {
        assert!(!tracker.on_alert(1, t, t));
        assert!(!tracker.on_alert(2, t, t));
    }
    assert!(tracker.on_alert(1, 5, 5));
    assert!(tracker.on_alert(2, 5, 5));
}

#[test]
fn stale_entries_are_pruned() {
    let mut tracker = StrikeTracker::new();
    assert!(!tracker.record(9, 0));
    assert!(!tracker.record(9, 1));
    tracker.prune(STRIKE_LIFETIME);
    // Without the prune this would be a third strike inside the window.
    assert!(!tracker.record(9, 2));
    tracker.prune(STRIKE_LIFETIME);
    assert!(!tracker.record(9, 3));
    assert!(tracker.record(9, 4));
}

#[test]
fn a_cleared_tracker_forgets() {
    let mut tracker = StrikeTracker::new();
    assert!(!tracker.record(9, 0));
    assert!(!tracker.record(9, 0));
    tracker.clear();
    assert!(!tracker.record(9, 0));
}

#[test]
fn condemnation_names_the_parent() {
    assert_eq!(
        condemnation_notice(4242),
        "Bouclier Bleu [FATAL]: PPID 4242 crossed heuristic threshold (3 strikes/2s). Executing tree eradication."
    );
}

#[test]
fn workers_go_first_and_bystanders_stay() {
    let table = [
        ProcessInfo { pid: 50, parent: Some(1), start_time: 100 },
        ProcessInfo { pid: 51, parent: Some(50), start_time: 200 },
        ProcessInfo { pid: 60, parent: Some(1), start_time: 100 },
        ProcessInfo { pid: 52, parent: Some(50), start_time: 300 },
        ProcessInfo { pid: 53, parent: None, start_time: 300 },
    ];
    let steps = neutralize_threat_tree(&table, 50, 1000);
    assert_eq!(steps.len(), 3);
    assert!(matches!(steps[0], Remediation::KillWorker(51)));
    assert!(matches!(steps[1], Remediation::KillWorker(52)));
    assert!(matches!(steps[2], Remediation::KillOrchestrator(50)));
    assert_eq!(
        step_notice(steps[0]),
        Some("Bouclier Bleu [REMEDIATION]: Collateral worker terminated -> PID: 51".to_string())
    );
    assert_eq!(step_notice(steps[2]), None);
}

#[test]
fn a_recycled_identifier_is_spared() {
    for start_time in [0, 1000, 2000] {
        let table = [ProcessInfo { pid: 50, parent: Some(1), start_time }];
        let steps = neutralize_threat_tree(&table, 50, 1000);
        assert_eq!(steps.len(), 1);
        assert!(matches!(steps[0], Remediation::SpareRecycled(50)));
        assert_eq!(
            step_notice(steps[0]),
            Some("Bouclier Bleu [WARNING]: Aborted orchestrator termination. PID 50 was recycled.".to_string())
        );
    }
}

#[test]
fn a_vanished_orchestrator_leaves_only_workers() {
    let table = [ProcessInfo { pid: 51, parent: Some(50), start_time: 7 }];
    let steps = neutralize_threat_tree(&table, 50, 1000);
    assert_eq!(steps.len(), 1);
    assert!(matches!(steps[0], Remediation::KillWorker(51)));
}
