use poh_node::stake::StakeLedger;
use poh_node::votes::{is_final, VoteTracker};

fn ledger_a100_b300() -> StakeLedger {
    let mut ledger = StakeLedger::new();
    assert!(ledger.deposit_stake(&"A".to_string(), 100));
    assert!(ledger.deposit_stake(&"B".to_string(), 300));
    ledger
}

#[test]
fn tally_weighs_yes_votes_by_stake() {
    let ledger = ledger_a100_b300();
    let mut tracker = VoteTracker::new();
    tracker.record_vote(&"A".to_string(), 1, true);
    tracker.record_vote(&"B".to_string(), 1, false);
    let (yes, total) = tracker.tally(&ledger);
    assert_eq!(yes, 100);
    assert_eq!(total, 400);
    assert!(!is_final(yes, total));

    tracker.record_vote(&"B".to_string(), 1, true);
    let (yes, total) = tracker.tally(&ledger);
    assert_eq!(yes, 400);
    assert_eq!(total, 400);
    assert!(is_final(yes, total));
}

#[test]
fn revoting_replaces_the_old_vote() {
    let ledger = ledger_a100_b300();
    let mut tracker = VoteTracker::new();
    tracker.record_vote(&"B".to_string(), 1, true);
    tracker.record_vote(&"B".to_string(), 1, false);
    let (yes, _) = tracker.tally(&ledger);
    assert_eq!(yes, 0);
    assert_eq!(tracker.votes.len(), 1);
}

#[test]
fn a_higher_round_clears_the_votes() {
    let ledger = ledger_a100_b300();
    let mut tracker = VoteTracker::new();
    tracker.record_vote(&"A".to_string(), 1, true);
    tracker.record_vote(&"B".to_string(), 1, true);
    tracker.record_vote(&"A".to_string(), 2, true);
    assert_eq!(tracker.round_height, 2);
    let (yes, total) = tracker.tally(&ledger);
    assert_eq!(yes, 100);
    assert_eq!(total, 400);
}

#[test]
fn a_stale_round_is_ignored() {
    let mut tracker = VoteTracker::new();
    tracker.record_vote(&"A".to_string(), 5, true);
    tracker.record_vote(&"B".to_string(), 3, true);
    assert_eq!(tracker.round_height, 5);
    assert_eq!(tracker.votes.len(), 1);
}

#[test]
fn start_round_resets_the_set() {
    let mut tracker = VoteTracker::new();
    tracker.record_vote(&"A".to_string(), 1, true);
    tracker.start_round(9);
    assert_eq!(tracker.round_height, 9);
    assert!(tracker.votes.is_empty());
}

#[test]
fn tracker_finality_is_scoped_to_the_current_round() {
    let ledger = ledger_a100_b300();
    let mut tracker = VoteTracker::new();
    tracker.record_vote(&"B".to_string(), 4, true);
    // 300 of 400 is above two thirds, but only for round 4.
    assert!(tracker.is_final(4, &ledger));
    assert!(!tracker.is_final(3, &ledger));
    assert!(!tracker.is_final(5, &ledger));
}

#[test]
fn finality_needs_strictly_more_than_two_thirds() {
    // Exactly two thirds is not final.
    assert!(!is_final(2, 3));
    assert!(!is_final(66, 99));
    // Just above two thirds is final.
    assert!(is_final(67, 100));
    assert!(is_final(3, 4));
    // Edge values.
    assert!(!is_final(0, 0));
    assert!(is_final(u64::MAX, u64::MAX));
    assert!(!is_final(u64::MAX / 3 * 2, u64::MAX));
}
