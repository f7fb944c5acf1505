use poh_node::election::{elect_leader, select_weighted};
use poh_node::stake::{Stake, StakeLedger};

fn two_validator_snapshot() -> Vec<Stake> {
    vec![
        Stake {
            validator_id: "A".to_string(),
            amount: 100,
        },
        Stake {
            validator_id: "B".to_string(),
            amount: 300,
        },
    ]
}

#[test]
fn draws_fall_into_stake_bands() {
    let snapshot = two_validator_snapshot();
    assert_eq!(select_weighted(&snapshot, 0), Some("A".to_string()));
    assert_eq!(select_weighted(&snapshot, 99), Some("A".to_string()));
    assert_eq!(select_weighted(&snapshot, 100), Some("B".to_string()));
    assert_eq!(select_weighted(&snapshot, 399), Some("B".to_string()));
}

#[test]
fn selection_frequency_is_proportional_to_stake() {
    // Over every possible draw, B is chosen exactly three times as
    // often as A: 300 draws against 100.
    let snapshot = two_validator_snapshot();
    let mut a_wins = 0u64;
    let mut b_wins = 0u64;
    for draw in 0..400u64 {
        match select_weighted(&snapshot, draw).as_deref() {
            Some("A") => a_wins += 1,
            Some("B") => b_wins += 1,
            other => panic!("unexpected winner {:?}", other),
        }
    }
    assert_eq!(a_wins, 100);
    assert_eq!(b_wins, 300);
    assert_eq!(b_wins, 3 * a_wins);
}

#[test]
fn empty_ledger_elects_nobody_every_round() {
    let ledger = StakeLedger::new();
    for _ in 0..10 {
        assert_eq!(elect_leader(&ledger), None);
    }
}

#[test]
fn zero_stake_elects_nobody() {
    let mut ledger = StakeLedger::new();
    assert!(ledger.set_stake(&"A".to_string(), 0));
    assert!(ledger.set_stake(&"B".to_string(), 0));
    assert_eq!(elect_leader(&ledger), None);
}

#[test]
fn positive_stake_elects_a_staked_validator() {
    let mut ledger = StakeLedger::new();
    assert!(ledger.set_stake(&"A".to_string(), 100));
    assert!(ledger.set_stake(&"B".to_string(), 300));
    for _ in 0..20 {
        let leader = elect_leader(&ledger).expect("a leader must be elected");
        assert!(leader == "A" || leader == "B");
    }
}

#[test]
fn sole_staked_validator_always_wins() {
    let mut ledger = StakeLedger::new();
    assert!(ledger.set_stake(&"idle".to_string(), 0));
    assert!(ledger.set_stake(&"active".to_string(), 7));
    for _ in 0..10 {
        assert_eq!(elect_leader(&ledger), Some("active".to_string()));
    }
}
