use poh_node::node::Node;
use poh_node::stake::{StakeLedger, Validator};

#[test]
fn deposit_accumulates_and_creates_at_zero() {
    let mut ledger = StakeLedger::new();
    let id = "v1".to_string();
    assert_eq!(ledger.stake_of(&id), 0);
    assert!(ledger.deposit_stake(&id, 50));
    assert_eq!(ledger.stake_of(&id), 50);
    assert!(ledger.deposit_stake(&id, 25));
    assert_eq!(ledger.stake_of(&id), 75);
    assert_eq!(ledger.total_stake(), 75);
}

#[test]
fn set_stake_replaces_the_amount() {
    let mut ledger = StakeLedger::new();
    let id = "v1".to_string();
    assert!(ledger.set_stake(&id, 500));
    assert!(ledger.set_stake(&id, 20));
    assert_eq!(ledger.stake_of(&id), 20);
    assert_eq!(ledger.total_stake(), 20);
}

#[test]
fn deposit_overflowing_the_total_is_refused() {
    let mut ledger = StakeLedger::new();
    let a = "a".to_string();
    let b = "b".to_string();
    assert!(ledger.deposit_stake(&a, u64::MAX - 10));
    assert!(!ledger.deposit_stake(&b, 11));
    // The refused deposit left everything as it was.
    assert_eq!(ledger.stake_of(&b), 0);
    assert_eq!(ledger.total_stake(), u64::MAX - 10);
    assert!(ledger.deposit_stake(&b, 10));
    assert_eq!(ledger.total_stake(), u64::MAX);
}

#[test]
fn remove_drops_only_that_validator() {
    let mut ledger = StakeLedger::new();
    let a = "a".to_string();
    let b = "b".to_string();
    assert!(ledger.deposit_stake(&a, 10));
    assert!(ledger.deposit_stake(&b, 20));
    ledger.remove(&a);
    assert!(!ledger.contains(&a));
    assert!(ledger.contains(&b));
    assert_eq!(ledger.stake_of(&b), 20);
    assert_eq!(ledger.total_stake(), 20);
    // Removing an absent identifier is harmless.
    ledger.remove(&a);
    assert_eq!(ledger.total_stake(), 20);
}

#[test]
fn snapshot_keeps_insertion_order() {
    let mut ledger = StakeLedger::new();
    assert!(ledger.deposit_stake(&"x".to_string(), 1));
    assert!(ledger.deposit_stake(&"y".to_string(), 2));
    assert!(ledger.deposit_stake(&"z".to_string(), 3));
    let snap = ledger.snapshot();
    let ids: Vec<&str> = snap.iter().map(|s| s.validator_id.as_str()).collect();
    assert_eq!(ids, vec!["x", "y", "z"]);
    let amounts: Vec<u64> = snap.iter().map(|s| s.amount).collect();
    assert_eq!(amounts, vec![1, 2, 3]);
}

#[test]
fn registration_derives_the_base58_identifier() {
    let mut node = Node::new();
    let v = Validator {
        id: "ignored".to_string(),
        public_key: vec![1, 2, 3, 4, 5],
    };
    let (id, seeded) = node.register_validator(&v, 2000);
    assert!(seeded);
    assert_eq!(id, bs58::encode(&[1u8, 2, 3, 4, 5]).into_string());
    assert_eq!(node.validators.len(), 1);
    assert_eq!(node.stakes.stake_of(&id), 2000);
    // Registering the same key again does not duplicate the entry.
    let (id2, _) = node.register_validator(&v, 3000);
    assert_eq!(id2, id);
    assert_eq!(node.validators.len(), 1);
    assert_eq!(node.stakes.stake_of(&id), 3000);
}

#[test]
fn deregistration_keeps_the_stake() {
    let mut node = Node::new();
    let v = Validator {
        id: String::new(),
        public_key: vec![9, 9, 9],
    };
    let (id, _) = node.register_validator(&v, 1500);
    node.deregister_validator(&id);
    assert_eq!(node.validators.len(), 0);
    assert_eq!(node.stakes.stake_of(&id), 1500);
}

#[test]
fn faucet_amount_stays_in_range() {
    for _ in 0..200 {
        let amount = Node::faucet_amount();
        assert!((1000..10000).contains(&amount));
    }
}
