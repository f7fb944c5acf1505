use poh_node::message::{Action, Message};
use poh_node::node::Node;
use poh_node::poh::validate_poh_entries;
use poh_node::stake::Stake;
use poh_node::transaction::{create_transaction, Transaction};

fn sender() -> String {
    "peer-1".to_string()
}

#[test]
fn end_to_end_single_node_scenario() {
    // One node, no peers: five ticks of history, one admitted
    // transaction, one assembled block.
    let mut node = Node::new();
    for t in 0..5u64 {
        node.tick(2_000_000_000 + t);
    }
    assert!(node.history.len() >= 5);
    assert_eq!(validate_poh_entries(&node.history), Ok(()));

    let tx = create_transaction(
        "alice".to_string(),
        "bob".to_string(),
        100,
        vec![1, 2, 3, 4],
    );
    let actions = node.handle_message(&sender(), Message::Transaction(tx));
    assert_eq!(node.pool.len(), 1);
    assert_eq!(actions.len(), 1);

    let prior_height = node.tip_height;
    let block = node.assemble_and_advance(2_000_000_010);
    assert_eq!(block.block_height, prior_height + 1);
    assert_eq!(block.transactions.len(), 1);
    assert_eq!(block.transactions[0].sender, "alice");
    assert_eq!(block.transactions[0].amount, 100);
    // The pool was drained: the transaction cannot be embedded twice.
    assert_eq!(node.pool.len(), 0);
}

#[test]
fn transaction_with_empty_signature_is_rejected() {
    let mut node = Node::new();
    let tx = create_transaction("a".to_string(), "b".to_string(), 5, Vec::new());
    assert!(!tx.validate());
    let actions = node.handle_message(&sender(), Message::Transaction(tx));
    assert!(actions.is_empty());
    assert_eq!(node.pool.len(), 0);
}

#[test]
fn admitted_transaction_is_gossiped_onward() {
    let mut node = Node::new();
    let tx = create_transaction("a".to_string(), "b".to_string(), 5, vec![9]);
    let actions = node.handle_message(&sender(), Message::Transaction(tx));
    match &actions[..] {
        [Action::Gossip(Message::Transaction(t))] => {
            assert_eq!(t.sender, "a");
            assert_eq!(t.amount, 5);
        }
        other => panic!("unexpected actions {:?}", other),
    }
}

#[test]
fn stake_tokens_accumulate_into_the_ledger() {
    let mut node = Node::new();
    let stake = Stake {
        validator_id: "v".to_string(),
        amount: 70,
    };
    let actions = node.handle_message(&sender(), Message::StakeTokens(stake));
    assert!(actions.is_empty());
    assert_eq!(node.stakes.stake_of(&"v".to_string()), 70);
    let more = Stake {
        validator_id: "v".to_string(),
        amount: 30,
    };
    node.handle_message(&sender(), Message::StakeTokens(more));
    assert_eq!(node.stakes.stake_of(&"v".to_string()), 100);
}

#[test]
fn consensus_vote_is_recorded_for_the_sender() {
    let mut node = Node::new();
    let block = node.assemble_and_advance(42);
    let height = block.block_height;
    let actions = node.handle_message(&sender(), Message::ConsensusVote(block, true));
    assert!(actions.is_empty());
    assert_eq!(node.votes.round_height, height);
    assert_eq!(node.votes.votes.len(), 1);
    assert_eq!(node.votes.votes[0].validator_id, sender());
    assert!(node.votes.votes[0].approve);
}

#[test]
fn valid_proposal_is_gossiped_and_voted_for() {
    // Build the proposal on one node and validate it on a fresh one:
    // both start at the genesis tip.
    let mut proposer = Node::new();
    proposer.tick(7);
    let block = proposer.assemble_and_advance(8);

    let mut validator = Node::new();
    let actions = validator.handle_message(&sender(), Message::BlockProposal(block));
    assert_eq!(actions.len(), 2);
    assert!(matches!(
        actions[0],
        Action::Gossip(Message::BlockProposal(_))
    ));
    match &actions[1] {
        Action::Reply(Message::ConsensusVote(b, vote)) => {
            assert!(*vote);
            assert_eq!(b.block_height, 1);
        }
        other => panic!("unexpected action {:?}", other),
    }
}

#[test]
fn proposal_with_wrong_parent_is_dropped_without_a_vote() {
    let mut proposer = Node::new();
    let _ = proposer.assemble_and_advance(8);
    // The second block's parent is no longer the genesis tip.
    let second = proposer.assemble_and_advance(9);

    let mut validator = Node::new();
    let actions = validator.handle_message(&sender(), Message::BlockProposal(second));
    assert!(actions.is_empty());
}

#[test]
fn proposal_with_broken_window_requests_retransmission() {
    let mut proposer = Node::new();
    proposer.tick(7);
    proposer.tick(8);
    let mut block = proposer.assemble_and_advance(9);
    block.poh_entries[1].hash[3] ^= 0x40;

    let mut validator = Node::new();
    let actions = validator.handle_message(&sender(), Message::BlockProposal(block));
    match &actions[..] {
        [Action::Reply(Message::RetransmissionRequest(i))] => assert_eq!(*i, 1),
        other => panic!("unexpected actions {:?}", other),
    }
}

#[test]
fn retransmission_request_round_trips_missing_entries() {
    let mut node = Node::new();
    for t in 0..10u64 {
        node.tick(t);
    }
    let actions = node.handle_message(&sender(), Message::RetransmissionRequest(5));
    match &actions[..] {
        [Action::Reply(Message::HistoryEntries(es))] => {
            assert_eq!(es.len(), 5);
            for (i, e) in es.iter().enumerate() {
                assert_eq!(e.hash, node.history[5 + i].hash);
            }
        }
        other => panic!("unexpected actions {:?}", other),
    }
    let actions = node.handle_message(&sender(), Message::RetransmissionRequest(20));
    match &actions[..] {
        [Action::Reply(Message::HistoryEntries(es))] => assert!(es.is_empty()),
        other => panic!("unexpected actions {:?}", other),
    }
}

#[test]
fn incoming_history_is_checked_and_retransmission_requested() {
    let mut source = Node::new();
    for t in 0..6u64 {
        source.tick(t);
    }
    let mut entries = Vec::new();
    for e in &source.history {
        entries.push(poh_node::poh::PohEntry {
            timestamp: e.timestamp,
            hash: e.hash.clone(),
        });
    }

    let mut node = Node::new();
    let ok = node.handle_message(&sender(), Message::HistoryEntries(entries));
    assert!(ok.is_empty());

    let mut tampered = Vec::new();
    for e in &source.history {
        tampered.push(poh_node::poh::PohEntry {
            timestamp: e.timestamp,
            hash: e.hash.clone(),
        });
    }
    tampered[4].hash[0] ^= 1;
    let actions = node.handle_message(&sender(), Message::HistoryEntries(tampered));
    match &actions[..] {
        [Action::Reply(Message::RetransmissionRequest(i))] => assert_eq!(*i, 4),
        other => panic!("unexpected actions {:?}", other),
    }
}

#[test]
fn gossip_message_only_bumps_the_counter() {
    let mut node = Node::new();
    let actions = node.handle_message(&sender(), Message::GossipMessage("hello".to_string()));
    assert!(actions.is_empty());
    assert_eq!(node.gossip_activity.messages_received, 1);
    assert_eq!(node.gossip_activity.messages_sent, 0);
}

#[test]
fn in_loop_registration_is_a_no_op() {
    let mut node = Node::new();
    let v = poh_node::stake::Validator {
        id: "x".to_string(),
        public_key: vec![1],
    };
    let actions = node.handle_message(&sender(), Message::RegisterValidator(v));
    assert!(actions.is_empty());
    assert_eq!(node.validators.len(), 0);
}

#[test]
fn leader_gates_the_proposal_right() {
    let mut node = Node::new();
    let me = "me".to_string();
    assert!(!node.may_propose(&me));
    node.run_election();
    // With an empty ledger there is no leader and nobody may propose.
    assert!(!node.may_propose(&me));
    assert!(node.stakes.deposit_stake(&me, 10));
    node.run_election();
    assert!(node.may_propose(&me));
}

#[test]
fn status_reports_the_node_counts() {
    let mut node = Node::new();
    node.tick(1);
    node.tick(2);
    let tx: Transaction = create_transaction("s".to_string(), "r".to_string(), 1, vec![1]);
    node.handle_message(&sender(), Message::Transaction(tx));
    assert!(node.stakes.deposit_stake(&"v".to_string(), 40));
    let status = node.status();
    assert_eq!(status.history_len, 2);
    assert_eq!(status.pool_size, 1);
    assert_eq!(status.total_stake, 40);
    assert_eq!(status.validator_count, 0);
    assert!(!status.leader_elected);
    assert_eq!(status.tip_height, 0);
}
