use poh_node::monitor::{calculate_throughput, Monitor, MonitorMessage};
use poh_node::node::Node;

#[test]
fn updates_move_the_counters() {
    let mut monitor = Monitor::new();
    monitor.update(MonitorMessage::CurrentBlock(12));
    monitor.update(MonitorMessage::BlockProposal);
    monitor.update(MonitorMessage::BlockProposal);
    monitor.update(MonitorMessage::ConsensusVote);
    assert_eq!(monitor.current_block, 12);
    assert_eq!(monitor.block_proposals, 2);
    assert_eq!(monitor.consensus_votes, 1);
}

#[test]
fn validator_update_replaces_and_deduplicates() {
    let mut monitor = Monitor::new();
    monitor.update(MonitorMessage::ValidatorUpdate(vec![
        "a".to_string(),
        "b".to_string(),
        "a".to_string(),
        "c".to_string(),
        "b".to_string(),
    ]));
    assert_eq!(monitor.validator_count(), 3);
    monitor.update(MonitorMessage::ValidatorUpdate(vec!["z".to_string()]));
    assert_eq!(monitor.validator_count(), 1);
    assert_eq!(monitor.connected_validators[0], "z");
}

#[test]
fn throughput_counts_the_entries() {
    let mut node = Node::new();
    for t in 0..7u64 {
        node.tick(t);
    }
    assert_eq!(calculate_throughput(&node.history), 7);
    assert_eq!(calculate_throughput(&[]), 0);
}
