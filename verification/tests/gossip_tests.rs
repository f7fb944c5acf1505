use poh_node::encoding::{frame_length, frame_message};
use poh_node::gossip::{gossip_targets, GossipActivity};
use poh_node::node::Node;
use std::collections::HashSet;

fn peers(n: usize) -> Vec<String> {
    (0..n).map(|i| format!("127.0.0.1:{}", 8100 + i)).collect()
}

#[test]
fn fanout_is_half_of_ten_distinct_peers() {
    let pool = peers(10);
    for _ in 0..20 {
        let targets = gossip_targets(&pool);
        assert_eq!(targets.len(), 5);
        let distinct: HashSet<&String> = targets.iter().collect();
        assert_eq!(distinct.len(), 5);
        for t in &targets {
            assert!(pool.contains(t));
        }
    }
}

#[test]
fn fanout_rounds_down() {
    assert_eq!(gossip_targets(&peers(0)).len(), 0);
    assert_eq!(gossip_targets(&peers(1)).len(), 0);
    assert_eq!(gossip_targets(&peers(3)).len(), 1);
    assert_eq!(gossip_targets(&peers(7)).len(), 3);
}

#[test]
fn counters_move_as_recorded() {
    let mut activity = GossipActivity::new();
    activity.record_sent(5);
    activity.record_received();
    activity.record_received();
    assert_eq!(activity.messages_sent, 5);
    assert_eq!(activity.messages_received, 2);
    activity.record_sent(u64::MAX);
    assert_eq!(activity.messages_sent, u64::MAX);
}

#[test]
fn broadcast_counts_the_sends() {
    let mut node = Node::new();
    let pool = peers(10);
    let targets = node.broadcast_targets(&pool);
    assert_eq!(targets.len(), 5);
    assert_eq!(node.gossip_activity.messages_sent, 5);
    assert_eq!(node.gossip_activity.messages_received, 0);
}

#[test]
fn frame_round_trips() {
    let payload: Vec<u8> = b"{\"kind\":\"GossipMessage\"}".to_vec();
    let frame = frame_message(&payload);
    assert_eq!(frame.len(), payload.len() + 4);
    let header: Vec<u8> = frame[..4].to_vec();
    assert_eq!(frame_length(&header) as usize, payload.len());
    assert_eq!(&frame[4..], &payload[..]);
}

#[test]
fn empty_payload_frames_to_header_only() {
    let payload: Vec<u8> = Vec::new();
    let frame = frame_message(&payload);
    assert_eq!(frame, vec![0u8, 0, 0, 0]);
    assert_eq!(frame_length(&frame), 0);
}
