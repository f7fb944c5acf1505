use poh_node::node::Node;
use poh_node::poh::{history_from, validate_poh_entries, PohEntry};
use sha2::{Digest, Sha256};

fn ticked_node(n: u64) -> Node {
    let mut node = Node::new();
    for t in 0..n {
        node.tick(1_700_000_000 + t);
    }
    node
}

#[test]
fn tick_chain_validates() {
    let node = ticked_node(5);
    assert_eq!(node.history.len(), 5);
    assert_eq!(validate_poh_entries(&node.history), Ok(()));
}

#[test]
fn empty_and_single_histories_validate() {
    let empty: Vec<PohEntry> = Vec::new();
    assert_eq!(validate_poh_entries(&empty), Ok(()));
    let node = ticked_node(1);
    assert_eq!(validate_poh_entries(&node.history), Ok(()));
}

#[test]
fn first_entry_hash_is_sha256_of_zero_and_timestamp() {
    let node = ticked_node(1);
    let entry = &node.history[0];
    let mut hasher = Sha256::new();
    hasher.update([0u8; 32]);
    hasher.update(entry.timestamp.to_be_bytes());
    let expected: Vec<u8> = hasher.finalize().to_vec();
    assert_eq!(entry.hash, expected);
}

#[test]
fn later_entry_hash_chains_from_predecessor() {
    let node = ticked_node(3);
    let prev = &node.history[1];
    let cur = &node.history[2];
    let mut hasher = Sha256::new();
    hasher.update(&prev.hash);
    hasher.update(cur.timestamp.to_be_bytes());
    let expected: Vec<u8> = hasher.finalize().to_vec();
    assert_eq!(cur.hash, expected);
}

#[test]
fn tampered_entry_is_rejected_at_first_bad_index() {
    let node = ticked_node(6);
    let mut entries: Vec<PohEntry> = Vec::new();
    for e in &node.history {
        entries.push(PohEntry {
            timestamp: e.timestamp,
            hash: e.hash.clone(),
        });
    }
    entries[2].hash[0] ^= 0xff;
    // Entry 2 no longer chains from entry 1, so index 2 is reported.
    assert_eq!(validate_poh_entries(&entries), Err(2));
}

#[test]
fn tampered_timestamp_is_rejected() {
    let node = ticked_node(4);
    let mut entries: Vec<PohEntry> = Vec::new();
    for e in &node.history {
        entries.push(PohEntry {
            timestamp: e.timestamp,
            hash: e.hash.clone(),
        });
    }
    entries[3].timestamp += 1;
    assert_eq!(validate_poh_entries(&entries), Err(3));
}

#[test]
fn retransmission_returns_exact_suffix() {
    let node = ticked_node(10);
    let suffix = history_from(&node.history, 5);
    assert_eq!(suffix.len(), 5);
    for (i, e) in suffix.iter().enumerate() {
        assert_eq!(e.timestamp, node.history[5 + i].timestamp);
        assert_eq!(e.hash, node.history[5 + i].hash);
    }
}

#[test]
fn retransmission_past_the_end_is_empty() {
    let node = ticked_node(10);
    let suffix = history_from(&node.history, 20);
    assert!(suffix.is_empty());
    let at_end = history_from(&node.history, 10);
    assert!(at_end.is_empty());
}
