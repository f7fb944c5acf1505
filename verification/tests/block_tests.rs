use poh_node::block::{generate_block_hash, validate_block, BlockValidity};
use poh_node::node::Node;
use poh_node::transaction::create_transaction;
use sha2::{Digest, Sha256};

#[test]
fn block_hash_recomputes_from_fields() {
    let parent = vec![7u8; 32];
    let tx = create_transaction("alice".to_string(), "bob".to_string(), 42, vec![1, 2, 3]);
    let txs = vec![tx];
    let hash = generate_block_hash(&parent, 3, 1_700_000_123, &txs);

    // Recompute by hand: parent, height and timestamp big-endian, then
    // each transaction with length-prefixed fields.
    let mut hasher = Sha256::new();
    hasher.update(&parent);
    hasher.update(3u64.to_be_bytes());
    hasher.update(1_700_000_123u64.to_be_bytes());
    let sender = b"alice";
    let receiver = b"bob";
    hasher.update((sender.len() as u64).to_be_bytes());
    hasher.update(sender);
    hasher.update((receiver.len() as u64).to_be_bytes());
    hasher.update(receiver);
    hasher.update(42u64.to_be_bytes());
    hasher.update(3u64.to_be_bytes());
    hasher.update([1u8, 2, 3]);
    let expected: Vec<u8> = hasher.finalize().to_vec();
    assert_eq!(hash, expected);
}

#[test]
fn assembled_block_is_valid_against_old_tip() {
    let mut node = Node::new();
    node.tick(100);
    node.tick(101);
    let old_tip = node.tip_hash.clone();
    let old_height = node.tip_height;
    let block = node.assemble_and_advance(102);
    assert_eq!(block.block_height, old_height + 1);
    assert_eq!(block.parent_hash, old_tip);
    assert_eq!(block.poh_entries.len(), 2);
    assert_eq!(
        validate_block(&block, &old_tip, old_height),
        BlockValidity::Valid
    );
    // The tip advanced to the new block.
    assert_eq!(node.tip_hash, block.block_hash);
    assert_eq!(node.tip_height, block.block_height);
}

#[test]
fn height_increases_by_one_along_the_chain() {
    let mut node = Node::new();
    let b1 = node.assemble_and_advance(10);
    let b2 = node.assemble_and_advance(20);
    let b3 = node.assemble_and_advance(30);
    assert_eq!(b1.block_height, 1);
    assert_eq!(b2.block_height, 2);
    assert_eq!(b3.block_height, 3);
    assert_eq!(b2.parent_hash, b1.block_hash);
    assert_eq!(b3.parent_hash, b2.block_hash);
}

#[test]
fn mismatched_parent_is_rejected() {
    let mut node = Node::new();
    let old_tip = node.tip_hash.clone();
    let old_height = node.tip_height;
    let mut block = node.assemble_and_advance(50);
    block.parent_hash[0] ^= 1;
    assert_eq!(
        validate_block(&block, &old_tip, old_height),
        BlockValidity::BadLinkage
    );
}

#[test]
fn wrong_height_is_rejected() {
    let mut node = Node::new();
    let old_tip = node.tip_hash.clone();
    let block = node.assemble_and_advance(50);
    // Validated against a tip two below the block's height.
    assert_eq!(
        validate_block(&block, &old_tip, 7),
        BlockValidity::BadLinkage
    );
}

#[test]
fn tampered_hash_is_rejected() {
    let mut node = Node::new();
    let old_tip = node.tip_hash.clone();
    let old_height = node.tip_height;
    let mut block = node.assemble_and_advance(50);
    block.block_hash[5] ^= 0x10;
    assert_eq!(
        validate_block(&block, &old_tip, old_height),
        BlockValidity::BadHash
    );
}

#[test]
fn broken_history_window_names_first_bad_index() {
    let mut node = Node::new();
    node.tick(100);
    node.tick(101);
    node.tick(102);
    let old_tip = node.tip_hash.clone();
    let old_height = node.tip_height;
    let mut block = node.assemble_and_advance(103);
    block.poh_entries[1].hash[0] ^= 0xff;
    assert_eq!(
        validate_block(&block, &old_tip, old_height),
        BlockValidity::BadWindow(1)
    );
}
