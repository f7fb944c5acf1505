//! Blocks: assembly from the chain tip and validation of proposals.
//!
//! A block's hash is the digest of its parent hash, its height and
//! timestamp in big-endian bytes, and its serialized transactions; its
//! height is one above its parent's.  The genesis tip is the all-zero
//! digest at height zero.

use vstd::prelude::*;
use crate::crypto::{sha256, sha256_of};
use crate::encoding::{copy_bytes, extend_bytes, u64_be_bytes, u64_to_be};
use crate::poh::{PohEntry, chain_connected, entries_match, entry_follows, bytes_eq, clone_entry};
use crate::transaction::{
    Transaction,
    txs_bytes,
    txs_match,
    serialize_transactions,
    clone_transaction,
};

verus! {

/// A chained block: the history window it covers, the transactions it
/// embeds, and the hash that links it to its parent.
#[derive(Debug)]
pub struct Block {
    pub parent_hash: Vec<u8>,
    pub block_hash: Vec<u8>,
    pub block_height: u64,
    pub timestamp: u64,
    pub poh_entries: Vec<PohEntry>,
    pub transactions: Vec<Transaction>,
}

/// The bytes fed to the block hash.
pub open spec fn block_bytes(
    parent_hash: Seq<u8>,
    block_height: u64,
    timestamp: u64,
    txs: Seq<Transaction>,
) -> Seq<u8> {
    parent_hash + u64_be_bytes(block_height) + u64_be_bytes(timestamp) + txs_bytes(txs)
}

/// The block's stored hash recomputes from its fields.
pub open spec fn block_hash_ok(b: Block) -> bool {
    b.block_hash@ == sha256_of(
        block_bytes(b.parent_hash@, b.block_height, b.timestamp, b.transactions@),
    )
}

/// The block chains onto the given tip: right parent, height one up.
pub open spec fn linkage_ok(b: Block, tip_hash: Seq<u8>, tip_height: u64) -> bool {
    &&& b.parent_hash@ == tip_hash
    &&& tip_height < u64::MAX
    &&& b.block_height == tip_height + 1
}

/// Two blocks carry the same fields.
pub open spec fn block_matches(a: Block, b: Block) -> bool {
    &&& a.parent_hash@ == b.parent_hash@
    &&& a.block_hash@ == b.block_hash@
    &&& a.block_height == b.block_height
    &&& a.timestamp == b.timestamp
    &&& entries_match(a.poh_entries@, b.poh_entries@)
    &&& txs_match(a.transactions@, b.transactions@)
}

/// The digest that a block with these fields must carry.
pub fn generate_block_hash(
    parent_hash: &Vec<u8>,
    block_height: u64,
    timestamp: u64,
    transactions: &Vec<Transaction>,
) -> (r: Vec<u8>)
    ensures
        r@ == sha256_of(block_bytes(parent_hash@, block_height, timestamp, transactions@)),
        r@.len() == 32,
{
    let mut input = copy_bytes(parent_hash);
    let height_bytes = u64_to_be(block_height);
    extend_bytes(&mut input, height_bytes.as_slice());
    let ts_bytes = u64_to_be(timestamp);
    extend_bytes(&mut input, ts_bytes.as_slice());
    let tx_bytes = serialize_transactions(transactions);
    extend_bytes(&mut input, tx_bytes.as_slice());
    proof {
        assert(input@ =~= block_bytes(parent_hash@, block_height, timestamp, transactions@));
    }
    sha256(input.as_slice())
}

/// Builds the block that advances the given tip: correct hash by
/// construction.
pub fn assemble_block(
    parent_hash: &Vec<u8>,
    tip_height: u64,
    timestamp: u64,
    transactions: Vec<Transaction>,
    poh_entries: Vec<PohEntry>,
) -> (b: Block)
    requires
        tip_height < u64::MAX,
    ensures
        b.parent_hash@ == parent_hash@,
        b.block_height == tip_height + 1,
        b.timestamp == timestamp,
        b.transactions@ == transactions@,
        b.poh_entries@ == poh_entries@,
        block_hash_ok(b),
        linkage_ok(b, parent_hash@, tip_height),
        b.block_hash@.len() == 32,
{
    let block_hash = generate_block_hash(parent_hash, tip_height + 1, timestamp, &transactions);
    Block {
        parent_hash: copy_bytes(parent_hash),
        block_hash,
        block_height: tip_height + 1,
        timestamp,
        poh_entries,
        transactions,
    }
}

/// The verdict on a proposed block.
#[derive(Debug, Clone, Copy, PartialEq, Eq, Structural)]
pub enum BlockValidity {
    /// Chains onto the tip, carries a connected history window, and its
    /// hash recomputes.
    Valid,
    /// Wrong parent hash or wrong height for the tip.
    BadLinkage,
    /// The history window breaks at this index: ask for retransmission
    /// from there.
    BadWindow(usize),
    /// The stored block hash does not recompute from the fields.
    BadHash,
}

/// Checks a proposal against the local tip: linkage first, then the
/// history window, then the hash.
pub fn validate_block(b: &Block, tip_hash: &Vec<u8>, tip_height: u64) -> (r: BlockValidity)
    ensures
        match r {
            BlockValidity::Valid => {
                &&& linkage_ok(*b, tip_hash@, tip_height)
                &&& chain_connected(b.poh_entries@)
                &&& block_hash_ok(*b)
            },
            BlockValidity::BadLinkage => !linkage_ok(*b, tip_hash@, tip_height),
            BlockValidity::BadWindow(i) => {
                &&& linkage_ok(*b, tip_hash@, tip_height)
                &&& 0 < i < b.poh_entries@.len()
                &&& !entry_follows(b.poh_entries@[i as int - 1].hash@, b.poh_entries@[i as int])
                &&& chain_connected(b.poh_entries@.subrange(0, i as int))
            },
            BlockValidity::BadHash => {
                &&& linkage_ok(*b, tip_hash@, tip_height)
                &&& chain_connected(b.poh_entries@)
                &&& !block_hash_ok(*b)
            },
        },
{
    if tip_height == u64::MAX || !bytes_eq(&b.parent_hash, tip_hash) {
        return BlockValidity::BadLinkage;
    }
    if b.block_height != tip_height + 1 {
        return BlockValidity::BadLinkage;
    }
    match crate::poh::validate_poh_entries(&b.poh_entries) {
        Err(i) => BlockValidity::BadWindow(i),
        Ok(()) => {
            let expected = generate_block_hash(
                &b.parent_hash,
                b.block_height,
                b.timestamp,
                &b.transactions,
            );
            if bytes_eq(&expected, &b.block_hash) {
                BlockValidity::Valid
            } else {
                BlockValidity::BadHash
            }
        },
    }
}

/// Along an accepted chain the height rises by exactly one per block:
/// a block that chains onto the tip, and a second block that chains
/// onto the first, sit at consecutive heights above the tip.
pub proof fn lemma_chain_heights(b1: Block, b2: Block, tip_hash: Seq<u8>, tip_height: u64)
    requires
        linkage_ok(b1, tip_hash, tip_height),
        linkage_ok(b2, b1.block_hash@, b1.block_height),
    ensures
        b1.block_height == tip_height + 1,
        b2.block_height == tip_height + 2,
{
}

/// A copy of a block, field for field.
pub fn clone_block(b: &Block) -> (r: Block)
    ensures
        block_matches(r, *b),
{
    let mut poh_entries: Vec<PohEntry> = Vec::new();
    let mut i: usize = 0;
    while i < b.poh_entries.len()
        invariant
            i <= b.poh_entries@.len(),
            poh_entries@.len() == i,
            forall|j: int|
                0 <= j < i ==> crate::poh::entry_matches(poh_entries@[j], b.poh_entries@[j]),
        decreases b.poh_entries@.len() - i,
    {
        poh_entries.push(clone_entry(&b.poh_entries[i]));
        i = i + 1;
    }
    let mut transactions: Vec<Transaction> = Vec::new();
    let mut k: usize = 0;
    while k < b.transactions.len()
        invariant
            k <= b.transactions@.len(),
            transactions@.len() == k,
            forall|j: int|
                0 <= j < k ==> crate::transaction::tx_matches(transactions@[j], b.transactions@[j]),
        decreases b.transactions@.len() - k,
    {
        transactions.push(clone_transaction(&b.transactions[k]));
        k = k + 1;
    }
    Block {
        parent_hash: copy_bytes(&b.parent_hash),
        block_hash: copy_bytes(&b.block_hash),
        block_height: b.block_height,
        timestamp: b.timestamp,
        poh_entries,
        transactions,
    }
}

} // verus!
