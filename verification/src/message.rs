//! The wire protocol's message kinds, as one closed tagged union.
//!
//! Each TCP frame carries the text encoding of exactly one of these;
//! dispatch is by exhaustive match.  Encoding to and from the wire
//! happens outside the library, which works on the decoded values.

use vstd::prelude::*;
use crate::block::Block;
use crate::poh::PohEntry;
use crate::stake::{Stake, Validator};
use crate::transaction::Transaction;

verus! {

/// One protocol message.
#[derive(Debug)]
pub enum Message {
    /// A copy of the sender's history from some index on.
    HistoryEntries(Vec<PohEntry>),
    /// A request for the history suffix starting at this index.
    RetransmissionRequest(u64),
    /// A candidate block for the next height.
    BlockProposal(Block),
    /// The sender's vote on the given block.
    ConsensusVote(Block, bool),
    /// A handshake: the connecting validator introduces itself.
    RegisterValidator(Validator),
    /// A stake deposit for a validator.
    StakeTokens(Stake),
    /// A transaction for the pool.
    Transaction(Transaction),
    /// Free-form gossip, counted but not interpreted.
    GossipMessage(String),
}

/// What the node asks the connection task to do with a message.
#[derive(Debug)]
pub enum Action {
    /// Send back to the peer this message came from.
    Reply(Message),
    /// Broadcast to a gossip subset of the known peers.
    Gossip(Message),
}

} // verus!
