//! A minimal proof-of-history / proof-of-stake blockchain node core.
//!
//! The library holds the verified logic of the node: the hash-chain
//! sequencer, the stake ledger and validator registry, weighted leader
//! election, the transaction pool, block assembly and validation, the
//! vote tracker with stake-weighted finality, and the message dispatch
//! of the gossip layer.  Network transport, timers and serialization to
//! the wire live outside the library and hand it plain values.

pub mod block;
pub mod crypto;
pub mod encoding;
pub mod election;
pub mod gossip;
pub mod message;
pub mod monitor;
pub mod node;
pub mod poh;
pub mod rng;
pub mod stake;
pub mod transaction;
pub mod votes;
