//! The read-only status monitor fed over its own socket.
//!
//! It keeps a few counters and the set of connected validators; the
//! rendering of the state belongs to the process around the library.

use vstd::prelude::*;
use crate::gossip::saturated_add;
use crate::node::{find_id, has_id, ids_unique};
use crate::poh::PohEntry;

verus! {

/// One update for the monitor.
#[derive(Debug)]
pub enum MonitorMessage {
    CurrentBlock(u64),
    BlockProposal,
    ConsensusVote,
    ValidatorUpdate(Vec<String>),
}

/// The monitor's state.
#[derive(Debug)]
pub struct Monitor {
    pub current_block: u64,
    pub block_proposals: u64,
    pub consensus_votes: u64,
    pub connected_validators: Vec<String>,
}

/// `list` with duplicates dropped: the same identifiers, each once.
fn dedup_ids(list: &Vec<String>) -> (r: Vec<String>)
    ensures
        ids_unique(r@),
        forall|b: Seq<char>| has_id(r@, b) <==> has_id(list@, b),
{
    let mut r: Vec<String> = Vec::new();
    let mut i: usize = 0;
    while i < list.len()
        invariant
            i <= list@.len(),
            ids_unique(r@),
            forall|b: Seq<char>| #[trigger]
                has_id(r@, b) <==> exists|j: int| 0 <= j < i && list@[j]@ == b,
        decreases list@.len() - i,
    {
        let ghost pre = r@;
        match find_id(&r, &list[i]) {
            Some(_) => {},
            None => {
                r.push(list[i].clone());
                proof {
                    assert(r@[pre.len() as int]@ == list@[i as int]@);
                    assert forall|p: int, q: int| 0 <= p < q < r@.len() implies r@[p]@
                        != r@[q]@ by {
                        if q < pre.len() {
                            assert(r@[p] == pre[p] && r@[q] == pre[q]);
                        } else {
                            assert(r@[p] == pre[p]);
                        }
                    }
                    assert forall|b: Seq<char>| #[trigger] has_id(r@, b) implies (exists|j: int|
                        0 <= j < i + 1 && list@[j]@ == b) by {
                        let k = choose|k: int| 0 <= k < r@.len() && r@[k]@ == b;
                        if k < pre.len() {
                            assert(has_id(pre, b));
                            let j = choose|j: int| 0 <= j < i && list@[j]@ == b;
                            assert(list@[j]@ == b);
                        } else {
                            assert(list@[i as int]@ == b);
                        }
                    }
                    assert forall|b: Seq<char>| (exists|j: int| 0 <= j < i + 1 && list@[j]@ == b)
                        implies #[trigger] has_id(r@, b) by {
                        let j = choose|j: int| 0 <= j < i + 1 && list@[j]@ == b;
                        if j < i {
                            assert(has_id(pre, b));
                            let k = choose|k: int| 0 <= k < pre.len() && pre[k]@ == b;
                            assert(r@[k]@ == b);
                        } else {
                            assert(r@[pre.len() as int]@ == b);
                        }
                    }
                }
            },
        }
        i = i + 1;
    }
    r
}

impl Monitor {
    /// One entry per connected validator.
    pub open spec fn wf(self) -> bool {
        ids_unique(self.connected_validators@)
    }

    pub fn new() -> (r: Monitor)
        ensures
            r.wf(),
            r.current_block == 0,
            r.block_proposals == 0,
            r.consensus_votes == 0,
            r.connected_validators@.len() == 0,
    {
        Monitor {
            current_block: 0,
            block_proposals: 0,
            consensus_votes: 0,
            connected_validators: Vec::new(),
        }
    }

    /// Applies one update: counters move, a validator update replaces
    /// the connected set with the listed identifiers, each kept once.
    pub fn update(&mut self, message: MonitorMessage)
        requires
            old(self).wf(),
        ensures
            final(self).wf(),
            match message {
                MonitorMessage::CurrentBlock(b) => {
                    &&& final(self).current_block == b
                    &&& final(self).block_proposals == old(self).block_proposals
                    &&& final(self).consensus_votes == old(self).consensus_votes
                    &&& final(self).connected_validators == old(self).connected_validators
                },
                MonitorMessage::BlockProposal => {
                    &&& final(self).block_proposals == saturated_add(old(self).block_proposals, 1)
                    &&& final(self).current_block == old(self).current_block
                    &&& final(self).consensus_votes == old(self).consensus_votes
                    &&& final(self).connected_validators == old(self).connected_validators
                },
                MonitorMessage::ConsensusVote => {
                    &&& final(self).consensus_votes == saturated_add(old(self).consensus_votes, 1)
                    &&& final(self).current_block == old(self).current_block
                    &&& final(self).block_proposals == old(self).block_proposals
                    &&& final(self).connected_validators == old(self).connected_validators
                },
                MonitorMessage::ValidatorUpdate(validators) => {
                    &&& forall|b: Seq<char>| has_id(final(self).connected_validators@, b)
                        <==> has_id(validators@, b)
                    &&& final(self).current_block == old(self).current_block
                    &&& final(self).block_proposals == old(self).block_proposals
                    &&& final(self).consensus_votes == old(self).consensus_votes
                },
            },
    {
        match message {
            MonitorMessage::CurrentBlock(b) => {
                self.current_block = b;
            },
            MonitorMessage::BlockProposal => {
                if self.block_proposals < u64::MAX {
                    self.block_proposals = self.block_proposals + 1;
                }
            },
            MonitorMessage::ConsensusVote => {
                if self.consensus_votes < u64::MAX {
                    self.consensus_votes = self.consensus_votes + 1;
                }
            },
            MonitorMessage::ValidatorUpdate(validators) => {
                self.connected_validators = dedup_ids(&validators);
            },
        }
    }

    /// How many validators are connected.
    pub fn validator_count(&self) -> (r: usize)
        ensures
            r == self.connected_validators@.len(),
    {
        self.connected_validators.len()
    }
}

/// Entries per unit of history: the plain count of sequencer entries.
pub fn calculate_throughput(poh_entries: &[PohEntry]) -> (r: usize)
    ensures
        r == poh_entries@.len(),
{
    poh_entries.len()
}

} // verus!
