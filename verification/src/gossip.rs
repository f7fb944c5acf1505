//! Gossip fan-out policy and traffic counters.
//!
//! A broadcast goes to a pseudo-random half of the known peers, not to
//! all of them: delivery is best-effort, and peers recover missed
//! history through retransmission requests rather than sender retries.

use vstd::prelude::*;
use rand::seq::IteratorRandom;

verus! {

/// `r` consists of entries of `pool` drawn at pairwise distinct
/// positions.
pub open spec fn distinct_selection(r: Seq<String>, pool: Seq<String>) -> bool {
    exists|idxs: Seq<int>|
        {
            &&& idxs.no_duplicates()
            &&& idxs.len() == r.len()
            &&& forall|j: int| 0 <= j < idxs.len() ==> 0 <= idxs[j] < pool.len() && r[j] == pool[idxs[j]]
        }
}

/// Relies on rand::seq::IteratorRandom::choose_multiple: it collects
/// `amount` elements drawn at distinct positions of the iterator, or
/// every element when the iterator holds fewer than `amount`.
#[verifier::external_body]
fn choose_peers(peers: &Vec<String>, amount: usize) -> (r: Vec<String>)
    ensures
        r@.len() == if amount <= peers@.len() {
            amount as int
        } else {
            peers@.len() as int
        },
        distinct_selection(r@, peers@),
{
    peers.iter().choose_multiple(&mut rand::thread_rng(), amount).into_iter().cloned().collect()
}

/// The peers one broadcast goes to: half of the peer set, rounded down,
/// at distinct positions.
pub fn gossip_targets(peers: &Vec<String>) -> (r: Vec<String>)
    ensures
        r@.len() == peers@.len() / 2,
        distinct_selection(r@, peers@),
{
    let amount = peers.len() / 2;
    choose_peers(peers, amount)
}

/// Counters of gossip traffic, monotone over the process lifetime.
#[derive(Debug)]
pub struct GossipActivity {
    pub messages_sent: u64,
    pub messages_received: u64,
}

/// `a + b`, capped at the largest `u64`.
pub open spec fn saturated_add(a: u64, b: u64) -> u64 {
    if a + b <= u64::MAX {
        (a + b) as u64
    } else {
        u64::MAX
    }
}

impl GossipActivity {
    pub fn new() -> (r: GossipActivity)
        ensures
            r.messages_sent == 0,
            r.messages_received == 0,
    {
        GossipActivity { messages_sent: 0, messages_received: 0 }
    }

    /// Counts `n` messages handed to the transport.
    pub fn record_sent(&mut self, n: u64)
        ensures
            final(self).messages_sent == saturated_add(old(self).messages_sent, n),
            final(self).messages_received == old(self).messages_received,
    {
        if n <= u64::MAX - self.messages_sent {
            self.messages_sent = self.messages_sent + n;
        } else {
            self.messages_sent = u64::MAX;
        }
    }

    /// Counts one message received from a peer.
    pub fn record_received(&mut self)
        ensures
            final(self).messages_received == saturated_add(old(self).messages_received, 1),
            final(self).messages_sent == old(self).messages_sent,
    {
        if self.messages_received < u64::MAX {
            self.messages_received = self.messages_received + 1;
        }
    }
}

} // verus!
