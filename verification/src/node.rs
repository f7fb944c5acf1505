//! The node: all shared state and the per-message dispatch.
//!
//! Every task of the process — the sequencer tick, block assembly,
//! leader election, and one task per peer connection — works on this
//! state.  The connection tasks hand each decoded frame to
//! [`Node::handle_message`], which mutates the state and returns the
//! actions (replies and broadcasts) for the transport to perform; the
//! transport itself stays outside the library.

use vstd::prelude::*;
use crate::block::{
    Block,
    BlockValidity,
    assemble_block,
    block_hash_ok,
    block_matches,
    clone_block,
    linkage_ok,
    validate_block,
};
use crate::crypto::{base58_of, base58_string};
use crate::gossip::{GossipActivity, distinct_selection, gossip_targets, saturated_add};
use crate::message::{Action, Message};
use crate::poh::{
    PohEntry,
    chain_connected,
    entries_match,
    entry_follows,
    history_from,
    lemma_extend_valid,
    next_entry,
    valid_history,
    validate_poh_entries,
    zero_hash,
};
use crate::rng::random_below;
use crate::stake::{StakeLedger, Validator, has_stake, stake_lookup, total_stake_of};
use crate::transaction::{Transaction, TransactionPool, clone_transaction, tx_matches};
use crate::votes::{VoteTracker, vote_lookup};
use crate::election::elect_leader;

verus! {

/// No identifier appears twice in the registry.
pub open spec fn ids_unique(s: Seq<String>) -> bool {
    forall|i: int, j: int| 0 <= i < j < s.len() ==> s[i]@ != s[j]@
}

/// Whether the registry holds the identifier.
pub open spec fn has_id(s: Seq<String>, id: Seq<char>) -> bool {
    exists|i: int| 0 <= i < s.len() && s[i]@ == id
}

/// The lowest stake the registration faucet seeds.
pub const FAUCET_MIN: u64 = 1000;

/// The least stake above everything the faucet can seed.
pub const FAUCET_MAX: u64 = 10000;

/// The whole state a node owns.
#[derive(Debug)]
pub struct Node {
    /// The sequencer's hash chain, append-only.
    pub history: Vec<PohEntry>,
    /// Identifiers of the currently connected validators.
    pub validators: Vec<String>,
    /// Stake by validator identifier.
    pub stakes: StakeLedger,
    /// Votes on the current proposal round.
    pub votes: VoteTracker,
    /// Pending transactions.
    pub pool: TransactionPool,
    /// The chain tip: hash of the last accepted block.
    pub tip_hash: Vec<u8>,
    /// The chain tip: height of the last accepted block.
    pub tip_height: u64,
    /// First history index not yet covered by an assembled block.
    pub window_start: usize,
    /// Gossip traffic counters.
    pub gossip_activity: GossipActivity,
    /// Who the last election chose, if anyone.
    pub current_leader: Option<String>,
}

/// The index of `id` in the registry, if present.
pub(crate) fn find_id(v: &Vec<String>, id: &String) -> (r: Option<usize>)
    ensures
        match r {
            Some(i) => i < v@.len() && v@[i as int]@ == id@,
            None => !has_id(v@, id@),
        },
{
    let mut i: usize = 0;
    while i < v.len()
        invariant
            i <= v@.len(),
            forall|j: int| 0 <= j < i ==> v@[j]@ != id@,
        decreases v@.len() - i,
    {
        if v[i] == *id {
            return Some(i);
        }
        i = i + 1;
    }
    None
}

/// Thirty-two zero bytes: the genesis parent hash and the root of the
/// history chain.
pub fn zero_digest() -> (r: Vec<u8>)
    ensures
        r@ == zero_hash(),
{
    let mut r: Vec<u8> = Vec::new();
    let mut i: usize = 0;
    while i < 32
        invariant
            i <= 32,
            r@.len() == i,
            forall|j: int| 0 <= j < i ==> r@[j] == 0u8,
        decreases 32 - i,
    {
        r.push(0u8);
        i = i + 1;
    }
    proof {
        assert(r@ =~= zero_hash());
    }
    r
}

impl Node {
    /// The node's invariant: a well-formed history chain, unique
    /// registrations and votes, a bounded ledger, a 32-byte tip, and a
    /// window anchored inside the history.
    pub open spec fn wf(self) -> bool {
        &&& valid_history(self.history@)
        &&& ids_unique(self.validators@)
        &&& self.stakes.wf()
        &&& self.votes.wf()
        &&& self.tip_hash@.len() == 32
        &&& self.window_start <= self.history@.len()
    }

    /// A fresh node: empty state at the genesis tip.
    pub fn new() -> (r: Node)
        ensures
            r.wf(),
            r.history@.len() == 0,
            r.validators@.len() == 0,
            r.stakes.entries@.len() == 0,
            r.votes.votes@.len() == 0,
            r.pool.txs@.len() == 0,
            r.tip_hash@ == zero_hash(),
            r.tip_height == 0,
            r.window_start == 0,
            r.gossip_activity.messages_sent == 0,
            r.gossip_activity.messages_received == 0,
            r.current_leader is None,
    {
        Node {
            history: Vec::new(),
            validators: Vec::new(),
            stakes: StakeLedger::new(),
            votes: VoteTracker::new(),
            pool: TransactionPool::new(),
            tip_hash: zero_digest(),
            tip_height: 0,
            window_start: 0,
            gossip_activity: GossipActivity::new(),
            current_leader: None,
        }
    }

    /// One sequencer tick: appends the entry that chains the timestamp
    /// onto the last hash (or onto the zero digest at the start).
    pub fn tick(&mut self, timestamp: u64)
        requires
            old(self).wf(),
        ensures
            final(self).wf(),
            final(self).history@.len() == old(self).history@.len() + 1,
            final(self).history@.drop_last() == old(self).history@,
            final(self).history@.last().timestamp == timestamp,
            entry_follows(
                if old(self).history@.len() == 0 {
                    zero_hash()
                } else {
                    old(self).history@.last().hash@
                },
                final(self).history@.last(),
            ),
            final(self).validators == old(self).validators,
            final(self).stakes == old(self).stakes,
            final(self).votes == old(self).votes,
            final(self).pool == old(self).pool,
            final(self).tip_hash == old(self).tip_hash,
            final(self).tip_height == old(self).tip_height,
            final(self).window_start == old(self).window_start,
            final(self).gossip_activity == old(self).gossip_activity,
            final(self).current_leader == old(self).current_leader,
    {
        let entry = if self.history.len() == 0 {
            let zero = zero_digest();
            next_entry(&zero, timestamp)
        } else {
            next_entry(&self.history[self.history.len() - 1].hash, timestamp)
        };
        proof {
            lemma_extend_valid(self.history@, entry);
        }
        self.history.push(entry);
        proof {
            assert(self.history@.drop_last() =~= old(self).history@);
        }
    }

    /// Builds the next block from the tip, the uncovered history window
    /// and the whole pool, advances the tip to it, and empties the pool
    /// so nothing is embedded twice.
    pub fn assemble_and_advance(&mut self, timestamp: u64) -> (b: Block)
        requires
            old(self).wf(),
            old(self).tip_height < u64::MAX,
        ensures
            final(self).wf(),
            b.parent_hash@ == old(self).tip_hash@,
            b.block_height == old(self).tip_height + 1,
            b.timestamp == timestamp,
            b.transactions@ == old(self).pool.txs@,
            entries_match(
                b.poh_entries@,
                old(self).history@.subrange(
                    old(self).window_start as int,
                    old(self).history@.len() as int,
                ),
            ),
            block_hash_ok(b),
            linkage_ok(b, old(self).tip_hash@, old(self).tip_height),
            final(self).tip_hash@ == b.block_hash@,
            final(self).tip_height == b.block_height,
            final(self).window_start == old(self).history@.len(),
            final(self).pool.txs@.len() == 0,
            final(self).history == old(self).history,
            final(self).validators == old(self).validators,
            final(self).stakes == old(self).stakes,
            final(self).votes == old(self).votes,
            final(self).gossip_activity == old(self).gossip_activity,
            final(self).current_leader == old(self).current_leader,
    {
        let txs = self.pool.take_all();
        let window = history_from(&self.history, self.window_start);
        let b = assemble_block(&self.tip_hash, self.tip_height, timestamp, txs, window);
        self.tip_hash = crate::encoding::copy_bytes(&b.block_hash);
        self.tip_height = b.block_height;
        self.window_start = self.history.len();
        b
    }

    /// The handshake: derives the validator's identifier from its key,
    /// registers it, and seeds its stake with `seed` (the faucet).  The
    /// flag reports whether the seeding fit the ledger's range.
    pub fn register_validator(&mut self, v: &Validator, seed: u64) -> (r: (String, bool))
        requires
            old(self).wf(),
        ensures
            final(self).wf(),
            r.0@ == base58_of(v.public_key@),
            has_id(final(self).validators@, r.0@),
            forall|b: Seq<char>| b != r.0@ ==> (has_id(final(self).validators@, b) <==> has_id(
                old(self).validators@,
                b,
            )),
            r.1 == (total_stake_of(old(self).stakes.entries@) - stake_lookup(
                old(self).stakes.entries@,
                r.0@,
            ) + seed <= u64::MAX),
            r.1 ==> stake_lookup(final(self).stakes.entries@, r.0@) == seed,
            r.1 ==> forall|b: Seq<char>| b != r.0@ ==> stake_lookup(final(self).stakes.entries@, b)
                == stake_lookup(old(self).stakes.entries@, b),
            !r.1 ==> final(self).stakes.entries@ == old(self).stakes.entries@,
            final(self).history == old(self).history,
            final(self).votes == old(self).votes,
            final(self).pool == old(self).pool,
            final(self).tip_hash == old(self).tip_hash,
            final(self).tip_height == old(self).tip_height,
            final(self).window_start == old(self).window_start,
            final(self).gossip_activity == old(self).gossip_activity,
            final(self).current_leader == old(self).current_leader,
    {
        let id = base58_string(v.public_key.as_slice());
        let present = match find_id(&self.validators, &id) {
            Some(_) => true,
            None => false,
        };
        let ghost pre = self.validators@;
        if !present {
            self.validators.push(id.clone());
            proof {
                assert(self.validators@[pre.len() as int]@ == id@);
                assert forall|p: int, q: int| 0 <= p < q < self.validators@.len() implies self.validators@[p]@
                    != self.validators@[q]@ by {
                    if q < pre.len() {
                        assert(self.validators@[p] == pre[p] && self.validators@[q] == pre[q]);
                    } else {
                        assert(self.validators@[q]@ == id@ && self.validators@[p] == pre[p]);
                    }
                }
                assert forall|b: Seq<char>| b != id@ implies (has_id(self.validators@, b) <==> has_id(
                    pre,
                    b,
                )) by {
                    if has_id(self.validators@, b) {
                        let k = choose|k: int|
                            0 <= k < self.validators@.len() && self.validators@[k]@ == b;
                        assert(k < pre.len() && pre[k]@ == b);
                    }
                    if has_id(pre, b) {
                        let k = choose|k: int| 0 <= k < pre.len() && pre[k]@ == b;
                        assert(self.validators@[k]@ == b);
                    }
                }
            }
        }
        let seeded = self.stakes.set_stake(&id, seed);
        (id, seeded)
    }

    /// Drops a disconnected validator from the registry; its stake
    /// stays in the ledger.
    pub fn deregister_validator(&mut self, id: &String)
        requires
            old(self).wf(),
        ensures
            final(self).wf(),
            !has_id(final(self).validators@, id@),
            forall|b: Seq<char>| b != id@ ==> (has_id(final(self).validators@, b) <==> has_id(
                old(self).validators@,
                b,
            )),
            final(self).history == old(self).history,
            final(self).stakes == old(self).stakes,
            final(self).votes == old(self).votes,
            final(self).pool == old(self).pool,
            final(self).tip_hash == old(self).tip_hash,
            final(self).tip_height == old(self).tip_height,
            final(self).window_start == old(self).window_start,
            final(self).gossip_activity == old(self).gossip_activity,
            final(self).current_leader == old(self).current_leader,
    {
        let ghost pre = self.validators@;
        match find_id(&self.validators, id) {
            Some(i) => {
                self.validators.remove(i);
                proof {
                    let post = self.validators@;
                    assert(post =~= pre.remove(i as int));
                    assert forall|k: int| 0 <= k < post.len() implies #[trigger] post[k]@ != id@ by {
                        if k < i {
                            assert(post[k] == pre[k]);
                        } else {
                            assert(post[k] == pre[k + 1]);
                        }
                    }
                    assert forall|p: int, q: int| 0 <= p < q < post.len() implies post[p]@
                        != post[q]@ by {
                        let sp: int = if p < i { p } else { p + 1 };
                        let sq: int = if q < i { q } else { q + 1 };
                        assert(post[p] == pre[sp] && post[q] == pre[sq]);
                    }
                    assert forall|b: Seq<char>| b != id@ implies (has_id(post, b) <==> has_id(
                        pre,
                        b,
                    )) by {
                        if has_id(post, b) {
                            let k = choose|k: int| 0 <= k < post.len() && post[k]@ == b;
                            let sk: int = if k < i { k } else { k + 1 };
                            assert(pre[sk]@ == b);
                        }
                        if has_id(pre, b) {
                            let k = choose|k: int| 0 <= k < pre.len() && pre[k]@ == b;
                            if k < i {
                                assert(post[k]@ == b);
                            } else if k > i {
                                assert(post[k - 1]@ == b);
                            }
                        }
                    }
                }
            },
            None => {},
        }
    }

    /// One election round: samples a leader by stake weight and stores
    /// it.  No leader is stored exactly when the ledger holds no stake.
    pub fn run_election(&mut self)
        requires
            old(self).wf(),
        ensures
            final(self).wf(),
            final(self).current_leader is None <==> total_stake_of(old(self).stakes.entries@) == 0,
            match final(self).current_leader {
                Some(id) => exists|i: int|
                    0 <= i < old(self).stakes.entries@.len()
                        && #[trigger] old(self).stakes.entries@[i].validator_id@ == id@ && old(
                        self,
                    ).stakes.entries@[i].amount > 0,
                None => true,
            },
            final(self).history == old(self).history,
            final(self).validators == old(self).validators,
            final(self).stakes == old(self).stakes,
            final(self).votes == old(self).votes,
            final(self).pool == old(self).pool,
            final(self).tip_hash == old(self).tip_hash,
            final(self).tip_height == old(self).tip_height,
            final(self).window_start == old(self).window_start,
            final(self).gossip_activity == old(self).gossip_activity,
    {
        let leader = elect_leader(&self.stakes);
        self.current_leader = leader;
    }

    /// Whether this node, as `my_id`, holds the proposal right: only
    /// the currently elected leader may propose.
    pub fn may_propose(&self, my_id: &String) -> (r: bool)
        ensures
            r == match self.current_leader {
                Some(l) => l@ == my_id@,
                None => false,
            },
    {
        match &self.current_leader {
            Some(l) => *l == *my_id,
            None => false,
        }
    }

    /// Picks the gossip subset of `peers` for one broadcast and counts
    /// the sends.
    pub fn broadcast_targets(&mut self, peers: &Vec<String>) -> (r: Vec<String>)
        ensures
            r@.len() == peers@.len() / 2,
            distinct_selection(r@, peers@),
            final(self).gossip_activity.messages_sent == saturated_add(
                old(self).gossip_activity.messages_sent,
                (peers@.len() / 2) as u64,
            ),
            final(self).gossip_activity.messages_received == old(
                self,
            ).gossip_activity.messages_received,
            final(self).history == old(self).history,
            final(self).validators == old(self).validators,
            final(self).stakes == old(self).stakes,
            final(self).votes == old(self).votes,
            final(self).pool == old(self).pool,
            final(self).tip_hash == old(self).tip_hash,
            final(self).tip_height == old(self).tip_height,
            final(self).window_start == old(self).window_start,
            final(self).current_leader == old(self).current_leader,
    {
        let targets = gossip_targets(peers);
        self.gossip_activity.record_sent(targets.len() as u64);
        targets
    }

    /// The faucet draw for one registration: some amount in the faucet
    /// range, whichever way the dice fall.
    pub fn faucet_amount() -> (r: u64)
        ensures
            FAUCET_MIN <= r < FAUCET_MAX,
    {
        FAUCET_MIN + random_below(FAUCET_MAX - FAUCET_MIN)
    }

    /// Dispatches one decoded frame from the peer registered as
    /// `sender_id`, mutating the node and returning what the
    /// connection task must send.
    pub fn handle_message(&mut self, sender_id: &String, msg: Message) -> (r: Vec<Action>)
        requires
            old(self).wf(),
        ensures
            final(self).wf(),
            match msg {
                Message::HistoryEntries(list) => {
                    &&& *final(self) == *old(self)
                    &&& if chain_connected(list@) {
                        r@.len() == 0
                    } else {
                        &&& r@.len() == 1
                        &&& r@[0] matches Action::Reply(Message::RetransmissionRequest(i))
                        &&& 0 < i < list@.len()
                        &&& !entry_follows(list@[i as int - 1].hash@, list@[i as int])
                        &&& chain_connected(list@.subrange(0, i as int))
                    }
                },
                Message::RetransmissionRequest(idx) => {
                    &&& *final(self) == *old(self)
                    &&& r@.len() == 1
                    &&& r@[0] matches Action::Reply(Message::HistoryEntries(es))
                    &&& idx <= old(self).history@.len() ==> entries_match(
                        es@,
                        old(self).history@.subrange(idx as int, old(self).history@.len() as int),
                    )
                    &&& idx > old(self).history@.len() ==> es@.len() == 0
                },
                Message::BlockProposal(b) => {
                    &&& *final(self) == *old(self)
                    &&& (linkage_ok(b, old(self).tip_hash@, old(self).tip_height)
                        && chain_connected(b.poh_entries@) && block_hash_ok(b)) ==> {
                        &&& r@.len() == 2
                        &&& r@[0] matches Action::Gossip(Message::BlockProposal(g))
                            && block_matches(g, b)
                        &&& r@[1] matches Action::Reply(Message::ConsensusVote(v, yes))
                            && block_matches(v, b) && yes == true
                    }
                    &&& !linkage_ok(b, old(self).tip_hash@, old(self).tip_height) ==> r@.len() == 0
                    &&& (linkage_ok(b, old(self).tip_hash@, old(self).tip_height)
                        && chain_connected(b.poh_entries@) && !block_hash_ok(b)) ==> r@.len() == 0
                    &&& (linkage_ok(b, old(self).tip_hash@, old(self).tip_height)
                        && !chain_connected(b.poh_entries@)) ==> {
                        &&& r@.len() == 1
                        &&& r@[0] matches Action::Reply(Message::RetransmissionRequest(i))
                        &&& 0 < i < b.poh_entries@.len()
                        &&& !entry_follows(b.poh_entries@[i as int - 1].hash@, b.poh_entries@[i as int])
                        &&& chain_connected(b.poh_entries@.subrange(0, i as int))
                    }
                },
                Message::ConsensusVote(b, vote) => {
                    &&& r@.len() == 0
                    &&& b.block_height < old(self).votes.round_height ==> final(self).votes == old(
                        self,
                    ).votes
                    &&& b.block_height > old(self).votes.round_height ==> {
                        &&& final(self).votes.round_height == b.block_height
                        &&& final(self).votes.votes@.len() == 1
                        &&& final(self).votes.votes@[0].validator_id@ == sender_id@
                        &&& final(self).votes.votes@[0].approve == vote
                    }
                    &&& b.block_height == old(self).votes.round_height ==> {
                        &&& final(self).votes.round_height == old(self).votes.round_height
                        &&& vote_lookup(final(self).votes.votes@, sender_id@) == Some(vote)
                        &&& forall|c: Seq<char>| c != sender_id@ ==> vote_lookup(
                            final(self).votes.votes@,
                            c,
                        ) == vote_lookup(old(self).votes.votes@, c)
                    }
                    &&& final(self).history == old(self).history
                    &&& final(self).validators == old(self).validators
                    &&& final(self).stakes == old(self).stakes
                    &&& final(self).pool == old(self).pool
                    &&& final(self).tip_hash == old(self).tip_hash
                    &&& final(self).tip_height == old(self).tip_height
                    &&& final(self).window_start == old(self).window_start
                    &&& final(self).gossip_activity == old(self).gossip_activity
                    &&& final(self).current_leader == old(self).current_leader
                },
                Message::StakeTokens(stake) => {
                    &&& r@.len() == 0
                    &&& (total_stake_of(old(self).stakes.entries@) + stake.amount <= u64::MAX)
                        ==> {
                        &&& stake_lookup(final(self).stakes.entries@, stake.validator_id@)
                            == stake_lookup(old(self).stakes.entries@, stake.validator_id@)
                            + stake.amount
                        &&& forall|c: Seq<char>| c != stake.validator_id@ ==> stake_lookup(
                            final(self).stakes.entries@,
                            c,
                        ) == stake_lookup(old(self).stakes.entries@, c)
                    }
                    &&& (total_stake_of(old(self).stakes.entries@) + stake.amount > u64::MAX)
                        ==> final(self).stakes.entries@ == old(self).stakes.entries@
                    &&& final(self).history == old(self).history
                    &&& final(self).validators == old(self).validators
                    &&& final(self).votes == old(self).votes
                    &&& final(self).pool == old(self).pool
                    &&& final(self).tip_hash == old(self).tip_hash
                    &&& final(self).tip_height == old(self).tip_height
                    &&& final(self).window_start == old(self).window_start
                    &&& final(self).gossip_activity == old(self).gossip_activity
                    &&& final(self).current_leader == old(self).current_leader
                },
                Message::Transaction(tx) => {
                    &&& tx.signature@.len() > 0 ==> {
                        &&& final(self).pool.txs@.len() == old(self).pool.txs@.len() + 1
                        &&& tx_matches(final(self).pool.txs@.last(), tx)
                        &&& forall|j: int|
                            0 <= j < old(self).pool.txs@.len() ==> final(self).pool.txs@[j] == old(
                                self,
                            ).pool.txs@[j]
                        &&& r@.len() == 1
                        &&& r@[0] matches Action::Gossip(Message::Transaction(t)) && tx_matches(
                            t,
                            tx,
                        )
                    }
                    &&& tx.signature@.len() == 0 ==> final(self).pool.txs@ == old(self).pool.txs@
                        && r@.len() == 0
                    &&& final(self).history == old(self).history
                    &&& final(self).validators == old(self).validators
                    &&& final(self).stakes == old(self).stakes
                    &&& final(self).votes == old(self).votes
                    &&& final(self).tip_hash == old(self).tip_hash
                    &&& final(self).tip_height == old(self).tip_height
                    &&& final(self).window_start == old(self).window_start
                    &&& final(self).gossip_activity == old(self).gossip_activity
                    &&& final(self).current_leader == old(self).current_leader
                },
                Message::GossipMessage(_) => {
                    &&& r@.len() == 0
                    &&& final(self).gossip_activity.messages_received == saturated_add(
                        old(self).gossip_activity.messages_received,
                        1,
                    )
                    &&& final(self).gossip_activity.messages_sent == old(
                        self,
                    ).gossip_activity.messages_sent
                    &&& final(self).history == old(self).history
                    &&& final(self).validators == old(self).validators
                    &&& final(self).stakes == old(self).stakes
                    &&& final(self).votes == old(self).votes
                    &&& final(self).pool == old(self).pool
                    &&& final(self).tip_hash == old(self).tip_hash
                    &&& final(self).tip_height == old(self).tip_height
                    &&& final(self).window_start == old(self).window_start
                    &&& final(self).current_leader == old(self).current_leader
                },
                Message::RegisterValidator(_) => {
                    &&& *final(self) == *old(self)
                    &&& r@.len() == 0
                },
            },
    {
        let mut actions: Vec<Action> = Vec::new();
        match msg {
            Message::HistoryEntries(list) => {
                match validate_poh_entries(&list) {
                    Ok(()) => {},
                    Err(i) => {
                        actions.push(
                            Action::Reply(Message::RetransmissionRequest(i as u64)),
                        );
                    },
                }
                actions
            },
            Message::RetransmissionRequest(idx) => {
                let hist_len = self.history.len();
                let es = if idx >= hist_len as u64 {
                    Vec::new()
                } else {
                    history_from(&self.history, idx as usize)
                };
                actions.push(Action::Reply(Message::HistoryEntries(es)));
                actions
            },
            Message::BlockProposal(b) => {
                match validate_block(&b, &self.tip_hash, self.tip_height) {
                    BlockValidity::Valid => {
                        let copy = clone_block(&b);
                        actions.push(Action::Gossip(Message::BlockProposal(copy)));
                        actions.push(Action::Reply(Message::ConsensusVote(b, true)));
                    },
                    BlockValidity::BadLinkage => {},
                    BlockValidity::BadHash => {},
                    BlockValidity::BadWindow(i) => {
                        actions.push(
                            Action::Reply(Message::RetransmissionRequest(i as u64)),
                        );
                    },
                }
                actions
            },
            Message::ConsensusVote(b, vote) => {
                self.votes.record_vote(sender_id, b.block_height, vote);
                actions
            },
            Message::StakeTokens(stake) => {
                self.stakes.deposit_stake(&stake.validator_id, stake.amount);
                actions
            },
            Message::Transaction(tx) => {
                let copy = clone_transaction(&tx);
                if self.pool.submit(copy) {
                    actions.push(Action::Gossip(Message::Transaction(tx)));
                }
                actions
            },
            Message::GossipMessage(_) => {
                self.gossip_activity.record_received();
                actions
            },
            Message::RegisterValidator(_) => { actions },
        }
    }

    /// A read-only snapshot for the status reporter; nothing in the
    /// node changes.
    pub fn status(&self) -> (s: NodeStatus)
        requires
            self.wf(),
        ensures
            s.history_len == self.history@.len(),
            s.validator_count == self.validators@.len(),
            s.pool_size == self.pool.txs@.len(),
            s.total_stake == total_stake_of(self.stakes.entries@),
            s.leader_elected == (self.current_leader is Some),
            s.tip_height == self.tip_height,
            s.messages_sent == self.gossip_activity.messages_sent,
            s.messages_received == self.gossip_activity.messages_received,
    {
        let leader_elected = match &self.current_leader {
            Some(_) => true,
            None => false,
        };
        NodeStatus {
            history_len: self.history.len() as u64,
            validator_count: self.validators.len() as u64,
            pool_size: self.pool.len() as u64,
            total_stake: self.stakes.total_stake(),
            leader_elected,
            tip_height: self.tip_height,
            messages_sent: self.gossip_activity.messages_sent,
            messages_received: self.gossip_activity.messages_received,
        }
    }
}

/// What the status reporter polls: read-only counts of the node's
/// state.
#[derive(Debug)]
pub struct NodeStatus {
    pub history_len: u64,
    pub validator_count: u64,
    pub pool_size: u64,
    pub total_stake: u64,
    pub leader_elected: bool,
    pub tip_height: u64,
    pub messages_sent: u64,
    pub messages_received: u64,
}

} // verus!
