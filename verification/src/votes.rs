//! The vote and finality tracker.
//!
//! Votes are recorded per validator for one proposal round (one block
//! height); a new round clears the set.  The tally weighs the yes votes
//! by the ledger's current stakes, and finality requires the yes weight
//! to exceed two thirds of the total stake.  The yes weight is proved
//! never to exceed the total, so the tally stays in `u64` range.

use vstd::prelude::*;
use crate::stake::{
    Stake,
    StakeLedger,
    stake_lookup,
    total_stake_of,
    lemma_total_nonneg,
    lemma_lookup_le_total,
};

verus! {

/// One validator's recorded vote in the current round.
#[derive(Debug)]
pub struct Vote {
    pub validator_id: String,
    pub approve: bool,
}

/// No two votes share a validator.
pub open spec fn votes_unique(s: Seq<Vote>) -> bool {
    forall|i: int, j: int| 0 <= i < j < s.len() ==> s[i].validator_id@ != s[j].validator_id@
}

/// Whether some vote carries the identifier.
pub open spec fn has_vote(s: Seq<Vote>, id: Seq<char>) -> bool {
    exists|i: int| 0 <= i < s.len() && s[i].validator_id@ == id
}

/// The recorded vote of `id`, if any.
pub open spec fn vote_lookup(s: Seq<Vote>, id: Seq<char>) -> Option<bool>
    decreases s.len(),
{
    if s.len() == 0 {
        None
    } else if s[0].validator_id@ == id {
        Some(s[0].approve)
    } else {
        vote_lookup(s.drop_first(), id)
    }
}

/// The stake-weighted sum of the yes votes under the given ledger
/// entries.
pub open spec fn yes_weight_of(votes: Seq<Vote>, stakes: Seq<Stake>) -> int
    decreases votes.len(),
{
    if votes.len() == 0 {
        0
    } else {
        yes_weight_of(votes.drop_last(), stakes) + if votes.last().approve {
            stake_lookup(stakes, votes.last().validator_id@)
        } else {
            0
        }
    }
}

/// The ledger without its (first) entry for `id`.
pub open spec fn remove_stake(s: Seq<Stake>, id: Seq<char>) -> Seq<Stake>
    decreases s.len(),
{
    if s.len() == 0 {
        s
    } else if s[0].validator_id@ == id {
        s.drop_first()
    } else {
        seq![s[0]] + remove_stake(s.drop_first(), id)
    }
}

proof fn lemma_remove_stake_total(s: Seq<Stake>, id: Seq<char>)
    ensures
        total_stake_of(remove_stake(s, id)) == total_stake_of(s) - stake_lookup(s, id),
    decreases s.len(),
{
    if s.len() == 0 {
    } else if s[0].validator_id@ == id {
    } else {
        lemma_remove_stake_total(s.drop_first(), id);
        let t = seq![s[0]] + remove_stake(s.drop_first(), id);
        assert(t[0] == s[0]);
        assert(t.drop_first() =~= remove_stake(s.drop_first(), id));
    }
}

proof fn lemma_remove_stake_lookup(s: Seq<Stake>, id: Seq<char>, b: Seq<char>)
    requires
        b != id,
    ensures
        stake_lookup(remove_stake(s, id), b) == stake_lookup(s, b),
    decreases s.len(),
{
    if s.len() == 0 {
    } else if s[0].validator_id@ == id {
    } else {
        lemma_remove_stake_lookup(s.drop_first(), id, b);
        let t = seq![s[0]] + remove_stake(s.drop_first(), id);
        assert(t[0] == s[0]);
        assert(t.drop_first() =~= remove_stake(s.drop_first(), id));
    }
}

/// Votes that never mention `id` weigh the same whether or not the
/// ledger still carries `id`.
proof fn lemma_yes_weight_drop_stake(votes: Seq<Vote>, stakes: Seq<Stake>, id: Seq<char>)
    requires
        forall|k: int| 0 <= k < votes.len() ==> votes[k].validator_id@ != id,
    ensures
        yes_weight_of(votes, remove_stake(stakes, id)) == yes_weight_of(votes, stakes),
    decreases votes.len(),
{
    if votes.len() > 0 {
        lemma_yes_weight_drop_stake(votes.drop_last(), stakes, id);
        if votes.last().approve {
            lemma_remove_stake_lookup(stakes, id, votes.last().validator_id@);
        }
    }
}

/// With one vote per validator, the yes weight cannot exceed the total
/// stake.
pub proof fn lemma_yes_weight_le_total(votes: Seq<Vote>, stakes: Seq<Stake>)
    requires
        votes_unique(votes),
    ensures
        0 <= yes_weight_of(votes, stakes) <= total_stake_of(stakes),
    decreases votes.len(),
{
    if votes.len() == 0 {
        lemma_total_nonneg(stakes);
    } else {
        let last = votes.last();
        let rest = votes.drop_last();
        assert forall|k: int| 0 <= k < rest.len() implies #[trigger] rest[k].validator_id@
            != last.validator_id@ by {
            assert(rest[k] == votes[k]);
        }
        lemma_yes_weight_drop_stake(rest, stakes, last.validator_id@);
        lemma_yes_weight_le_total(rest, remove_stake(stakes, last.validator_id@));
        lemma_remove_stake_total(stakes, last.validator_id@);
        lemma_lookup_le_total(stakes, last.validator_id@);
    }
}

/// Appending a vote for a fresh validator.
proof fn lemma_vote_push(s: Seq<Vote>, v: Vote)
    requires
        !has_vote(s, v.validator_id@),
    ensures
        vote_lookup(s.push(v), v.validator_id@) == Some(v.approve),
        forall|b: Seq<char>| b != v.validator_id@ ==> vote_lookup(s.push(v), b) == vote_lookup(s, b),
        votes_unique(s) ==> votes_unique(s.push(v)),
    decreases s.len(),
{
    let t = s.push(v);
    if s.len() == 0 {
        assert(t[0] == v);
        assert(t.drop_first() =~= Seq::<Vote>::empty());
    } else {
        assert(t[0] == s[0]);
        assert(t.drop_first() =~= s.drop_first().push(v));
        assert forall|i: int| 0 <= i < s.drop_first().len() implies #[trigger] s.drop_first()[i].validator_id@
            != v.validator_id@ by {
            assert(s.drop_first()[i] == s[i + 1]);
        }
        assert(s[0].validator_id@ != v.validator_id@);
        lemma_vote_push(s.drop_first(), v);
    }
    assert forall|b: Seq<char>| b != v.validator_id@ implies vote_lookup(t, b) == vote_lookup(
        s,
        b,
    ) by {
        if s.len() == 0 {
            assert(t[0] == v);
            assert(vote_lookup(t, b) == vote_lookup(t.drop_first(), b));
            assert(t.drop_first() =~= Seq::<Vote>::empty());
            assert(vote_lookup(Seq::<Vote>::empty(), b) is None);
        } else {
            assert(t[0] == s[0]);
            assert(t.drop_first() =~= s.drop_first().push(v));
            if s[0].validator_id@ == b {
            } else {
                assert(vote_lookup(t, b) == vote_lookup(t.drop_first(), b));
                assert(vote_lookup(s, b) == vote_lookup(s.drop_first(), b));
                assert(vote_lookup(s.drop_first().push(v), b) == vote_lookup(s.drop_first(), b));
            }
        }
    }
    if votes_unique(s) {
        assert forall|i: int, j: int| 0 <= i < j < t.len() implies t[i].validator_id@
            != t[j].validator_id@ by {
            if j < s.len() {
                assert(t[i] == s[i] && t[j] == s[j]);
            } else {
                assert(t[j] == v && t[i] == s[i]);
            }
        }
    }
}

/// Overwriting the vote at the first index carrying an identifier.
proof fn lemma_vote_update(s: Seq<Vote>, i: int, v: Vote)
    requires
        0 <= i < s.len(),
        v.validator_id@ == s[i].validator_id@,
        forall|j: int| 0 <= j < i ==> s[j].validator_id@ != s[i].validator_id@,
    ensures
        vote_lookup(s.update(i, v), v.validator_id@) == Some(v.approve),
        forall|b: Seq<char>| b != v.validator_id@ ==> vote_lookup(s.update(i, v), b) == vote_lookup(
            s,
            b,
        ),
        votes_unique(s) ==> votes_unique(s.update(i, v)),
    decreases i,
{
    let t = s.update(i, v);
    if i == 0 {
        assert(t[0] == v);
        assert(t.drop_first() =~= s.drop_first());
    } else {
        assert(t[0] == s[0]);
        assert(t.drop_first() =~= s.drop_first().update(i - 1, v));
        assert forall|j: int| 0 <= j < i - 1 implies #[trigger] s.drop_first()[j].validator_id@
            != s.drop_first()[i - 1].validator_id@ by {
            assert(s.drop_first()[j] == s[j + 1]);
            assert(s.drop_first()[i - 1] == s[i]);
        }
        assert(s.drop_first()[i - 1] == s[i]);
        lemma_vote_update(s.drop_first(), i - 1, v);
        assert(s[0].validator_id@ != v.validator_id@);
    }
    assert forall|b: Seq<char>| b != v.validator_id@ implies vote_lookup(t, b) == vote_lookup(
        s,
        b,
    ) by {
        if i == 0 {
            assert(t[0] == v);
            assert(vote_lookup(t, b) == vote_lookup(t.drop_first(), b));
            assert(vote_lookup(s, b) == vote_lookup(s.drop_first(), b));
            assert(t.drop_first() =~= s.drop_first());
        } else {
            assert(t[0] == s[0]);
            assert(t.drop_first() =~= s.drop_first().update(i - 1, v));
            if s[0].validator_id@ == b {
            } else {
                assert(vote_lookup(t, b) == vote_lookup(t.drop_first(), b));
                assert(vote_lookup(s, b) == vote_lookup(s.drop_first(), b));
                assert(vote_lookup(s.drop_first().update(i - 1, v), b) == vote_lookup(
                    s.drop_first(),
                    b,
                ));
            }
        }
    }
    if votes_unique(s) {
        assert forall|p: int, q: int| 0 <= p < q < t.len() implies t[p].validator_id@
            != t[q].validator_id@ by {
            assert(t[p].validator_id@ == s[p].validator_id@);
            assert(t[q].validator_id@ == s[q].validator_id@);
        }
    }
}

/// Per-validator votes on the proposal at one block height.
#[derive(Debug)]
pub struct VoteTracker {
    pub round_height: u64,
    pub votes: Vec<Vote>,
}

impl VoteTracker {
    /// One vote per validator.
    pub open spec fn wf(self) -> bool {
        votes_unique(self.votes@)
    }

    pub fn new() -> (r: VoteTracker)
        ensures
            r.wf(),
            r.round_height == 0,
            r.votes@.len() == 0,
    {
        VoteTracker { round_height: 0, votes: Vec::new() }
    }

    /// The index of the vote carrying `id`, if any.
    fn find(&self, id: &String) -> (r: Option<usize>)
        ensures
            match r {
                Some(i) => {
                    &&& i < self.votes@.len()
                    &&& self.votes@[i as int].validator_id@ == id@
                    &&& forall|j: int| 0 <= j < i ==> self.votes@[j].validator_id@ != id@
                },
                None => !has_vote(self.votes@, id@),
            },
    {
        let mut i: usize = 0;
        while i < self.votes.len()
            invariant
                i <= self.votes@.len(),
                forall|j: int| 0 <= j < i ==> self.votes@[j].validator_id@ != id@,
            decreases self.votes@.len() - i,
        {
            if self.votes[i].validator_id == *id {
                return Some(i);
            }
            i = i + 1;
        }
        None
    }

    /// Records `validator_id`'s vote on the proposal at `block_height`.
    /// A height above the current round opens a new round and clears the
    /// old votes; a height below the current round is stale and ignored.
    pub fn record_vote(&mut self, validator_id: &String, block_height: u64, vote: bool)
        requires
            old(self).wf(),
        ensures
            final(self).wf(),
            block_height < old(self).round_height ==> *final(self) == *old(self),
            block_height > old(self).round_height ==> {
                &&& final(self).round_height == block_height
                &&& final(self).votes@.len() == 1
                &&& final(self).votes@[0].validator_id@ == validator_id@
                &&& final(self).votes@[0].approve == vote
            },
            block_height == old(self).round_height ==> {
                &&& final(self).round_height == old(self).round_height
                &&& vote_lookup(final(self).votes@, validator_id@) == Some(vote)
                &&& forall|b: Seq<char>| b != validator_id@ ==> vote_lookup(final(self).votes@, b)
                    == vote_lookup(old(self).votes@, b)
            },
    {
        if block_height < self.round_height {
            return ;
        }
        if block_height > self.round_height {
            self.votes.clear();
            self.round_height = block_height;
            let v = Vote { validator_id: validator_id.clone(), approve: vote };
            self.votes.push(v);
            return ;
        }
        let ghost s = self.votes@;
        match self.find(validator_id) {
            Some(i) => {
                let v = Vote { validator_id: validator_id.clone(), approve: vote };
                proof {
                    lemma_vote_update(s, i as int, v);
                }
                self.votes[i] = v;
            },
            None => {
                let v = Vote { validator_id: validator_id.clone(), approve: vote };
                proof {
                    lemma_vote_push(s, v);
                }
                self.votes.push(v);
            },
        }
    }

    /// The stake-weighted tally for the current round: the yes weight
    /// and the total stake, under the ledger's current weights.
    pub fn tally(&self, ledger: &StakeLedger) -> (r: (u64, u64))
        requires
            self.wf(),
            ledger.wf(),
        ensures
            r.0 == yes_weight_of(self.votes@, ledger.entries@),
            r.1 == total_stake_of(ledger.entries@),
            r.0 <= r.1,
    {
        let ghost s = self.votes@;
        let total = ledger.total_stake();
        let mut yes: u64 = 0;
        let mut i: usize = 0;
        while i < self.votes.len()
            invariant
                i <= s.len(),
                s == self.votes@,
                votes_unique(s),
                ledger.wf(),
                yes == yes_weight_of(s.subrange(0, i as int), ledger.entries@),
                total == total_stake_of(ledger.entries@),
            decreases s.len() - i,
        {
            proof {
                let cur = s.subrange(0, i + 1);
                assert(cur.drop_last() =~= s.subrange(0, i as int));
                assert(cur.last() == s[i as int]);
                assert forall|p: int, q: int| 0 <= p < q < cur.len() implies cur[p].validator_id@
                    != cur[q].validator_id@ by {
                    assert(cur[p] == s[p] && cur[q] == s[q]);
                }
                lemma_yes_weight_le_total(cur, ledger.entries@);
                lemma_yes_weight_le_total(s.subrange(0, i as int), ledger.entries@);
                lemma_lookup_le_total(ledger.entries@, s[i as int].validator_id@);
            }
            if self.votes[i].approve {
                let w = ledger.stake_of(&self.votes[i].validator_id);
                yes = yes + w;
            }
            i = i + 1;
        }
        proof {
            assert(s.subrange(0, s.len() as int) =~= s);
            lemma_yes_weight_le_total(s, ledger.entries@);
        }
        (yes, total)
    }

    /// Whether the proposal at `block_height` is final: it is the
    /// current round and its yes weight strictly exceeds two thirds of
    /// the total stake.
    pub fn is_final(&self, block_height: u64, ledger: &StakeLedger) -> (r: bool)
        requires
            self.wf(),
            ledger.wf(),
        ensures
            r == (block_height == self.round_height && 3 * yes_weight_of(
                self.votes@,
                ledger.entries@,
            ) > 2 * total_stake_of(ledger.entries@)),
    {
        if block_height != self.round_height {
            return false;
        }
        let (yes, total) = self.tally(ledger);
        is_final(yes, total)
    }

    /// Clears the votes for a new proposal round at `block_height`.
    pub fn start_round(&mut self, block_height: u64)
        ensures
            final(self).wf(),
            final(self).round_height == block_height,
            final(self).votes@.len() == 0,
    {
        self.votes.clear();
        self.round_height = block_height;
    }
}

/// Finality: the yes weight strictly exceeds two thirds of the total.
pub fn is_final(yes_weight: u64, total_weight: u64) -> (r: bool)
    ensures
        r == (3 * yes_weight > 2 * total_weight),
{
    (yes_weight as u128) * 3 > (total_weight as u128) * 2
}

} // verus!
