//! Weighted leader election.
//!
//! A draw below the total stake is mapped to the validator whose
//! cumulative stake band contains it, so a validator's chance of being
//! chosen is proportional to its stake.  With no stake at all there is
//! no leader, and callers tolerate the leaderless round.

use vstd::prelude::*;
use vstd::set_lib::{set_int_range, lemma_int_range};
use crate::rng::random_below;
use crate::stake::{Stake, StakeLedger, total_stake_of, lemma_total_concat, lemma_total_nonneg};

verus! {

/// The summed stake of the first `i` entries.
pub open spec fn prefix_weight(s: Seq<Stake>, i: int) -> int
    recommends
        0 <= i <= s.len(),
{
    total_stake_of(s.subrange(0, i))
}

/// The index of the entry whose cumulative band contains the draw `r`:
/// walking the list, `r` is reduced by each passed entry's stake until
/// it falls short of one.
pub open spec fn spec_winner(s: Seq<Stake>, r: int) -> Option<int>
    decreases s.len(),
{
    if s.len() == 0 {
        None
    } else if r < s[0].amount {
        Some(0)
    } else {
        match spec_winner(s.drop_first(), r - s[0].amount) {
            Some(j) => Some(j + 1),
            None => None,
        }
    }
}

/// Splitting off the head shifts the prefix weight by the head's stake.
proof fn lemma_prefix_weight_step(s: Seq<Stake>, i: int)
    requires
        1 <= i <= s.len(),
        s.len() > 0,
    ensures
        prefix_weight(s, i) == s[0].amount + prefix_weight(s.drop_first(), i - 1),
{
    let head = seq![s[0]];
    assert(s.subrange(0, i) =~= head + s.drop_first().subrange(0, i - 1));
    lemma_total_concat(head, s.drop_first().subrange(0, i - 1));
    assert(total_stake_of(head) == s[0].amount + total_stake_of(head.drop_first()));
    assert(head.drop_first() =~= Seq::<Stake>::empty());
}

/// A winner, when there is one, is an index into the list.
pub proof fn lemma_winner_index_range(s: Seq<Stake>, r: int)
    ensures
        match spec_winner(s, r) {
            Some(i) => 0 <= i < s.len(),
            None => true,
        },
    decreases s.len(),
{
    if s.len() > 0 && r >= s[0].amount {
        lemma_winner_index_range(s.drop_first(), r - s[0].amount);
    }
}

/// A draw wins index `i` exactly when it lies in `i`'s cumulative
/// stake band.
pub proof fn lemma_winner_band(s: Seq<Stake>, i: int, r: int)
    requires
        0 <= i < s.len(),
        0 <= r,
    ensures
        spec_winner(s, r) == Some(i) <==> prefix_weight(s, i) <= r < prefix_weight(s, i)
            + s[i].amount,
    decreases s.len(),
{
    assert(s.subrange(0, 0) =~= Seq::<Stake>::empty());
    if r < s[0].amount {
        if i > 0 {
            assert(prefix_weight(s, i) >= s[0].amount) by {
                lemma_prefix_weight_step(s, i);
                lemma_total_nonneg(s.drop_first().subrange(0, i - 1));
            }
        }
    } else {
        if i == 0 {
            lemma_winner_index_range(s.drop_first(), r - s[0].amount);
        } else {
            lemma_winner_band(s.drop_first(), i - 1, r - s[0].amount);
            assert(s.drop_first()[i - 1] == s[i]);
            lemma_prefix_weight_step(s, i);
        }
    }
}

/// Every draw below the total stake has a winner.
pub proof fn lemma_winner_some(s: Seq<Stake>, r: int)
    requires
        0 <= r < total_stake_of(s),
    ensures
        match spec_winner(s, r) {
            Some(i) => 0 <= i < s.len() && s[i].amount > 0,
            None => false,
        },
    decreases s.len(),
{
    if s.len() == 0 {
    } else if r < s[0].amount {
    } else {
        lemma_winner_some(s.drop_first(), r - s[0].amount);
    }
}

/// How often each validator wins: over the draws `0..total`, the set of
/// draws that elect entry `i` is exactly its cumulative stake band, so
/// it holds as many draws as the entry has stake.  With stakes of 100
/// and 300, the second entry wins three times as many draws as the
/// first.
pub proof fn lemma_selection_frequency(s: Seq<Stake>, i: int)
    requires
        0 <= i < s.len(),
    ensures
        Set::new(
            |r: int| 0 <= r < total_stake_of(s) && spec_winner(s, r) == Some(i),
        ) == set_int_range(prefix_weight(s, i), prefix_weight(s, i) + s[i].amount),
        Set::new(|r: int| 0 <= r < total_stake_of(s) && spec_winner(s, r) == Some(i)).len()
            == s[i].amount,
{
    let lo = prefix_weight(s, i);
    let hi = prefix_weight(s, i) + s[i].amount;
    assert(lo >= 0) by {
        lemma_total_nonneg(s.subrange(0, i));
    }
    assert(hi <= total_stake_of(s)) by {
        assert(s =~= s.subrange(0, i + 1) + s.subrange(i + 1, s.len() as int));
        lemma_total_concat(s.subrange(0, i + 1), s.subrange(i + 1, s.len() as int));
        lemma_total_nonneg(s.subrange(i + 1, s.len() as int));
        assert(s.subrange(0, i + 1) =~= s.subrange(0, i).push(s[i]));
        crate::stake::lemma_total_push(s.subrange(0, i), s[i]);
    }
    assert forall|r: int| (0 <= r < total_stake_of(s) && spec_winner(s, r) == Some(i)) <==> (lo <= r
        < hi) by {
        if 0 <= r {
            lemma_winner_band(s, i, r);
        }
    }
    assert(Set::new(|r: int| 0 <= r < total_stake_of(s) && spec_winner(s, r) == Some(i))
        =~= set_int_range(lo, hi));
    lemma_int_range(lo, hi);
}

/// Maps a draw to the validator whose cumulative stake band contains
/// it, walking the snapshot in order.
pub fn select_weighted(snapshot: &Vec<Stake>, choice: u64) -> (r: Option<String>)
    ensures
        match r {
            Some(id) => match spec_winner(snapshot@, choice as int) {
                Some(i) => id@ == snapshot@[i].validator_id@,
                None => false,
            },
            None => spec_winner(snapshot@, choice as int) is None,
        },
{
    let ghost s = snapshot@;
    proof {
        assert(s.subrange(0, s.len() as int) =~= s);
    }
    let mut i: usize = 0;
    let mut remaining: u64 = choice;
    while i < snapshot.len()
        invariant
            i <= s.len(),
            s == snapshot@,
            remaining <= choice,
            spec_winner(s, choice as int) == match spec_winner(
                s.subrange(i as int, s.len() as int),
                remaining as int,
            ) {
                Some(j) => Some(i + j),
                None => None::<int>,
            },
        decreases s.len() - i,
    {
        let ghost suffix = s.subrange(i as int, s.len() as int);
        proof {
            assert(suffix[0] == s[i as int]);
            assert(suffix.drop_first() =~= s.subrange(i + 1, s.len() as int));
        }
        if remaining < snapshot[i].amount {
            return Some(snapshot[i].validator_id.clone());
        }
        remaining = remaining - snapshot[i].amount;
        i = i + 1;
    }
    proof {
        assert(s.subrange(s.len() as int, s.len() as int) =~= Seq::<Stake>::empty());
    }
    None
}

/// Elects a leader by stake weight.  No leader comes back exactly when
/// the ledger holds no stake; otherwise the elected identifier belongs
/// to a ledger entry with positive stake, whichever draw was made.
pub fn elect_leader(ledger: &StakeLedger) -> (r: Option<String>)
    requires
        ledger.wf(),
    ensures
        r is None <==> total_stake_of(ledger.entries@) == 0,
        match r {
            Some(id) => exists|i: int|
                0 <= i < ledger.entries@.len() && #[trigger] ledger.entries@[i].validator_id@
                    == id@ && ledger.entries@[i].amount > 0,
            None => true,
        },
{
    let total = ledger.total_stake();
    if total == 0 {
        return None;
    }
    let choice = random_below(total);
    proof {
        lemma_winner_some(ledger.entries@, choice as int);
    }
    let r = select_weighted(&ledger.entries, choice);
    proof {
        let i = spec_winner(ledger.entries@, choice as int)->Some_0;
        assert(ledger.entries@[i].amount > 0);
    }
    r
}

} // verus!
