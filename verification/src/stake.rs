//! The validator registry and stake ledger.
//!
//! The ledger maps validator identifiers to staked weight.  It is kept
//! as an ordered list of entries with unique identifiers, so that a
//! snapshot for leader election has a definite order.  The ledger's
//! well-formedness bounds the total stake by `u64::MAX`, which keeps
//! every sum in range.

use vstd::prelude::*;

verus! {

/// A registered peer.
#[derive(Debug)]
pub struct Validator {
    pub id: String,
    pub public_key: Vec<u8>,
}

/// One ledger entry: a validator's staked weight.
#[derive(Debug)]
pub struct Stake {
    pub validator_id: String,
    pub amount: u64,
}

/// Two stake entries carry the same identifier and amount.
pub open spec fn stake_matches(a: Stake, b: Stake) -> bool {
    a.validator_id@ == b.validator_id@ && a.amount == b.amount
}

/// Two stake sequences agree element by element.
pub open spec fn stakes_match(a: Seq<Stake>, b: Seq<Stake>) -> bool {
    a.len() == b.len() && forall|i: int| 0 <= i < a.len() ==> stake_matches(a[i], b[i])
}

/// No two entries share an identifier.
pub open spec fn keys_unique(s: Seq<Stake>) -> bool {
    forall|i: int, j: int|
        0 <= i < j < s.len() ==> s[i].validator_id@ != s[j].validator_id@
}

/// Whether some entry carries the identifier.
pub open spec fn has_stake(s: Seq<Stake>, id: Seq<char>) -> bool {
    exists|i: int| 0 <= i < s.len() && s[i].validator_id@ == id
}

/// The amount staked under `id`; zero when absent.
pub open spec fn stake_lookup(s: Seq<Stake>, id: Seq<char>) -> int
    decreases s.len(),
{
    if s.len() == 0 {
        0
    } else if s[0].validator_id@ == id {
        s[0].amount as int
    } else {
        stake_lookup(s.drop_first(), id)
    }
}

/// The sum of all staked amounts.
pub open spec fn total_stake_of(s: Seq<Stake>) -> int
    decreases s.len(),
{
    if s.len() == 0 {
        0
    } else {
        s[0].amount + total_stake_of(s.drop_first())
    }
}

pub proof fn lemma_total_nonneg(s: Seq<Stake>)
    ensures
        total_stake_of(s) >= 0,
    decreases s.len(),
{
    if s.len() > 0 {
        lemma_total_nonneg(s.drop_first());
    }
}

pub proof fn lemma_total_concat(a: Seq<Stake>, b: Seq<Stake>)
    ensures
        total_stake_of(a + b) == total_stake_of(a) + total_stake_of(b),
    decreases a.len(),
{
    if a.len() == 0 {
        assert(a + b =~= b);
    } else {
        assert((a + b).drop_first() =~= a.drop_first() + b);
        lemma_total_concat(a.drop_first(), b);
    }
}

pub proof fn lemma_total_push(s: Seq<Stake>, e: Stake)
    ensures
        total_stake_of(s.push(e)) == total_stake_of(s) + e.amount,
{
    assert(s.push(e) =~= s + seq![e]);
    lemma_total_concat(s, seq![e]);
    assert(total_stake_of(seq![e]) == e.amount + total_stake_of(seq![e].drop_first()));
    assert(seq![e].drop_first() =~= Seq::<Stake>::empty());
}

/// An identifier that no entry carries is looked up as zero.
pub proof fn lemma_absent_lookup_zero(s: Seq<Stake>, id: Seq<char>)
    requires
        !has_stake(s, id),
    ensures
        stake_lookup(s, id) == 0,
    decreases s.len(),
{
    if s.len() > 0 {
        assert(s[0].validator_id@ != id);
        assert forall|i: int| 0 <= i < s.drop_first().len() implies s.drop_first()[i].validator_id@
            != id by {
            assert(s.drop_first()[i] == s[i + 1]);
        }
        lemma_absent_lookup_zero(s.drop_first(), id);
    }
}

/// Every single stake is at most the total.
pub proof fn lemma_lookup_le_total(s: Seq<Stake>, id: Seq<char>)
    ensures
        0 <= stake_lookup(s, id) <= total_stake_of(s),
    decreases s.len(),
{
    if s.len() == 0 {
    } else if s[0].validator_id@ == id {
        lemma_total_nonneg(s.drop_first());
    } else {
        lemma_lookup_le_total(s.drop_first(), id);
    }
}

/// Appending an entry with a fresh identifier adds its amount to the
/// total, makes it visible to lookup, and touches nothing else.
pub proof fn lemma_stake_push(s: Seq<Stake>, e: Stake)
    requires
        !has_stake(s, e.validator_id@),
    ensures
        total_stake_of(s.push(e)) == total_stake_of(s) + e.amount,
        stake_lookup(s.push(e), e.validator_id@) == e.amount,
        forall|b: Seq<char>| b != e.validator_id@ ==> stake_lookup(s.push(e), b) == stake_lookup(s, b),
        keys_unique(s) ==> keys_unique(s.push(e)),
        forall|b: Seq<char>| has_stake(s.push(e), b) <==> (has_stake(s, b) || b == e.validator_id@),
    decreases s.len(),
{
    lemma_total_push(s, e);
    let t = s.push(e);
    if s.len() == 0 {
        assert(t[0] == e);
        assert(t.drop_first() =~= Seq::<Stake>::empty());
    } else {
        assert(t[0] == s[0]);
        assert(t.drop_first() =~= s.drop_first().push(e));
        assert forall|i: int| 0 <= i < s.drop_first().len() implies s.drop_first()[i].validator_id@
            != e.validator_id@ by {
            assert(s.drop_first()[i] == s[i + 1]);
        }
        assert(s[0].validator_id@ != e.validator_id@);
        lemma_stake_push(s.drop_first(), e);
    }
    assert forall|b: Seq<char>| b != e.validator_id@ implies stake_lookup(t, b) == stake_lookup(
        s,
        b,
    ) by {
        if s.len() == 0 {
            assert(t[0] == e);
            assert(stake_lookup(t, b) == stake_lookup(t.drop_first(), b));
            assert(t.drop_first() =~= Seq::<Stake>::empty());
            assert(stake_lookup(Seq::<Stake>::empty(), b) == 0);
        } else {
            assert(t[0] == s[0]);
            assert(t.drop_first() =~= s.drop_first().push(e));
            if s[0].validator_id@ == b {
                assert(stake_lookup(t, b) == t[0].amount);
                assert(stake_lookup(s, b) == s[0].amount);
            } else {
                assert(stake_lookup(t, b) == stake_lookup(t.drop_first(), b));
                assert(stake_lookup(s, b) == stake_lookup(s.drop_first(), b));
                assert(stake_lookup(s.drop_first().push(e), b) == stake_lookup(s.drop_first(), b));
            }
        }
    }
    if keys_unique(s) {
        assert forall|i: int, j: int| 0 <= i < j < t.len() implies t[i].validator_id@
            != t[j].validator_id@ by {
            if j < s.len() {
                assert(t[i] == s[i] && t[j] == s[j]);
            } else {
                assert(t[j] == e && t[i] == s[i]);
            }
        }
    }
    assert forall|b: Seq<char>| has_stake(t, b) <==> (has_stake(s, b) || b == e.validator_id@) by {
        if has_stake(t, b) {
            let i = choose|i: int| 0 <= i < t.len() && t[i].validator_id@ == b;
            if i < s.len() {
                assert(s[i].validator_id@ == b);
            }
        }
        if has_stake(s, b) {
            let i = choose|i: int| 0 <= i < s.len() && s[i].validator_id@ == b;
            assert(t[i].validator_id@ == b);
        }
        if b == e.validator_id@ {
            assert(t[s.len() as int].validator_id@ == b);
        }
    }
}

/// Replacing the amount of the first entry that carries an identifier
/// shifts the total by the difference, updates that identifier's
/// lookup, and touches nothing else.
pub proof fn lemma_stake_update(s: Seq<Stake>, i: int, e: Stake)
    requires
        0 <= i < s.len(),
        e.validator_id@ == s[i].validator_id@,
        forall|j: int| 0 <= j < i ==> s[j].validator_id@ != s[i].validator_id@,
    ensures
        total_stake_of(s.update(i, e)) == total_stake_of(s) - s[i].amount + e.amount,
        stake_lookup(s.update(i, e), e.validator_id@) == e.amount,
        forall|b: Seq<char>| b != e.validator_id@ ==> stake_lookup(s.update(i, e), b) == stake_lookup(
            s,
            b,
        ),
        keys_unique(s) ==> keys_unique(s.update(i, e)),
        forall|b: Seq<char>| has_stake(s.update(i, e), b) <==> has_stake(s, b),
    decreases i,
{
    let t = s.update(i, e);
    if i == 0 {
        assert(t[0] == e);
        assert(t.drop_first() =~= s.drop_first());
    } else {
        assert(t[0] == s[0]);
        assert(t.drop_first() =~= s.drop_first().update(i - 1, e));
        assert forall|j: int| 0 <= j < i - 1 implies #[trigger] s.drop_first()[j].validator_id@
            != s.drop_first()[i - 1].validator_id@ by {
            assert(s.drop_first()[j] == s[j + 1]);
            assert(s.drop_first()[i - 1] == s[i]);
        }
        assert(s.drop_first()[i - 1] == s[i]);
        lemma_stake_update(s.drop_first(), i - 1, e);
        assert(s[0].validator_id@ != e.validator_id@);
    }
    assert forall|b: Seq<char>| b != e.validator_id@ implies stake_lookup(t, b) == stake_lookup(
        s,
        b,
    ) by {
        if i == 0 {
            assert(t[0] == e);
            assert(stake_lookup(t, b) == stake_lookup(t.drop_first(), b));
            assert(stake_lookup(s, b) == stake_lookup(s.drop_first(), b));
            assert(t.drop_first() =~= s.drop_first());
        } else {
            assert(t[0] == s[0]);
            assert(t.drop_first() =~= s.drop_first().update(i - 1, e));
            if s[0].validator_id@ == b {
                assert(stake_lookup(t, b) == t[0].amount);
                assert(stake_lookup(s, b) == s[0].amount);
            } else {
                assert(stake_lookup(t, b) == stake_lookup(t.drop_first(), b));
                assert(stake_lookup(s, b) == stake_lookup(s.drop_first(), b));
                assert(stake_lookup(s.drop_first().update(i - 1, e), b) == stake_lookup(
                    s.drop_first(),
                    b,
                ));
            }
        }
    }
    if keys_unique(s) {
        assert forall|p: int, q: int| 0 <= p < q < t.len() implies t[p].validator_id@
            != t[q].validator_id@ by {
            assert(t[p].validator_id@ == s[p].validator_id@);
            assert(t[q].validator_id@ == s[q].validator_id@);
        }
    }
    assert forall|b: Seq<char>| has_stake(t, b) <==> has_stake(s, b) by {
        if has_stake(t, b) {
            let k = choose|k: int| 0 <= k < t.len() && t[k].validator_id@ == b;
            assert(s[k].validator_id@ == b || s[i].validator_id@ == b);
        }
        if has_stake(s, b) {
            let k = choose|k: int| 0 <= k < s.len() && s[k].validator_id@ == b;
            assert(t[k].validator_id@ == b || t[i].validator_id@ == b);
        }
    }
}

/// Removing the only entry that carries an identifier subtracts its
/// amount from the total, hides the identifier from lookup, and touches
/// nothing else.
pub proof fn lemma_stake_remove(s: Seq<Stake>, i: int)
    requires
        0 <= i < s.len(),
        keys_unique(s),
    ensures
        total_stake_of(s.remove(i)) == total_stake_of(s) - s[i].amount,
        !has_stake(s.remove(i), s[i].validator_id@),
        forall|b: Seq<char>| b != s[i].validator_id@ ==> stake_lookup(s.remove(i), b) == stake_lookup(
            s,
            b,
        ),
        keys_unique(s.remove(i)),
        forall|b: Seq<char>| b != s[i].validator_id@ ==> (has_stake(s.remove(i), b) <==> has_stake(
            s,
            b,
        )),
    decreases i,
{
    let t = s.remove(i);
    if i == 0 {
        assert(t =~= s.drop_first());
        assert forall|k: int| 0 <= k < t.len() implies t[k].validator_id@ != s[0].validator_id@ by {
            assert(t[k] == s[k + 1]);
        }
    } else {
        assert(t[0] == s[0]);
        assert(t.drop_first() =~= s.drop_first().remove(i - 1));
        assert forall|p: int, q: int| 0 <= p < q < s.drop_first().len() implies s.drop_first()[p].validator_id@
            != s.drop_first()[q].validator_id@ by {
            assert(s.drop_first()[p] == s[p + 1]);
            assert(s.drop_first()[q] == s[q + 1]);
        }
        assert(s.drop_first()[i - 1] == s[i]);
        lemma_stake_remove(s.drop_first(), i - 1);
        assert(s[0].validator_id@ != s[i].validator_id@);
        if has_stake(t, s[i].validator_id@) {
            let k = choose|k: int| 0 <= k < t.len() && t[k].validator_id@ == s[i].validator_id@;
            if k > 0 {
                assert(t.drop_first()[k - 1].validator_id@ == s[i].validator_id@);
            }
        }
    }
    assert forall|b: Seq<char>| b != s[i].validator_id@ implies stake_lookup(t, b) == stake_lookup(
        s,
        b,
    ) by {
        if i == 0 {
            assert(t =~= s.drop_first());
            assert(stake_lookup(s, b) == stake_lookup(s.drop_first(), b));
        } else {
            assert(t[0] == s[0]);
            assert(t.drop_first() =~= s.drop_first().remove(i - 1));
            if s[0].validator_id@ == b {
                assert(stake_lookup(t, b) == t[0].amount);
                assert(stake_lookup(s, b) == s[0].amount);
            } else {
                assert(stake_lookup(t, b) == stake_lookup(t.drop_first(), b));
                assert(stake_lookup(s, b) == stake_lookup(s.drop_first(), b));
                assert(stake_lookup(s.drop_first().remove(i - 1), b) == stake_lookup(
                    s.drop_first(),
                    b,
                ));
            }
        }
    }
    assert forall|p: int, q: int| 0 <= p < q < t.len() implies t[p].validator_id@
        != t[q].validator_id@ by {
        let sp: int = if p < i { p } else { p + 1 };
        let sq: int = if q < i { q } else { q + 1 };
        assert(t[p] == s[sp]);
        assert(t[q] == s[sq]);
    }
    assert forall|b: Seq<char>| b != s[i].validator_id@ implies (has_stake(t, b) <==> has_stake(
        s,
        b,
    )) by {
        if has_stake(t, b) {
            let k = choose|k: int| 0 <= k < t.len() && t[k].validator_id@ == b;
            let sk: int = if k < i { k } else { k + 1 };
            assert(s[sk].validator_id@ == b);
        }
        if has_stake(s, b) {
            let k = choose|k: int| 0 <= k < s.len() && s[k].validator_id@ == b;
            if k < i {
                assert(t[k].validator_id@ == b);
            } else if k > i {
                assert(t[k - 1].validator_id@ == b);
            }
        }
    }
}

/// The stake ledger and validator registry: one entry per registered
/// validator, unique identifiers, total stake within `u64` range.
#[derive(Debug)]
pub struct StakeLedger {
    pub entries: Vec<Stake>,
}

impl StakeLedger {
    /// Unique identifiers and a representable total.
    pub open spec fn wf(self) -> bool {
        &&& keys_unique(self.entries@)
        &&& total_stake_of(self.entries@) <= u64::MAX
    }

    pub fn new() -> (r: StakeLedger)
        ensures
            r.wf(),
            r.entries@.len() == 0,
    {
        StakeLedger { entries: Vec::new() }
    }

    pub fn len(&self) -> (r: usize)
        ensures
            r == self.entries@.len(),
    {
        self.entries.len()
    }

    pub fn is_empty(&self) -> (r: bool)
        ensures
            r == (self.entries@.len() == 0),
    {
        self.entries.len() == 0
    }

    /// The index of the entry carrying `id`, if any.
    fn find(&self, id: &String) -> (r: Option<usize>)
        ensures
            match r {
                Some(i) => {
                    &&& i < self.entries@.len()
                    &&& self.entries@[i as int].validator_id@ == id@
                    &&& forall|j: int| 0 <= j < i ==> self.entries@[j].validator_id@ != id@
                },
                None => !has_stake(self.entries@, id@),
            },
    {
        let mut i: usize = 0;
        while i < self.entries.len()
            invariant
                i <= self.entries@.len(),
                forall|j: int| 0 <= j < i ==> self.entries@[j].validator_id@ != id@,
            decreases self.entries@.len() - i,
        {
            if self.entries[i].validator_id == *id {
                return Some(i);
            }
            i = i + 1;
        }
        None
    }

    /// Whether `id` is registered.
    pub fn contains(&self, id: &String) -> (r: bool)
        ensures
            r == has_stake(self.entries@, id@),
    {
        match self.find(id) {
            Some(_) => true,
            None => false,
        }
    }

    /// The amount staked under `id`; zero when absent.
    pub fn stake_of(&self, id: &String) -> (r: u64)
        requires
            self.wf(),
        ensures
            r == stake_lookup(self.entries@, id@),
    {
        match self.find(id) {
            Some(i) => {
                proof {
                    lemma_lookup_first_match(self.entries@, i as int);
                    lemma_lookup_le_total(self.entries@, id@);
                }
                self.entries[i].amount
            },
            None => {
                proof {
                    lemma_absent_lookup_zero(self.entries@, id@);
                }
                0
            },
        }
    }

    /// The sum of all staked amounts.
    pub fn total_stake(&self) -> (r: u64)
        requires
            self.wf(),
        ensures
            r == total_stake_of(self.entries@),
    {
        let ghost s = self.entries@;
        let mut acc: u64 = 0;
        let mut i: usize = 0;
        while i < self.entries.len()
            invariant
                self.wf(),
                s == self.entries@,
                i <= s.len(),
                acc == total_stake_of(s.subrange(0, i as int)),
            decreases s.len() - i,
        {
            proof {
                assert(s.subrange(0, i + 1) =~= s.subrange(0, i as int).push(s[i as int]));
                lemma_total_push(s.subrange(0, i as int), s[i as int]);
                assert(s =~= s.subrange(0, i + 1) + s.subrange(i + 1, s.len() as int));
                lemma_total_concat(s.subrange(0, i + 1), s.subrange(i + 1, s.len() as int));
                lemma_total_nonneg(s.subrange(i + 1, s.len() as int));
                lemma_total_nonneg(s.subrange(0, i as int));
            }
            acc = acc + self.entries[i].amount;
            i = i + 1;
        }
        proof {
            assert(s.subrange(0, s.len() as int) =~= s);
        }
        acc
    }

    /// Adds `amount` to `id`'s stake, creating the entry at zero when
    /// absent.  Fails, leaving the ledger unchanged, exactly when the
    /// new total would not be representable.
    pub fn deposit_stake(&mut self, id: &String, amount: u64) -> (r: bool)
        requires
            old(self).wf(),
        ensures
            final(self).wf(),
            r == (total_stake_of(old(self).entries@) + amount <= u64::MAX),
            r ==> {
                &&& stake_lookup(final(self).entries@, id@) == stake_lookup(old(self).entries@, id@)
                    + amount
                &&& total_stake_of(final(self).entries@) == total_stake_of(old(self).entries@)
                    + amount
                &&& forall|b: Seq<char>| b != id@ ==> stake_lookup(final(self).entries@, b)
                    == stake_lookup(old(self).entries@, b)
                &&& forall|b: Seq<char>| has_stake(final(self).entries@, b) <==> (has_stake(
                    old(self).entries@,
                    b,
                ) || b == id@)
            },
            !r ==> final(self).entries@ == old(self).entries@,
    {
        let ghost s = self.entries@;
        let total = self.total_stake();
        if amount > u64::MAX - total {
            return false;
        }
        match self.find(id) {
            Some(i) => {
                proof {
                    lemma_lookup_first_match(s, i as int);
                    lemma_lookup_le_total(s, id@);
                }
                let updated = Stake {
                    validator_id: id.clone(),
                    amount: self.entries[i].amount + amount,
                };
                proof {
                    lemma_stake_update(s, i as int, updated);
                }
                self.entries[i] = updated;
                proof {
                    assert forall|b: Seq<char>| has_stake(self.entries@, b) <==> (has_stake(s, b)
                        || b == id@) by {
                        if b == id@ {
                            assert(has_stake(s, b));
                        }
                    }
                }
                true
            },
            None => {
                proof {
                    lemma_absent_lookup_zero(s, id@);
                }
                let entry = Stake { validator_id: id.clone(), amount };
                proof {
                    lemma_stake_push(s, entry);
                }
                self.entries.push(entry);
                true
            },
        }
    }

    /// Sets `id`'s stake to exactly `amount`, registering the entry when
    /// absent: the faucet-style seeding done at registration.  Fails,
    /// leaving the ledger unchanged, exactly when the new total would
    /// not be representable.
    pub fn set_stake(&mut self, id: &String, amount: u64) -> (r: bool)
        requires
            old(self).wf(),
        ensures
            final(self).wf(),
            r == (total_stake_of(old(self).entries@) - stake_lookup(old(self).entries@, id@)
                + amount <= u64::MAX),
            r ==> {
                &&& stake_lookup(final(self).entries@, id@) == amount
                &&& total_stake_of(final(self).entries@) == total_stake_of(old(self).entries@)
                    - stake_lookup(old(self).entries@, id@) + amount
                &&& forall|b: Seq<char>| b != id@ ==> stake_lookup(final(self).entries@, b)
                    == stake_lookup(old(self).entries@, b)
                &&& forall|b: Seq<char>| has_stake(final(self).entries@, b) <==> (has_stake(
                    old(self).entries@,
                    b,
                ) || b == id@)
            },
            !r ==> final(self).entries@ == old(self).entries@,
    {
        let ghost s = self.entries@;
        let total = self.total_stake();
        match self.find(id) {
            Some(i) => {
                proof {
                    lemma_lookup_first_match(s, i as int);
                    lemma_lookup_le_total(s, id@);
                }
                let current = self.entries[i].amount;
                if amount > u64::MAX - (total - current) {
                    return false;
                }
                let updated = Stake { validator_id: id.clone(), amount };
                proof {
                    lemma_stake_update(s, i as int, updated);
                }
                self.entries[i] = updated;
                proof {
                    assert forall|b: Seq<char>| has_stake(self.entries@, b) <==> (has_stake(s, b)
                        || b == id@) by {
                        if b == id@ {
                            assert(has_stake(s, b));
                        }
                    }
                }
                true
            },
            None => {
                proof {
                    lemma_absent_lookup_zero(s, id@);
                }
                if amount > u64::MAX - total {
                    return false;
                }
                let entry = Stake { validator_id: id.clone(), amount };
                proof {
                    lemma_stake_push(s, entry);
                }
                self.entries.push(entry);
                true
            },
        }
    }

    /// Drops `id`'s entry on disconnect; absent identifiers are ignored.
    pub fn remove(&mut self, id: &String)
        requires
            old(self).wf(),
        ensures
            final(self).wf(),
            !has_stake(final(self).entries@, id@),
            total_stake_of(final(self).entries@) == total_stake_of(old(self).entries@)
                - stake_lookup(old(self).entries@, id@),
            forall|b: Seq<char>| b != id@ ==> stake_lookup(final(self).entries@, b) == stake_lookup(
                old(self).entries@,
                b,
            ),
            forall|b: Seq<char>| b != id@ ==> (has_stake(final(self).entries@, b) <==> has_stake(
                old(self).entries@,
                b,
            )),
    {
        let ghost s = self.entries@;
        match self.find(id) {
            Some(i) => {
                proof {
                    lemma_lookup_first_match(s, i as int);
                    lemma_stake_remove(s, i as int);
                }
                self.entries.remove(i);
            },
            None => {
                proof {
                    lemma_absent_lookup_zero(s, id@);
                }
            },
        }
    }

    /// An ordered copy of the ledger, for election and reporting.
    pub fn snapshot(&self) -> (r: Vec<Stake>)
        ensures
            stakes_match(r@, self.entries@),
    {
        let mut r: Vec<Stake> = Vec::new();
        let mut i: usize = 0;
        while i < self.entries.len()
            invariant
                i <= self.entries@.len(),
                r@.len() == i,
                forall|j: int| 0 <= j < i ==> stake_matches(r@[j], self.entries@[j]),
            decreases self.entries@.len() - i,
        {
            let e = &self.entries[i];
            r.push(Stake { validator_id: e.validator_id.clone(), amount: e.amount });
            i = i + 1;
        }
        r
    }
}

/// Lookup returns the amount at the first index carrying the
/// identifier.
pub proof fn lemma_lookup_first_match(s: Seq<Stake>, i: int)
    requires
        0 <= i < s.len(),
        forall|j: int| 0 <= j < i ==> s[j].validator_id@ != s[i].validator_id@,
    ensures
        stake_lookup(s, s[i].validator_id@) == s[i].amount,
    decreases i,
{
    if i == 0 {
    } else {
        assert(s[0].validator_id@ != s[i].validator_id@);
        assert(s.drop_first()[i - 1] == s[i]);
        assert forall|j: int| 0 <= j < i - 1 implies #[trigger] s.drop_first()[j].validator_id@
            != s.drop_first()[i - 1].validator_id@ by {
            assert(s.drop_first()[j] == s[j + 1]);
        }
        lemma_lookup_first_match(s.drop_first(), i - 1);
    }
}

} // verus!
