//! The hash-chain sequencer: proof-of-history entries and their
//! verification.
//!
//! Every entry binds a timestamp to all prior state: the first entry's
//! hash is the digest of thirty-two zero bytes followed by its
//! timestamp's big-endian bytes, and each later entry's hash is the
//! digest of the previous hash followed by its own timestamp's bytes.

use vstd::prelude::*;
use crate::crypto::{sha256, sha256_of};
use crate::encoding::{copy_bytes, extend_bytes, u64_be_bytes};

verus! {

/// One link of the history chain.
#[derive(Debug)]
pub struct PohEntry {
    pub timestamp: u64,
    pub hash: Vec<u8>,
}

/// The all-zero digest that roots the chain.
pub open spec fn zero_hash() -> Seq<u8> {
    Seq::new(32, |i: int| 0u8)
}

/// Two entries carry the same timestamp and hash.
pub open spec fn entry_matches(a: PohEntry, b: PohEntry) -> bool {
    a.timestamp == b.timestamp && a.hash@ == b.hash@
}

/// Two entry sequences agree element by element.
pub open spec fn entries_match(a: Seq<PohEntry>, b: Seq<PohEntry>) -> bool {
    a.len() == b.len() && forall|i: int| 0 <= i < a.len() ==> entry_matches(a[i], b[i])
}

/// `cur`'s hash is the digest of `prev_hash` followed by `cur`'s
/// timestamp in big-endian bytes.
pub open spec fn entry_follows(prev_hash: Seq<u8>, cur: PohEntry) -> bool {
    cur.hash@ == sha256_of(prev_hash + u64_be_bytes(cur.timestamp))
}

/// Every entry after the first chains from its predecessor's hash.
pub open spec fn chain_connected(s: Seq<PohEntry>) -> bool {
    forall|i: int| 0 < i < s.len() ==> entry_follows(#[trigger] s[i - 1].hash@, s[i])
}

/// The whole history is well formed: rooted in the zero digest and
/// connected throughout.
pub open spec fn valid_history(s: Seq<PohEntry>) -> bool {
    &&& s.len() > 0 ==> entry_follows(zero_hash(), s[0])
    &&& chain_connected(s)
}

/// A copy of one entry, field for field.
pub fn clone_entry(e: &PohEntry) -> (r: PohEntry)
    ensures
        entry_matches(r, *e),
{
    PohEntry { timestamp: e.timestamp, hash: copy_bytes(&e.hash) }
}

/// The entry that extends a chain whose last hash is `prev_hash`, at
/// time `timestamp`.
pub fn next_entry(prev_hash: &Vec<u8>, timestamp: u64) -> (r: PohEntry)
    ensures
        r.timestamp == timestamp,
        entry_follows(prev_hash@, r),
{
    let mut input = copy_bytes(prev_hash);
    let ts_bytes = crate::encoding::u64_to_be(timestamp);
    extend_bytes(&mut input, ts_bytes.as_slice());
    let digest = sha256(input.as_slice());
    PohEntry { timestamp, hash: digest }
}

/// Checks that the entries form a connected hash chain; `Err(i)` names
/// the first index whose hash does not chain from its predecessor.
pub fn validate_poh_entries(poh_entries: &Vec<PohEntry>) -> (r: Result<(), usize>)
    ensures
        match r {
            Ok(()) => chain_connected(poh_entries@),
            Err(i) => {
                &&& 0 < i < poh_entries@.len()
                &&& !entry_follows(poh_entries@[i as int - 1].hash@, poh_entries@[i as int])
                &&& chain_connected(poh_entries@.subrange(0, i as int))
            },
        },
{
    let n = poh_entries.len();
    if n == 0 {
        return Ok(());
    }
    let mut i: usize = 1;
    while i < n
        invariant
            1 <= i <= n,
            n == poh_entries@.len(),
            chain_connected(poh_entries@.subrange(0, i as int)),
        decreases n - i,
    {
        let expected = next_entry(&poh_entries[i - 1].hash, poh_entries[i].timestamp);
        if !bytes_eq(&expected.hash, &poh_entries[i].hash) {
            return Err(i);
        }
        i = i + 1;
        proof {
            let s = poh_entries@;
            let pre = s.subrange(0, i as int);
            assert forall|j: int| 0 < j < pre.len() implies entry_follows(
                #[trigger] pre[j - 1].hash@,
                pre[j],
            ) by {
                if j < i - 1 {
                    assert(entry_follows(s.subrange(0, i - 1)[j - 1].hash@, s.subrange(0, i - 1)[j]));
                }
            }
        }
    }
    proof {
        assert(poh_entries@.subrange(0, n as int) =~= poh_entries@);
    }
    Ok(())
}

/// Whether two byte vectors hold the same bytes.
pub fn bytes_eq(a: &Vec<u8>, b: &Vec<u8>) -> (r: bool)
    ensures
        r == (a@ == b@),
{
    if a.len() != b.len() {
        return false;
    }
    let mut i: usize = 0;
    while i < a.len()
        invariant
            i <= a@.len(),
            a@.len() == b@.len(),
            forall|j: int| 0 <= j < i ==> a@[j] == b@[j],
        decreases a@.len() - i,
    {
        if a[i] != b[i] {
            return false;
        }
        i = i + 1;
    }
    proof {
        assert(a@ =~= b@);
    }
    true
}

/// The suffix of the history from `index` to the end: the reply to a
/// retransmission request.  An index at or past the end gives the empty
/// list, never an error.
pub fn history_from(entries: &Vec<PohEntry>, index: usize) -> (r: Vec<PohEntry>)
    ensures
        index <= entries@.len() ==> entries_match(
            r@,
            entries@.subrange(index as int, entries@.len() as int),
        ),
        index > entries@.len() ==> r@.len() == 0,
{
    let mut r: Vec<PohEntry> = Vec::new();
    if index >= entries.len() {
        proof {
            if index == entries@.len() {
                assert(entries@.subrange(index as int, entries@.len() as int).len() == 0);
            }
        }
        return r;
    }
    let mut i: usize = index;
    while i < entries.len()
        invariant
            index <= i <= entries@.len(),
            r@.len() == i - index,
            forall|j: int| 0 <= j < r@.len() ==> entry_matches(r@[j], entries@[index + j]),
        decreases entries@.len() - i,
    {
        r.push(clone_entry(&entries[i]));
        i = i + 1;
    }
    r
}

/// Appending an entry that chains from the last hash (or from the zero
/// digest when the history is empty) keeps the history well formed.
pub proof fn lemma_extend_valid(s: Seq<PohEntry>, e: PohEntry)
    requires
        valid_history(s),
        s.len() == 0 ==> entry_follows(zero_hash(), e),
        s.len() > 0 ==> entry_follows(s[s.len() - 1].hash@, e),
    ensures
        valid_history(s.push(e)),
{
    let t = s.push(e);
    assert forall|i: int| 0 < i < t.len() implies entry_follows(#[trigger] t[i - 1].hash@, t[i]) by {
        if i < s.len() {
            assert(entry_follows(s[i - 1].hash@, s[i]));
        }
    }
}

} // verus!
