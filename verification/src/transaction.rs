//! Transactions and the pending-transaction pool.
//!
//! A transaction's only checked property is that its signature is
//! non-empty: real asymmetric signatures are a non-goal of this design,
//! and the validity predicate is the single hook where they would go.

use vstd::prelude::*;
use vstd::utf8::encode_utf8;
use crate::encoding::{copy_bytes, extend_bytes, u64_be_bytes, u64_to_be};

verus! {

#[derive(Debug)]
pub struct Transaction {
    pub sender: String,
    pub receiver: String,
    pub amount: u64,
    pub signature: Vec<u8>,
}

/// Two transactions carry the same fields.
pub open spec fn tx_matches(a: Transaction, b: Transaction) -> bool {
    &&& a.sender@ == b.sender@
    &&& a.receiver@ == b.receiver@
    &&& a.amount == b.amount
    &&& a.signature@ == b.signature@
}

/// Two transaction sequences agree element by element.
pub open spec fn txs_match(a: Seq<Transaction>, b: Seq<Transaction>) -> bool {
    a.len() == b.len() && forall|i: int| 0 <= i < a.len() ==> tx_matches(a[i], b[i])
}

impl Transaction {
    /// The placeholder validity predicate: the signature is non-empty.
    pub fn validate(&self) -> (r: bool)
        ensures
            r == (self.signature@.len() > 0),
    {
        !self.signature.is_empty()
    }
}

pub fn create_transaction(
    sender: String,
    receiver: String,
    amount: u64,
    signature: Vec<u8>,
) -> (r: Transaction)
    ensures
        r.sender@ == sender@,
        r.receiver@ == receiver@,
        r.amount == amount,
        r.signature@ == signature@,
{
    Transaction { sender, receiver, amount, signature }
}

/// A field for hashing: its length in big-endian bytes, then the field.
pub open spec fn length_prefixed(b: Seq<u8>) -> Seq<u8> {
    u64_be_bytes(b.len() as u64) + b
}

/// The bytes of one transaction as fed to the block hash.
pub open spec fn tx_bytes(t: Transaction) -> Seq<u8> {
    length_prefixed(encode_utf8(t.sender@)) + length_prefixed(encode_utf8(t.receiver@))
        + u64_be_bytes(t.amount) + length_prefixed(t.signature@)
}

/// The bytes of a transaction list, in order.
pub open spec fn txs_bytes(s: Seq<Transaction>) -> Seq<u8>
    decreases s.len(),
{
    if s.len() == 0 {
        Seq::empty()
    } else {
        txs_bytes(s.drop_last()) + tx_bytes(s.last())
    }
}

/// A copy of one transaction, field for field.
pub fn clone_transaction(t: &Transaction) -> (r: Transaction)
    ensures
        tx_matches(r, *t),
{
    Transaction {
        sender: t.sender.clone(),
        receiver: t.receiver.clone(),
        amount: t.amount,
        signature: copy_bytes(&t.signature),
    }
}

/// Appends a length-prefixed field to `dst`.
fn push_length_prefixed(dst: &mut Vec<u8>, field: &[u8])
    ensures
        final(dst)@ == old(dst)@ + length_prefixed(field@),
{
    let ghost pre = dst@;
    let len_bytes = u64_to_be(field.len() as u64);
    extend_bytes(dst, len_bytes.as_slice());
    extend_bytes(dst, field);
    proof {
        assert(dst@ =~= pre + length_prefixed(field@));
    }
}

/// The serialized form of one transaction, used as block-hash input.
pub fn serialize_transaction(t: &Transaction) -> (r: Vec<u8>)
    ensures
        r@ == tx_bytes(*t),
{
    let mut r: Vec<u8> = Vec::new();
    push_length_prefixed(&mut r, t.sender.as_str().as_bytes());
    push_length_prefixed(&mut r, t.receiver.as_str().as_bytes());
    let amount_bytes = u64_to_be(t.amount);
    extend_bytes(&mut r, amount_bytes.as_slice());
    push_length_prefixed(&mut r, t.signature.as_slice());
    proof {
        assert(r@ =~= tx_bytes(*t));
    }
    r
}

/// The serialized form of a transaction list, used as block-hash input.
pub fn serialize_transactions(txs: &Vec<Transaction>) -> (r: Vec<u8>)
    ensures
        r@ == txs_bytes(txs@),
{
    let mut r: Vec<u8> = Vec::new();
    let mut i: usize = 0;
    while i < txs.len()
        invariant
            i <= txs@.len(),
            r@ == txs_bytes(txs@.subrange(0, i as int)),
        decreases txs@.len() - i,
    {
        let tx_ser = serialize_transaction(&txs[i]);
        extend_bytes(&mut r, tx_ser.as_slice());
        i = i + 1;
        proof {
            let pre = txs@.subrange(0, i - 1);
            let cur = txs@.subrange(0, i as int);
            assert(cur.drop_last() =~= pre);
            assert(cur.last() == txs@[i - 1]);
            assert(r@ =~= txs_bytes(cur));
        }
    }
    proof {
        assert(txs@.subrange(0, txs@.len() as int) =~= txs@);
    }
    r
}

/// The pool of pending, admitted transactions.
#[derive(Debug)]
pub struct TransactionPool {
    pub txs: Vec<Transaction>,
}

impl TransactionPool {
    pub fn new() -> (r: TransactionPool)
        ensures
            r.txs@.len() == 0,
    {
        TransactionPool { txs: Vec::new() }
    }

    /// Admits the transaction if its signature is non-empty; reports
    /// whether it was admitted.
    pub fn submit(&mut self, tx: Transaction) -> (r: bool)
        ensures
            r == (tx.signature@.len() > 0),
            r ==> final(self).txs@ == old(self).txs@.push(tx),
            !r ==> final(self).txs@ == old(self).txs@,
    {
        if tx.validate() {
            self.txs.push(tx);
            true
        } else {
            false
        }
    }

    /// A copy of the pool's contents, in admission order, for block
    /// assembly; the pool itself is left as it is.
    pub fn drain_snapshot(&self) -> (r: Vec<Transaction>)
        ensures
            txs_match(r@, self.txs@),
    {
        let mut r: Vec<Transaction> = Vec::new();
        let mut i: usize = 0;
        while i < self.txs.len()
            invariant
                i <= self.txs@.len(),
                r@.len() == i,
                forall|j: int| 0 <= j < i ==> tx_matches(r@[j], self.txs@[j]),
            decreases self.txs@.len() - i,
        {
            r.push(clone_transaction(&self.txs[i]));
            i = i + 1;
        }
        r
    }

    /// Removes and returns the pool's contents, in admission order, so
    /// that a transaction embedded in an assembled block is not included
    /// twice.
    pub fn take_all(&mut self) -> (r: Vec<Transaction>)
        ensures
            r@ == old(self).txs@,
            final(self).txs@.len() == 0,
    {
        let mut taken: Vec<Transaction> = Vec::new();
        core::mem::swap(&mut taken, &mut self.txs);
        taken
    }

    pub fn len(&self) -> (r: usize)
        ensures
            r == self.txs@.len(),
    {
        self.txs.len()
    }
}

} // verus!
