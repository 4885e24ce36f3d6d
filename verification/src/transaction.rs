//! The transaction constraint chip.
//!
//! One gated row enforces, for a single transfer: the sender can afford
//! the amount (a range check on the post-transfer sender balance),
//! balance conservation on the sender side, and balance conservation on
//! the receiver side.  The circuit sums the three sub-expressions into
//! one gate; this model states each as its own zero constraint, which is
//! the intended reading of that sum.
//!
//! A transaction is also compressed into a single leaf digest: its five
//! balance and amount fields plus two reserved address slots are hashed
//! pairwise and then combined, a fixed seven-input Merkle-style
//! compression.

use vstd::prelude::*;

use crate::comparison::in_range;
use crate::field::{compress_of, poseidon_hash, Fe};
use crate::merkle::{hash_layer, lemma_hash_layer_index, lemma_hash_layer_len, merkle_root};

verus! {

/// The bound of the affordability range check: a sender's post-transfer
/// balance must lie in `[0, MAX_BALANCE)`.
pub const MAX_BALANCE: u64 = 1024;

/// The witness row of one transfer.
#[derive(Clone, Copy, Debug, PartialEq, Eq, Structural)]
pub struct Transaction {
    pub sender_balance_before: u64,
    pub receiver_balance_before: u64,
    pub transaction_amount: u64,
    pub sender_balance_after: u64,
    pub receiver_balance_after: u64,
}

/// When the transaction gate is satisfied: the sender's balance after
/// paying the amount is non-negative and within the balance bound, and
/// both balances are conserved.  A sender balance below the amount wraps
/// around the field to a huge value, which the range check rejects.
pub open spec fn transaction_holds(tx: Transaction) -> bool {
    &&& in_range(tx.sender_balance_before - tx.transaction_amount, MAX_BALANCE as int)
    &&& tx.sender_balance_before - tx.transaction_amount == tx.sender_balance_after
    &&& tx.receiver_balance_before + tx.transaction_amount == tx.receiver_balance_after
}

/// Decide whether the transaction gate accepts the row.
pub fn transaction_check(tx: &Transaction) -> (ok: bool)
    ensures
        ok == transaction_holds(*tx),
{
    tx.sender_balance_before >= tx.transaction_amount
        && tx.sender_balance_before - tx.transaction_amount < MAX_BALANCE
        && tx.sender_balance_before - tx.transaction_amount == tx.sender_balance_after
        && tx.receiver_balance_after >= tx.receiver_balance_before
        && tx.receiver_balance_after - tx.receiver_balance_before == tx.transaction_amount
}

/// The seven field elements a transaction is compressed from: the five
/// witness fields followed by the two reserved address slots, which
/// currently hold zero.
pub open spec fn tx_field_values(tx: Transaction) -> Seq<int> {
    seq![
        tx.sender_balance_before as int,
        tx.receiver_balance_before as int,
        tx.transaction_amount as int,
        tx.sender_balance_after as int,
        tx.receiver_balance_after as int,
        0,
        0,
    ]
}

/// The leaf digest of a transaction: the seven fields are hashed
/// pairwise (the last paired with a zero pad), the four digests are
/// combined into two, and those two into one.
pub open spec fn tx_digest(tx: Transaction) -> int {
    let f = tx_field_values(tx);
    let h1 = compress_of(f[0], f[1]);
    let h2 = compress_of(f[2], f[3]);
    let h3 = compress_of(f[4], f[5]);
    let h4 = compress_of(f[6], 0);
    compress_of(compress_of(h1, h2), compress_of(h3, h4))
}

/// Compress a transaction into its leaf digest.
pub fn tx_compress(tx: &Transaction) -> (leaf: Fe)
    ensures
        leaf.valid(),
        leaf.as_int() == tx_digest(*tx),
{
    let f0 = Fe::from_u64(tx.sender_balance_before);
    let f1 = Fe::from_u64(tx.receiver_balance_before);
    let f2 = Fe::from_u64(tx.transaction_amount);
    let f3 = Fe::from_u64(tx.sender_balance_after);
    let f4 = Fe::from_u64(tx.receiver_balance_after);
    let f5 = Fe::zero();
    let f6 = Fe::zero();
    let zero = Fe::zero();
    let h1 = poseidon_hash(&f0, &f1);
    let h2 = poseidon_hash(&f2, &f3);
    let h3 = poseidon_hash(&f4, &f5);
    let h4 = poseidon_hash(&f6, &zero);
    let left = poseidon_hash(&h1, &h2);
    let right = poseidon_hash(&h3, &h4);
    poseidon_hash(&left, &right)
}

/// The staged compression of a transaction is exactly the Merkle root
/// of its seven fields padded with one zero to a power of two.
pub proof fn lemma_tx_digest_is_merkle_root(tx: Transaction)
    ensures
        tx_digest(tx) == merkle_root(tx_field_values(tx).push(0)),
{
    let s = tx_field_values(tx).push(0);
    assert(s.len() == 8);
    let l1 = hash_layer(s);
    lemma_hash_layer_len(s);
    let l2 = hash_layer(l1);
    lemma_hash_layer_len(l1);
    let l3 = hash_layer(l2);
    lemma_hash_layer_len(l2);
    assert(l1 =~= seq![
        compress_of(s[0], s[1]),
        compress_of(s[2], s[3]),
        compress_of(s[4], s[5]),
        compress_of(s[6], s[7]),
    ]) by {
        lemma_hash_layer_index(s, 0);
        lemma_hash_layer_index(s, 1);
        lemma_hash_layer_index(s, 2);
        lemma_hash_layer_index(s, 3);
    }
    assert(l2 =~= seq![compress_of(l1[0], l1[1]), compress_of(l1[2], l1[3])]) by {
        lemma_hash_layer_index(l1, 0);
        lemma_hash_layer_index(l1, 1);
    }
    assert(l3 =~= seq![compress_of(l2[0], l2[1])]) by {
        lemma_hash_layer_index(l2, 0);
    }
    assert(merkle_root(l3) == l3[0]);
    assert(merkle_root(l2) == merkle_root(l3));
    assert(merkle_root(l1) == merkle_root(l2));
    assert(merkle_root(s) == merkle_root(l1));
}

} // verus!
