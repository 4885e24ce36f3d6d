//! The rollup validator and the block state transition.
//!
//! The rollup circuit runs the transaction constraint chip once per
//! transaction of a fixed-size batch, compresses each transaction into a
//! leaf digest, aggregates the digests into one Merkle root and exposes
//! that root as the single public output.  A batch is valid exactly when
//! every transaction's gate is satisfied and the public root equals the
//! root of the per-transaction digests.
//!
//! The state transition circuit chains two block hashes: it exposes the
//! compression of the previous and the current block hash and constrains
//! it equal to a public combined hash.

use vstd::prelude::*;

use crate::field::{compress_of, lemma_as_int_injective, poseidon_hash, Fe};
use crate::merkle::{all_valid, compute_merkle_root, ints_of, is_pow2, merkle_root};
use crate::transaction::{transaction_check, transaction_holds, tx_compress, tx_digest, Transaction};

verus! {

/// How many fields one transaction contributes to the witness table.
pub const TX_FIELDS_COUNT: usize = 7;

/// The fixed batch size of the rollup circuit.  A shorter batch must be
/// padded with no-op transactions before this stage.
pub const TX_AGGREGATION_COUNT: usize = 8;

/// The leaf digests of a batch, one per transaction.
pub open spec fn batch_digests(txs: Seq<Transaction>) -> Seq<int> {
    txs.map_values(|t: Transaction| tx_digest(t))
}

/// When the rollup circuit is satisfied on a batch with a public root:
/// every transaction's constraint row holds, and the root is the Merkle
/// root of the per-transaction digests.
pub open spec fn rollup_holds(txs: Seq<Transaction>, root: int) -> bool {
    &&& forall|i: int| 0 <= i < txs.len() ==> transaction_holds(#[trigger] txs[i])
    &&& root == merkle_root(batch_digests(txs))
}

/// Compress a full batch into the root the circuit would expose as its
/// public output.
#[verifier::loop_isolation(false)]
pub fn rollup_root(txs: &Vec<Transaction>) -> (root: Fe)
    requires
        txs@.len() == TX_AGGREGATION_COUNT,
    ensures
        root.valid(),
        root.as_int() == merkle_root(batch_digests(txs@)),
{
    let mut leaves: Vec<Fe> = Vec::new();
    let n = txs.len();
    for i in 0..n
        invariant
            leaves@.len() == i,
            all_valid(leaves@),
            forall|j: int|
                0 <= j < i ==> (#[trigger] leaves@[j]).as_int() == tx_digest(txs@[j]),
    {
        leaves.push(tx_compress(&txs[i]));
    }
    proof {
        assert(is_pow2(8)) by {
            reveal_with_fuel(is_pow2, 5);
        }
        assert(ints_of(leaves@) =~= batch_digests(txs@));
    }
    compute_merkle_root(&leaves)
}

/// Decide whether the rollup circuit accepts a batch together with an
/// expected public root.
#[verifier::loop_isolation(false)]
pub fn rollup_check(txs: &Vec<Transaction>, expected_root: &Fe) -> (ok: bool)
    requires
        txs@.len() == TX_AGGREGATION_COUNT,
    ensures
        ok == rollup_holds(txs@, expected_root.as_int()),
{
    let mut all_ok = true;
    let n = txs.len();
    for i in 0..n
        invariant
            all_ok == (forall|j: int| 0 <= j < i ==> transaction_holds(#[trigger] txs@[j])),
    {
        if !transaction_check(&txs[i]) {
            all_ok = false;
        }
    }
    let root = rollup_root(txs);
    proof {
        lemma_as_int_injective(root, *expected_root);
    }
    all_ok && root == *expected_root
}

/// A batch whose transactions all satisfy their constraints is accepted
/// together with the Merkle root of its digests — and with no other
/// root, since the circuit pins the public output to that root.
pub proof fn lemma_rollup_accepts_conserving_batch(txs: Seq<Transaction>)
    requires
        forall|i: int| 0 <= i < txs.len() ==> transaction_holds(#[trigger] txs[i]),
    ensures
        rollup_holds(txs, merkle_root(batch_digests(txs))),
        forall|root: int|
            root != merkle_root(batch_digests(txs)) ==> !#[trigger] rollup_holds(txs, root),
{
}

/// Raising one transaction's amount without updating its after-balances
/// breaks conservation, and with it the whole batch: no root makes the
/// circuit accept.
pub proof fn lemma_rollup_rejects_broken_transaction(txs: Seq<Transaction>, i: int, root: int)
    requires
        0 <= i < txs.len(),
        txs[i].sender_balance_before - txs[i].transaction_amount != txs[i].sender_balance_after,
    ensures
        !rollup_holds(txs, root),
{
    assert(!transaction_holds(txs[i]));
}

/// Decide whether the state transition circuit accepts: the public
/// combined hash must equal the compression of the previous and current
/// block hashes.
pub fn state_transition_check(
    previous_block_hash: &Fe,
    current_block_hash: &Fe,
    combined_block_hash: &Fe,
) -> (ok: bool)
    requires
        previous_block_hash.valid(),
        current_block_hash.valid(),
    ensures
        ok == (combined_block_hash.as_int() == compress_of(
            previous_block_hash.as_int(),
            current_block_hash.as_int(),
        )),
{
    let combined = poseidon_hash(previous_block_hash, current_block_hash);
    proof {
        lemma_as_int_injective(combined, *combined_block_hash);
    }
    combined == *combined_block_hash
}

} // verus!
