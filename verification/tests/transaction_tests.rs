//! Tests of the transaction constraint chip and the rollup circuit.

use zk_circuits::field::Fe;
use zk_circuits::merkle::build_merkle_tree;
use zk_circuits::rollup::{rollup_check, rollup_root};
use zk_circuits::transaction::{transaction_check, tx_compress, Transaction};

fn conserving_tx(before: u64, amount: u64) -> Transaction {
    Transaction {
        sender_balance_before: before,
        receiver_balance_before: 0,
        transaction_amount: amount,
        sender_balance_after: before - amount,
        receiver_balance_after: amount,
    }
}

#[test]
fn transaction_test_age_transaction_pass() {
    let tx = conserving_tx(100, 50);
    assert!(transaction_check(&tx));
}

#[test]
fn transaction_test_age_minus_balance_fail() {
    // The amount exceeds the sender's balance: whatever after-balances
    // the prover assigns, the affordability range check fails.
    let tx = Transaction {
        sender_balance_before: 100,
        receiver_balance_before: 0,
        transaction_amount: 150,
        sender_balance_after: 0,
        receiver_balance_after: 150,
    };
    assert!(!transaction_check(&tx));
}

#[test]
fn transaction_chips_test_age_transaction_pass() {
    let tx = conserving_tx(100, 50);
    assert!(transaction_check(&tx));
}

#[test]
fn transaction_chips_test_age_minus_balance_fail() {
    let tx = Transaction {
        sender_balance_before: 100,
        receiver_balance_before: 0,
        transaction_amount: 150,
        sender_balance_after: 0,
        receiver_balance_after: 150,
    };
    assert!(!transaction_check(&tx));
}

#[test]
fn transaction_rejects_broken_conservation() {
    let mut tx = conserving_tx(100, 50);
    tx.sender_balance_after = 49;
    assert!(!transaction_check(&tx));
    let mut tx2 = conserving_tx(100, 50);
    tx2.receiver_balance_after = 51;
    assert!(!transaction_check(&tx2));
}

#[test]
fn transaction_rejects_balance_beyond_bound() {
    // A post-transfer balance at or above the bound fails the range
    // check even though no underflow occurred.
    let tx = conserving_tx(5000, 100);
    assert!(!transaction_check(&tx));
}

#[test]
fn test_tx_compress() {
    let tx = conserving_tx(100, 50);
    let fields = vec![
        Fe::from_u64(tx.sender_balance_before),
        Fe::from_u64(tx.receiver_balance_before),
        Fe::from_u64(tx.transaction_amount),
        Fe::from_u64(tx.sender_balance_after),
        Fe::from_u64(tx.receiver_balance_after),
        Fe::zero(),
        Fe::zero(),
    ];
    let merkle_tree = build_merkle_tree(&fields);
    let root_hash = merkle_tree.last().unwrap()[0];
    // The staged pairwise compression of a transaction equals the
    // Merkle root of its seven fields padded to eight.
    assert_eq!(tx_compress(&tx), root_hash);
}

#[test]
fn rollup_accepts_conserving_batch() {
    let txs: Vec<Transaction> = (0..8).map(|i| conserving_tx(100 + i, 10 + i)).collect();
    let root = rollup_root(&txs);
    assert!(rollup_check(&txs, &root));
}

#[test]
fn rollup_rejects_mutated_amount() {
    let txs: Vec<Transaction> = (0..8).map(|i| conserving_tx(100 + i, 10 + i)).collect();
    let root = rollup_root(&txs);
    let mut mutated = txs.clone();
    // Raise one transaction's amount without updating its after
    // balances.
    mutated[3].transaction_amount += 1;
    assert!(!rollup_check(&mutated, &root));
    // Even the mutated batch's own root cannot make it pass.
    let mutated_root = rollup_root(&mutated);
    assert!(!rollup_check(&mutated, &mutated_root));
}

#[test]
fn rollup_rejects_wrong_root() {
    let txs: Vec<Transaction> = (0..8).map(|_| conserving_tx(10, 5)).collect();
    let wrong = Fe::from_u64(999);
    assert!(!rollup_check(&txs, &wrong));
}
