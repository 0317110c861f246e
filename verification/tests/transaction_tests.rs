use kamichain::transaction::compute_id;
use kamichain::{Transaction, TxType};

#[test]
fn coinbase_has_correct_type() {
    let tx = Transaction::coinbase("miner_addr", 50);
    assert_eq!(tx.tx_type, TxType::Coinbase);
}

#[test]
fn coinbase_sender_is_empty() {
    let tx = Transaction::coinbase("miner_addr", 50);
    assert!(tx.sender.is_empty());
}

#[test]
fn coinbase_amount_is_set() {
    let tx = Transaction::coinbase("miner_addr", 50);
    assert_eq!(tx.amount, 50);
}

#[test]
fn coinbase_is_coinbase_returns_true() {
    let tx = Transaction::coinbase("miner_addr", 50);
    assert!(tx.is_coinbase());
}

#[test]
fn transfer_is_coinbase_returns_false() {
    let tx = Transaction::new("alice", "bob", 10, 0);
    assert!(!tx.is_coinbase());
}

#[test]
fn transfer_has_correct_type() {
    let tx = Transaction::new("alice", "bob", 10, 0);
    assert_eq!(tx.tx_type, TxType::Transfer);
}

#[test]
fn transfer_stores_sender_and_recipient() {
    let tx = Transaction::new("alice", "bob", 42, 0);
    assert_eq!(tx.sender, "alice");
    assert_eq!(tx.recipient, "bob");
    assert_eq!(tx.amount, 42);
}

#[test]
fn transaction_id_is_not_empty() {
    let tx = Transaction::new("alice", "bob", 10, 0);
    assert!(!tx.id.is_empty());
}

#[test]
fn same_transaction_produces_same_id() {
    let tx = Transaction::new("alice", "bob", 10, 0);
    assert_eq!(tx.id, tx.compute_id());
}

#[test]
fn different_transactions_produce_different_ids() {
    let tx1 = Transaction::new("alice", "bob", 10, 0);
    let tx2 = Transaction::new("alice", "bob", 99, 0);
    assert_ne!(tx1.id, tx2.id);
}

#[test]
fn new_transaction_has_no_signature() {
    let tx = Transaction::new("alice", "bob", 10, 0);
    assert!(tx.signature.is_none());
}

#[test]
fn transaction_tests_transaction_has_zero_fee_by_default() {
    let tx = Transaction::new("alice", "bob", 10, 0);
    assert_eq!(tx.fee, 0);
}

#[test]
fn transaction_pub_key_is_none_before_signing() {
    let tx = Transaction::new("alice", "bob", 10, 0);
    assert!(tx.pub_key.is_none());
}

#[test]
fn compute_id_is_sha256_of_fields() {
    // sha256("ab12")
    assert_eq!(
        compute_id("a", "b", 1, 2),
        "59d937723564937cd1441370c7c7cd9f669f93253dcfab8c50affad3b18d645e"
    );
}

#[test]
fn compute_id_of_empty_fields_is_digest_of_zeros() {
    // sha256("00")
    assert_eq!(
        compute_id("", "", 0, 0),
        "f1534392279bddbf9d43dde8701cb5be14b82f76ec6607bf8d6ad557f60f304e"
    );
}

#[test]
fn with_nonce_is_deterministic() {
    let a = Transaction::with_nonce("alice", "bob", 5, 1, 77);
    let b = Transaction::with_nonce("alice", "bob", 5, 1, 77);
    assert_eq!(a, b);
    assert_eq!(a.nonce, 77);
    assert_eq!(a.fee, 1);
    assert_eq!(a.id, compute_id("alice", "bob", 5, 77));
}

#[test]
fn coinbase_id_uses_empty_sender_and_zero_nonce() {
    let tx = Transaction::coinbase("miner", 50);
    assert_eq!(tx.id, compute_id("", "miner", 50, 0));
    assert_eq!(tx.nonce, 0);
    assert_eq!(tx.fee, 0);
    assert!(!tx.is_transfer());
}

#[test]
fn changing_amount_changes_recomputed_id() {
    let mut tx = Transaction::with_nonce("alice", "bob", 10, 0, 3);
    let before = tx.id.clone();
    tx.amount = 11;
    assert_ne!(tx.compute_id(), before);
}
