use kamichain::{Block, Transaction};

#[test]
fn genesis_block_has_index_zero() {
    let genesis = Block::genesis();
    assert_eq!(genesis.index, 0);
}

#[test]
fn genesis_prev_hash_is_zeros() {
    let genesis = Block::genesis();
    assert_eq!(genesis.prev_hash, "0".repeat(64));
}

#[test]
fn genesis_hash_is_not_empty() {
    let genesis = Block::genesis();
    assert!(!genesis.hash.is_empty());
}

#[test]
fn genesis_hash_matches_recompute() {
    let genesis = Block::genesis();
    assert_eq!(genesis.hash, genesis.compute_hash());
}

#[test]
fn new_block_links_to_parent_hash() {
    let genesis = Block::genesis();
    let block = Block::new(1, vec![], genesis.hash.clone());
    assert_eq!(block.prev_hash, genesis.hash);
}

#[test]
fn new_block_index_increments() {
    let genesis = Block::genesis();
    let block = Block::new(1, vec![], genesis.hash.clone());
    assert_eq!(block.index, 1);
}

#[test]
fn block_hash_changes_when_nonce_changes() {
    let mut block = Block::new(1, vec![], "0".repeat(64));
    let hash_before = block.compute_hash();
    block.nonce += 1;
    let hash_after = block.compute_hash();
    assert_ne!(hash_before, hash_after);
}

#[test]
fn block_hash_changes_when_transaction_added() {
    let mut block = Block::new(1, vec![], "0".repeat(64));
    let hash_before = block.compute_hash();
    block.transactions.push(Transaction::coinbase("alice", 50));
    let hash_after = block.compute_hash();
    assert_ne!(hash_before, hash_after);
}

#[test]
fn block_stores_transactions() {
    let tx = Transaction::coinbase("miner_address", 50);
    let block = Block::new(1, vec![tx.clone()], "0".repeat(64));
    assert_eq!(block.transactions.len(), 1);
    assert_eq!(block.transactions[0].recipient, "miner_address");
}

#[test]
fn block_hash_is_64_hex_chars() {
    let block = Block::genesis();
    assert_eq!(block.hash.len(), 64);
    assert!(block.hash.chars().all(|c| c.is_ascii_hexdigit()));
}

// ── further cases ─────────────────────────────────────────────

#[test]
fn genesis_hash_is_the_known_digest_of_its_fields() {
    // index 0, timestamp 0, the empty-set Merkle root, 64 zeros, nonce 0
    let genesis = Block::genesis();
    let empty_root = "e3b0c44298fc1c149afbf4c8996fb92427ae41e4649b934ca495991b7852b855";
    assert_eq!(genesis.merkle_root, empty_root);
    assert_eq!(genesis.timestamp, 0);
    assert_eq!(genesis.nonce, 0);
    assert!(genesis.transactions.is_empty());
}

#[test]
fn stamped_block_keeps_its_timestamp_and_hash_is_valid() {
    let block = Block::stamped(7, vec![], "ab".repeat(32), 1_700_000_000);
    assert_eq!(block.timestamp, 1_700_000_000);
    assert_eq!(block.index, 7);
    assert!(block.is_hash_valid());
    let same = Block::stamped(7, vec![], "ab".repeat(32), 1_700_000_000);
    assert_eq!(block.hash, same.hash);
}

#[test]
fn changing_a_field_breaks_the_stored_hash() {
    let mut block = Block::stamped(1, vec![], "0".repeat(64), 5);
    assert!(block.is_hash_valid());
    block.timestamp = 6;
    assert!(!block.is_hash_valid());
}

#[test]
fn cloned_block_is_equal() {
    let block = Block::stamped(3, vec![Transaction::coinbase("x", 1)], "1".repeat(64), 9);
    assert_eq!(block.clone(), block);
}
