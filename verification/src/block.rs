//! Blocks: an index, a timestamp, transactions, the Merkle root of their
//! identifiers, the link to the parent and the proof-of-work nonce.
use crate::codec::{digest_hex, is_lower_hex_text, push_decimal, push_utf8, sha256_hex, zeros};
use crate::merkle::{merkle_root, MerkleTree};
use crate::transaction::Transaction;
use std::time::{SystemTime, UNIX_EPOCH};
use vstd::prelude::*;
use vstd::string::StringExecFns;

verus! {

/// A block of the chain.
#[derive(Debug, PartialEq, Eq)]
pub struct Block {
    pub index: u64,
    pub timestamp: u64,
    pub transactions: Vec<Transaction>,
    pub merkle_root: String,
    pub prev_hash: String,
    pub hash: String,
    pub nonce: u64,
}

/// The identifiers stored in a list of transactions.
pub open spec fn stored_ids(txs: Seq<Transaction>) -> Seq<Seq<char>> {
    txs.map_values(|t: Transaction| t.id@)
}

/// The block fields that every hash attempt shares: decimal index and
/// timestamp, then the Merkle root and the parent hash.
pub open spec fn header_bytes(index: u64, timestamp: u64, merkle: Seq<char>, prev: Seq<char>) -> Seq<u8> {
    crate::codec::decimal(index as nat) + crate::codec::decimal(timestamp as nat)
        + vstd::utf8::encode_utf8(merkle) + vstd::utf8::encode_utf8(prev)
}

/// The bytes hashed for a block tell parent hashes apart: with the index,
/// timestamp, Merkle root and nonce fixed, two blocks hash the same bytes
/// only when their parent hashes are the same text.
pub proof fn lemma_hash_input_fixes_parent(index: u64, timestamp: u64, merkle: Seq<char>, p1: Seq<char>, p2: Seq<char>, nonce: u64)
    requires
        header_bytes(index, timestamp, merkle, p1) + crate::codec::decimal(nonce as nat)
            == header_bytes(index, timestamp, merkle, p2) + crate::codec::decimal(nonce as nat),
    ensures
        p1 == p2,
{
    let d = crate::codec::decimal(nonce as nat);
    let h1 = header_bytes(index, timestamp, merkle, p1);
    let h2 = header_bytes(index, timestamp, merkle, p2);
    assert(h1.len() == h2.len()) by {
        assert((h1 + d).len() == (h2 + d).len());
    }
    assert(h1 =~= (h1 + d).take(h1.len() as int));
    assert(h2 =~= (h2 + d).take(h2.len() as int));
    let front = crate::codec::decimal(index as nat) + crate::codec::decimal(timestamp as nat)
        + vstd::utf8::encode_utf8(merkle);
    let e1 = vstd::utf8::encode_utf8(p1);
    let e2 = vstd::utf8::encode_utf8(p2);
    assert(h1 == front + e1);
    assert(h2 == front + e2);
    assert(e1 =~= h1.skip(front.len() as int));
    assert(e2 =~= h2.skip(front.len() as int));
    vstd::utf8::encode_utf8_decode_utf8(p1);
    vstd::utf8::encode_utf8_decode_utf8(p2);
}

/// The hash of a block with these fields and this nonce.
pub open spec fn block_hash(index: u64, timestamp: u64, merkle: Seq<char>, prev: Seq<char>, nonce: u64) -> Seq<char> {
    digest_hex(header_bytes(index, timestamp, merkle, prev) + crate::codec::decimal(nonce as nat))
}

/// Reads the system clock, in whole seconds since the Unix epoch, with
/// `std::time::SystemTime::now`. Nothing is promised of the value.
#[verifier::external_body]
fn now() -> u64 {
    SystemTime::now().duration_since(UNIX_EPOCH).unwrap().as_secs()
}

pub(crate) fn clone_transactions(txs: &Vec<Transaction>) -> (r: Vec<Transaction>)
    ensures
        r@ == txs@,
{
    let mut r: Vec<Transaction> = Vec::new();
    let n = txs.len();
    for i in 0..n
        invariant
            n == txs@.len(),
            r@ == txs@.take(i as int),
    {
        r.push(txs[i].clone());
        assert(r@ =~= txs@.take(i + 1));
    }
    assert(txs@.take(n as int) =~= txs@);
    r
}

/// The Merkle root of the transactions' stored identifiers.
fn root_of(transactions: &Vec<Transaction>) -> (r: String)
    ensures
        r@ == merkle_root(stored_ids(transactions@)),
{
    let n = transactions.len();
    let mut ids: Vec<String> = Vec::new();
    for i in 0..n
        invariant
            n == transactions@.len(),
            ids@.len() == i,
            forall|k: int| 0 <= k < i ==> ids@[k]@ == transactions@[k].id@,
    {
        ids.push(transactions[i].id.clone());
    }
    assert(crate::merkle::texts(ids@) =~= stored_ids(transactions@));
    let tree = MerkleTree::new(ids);
    tree.root()
}

impl Clone for Block {
    fn clone(&self) -> (r: Self)
        ensures
            r.same_as(self),
    {
        Block {
            index: self.index,
            timestamp: self.timestamp,
            transactions: clone_transactions(&self.transactions),
            merkle_root: self.merkle_root.clone(),
            prev_hash: self.prev_hash.clone(),
            hash: self.hash.clone(),
            nonce: self.nonce,
        }
    }
}

impl Block {
    /// Field-by-field equality, with the transactions compared as sequences.
    pub open spec fn same_as(&self, other: &Block) -> bool {
        &&& self.index == other.index
        &&& self.timestamp == other.timestamp
        &&& self.transactions@ == other.transactions@
        &&& self.merkle_root == other.merkle_root
        &&& self.prev_hash == other.prev_hash
        &&& self.hash == other.hash
        &&& self.nonce == other.nonce
    }

    /// The Merkle root of the identifiers the block's transactions carry now.
    pub open spec fn tx_root(&self) -> Seq<char> {
        merkle_root(stored_ids(self.transactions@))
    }

    /// The hash that the block's current fields give: the index, the
    /// timestamp, the Merkle root of its transactions, the parent hash and
    /// the nonce.
    pub open spec fn spec_hash(&self) -> Seq<char> {
        block_hash(self.index, self.timestamp, self.tx_root(), self.prev_hash@, self.nonce)
    }

    /// The first block: index and timestamp 0, no transactions, a parent hash
    /// of 64 zeros, nonce 0, and the hash of those fields.
    pub fn genesis() -> (b: Block)
        ensures
            b.index == 0,
            b.timestamp == 0,
            b.transactions@.len() == 0,
            b.merkle_root@ == merkle_root(Seq::empty()),
            b.prev_hash@ == zeros(64),
            b.nonce == 0,
            b.hash@ == b.spec_hash(),
            b.hash@.len() == 64,
            is_lower_hex_text(b.hash@),
    {
        let mut prev_hash = String::new();
        let mut i: usize = 0;
        while i < 64
            invariant
                i <= 64,
                prev_hash@ == zeros(i as nat),
            decreases 64 - i,
        {
            prev_hash.push('0');
            i = i + 1;
            assert(prev_hash@ =~= zeros(i as nat));
        }
        let tree = MerkleTree::new(Vec::new());
        let mut block = Block {
            index: 0,
            timestamp: 0,
            transactions: Vec::new(),
            merkle_root: tree.root(),
            prev_hash,
            hash: String::new(),
            nonce: 0,
        };
        assert(crate::merkle::texts(Seq::<String>::empty()) =~= Seq::<Seq<char>>::empty());
        block.hash = block.compute_hash();
        block
    }

    /// A new, not yet mined block stamped with the current time.
    pub fn new(index: u64, transactions: Vec<Transaction>, prev_hash: String) -> (b: Block)
        ensures
            b.index == index,
            b.transactions@ == transactions@,
            b.merkle_root@ == merkle_root(stored_ids(transactions@)),
            b.prev_hash == prev_hash,
            b.nonce == 0,
            b.hash@ == b.spec_hash(),
            b.hash@.len() == 64,
            is_lower_hex_text(b.hash@),
    {
        let timestamp = now();
        Self::stamped(index, transactions, prev_hash, timestamp)
    }

    /// A new, not yet mined block with the given timestamp.
    pub fn stamped(index: u64, transactions: Vec<Transaction>, prev_hash: String, timestamp: u64) -> (b: Block)
        ensures
            b.index == index,
            b.timestamp == timestamp,
            b.transactions@ == transactions@,
            b.merkle_root@ == merkle_root(stored_ids(transactions@)),
            b.prev_hash == prev_hash,
            b.nonce == 0,
            b.hash@ == b.spec_hash(),
            b.hash@.len() == 64,
            is_lower_hex_text(b.hash@),
    {
        let root = root_of(&transactions);
        let mut block = Block {
            index,
            timestamp,
            transactions,
            merkle_root: root,
            prev_hash,
            hash: String::new(),
            nonce: 0,
        };
        block.hash = block.compute_hash();
        block
    }

    /// The bytes shared by every hash attempt on this block.
    pub(crate) fn header(&self) -> (h: Vec<u8>)
        ensures
            h@ == header_bytes(self.index, self.timestamp, self.tx_root(), self.prev_hash@),
    {
        let root = root_of(&self.transactions);
        let mut data: Vec<u8> = Vec::new();
        push_decimal(&mut data, self.index);
        push_decimal(&mut data, self.timestamp);
        push_utf8(&mut data, root.as_str());
        push_utf8(&mut data, self.prev_hash.as_str());
        assert(data@ =~= header_bytes(self.index, self.timestamp, self.tx_root(), self.prev_hash@));
        data
    }

    /// The hash of the block's current fields, with the Merkle root taken
    /// afresh from its transactions.
    pub fn compute_hash(&self) -> (h: String)
        ensures
            h@ == self.spec_hash(),
            h@.len() == 64,
            is_lower_hex_text(h@),
    {
        let mut data = self.header();
        let ghost head = data@;
        push_decimal(&mut data, self.nonce);
        sha256_hex(data.as_slice())
    }

    /// Whether the stored hash is the hash of the current fields.
    pub fn is_hash_valid(&self) -> (r: bool)
        ensures
            r == (self.hash@ == self.spec_hash()),
    {
        self.hash == self.compute_hash()
    }
}

} // verus!
