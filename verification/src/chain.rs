//! The chain: a genesis block followed by mined blocks, each linked to its
//! parent by hash.
use crate::block::Block;
use crate::codec::{decimal_text, push_decimal_text};
use crate::error::KamiError;
use crate::merkle::{merkle_root, texts, MerkleTree};
use crate::pow::{block_is_mined, ProofOfWork};
use crate::transaction::Transaction;
use vstd::prelude::*;
use vstd::string::StringExecFns;

verus! {

/// The identifiers that a list of transactions hashes to now.
pub open spec fn recomputed_ids(txs: Seq<Transaction>) -> Seq<Seq<char>> {
    txs.map_values(|t: Transaction| t.spec_id())
}

/// Whether every transaction of `txs` carries the identifier its fields hash to.
pub open spec fn ids_fresh(txs: Seq<Transaction>) -> bool {
    forall|i: int| 0 <= i < txs.len() ==> #[trigger] txs[i].id@ == txs[i].spec_id()
}

/// When every identifier is fresh, recomputing them changes nothing.
pub proof fn lemma_fresh_ids_recompute(txs: Seq<Transaction>)
    requires
        ids_fresh(txs),
    ensures
        recomputed_ids(txs) == crate::block::stored_ids(txs),
{
    assert(recomputed_ids(txs) =~= crate::block::stored_ids(txs));
}

/// Whether block `i` (at least 1) is soundly linked into `blocks`: it names
/// its parent's hash, its Merkle root is that of its transactions' current
/// identifiers, its stored hash is that of its fields, and it is mined.
pub open spec fn link_ok(blocks: Seq<Block>, i: int, difficulty: nat) -> bool {
    &&& blocks[i].prev_hash@ == blocks[i - 1].hash@
    &&& merkle_root(recomputed_ids(blocks[i].transactions@)) == blocks[i].merkle_root@
    &&& blocks[i].hash@ == blocks[i].spec_hash()
    &&& block_is_mined(blocks[i], difficulty)
}

/// Whether every block after the first is soundly linked.
pub open spec fn chain_valid(blocks: Seq<Block>, difficulty: nat) -> bool {
    forall|i: int| 1 <= i < blocks.len() ==> #[trigger] link_ok(blocks, i, difficulty)
}

/// The error reported for block `i` when it is the first block that is not
/// soundly linked: the first check it fails decides.
pub open spec fn link_error(e: KamiError, blocks: Seq<Block>, i: int) -> bool {
    if blocks[i].prev_hash@ != blocks[i - 1].hash@ {
        e is InvalidPoW
    } else if merkle_root(recomputed_ids(blocks[i].transactions@)) != blocks[i].merkle_root@ {
        e matches KamiError::InvalidChain(m) && m@ == "Block "@ + decimal_text(i as nat)
            + " has invalid merkle root"@
    } else if blocks[i].hash@ != blocks[i].spec_hash() {
        e matches KamiError::InvalidChain(m) && m@ == "Block "@ + decimal_text(i as nat)
            + " has invalid hash"@
    } else {
        e is InvalidPoW
    }
}

/// Whether `e` is what checking `blocks` reports: the error of the first
/// block that is not soundly linked.
pub open spec fn first_link_error(e: KamiError, blocks: Seq<Block>, difficulty: nat) -> bool {
    exists|i: int|
        1 <= i < blocks.len() && !link_ok(blocks, i, difficulty) && (forall|j: int|
            1 <= j < i ==> #[trigger] link_ok(blocks, j, difficulty)) && link_error(e, blocks, i)
}

/// The first block of every chain.
pub open spec fn is_genesis(b: Block) -> bool {
    &&& b.index == 0
    &&& b.timestamp == 0
    &&& b.transactions@.len() == 0
    &&& b.merkle_root@ == merkle_root(Seq::empty())
    &&& b.prev_hash@ == crate::codec::zeros(64)
    &&& b.nonce == 0
    &&& b.hash@ == b.spec_hash()
}

fn current_ids(txs: &Vec<Transaction>) -> (ids: Vec<String>)
    ensures
        texts(ids@) == recomputed_ids(txs@),
{
    let n = txs.len();
    let mut ids: Vec<String> = Vec::new();
    for i in 0..n
        invariant
            n == txs@.len(),
            ids@.len() == i,
            forall|k: int| 0 <= k < i ==> ids@[k]@ == txs@[k].spec_id(),
    {
        ids.push(txs[i].compute_id());
    }
    assert(texts(ids@) =~= recomputed_ids(txs@));
    ids
}

fn block_message(i: usize, tail: &str) -> (s: String)
    ensures
        s@ == "Block "@ + decimal_text(i as nat) + tail@,
{
    let mut s = String::from_str("Block ");
    push_decimal_text(&mut s, i as u64);
    s.append(tail);
    s
}

/// Checks every link of `blocks`, in order, and reports the first failure.
pub fn check_links(blocks: &Vec<Block>, difficulty: usize) -> (r: Result<(), KamiError>)
    ensures
        r is Ok <==> chain_valid(blocks@, difficulty as nat),
        r matches Err(e) ==> first_link_error(e, blocks@, difficulty as nat),
{
    let pow = ProofOfWork::new(difficulty);
    let n = blocks.len();
    let mut i: usize = 1;
    while i < n
        invariant
            n == blocks@.len(),
            pow.difficulty == difficulty,
            1 <= i,
            forall|j: int| 1 <= j < i && j < n ==> #[trigger] link_ok(blocks@, j, difficulty as nat),
        decreases n - i,
    {
        let current = &blocks[i];
        let prev = &blocks[i - 1];
        let ghost bs = blocks@;
        if current.prev_hash != prev.hash {
            let e = KamiError::InvalidPoW;
            assert(link_error(e, bs, i as int));
            assert(!link_ok(bs, i as int, difficulty as nat));
            return Err(e);
        }
        let ids = current_ids(&current.transactions);
        let tree = MerkleTree::new(ids);
        let root = tree.root();
        if root != current.merkle_root {
            let e = KamiError::InvalidChain(block_message(i, " has invalid merkle root"));
            assert(link_error(e, bs, i as int));
            assert(!link_ok(bs, i as int, difficulty as nat));
            return Err(e);
        }
        if !current.is_hash_valid() {
            let e = KamiError::InvalidChain(block_message(i, " has invalid hash"));
            assert(link_error(e, bs, i as int));
            assert(!link_ok(bs, i as int, difficulty as nat));
            return Err(e);
        }
        match pow.validate(current) {
            Ok(()) => {},
            Err(e) => {
                assert(link_error(e, bs, i as int));
                assert(!link_ok(bs, i as int, difficulty as nat));
                return Err(e);
            },
        }
        assert(link_ok(bs, i as int, difficulty as nat));
        i = i + 1;
    }
    Ok(())
}

/// Appending a mined block that names the last block as its parent, and
/// whose Merkle root is that of its transactions' current identifiers, keeps
/// a sound chain sound.
pub proof fn lemma_extend_keeps_valid(blocks: Seq<Block>, difficulty: nat, block: Block)
    requires
        chain_valid(blocks, difficulty),
        block_is_mined(block, difficulty),
        block.prev_hash@ == blocks.last().hash@,
        merkle_root(recomputed_ids(block.transactions@)) == block.merkle_root@,
    ensures
        chain_valid(blocks.push(block), difficulty),
{
    let longer = blocks.push(block);
    assert forall|i: int| 1 <= i < longer.len() implies #[trigger] link_ok(longer, i, difficulty) by {
        if i < blocks.len() {
            assert(link_ok(blocks, i, difficulty));
            assert(longer[i] == blocks[i]);
            assert(longer[i - 1] == blocks[i - 1]);
        } else {
            assert(longer[i] == block);
            assert(longer[i - 1] == blocks.last());
        }
    }
}

/// Every block after the first of a chain that checks out is mined: its
/// stored hash is the hash of its own fields and begins with `difficulty`
/// zero digits. (`Chain::is_valid` accepts exactly such chains, and
/// `Chain::replace` adopts only such chains.)
pub proof fn lemma_valid_chain_is_mined(blocks: Seq<Block>, difficulty: nat, i: int)
    requires
        chain_valid(blocks, difficulty),
        1 <= i < blocks.len(),
    ensures
        blocks[i].hash@ == blocks[i].spec_hash(),
        crate::codec::starts_with(blocks[i].hash@, crate::codec::zeros(difficulty)),
        blocks[i].prev_hash@ == blocks[i - 1].hash@,
{
    assert(link_ok(blocks, i, difficulty));
}

/// A chain of blocks mined at one difficulty.
#[derive(Debug)]
pub struct Chain {
    pub blocks: Vec<Block>,
    pub difficulty: usize,
}

impl Clone for Chain {
    fn clone(&self) -> (r: Self)
        ensures
            r.blocks@.len() == self.blocks@.len(),
            forall|i: int| 0 <= i < self.blocks@.len() ==> r.blocks@[i].same_as(&self.blocks@[i]),
            r.difficulty == self.difficulty,
    {
        let n = self.blocks.len();
        let mut blocks: Vec<Block> = Vec::new();
        for i in 0..n
            invariant
                n == self.blocks@.len(),
                blocks@.len() == i,
                forall|k: int| 0 <= k < i ==> blocks@[k].same_as(&self.blocks@[k]),
        {
            blocks.push(self.blocks[i].clone());
        }
        Chain { blocks, difficulty: self.difficulty }
    }
}

impl Chain {
    /// A chain holding only the genesis block.
    pub fn new(difficulty: usize) -> (c: Chain)
        ensures
            c.difficulty == difficulty,
            c.blocks@.len() == 1,
            is_genesis(c.blocks@[0]),
            chain_valid(c.blocks@, difficulty as nat),
    {
        let mut blocks: Vec<Block> = Vec::new();
        blocks.push(Block::genesis());
        Chain { blocks, difficulty }
    }

    /// The last block.
    pub fn latest_block(&self) -> (b: &Block)
        requires
            self.blocks@.len() > 0,
        ensures
            *b == self.blocks@.last(),
    {
        self.blocks.last().unwrap()
    }

    /// The number of blocks.
    pub fn len(&self) -> (n: usize)
        ensures
            n == self.blocks@.len(),
    {
        self.blocks.len()
    }

    /// The block at `index`, if there is one.
    pub fn get_block(&self, index: usize) -> (r: Option<&Block>)
        ensures
            index < self.blocks@.len() ==> r == Some(&self.blocks@[index as int]),
            index >= self.blocks@.len() ==> r is None,
    {
        if index < self.blocks.len() {
            Some(&self.blocks[index])
        } else {
            None
        }
    }

    /// Appends `block` when it is mined at the chain's difficulty and names
    /// the last block's hash as its parent.
    pub fn add_block(&mut self, block: Block) -> (r: Result<(), KamiError>)
        requires
            block_is_mined(block, old(self).difficulty as nat) ==> old(self).blocks@.len() > 0,
        ensures
            final(self).difficulty == old(self).difficulty,
            r is Ok <==> block_is_mined(block, old(self).difficulty as nat) && block.prev_hash@
                == old(self).blocks@.last().hash@,
            r is Ok ==> final(self).blocks@ == old(self).blocks@.push(block),
            r is Err ==> final(self).blocks@ == old(self).blocks@,
            r is Ok && chain_valid(old(self).blocks@, old(self).difficulty as nat) && merkle_root(
                recomputed_ids(block.transactions@),
            ) == block.merkle_root@ ==> chain_valid(final(self).blocks@, old(self).difficulty as nat),
            r matches Err(e) ==> if !block_is_mined(block, old(self).difficulty as nat) {
                e is InvalidPoW
            } else {
                e matches KamiError::InvalidChain(m) && m@
                    == "prev_hash does not match the latest block hash"@
            },
    {
        let pow = ProofOfWork::new(self.difficulty);
        match pow.validate(&block) {
            Ok(()) => {},
            Err(e) => {
                return Err(e);
            },
        }
        if block.prev_hash != self.latest_block().hash {
            return Err(
                KamiError::InvalidChain(
                    String::from_str("prev_hash does not match the latest block hash"),
                ),
            );
        }
        proof {
            if chain_valid(self.blocks@, self.difficulty as nat) && merkle_root(
                recomputed_ids(block.transactions@),
            ) == block.merkle_root@ {
                lemma_extend_keeps_valid(self.blocks@, self.difficulty as nat, block);
            }
        }
        self.blocks.push(block);
        Ok(())
    }

    /// Checks every block after the genesis block; reports the first failure.
    pub fn is_valid(&self) -> (r: Result<(), KamiError>)
        ensures
            r is Ok <==> chain_valid(self.blocks@, self.difficulty as nat),
            r matches Err(e) ==> first_link_error(e, self.blocks@, self.difficulty as nat),
    {
        check_links(&self.blocks, self.difficulty)
    }

    /// Adopts `candidate` when it is longer than the chain and every one of
    /// its links holds at the chain's difficulty; otherwise keeps the chain.
    pub fn replace(&mut self, candidate: Vec<Block>) -> (r: bool)
        ensures
            final(self).difficulty == old(self).difficulty,
            r == (candidate@.len() > old(self).blocks@.len() && chain_valid(
                candidate@,
                old(self).difficulty as nat,
            )),
            r ==> final(self).blocks@ == candidate@,
            !r ==> final(self).blocks@ == old(self).blocks@,
    {
        if candidate.len() <= self.blocks.len() {
            return false;
        }
        if check_links(&candidate, self.difficulty).is_err() {
            return false;
        }
        self.blocks = candidate;
        true
    }
}

} // verus!
