//! The miner: builds the next block from the pool, mines it and commits it.
use crate::block::{header_bytes, stored_ids, Block};
use crate::chain::{chain_valid, ids_fresh, lemma_extend_keeps_valid, lemma_fresh_ids_recompute, recomputed_ids};
use crate::merkle::merkle_root;
use crate::error::KamiError;
use crate::mempool::{by_fee, lemma_by_fee_from, Mempool};
use crate::pow::{block_is_mined, lemma_meets_lower_target, lemma_zero_difficulty_any_nonce, nonce_works, ProofOfWork};
use crate::state::{all_fit, apply_all, chain_takes, lemma_same_effect, same_effect, NodeState};
use crate::transaction::{transaction_id, Transaction, TxType};
use vstd::prelude::*;

verus! {

/// The reward paid to the miner of each block.
pub const BLOCK_REWARD: u64 = 50;

/// The most pending transfers one block carries.
pub const MAX_TXS_PER_BLOCK: usize = 100;

/// How many pending transfers the next block carries.
pub open spec fn batch_size(pending: Seq<Transaction>) -> int {
    if MAX_TXS_PER_BLOCK < pending.len() {
        MAX_TXS_PER_BLOCK as int
    } else {
        pending.len() as int
    }
}

/// Whether `tx` is the reward paid to `address`.
pub open spec fn is_reward(tx: Transaction, address: Seq<char>) -> bool {
    &&& tx.tx_type == TxType::Coinbase
    &&& tx.sender@ == Seq::<char>::empty()
    &&& tx.recipient@ == address
    &&& tx.amount == BLOCK_REWARD
    &&& tx.fee == 0
    &&& tx.nonce == 0
    &&& tx.id@ == transaction_id(Seq::empty(), address, BLOCK_REWARD, 0)
    &&& tx.pub_key is None
    &&& tx.signature is None
}

/// The transactions of the next block: the reward to `address`, then the
/// pending transfers with the highest fees.
pub open spec fn block_plan(txs: Seq<Transaction>, address: Seq<char>, pending: Seq<Transaction>) -> bool {
    &&& txs.len() >= 1
    &&& is_reward(txs[0], address)
    &&& txs.drop_first() == by_fee(pending).take(batch_size(pending))
}

/// Whether the balances take the next block without overflowing.
pub open spec fn plan_fits(balances: Map<Seq<char>, u64>, address: Seq<char>, pending: Seq<Transaction>) -> bool {
    forall|txs: Seq<Transaction>| #[trigger] block_plan(txs, address, pending) ==> all_fit(balances, txs)
}

/// Whether no nonce below `u64::MAX` mines, at `difficulty`, the block with
/// these index, timestamp, transactions and parent hash.
pub open spec fn plan_unminable(index: u64, timestamp: u64, txs: Seq<Transaction>, prev: Seq<char>, difficulty: nat) -> bool {
    forall|n: u64|
        n < u64::MAX ==> !#[trigger] nonce_works(
            header_bytes(index, timestamp, merkle_root(stored_ids(txs)), prev),
            difficulty,
            n,
        )
}

/// A miner paid at `address`, mining at the difficulty of `pow`.
pub struct Miner {
    pub address: String,
    pub pow: ProofOfWork,
}

impl Miner {
    pub fn new(address: &str, difficulty: usize) -> (m: Miner)
        ensures
            m.address@ == address@,
            m.pow.difficulty == difficulty,
    {
        Miner { address: String::from_str(address), pow: ProofOfWork::new(difficulty) }
    }

    /// The reward followed by the best pending transfers.
    fn planned_transactions(&self, mempool: &Mempool) -> (txs: Vec<Transaction>)
        ensures
            block_plan(txs@, self.address@, mempool.pending()),
    {
        let mut txs = mempool.take(MAX_TXS_PER_BLOCK);
        let ghost taken = txs@;
        txs.insert(0, Transaction::coinbase(self.address.as_str(), BLOCK_REWARD));
        assert(txs@.drop_first() =~= taken);
        txs
    }

    /// Builds the next block on top of the chain and mines it. When no nonce
    /// works, the block comes back unmined.
    pub fn mine_block(&self, state: &NodeState, mempool: &Mempool) -> (b: Block)
        requires
            state.chain.blocks@.len() > 0,
        ensures
            b.index == state.chain.blocks@.len(),
            b.prev_hash == state.chain.blocks@.last().hash,
            block_plan(b.transactions@, self.address@, mempool.pending()),
            b.merkle_root@ == merkle_root(stored_ids(b.transactions@)),
            block_is_mined(b, self.pow.difficulty as nat) || forall|n: u64|
                n < u64::MAX ==> !#[trigger] nonce_works(
                    header_bytes(b.index, b.timestamp, b.tx_root(), b.prev_hash@),
                    self.pow.difficulty as nat,
                    n,
                ),
    {
        let index = state.chain.len() as u64;
        let prev_hash = state.chain.latest_block().hash.clone();
        let txs = self.planned_transactions(mempool);
        let mut block = Block::new(index, txs, prev_hash);
        self.pow.try_mine(&mut block);
        block
    }

    /// Whether the balances take the next block without overflowing.
    pub fn commit_fits(&self, state: &NodeState, mempool: &Mempool) -> (r: bool)
        ensures
            r == plan_fits(state.balances@, self.address@, mempool.pending()),
    {
        let txs = self.planned_transactions(mempool);
        let r = state.fits(&txs);
        proof {
            assert forall|other: Seq<Transaction>| #[trigger]
                block_plan(other, self.address@, mempool.pending()) implies all_fit(
                state.balances@,
                other,
            ) == all_fit(state.balances@, txs@) by {
                assert(other.drop_first() == txs@.drop_first());
                assert(other.len() == other.drop_first().len() + 1);
                assert(txs@.len() == txs@.drop_first().len() + 1);
                assert forall|i: int| 0 <= i < other.len() implies #[trigger] same_effect(
                    other[i],
                    txs@[i],
                ) by {
                    if i > 0 {
                        assert(other[i] == other.drop_first()[i - 1]);
                        assert(txs@[i] == txs@.drop_first()[i - 1]);
                    }
                }
                lemma_same_effect(state.balances@, other, txs@);
            }
        }
        r
    }

    /// Mines the next block and commits it: the chain takes it, the balances
    /// take its transactions, and the pool drops them.
    pub fn mine_and_commit(&self, state: &mut NodeState, mempool: &mut Mempool) -> (r: Result<Block, KamiError>)
        requires
            old(state).chain.blocks@.len() > 0,
            plan_fits(old(state).balances@, self.address@, old(mempool).pending()),
        ensures
            match r {
                Ok(b) => {
                    &&& chain_takes(*old(state), b)
                    &&& b.index == old(state).chain.blocks@.len()
                    &&& block_plan(b.transactions@, self.address@, old(mempool).pending())
                    &&& b.merkle_root@ == merkle_root(stored_ids(b.transactions@))
                    &&& committed(*old(state), *final(state), *old(mempool), *final(mempool), b)
                    &&& chain_valid(old(state).chain.blocks@, old(state).chain.difficulty as nat)
                        && ids_fresh(old(mempool).pending()) ==> chain_valid(
                        final(state).chain.blocks@,
                        old(state).chain.difficulty as nat,
                    )
                },
                Err(e) => {
                    &&& e is InvalidPoW
                    &&& self.pow.difficulty < old(state).chain.difficulty || exists|
                        timestamp: u64,
                        txs: Seq<Transaction>,
                    |
                        #![trigger block_plan(txs, self.address@, old(mempool).pending()), plan_unminable(old(state).chain.blocks@.len() as u64, timestamp, txs, old(state).chain.blocks@.last().hash@, self.pow.difficulty as nat)]
                        block_plan(txs, self.address@, old(mempool).pending()) && plan_unminable(
                            old(state).chain.blocks@.len() as u64,
                            timestamp,
                            txs,
                            old(state).chain.blocks@.last().hash@,
                            self.pow.difficulty as nat,
                        )
                    &&& final(state).chain.blocks@ == old(state).chain.blocks@
                    &&& final(state).chain.difficulty == old(state).chain.difficulty
                    &&& final(state).balances@ == old(state).balances@
                    &&& final(mempool).pending() == old(mempool).pending()
                },
            },
            self.pow.difficulty == 0 && old(state).chain.difficulty == 0 ==> r is Ok,
    {
        let ghost s0 = *state;
        let ghost pending0 = mempool.pending();
        let block = self.mine_block(state, mempool);
        proof {
            let txs = block.transactions@;
            let pending = mempool.pending();
            if ids_fresh(pending) {
                lemma_by_fee_from(pending);
                assert forall|i: int| 0 <= i < txs.len() implies #[trigger] txs[i].id@
                    == txs[i].spec_id() by {
                    if i > 0 {
                        let taken = by_fee(pending).take(batch_size(pending));
                        assert(txs.drop_first() == taken);
                        assert(0 <= batch_size(pending) <= pending.len());
                        assert(by_fee(pending).len() == pending.len());
                        assert(taken.len() == batch_size(pending));
                        assert(txs.drop_first().len() == txs.len() - 1);
                        assert(i - 1 < taken.len());
                        assert(txs[i] == txs.drop_first()[i - 1]);
                        assert(taken[i - 1] == by_fee(pending)[i - 1]);
                        assert(pending.contains(txs[i]));
                        let k = choose|k: int| 0 <= k < pending.len() && pending[k] == txs[i];
                        assert(pending[k].id@ == pending[k].spec_id());
                    }
                }
                lemma_fresh_ids_recompute(txs);
            }
        }
        let copy = block.clone();
        match commit_block(state, mempool, copy) {
            Ok(()) => Ok(block),
            Err(e) => {
                proof {
                    let dm = self.pow.difficulty as nat;
                    let dc = s0.chain.difficulty as nat;
                    let header = header_bytes(block.index, block.timestamp, block.tx_root(), block.prev_hash@);
                    if dm == 0 {
                        lemma_zero_difficulty_any_nonce(header, 0);
                    }
                    if dc <= dm {
                        if block_is_mined(block, dm) {
                            lemma_meets_lower_target(block.hash@, dm, dc);
                            assert(block_is_mined(copy, dc));
                        }
                        assert(plan_unminable(
                            s0.chain.blocks@.len() as u64,
                            block.timestamp,
                            block.transactions@,
                            s0.chain.blocks@.last().hash@,
                            dm,
                        ));
                        assert(block_plan(block.transactions@, self.address@, pending0));
                    }
                }
                Err(e)
            },
        }
    }
}

/// What committing `b` does: the chain gains `b` at its end, the balances
/// take its transactions in order, and the pool drops every transfer that
/// shares an identifier with one of them.
pub open spec fn committed(s0: NodeState, s1: NodeState, m0: Mempool, m1: Mempool, b: Block) -> bool {
    &&& s1.chain.difficulty == s0.chain.difficulty
    &&& s1.chain.blocks@.len() == s0.chain.blocks@.len() + 1
    &&& s1.chain.blocks@.drop_last() == s0.chain.blocks@
    &&& s1.chain.blocks@.last().same_as(&b)
    &&& s1.balances@ == apply_all(s0.balances@, b.transactions@)
    &&& m1.capacity() == m0.capacity()
    &&& forall|t: Transaction|
        #[trigger] m1.pending().contains(t) <==> m0.pending().contains(t) && forall|i: int|
            0 <= i < b.transactions@.len() ==> t.id@ != #[trigger] b.transactions@[i].id@
}

/// Commits a block to the node: when the chain takes it, its transactions
/// are applied to the balances and dropped from the pool; otherwise nothing
/// changes and the chain's refusal is returned.
pub fn commit_block(state: &mut NodeState, mempool: &mut Mempool, block: Block) -> (r: Result<(), KamiError>)
    requires
        block_is_mined(block, old(state).chain.difficulty as nat) ==> old(state).chain.blocks@.len() > 0,
        chain_takes(*old(state), block) ==> all_fit(old(state).balances@, block.transactions@),
    ensures
        r is Ok <==> chain_takes(*old(state), block),
        r is Ok ==> committed(*old(state), *final(state), *old(mempool), *final(mempool), block),
        r is Ok && chain_valid(old(state).chain.blocks@, old(state).chain.difficulty as nat)
            && merkle_root(recomputed_ids(block.transactions@)) == block.merkle_root@
            ==> chain_valid(final(state).chain.blocks@, old(state).chain.difficulty as nat),
        r matches Err(e) ==> {
            &&& if !block_is_mined(block, old(state).chain.difficulty as nat) {
                e is InvalidPoW
            } else {
                e matches KamiError::InvalidChain(m) && m@
                    == "prev_hash does not match the latest block hash"@
            }
            &&& final(state).chain.blocks@ == old(state).chain.blocks@
            &&& final(state).chain.difficulty == old(state).chain.difficulty
            &&& final(state).balances@ == old(state).balances@
            &&& final(mempool).pending() == old(mempool).pending()
            &&& final(mempool).capacity() == old(mempool).capacity()
        },
{
    let ghost blocks_before = state.chain.blocks@;
    let copy = block.clone();
    match state.chain.add_block(copy) {
        Ok(()) => {},
        Err(e) => {
            return Err(e);
        },
    }
    assert(state.chain.blocks@.drop_last() =~= blocks_before);
    proof {
        if chain_valid(blocks_before, state.chain.difficulty as nat) && merkle_root(
            recomputed_ids(block.transactions@),
        ) == block.merkle_root@ {
            lemma_extend_keeps_valid(blocks_before, state.chain.difficulty as nat, copy);
        }
    }
    state.apply_block(&block);
    let n = block.transactions.len();
    for i in 0..n
        invariant
            n == block.transactions@.len(),
            mempool.capacity() == old(mempool).capacity(),
            forall|t: Transaction|
                #[trigger] mempool.pending().contains(t) <==> old(mempool).pending().contains(t)
                    && forall|j: int| 0 <= j < i ==> t.id@ != #[trigger] block.transactions@[j].id@,
    {
        mempool.remove(block.transactions[i].id.as_str());
    }
    Ok(())
}

} // verus!
