//! Proof of work: a block is mined when its hash begins with as many zero
//! digits as the difficulty asks for.
use crate::block::{block_hash, header_bytes, Block};
use crate::codec::{digest_hex, has_zero_prefix, is_lower_hex_text, push_decimal, sha256_hex, starts_with, zeros};
use crate::error::KamiError;
use rayon::iter::{IntoParallelIterator, ParallelIterator};
use vstd::prelude::*;

verus! {

/// How many nonces one parallel search round covers.
pub const CHUNK: u64 = 100_000;

/// Whether `hash` begins with `difficulty` zero digits.
pub open spec fn meets_target(hash: Seq<char>, difficulty: nat) -> bool {
    starts_with(hash, zeros(difficulty))
}

/// Whether `nonce`, appended to the block header bytes, gives a hash that
/// meets the target.
pub open spec fn nonce_works(header: Seq<u8>, difficulty: nat, nonce: u64) -> bool {
    meets_target(digest_hex(header + crate::codec::decimal(nonce as nat)), difficulty)
}

/// Whether the block, as it stands, is mined: its stored hash is the hash of
/// its fields and meets the target.
pub open spec fn block_is_mined(block: Block, difficulty: nat) -> bool {
    block.hash@ == block.spec_hash() && meets_target(block.hash@, difficulty)
}

/// A hash that meets a target meets every lower one.
pub proof fn lemma_meets_lower_target(hash: Seq<char>, a: nat, b: nat)
    requires
        meets_target(hash, a),
        b <= a,
    ensures
        meets_target(hash, b),
{
    assert forall|i: int| 0 <= i < b implies hash.take(b as int)[i] == zeros(b)[i] by {
        assert(hash.take(a as int)[i] == zeros(a)[i]);
    }
    assert(hash.take(b as int) =~= zeros(b));
}

/// At difficulty 0 every nonce works.
pub proof fn lemma_zero_difficulty_any_nonce(header: Seq<u8>, nonce: u64)
    ensures
        nonce_works(header, 0, nonce),
{
    let h = digest_hex(header + crate::codec::decimal(nonce as nat));
    assert(h.take(0) =~= zeros(0));
}

/// Checks one candidate nonce.
pub fn nonce_meets_target(header: &[u8], difficulty: usize, nonce: u64) -> (r: bool)
    ensures
        r == nonce_works(header@, difficulty as nat, nonce),
{
    let mut data: Vec<u8> = Vec::new();
    let n = header.len();
    for i in 0..n
        invariant
            n == header@.len(),
            data@ == header@.take(i as int),
    {
        data.push(header[i]);
        assert(data@ =~= header@.take(i + 1));
    }
    assert(header@.take(n as int) =~= header@);
    push_decimal(&mut data, nonce);
    let hash = sha256_hex(data.as_slice());
    has_zero_prefix(hash.as_str(), difficulty)
}

/// Searches `start..end` for a nonce that meets the target, handing the range
/// to rayon's `find_any` with `nonce_meets_target` as the predicate.
/// Trusted: as rayon documents, the result is some item of the range that
/// satisfies the predicate, or `None` when no item does; which of several
/// matching items comes back is left open.
#[verifier::external_body]
fn par_find_nonce(header: &[u8], difficulty: usize, start: u64, end: u64) -> (r: Option<u64>)
    ensures
        r matches Some(n) ==> start <= n < end && nonce_works(header@, difficulty as nat, n),
        r is None ==> forall|n: u64|
            start <= n < end ==> !#[trigger] nonce_works(header@, difficulty as nat, n),
{
    (start..end).into_par_iter().find_any(|&n| nonce_meets_target(header, difficulty, n))
}

/// The mining rule for one difficulty.
pub struct ProofOfWork {
    pub difficulty: usize,
}

impl ProofOfWork {
    pub fn new(difficulty: usize) -> (pow: ProofOfWork)
        ensures
            pow.difficulty == difficulty,
    {
        ProofOfWork { difficulty }
    }

    /// The text a mined hash starts with: `difficulty` zeros.
    pub fn target_prefix(&self) -> (s: String)
        ensures
            s@ == zeros(self.difficulty as nat),
    {
        let mut s = String::new();
        let mut i: usize = 0;
        while i < self.difficulty
            invariant
                i <= self.difficulty,
                s@ == zeros(i as nat),
            decreases self.difficulty - i,
        {
            s.push('0');
            i = i + 1;
            assert(s@ =~= zeros(i as nat));
        }
        s
    }

    /// Searches the nonces `0..u64::MAX` chunk by chunk, each chunk in
    /// parallel. When one works, stores it and the new hash in the block and
    /// returns `true`; when none does, leaves the block as it was and returns
    /// `false`.
    pub fn try_mine(&self, block: &mut Block) -> (found: bool)
        ensures
            found ==> {
                &&& final(block).index == old(block).index
                &&& final(block).timestamp == old(block).timestamp
                &&& final(block).transactions == old(block).transactions
                &&& final(block).merkle_root == old(block).merkle_root
                &&& final(block).prev_hash == old(block).prev_hash
                &&& final(block).nonce < u64::MAX
                &&& final(block).hash@ == final(block).spec_hash()
                &&& final(block).hash@.len() == 64
                &&& is_lower_hex_text(final(block).hash@)
                &&& block_is_mined(*final(block), self.difficulty as nat)
            },
            !found ==> *final(block) == *old(block) && forall|n: u64|
                n < u64::MAX ==> !#[trigger] nonce_works(
                    header_bytes(
                        old(block).index,
                        old(block).timestamp,
                        old(block).tx_root(),
                        old(block).prev_hash@,
                    ),
                    self.difficulty as nat,
                    n,
                ),
    {
        let header = block.header();
        let mut start: u64 = 0;
        loop
            invariant
                header@ == header_bytes(block.index, block.timestamp, block.tx_root(), block.prev_hash@),
                *block == *old(block),
                forall|n: u64| n < start ==> !#[trigger] nonce_works(header@, self.difficulty as nat, n),
            decreases u64::MAX - start,
        {
            let end = start.saturating_add(CHUNK);
            match par_find_nonce(header.as_slice(), self.difficulty, start, end) {
                Some(nonce) => {
                    block.nonce = nonce;
                    block.hash = block.compute_hash();
                    return true;
                },
                None => {},
            }
            if end == u64::MAX {
                return false;
            }
            start = end;
        }
    }

    /// Finds a nonce that meets the target and stores it, with the new hash,
    /// in the block. Some nonce below `u64::MAX` must work for this block.
    pub fn mine(&self, block: &mut Block)
        requires
            exists|n: u64|
                n < u64::MAX && #[trigger] nonce_works(
                    header_bytes(
                        old(block).index,
                        old(block).timestamp,
                        old(block).tx_root(),
                        old(block).prev_hash@,
                    ),
                    self.difficulty as nat,
                    n,
                ),
        ensures
            final(block).index == old(block).index,
            final(block).timestamp == old(block).timestamp,
            final(block).transactions == old(block).transactions,
            final(block).merkle_root == old(block).merkle_root,
            final(block).prev_hash == old(block).prev_hash,
            final(block).hash@.len() == 64,
            is_lower_hex_text(final(block).hash@),
            block_is_mined(*final(block), self.difficulty as nat),
    {
        let found = self.try_mine(block);
        assert(found);
    }

    /// Accepts a block whose stored hash is the hash of its fields and
    /// meets the target; refuses any other with `InvalidPoW`.
    pub fn validate(&self, block: &Block) -> (r: Result<(), KamiError>)
        ensures
            r is Ok <==> block_is_mined(*block, self.difficulty as nat),
            r matches Err(e) ==> e is InvalidPoW,
    {
        if block.hash != block.compute_hash() {
            return Err(KamiError::InvalidPoW);
        }
        if !has_zero_prefix(block.hash.as_str(), self.difficulty) {
            return Err(KamiError::InvalidPoW);
        }
        Ok(())
    }
}

} // verus!
