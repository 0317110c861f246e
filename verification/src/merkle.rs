//! Merkle roots over transaction identifiers.
use crate::codec::{digest_hex, is_lower_hex_text, push_utf8, sha256_hex};
use vstd::prelude::*;
use vstd::string::StringExecFns;

verus! {

/// Hex digest of a text.
pub open spec fn hash_text(s: Seq<char>) -> Seq<char> {
    digest_hex(vstd::utf8::encode_utf8(s))
}

/// Hex digest of two texts, one after the other.
pub open spec fn hash_pair_text(left: Seq<char>, right: Seq<char>) -> Seq<char> {
    digest_hex(vstd::utf8::encode_utf8(left) + vstd::utf8::encode_utf8(right))
}

/// One level up the tree: neighbours are hashed in pairs, and a last node
/// without a partner is paired with itself.
pub open spec fn pair_up(level: Seq<Seq<char>>) -> Seq<Seq<char>> {
    Seq::new(
        ((level.len() + 1) / 2) as nat,
        |k: int|
            hash_pair_text(
                level[2 * k],
                if 2 * k + 1 < level.len() {
                    level[2 * k + 1]
                } else {
                    level[2 * k]
                },
            ),
    )
}

/// Climbs from a level to the single node at the top.
pub open spec fn fold_levels(level: Seq<Seq<char>>) -> Seq<char>
    decreases level.len(),
{
    if level.len() <= 1 {
        level[0]
    } else {
        fold_levels(pair_up(level))
    }
}

/// The Merkle root of a list of leaves: the digest of the empty text when
/// there are none, else the top of the tree whose bottom level holds the
/// digest of each leaf.
pub open spec fn merkle_root(leaves: Seq<Seq<char>>) -> Seq<char> {
    if leaves.len() == 0 {
        hash_text(Seq::empty())
    } else {
        fold_levels(leaves.map_values(|l: Seq<char>| hash_text(l)))
    }
}

/// `2` raised to the power `k`.
pub open spec fn two_to(k: nat) -> nat
    decreases k,
{
    if k == 0 {
        1
    } else {
        2 * two_to((k - 1) as nat)
    }
}

proof fn lemma_two_to_positive(k: nat)
    ensures
        two_to(k) >= 1,
    decreases k,
{
    if k > 0 {
        lemma_two_to_positive((k - 1) as nat);
    }
}

/// Pairing up a level whose first part has even length pairs each part on
/// its own.
proof fn lemma_pair_up_concat(a: Seq<Seq<char>>, b: Seq<Seq<char>>)
    requires
        a.len() % 2 == 0,
    ensures
        pair_up(a + b) == pair_up(a) + pair_up(b),
{
    let h = a.len() / 2;
    assert(a.len() == 2 * h);
    let ab = a + b;
    let lhs = pair_up(ab);
    let rhs = pair_up(a) + pair_up(b);
    assert(pair_up(a).len() == h);
    assert(lhs.len() == rhs.len());
    assert forall|k: int| 0 <= k < lhs.len() implies lhs[k] == rhs[k] by {
        if k < h {
            assert(ab[2 * k] == a[2 * k]);
            assert(ab[2 * k + 1] == a[2 * k + 1]);
        } else {
            let j = k - h;
            assert(2 * k == a.len() + 2 * j);
            assert(ab[2 * k] == b[2 * j]);
            if 2 * j + 1 < b.len() {
                assert(ab[2 * k + 1] == b[2 * j + 1]);
            }
        }
    }
    assert(lhs =~= rhs);
}

/// Folding two levels of equal power-of-two length side by side gives the
/// hash of the pair of their tops.
proof fn lemma_fold_halves(a: Seq<Seq<char>>, b: Seq<Seq<char>>, k: nat)
    requires
        a.len() == two_to(k),
        b.len() == two_to(k),
    ensures
        fold_levels(a + b) == hash_pair_text(fold_levels(a), fold_levels(b)),
    decreases k,
{
    if k == 0 {
        let p = pair_up(a + b);
        assert(p.len() == 1);
        assert(p[0] == hash_pair_text(a[0], b[0])) by {
            assert((a + b)[0] == a[0]);
            assert((a + b)[1] == b[0]);
        }
        assert(fold_levels(p) == p[0]);
        assert(fold_levels(a + b) == fold_levels(p));
        assert(fold_levels(a) == a[0]);
        assert(fold_levels(b) == b[0]);
    } else {
        lemma_two_to_positive((k - 1) as nat);
        lemma_pair_up_concat(a, b);
        let m = two_to((k - 1) as nat);
        assert(a.len() == 2 * m);
        assert(pair_up(a).len() == m);
        assert(pair_up(b).len() == m);
        lemma_fold_halves(pair_up(a), pair_up(b), (k - 1) as nat);
        assert(fold_levels(a + b) == fold_levels(pair_up(a + b)));
        assert(fold_levels(a) == fold_levels(pair_up(a)));
        assert(fold_levels(b) == fold_levels(pair_up(b)));
    }
}

/// The Merkle root of a single leaf is the digest of that leaf.
pub proof fn lemma_merkle_root_single(leaf: Seq<char>)
    ensures
        merkle_root(seq![leaf]) == hash_text(leaf),
{
    assert(seq![leaf].map_values(|l: Seq<char>| hash_text(l))[0] == hash_text(leaf));
}

/// Every leaf reaches the root: the Merkle root of two halves of the same
/// power-of-two size is the digest of the pair of the halves' roots.
pub proof fn lemma_merkle_root_halves(left: Seq<Seq<char>>, right: Seq<Seq<char>>, k: nat)
    requires
        left.len() == two_to(k),
        right.len() == two_to(k),
    ensures
        merkle_root(left + right) == hash_pair_text(merkle_root(left), merkle_root(right)),
{
    lemma_two_to_positive(k);
    let f = |l: Seq<char>| hash_text(l);
    assert((left + right).map_values(f) =~= left.map_values(f) + right.map_values(f));
    lemma_fold_halves(left.map_values(f), right.map_values(f), k);
}

/// The texts held by a vector of strings.
pub open spec fn texts(v: Seq<String>) -> Seq<Seq<char>> {
    v.map_values(|s: String| s@)
}

fn hash_str(s: &str) -> (h: String)
    ensures
        h@ == hash_text(s@),
        h@.len() == 64,
        is_lower_hex_text(h@),
{
    let mut data: Vec<u8> = Vec::new();
    push_utf8(&mut data, s);
    assert(data@ =~= vstd::utf8::encode_utf8(s@));
    sha256_hex(data.as_slice())
}

fn hash_pair(left: &str, right: &str) -> (h: String)
    ensures
        h@ == hash_pair_text(left@, right@),
        h@.len() == 64,
        is_lower_hex_text(h@),
{
    let mut data: Vec<u8> = Vec::new();
    push_utf8(&mut data, left);
    push_utf8(&mut data, right);
    assert(data@ =~= vstd::utf8::encode_utf8(left@) + vstd::utf8::encode_utf8(right@));
    sha256_hex(data.as_slice())
}

/// A Merkle tree that keeps its leaves and their root.
pub struct MerkleTree {
    leaves: Vec<String>,
    root: String,
}

/// The name under which the tree is also known.
pub type MarkleTree = MerkleTree;

impl View for MerkleTree {
    type V = Seq<Seq<char>>;

    /// The leaves, in order.
    closed spec fn view(&self) -> Seq<Seq<char>> {
        texts(self.leaves@)
    }
}

impl Clone for MerkleTree {
    fn clone(&self) -> (r: Self)
        ensures
            r@ == self@,
    {
        proof {
            use_type_invariant(self);
        }
        let n = self.leaves.len();
        let mut leaves: Vec<String> = Vec::new();
        for i in 0..n
            invariant
                n == self.leaves@.len(),
                leaves@.len() == i,
                forall|k: int| 0 <= k < i ==> leaves@[k]@ == self.leaves@[k]@,
        {
            leaves.push(self.leaves[i].clone());
        }
        assert(texts(leaves@) =~= texts(self.leaves@));
        MerkleTree { leaves, root: self.root.clone() }
    }
}

impl MerkleTree {
    #[verifier::type_invariant]
    spec fn root_matches(self) -> bool {
        &&& self.root@ == merkle_root(texts(self.leaves@))
        &&& self.root@.len() == 64
        &&& is_lower_hex_text(self.root@)
    }

    /// Builds the tree over `hashes`.
    pub fn new(hashes: Vec<String>) -> (tree: MerkleTree)
        ensures
            tree@ == texts(hashes@),
    {
        if hashes.len() == 0 {
            let root = hash_str("");
            proof {
                reveal_strlit("");
                assert(texts(hashes@) =~= Seq::<Seq<char>>::empty());
            }
            return MerkleTree { leaves: Vec::new(), root };
        }
        let n = hashes.len();
        let mut level: Vec<String> = Vec::new();
        for i in 0..n
            invariant
                n == hashes@.len(),
                level@.len() == i,
                forall|k: int| 0 <= k < i ==> level@[k]@ == hash_text(hashes@[k]@),
                forall|k: int| 0 <= k < i ==> level@[k]@.len() == 64 && is_lower_hex_text(#[trigger] level@[k]@),
        {
            level.push(hash_str(hashes[i].as_str()));
        }
        let ghost bottom = texts(hashes@).map_values(|l: Seq<char>| hash_text(l));
        assert(texts(level@) =~= bottom);
        while level.len() > 1
            invariant
                level@.len() >= 1,
                fold_levels(texts(level@)) == fold_levels(bottom),
                forall|k: int| 0 <= k < level@.len() ==> level@[k]@.len() == 64 && is_lower_hex_text(#[trigger] level@[k]@),
            decreases level@.len(),
        {
            let len = level.len();
            let ghost cur = texts(level@);
            let mut next: Vec<String> = Vec::new();
            let mut i: usize = 0;
            while i < len
                invariant
                    len == level@.len(),
                    cur == texts(level@),
                    i % 2 == 0 || i == len,
                    i <= len,
                    next@.len() == (i + 1) / 2,
                    forall|k: int| 0 <= k < next@.len() ==> next@[k]@ == pair_up(cur)[k],
                    forall|k: int| 0 <= k < next@.len() ==> next@[k]@.len() == 64 && is_lower_hex_text(#[trigger] next@[k]@),
                decreases len - i,
            {
                let right_index = if i + 1 < len {
                    i + 1
                } else {
                    i
                };
                let h = hash_pair(level[i].as_str(), level[right_index].as_str());
                next.push(h);
                if i + 1 < len {
                    i = i + 2;
                } else {
                    i = i + 1;
                }
            }
            assert(texts(next@) =~= pair_up(cur));
            level = next;
        }
        let root = level[0].clone();
        assert(merkle_root(texts(hashes@)) == fold_levels(bottom));
        MerkleTree { leaves: hashes, root }
    }

    /// The root of the tree.
    pub fn root(&self) -> (r: String)
        ensures
            r@ == merkle_root(self@),
            r@.len() == 64,
            is_lower_hex_text(r@),
    {
        proof {
            use_type_invariant(self);
        }
        self.root.clone()
    }

    /// Whether `tx_hash` is one of the leaves.
    pub fn verify(&self, tx_hash: &str) -> (r: bool)
        ensures
            r == self@.contains(tx_hash@),
    {
        let n = self.leaves.len();
        for i in 0..n
            invariant
                n == self.leaves@.len(),
                forall|k: int| 0 <= k < i ==> self.leaves@[k]@ != tx_hash@,
        {
            let candidate = String::from_str(tx_hash);
            if self.leaves[i] == candidate {
                assert(self@[i as int] == tx_hash@);
                return true;
            }
        }
        proof {
            if self@.contains(tx_hash@) {
                let k = choose|k: int| 0 <= k < self@.len() && self@[k] == tx_hash@;
                assert(self.leaves@[k]@ == tx_hash@);
            }
        }
        false
    }
}

} // verus!
