//! The pool of pending transfers waiting to be mined.
use crate::codec::{decimal_text, push_decimal_text};
use crate::error::KamiError;
use crate::transaction::{Transaction, TxType};
use crate::wallet::{transaction_verifies, verification_failure_text, Wallet};
use vstd::prelude::*;
use vstd::string::StringExecFns;

verus! {

broadcast use vstd::seq_lib::group_to_multiset_ensures;

/// Whether no two transactions of `s` share an identifier.
pub open spec fn distinct_ids(s: Seq<Transaction>) -> bool {
    forall|i: int, j: int| 0 <= i < s.len() && 0 <= j < s.len() && i != j ==> s[i].id@ != s[j].id@
}

/// Whether some transaction of `s` has the identifier `id`.
pub open spec fn has_id(s: Seq<Transaction>, id: Seq<char>) -> bool {
    exists|i: int| 0 <= i < s.len() && #[trigger] s[i].id@ == id
}

/// Why a transfer is refused admission, if it is: the first failing check
/// decides. `None` means it is admitted.
pub open spec fn rejection(tx: Transaction, sender_balance: u64, pending: Seq<Transaction>, capacity: nat) -> Option<Seq<char>> {
    if tx.tx_type == TxType::Coinbase {
        Some("coinbase transactions cannot be added to mempool"@)
    } else if tx.sender@ == tx.recipient@ {
        Some("sender and recipient must differ"@)
    } else if tx.amount == 0 {
        Some("amount must be greater than zero"@)
    } else if tx.pub_key is None {
        Some("transaction is not signed"@)
    } else if !transaction_verifies(tx, tx.pub_key->0@) {
        Some(verification_failure_text(tx, tx.pub_key->0@))
    } else if tx.amount + tx.fee > u64::MAX {
        Some("amount + fee overflow"@)
    } else if tx.amount + tx.fee > sender_balance {
        Some(
            "insufficient balance: need "@ + decimal_text((tx.amount + tx.fee) as nat) + ", have "@
                + decimal_text(sender_balance as nat),
        )
    } else if has_id(pending, tx.id@) {
        Some("duplicate transaction"@)
    } else if pending.len() >= capacity {
        Some("mempool is full"@)
    } else {
        None
    }
}

/// A signed, funded transfer between two addresses, with a positive amount,
/// is admitted while the pool has room unless a pending transfer carries the
/// same identifier: being a duplicate is a matter of identifiers only.
pub proof fn lemma_fresh_transfer_admitted(tx: Transaction, sender_balance: u64, pending: Seq<Transaction>, capacity: nat)
    requires
        tx.tx_type == TxType::Transfer,
        tx.sender@ != tx.recipient@,
        tx.amount > 0,
        tx.pub_key matches Some(k) && transaction_verifies(tx, k@),
        tx.amount + tx.fee <= sender_balance,
        forall|i: int| 0 <= i < pending.len() ==> #[trigger] pending[i].id@ != tx.id@,
        pending.len() < capacity,
    ensures
        rejection(tx, sender_balance, pending, capacity) is None,
{
}

/// A transfer that passes every check on itself is refused as a duplicate
/// exactly when a pending transfer carries its identifier.
pub proof fn lemma_duplicate_is_same_id(tx: Transaction, sender_balance: u64, pending: Seq<Transaction>, capacity: nat, i: int)
    requires
        tx.tx_type == TxType::Transfer,
        tx.sender@ != tx.recipient@,
        tx.amount > 0,
        tx.pub_key matches Some(k) && transaction_verifies(tx, k@),
        tx.amount + tx.fee <= sender_balance,
        0 <= i < pending.len(),
        pending[i].id@ == tx.id@,
    ensures
        rejection(tx, sender_balance, pending, capacity) == Some("duplicate transaction"@),
{
}

/// `b` is the first position of `s` holding a highest fee.
pub open spec fn first_top_fee(s: Seq<Transaction>, b: int) -> bool {
    &&& 0 <= b < s.len()
    &&& forall|k: int| 0 <= k < b ==> #[trigger] s[k].fee < s[b].fee
    &&& forall|k: int| b <= k < s.len() ==> #[trigger] s[k].fee <= s[b].fee
}

/// `s` ordered by fee, highest first; equal fees keep their order in `s`.
/// (Every non-empty sequence has a first position of a highest fee.)
pub open spec fn by_fee(s: Seq<Transaction>) -> Seq<Transaction>
    decreases s.len(),
{
    if exists|b: int| first_top_fee(s, b) {
        let b = choose|b: int| first_top_fee(s, b);
        seq![s[b]] + by_fee(s.remove(b))
    } else {
        s
    }
}

/// A sequence has exactly one first position of a highest fee.
proof fn lemma_first_top_fee_unique(s: Seq<Transaction>, b: int)
    requires
        first_top_fee(s, b),
    ensures
        (choose|c: int| first_top_fee(s, c)) == b,
{
    let c = choose|c: int| first_top_fee(s, c);
    if c < b {
        assert(s[c].fee < s[b].fee);
        assert(s[b].fee <= s[c].fee);
    } else if b < c {
        assert(s[b].fee < s[c].fee);
        assert(s[c].fee <= s[b].fee);
    }
}

/// Ordering by fee keeps the transfers: as many come out as go in, and each
/// one that comes out went in.
pub proof fn lemma_by_fee_from(s: Seq<Transaction>)
    ensures
        by_fee(s).len() == s.len(),
        forall|i: int| 0 <= i < s.len() ==> s.contains(#[trigger] by_fee(s)[i]),
    decreases s.len(),
{
    if exists|b: int| first_top_fee(s, b) {
        let b = choose|b: int| first_top_fee(s, b);
        let rest = s.remove(b);
        lemma_by_fee_from(rest);
        assert(by_fee(s) == seq![s[b]] + by_fee(rest));
        assert forall|i: int| 0 <= i < s.len() implies s.contains(#[trigger] by_fee(s)[i]) by {
            if i == 0 {
                assert(by_fee(s)[0] == s[b]);
            } else {
                let t = by_fee(rest)[i - 1];
                assert(by_fee(s)[i] == t);
                assert(rest.contains(t));
                let k = choose|k: int| 0 <= k < rest.len() && rest[k] == t;
                if k < b {
                    assert(s[k] == t);
                } else {
                    assert(s[k + 1] == t);
                }
            }
        }
    }
}

/// Pending transfers, at most `capacity` of them, no two with the same identifier.
pub struct Mempool {
    pending: Vec<Transaction>,
    capacity: usize,
}

impl Mempool {
    #[verifier::type_invariant]
    spec fn well_formed(self) -> bool {
        distinct_ids(self.pending@) && self.pending@.len() <= self.capacity
    }

    /// The pending transfers, in the order they were admitted.
    pub closed spec fn pending(&self) -> Seq<Transaction> {
        self.pending@
    }

    /// The most transfers the pool admits.
    pub closed spec fn capacity(&self) -> nat {
        self.capacity as nat
    }

    /// An empty pool that admits up to `capacity` transfers.
    pub fn new(capacity: usize) -> (pool: Mempool)
        ensures
            pool.pending() == Seq::<Transaction>::empty(),
            pool.capacity() == capacity,
            distinct_ids(pool.pending()),
            pool.pending().len() <= pool.capacity(),
    {
        Mempool { pending: Vec::new(), capacity }
    }

    /// Admits a signed transfer that the sender, holding `sender_balance`,
    /// can pay for, unless it is already pending or the pool is full.
    pub fn add(&mut self, tx: Transaction, sender_balance: u64) -> (r: Result<(), KamiError>)
        ensures
            final(self).capacity() == old(self).capacity(),
            distinct_ids(final(self).pending()),
            final(self).pending().len() <= final(self).capacity(),
            match rejection(tx, sender_balance, old(self).pending(), old(self).capacity()) {
                Some(m) => r matches Err(e) && e matches KamiError::InvalidTransaction(mm) && mm@
                    == m && final(self).pending() == old(self).pending(),
                None => r is Ok && final(self).pending() == old(self).pending().push(tx),
            },
    {
        proof {
            use_type_invariant(&*self);
        }
        if tx.is_coinbase() {
            return Err(
                KamiError::InvalidTransaction(
                    String::from_str("coinbase transactions cannot be added to mempool"),
                ),
            );
        }
        if tx.sender == tx.recipient {
            return Err(
                KamiError::InvalidTransaction(String::from_str("sender and recipient must differ")),
            );
        }
        if tx.amount == 0 {
            return Err(
                KamiError::InvalidTransaction(String::from_str("amount must be greater than zero")),
            );
        }
        let pub_key_hex = match &tx.pub_key {
            Some(k) => k,
            None => {
                return Err(
                    KamiError::InvalidTransaction(String::from_str("transaction is not signed")),
                );
            },
        };
        match Wallet::verify_transaction(&tx, pub_key_hex.as_str()) {
            Ok(_) => {},
            Err(e) => {
                return Err(KamiError::InvalidTransaction(e.message()));
            },
        }
        let total = match tx.amount.checked_add(tx.fee) {
            Some(t) => t,
            None => {
                return Err(KamiError::InvalidTransaction(String::from_str("amount + fee overflow")));
            },
        };
        if total > sender_balance {
            let mut m = String::from_str("insufficient balance: need ");
            push_decimal_text(&mut m, total);
            m.append(", have ");
            push_decimal_text(&mut m, sender_balance);
            return Err(KamiError::InvalidTransaction(m));
        }
        if self.contains(tx.id.as_str()) {
            return Err(KamiError::InvalidTransaction(String::from_str("duplicate transaction")));
        }
        if self.pending.len() >= self.capacity {
            return Err(KamiError::InvalidTransaction(String::from_str("mempool is full")));
        }
        let ghost before = self.pending@;
        let mut pending = Vec::new();
        std::mem::swap(&mut pending, &mut self.pending);
        pending.push(tx);
        proof {
            assert forall|a: int, b: int|
                0 <= a < pending@.len() && 0 <= b < pending@.len() && a != b implies pending@[a].id@
                    != pending@[b].id@ by {
                if a == before.len() as int {
                    assert(pending@[b] == before[b]);
                } else if b == before.len() as int {
                    assert(pending@[a] == before[a]);
                }
            }
        }
        self.pending = pending;
        Ok(())
    }

    /// Up to `max` pending transfers, highest fee first; the pool is left as it is.
    pub fn take(&self, max: usize) -> (r: Vec<Transaction>)
        ensures
            r@ == by_fee(self.pending()).take(r@.len() as int),
            r@.len() == if max < self.pending().len() {
                max as int
            } else {
                self.pending().len() as int
            },
            forall|i: int, j: int| 0 <= i < j < r@.len() ==> r@[i].fee >= r@[j].fee,
            forall|t: Transaction| r@.to_multiset().count(t) <= self.pending().to_multiset().count(t),
            forall|t: Transaction, i: int|
                0 <= i < r@.len() && #[trigger] self.pending().to_multiset().count(t) > r@.to_multiset().count(t)
                    ==> t.fee <= #[trigger] r@[i].fee,
    {
        let n = self.pending.len();
        let limit = if max < n {
            max
        } else {
            n
        };
        let mut rest = crate::block::clone_transactions(&self.pending);
        let mut taken: Vec<Transaction> = Vec::new();
        while taken.len() < limit
            invariant
                limit <= n == self.pending@.len(),
                taken@.len() <= limit,
                rest@.len() + taken@.len() == n,
                taken@.to_multiset().add(rest@.to_multiset()) == self.pending@.to_multiset(),
                taken@ + by_fee(rest@) == by_fee(self.pending@),
                forall|i: int, j: int| 0 <= i < j < taken@.len() ==> taken@[i].fee >= taken@[j].fee,
                forall|i: int, j: int|
                    0 <= i < taken@.len() && 0 <= j < rest@.len() ==> rest@[j].fee <= taken@[i].fee,
            decreases limit - taken@.len(),
        {
            let m = rest.len();
            let mut best: usize = 0;
            let mut j: usize = 1;
            while j < m
                invariant
                    m == rest@.len(),
                    0 < m,
                    best < m,
                    1 <= j <= m,
                    best < j,
                    forall|k: int| 0 <= k < j ==> rest@[k].fee <= rest@[best as int].fee,
                    forall|k: int| 0 <= k < best ==> rest@[k].fee < rest@[best as int].fee,
                decreases m - j,
            {
                if rest[j].fee > rest[best].fee {
                    best = j;
                }
                j = j + 1;
            }
            let ghost before = rest@;
            proof {
                assert(first_top_fee(before, best as int));
                lemma_first_top_fee_unique(before, best as int);
                assert(by_fee(before) == seq![before[best as int]] + by_fee(before.remove(best as int)));
            }
            let t = rest.remove(best);
            proof {
                assert(before.remove(best as int).to_multiset() == before.to_multiset().remove(t));
                assert forall|k: int| 0 <= k < rest@.len() implies rest@[k].fee <= t.fee by {
                    if k < best {
                        assert(rest@[k] == before[k]);
                    } else {
                        assert(rest@[k] == before[k + 1]);
                    }
                }
            }
            let ghost taken_before = taken@;
            taken.push(t);
            proof {
                assert(taken@.to_multiset() == taken_before.to_multiset().insert(t));
                assert(taken@.to_multiset().add(rest@.to_multiset()) =~= self.pending@.to_multiset());
                assert(taken@ + by_fee(rest@) =~= taken_before + by_fee(before));
            }
        }
        proof {
            assert(taken@ =~= by_fee(self.pending@).take(taken@.len() as int));
            assert forall|t: Transaction| taken@.to_multiset().count(t) <= self.pending@.to_multiset().count(t) by {
                assert(self.pending@.to_multiset().count(t) == taken@.to_multiset().count(t) + rest@.to_multiset().count(t));
            }
            assert forall|t: Transaction, i: int|
                0 <= i < taken@.len() && #[trigger] self.pending@.to_multiset().count(t) > taken@.to_multiset().count(t)
                    implies t.fee <= #[trigger] taken@[i].fee by {
                assert(self.pending@.to_multiset().count(t) == taken@.to_multiset().count(t) + rest@.to_multiset().count(t));
                assert(rest@.contains(t));
                let k = choose|k: int| 0 <= k < rest@.len() && rest@[k] == t;
            }
        }
        taken
    }

    /// The number of pending transfers.
    pub fn len(&self) -> (n: usize)
        ensures
            n == self.pending().len(),
    {
        self.pending.len()
    }

    /// Whether the pool is empty.
    pub fn is_empty(&self) -> (r: bool)
        ensures
            r == (self.pending().len() == 0),
    {
        self.pending.len() == 0
    }

    /// Whether a transfer with identifier `tx_id` is pending.
    pub fn contains(&self, tx_id: &str) -> (r: bool)
        ensures
            r == has_id(self.pending(), tx_id@),
    {
        let n = self.pending.len();
        let wanted = String::from_str(tx_id);
        for i in 0..n
            invariant
                n == self.pending@.len(),
                wanted@ == tx_id@,
                forall|k: int| 0 <= k < i ==> self.pending@[k].id@ != tx_id@,
        {
            if self.pending[i].id == wanted {
                assert(self.pending@[i as int].id@ == tx_id@);
                return true;
            }
        }
        false
    }

    /// Drops the pending transfer with identifier `tx_id`, if there is one.
    pub fn remove(&mut self, tx_id: &str)
        ensures
            final(self).capacity() == old(self).capacity(),
            distinct_ids(final(self).pending()),
            final(self).pending().len() <= final(self).capacity(),
            !has_id(old(self).pending(), tx_id@) ==> final(self).pending() == old(self).pending(),
            forall|i: int|
                0 <= i < old(self).pending().len() && #[trigger] old(self).pending()[i].id@ == tx_id@
                    ==> final(self).pending() == old(self).pending().remove(i),
            forall|t: Transaction|
                #[trigger] final(self).pending().contains(t) <==> old(self).pending().contains(t)
                    && t.id@ != tx_id@,
    {
        proof {
            use_type_invariant(&*self);
        }
        let n = self.pending.len();
        let wanted = String::from_str(tx_id);
        let mut i: usize = 0;
        while i < n
            invariant
                n == self.pending@.len(),
                *self == *old(self),
                wanted@ == tx_id@,
                distinct_ids(self.pending@),
                self.pending@.len() <= self.capacity,
                forall|k: int| 0 <= k < i ==> self.pending@[k].id@ != tx_id@,
            decreases n - i,
        {
            if self.pending[i].id == wanted {
                let ghost before = self.pending@;
                let mut pending = Vec::new();
                std::mem::swap(&mut pending, &mut self.pending);
                pending.remove(i);
                proof {
                    assert forall|t: Transaction|
                        #[trigger] pending@.contains(t) <==> before.contains(t) && t.id@ != tx_id@ by {
                        if pending@.contains(t) {
                            let k = choose|k: int| 0 <= k < pending@.len() && pending@[k] == t;
                            let k0 = if k < i { k } else { k + 1 };
                            assert(before[k0] == t);
                            assert(k0 != i);
                        }
                        if before.contains(t) && t.id@ != tx_id@ {
                            let k = choose|k: int| 0 <= k < before.len() && before[k] == t;
                            assert(k != i);
                            if k < i {
                                assert(pending@[k] == t);
                            } else {
                                assert(pending@[k - 1] == t);
                            }
                        }
                    }
                    assert forall|a: int, b: int|
                        0 <= a < pending@.len() && 0 <= b < pending@.len() && a != b implies pending@[a].id@ != pending@[b].id@ by {
                        let a0 = if a < i { a } else { a + 1 };
                        let b0 = if b < i { b } else { b + 1 };
                        assert(pending@[a] == before[a0]);
                        assert(pending@[b] == before[b0]);
                    }
                }
                self.pending = pending;
                return;
            }
            i = i + 1;
        }
        proof {
            assert forall|t: Transaction|
                #[trigger] self.pending@.contains(t) implies t.id@ != tx_id@ by {
                let k = choose|k: int| 0 <= k < self.pending@.len() && self.pending@[k] == t;
            }
        }
    }
}

} // verus!
