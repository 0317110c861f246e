//! Node state: the chain and the balance of every address that a block
//! has touched.
use crate::block::Block;
use crate::chain::{is_genesis, Chain};
use crate::transaction::{Transaction, TxType};
use vstd::prelude::*;

verus! {

/// The balance an address holds in `m`: its entry, or 0 when it has none.
pub open spec fn balance_in(m: Map<Seq<char>, u64>, address: Seq<char>) -> int {
    if m.dom().contains(address) {
        m[address] as int
    } else {
        0
    }
}

/// `a - b`, or 0 when `b` is larger.
pub open spec fn saturating_sub(a: int, b: int) -> int {
    if a >= b {
        a - b
    } else {
        0
    }
}

/// The balances after a transfer's sender has been debited (never below 0).
pub open spec fn debited(m: Map<Seq<char>, u64>, tx: Transaction) -> Map<Seq<char>, u64> {
    m.insert(tx.sender@, saturating_sub(balance_in(m, tx.sender@), tx.amount as int) as u64)
}

/// Whether crediting the recipient of `tx` stays within `u64`.
pub open spec fn tx_fits(m: Map<Seq<char>, u64>, tx: Transaction) -> bool {
    match tx.tx_type {
        TxType::Coinbase => balance_in(m, tx.recipient@) + tx.amount <= u64::MAX,
        TxType::Transfer => balance_in(debited(m, tx), tx.recipient@) + tx.amount <= u64::MAX,
    }
}

/// The balances after one transaction: a coinbase credits its recipient; a
/// transfer debits its sender (down to 0 at most) and then credits its
/// recipient. The fee moves nowhere.
pub open spec fn apply_tx(m: Map<Seq<char>, u64>, tx: Transaction) -> Map<Seq<char>, u64> {
    match tx.tx_type {
        TxType::Coinbase => m.insert(
            tx.recipient@,
            (balance_in(m, tx.recipient@) + tx.amount) as u64,
        ),
        TxType::Transfer => {
            let d = debited(m, tx);
            d.insert(tx.recipient@, (balance_in(d, tx.recipient@) + tx.amount) as u64)
        },
    }
}

/// The balances after the transactions, in order.
pub open spec fn apply_all(m: Map<Seq<char>, u64>, txs: Seq<Transaction>) -> Map<Seq<char>, u64>
    decreases txs.len(),
{
    if txs.len() == 0 {
        m
    } else {
        apply_all(apply_tx(m, txs[0]), txs.drop_first())
    }
}

/// Whether no credit overflows while the transactions are applied in order.
pub open spec fn all_fit(m: Map<Seq<char>, u64>, txs: Seq<Transaction>) -> bool
    decreases txs.len(),
{
    txs.len() == 0 || (tx_fits(m, txs[0]) && all_fit(apply_tx(m, txs[0]), txs.drop_first()))
}

/// A coinbase adds its amount to the recipient's balance and touches no
/// other address.
pub proof fn lemma_coinbase_credits(m: Map<Seq<char>, u64>, tx: Transaction, other: Seq<char>)
    requires
        tx.tx_type == TxType::Coinbase,
        tx_fits(m, tx),
        other != tx.recipient@,
    ensures
        balance_in(apply_tx(m, tx), tx.recipient@) == balance_in(m, tx.recipient@) + tx.amount,
        balance_in(apply_tx(m, tx), other) == balance_in(m, other),
{
}

/// A transfer between two different addresses, from a sender that holds at
/// least the amount, moves exactly the amount from the sender to the
/// recipient; the fee goes nowhere, no other address is touched, and the
/// sum of the two balances is unchanged.
pub proof fn lemma_transfer_moves_funds(m: Map<Seq<char>, u64>, tx: Transaction, other: Seq<char>)
    requires
        tx.tx_type == TxType::Transfer,
        tx.sender@ != tx.recipient@,
        balance_in(m, tx.sender@) >= tx.amount,
        tx_fits(m, tx),
        other != tx.sender@,
        other != tx.recipient@,
    ensures
        balance_in(apply_tx(m, tx), tx.sender@) == balance_in(m, tx.sender@) - tx.amount,
        balance_in(apply_tx(m, tx), tx.recipient@) == balance_in(m, tx.recipient@) + tx.amount,
        balance_in(apply_tx(m, tx), tx.sender@) + balance_in(apply_tx(m, tx), tx.recipient@)
            == balance_in(m, tx.sender@) + balance_in(m, tx.recipient@),
        balance_in(apply_tx(m, tx), other) == balance_in(m, other),
{
}

/// A transfer from a sender that holds less than the amount empties the
/// sender's balance and still credits the recipient with the whole amount.
pub proof fn lemma_underfunded_transfer(m: Map<Seq<char>, u64>, tx: Transaction)
    requires
        tx.tx_type == TxType::Transfer,
        tx.sender@ != tx.recipient@,
        balance_in(m, tx.sender@) < tx.amount,
        tx_fits(m, tx),
    ensures
        balance_in(apply_tx(m, tx), tx.sender@) == 0,
        balance_in(apply_tx(m, tx), tx.recipient@) == balance_in(m, tx.recipient@) + tx.amount,
{
}

/// The sum of the balances of `addrs`.
pub open spec fn total(m: Map<Seq<char>, u64>, addrs: Seq<Seq<char>>) -> int
    decreases addrs.len(),
{
    if addrs.len() == 0 {
        0
    } else {
        total(m, addrs.drop_last()) + balance_in(m, addrs.last())
    }
}

/// The sum of the amounts of the coinbase transactions of `txs`.
pub open spec fn minted(txs: Seq<Transaction>) -> int
    decreases txs.len(),
{
    if txs.len() == 0 {
        0
    } else {
        (if txs[0].tx_type == TxType::Coinbase {
            txs[0].amount as int
        } else {
            0
        }) + minted(txs.drop_first())
    }
}

/// Whether every transfer of `txs`, applied in order, comes from a sender
/// that holds at least its amount at that point.
pub open spec fn all_funded(m: Map<Seq<char>, u64>, txs: Seq<Transaction>) -> bool
    decreases txs.len(),
{
    txs.len() == 0 || ((txs[0].tx_type == TxType::Coinbase || balance_in(m, txs[0].sender@)
        >= txs[0].amount) && all_funded(apply_tx(m, txs[0]), txs.drop_first()))
}

/// Whether `tx` changes the balance of `address`: it is the recipient, or
/// the sender of a transfer.
pub open spec fn touches(tx: Transaction, address: Seq<char>) -> bool {
    address == tx.recipient@ || (tx.tx_type == TxType::Transfer && address == tx.sender@)
}

proof fn lemma_total_insert_absent(m: Map<Seq<char>, u64>, addrs: Seq<Seq<char>>, k: Seq<char>, v: u64)
    requires
        !addrs.contains(k),
    ensures
        total(m.insert(k, v), addrs) == total(m, addrs),
    decreases addrs.len(),
{
    if addrs.len() > 0 {
        assert(!addrs.drop_last().contains(k)) by {
            if addrs.drop_last().contains(k) {
                let i = choose|i: int| 0 <= i < addrs.drop_last().len() && addrs.drop_last()[i] == k;
                assert(addrs[i] == k);
            }
        }
        lemma_total_insert_absent(m, addrs.drop_last(), k, v);
        assert(addrs.last() != k) by {
            assert(addrs[addrs.len() - 1] == addrs.last());
        }
    }
}

proof fn lemma_total_insert(m: Map<Seq<char>, u64>, addrs: Seq<Seq<char>>, k: Seq<char>, v: u64)
    requires
        addrs.no_duplicates(),
        addrs.contains(k),
    ensures
        total(m.insert(k, v), addrs) == total(m, addrs) - balance_in(m, k) + v,
    decreases addrs.len(),
{
    let init = addrs.drop_last();
    if addrs.last() == k {
        assert(!init.contains(k)) by {
            if init.contains(k) {
                let i = choose|i: int| 0 <= i < init.len() && init[i] == k;
                assert(addrs[i] == addrs[addrs.len() - 1]);
            }
        }
        lemma_total_insert_absent(m, init, k, v);
    } else {
        assert(init.contains(k)) by {
            let i = choose|i: int| 0 <= i < addrs.len() && addrs[i] == k;
            assert(i != addrs.len() - 1);
            assert(init[i] == k);
        }
        assert(init.no_duplicates()) by {
            assert forall|i: int, j: int| 0 <= i < init.len() && 0 <= j < init.len() && i != j implies init[i] != init[j] by {
                assert(init[i] == addrs[i] && init[j] == addrs[j]);
            }
        }
        lemma_total_insert(m, init, k, v);
    }
}

/// Over a list of distinct addresses that holds every address a transaction
/// touches, one funded transaction that fits changes the sum of the
/// balances by the amount it mints: its amount for a coinbase, nothing for a
/// transfer.
proof fn lemma_tx_mints(m: Map<Seq<char>, u64>, tx: Transaction, addrs: Seq<Seq<char>>)
    requires
        addrs.no_duplicates(),
        addrs.contains(tx.recipient@),
        tx.tx_type == TxType::Transfer ==> addrs.contains(tx.sender@),
        tx.tx_type == TxType::Transfer ==> balance_in(m, tx.sender@) >= tx.amount,
        tx_fits(m, tx),
    ensures
        total(apply_tx(m, tx), addrs) == total(m, addrs) + (if tx.tx_type == TxType::Coinbase {
            tx.amount as int
        } else {
            0
        }),
{
    match tx.tx_type {
        TxType::Coinbase => {
            lemma_total_insert(m, addrs, tx.recipient@, (balance_in(m, tx.recipient@) + tx.amount) as u64);
        },
        TxType::Transfer => {
            let d = debited(m, tx);
            lemma_total_insert(m, addrs, tx.sender@, (balance_in(m, tx.sender@) - tx.amount) as u64);
            lemma_total_insert(d, addrs, tx.recipient@, (balance_in(d, tx.recipient@) + tx.amount) as u64);
        },
    }
}

/// Applying a block's transactions changes the sum of the balances of the
/// addresses they touch by exactly the coinbase amounts, as long as every
/// transfer is funded when it is applied and no credit overflows.
pub proof fn lemma_block_mints_coinbase(m: Map<Seq<char>, u64>, txs: Seq<Transaction>, addrs: Seq<Seq<char>>)
    requires
        addrs.no_duplicates(),
        forall|i: int, a: Seq<char>| 0 <= i < txs.len() && #[trigger] touches(txs[i], a) ==> addrs.contains(a),
        all_funded(m, txs),
        all_fit(m, txs),
    ensures
        total(apply_all(m, txs), addrs) == total(m, addrs) + minted(txs),
    decreases txs.len(),
{
    if txs.len() > 0 {
        assert(touches(txs[0], txs[0].recipient@));
        if txs[0].tx_type == TxType::Transfer {
            assert(touches(txs[0], txs[0].sender@));
        }
        lemma_tx_mints(m, txs[0], addrs);
        let rest = txs.drop_first();
        assert forall|i: int, a: Seq<char>| 0 <= i < rest.len() && #[trigger] touches(rest[i], a) implies addrs.contains(a) by {
            assert(rest[i] == txs[i + 1]);
            assert(touches(txs[i + 1], a));
        }
        lemma_block_mints_coinbase(apply_tx(m, txs[0]), rest, addrs);
    }
}

/// An address that no transaction of the block touches keeps its balance.
pub proof fn lemma_block_leaves_others(m: Map<Seq<char>, u64>, txs: Seq<Transaction>, address: Seq<char>)
    requires
        forall|i: int| 0 <= i < txs.len() ==> !#[trigger] touches(txs[i], address),
    ensures
        balance_in(apply_all(m, txs), address) == balance_in(m, address),
    decreases txs.len(),
{
    if txs.len() > 0 {
        assert(!touches(txs[0], address));
        let rest = txs.drop_first();
        assert forall|i: int| 0 <= i < rest.len() implies !#[trigger] touches(rest[i], address) by {
            assert(rest[i] == txs[i + 1]);
            assert(!touches(txs[i + 1], address));
        }
        lemma_block_leaves_others(apply_tx(m, txs[0]), rest, address);
    }
}

/// Whether two transactions move the same funds between the same addresses.
pub open spec fn same_effect(a: Transaction, b: Transaction) -> bool {
    &&& a.tx_type == b.tx_type
    &&& a.sender@ == b.sender@
    &&& a.recipient@ == b.recipient@
    &&& a.amount == b.amount
}

/// Transactions that move the same funds, position by position, fit and
/// apply alike.
pub proof fn lemma_same_effect(m: Map<Seq<char>, u64>, s1: Seq<Transaction>, s2: Seq<Transaction>)
    requires
        s1.len() == s2.len(),
        forall|i: int| 0 <= i < s1.len() ==> #[trigger] same_effect(s1[i], s2[i]),
    ensures
        all_fit(m, s1) == all_fit(m, s2),
        apply_all(m, s1) == apply_all(m, s2),
    decreases s1.len(),
{
    if s1.len() > 0 {
        assert(same_effect(s1[0], s2[0]));
        assert(apply_tx(m, s1[0]) == apply_tx(m, s2[0]));
        assert forall|i: int| 0 <= i < s1.drop_first().len() implies #[trigger] same_effect(
            s1.drop_first()[i],
            s2.drop_first()[i],
        ) by {
            assert(same_effect(s1[i + 1], s2[i + 1]));
        }
        lemma_same_effect(apply_tx(m, s1[0]), s1.drop_first(), s2.drop_first());
    }
}

/// The balances a vector of entries stands for; keys are distinct.
pub open spec fn entries_map(e: Seq<(String, u64)>) -> Map<Seq<char>, u64> {
    Map::new(
        |k: Seq<char>| exists|i: int| 0 <= i < e.len() && e[i].0@ == k,
        |k: Seq<char>| e[choose|i: int| 0 <= i < e.len() && e[i].0@ == k].1,
    )
}

/// Whether no two entries share an address.
pub open spec fn distinct_keys(e: Seq<(String, u64)>) -> bool {
    forall|i: int, j: int| 0 <= i < e.len() && 0 <= j < e.len() && i != j ==> e[i].0@ != e[j].0@
}

/// The balance ledger: an amount for each address that a block has touched.
pub struct Balances {
    entries: Vec<(String, u64)>,
}

impl View for Balances {
    type V = Map<Seq<char>, u64>;

    closed spec fn view(&self) -> Map<Seq<char>, u64> {
        entries_map(self.entries@)
    }
}

impl Balances {
    #[verifier::type_invariant]
    spec fn keys_distinct(self) -> bool {
        distinct_keys(self.entries@)
    }

    /// An empty ledger.
    pub fn new() -> (b: Balances)
        ensures
            b@ == Map::<Seq<char>, u64>::empty(),
    {
        let b = Balances { entries: Vec::new() };
        assert(b@ =~= Map::<Seq<char>, u64>::empty());
        b
    }

    /// The balance of `address`: 0 when it has no entry.
    pub fn get(&self, address: &str) -> (v: u64)
        ensures
            v == balance_in(self@, address@),
    {
        proof {
            use_type_invariant(self);
        }
        match self.position_in(&self.entries, address) {
            Some(i) => {
                proof {
                    let c = choose|j: int|
                        0 <= j < self.entries@.len() && self.entries@[j].0@ == address@;
                    assert(c == i);
                }
                self.entries[i].1
            },
            None => {
                assert(!self@.dom().contains(address@));
                0
            },
        }
    }

    /// Sets the balance of `address` to `value`, adding an entry when it has none.
    pub fn set(&mut self, address: &str, value: u64)
        ensures
            final(self)@ == old(self)@.insert(address@, value),
    {
        proof {
            use_type_invariant(&*self);
        }
        let ghost before = self.entries@;
        let mut entries = Vec::new();
        std::mem::swap(&mut entries, &mut self.entries);
        match self.position_in(&entries, address) {
            Some(i) => {
                entries.set(i, (String::from_str(address), value));
                proof {
                    assert forall|k: Seq<char>|
                        #[trigger] entries_map(entries@).dom().contains(k) == entries_map(before).insert(
                            address@,
                            value,
                        ).dom().contains(k) by {
                        if k == address@ {
                            assert(entries@[i as int].0@ == k);
                        } else if entries_map(before).dom().contains(k) {
                            let j = choose|j: int| 0 <= j < before.len() && before[j].0@ == k;
                            assert(entries@[j].0@ == k);
                        }
                    }
                    assert forall|a: int, b: int|
                        0 <= a < entries@.len() && 0 <= b < entries@.len() && a != b implies entries@[a].0@
                            != entries@[b].0@ by {
                        if a == i as int {
                            assert(entries@[b] == before[b]);
                        } else if b == i as int {
                            assert(entries@[a] == before[a]);
                        } else {
                            assert(entries@[a] == before[a]);
                            assert(entries@[b] == before[b]);
                        }
                    }
                    assert forall|k: Seq<char>|
                        #[trigger] entries_map(entries@).dom().contains(k) implies entries_map(
                            entries@,
                        )[k] == entries_map(before).insert(address@, value)[k] by {
                        let c = choose|j: int| 0 <= j < entries@.len() && entries@[j].0@ == k;
                        if k == address@ {
                            assert(c == i);
                        } else {
                            let c0 = choose|j: int| 0 <= j < before.len() && before[j].0@ == k;
                            assert(entries@[c0] == before[c0]);
                            assert(c == c0);
                        }
                    }
                    assert(entries_map(entries@).dom() =~= entries_map(before).insert(address@, value).dom());
                    assert(entries_map(entries@) =~= entries_map(before).insert(address@, value));
                }
            },
            None => {
                entries.push((String::from_str(address), value));
                proof {
                    let last = before.len() as int;
                    assert forall|a: int, b: int|
                        0 <= a < entries@.len() && 0 <= b < entries@.len() && a != b implies entries@[a].0@
                            != entries@[b].0@ by {
                        if a == last {
                            assert(entries@[b] == before[b]);
                        } else if b == last {
                            assert(entries@[a] == before[a]);
                        } else {
                            assert(entries@[a] == before[a]);
                            assert(entries@[b] == before[b]);
                        }
                    }
                    assert forall|k: Seq<char>|
                        #[trigger] entries_map(entries@).dom().contains(k) == entries_map(before).insert(
                            address@,
                            value,
                        ).dom().contains(k) by {
                        if k == address@ {
                            assert(entries@[last].0@ == k);
                        } else if entries_map(before).dom().contains(k) {
                            let j = choose|j: int| 0 <= j < before.len() && before[j].0@ == k;
                            assert(entries@[j].0@ == k);
                        } else if entries_map(entries@).dom().contains(k) {
                            let j = choose|j: int| 0 <= j < entries@.len() && entries@[j].0@ == k;
                            assert(entries@[j] == before[j]);
                        }
                    }
                    assert forall|k: Seq<char>|
                        #[trigger] entries_map(entries@).dom().contains(k) implies entries_map(
                            entries@,
                        )[k] == entries_map(before).insert(address@, value)[k] by {
                        let c = choose|j: int| 0 <= j < entries@.len() && entries@[j].0@ == k;
                        if k == address@ {
                            assert(c == last);
                        } else {
                            let c0 = choose|j: int| 0 <= j < before.len() && before[j].0@ == k;
                            assert(entries@[c0] == before[c0]);
                            assert(c == c0);
                        }
                    }
                    assert(entries_map(entries@).dom() =~= entries_map(before).insert(address@, value).dom());
                    assert(entries_map(entries@) =~= entries_map(before).insert(address@, value));
                }
            },
        }
        self.entries = entries;
    }

    /// A ledger with the same balances.
    pub fn duplicate(&self) -> (r: Balances)
        ensures
            r@ == self@,
    {
        proof {
            use_type_invariant(self);
        }
        let n = self.entries.len();
        let mut entries: Vec<(String, u64)> = Vec::new();
        for i in 0..n
            invariant
                n == self.entries@.len(),
                entries@ == self.entries@.take(i as int),
        {
            let (k, v) = &self.entries[i];
            entries.push((k.clone(), *v));
            assert(entries@ =~= self.entries@.take(i + 1));
        }
        assert(entries@ =~= self.entries@);
        Balances { entries }
    }

    /// Whether the recipient's credit for `tx` stays within `u64`.
    pub fn fits(&self, tx: &Transaction) -> (r: bool)
        ensures
            r == tx_fits(self@, *tx),
    {
        match tx.tx_type {
            TxType::Coinbase => {
                let current = self.get(tx.recipient.as_str());
                current.checked_add(tx.amount).is_some()
            },
            TxType::Transfer => {
                let sender_balance = self.get(tx.sender.as_str());
                let after = if sender_balance >= tx.amount {
                    sender_balance - tx.amount
                } else {
                    0
                };
                let current = if tx.recipient == tx.sender {
                    after
                } else {
                    self.get(tx.recipient.as_str())
                };
                current.checked_add(tx.amount).is_some()
            },
        }
    }

    /// Applies one transaction: a coinbase credits its recipient; a transfer
    /// debits its sender (never below 0) and then credits its recipient.
    pub fn apply(&mut self, tx: &Transaction)
        requires
            tx_fits(old(self)@, *tx),
        ensures
            final(self)@ == apply_tx(old(self)@, *tx),
    {
        match tx.tx_type {
            TxType::Coinbase => {
                let current = self.get(tx.recipient.as_str());
                self.set(tx.recipient.as_str(), current + tx.amount);
            },
            TxType::Transfer => {
                let sender_balance = self.get(tx.sender.as_str());
                let after = if sender_balance >= tx.amount {
                    sender_balance - tx.amount
                } else {
                    0
                };
                self.set(tx.sender.as_str(), after);
                let current = self.get(tx.recipient.as_str());
                self.set(tx.recipient.as_str(), current + tx.amount);
            },
        }
    }

    fn position_in(&self, entries: &Vec<(String, u64)>, address: &str) -> (r: Option<usize>)
        ensures
            match r {
                Some(i) => i < entries@.len() && entries@[i as int].0@ == address@,
                None => forall|i: int| 0 <= i < entries@.len() ==> entries@[i].0@ != address@,
            },
    {
        let n = entries.len();
        let wanted = String::from_str(address);
        for i in 0..n
            invariant
                n == entries@.len(),
                wanted@ == address@,
                forall|k: int| 0 <= k < i ==> entries@[k].0@ != address@,
        {
            if entries[i].0 == wanted {
                return Some(i);
            }
        }
        None
    }
}

/// Whether the node's chain would take `block`: it is mined at the chain's
/// difficulty and names the last block as its parent.
pub open spec fn chain_takes(state: NodeState, block: Block) -> bool {
    crate::pow::block_is_mined(block, state.chain.difficulty as nat) && block.prev_hash@
        == state.chain.blocks@.last().hash@
}

/// A node's view of the world: its chain and the balances its blocks gave.
pub struct NodeState {
    pub chain: Chain,
    pub balances: Balances,
}

impl NodeState {
    /// A fresh chain at `difficulty` and an empty ledger.
    pub fn new(difficulty: usize) -> (s: NodeState)
        ensures
            s.chain.difficulty == difficulty,
            s.chain.blocks@.len() == 1,
            is_genesis(s.chain.blocks@[0]),
            s.balances@ == Map::<Seq<char>, u64>::empty(),
    {
        NodeState { chain: Chain::new(difficulty), balances: Balances::new() }
    }

    /// Whether applying `txs` in order keeps every balance within `u64`.
    pub fn fits(&self, txs: &Vec<Transaction>) -> (r: bool)
        ensures
            r == all_fit(self.balances@, txs@),
    {
        let mut scratch = self.balances.duplicate();
        let n = txs.len();
        let mut i: usize = 0;
        assert(txs@.skip(0) =~= txs@);
        while i < n
            invariant
                n == txs@.len(),
                i <= n,
                all_fit(self.balances@, txs@) == all_fit(scratch@, txs@.skip(i as int)),
            decreases n - i,
        {
            let ghost rest = txs@.skip(i as int);
            assert(rest.drop_first() =~= txs@.skip(i + 1));
            if !scratch.fits(&txs[i]) {
                return false;
            }
            scratch.apply(&txs[i]);
            i = i + 1;
        }
        true
    }

    /// Credits and debits the balances as the block's transactions say, in
    /// order. No credit may overflow.
    pub fn apply_block(&mut self, block: &Block)
        requires
            all_fit(old(self).balances@, block.transactions@),
        ensures
            final(self).balances@ == apply_all(old(self).balances@, block.transactions@),
            final(self).chain == old(self).chain,
    {
        let txs = &block.transactions;
        let n = txs.len();
        let mut i: usize = 0;
        assert(txs@.skip(0) =~= txs@);
        while i < n
            invariant
                n == txs@.len(),
                i <= n,
                self.chain == old(self).chain,
                all_fit(self.balances@, txs@.skip(i as int)),
                apply_all(old(self).balances@, txs@) == apply_all(self.balances@, txs@.skip(i as int)),
            decreases n - i,
        {
            let ghost rest = txs@.skip(i as int);
            assert(rest.drop_first() =~= txs@.skip(i + 1));
            self.balances.apply(&txs[i]);
            i = i + 1;
        }
    }

    /// The balance of `address`: 0 when no block has touched it.
    pub fn balance_of(&self, address: &str) -> (v: u64)
        ensures
            v == balance_in(self.balances@, address@),
    {
        self.balances.get(address)
    }
}

} // verus!
