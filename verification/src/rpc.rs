//! The node's request handler: one request in, one response out.
use crate::block::Block;
use crate::chain::{chain_valid, first_link_error};
use crate::codec::{decimal_text, push_decimal_text};
use crate::error::KamiError;
use crate::mempool::{rejection, Mempool};
use crate::state::{balance_in, NodeState};
use crate::transaction::Transaction;
use vstd::prelude::*;
use vstd::string::StringExecFns;

verus! {

/// The parameters a request may carry, as far as any method reads them.
pub struct RpcParams {
    pub index: Option<u64>,
    pub tx: Option<Transaction>,
    pub address: Option<String>,
    pub id: Option<String>,
}

/// What a successful request answers.
#[derive(Debug)]
pub enum RpcResult {
    ChainInfo { height: usize, latest_hash: String, difficulty: usize },
    Block(Block),
    Submitted,
    Balance(u64),
    Validation { valid: bool, message: String },
    Tx(Transaction),
    Peers(Vec<String>),
}

/// The answer to one request: a result, or an error text.
#[derive(Debug)]
pub struct RpcResponse {
    pub ok: bool,
    pub result: Option<RpcResult>,
    pub error: Option<String>,
}

impl RpcResponse {
    /// A successful answer.
    pub fn ok(result: RpcResult) -> (r: RpcResponse)
        ensures
            r.ok,
            r.result == Some(result),
            r.error is None,
    {
        RpcResponse { ok: true, result: Some(result), error: None }
    }

    /// A failed answer.
    pub fn err(message: String) -> (r: RpcResponse)
        ensures
            !r.ok,
            r.result is None,
            r.error == Some(message),
    {
        RpcResponse { ok: false, result: None, error: Some(message) }
    }

    /// Whether the response is a failure with exactly this text.
    pub open spec fn fails_with(&self, message: Seq<char>) -> bool {
        &&& !self.ok
        &&& self.result is None
        &&& self.error matches Some(m)
        &&& m@ == message
    }
}

/// Position `(b, t)` comes before `(c, u)`: an earlier block, or the same
/// block and an earlier transaction.
pub open spec fn earlier(b: int, t: int, c: int, u: int) -> bool {
    b < c || (b == c && t < u)
}

/// Whether transaction `t` of block `b` has identifier `id`.
pub open spec fn tx_at_has_id(blocks: Seq<Block>, b: int, t: int, id: Seq<char>) -> bool {
    0 <= b < blocks.len() && 0 <= t < blocks[b].transactions@.len()
        && blocks[b].transactions@[t].id@ == id
}

/// `(b, t)` is the first place of the chain holding a transaction with identifier `id`.
pub open spec fn first_tx_with_id(blocks: Seq<Block>, b: int, t: int, id: Seq<char>) -> bool {
    &&& tx_at_has_id(blocks, b, t, id)
    &&& forall|c: int, u: int| earlier(c, u, b, t) ==> !#[trigger] tx_at_has_id(blocks, c, u, id)
}

/// Searches the chain, block by block, for the first transaction with identifier `id`.
fn find_tx(blocks: &Vec<Block>, id: &str) -> (r: Option<Transaction>)
    ensures
        match r {
            Some(tx) => exists|b: int, t: int|
                first_tx_with_id(blocks@, b, t, id@) && tx == blocks@[b].transactions@[t],
            None => forall|b: int, t: int| !#[trigger] tx_at_has_id(blocks@, b, t, id@),
        },
{
    let wanted = String::from_str(id);
    let n = blocks.len();
    for b in 0..n
        invariant
            n == blocks@.len(),
            wanted@ == id@,
            forall|c: int, u: int| 0 <= c < b ==> !#[trigger] tx_at_has_id(blocks@, c, u, id@),
    {
        let txs = &blocks[b].transactions;
        let m = txs.len();
        for t in 0..m
            invariant
                n == blocks@.len(),
                b < n,
                txs@ == blocks@[b as int].transactions@,
                m == txs@.len(),
                wanted@ == id@,
                forall|c: int, u: int| 0 <= c < b ==> !#[trigger] tx_at_has_id(blocks@, c, u, id@),
                forall|u: int| 0 <= u < t ==> !#[trigger] tx_at_has_id(blocks@, b as int, u, id@),
        {
            if txs[t].id == wanted {
                let found = txs[t].clone();
                assert(first_tx_with_id(blocks@, b as int, t as int, id@));
                return Some(found);
            }
        }
    }
    None
}

/// The text of the parameter, or the empty text when it is absent.
pub open spec fn text_or_empty(s: Option<String>) -> Seq<char> {
    match s {
        Some(v) => v@,
        None => Seq::empty(),
    }
}

fn string_or_empty(s: &Option<String>) -> (r: String)
    ensures
        r@ == text_or_empty(*s),
{
    match s {
        Some(v) => v.clone(),
        None => String::new(),
    }
}

/// The method names are pairwise different.
proof fn lemma_method_names_differ()
    ensures
        "chain_info"@ != "chain_block"@,
        "chain_info"@ != "tx_submit"@,
        "chain_info"@ != "wallet_balance"@,
        "chain_info"@ != "chain_validate"@,
        "chain_info"@ != "tx_get"@,
        "chain_info"@ != "node_peers"@,
        "chain_block"@ != "tx_submit"@,
        "chain_block"@ != "wallet_balance"@,
        "chain_block"@ != "chain_validate"@,
        "chain_block"@ != "tx_get"@,
        "chain_block"@ != "node_peers"@,
        "tx_submit"@ != "wallet_balance"@,
        "tx_submit"@ != "chain_validate"@,
        "tx_submit"@ != "tx_get"@,
        "tx_submit"@ != "node_peers"@,
        "wallet_balance"@ != "chain_validate"@,
        "wallet_balance"@ != "tx_get"@,
        "wallet_balance"@ != "node_peers"@,
        "chain_validate"@ != "tx_get"@,
        "chain_validate"@ != "node_peers"@,
        "tx_get"@ != "node_peers"@,
{
    reveal_strlit("chain_info");
    reveal_strlit("chain_block");
    reveal_strlit("tx_submit");
    reveal_strlit("wallet_balance");
    reveal_strlit("chain_validate");
    reveal_strlit("tx_get");
    reveal_strlit("node_peers");
    assert("chain_info"@.len() == 10);
    assert("chain_block"@.len() == 11);
    assert("tx_submit"@.len() == 9);
    assert("wallet_balance"@.len() == 14);
    assert("chain_validate"@.len() == 14);
    assert("tx_get"@.len() == 6);
    assert("node_peers"@.len() == 10);
    assert("chain_info"@[0] != "node_peers"@[0]);
    assert("wallet_balance"@[0] != "chain_validate"@[0]);
}

/// Answers one request against the node's state and pool. A transfer
/// submitted with `tx_submit` goes through every admission check of the pool
/// except the sender's balance: a signed transfer from an address that holds
/// nothing yet is pooled.
pub fn dispatch(method: &str, params: RpcParams, state: &NodeState, mempool: &mut Mempool) -> (r: RpcResponse)
    requires
        method@ == "chain_info"@ ==> state.chain.blocks@.len() > 0,
    ensures
        method@ != "tx_submit"@ ==> final(mempool).pending() == old(mempool).pending(),
        final(mempool).capacity() == old(mempool).capacity(),
        method@ == "chain_info"@ ==> {
            &&& r.ok
            &&& r.error is None
            &&& r.result matches Some(RpcResult::ChainInfo { height, latest_hash, difficulty })
            &&& height == state.chain.blocks@.len()
            &&& latest_hash == state.chain.blocks@.last().hash
            &&& difficulty == state.chain.difficulty
        },
        method@ == "chain_block"@ ==> {
            let index = match params.index {
                Some(i) => i,
                None => 0,
            };
            if (index as usize) < state.chain.blocks@.len() {
                &&& r.ok
                &&& r.error is None
                &&& r.result matches Some(RpcResult::Block(b))
                &&& b.same_as(&state.chain.blocks@[index as usize as int])
            } else {
                r.fails_with("block "@ + decimal_text(index as nat) + " not found"@)
            }
        },
        method@ == "tx_submit"@ ==> match params.tx {
            None => r.fails_with("invalid transaction"@) && final(mempool).pending() == old(
                mempool,
            ).pending(),
            Some(tx) => match rejection(
                tx,
                u64::MAX,
                old(mempool).pending(),
                old(mempool).capacity(),
            ) {
                Some(m) => r.fails_with("Invalid transaction: "@ + m) && final(mempool).pending()
                    == old(mempool).pending(),
                None => {
                    &&& r.ok
                    &&& r.error is None
                    &&& r.result == Some(RpcResult::Submitted)
                    &&& final(mempool).pending() == old(mempool).pending().push(tx)
                },
            },
        },
        method@ == "wallet_balance"@ ==> r.ok && r.error is None && r.result == Some(
            RpcResult::Balance(balance_in(state.balances@, text_or_empty(params.address)) as u64),
        ),
        method@ == "chain_validate"@ ==> {
            &&& r.ok
            &&& r.error is None
            &&& r.result matches Some(RpcResult::Validation { valid, message })
            &&& valid == chain_valid(state.chain.blocks@, state.chain.difficulty as nat)
            &&& valid ==> message@ == "chain is valid"@
            &&& !valid ==> exists|e: KamiError|
                first_link_error(e, state.chain.blocks@, state.chain.difficulty as nat)
                    && message@ == e.text()
        },
        method@ == "tx_get"@ ==> {
            let id = text_or_empty(params.id);
            if exists|b: int, t: int| tx_at_has_id(state.chain.blocks@, b, t, id) {
                &&& r.ok
                &&& r.error is None
                &&& r.result matches Some(RpcResult::Tx(tx))
                &&& exists|b: int, t: int|
                    first_tx_with_id(state.chain.blocks@, b, t, id) && tx
                        == state.chain.blocks@[b].transactions@[t]
            } else {
                r.fails_with("transaction "@ + id + " not found"@)
            }
        },
        method@ == "node_peers"@ ==> {
            &&& r.ok
            &&& r.error is None
            &&& r.result matches Some(RpcResult::Peers(p))
            &&& p@.len() == 0
        },
        !(method@ == "chain_info"@ || method@ == "chain_block"@ || method@ == "tx_submit"@
            || method@ == "wallet_balance"@ || method@ == "chain_validate"@ || method@ == "tx_get"@
            || method@ == "node_peers"@) ==> r.fails_with("unknown method"@),
{
    proof {
        lemma_method_names_differ();
    }
    let m = String::from_str(method);
    if m == String::from_str("chain_info") {
        let latest = state.chain.latest_block();
        RpcResponse::ok(
            RpcResult::ChainInfo {
                height: state.chain.len(),
                latest_hash: latest.hash.clone(),
                difficulty: state.chain.difficulty,
            },
        )
    } else if m == String::from_str("chain_block") {
        let index = match params.index {
            Some(i) => i,
            None => 0,
        };
        match state.chain.get_block(index as usize) {
            Some(block) => RpcResponse::ok(RpcResult::Block(block.clone())),
            None => {
                let mut msg = String::from_str("block ");
                push_decimal_text(&mut msg, index);
                msg.append(" not found");
                RpcResponse::err(msg)
            },
        }
    } else if m == String::from_str("tx_submit") {
        let tx = match params.tx {
            Some(tx) => tx,
            None => {
                return RpcResponse::err(String::from_str("invalid transaction"));
            },
        };
        match mempool.add(tx, u64::MAX) {
            Ok(()) => RpcResponse::ok(RpcResult::Submitted),
            Err(e) => RpcResponse::err(e.message()),
        }
    } else if m == String::from_str("wallet_balance") {
        let address = string_or_empty(&params.address);
        RpcResponse::ok(RpcResult::Balance(state.balance_of(address.as_str())))
    } else if m == String::from_str("chain_validate") {
        match state.chain.is_valid() {
            Ok(()) => RpcResponse::ok(
                RpcResult::Validation { valid: true, message: String::from_str("chain is valid") },
            ),
            Err(e) => RpcResponse::ok(RpcResult::Validation { valid: false, message: e.message() }),
        }
    } else if m == String::from_str("tx_get") {
        let id = string_or_empty(&params.id);
        match find_tx(&state.chain.blocks, id.as_str()) {
            Some(tx) => RpcResponse::ok(RpcResult::Tx(tx)),
            None => {
                let mut msg = String::from_str("transaction ");
                msg.append(id.as_str());
                msg.append(" not found");
                RpcResponse::err(msg)
            },
        }
    } else if m == String::from_str("node_peers") {
        RpcResponse::ok(RpcResult::Peers(Vec::new()))
    } else {
        RpcResponse::err(String::from_str("unknown method"))
    }
}

} // verus!
