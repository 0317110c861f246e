//! Peer messages and what a node does with each one it receives.
use crate::block::Block;
use crate::chain::chain_valid;
use crate::mempool::{rejection, Mempool};
use crate::pow::block_is_mined;
use crate::state::{all_fit, apply_all, balance_in, chain_takes, NodeState};
use crate::transaction::Transaction;
use vstd::prelude::*;

verus! {

/// A message between peers.
#[derive(Debug)]
pub enum Message {
    NewBlock(Block),
    GetChain,
    Chain(Vec<Block>),
    NewTx(Transaction),
    GetPeers,
    Peers(Vec<String>),
}

/// Handles one message from a peer and gives the reply to send back, if any.
/// A new block that extends the chain is appended and its transactions
/// applied to the balances; a new transaction is offered to the pool; a
/// request for the chain or the peers is answered.
pub fn handle_message(msg: Message, state: &mut NodeState, mempool: &mut Mempool) -> (reply: Option<Message>)
    requires
        msg matches Message::NewBlock(b) ==> {
            &&& block_is_mined(b, old(state).chain.difficulty as nat) ==> old(state).chain.blocks@.len() > 0
            &&& chain_takes(*old(state), b) ==> all_fit(old(state).balances@, b.transactions@)
        },
    ensures
        final(state).chain.difficulty == old(state).chain.difficulty,
        final(mempool).capacity() == old(mempool).capacity(),
        match msg {
            Message::NewBlock(b) => {
                &&& reply is None
                &&& final(mempool).pending() == old(mempool).pending()
                &&& if chain_takes(*old(state), b) {
                    &&& final(state).chain.blocks@.len() == old(state).chain.blocks@.len() + 1
                    &&& final(state).chain.blocks@.drop_last() == old(state).chain.blocks@
                    &&& final(state).chain.blocks@.last().same_as(&b)
                    &&& final(state).balances@ == apply_all(old(state).balances@, b.transactions@)
                } else {
                    &&& final(state).chain.blocks@ == old(state).chain.blocks@
                    &&& final(state).balances@ == old(state).balances@
                }
            },
            Message::GetChain => {
                &&& reply matches Some(Message::Chain(blocks))
                &&& blocks@.len() == old(state).chain.blocks@.len()
                &&& forall|i: int|
                    0 <= i < blocks@.len() ==> blocks@[i].same_as(&old(state).chain.blocks@[i])
                &&& final(state).chain.blocks@ == old(state).chain.blocks@
                &&& final(state).balances@ == old(state).balances@
                &&& final(mempool).pending() == old(mempool).pending()
            },
            Message::NewTx(tx) => {
                &&& reply is None
                &&& final(state).chain.blocks@ == old(state).chain.blocks@
                &&& final(state).balances@ == old(state).balances@
                &&& match rejection(
                    tx,
                    balance_in(old(state).balances@, tx.sender@) as u64,
                    old(mempool).pending(),
                    old(mempool).capacity(),
                ) {
                    Some(_) => final(mempool).pending() == old(mempool).pending(),
                    None => final(mempool).pending() == old(mempool).pending().push(tx),
                }
            },
            Message::GetPeers => {
                &&& reply matches Some(Message::Peers(p))
                &&& p@.len() == 0
                &&& final(state).chain.blocks@ == old(state).chain.blocks@
                &&& final(state).balances@ == old(state).balances@
                &&& final(mempool).pending() == old(mempool).pending()
            },
            _ => {
                &&& reply is None
                &&& final(state).chain.blocks@ == old(state).chain.blocks@
                &&& final(state).balances@ == old(state).balances@
                &&& final(mempool).pending() == old(mempool).pending()
            },
        },
{
    match msg {
        Message::NewBlock(block) => {
            let ghost before = *state;
            match state.chain.add_block(block.clone()) {
                Ok(()) => {
                    state.apply_block(&block);
                },
                Err(_) => {},
            }
            None
        },
        Message::GetChain => {
            let copy = state.chain.clone();
            Some(Message::Chain(copy.blocks))
        },
        Message::NewTx(tx) => {
            let sender_balance = state.balance_of(tx.sender.as_str());
            let _ = mempool.add(tx, sender_balance);
            None
        },
        Message::GetPeers => Some(Message::Peers(Vec::new())),
        _ => None,
    }
}

/// Takes a peer's answer to a request for its chain: a longer chain whose
/// every link holds replaces the node's own.
pub fn adopt_chain(reply: Message, state: &mut NodeState) -> (adopted: bool)
    ensures
        final(state).chain.difficulty == old(state).chain.difficulty,
        final(state).balances@ == old(state).balances@,
        adopted == (reply matches Message::Chain(blocks) && (blocks@.len() > old(
            state,
        ).chain.blocks@.len() && chain_valid(blocks@, old(state).chain.difficulty as nat))),
        adopted ==> (reply matches Message::Chain(blocks) && final(state).chain.blocks@ == blocks@),
        !adopted ==> final(state).chain.blocks@ == old(state).chain.blocks@,
{
    match reply {
        Message::Chain(blocks) => state.chain.replace(blocks),
        _ => false,
    }
}

} // verus!
