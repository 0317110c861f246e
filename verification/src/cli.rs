//! The commands of the `kami` command-line client, and the node request
//! each of them makes.
use crate::config::{ConfigView, NodeConfig};
use crate::rpc::RpcParams;
use vstd::prelude::*;
use vstd::string::StringExecFns;

verus! {

/// Chain commands.
pub enum ChainCmd {
    /// Print chain height, latest hash and difficulty.
    Info { node: String },
    /// Print a block by index.
    Block { index: u64, node: String },
    /// Ask the node to validate its chain.
    Validate { node: String },
}

pub struct ChainArgs {
    pub command: ChainCmd,
}

/// Node commands.
pub enum NodeCmd {
    /// Start a node.
    Start {
        bind: String,
        rpc: String,
        difficulty: usize,
        data_dir: String,
        miner: String,
        peer: Option<String>,
    },
}

pub struct NodeArgs {
    pub command: NodeCmd,
}

/// Transaction commands.
pub enum TxCmd {
    /// Sign and submit a transfer.
    Send { keyfile: String, to: String, amount: u64, fee: u64, node: String },
    /// Look up a confirmed transaction.
    Get { id: String, node: String },
}

pub struct TxArgs {
    pub command: TxCmd,
}

/// Wallet commands.
pub enum WalletCmd {
    /// Generate a key and save it.
    New { keyfile: String },
    /// Print the address of a saved key.
    Address { keyfile: String },
    /// Ask a node for an address's balance.
    Balance { address: String, node: String },
}

pub struct WalletArgs {
    pub command: WalletCmd,
}

/// A request to a node: where it goes, the method, and its parameters.
pub struct NodeRequest {
    pub node: String,
    pub method: String,
    pub params: RpcParams,
}

fn no_params() -> (p: RpcParams)
    ensures
        p.index is None,
        p.tx is None,
        p.address is None,
        p.id is None,
{
    RpcParams { index: None, tx: None, address: None, id: None }
}

impl ChainCmd {
    /// The request the command makes.
    pub fn request(&self) -> (r: NodeRequest)
        ensures
            match self {
                ChainCmd::Info { node } => r.node@ == node@ && r.method@ == "chain_info"@
                    && r.params.index is None,
                ChainCmd::Block { index, node } => r.node@ == node@ && r.method@ == "chain_block"@
                    && r.params.index == Some(*index),
                ChainCmd::Validate { node } => r.node@ == node@ && r.method@ == "chain_validate"@
                    && r.params.index is None,
            },
            r.params.tx is None,
            r.params.address is None,
            r.params.id is None,
    {
        match self {
            ChainCmd::Info { node } => NodeRequest {
                node: node.clone(),
                method: String::from_str("chain_info"),
                params: no_params(),
            },
            ChainCmd::Block { index, node } => NodeRequest {
                node: node.clone(),
                method: String::from_str("chain_block"),
                params: RpcParams { index: Some(*index), tx: None, address: None, id: None },
            },
            ChainCmd::Validate { node } => NodeRequest {
                node: node.clone(),
                method: String::from_str("chain_validate"),
                params: no_params(),
            },
        }
    }
}

impl NodeCmd {
    /// The node settings the command starts a node with.
    pub fn config(&self) -> (cfg: NodeConfig)
        ensures
            match self {
                NodeCmd::Start { bind, rpc, difficulty, data_dir, miner, peer } => cfg@ == ConfigView {
                    bind_addr: bind@,
                    rpc_addr: rpc@,
                    difficulty: *difficulty,
                    data_dir: data_dir@,
                    miner_addr: miner@,
                    peer: match peer {
                        Some(p) => Some(p@),
                        None => None,
                    },
                },
            },
    {
        match self {
            NodeCmd::Start { bind, rpc, difficulty, data_dir, miner, peer } => NodeConfig {
                bind_addr: bind.clone(),
                rpc_addr: rpc.clone(),
                difficulty: *difficulty,
                data_dir: data_dir.clone(),
                miner_addr: miner.clone(),
                peer: crate::transaction::clone_opt_string(peer),
            },
        }
    }
}

impl TxCmd {
    /// The lookup request of `Get`; `Send` builds its transfer first.
    pub fn lookup(&self) -> (r: Option<NodeRequest>)
        ensures
            match self {
                TxCmd::Get { id, node } => {
                    &&& r matches Some(q)
                    &&& q.node@ == node@
                    &&& q.method@ == "tx_get"@
                    &&& q.params.id matches Some(i)
                    &&& i@ == id@
                },
                TxCmd::Send { .. } => r is None,
            },
    {
        match self {
            TxCmd::Get { id, node } => Some(
                NodeRequest {
                    node: node.clone(),
                    method: String::from_str("tx_get"),
                    params: RpcParams { index: None, tx: None, address: None, id: Some(id.clone()) },
                },
            ),
            TxCmd::Send { .. } => None,
        }
    }
}

impl WalletCmd {
    /// The balance request of `Balance`; the other commands only touch the key file.
    pub fn lookup(&self) -> (r: Option<NodeRequest>)
        ensures
            match self {
                WalletCmd::Balance { address, node } => {
                    &&& r matches Some(q)
                    &&& q.node@ == node@
                    &&& q.method@ == "wallet_balance"@
                    &&& q.params.address matches Some(a)
                    &&& a@ == address@
                },
                _ => r is None,
            },
    {
        match self {
            WalletCmd::Balance { address, node } => Some(
                NodeRequest {
                    node: node.clone(),
                    method: String::from_str("wallet_balance"),
                    params: RpcParams {
                        index: None,
                        tx: None,
                        address: Some(address.clone()),
                        id: None,
                    },
                },
            ),
            _ => None,
        }
    }
}

} // verus!
