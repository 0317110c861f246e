pub mod codec;
pub mod error;
pub mod transaction;

pub use error::KamiError;
pub use transaction::{Transaction, TxType};
pub mod merkle;
pub use merkle::{MarkleTree, MerkleTree};
pub mod block;
pub use block::Block;
pub mod pow;
pub use pow::ProofOfWork;
pub mod chain;
pub use chain::Chain;
pub mod wallet;
pub use wallet::Wallet;
pub mod mempool;
pub mod state;
pub mod miner;
pub mod config;
pub mod rpc;
pub mod p2p;
pub mod storage;
pub mod bridge;
pub mod cli;
