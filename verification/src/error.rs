//! Errors of the core ledger: blocks, chains and transactions.
use crate::codec::{decimal_text, push_decimal_text};
use vstd::prelude::*;
use vstd::string::StringExecFns;

verus! {

/// Why a block, a chain or a transaction was refused.
#[derive(Debug)]
pub enum KamiError {
    InvalidPoW,
    InvalidChain(String),
    InvalidTransaction(String),
    BlockNotFound(u64),
    SerializationError(String),
}

impl KamiError {
    /// The human-readable text of the error.
    pub open spec fn text(&self) -> Seq<char> {
        match self {
            KamiError::InvalidPoW => "Invalid proof of work"@,
            KamiError::InvalidChain(m) => "Invalid chain: "@ + m@,
            KamiError::InvalidTransaction(m) => "Invalid transaction: "@ + m@,
            KamiError::BlockNotFound(i) => "Block not found at index: "@ + decimal_text(*i as nat),
            KamiError::SerializationError(m) => "Serialization error: "@ + m@,
        }
    }

    /// Renders the error as text.
    pub fn message(&self) -> (s: String)
        ensures
            s@ == self.text(),
    {
        match self {
            KamiError::InvalidPoW => String::from_str("Invalid proof of work"),
            KamiError::InvalidChain(m) => String::from_str("Invalid chain: ").concat(m.as_str()),
            KamiError::InvalidTransaction(m) => String::from_str("Invalid transaction: ").concat(
                m.as_str(),
            ),
            KamiError::BlockNotFound(i) => {
                let mut s = String::from_str("Block not found at index: ");
                push_decimal_text(&mut s, *i);
                s
            },
            KamiError::SerializationError(m) => String::from_str("Serialization error: ").concat(
                m.as_str(),
            ),
        }
    }
}


/// How a hexadecimal text failed to decode; the variants are those of
/// `hex::FromHexError`.
#[derive(Clone, Copy, Debug, PartialEq, Eq, Structural)]
pub enum HexError {
    InvalidHexCharacter { c: char, index: usize },
    OddLength,
    InvalidStringLength,
}

/// How `{:?}` renders a character.
pub uninterp spec fn char_debug_text(c: char) -> Seq<char>;

/// Renders `c` with std's `Debug` for `char` (quoted and escaped).
/// Trusted: the text is the named rendering of `c`.
#[verifier::external_body]
fn char_debug(c: char) -> (s: String)
    ensures
        s@ == char_debug_text(c),
{
    format!("{:?}", c)
}

impl HexError {
    /// The text of the error, as `hex::FromHexError` displays it.
    pub open spec fn text(&self) -> Seq<char> {
        match self {
            HexError::InvalidHexCharacter { c, index } => "Invalid character "@ + char_debug_text(
                *c,
            ) + " at position "@ + decimal_text(*index as nat),
            HexError::OddLength => "Odd number of digits"@,
            HexError::InvalidStringLength => "Invalid string length"@,
        }
    }

    pub fn message(&self) -> (s: String)
        ensures
            s@ == self.text(),
    {
        match self {
            HexError::InvalidHexCharacter { c, index } => {
                let mut s = String::from_str("Invalid character ");
                let d = char_debug(*c);
                s.append(d.as_str());
                s.append(" at position ");
                push_decimal_text(&mut s, *index as u64);
                s
            },
            HexError::OddLength => String::from_str("Odd number of digits"),
            HexError::InvalidStringLength => String::from_str("Invalid string length"),
        }
    }
}

/// Why a wallet operation failed.
#[derive(Debug)]
pub enum WalletError {
    InvalidPublicKey(String),
    VerificationFailed,
    MissingSignature,
    HexDecode(HexError),
}

impl WalletError {
    /// The human-readable text of the error.
    pub open spec fn text(&self) -> Seq<char> {
        match self {
            WalletError::InvalidPublicKey(m) => "Invalid public key: "@ + m@,
            WalletError::VerificationFailed => "Verification failed"@,
            WalletError::MissingSignature => "Missing signature"@,
            WalletError::HexDecode(e) => "Hex decode error: "@ + e.text(),
        }
    }

    pub fn message(&self) -> (s: String)
        ensures
            s@ == self.text(),
    {
        match self {
            WalletError::InvalidPublicKey(m) => String::from_str("Invalid public key: ").concat(
                m.as_str(),
            ),
            WalletError::VerificationFailed => String::from_str("Verification failed"),
            WalletError::MissingSignature => String::from_str("Missing signature"),
            WalletError::HexDecode(e) => {
                let inner = e.message();
                String::from_str("Hex decode error: ").concat(inner.as_str())
            },
        }
    }
}


/// Why the node could not be set up or run.
#[derive(Debug)]
pub enum NodeError {
    Config(String),
    Storage(String),
    P2P(String),
    Rpc(String),
    Chain(KamiError),
}

impl NodeError {
    /// The human-readable text of the error.
    pub open spec fn text(&self) -> Seq<char> {
        match self {
            NodeError::Config(m) => "config error: "@ + m@,
            NodeError::Storage(m) => "storage error: "@ + m@,
            NodeError::P2P(m) => "p2p error: "@ + m@,
            NodeError::Rpc(m) => "rpc error: "@ + m@,
            NodeError::Chain(e) => "chain error: "@ + e.text(),
        }
    }

    pub fn message(&self) -> (s: String)
        ensures
            s@ == self.text(),
    {
        match self {
            NodeError::Config(m) => String::from_str("config error: ").concat(m.as_str()),
            NodeError::Storage(m) => String::from_str("storage error: ").concat(m.as_str()),
            NodeError::P2P(m) => String::from_str("p2p error: ").concat(m.as_str()),
            NodeError::Rpc(m) => String::from_str("rpc error: ").concat(m.as_str()),
            NodeError::Chain(e) => {
                let inner = e.message();
                String::from_str("chain error: ").concat(inner.as_str())
            },
        }
    }
}

} // verus!
