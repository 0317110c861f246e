//! Transactions: coinbase rewards and signed transfers, identified by a hash.
use crate::codec::{digest_hex, push_decimal, push_utf8, sha256_hex};
use vstd::prelude::*;

verus! {

/// What a transaction does: mint a reward, or move funds between addresses.
#[derive(Clone, Copy, Debug, PartialEq, Eq, Structural)]
pub enum TxType {
    Coinbase,
    Transfer,
}

/// A transfer of `amount` from `sender` to `recipient`, or a coinbase reward.
#[derive(Debug, PartialEq, Eq)]
pub struct Transaction {
    pub id: String,
    pub tx_type: TxType,
    pub sender: String,
    pub recipient: String,
    pub amount: u64,
    pub fee: u64,
    pub nonce: u64,
    pub pub_key: Option<String>,
    pub signature: Option<String>,
}

/// The bytes hashed to identify a transaction: sender, recipient, then the
/// decimal amount and nonce.
pub open spec fn id_preimage(sender: Seq<char>, recipient: Seq<char>, amount: u64, nonce: u64) -> Seq<u8> {
    vstd::utf8::encode_utf8(sender) + vstd::utf8::encode_utf8(recipient)
        + crate::codec::decimal(amount as nat) + crate::codec::decimal(nonce as nat)
}

/// The identifier of a transaction with these fields.
pub open spec fn transaction_id(sender: Seq<char>, recipient: Seq<char>, amount: u64, nonce: u64) -> Seq<char> {
    digest_hex(id_preimage(sender, recipient, amount, nonce))
}

/// Computes a transaction identifier: the hex SHA-256 digest of the sender,
/// the recipient and the decimal amount and nonce.
pub fn compute_id(sender: &str, recipient: &str, amount: u64, nonce: u64) -> (id: String)
    ensures
        id@ == transaction_id(sender@, recipient@, amount, nonce),
{
    let mut data: Vec<u8> = Vec::new();
    push_utf8(&mut data, sender);
    push_utf8(&mut data, recipient);
    push_decimal(&mut data, amount);
    push_decimal(&mut data, nonce);
    assert(data@ =~= id_preimage(sender@, recipient@, amount, nonce));
    sha256_hex(data.as_slice())
}

/// Draws a nonce with `rand::random`. Nothing is promised of the value.
#[verifier::external_body]
fn random_nonce() -> u64 {
    rand::random()
}

pub(crate) fn clone_opt_string(s: &Option<String>) -> (r: Option<String>)
    ensures
        r == *s,
{
    match s {
        Some(v) => Some(v.clone()),
        None => None,
    }
}

impl Clone for Transaction {
    fn clone(&self) -> (r: Self)
        ensures
            r == *self,
    {
        Transaction {
            id: self.id.clone(),
            tx_type: self.tx_type,
            sender: self.sender.clone(),
            recipient: self.recipient.clone(),
            amount: self.amount,
            fee: self.fee,
            nonce: self.nonce,
            pub_key: clone_opt_string(&self.pub_key),
            signature: clone_opt_string(&self.signature),
        }
    }
}

impl Transaction {
    /// An unsigned transfer built from its fields and a chosen nonce.
    pub open spec fn unsigned_transfer(
        sender: Seq<char>,
        recipient: Seq<char>,
        amount: u64,
        fee: u64,
        nonce: u64,
        tx: Transaction,
    ) -> bool {
        &&& tx.tx_type == TxType::Transfer
        &&& tx.sender@ == sender
        &&& tx.recipient@ == recipient
        &&& tx.amount == amount
        &&& tx.fee == fee
        &&& tx.nonce == nonce
        &&& tx.id@ == transaction_id(sender, recipient, amount, nonce)
        &&& tx.pub_key is None
        &&& tx.signature is None
    }

    /// A new unsigned transfer with a random nonce.
    pub fn new(sender: &str, recipient: &str, amount: u64, fee: u64) -> (tx: Transaction)
        ensures
            Self::unsigned_transfer(sender@, recipient@, amount, fee, tx.nonce, tx),
    {
        let nonce = random_nonce();
        Self::with_nonce(sender, recipient, amount, fee, nonce)
    }

    /// A new unsigned transfer with the given nonce.
    pub fn with_nonce(sender: &str, recipient: &str, amount: u64, fee: u64, nonce: u64) -> (tx: Transaction)
        ensures
            Self::unsigned_transfer(sender@, recipient@, amount, fee, nonce, tx),
    {
        let id = compute_id(sender, recipient, amount, nonce);
        Transaction {
            id,
            tx_type: TxType::Transfer,
            sender: String::from_str(sender),
            recipient: String::from_str(recipient),
            amount,
            fee,
            nonce,
            pub_key: None,
            signature: None,
        }
    }

    /// A reward of `reward` paid to `recipient`, with empty sender, zero fee and nonce.
    pub fn coinbase(recipient: &str, reward: u64) -> (tx: Transaction)
        ensures
            tx.tx_type == TxType::Coinbase,
            tx.sender@ == Seq::<char>::empty(),
            tx.recipient@ == recipient@,
            tx.amount == reward,
            tx.fee == 0,
            tx.nonce == 0,
            tx.id@ == transaction_id(Seq::empty(), recipient@, reward, 0),
            tx.pub_key is None,
            tx.signature is None,
    {
        let id = compute_id("", recipient, reward, 0);
        proof {
            reveal_strlit("");
        }
        Transaction {
            id,
            tx_type: TxType::Coinbase,
            sender: String::new(),
            recipient: String::from_str(recipient),
            amount: reward,
            fee: 0,
            nonce: 0,
            pub_key: None,
            signature: None,
        }
    }

    /// A freshly built transfer's identifier is the one its fields hash to,
    /// so recomputing it gives it back.
    pub proof fn lemma_fresh_id_recomputes(sender: Seq<char>, recipient: Seq<char>, amount: u64, fee: u64, nonce: u64, tx: Transaction)
        requires
            Self::unsigned_transfer(sender, recipient, amount, fee, nonce, tx),
        ensures
            tx.id@ == tx.spec_id(),
    {
    }

    /// The identifier that the current fields hash to.
    pub open spec fn spec_id(&self) -> Seq<char> {
        transaction_id(self.sender@, self.recipient@, self.amount, self.nonce)
    }

    /// Recomputes the identifier from the current fields.
    pub fn compute_id(&self) -> (id: String)
        ensures
            id@ == self.spec_id(),
    {
        compute_id(self.sender.as_str(), self.recipient.as_str(), self.amount, self.nonce)
    }

    pub fn is_coinbase(&self) -> (r: bool)
        ensures
            r == (self.tx_type == TxType::Coinbase),
    {
        self.tx_type == TxType::Coinbase
    }

    pub fn is_transfer(&self) -> (r: bool)
        ensures
            r == (self.tx_type == TxType::Transfer),
    {
        self.tx_type == TxType::Transfer
    }
}

} // verus!
