//! Wallets: an Ed25519 signing key, the address derived from it, and the
//! signing and checking of transfers.
use crate::codec::{digest_hex, hex_lower, is_lower_hex_text, lemma_hex_lower_is_hex, push_decimal, push_utf8, sha256_hex};
use crate::error::{HexError, WalletError};
use crate::transaction::Transaction;
use ed25519_dalek::{Signature, Signer, SigningKey, Verifier, VerifyingKey};
use rand::rngs::OsRng;
use vstd::prelude::*;
use vstd::string::StringExecFns;

verus! {

// ---------------------------------------------------------------------------
// Hexadecimal text, as the `hex` crate reads and writes it.

/// The value of one hexadecimal digit byte, in either case.
pub open spec fn hex_value(b: u8) -> Option<u8> {
    if 48 <= b <= 57 {
        Some((b - 48) as u8)
    } else if 97 <= b <= 102 {
        Some((b - 87) as u8)
    } else if 65 <= b <= 70 {
        Some((b - 55) as u8)
    } else {
        None
    }
}

/// `k` is the position of the first byte of `text` that is not a hex digit.
pub open spec fn first_non_hex(text: Seq<u8>, k: int) -> bool {
    &&& 0 <= k < text.len()
    &&& hex_value(text[k]) is None
    &&& forall|j: int| 0 <= j < k ==> #[trigger] hex_value(text[j]) is Some
}

/// The bytes spelled by pairs of hex digits.
pub open spec fn hex_pairs(text: Seq<u8>) -> Seq<u8> {
    Seq::new(
        text.len() / 2,
        |k: int| (hex_value(text[2 * k])->0 * 16 + hex_value(text[2 * k + 1])->0) as u8,
    )
}

/// What `hex::decode` gives for the bytes of a text: `OddLength` for an odd
/// number of bytes, else the first byte that is not a hex digit, else the
/// decoded bytes.
pub open spec fn hex_decode_spec(text: Seq<u8>) -> Result<Seq<u8>, HexError> {
    if text.len() % 2 != 0 {
        Err(HexError::OddLength)
    } else if exists|k: int| first_non_hex(text, k) {
        let k = choose|k: int| first_non_hex(text, k);
        Err(HexError::InvalidHexCharacter { c: text[k] as char, index: k as usize })
    } else {
        Ok(hex_pairs(text))
    }
}

/// Encodes with `hex::encode`. Trusted: the text is two lowercase hex digits
/// per byte, most significant first.
#[verifier::external_body]
fn hex_encode(bytes: &[u8]) -> (s: String)
    ensures
        s@ == hex_lower(bytes@),
{
    hex::encode(bytes)
}

/// Decodes with `hex::decode`, mapping `hex::FromHexError` to `HexError`
/// variant for variant. Trusted: the outcome is `hex_decode_spec` of the
/// text's bytes, as the crate's source shows (odd length first, then the
/// first non-digit byte, upper and lower case both accepted).
#[verifier::external_body]
fn hex_decode(text: &str) -> (r: Result<Vec<u8>, HexError>)
    ensures
        match r {
            Ok(v) => hex_decode_spec(vstd::utf8::encode_utf8(text@)) == Ok::<Seq<u8>, HexError>(v@),
            Err(e) => hex_decode_spec(vstd::utf8::encode_utf8(text@)) == Err::<Seq<u8>, HexError>(e),
        },
{
    match hex::decode(text) {
        Ok(v) => Ok(v),
        Err(hex::FromHexError::InvalidHexCharacter { c, index }) => Err(
            HexError::InvalidHexCharacter { c, index },
        ),
        Err(hex::FromHexError::OddLength) => Err(HexError::OddLength),
        Err(hex::FromHexError::InvalidStringLength) => Err(HexError::InvalidStringLength),
    }
}

/// The byte of each lowercase hex digit reads back as its value.
proof fn lemma_hex_digit_value(d: int)
    requires
        0 <= d < 16,
    ensures
        '\0' <= crate::codec::hex_digit(d) <= '\u{7f}',
        hex_value(crate::codec::hex_digit(d) as u8) == Some(d as u8),
{
}

/// Decoding the hex text of some bytes gives those bytes back.
pub proof fn lemma_hex_roundtrip(b: Seq<u8>)
    ensures
        hex_decode_spec(vstd::utf8::encode_utf8(hex_lower(b))) == Ok::<Seq<u8>, HexError>(b),
{
    let h = hex_lower(b);
    assert forall|i: int| 0 <= i < h.len() implies '\0' <= #[trigger] h[i] <= '\u{7f}'
        && hex_value(h[i] as u8) == Some(crate::codec::nibble(b, i) as u8) by {
        assert(0 <= crate::codec::nibble(b, i) < 16);
        lemma_hex_digit_value(crate::codec::nibble(b, i));
    }
    assert(vstd::utf8::is_ascii_chars(h));
    vstd::utf8::is_ascii_chars_encode_utf8(h);
    let t = vstd::utf8::encode_utf8(h);
    assert forall|i: int| 0 <= i < t.len() implies #[trigger] hex_value(t[i]) == Some(
        crate::codec::nibble(b, i) as u8,
    ) by {
        assert(h[i] as u8 == t[i]);
    }
    assert(!exists|k: int| first_non_hex(t, k));
    assert(t.len() % 2 == 0);
    assert forall|k: int| 0 <= k < b.len() implies #[trigger] hex_pairs(t)[k] == b[k] by {
        assert(hex_value(t[2 * k]) == Some(crate::codec::nibble(b, 2 * k) as u8));
        assert(hex_value(t[2 * k + 1]) == Some(crate::codec::nibble(b, 2 * k + 1) as u8));
    }
    assert(hex_pairs(t) =~= b);
}

// ---------------------------------------------------------------------------
// Ed25519, through `ed25519_dalek`.

/// The 32-byte public key of an Ed25519 secret key.
pub uninterp spec fn ed25519_public_key(secret: Seq<u8>) -> Seq<u8>;

/// The 64-byte Ed25519 signature of `message` under `secret`.
pub uninterp spec fn ed25519_signature(secret: Seq<u8>, message: Seq<u8>) -> Seq<u8>;

/// Whether 32 bytes decode to an Ed25519 public key.
pub uninterp spec fn ed25519_key_accepted(public: Seq<u8>) -> bool;

/// Whether `signature` is a valid Ed25519 signature of `message` under `public`.
pub uninterp spec fn ed25519_verifies(public: Seq<u8>, message: Seq<u8>, signature: Seq<u8>) -> bool;

/// Draws a fresh secret key with `SigningKey::generate` from the operating
/// system's random source. Trusted: only that the key is 32 bytes long.
#[verifier::external_body]
fn generate_secret() -> (secret: Vec<u8>)
    ensures
        secret@.len() == 32,
{
    SigningKey::generate(&mut OsRng).to_bytes().to_vec()
}

/// The public key of a secret key, with `SigningKey::verifying_key`.
/// Trusted: it is the named public key, 32 bytes long, and it decodes again
/// as a public key.
#[verifier::external_body]
fn public_key_of(secret: &[u8]) -> (public: Vec<u8>)
    requires
        secret@.len() == 32,
    ensures
        public@ == ed25519_public_key(secret@),
        public@.len() == 32,
        ed25519_key_accepted(public@),
{
    let bytes: [u8; 32] = secret.try_into().unwrap();
    SigningKey::from_bytes(&bytes).verifying_key().to_bytes().to_vec()
}

/// Signs `message` with `SigningKey::sign`. Trusted: the signature is the
/// named (deterministic) Ed25519 signature, 64 bytes long, and it verifies
/// under the key's public key.
#[verifier::external_body]
fn sign_bytes(secret: &[u8], message: &[u8]) -> (signature: Vec<u8>)
    requires
        secret@.len() == 32,
    ensures
        signature@ == ed25519_signature(secret@, message@),
        signature@.len() == 64,
        ed25519_verifies(ed25519_public_key(secret@), message@, signature@),
{
    let bytes: [u8; 32] = secret.try_into().unwrap();
    SigningKey::from_bytes(&bytes).sign(message).to_bytes().to_vec()
}

/// Whether 32 bytes decode to a public key, with `VerifyingKey::from_bytes`.
#[verifier::external_body]
fn key_accepted(public: &[u8]) -> (r: bool)
    requires
        public@.len() == 32,
    ensures
        r == ed25519_key_accepted(public@),
{
    let bytes: [u8; 32] = public.try_into().unwrap();
    VerifyingKey::from_bytes(&bytes).is_ok()
}

/// Checks a signature with `VerifyingKey::verify`. Trusted: the answer is
/// the named verdict for these bytes.
#[verifier::external_body]
fn verify_bytes(public: &[u8], message: &[u8], signature: &[u8]) -> (r: bool)
    requires
        public@.len() == 32,
        signature@.len() == 64,
        ed25519_key_accepted(public@),
    ensures
        r == ed25519_verifies(public@, message@, signature@),
{
    let key_bytes: [u8; 32] = public.try_into().unwrap();
    let sig_bytes: [u8; 64] = signature.try_into().unwrap();
    VerifyingKey::from_bytes(&key_bytes).unwrap().verify(message, &Signature::from_bytes(&sig_bytes)).is_ok()
}

// ---------------------------------------------------------------------------
// Wallets.

/// The address of a public key: the hex SHA-256 digest of its bytes.
pub open spec fn address_of(public: Seq<u8>) -> Seq<char> {
    digest_hex(public)
}

/// The bytes a wallet signs for a transaction: sender, recipient, decimal
/// amount and identifier.
pub open spec fn signing_message(tx: Transaction) -> Seq<u8> {
    vstd::utf8::encode_utf8(tx.sender@) + vstd::utf8::encode_utf8(tx.recipient@)
        + crate::codec::decimal(tx.amount as nat) + vstd::utf8::encode_utf8(tx.id@)
}

/// The signed bytes tell recipients apart: two transactions with the same
/// sender, amount and identifier sign the same bytes only when their
/// recipients are the same text. A transfer whose recipient is changed
/// after signing is checked against a message its signature was not made for.
pub proof fn lemma_signing_message_fixes_recipient(t1: Transaction, t2: Transaction)
    requires
        t1.sender@ == t2.sender@,
        t1.amount == t2.amount,
        t1.id@ == t2.id@,
        signing_message(t1) == signing_message(t2),
    ensures
        t1.recipient@ == t2.recipient@,
{
    let s = vstd::utf8::encode_utf8(t1.sender@);
    let tail = crate::codec::decimal(t1.amount as nat) + vstd::utf8::encode_utf8(t1.id@);
    let r1 = vstd::utf8::encode_utf8(t1.recipient@);
    let r2 = vstd::utf8::encode_utf8(t2.recipient@);
    let m1 = signing_message(t1);
    let m2 = signing_message(t2);
    assert(m1 =~= s + r1 + tail);
    assert(m2 =~= s + r2 + tail);
    assert(r1.len() == r2.len());
    assert(r1 =~= m1.subrange(s.len() as int, (s.len() + r1.len()) as int));
    assert(r2 =~= m2.subrange(s.len() as int, (s.len() + r2.len()) as int));
    vstd::utf8::encode_utf8_decode_utf8(t1.recipient@);
    vstd::utf8::encode_utf8_decode_utf8(t2.recipient@);
}

fn message_bytes(tx: &Transaction) -> (m: Vec<u8>)
    ensures
        m@ == signing_message(*tx),
{
    let mut data: Vec<u8> = Vec::new();
    push_utf8(&mut data, tx.sender.as_str());
    push_utf8(&mut data, tx.recipient.as_str());
    push_decimal(&mut data, tx.amount);
    push_utf8(&mut data, tx.id.as_str());
    assert(data@ =~= signing_message(*tx));
    data
}

/// Whether checking `tx` against the hex public key `key_hex` succeeds: the
/// transaction carries a signature, the key is 32 bytes of hex, the sender
/// is the key's address, the key is a valid point, and the signature is 64
/// bytes of hex that verify over the signing message.
pub open spec fn transaction_verifies(tx: Transaction, key_hex: Seq<char>) -> bool {
    &&& tx.signature matches Some(sig_hex)
    &&& hex_decode_spec(vstd::utf8::encode_utf8(key_hex)) matches Ok(public)
    &&& public.len() == 32
    &&& address_of(public) == tx.sender@
    &&& ed25519_key_accepted(public)
    &&& hex_decode_spec(vstd::utf8::encode_utf8(sig_hex@)) matches Ok(sig)
    &&& sig.len() == 64
    &&& ed25519_verifies(public, signing_message(tx), sig)
}

/// The error reported when checking `tx` against `key_hex` fails: the first
/// failing step decides.
pub open spec fn verification_error(e: WalletError, tx: Transaction, key_hex: Seq<char>) -> bool {
    match tx.signature {
        None => e is MissingSignature,
        Some(sig_hex) => match hex_decode_spec(vstd::utf8::encode_utf8(key_hex)) {
            Err(h) => e == WalletError::HexDecode(h),
            Ok(public) => if public.len() != 32 {
                e matches WalletError::InvalidPublicKey(m) && m@ == "Key must be 32 bytes"@
            } else if address_of(public) != tx.sender@ {
                e matches WalletError::InvalidPublicKey(m) && m@
                    == "Public key does not match sender address"@
            } else if !ed25519_key_accepted(public) {
                e matches WalletError::InvalidPublicKey(m) && m@ == "Invalid public key bytes"@
            } else {
                match hex_decode_spec(vstd::utf8::encode_utf8(sig_hex@)) {
                    Err(h) => e == WalletError::HexDecode(h),
                    Ok(_) => e is VerificationFailed,
                }
            },
        },
    }
}

/// The text of the error reported when checking `tx` against `key_hex` fails.
pub open spec fn verification_failure_text(tx: Transaction, key_hex: Seq<char>) -> Seq<char> {
    match tx.signature {
        None => "Missing signature"@,
        Some(sig_hex) => match hex_decode_spec(vstd::utf8::encode_utf8(key_hex)) {
            Err(h) => "Hex decode error: "@ + h.text(),
            Ok(public) => if public.len() != 32 {
                "Invalid public key: "@ + "Key must be 32 bytes"@
            } else if address_of(public) != tx.sender@ {
                "Invalid public key: "@ + "Public key does not match sender address"@
            } else if !ed25519_key_accepted(public) {
                "Invalid public key: "@ + "Invalid public key bytes"@
            } else {
                match hex_decode_spec(vstd::utf8::encode_utf8(sig_hex@)) {
                    Err(h) => "Hex decode error: "@ + h.text(),
                    Ok(_) => "Verification failed"@,
                }
            },
        },
    }
}

/// An Ed25519 key pair, kept as its 32 secret bytes.
pub struct Wallet {
    secret: Vec<u8>,
}

impl View for Wallet {
    type V = Seq<u8>;

    /// The secret key bytes.
    closed spec fn view(&self) -> Seq<u8> {
        self.secret@
    }
}

impl Wallet {
    #[verifier::type_invariant]
    spec fn key_length(self) -> bool {
        self.secret@.len() == 32
    }

    /// The wallet's 32-byte public key.
    pub open spec fn public_key(&self) -> Seq<u8> {
        ed25519_public_key(self@)
    }

    /// The wallet's address.
    pub open spec fn spec_address(&self) -> Seq<char> {
        address_of(self.public_key())
    }

    /// A wallet with a freshly drawn key.
    pub fn new() -> (w: Wallet)
        ensures
            w@.len() == 32,
    {
        Wallet { secret: generate_secret() }
    }

    /// The wallet whose secret key is written as hex text, as a key file holds
    /// it; the text must spell exactly 32 bytes.
    pub fn from_key_hex(text: &str) -> (r: Result<Wallet, WalletError>)
        ensures
            match hex_decode_spec(vstd::utf8::encode_utf8(text@)) {
                Err(h) => r matches Err(e) && e == WalletError::HexDecode(h),
                Ok(bytes) => if bytes.len() == 32 {
                    r matches Ok(w) && w@ == bytes
                } else {
                    r matches Err(e) && e matches WalletError::InvalidPublicKey(m) && m@
                        == "Key must be 32 bytes"@
                },
            },
    {
        match hex_decode(text) {
            Err(h) => Err(WalletError::HexDecode(h)),
            Ok(bytes) => {
                if bytes.len() != 32 {
                    Err(WalletError::InvalidPublicKey(String::from_str("Key must be 32 bytes")))
                } else {
                    Ok(Wallet { secret: bytes })
                }
            },
        }
    }

    /// The secret key as hex text, as a key file holds it.
    pub fn secret_key_hex(&self) -> (s: String)
        ensures
            s@ == hex_lower(self@),
            s@.len() == 64,
            is_lower_hex_text(s@),
    {
        proof {
            use_type_invariant(self);
            lemma_hex_lower_is_hex(self@);
        }
        hex_encode(self.secret.as_slice())
    }

    /// The address: the hex SHA-256 digest of the public key.
    pub fn address(&self) -> (a: String)
        ensures
            a@ == self.spec_address(),
            a@.len() == 64,
            is_lower_hex_text(a@),
    {
        proof {
            use_type_invariant(self);
        }
        let public = public_key_of(self.secret.as_slice());
        sha256_hex(public.as_slice())
    }

    /// The public key as hex text.
    pub fn public_key_hex(&self) -> (s: String)
        ensures
            s@ == hex_lower(self.public_key()),
            s@.len() == 64,
            is_lower_hex_text(s@),
    {
        proof {
            use_type_invariant(self);
        }
        let public = public_key_of(self.secret.as_slice());
        proof {
            lemma_hex_lower_is_hex(public@);
        }
        hex_encode(public.as_slice())
    }

    /// Signs the transaction's sender, recipient, amount and identifier, and
    /// stores the hex signature and the hex public key in it.
    pub fn sign_transaction(&self, tx: &mut Transaction) -> (r: Result<(), WalletError>)
        ensures
            r is Ok,
            final(tx).id == old(tx).id,
            final(tx).tx_type == old(tx).tx_type,
            final(tx).sender == old(tx).sender,
            final(tx).recipient == old(tx).recipient,
            final(tx).amount == old(tx).amount,
            final(tx).fee == old(tx).fee,
            final(tx).nonce == old(tx).nonce,
            final(tx).signature matches Some(s) && s@ == hex_lower(
                ed25519_signature(self@, signing_message(*old(tx))),
            ) && s@.len() == 128 && is_lower_hex_text(s@),
            final(tx).pub_key matches Some(k) && k@ == hex_lower(self.public_key()),
            old(tx).sender@ == self.spec_address() ==> transaction_verifies(
                *final(tx),
                hex_lower(self.public_key()),
            ),
    {
        proof {
            use_type_invariant(self);
        }
        let message = message_bytes(tx);
        let public = public_key_of(self.secret.as_slice());
        let signature = sign_bytes(self.secret.as_slice(), message.as_slice());
        tx.signature = Some(hex_encode(signature.as_slice()));
        tx.pub_key = Some(hex_encode(public.as_slice()));
        proof {
            lemma_hex_roundtrip(public@);
            lemma_hex_roundtrip(signature@);
            lemma_hex_lower_is_hex(signature@);
            assert(signing_message(*tx) == signing_message(*old(tx)));
        }
        Ok(())
    }

    /// A new transfer of `amount` with fee `fee` from the wallet's address to
    /// `recipient`, signed by the wallet.
    pub fn signed_transfer(&self, recipient: &str, amount: u64, fee: u64) -> (tx: Transaction)
        ensures
            tx.tx_type == crate::transaction::TxType::Transfer,
            tx.sender@ == self.spec_address(),
            tx.recipient@ == recipient@,
            tx.amount == amount,
            tx.fee == fee,
            tx.id@ == crate::transaction::transaction_id(self.spec_address(), recipient@, amount, tx.nonce),
            tx.signature matches Some(s) && s@ == hex_lower(ed25519_signature(self@, signing_message(tx))),
            tx.pub_key matches Some(k) && k@ == hex_lower(self.public_key()),
            transaction_verifies(tx, hex_lower(self.public_key())),
    {
        let address = self.address();
        let mut tx = Transaction::new(address.as_str(), recipient, amount, fee);
        let _ = self.sign_transaction(&mut tx);
        tx
    }

    /// Checks that `tx` is signed by the key written in `key_hex` and that
    /// this key belongs to the sender.
    pub fn verify_transaction(tx: &Transaction, key_hex: &str) -> (r: Result<bool, WalletError>)
        ensures
            r is Ok <==> transaction_verifies(*tx, key_hex@),
            r matches Ok(b) ==> b,
            r matches Err(e) ==> verification_error(e, *tx, key_hex@),
            r matches Err(e) ==> e.text() == verification_failure_text(*tx, key_hex@),
    {
        let sig_hex = match &tx.signature {
            Some(s) => s,
            None => {
                return Err(WalletError::MissingSignature);
            },
        };
        let public = match hex_decode(key_hex) {
            Ok(v) => v,
            Err(h) => {
                return Err(WalletError::HexDecode(h));
            },
        };
        if public.len() != 32 {
            return Err(WalletError::InvalidPublicKey(String::from_str("Key must be 32 bytes")));
        }
        let derived = sha256_hex(public.as_slice());
        if derived != tx.sender {
            return Err(
                WalletError::InvalidPublicKey(
                    String::from_str("Public key does not match sender address"),
                ),
            );
        }
        if !key_accepted(public.as_slice()) {
            return Err(WalletError::InvalidPublicKey(String::from_str("Invalid public key bytes")));
        }
        let message = message_bytes(tx);
        let signature = match hex_decode(sig_hex.as_str()) {
            Ok(v) => v,
            Err(h) => {
                return Err(WalletError::HexDecode(h));
            },
        };
        if signature.len() != 64 {
            return Err(WalletError::VerificationFailed);
        }
        if !verify_bytes(public.as_slice(), message.as_slice(), signature.as_slice()) {
            return Err(WalletError::VerificationFailed);
        }
        Ok(true)
    }
}

impl Default for Wallet {
    fn default() -> (w: Wallet)
        ensures
            w@.len() == 32,
    {
        Wallet::new()
    }
}

} // verus!
