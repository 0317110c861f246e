use kamichain::error::WalletError;
use kamichain::{Transaction, Wallet};

#[test]
fn new_wallet_generates_a_non_empty_address() {
    let wallet = Wallet::new();
    assert!(!wallet.address().is_empty());
}

#[test]
fn two_wallets_have_different_addresses() {
    let a = Wallet::new();
    let b = Wallet::new();
    assert_ne!(a.address(), b.address());
}

#[test]
fn address_is_valid_hex() {
    let wallet = Wallet::new();
    let addr = wallet.address();
    assert!(addr.chars().all(|c| c.is_ascii_hexdigit()), "address: {}", addr);
}

#[test]
fn signing_a_transaction_sets_signature() {
    let wallet = Wallet::new();
    let mut tx = Transaction::new(&wallet.address(), "bob", 10, 0);
    wallet.sign_transaction(&mut tx).expect("signing failed");
    assert!(tx.signature.is_some());
}

#[test]
fn signature_is_valid_hex() {
    let wallet = Wallet::new();
    let mut tx = Transaction::new(&wallet.address(), "bob", 10, 0);
    wallet.sign_transaction(&mut tx).expect("signing failed");
    let sig = tx.signature.as_ref().unwrap();
    assert!(sig.chars().all(|c| c.is_ascii_hexdigit()), "sig: {}", sig);
}

#[test]
fn verification_passes_with_correct_public_key() {
    let wallet = Wallet::new();
    let mut tx = Transaction::new(&wallet.address(), "bob", 10, 0);
    wallet.sign_transaction(&mut tx).expect("signing failed");

    let result = Wallet::verify_transaction(&tx, &wallet.public_key_hex());
    assert!(result.is_ok());
    assert!(result.unwrap());
}

#[test]
fn verification_fails_with_wrong_public_key() {
    let signer = Wallet::new();
    let other = Wallet::new();

    let mut tx = Transaction::new(&signer.address(), "bob", 10, 0);
    signer.sign_transaction(&mut tx).expect("signing failed");

    let result = Wallet::verify_transaction(&tx, &other.public_key_hex());
    match result {
        Ok(valid) => assert!(!valid),
        Err(_) => {}
    }
}

#[test]
fn verification_fails_on_unsigned_transaction() {
    let wallet = Wallet::new();
    let tx = Transaction::new(&wallet.address(), "bob", 10, 0);
    let result = Wallet::verify_transaction(&tx, &wallet.public_key_hex());
    assert!(result.is_err());
}

#[test]
fn tampered_transaction_fails_verification() {
    let wallet = Wallet::new();
    let mut tx = Transaction::new(&wallet.address(), "bob", 10, 0);
    wallet.sign_transaction(&mut tx).expect("signing failed");

    tx.amount = 9999;

    let result = Wallet::verify_transaction(&tx, &wallet.public_key_hex());
    match result {
        Ok(valid) => assert!(!valid),
        Err(_) => {}
    }
}

#[test]
fn two_signatures_of_same_data_are_deterministic_or_both_valid() {
    let wallet = Wallet::new();
    let mut tx1 = Transaction::new(&wallet.address(), "bob", 10, 0);
    let mut tx2 = Transaction::new(&wallet.address(), "bob", 10, 0);

    wallet.sign_transaction(&mut tx1).unwrap();
    wallet.sign_transaction(&mut tx2).unwrap();

    assert!(Wallet::verify_transaction(&tx1, &wallet.public_key_hex()).unwrap());
    assert!(Wallet::verify_transaction(&tx2, &wallet.public_key_hex()).unwrap());
}

#[test]
fn key_hex_roundtrips_through_from_key_hex() {
    let wallet = Wallet::new();
    let hex = wallet.secret_key_hex();
    assert_eq!(hex.len(), 64);
    let again = Wallet::from_key_hex(&hex).unwrap();
    assert_eq!(again.address(), wallet.address());
    assert_eq!(again.public_key_hex(), wallet.public_key_hex());
}

#[test]
fn from_key_hex_rejects_short_key() {
    assert!(matches!(Wallet::from_key_hex("abcd"), Err(WalletError::InvalidPublicKey(_))));
}

#[test]
fn from_key_hex_rejects_odd_length() {
    assert!(matches!(Wallet::from_key_hex("abc"), Err(WalletError::HexDecode(_))));
}

#[test]
fn from_key_hex_rejects_bad_character() {
    let text = "zz".repeat(32);
    assert!(matches!(Wallet::from_key_hex(&text), Err(WalletError::HexDecode(_))));
}

#[test]
fn known_secret_gives_known_public_key() {
    // RFC 8032, test 1
    let w = Wallet::from_key_hex("9d61b19deffd5a60ba844af492ec2cc44449c5697b326919703bac031cae7f60").unwrap();
    assert_eq!(w.public_key_hex(), "d75a980182b10ab7d54bfed3c964073a0ee172f3daa62325af021a68f707511a");
}

#[test]
fn address_is_sha256_of_public_key() {
    let w = Wallet::from_key_hex("9d61b19deffd5a60ba844af492ec2cc44449c5697b326919703bac031cae7f60").unwrap();
    let pk = w.public_key_hex();
    let bytes: Vec<u8> = (0..32).map(|i| u8::from_str_radix(&pk[2 * i..2 * i + 2], 16).unwrap()).collect();
    assert_eq!(w.address(), kamichain::codec::sha256_hex(&bytes));
    assert_eq!(w.address().len(), 64);
}

#[test]
fn verification_reports_sender_mismatch() {
    let signer = Wallet::new();
    let mut tx = Transaction::new("someone_else", "bob", 10, 0);
    signer.sign_transaction(&mut tx).unwrap();
    match Wallet::verify_transaction(&tx, &signer.public_key_hex()) {
        Err(WalletError::InvalidPublicKey(m)) => assert_eq!(m, "Public key does not match sender address"),
        other => panic!("unexpected {:?}", other),
    }
}

#[test]
fn verification_rejects_malformed_key_hex() {
    let wallet = Wallet::new();
    let mut tx = Transaction::new(&wallet.address(), "bob", 10, 0);
    wallet.sign_transaction(&mut tx).unwrap();
    assert!(matches!(Wallet::verify_transaction(&tx, "xyz"), Err(WalletError::HexDecode(_))));
    assert!(matches!(Wallet::verify_transaction(&tx, "abcd"), Err(WalletError::InvalidPublicKey(_))));
}

#[test]
fn tampered_signature_fails_verification() {
    let wallet = Wallet::new();
    let mut tx = Transaction::new(&wallet.address(), "bob", 10, 0);
    wallet.sign_transaction(&mut tx).unwrap();
    let sig = tx.signature.clone().unwrap();
    let flipped = if sig.starts_with('0') { format!("1{}", &sig[1..]) } else { format!("0{}", &sig[1..]) };
    tx.signature = Some(flipped);
    assert!(matches!(
        Wallet::verify_transaction(&tx, &wallet.public_key_hex()),
        Err(WalletError::VerificationFailed)
    ));
}

#[test]
fn signed_transfer_verifies_and_carries_key() {
    let wallet = Wallet::new();
    let tx = wallet.signed_transfer("bob", 3, 1);
    assert_eq!(tx.sender, wallet.address());
    assert_eq!(tx.pub_key, Some(wallet.public_key_hex()));
    assert!(Wallet::verify_transaction(&tx, &wallet.public_key_hex()).unwrap());
}

#[test]
fn hex_error_text_quotes_the_bad_character() {
    match Wallet::from_key_hex(&"zz".repeat(32)) {
        Err(e) => assert_eq!(e.message(), "Hex decode error: Invalid character 'z' at position 0"),
        Ok(_) => panic!("decoded bad hex"),
    }
    match Wallet::from_key_hex("abc") {
        Err(e) => assert_eq!(e.message(), "Hex decode error: Odd number of digits"),
        Ok(_) => panic!("decoded odd hex"),
    }
}
