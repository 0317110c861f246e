use kamichain::codec::{has_zero_prefix, push_decimal, push_decimal_text, push_text, push_utf8, sha256_hex, to_hex};
use kamichain::storage::Storage;

#[test]
fn to_hex_is_lowercase_two_digits_per_byte() {
    assert_eq!(to_hex(&[]), "");
    assert_eq!(to_hex(&[0x00, 0x0f, 0xa0, 0xff]), "000fa0ff");
}

#[test]
fn sha256_hex_of_known_inputs() {
    assert_eq!(sha256_hex(b""), "e3b0c44298fc1c149afbf4c8996fb92427ae41e4649b934ca495991b7852b855");
    assert_eq!(sha256_hex(b"abc"), "ba7816bf8f01cfea414140de5dae2223b00361a396177a9cb410ff61f20015ad");
}

#[test]
fn decimals_are_written_without_padding() {
    let mut v = Vec::new();
    push_decimal(&mut v, 0);
    push_decimal(&mut v, 1234);
    push_decimal(&mut v, u64::MAX);
    assert_eq!(String::from_utf8(v).unwrap(), format!("01234{}", u64::MAX));
    let mut s = String::from("n=");
    push_decimal_text(&mut s, 42);
    assert_eq!(s, "n=42");
}

#[test]
fn utf8_and_text_pushes_copy_the_text() {
    let mut v = vec![1u8];
    push_utf8(&mut v, "hé");
    assert_eq!(v, vec![1, b'h', 0xc3, 0xa9]);
    let mut s = String::from("a");
    push_text(&mut s, "βc");
    assert_eq!(s, "aβc");
}

#[test]
fn zero_prefix_checks_leading_zeros() {
    assert!(has_zero_prefix("00ab", 2));
    assert!(!has_zero_prefix("0a0b", 2));
    assert!(has_zero_prefix("abc", 0));
    assert!(!has_zero_prefix("0", 2));
}

#[test]
fn storage_keeps_its_path() {
    let s = Storage::new("/tmp/kami/chain.json");
    assert_eq!(s.path(), "/tmp/kami/chain.json");
}
