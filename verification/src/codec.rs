//! Byte and text encodings shared by the whole library: SHA-256 digests,
//! lowercase hexadecimal and decimal renderings of integers.
use sha2::{Digest, Sha256};
use vstd::prelude::*;
use vstd::string::StringExecFns;
use vstd::string::StrSliceExecFns;

verus! {

/// The SHA-256 digest of a byte sequence.
pub uninterp spec fn sha256_digest(data: Seq<u8>) -> Seq<u8>;

/// Hashes `data` with `sha2::Sha256::digest`.
/// Trusted: the result is the named digest of `data`, and it is 32 bytes long
/// (SHA-256 always yields 256 bits).
#[verifier::external_body]
pub(crate) fn sha256(data: &[u8]) -> (digest: Vec<u8>)
    ensures
        digest@ == sha256_digest(data@),
        digest@.len() == 32,
{
    Sha256::digest(data).to_vec()
}

/// `String::push` appends one character.
pub assume_specification[ String::push ](s: &mut String, ch: char)
    ensures
        final(s)@ == old(s)@.push(ch),
;

/// The lowercase hexadecimal digit for a value below 16.
pub open spec fn hex_digit(d: int) -> char {
    if d < 10 {
        (48 + d) as char
    } else {
        (87 + d) as char
    }
}

/// The `i`-th four-bit group of `b`, most significant group of each byte first.
pub open spec fn nibble(b: Seq<u8>, i: int) -> int {
    if i % 2 == 0 {
        b[i / 2] as int / 16
    } else {
        b[i / 2] as int % 16
    }
}

/// Lowercase hexadecimal text of a byte sequence: two digits per byte.
pub open spec fn hex_lower(b: Seq<u8>) -> Seq<char> {
    Seq::new(2 * b.len(), |i: int| hex_digit(nibble(b, i)))
}

/// Whether every character of `s` is a lowercase hexadecimal digit.
pub open spec fn is_lower_hex_text(s: Seq<char>) -> bool {
    forall|i: int| 0 <= i < s.len() ==> ('0' <= #[trigger] s[i] <= '9' || 'a' <= s[i] <= 'f')
}

/// Hexadecimal text is made of lowercase hexadecimal digits, two per byte.
pub proof fn lemma_hex_lower_is_hex(b: Seq<u8>)
    ensures
        hex_lower(b).len() == 2 * b.len(),
        is_lower_hex_text(hex_lower(b)),
{
    let h = hex_lower(b);
    assert forall|i: int| 0 <= i < h.len() implies ('0' <= #[trigger] h[i] <= '9' || 'a' <= h[i] <= 'f') by {
        let d = nibble(b, i);
        assert(0 <= d < 16);
    }
}

fn hex_char(d: u8) -> (c: char)
    requires
        d < 16,
    ensures
        c == hex_digit(d as int),
{
    if d < 10 {
        (48u8 + d) as char
    } else {
        (87u8 + d) as char
    }
}

/// Renders `bytes` as lowercase hexadecimal text.
pub fn to_hex(bytes: &[u8]) -> (s: String)
    ensures
        s@ == hex_lower(bytes@),
        s@.len() == 2 * bytes@.len(),
        is_lower_hex_text(s@),
{
    proof {
        lemma_hex_lower_is_hex(bytes@);
    }
    let mut s = String::new();
    let n = bytes.len();
    for i in 0..n
        invariant
            n == bytes@.len(),
            s@.len() == 2 * i,
            forall|k: int| 0 <= k < 2 * i ==> s@[k] == hex_digit(nibble(bytes@, k)),
    {
        let b = bytes[i];
        s.push(hex_char(b / 16));
        s.push(hex_char(b % 16));
        assert(nibble(bytes@, 2 * i as int) == b / 16);
        assert(nibble(bytes@, 2 * i + 1) == b % 16);
    }
    assert(s@ =~= hex_lower(bytes@));
    s
}


/// ASCII bytes of the decimal numeral of `n`, without leading zeros.
pub open spec fn decimal(n: nat) -> Seq<u8>
    decreases n,
{
    if n < 10 {
        seq![(48 + n) as u8]
    } else {
        decimal(n / 10).push((48 + n % 10) as u8)
    }
}

/// Characters of the decimal numeral of `n`, without leading zeros.
pub open spec fn decimal_text(n: nat) -> Seq<char>
    decreases n,
{
    if n < 10 {
        seq![(48 + n) as char]
    } else {
        decimal_text(n / 10).push((48 + n % 10) as char)
    }
}

/// Appends the decimal numeral of `n` to `out`, as `n.to_string().as_bytes()` would.
pub fn push_decimal(out: &mut Vec<u8>, n: u64)
    ensures
        final(out)@ == old(out)@ + decimal(n as nat),
    decreases n,
{
    if n >= 10 {
        push_decimal(out, n / 10);
    }
    out.push(48u8 + (n % 10) as u8);
    assert(final(out)@ =~= old(out)@ + decimal(n as nat));
}

/// Appends the decimal numeral of `n` to `s`.
pub fn push_decimal_text(s: &mut String, n: u64)
    ensures
        final(s)@ == old(s)@ + decimal_text(n as nat),
    decreases n,
{
    if n >= 10 {
        push_decimal_text(s, n / 10);
    }
    s.push((48u8 + (n % 10) as u8) as char);
    assert(final(s)@ =~= old(s)@ + decimal_text(n as nat));
}

/// Appends the UTF-8 encoding of `text` to `out`.
pub fn push_utf8(out: &mut Vec<u8>, text: &str)
    ensures
        final(out)@ == old(out)@ + vstd::utf8::encode_utf8(text@),
{
    let bytes = text.as_bytes();
    let n = bytes.len();
    let ghost start = out@;
    for i in 0..n
        invariant
            n == bytes@.len(),
            bytes@ == vstd::utf8::encode_utf8(text@),
            out@ == start + bytes@.take(i as int),
    {
        out.push(bytes[i]);
        assert(bytes@.take(i + 1) =~= bytes@.take(i as int).push(bytes@[i as int]));
    }
    assert(bytes@.take(n as int) =~= bytes@);
}

/// Appends `text` to `s`.
pub fn push_text(s: &mut String, text: &str)
    ensures
        final(s)@ == old(s)@ + text@,
{
    s.append(text);
}


/// Lowercase hexadecimal text of the SHA-256 digest of `data`.
pub open spec fn digest_hex(data: Seq<u8>) -> Seq<char> {
    hex_lower(sha256_digest(data))
}

/// Hashes `data` and renders the digest as lowercase hexadecimal text,
/// as `format!("{:x}", Sha256::digest(data))` does.
pub fn sha256_hex(data: &[u8]) -> (s: String)
    ensures
        s@ == digest_hex(data@),
        s@.len() == 64,
        is_lower_hex_text(s@),
{
    let digest = sha256(data);
    to_hex(digest.as_slice())
}

/// `true` when `s` begins with `prefix`.
pub open spec fn starts_with(s: Seq<char>, prefix: Seq<char>) -> bool {
    prefix.len() <= s.len() && s.take(prefix.len() as int) == prefix
}

/// The text made of `n` zero digits.
pub open spec fn zeros(n: nat) -> Seq<char> {
    Seq::new(n, |i: int| '0')
}

/// Whether `s` begins with `n` zero digits, checked character by character.
pub fn has_zero_prefix(s: &str, n: usize) -> (r: bool)
    ensures
        r == starts_with(s@, zeros(n as nat)),
{
    let len = s.unicode_len();
    if n > len {
        return false;
    }
    let mut i: usize = 0;
    while i < n
        invariant
            n <= len == s@.len(),
            i <= n,
            forall|k: int| 0 <= k < i ==> s@[k] == '0',
        decreases n - i,
    {
        if s.get_char(i) != '0' {
            assert(s@.take(n as int)[i as int] != zeros(n as nat)[i as int]);
            return false;
        }
        i = i + 1;
    }
    assert(s@.take(n as int) =~= zeros(n as nat));
    true
}

} // verus!
