//! The hashing utility: the text a block's fields are written to, and the
//! SHA-256 digest of that text rendered as lowercase hex.

use vstd::prelude::*;

verus! {

/// The lowercase hex rendering of the SHA-256 digest of the UTF-8 bytes of `s`.
pub uninterp spec fn sha256_hex_of(s: Seq<char>) -> Seq<char>;

/// The decimal digit character for `d` (`d < 10`).
pub open spec fn digit_char(d: nat) -> char {
    seq!['0', '1', '2', '3', '4', '5', '6', '7', '8', '9'][d as int]
}

/// The decimal rendering of `n`, without sign or leading zeros.
pub open spec fn decimal(n: nat) -> Seq<char>
    decreases n,
{
    if n < 10 {
        seq![digit_char(n)]
    } else {
        decimal(n / 10).push(digit_char(n % 10))
    }
}

/// Relies on sha2's `Sha256::digest` over the string's bytes, and on the
/// `LowerHex` rendering of the digest: the result depends on `input` alone.
#[verifier::external_body]
pub(crate) fn sha256_hex(input: &str) -> (r: String)
    ensures
        r@ == sha256_hex_of(input@),
{
    format!("{:x}", <sha2::Sha256 as sha2::Digest>::digest(input.as_bytes()))
}

/// The one-character text of the decimal digit `d`.
fn digit_text(d: u64) -> (r: &'static str)
    requires
        d < 10,
    ensures
        r@ == seq![digit_char(d as nat)],
{
    let digits: &'static str = "0123456789";
    proof {
        reveal_strlit("0123456789");
    }
    let r = digits.substring_char(d as usize, (d + 1) as usize);
    assert(r@ =~= seq![digit_char(d as nat)]);
    r
}

/// Appends the decimal rendering of `n` to `s`.
pub fn push_decimal(s: &mut String, n: u64)
    ensures
        final(s)@ == old(s)@ + decimal(n as nat),
    decreases n,
{
    if n >= 10 {
        push_decimal(s, n / 10);
    }
    s.append(digit_text(n % 10));
    assert(s@ =~= old(s)@ + decimal(n as nat));
}

/// The text a block's fields are hashed from: index, timestamp, previous
/// hash, payload and nonce, in that order, with no delimiters between them.
pub open spec fn block_text(
    index: u64,
    timestamp: u64,
    previous_hash: Seq<char>,
    data: Seq<char>,
    nonce: u64,
) -> Seq<char> {
    decimal(index as nat) + decimal(timestamp as nat) + previous_hash + data + decimal(nonce as nat)
}

/// Writes a block's fields to the text that is hashed.
pub fn write_block_text(
    index: u64,
    timestamp: u64,
    previous_hash: &str,
    data: &str,
    nonce: u64,
) -> (r: String)
    ensures
        r@ == block_text(index, timestamp, previous_hash@, data@, nonce),
{
    let mut text = String::new();
    push_decimal(&mut text, index);
    push_decimal(&mut text, timestamp);
    text.append(previous_hash);
    text.append(data);
    push_decimal(&mut text, nonce);
    assert(text@ =~= block_text(index, timestamp, previous_hash@, data@, nonce));
    text
}

/// The hex digest of a block with the given fields.
pub open spec fn digest_of_fields(
    index: u64,
    timestamp: u64,
    previous_hash: Seq<char>,
    data: Seq<char>,
    nonce: u64,
) -> Seq<char> {
    sha256_hex_of(block_text(index, timestamp, previous_hash, data, nonce))
}

/// Hashes a block's fields: the lowercase hex SHA-256 digest of their text.
pub fn hash_fields(
    index: u64,
    timestamp: u64,
    previous_hash: &str,
    data: &str,
    nonce: u64,
) -> (r: String)
    ensures
        r@ == digest_of_fields(index, timestamp, previous_hash@, data@, nonce),
{
    let text = write_block_text(index, timestamp, previous_hash, data, nonce);
    sha256_hex(text.as_str())
}

} // verus!
