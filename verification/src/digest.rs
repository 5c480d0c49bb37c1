//! Content digests.

use sha2::Digest;
use vstd::prelude::*;
use vstd::utf8::encode_utf8;

use crate::json::{Json, JsonView, json_bytes, serialized_json};
use crate::text::concat;

verus! {

/// The SHA-256 hash of a row of bytes.
pub uninterp spec fn sha256(bytes: Seq<u8>) -> Seq<u8>;

/// `sha2::Sha256::digest` computes the SHA-256 hash of its input, 32 bytes.
#[verifier::external_body]
fn sha256_of(bytes: &Vec<u8>) -> (r: Vec<u8>)
    ensures
        r@ == sha256(bytes@),
        r@.len() == 32,
{
    sha2::Sha256::digest(bytes).to_vec()
}

/// The lower case hexadecimal digit of a value below sixteen.
pub open spec fn hex_digit(n: int) -> char {
    if n == 10 { 'a' } else if n == 11 { 'b' } else if n == 12 { 'c' } else if n == 13 { 'd' }
    else if n == 14 { 'e' } else if n == 15 { 'f' } else { crate::text::digit_of(n as nat) }
}

/// Two lower case hexadecimal digits for each byte, the high one first.
pub open spec fn hex_text(bytes: Seq<u8>) -> Seq<char>
    decreases bytes.len(),
{
    if bytes.len() == 0 {
        Seq::empty()
    } else {
        hex_text(bytes.drop_last()).push(hex_digit(bytes.last() as int / 16)).push(hex_digit(bytes.last() as int % 16))
    }
}

/// `hex::encode` writes each byte as two lower case hexadecimal digits.
#[verifier::external_body]
pub(crate) fn hex_encode(bytes: &Vec<u8>) -> (r: String)
    ensures
        r@ == hex_text(bytes@),
{
    hex::encode(bytes)
}

/// No two rows of bytes have the same hexadecimal digits.
pub proof fn law_hex_tells_bytes_apart(a: Seq<u8>, b: Seq<u8>)
    requires
        hex_text(a) == hex_text(b),
    ensures
        a == b,
    decreases a.len(),
{
    lemma_hex_len(a);
    lemma_hex_len(b);
    if a.len() > 0 {
        let x = hex_text(a);
        let y = hex_text(b);
        let p = hex_text(a.drop_last());
        let q = hex_text(b.drop_last());
        lemma_hex_len(a.drop_last());
        lemma_hex_len(b.drop_last());
        assert(x[x.len() - 1] == hex_digit(a.last() as int % 16));
        assert(y[y.len() - 1] == hex_digit(b.last() as int % 16));
        assert(x[x.len() - 2] == hex_digit(a.last() as int / 16));
        assert(y[y.len() - 2] == hex_digit(b.last() as int / 16));
        lemma_hex_digit(a.last() as int % 16, b.last() as int % 16);
        lemma_hex_digit(a.last() as int / 16, b.last() as int / 16);
        assert(a.last() == b.last());
        assert(p =~= x.take(x.len() - 2));
        assert(q =~= y.take(y.len() - 2));
        law_hex_tells_bytes_apart(a.drop_last(), b.drop_last());
        assert(a =~= a.drop_last().push(a.last()));
        assert(b =~= b.drop_last().push(b.last()));
    } else {
        assert(a =~= b);
    }
}

/// Two digits stand for each byte.
pub proof fn lemma_hex_len(bytes: Seq<u8>)
    ensures
        hex_text(bytes).len() == 2 * bytes.len(),
    decreases bytes.len(),
{
    if bytes.len() > 0 {
        lemma_hex_len(bytes.drop_last());
    }
}

proof fn lemma_hex_digit(a: int, b: int)
    requires
        0 <= a < 16,
        0 <= b < 16,
        hex_digit(a) == hex_digit(b),
    ensures
        a == b,
{
}

/// The digest of a row of bytes, in text.
pub open spec fn digest_text(bytes: Seq<u8>) -> Seq<char> {
    "sha256:"@ + hex_text(sha256(bytes))
}

/// What the digest of a value under a domain is taken of.
pub open spec fn domain_bytes(domain: Seq<char>, value: JsonView) -> Seq<u8> {
    encode_utf8(domain) + seq![0u8] + serialized_json(value)
}

/// The digest of a value under a domain.
pub open spec fn canonical_digest(domain: Seq<char>, value: JsonView) -> Seq<char> {
    digest_text(domain_bytes(domain, value))
}

/// The digest of `bytes`.
pub fn digest_raw_bytes(bytes: &Vec<u8>) -> (r: String)
    ensures
        r@ == digest_text(bytes@),
{
    let hash: Vec<u8> = sha256_of(bytes);
    let hex: String = hex_encode(&hash);
    concat("sha256:", hex.as_str())
}

/// Appends `more` to `bytes`.
pub fn extend(bytes: &mut Vec<u8>, more: &[u8])
    ensures
        final(bytes)@ == old(bytes)@ + more@,
{
    let mut i: usize = 0;
    while i < more.len()
        invariant
            i <= more@.len(),
            bytes@ =~= old(bytes)@ + more@.take(i as int),
        decreases more.len() - i,
    {
        bytes.push(more[i]);
        i += 1;
    }
    assert(more@.take(i as int) =~= more@);
}

/// The digest of `value` under `domain`. Values under different domains are
/// told apart by the domain's name in front.
pub fn digest_canonical_value(domain: &str, value: &Json) -> (r: String)
    ensures
        r@ == canonical_digest(domain@, value@),
{
    let mut bytes: Vec<u8> = Vec::new();
    extend(&mut bytes, domain.as_bytes());
    bytes.push(0);
    let serialized: Vec<u8> = json_bytes(value);
    extend(&mut bytes, serialized.as_slice());
    assert(bytes@ =~= domain_bytes(domain@, value@));
    digest_raw_bytes(&bytes)
}

} // verus!
