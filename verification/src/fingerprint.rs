//! Script fingerprints: SHA-256 over the canonical path followed by the file
//! contents, written as 64 lower-case hexadecimal digits.
use vstd::prelude::*;
use vstd::string::StringSliceAdditionalSpecFns;

use sha2::Digest;

use crate::text::{push_char, is_hex_char};

verus! {

/// The SHA-256 digest of `data`.
pub uninterp spec fn sha256(data: Seq<u8>) -> Seq<u8>;

/// `sha2::Sha256::digest`: the SHA-256 digest of the bytes, 32 bytes long.
#[verifier::external_body]
fn sha256_digest(data: &[u8]) -> (r: Vec<u8>)
    ensures
        r@ == sha256(data@),
        r@.len() == 32,
{
    sha2::Sha256::digest(data).to_vec()
}

/// The lower-case hexadecimal digit for a value below 16.
pub open spec fn hex_digit(n: u8) -> char
    recommends
        n < 16,
{
    if n < 10 {
        ((n as u32) + 48) as char
    } else {
        ((n as u32) + 87) as char
    }
}

/// Two lower-case hexadecimal digits per byte, high nibble first.
pub open spec fn hex_encode(b: Seq<u8>) -> Seq<char>
    decreases b.len(),
{
    if b.len() == 0 {
        Seq::empty()
    } else {
        hex_encode(b.drop_last()) + seq![hex_digit(b.last() / 16), hex_digit(b.last() % 16)]
    }
}

/// The fingerprint of a script whose canonical path has the bytes `path`
/// and whose contents are `contents`.
pub open spec fn fingerprint_spec(path: Seq<u8>, contents: Seq<u8>) -> Seq<char> {
    hex_encode(sha256(path + contents))
}

/// `c` is a digit that a fingerprint is written with.
pub open spec fn is_lower_hex_char(c: char) -> bool {
    ('0' <= c <= '9') || ('a' <= c <= 'f')
}

/// `s` has the form of a fingerprint: 64 lower-case hexadecimal digits.
pub open spec fn is_fingerprint_text(s: Seq<char>) -> bool {
    s.len() == 64 && forall|i: int| 0 <= i < s.len() ==> is_lower_hex_char(#[trigger] s[i])
}

/// The hex encoding has two digits per byte, each a lower-case hex digit.
pub proof fn lemma_hex_encode_shape(b: Seq<u8>)
    ensures
        hex_encode(b).len() == 2 * b.len(),
        forall|i: int| 0 <= i < hex_encode(b).len() ==> is_lower_hex_char(#[trigger] hex_encode(b)[i]),
    decreases b.len(),
{
    if b.len() > 0 {
        lemma_hex_encode_shape(b.drop_last());
        let x = b.last();
        assert(x / 16 < 16 && x % 16 < 16);
        let e = hex_encode(b);
        let p = hex_encode(b.drop_last());
        assert forall|i: int| 0 <= i < e.len() implies is_lower_hex_char(#[trigger] e[i]) by {
            if i < p.len() {
                assert(e[i] == p[i]);
            }
        }
    }
}

/// The lower-case hexadecimal digit for `n < 16`.
fn hex_digit_char(n: u8) -> (c: char)
    requires
        n < 16,
    ensures
        c == hex_digit(n),
{
    if n < 10 {
        ((n + 48) as char)
    } else {
        ((n + 87) as char)
    }
}

/// The bytes written as lower-case hexadecimal, two digits per byte.
pub fn hex_lower(data: &[u8]) -> (r: String)
    ensures
        r@ == hex_encode(data@),
{
    let mut out = String::new();
    let mut i: usize = 0;
    while i < data.len()
        invariant
            i <= data@.len(),
            out@ == hex_encode(data@.take(i as int)),
        decreases data@.len() - i,
    {
        let b = data[i];
        assert(data@.take(i + 1).drop_last() =~= data@.take(i as int));
        push_char(&mut out, hex_digit_char(b / 16));
        push_char(&mut out, hex_digit_char(b % 16));
        assert(out@ =~= hex_encode(data@.take(i + 1)));
        i = i + 1;
    }
    assert(data@.take(data@.len() as int) =~= data@);
    out
}

/// A copy of `a` followed by `b`.
fn concat_bytes(a: &[u8], b: &[u8]) -> (r: Vec<u8>)
    ensures
        r@ == a@ + b@,
{
    let mut out = vstd::slice::slice_to_vec(a);
    let mut i: usize = 0;
    while i < b.len()
        invariant
            i <= b@.len(),
            out@ == a@ + b@.take(i as int),
        decreases b@.len() - i,
    {
        out.push(b[i]);
        assert(a@ + b@.take(i + 1) =~= (a@ + b@.take(i as int)).push(b@[i as int]));
        i = i + 1;
    }
    assert(b@.take(b@.len() as int) =~= b@);
    out
}

/// The fingerprint of a script: SHA-256 over the bytes of its canonical path
/// followed by its contents, as 64 lower-case hexadecimal digits.
pub fn fingerprint(canonical_path: &str, contents: &[u8]) -> (r: String)
    ensures
        r@ == fingerprint_spec(canonical_path.spec_bytes(), contents@),
        r@ == hex_encode(sha256(canonical_path.spec_bytes() + contents@)),
        is_fingerprint_text(r@),
{
    let data = concat_bytes(canonical_path.as_bytes(), contents);
    let digest = sha256_digest(data.as_slice());
    let r = hex_lower(digest.as_slice());
    proof {
        lemma_hex_encode_shape(digest@);
    }
    r
}

/// Each byte is written as two digits, high nibble first, at twice its index.
pub proof fn law_hex_digits_of_each_byte(b: Seq<u8>)
    ensures
        hex_encode(b).len() == 2 * b.len(),
        forall|i: int| 0 <= i < b.len() ==> hex_encode(b)[2 * i] == hex_digit(#[trigger] b[i] / 16) && hex_encode(
            b,
        )[2 * i + 1] == hex_digit(b[i] % 16),
    decreases b.len(),
{
    lemma_hex_encode_shape(b);
    if b.len() > 0 {
        law_hex_digits_of_each_byte(b.drop_last());
        let p = hex_encode(b.drop_last());
        assert forall|i: int| 0 <= i < b.len() implies hex_encode(b)[2 * i] == hex_digit(#[trigger] b[i] / 16)
            && hex_encode(b)[2 * i + 1] == hex_digit(b[i] % 16) by {
            if i < b.len() - 1 {
                assert(b.drop_last()[i] == b[i]);
                assert(hex_encode(b)[2 * i] == p[2 * i]);
                assert(hex_encode(b)[2 * i + 1] == p[2 * i + 1]);
            }
        }
    }
}

/// A fingerprint is the digest of every byte of the path followed by every
/// byte of the contents, unchanged: it depends on that sequence of bytes
/// alone, however it is split between path and contents.
pub proof fn law_fingerprint_covers_all_bytes(p: Seq<u8>, c: Seq<u8>, q: Seq<u8>, d: Seq<u8>)
    ensures
        fingerprint_spec(p, c) == hex_encode(sha256(p + c)),
        p + c == q + d ==> fingerprint_spec(p, c) == fingerprint_spec(q, d),
        fingerprint_spec(p, c) == fingerprint_spec(Seq::empty(), p + c),
{
    assert(Seq::<u8>::empty() + (p + c) =~= p + c);
}

/// The digit for each value below 16 is the one at that place in
/// `0123456789abcdef`.
pub proof fn law_hex_digit_values()
    ensures
        forall|n: u8| n < 16 ==> #[trigger] hex_digit(n) == "0123456789abcdef"@[n as int],
{
    reveal_strlit("0123456789abcdef");
}

} // verus!
