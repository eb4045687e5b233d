//! What the node takes from outside crates: text encodings of bytes, digests,
//! and the check that bytes are a public key.
use base64::engine::general_purpose::STANDARD;
use base64::Engine;
use fastcrypto::bls12381::min_sig::BLS12381PublicKey;
use fastcrypto::ed25519::Ed25519PublicKey;
use fastcrypto::hash::{Blake2b256, HashFunction};
use fastcrypto::traits::ToFromBytes;
use sha3::{Digest, Keccak256};
use vstd::prelude::*;
use vstd::utf8::{encode_utf8, is_ascii_chars, is_ascii_chars_encode_utf8};

verus! {

/// The lower-case hexadecimal digit of a value below 16.
pub open spec fn hex_digit(v: int) -> char {
    seq!['0', '1', '2', '3', '4', '5', '6', '7', '8', '9', 'a', 'b', 'c', 'd', 'e', 'f'][v]
}

/// Two hexadecimal digits for each byte, the high half first.
pub open spec fn hex_text(data: Seq<u8>) -> Seq<char> {
    Seq::new(
        2 * data.len(),
        |i: int|
            if i % 2 == 0 {
                hex_digit(data[i / 2] as int / 16)
            } else {
                hex_digit(data[i / 2] as int % 16)
            },
    )
}

/// The value of a hexadecimal digit of either case.
pub open spec fn hex_nibble(c: u8) -> Option<int> {
    if 48 <= c <= 57 {
        Some(c - 48)
    } else if 97 <= c <= 102 {
        Some(c - 87)
    } else if 65 <= c <= 70 {
        Some(c - 55)
    } else {
        None
    }
}

/// The bytes that hexadecimal digits give: none if their number is odd or one
/// of them is no digit.
pub open spec fn hex_bytes(text: Seq<u8>) -> Option<Seq<u8>> {
    if text.len() % 2 == 0 && forall|i: int|
        0 <= i < text.len() ==> hex_nibble(#[trigger] text[i]) is Some {
        Some(
            Seq::new(
                text.len() / 2,
                |i: int|
                    (16 * hex_nibble(text[2 * i])->Some_0 + hex_nibble(text[2 * i + 1])->Some_0) as u8,
            ),
        )
    } else {
        None
    }
}

proof fn lemma_hex_digit(v: int)
    requires
        0 <= v < 16,
    ensures
        '\0' <= hex_digit(v) <= '\u{7f}',
        hex_nibble(hex_digit(v) as u8) == Some(v),
        48 <= hex_digit(v) as u32 <= 57 || 97 <= hex_digit(v) as u32 <= 102,
{
}

/// The text of bytes is made of digits only: its encoding has a byte for each
/// digit.
pub proof fn lemma_hex_text(data: Seq<u8>)
    ensures
        is_ascii_chars(hex_text(data)),
        encode_utf8(hex_text(data)).len() == 2 * data.len(),
        forall|i: int|
            0 <= i < 2 * data.len() ==> (48 <= (#[trigger] hex_text(data)[i]) as u32 <= 57 || 97
                <= hex_text(data)[i] as u32 <= 102) && hex_nibble(hex_text(data)[i] as u8) is Some,
        forall|i: int|
            0 <= i < 2 * data.len() ==> #[trigger] encode_utf8(hex_text(data))[i] == hex_text(
                data,
            )[i] as u8,
{
    let t = hex_text(data);
    assert forall|i: int| 0 <= i < t.len() implies '\0' <= #[trigger] t[i] <= '\u{7f}' && (48
        <= t[i] as u32 <= 57 || 97 <= t[i] as u32 <= 102) && hex_nibble(t[i] as u8) is Some by {
        lemma_hex_digit(data[i / 2] as int / 16);
        lemma_hex_digit(data[i / 2] as int % 16);
    }
    is_ascii_chars_encode_utf8(t);
}

/// Bytes that are written in hexadecimal are read back.
pub proof fn law_hex_roundtrip(data: Seq<u8>)
    ensures
        hex_bytes(encode_utf8(hex_text(data))) == Some(data),
{
    let t = hex_text(data);
    let e = encode_utf8(t);
    lemma_hex_text(data);
    assert forall|i: int| 0 <= i < e.len() implies hex_nibble(#[trigger] e[i]) is Some by {
        assert(e[i] == t[i] as u8);
    }
    let r = hex_bytes(e)->Some_0;
    assert forall|i: int| 0 <= i < data.len() implies r[i] == data[i] by {
        lemma_hex_digit(data[i] as int / 16);
        lemma_hex_digit(data[i] as int % 16);
        assert(e[2 * i] == t[2 * i] as u8);
        assert(e[2 * i + 1] == t[2 * i + 1] as u8);
        assert((2 * i) / 2 == i && (2 * i) % 2 == 0);
        assert((2 * i + 1) / 2 == i && (2 * i + 1) % 2 == 1);
        assert(t[2 * i] == hex_digit(data[i] as int / 16));
        assert(t[2 * i + 1] == hex_digit(data[i] as int % 16));
    }
    assert(r =~= data);
}

/// The digit of a value below 64 in the standard alphabet of base64: letters of
/// either case, decimal digits, `+` and `/`.
pub open spec fn base64_digit(v: int) -> char {
    if v < 26 {
        ('A' as int + v) as char
    } else if v < 52 {
        ('a' as int + v - 26) as char
    } else if v < 62 {
        ('0' as int + v - 52) as char
    } else if v == 62 {
        '+'
    } else {
        '/'
    }
}

/// A byte of `data`, or 0 behind its end.
pub open spec fn byte_or_zero(data: Seq<u8>, i: int) -> int {
    if i < data.len() {
        data[i] as int
    } else {
        0
    }
}

/// The six bits that a digit of base64 text stands for: three bytes make four
/// digits. None where the text is padded.
pub open spec fn base64_bits(data: Seq<u8>, i: int) -> Option<int> {
    let first = 3 * (i / 4);
    let a = byte_or_zero(data, first);
    let b = byte_or_zero(data, first + 1);
    let c = byte_or_zero(data, first + 2);
    if i % 4 == 0 {
        Some(a / 4)
    } else if i % 4 == 1 {
        Some(a % 4 * 16 + b / 16)
    } else if i % 4 == 2 && first + 1 < data.len() {
        Some(b % 16 * 4 + c / 64)
    } else if i % 4 == 3 && first + 2 < data.len() {
        Some(c % 64)
    } else {
        None
    }
}

/// Standard base64 text, padded with `=` to a multiple of four.
pub open spec fn base64_text(data: Seq<u8>) -> Seq<char> {
    Seq::new(
        ((data.len() + 2) / 3 * 4) as nat,
        |i: int|
            match base64_bits(data, i) {
                Some(v) => base64_digit(v),
                None => '=',
            },
    )
}

/// The bytes whose base64 text this is, if there are such bytes.
pub open spec fn base64_bytes(text: Seq<u8>) -> Option<Seq<u8>> {
    if exists|data: Seq<u8>| #[trigger] encode_utf8(base64_text(data)) == text {
        Some(choose|data: Seq<u8>| #[trigger] encode_utf8(base64_text(data)) == text)
    } else {
        None
    }
}

proof fn lemma_base64_bits(data: Seq<u8>, i: int)
    requires
        0 <= i,
    ensures
        base64_bits(data, i) matches Some(v) ==> 0 <= v < 64,
{
    let first = 3 * (i / 4);
    let a = byte_or_zero(data, first);
    let b = byte_or_zero(data, first + 1);
    let c = byte_or_zero(data, first + 2);
    assert(0 <= a < 256 && 0 <= b < 256 && 0 <= c < 256);
}

proof fn lemma_base64_encoding(data: Seq<u8>)
    ensures
        is_ascii_chars(base64_text(data)),
        encode_utf8(base64_text(data)).len() == base64_text(data).len(),
        forall|i: int|
            0 <= i < base64_text(data).len() ==> #[trigger] encode_utf8(base64_text(data))[i]
                == base64_text(data)[i] as u8,
{
    let t = base64_text(data);
    assert forall|i: int| 0 <= i < t.len() implies '\0' <= #[trigger] t[i] <= '\u{7f}' by {
        lemma_base64_bits(data, i);
    }
    is_ascii_chars_encode_utf8(t);
}

proof fn lemma_base64_injective(a: Seq<u8>, b: Seq<u8>)
    requires
        base64_text(a) == base64_text(b),
    ensures
        a == b,
{
    let t = base64_text(a);
    let u = base64_text(b);
    assert forall|i: int| 0 <= i < t.len() implies #[trigger] base64_bits(a, i) == base64_bits(
        b,
        i,
    ) by {
        lemma_base64_bits(a, i);
        lemma_base64_bits(b, i);
        assert(t[i] == u[i]);
    }
    let groups = t.len() as int / 4;
    assert((a.len() + 2) / 3 == groups && (b.len() + 2) / 3 == groups);
    if groups > 0 {
        let i = 4 * (groups - 1);
        assert((i + 2) / 4 == groups - 1 && (i + 2) % 4 == 2);
        assert((i + 3) / 4 == groups - 1 && (i + 3) % 4 == 3);
        assert(base64_bits(a, i + 2) == base64_bits(b, i + 2));
        assert(base64_bits(a, i + 3) == base64_bits(b, i + 3));
        assert(a.len() == b.len());
    }
    assert forall|k: int| 0 <= k < a.len() implies a[k] == b[k] by {
        let i = 4 * (k / 3);
        assert(0 <= i && i + 3 < t.len());
        assert(i / 4 == k / 3 && (i + 1) / 4 == k / 3 && (i + 2) / 4 == k / 3 && (i + 3) / 4 == k
            / 3);
        assert(base64_bits(a, i) == base64_bits(b, i));
        assert(base64_bits(a, i + 1) == base64_bits(b, i + 1));
        assert(base64_bits(a, i + 2) == base64_bits(b, i + 2));
        assert(base64_bits(a, i + 3) == base64_bits(b, i + 3));
    }
    assert(a =~= b);
}

/// Bytes that are written in base64 are read back.
pub proof fn law_base64_roundtrip(data: Seq<u8>)
    ensures
        base64_bytes(encode_utf8(base64_text(data))) == Some(data),
{
    let text = encode_utf8(base64_text(data));
    let found = base64_bytes(text)->Some_0;
    assert(encode_utf8(base64_text(found)) == text);
    lemma_base64_encoding(data);
    lemma_base64_encoding(found);
    assert forall|i: int| 0 <= i < text.len() implies #[trigger] base64_text(data)[i]
        == base64_text(found)[i] by {
        assert(text[i] == base64_text(data)[i] as u8);
        assert(text[i] == base64_text(found)[i] as u8);
    }
    assert(base64_text(data) =~= base64_text(found));
    lemma_base64_injective(data, found);
}

/// The Keccak-256 digest.
pub uninterp spec fn keccak256(data: Seq<u8>) -> Seq<u8>;

/// The BLAKE2b digest of 32 bytes.
pub uninterp spec fn blake2b256(data: Seq<u8>) -> Seq<u8>;

/// Whether bytes are a BLS12-381 public key (the variant with small signatures).
pub uninterp spec fn is_bls_public_key(data: Seq<u8>) -> bool;

/// Whether bytes are an Ed25519 public key.
pub uninterp spec fn is_ed25519_public_key(data: Seq<u8>) -> bool;

/// `r` is what `expected` names.
pub open spec fn same_bytes(r: Option<Vec<u8>>, expected: Option<Seq<u8>>) -> bool {
    match r {
        Some(v) => expected == Some(v@),
        None => expected is None,
    }
}

/// Calls `hex::encode`, which writes two lower-case digits for each byte.
#[verifier::external_body]
pub(crate) fn hex_encode(data: &[u8]) -> (s: String)
    ensures
        s@ == hex_text(data@),
{
    hex::encode(data)
}

/// Calls `hex::decode`, which reads digits of either case in pairs and fails
/// on an odd number of them or on any other byte.
#[verifier::external_body]
pub(crate) fn hex_decode(text: &[u8]) -> (r: Option<Vec<u8>>)
    ensures
        same_bytes(r, hex_bytes(text@)),
{
    hex::decode(text).ok()
}

/// Calls `decode` of base64's standard engine, which reads text of the
/// standard alphabet. It fails on any other byte, on padding that is missing or
/// out of place, and on bits that the last digit leaves over, so it takes
/// nothing but what encoding gives.
#[verifier::external_body]
pub(crate) fn base64_decode(text: &[u8]) -> (r: Option<Vec<u8>>)
    ensures
        same_bytes(r, base64_bytes(text@)),
{
    STANDARD.decode(text).ok()
}

/// Calls `encode` of base64's standard engine, which writes four digits of the
/// standard alphabet for three bytes and pads the last ones with `=`.
#[verifier::external_body]
pub(crate) fn base64_encode(data: &[u8]) -> (s: String)
    ensures
        s@ == base64_text(data@),
{
    STANDARD.encode(data)
}

/// Calls `sha3::Keccak256::digest`, which gives 32 bytes that depend on the
/// data alone.
#[verifier::external_body]
pub(crate) fn keccak256_digest(data: &[u8]) -> (d: Vec<u8>)
    ensures
        d@ == keccak256(data@),
        d@.len() == 32,
{
    Keccak256::digest(data).to_vec()
}

/// Calls `fastcrypto::hash::Blake2b256::digest`, which gives 32 bytes that
/// depend on the data alone.
#[verifier::external_body]
pub(crate) fn blake2b256_digest(data: &[u8]) -> (d: Vec<u8>)
    ensures
        d@ == blake2b256(data@),
        d@.len() == 32,
{
    Blake2b256::digest(data).to_vec()
}

/// Calls `BLS12381PublicKey::from_bytes` of fastcrypto and says whether it
/// took the bytes.
#[verifier::external_body]
pub(crate) fn bls_public_key_ok(data: &[u8]) -> (ok: bool)
    ensures
        ok == is_bls_public_key(data@),
{
    BLS12381PublicKey::from_bytes(data).is_ok()
}

/// Calls `Ed25519PublicKey::from_bytes` of fastcrypto and says whether it took
/// the bytes.
#[verifier::external_body]
pub(crate) fn ed25519_public_key_ok(data: &[u8]) -> (ok: bool)
    ensures
        ok == is_ed25519_public_key(data@),
{
    Ed25519PublicKey::from_bytes(data).is_ok()
}

} // verus!
