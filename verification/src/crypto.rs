//! Signatures, digests and hex: what the verifier has from `p256`, `sha2` and `hex`.

use p256::ecdsa::signature::Verifier;
use p256::ecdsa::{Signature, VerifyingKey};
use sha2::{Digest, Sha256};
use vstd::prelude::*;

verus! {

/// The unsigned number that `bytes` hold, most significant byte first.
pub open spec fn big_endian(bytes: Seq<u8>) -> nat
    decreases bytes.len(),
{
    if bytes.len() == 0 {
        0
    } else {
        256 * big_endian(bytes.drop_last()) + bytes.last() as nat
    }
}

/// The order of the P-256 group.
pub open spec fn p256_order() -> nat {
    0xffffffff00000000ffffffffffffffffbce6faada7179e84f3b9cac2fc632551nat
}

/// Whether `bytes` are a P-256 signature in fixed width: `r` and `s`, 32 bytes each, both above
/// zero and below the group order.
pub open spec fn fixed_signature(bytes: Seq<u8>) -> bool {
    &&& bytes.len() == 64
    &&& 0 < big_endian(bytes.subrange(0, 32)) < p256_order()
    &&& 0 < big_endian(bytes.subrange(32, 64)) < p256_order()
}

/// Whether `VerifyingKey::from_sec1_bytes` decodes `sec1` as a public key on P-256.
pub uninterp spec fn p256_point(sec1: Seq<u8>) -> bool;

/// The signature that `Signature::from_der` decodes, in fixed width; nothing when it does not
/// decode.
pub uninterp spec fn der_signature(der: Seq<u8>) -> Option<Seq<u8>>;

/// Whether the key in `sec1` verifies the fixed-width `signature` over `message`. It does not when
/// the key or the signature cannot be decoded.
pub uninterp spec fn p256_verifies(sec1: Seq<u8>, message: Seq<u8>, signature: Seq<u8>) -> bool;

/// The SHA-256 digest of `message`.
pub uninterp spec fn sha256(message: Seq<u8>) -> Seq<u8>;

/// The text of the error that `hex::decode` returns for a text that is not hex.
pub uninterp spec fn hex_fault(text: Seq<char>) -> Seq<char>;

/// `p256::ecdsa::VerifyingKey::from_sec1_bytes`. Whether it decodes is determined by the bytes;
/// its error carries no source, so it displays as "signature error".
#[verifier::external_body]
pub(crate) fn decode_key(sec1: &[u8]) -> (decoded: Result<(), String>)
    ensures
        decoded is Ok <==> p256_point(sec1@),
        decoded matches Err(e) ==> e@ == "signature error"@,
{
    VerifyingKey::from_sec1_bytes(sec1).map(|_| ()).map_err(|e| e.to_string())
}

/// `p256::ecdsa::Signature::from_slice`: accepts 64 bytes whose halves are scalars from one up to
/// below the group order, and nothing else. Its error displays as "signature error".
#[verifier::external_body]
pub(crate) fn decode_signature(bytes: &[u8]) -> (decoded: Result<(), String>)
    ensures
        decoded is Ok <==> fixed_signature(bytes@),
        decoded matches Err(e) ==> e@ == "signature error"@,
{
    Signature::from_slice(bytes).map(|_| ()).map_err(|e| e.to_string())
}

/// `p256::ecdsa::Signature::from_der`, with the signature it decodes in fixed width. Its error
/// displays as "signature error".
#[verifier::external_body]
pub(crate) fn decode_der_signature(der: &[u8]) -> (decoded: Result<Vec<u8>, String>)
    ensures
        decoded is Ok <==> der_signature(der@) is Some,
        decoded matches Ok(signature) ==> der_signature(der@) == Some(signature@),
        decoded matches Err(e) ==> e@ == "signature error"@,
{
    Signature::from_der(der).map(|s| s.to_bytes().to_vec()).map_err(|e| e.to_string())
}

/// `Verifier::verify` of `p256::ecdsa::VerifyingKey`, on a key and a signature given by their
/// encodings. Whether it succeeds is determined by the three byte strings.
#[verifier::external_body]
pub(crate) fn verify_signature(sec1: &[u8], message: &[u8], signature: &[u8]) -> (verified: bool)
    ensures
        verified == p256_verifies(sec1@, message@, signature@),
{
    match (VerifyingKey::from_sec1_bytes(sec1), Signature::from_slice(signature)) {
        (Ok(key), Ok(signature)) => key.verify(message, &signature).is_ok(),
        _ => false,
    }
}

/// `sha2::Sha256` over two parts fed in one after the other: the digest of both joined.
#[verifier::external_body]
pub(crate) fn sha256_of_parts(first: &[u8], second: &[u8]) -> (digest: [u8; 32])
    ensures
        digest@ == sha256(first@ + second@),
{
    let mut hasher = Sha256::new();
    hasher.update(first);
    hasher.update(second);
    hasher.finalize().into()
}

/// The value of a hex digit of either case.
pub open spec fn nibble(c: char) -> Option<int> {
    if '0' <= c <= '9' {
        Some(c as int - '0' as int)
    } else if 'a' <= c <= 'f' {
        Some(c as int - 'a' as int + 10)
    } else if 'A' <= c <= 'F' {
        Some(c as int - 'A' as int + 10)
    } else {
        None
    }
}

/// Whether `text` is hex: an even number of hex digits.
pub open spec fn is_hex(text: Seq<char>) -> bool {
    &&& text.len() % 2 == 0
    &&& forall|i: int| 0 <= i < text.len() ==> nibble(#[trigger] text[i]) is Some
}

/// The bytes that hex text stands for, two digits each.
pub open spec fn unhex(text: Seq<char>) -> Seq<u8> {
    Seq::new(
        text.len() / 2,
        |i: int| (16 * nibble(text[2 * i])->0 + nibble(text[2 * i + 1])->0) as u8,
    )
}

/// The lower-case hex digit of `d`, for `d` below sixteen.
pub open spec fn hex_digit(d: int) -> char {
    if d < 10 {
        ('0' as int + d) as char
    } else {
        ('a' as int + d - 10) as char
    }
}

/// `bytes` in lower-case hex, two digits each.
pub open spec fn hex_text(bytes: Seq<u8>) -> Seq<char> {
    Seq::new(
        2 * bytes.len(),
        |i: int|
            if i % 2 == 0 {
                hex_digit(bytes[i / 2] as int / 16)
            } else {
                hex_digit(bytes[i / 2] as int % 16)
            },
    )
}

/// `hex::encode`: two lower-case hex digits for each byte.
#[verifier::external_body]
pub(crate) fn hex_encode(bytes: &[u8]) -> (text: String)
    ensures
        text@ == hex_text(bytes@),
{
    hex::encode(bytes)
}

/// `hex::decode`: the bytes of an even number of hex digits of either case. The text of its error
/// is determined by the input.
#[verifier::external_body]
pub(crate) fn hex_decode(text: &str) -> (decoded: Result<Vec<u8>, String>)
    ensures
        decoded is Ok <==> is_hex(text@),
        decoded matches Ok(bytes) ==> bytes@ == unhex(text@),
        decoded matches Err(e) ==> e@ == hex_fault(text@),
{
    hex::decode(text).map_err(|e| e.to_string())
}

/// Bytes written in hex read back as the same bytes, two digits each.
pub proof fn hex_text_reads_back(bytes: Seq<u8>)
    ensures
        is_hex(hex_text(bytes)),
        hex_text(bytes).len() == 2 * bytes.len(),
        unhex(hex_text(bytes)) == bytes,
{
    let text = hex_text(bytes);
    assert forall|i: int| 0 <= i < text.len() implies nibble(#[trigger] text[i]) is Some by {}
    assert forall|i: int| 0 <= i < bytes.len() implies unhex(text)[i] == bytes[i] by {
        assert(text[2 * i] == hex_digit(bytes[i] as int / 16));
        assert(text[2 * i + 1] == hex_digit(bytes[i] as int % 16));
        assert(nibble(text[2 * i]) == Some(bytes[i] as int / 16));
        assert(nibble(text[2 * i + 1]) == Some(bytes[i] as int % 16));
    }
    assert(unhex(text) =~= bytes);
}

} // verus!
