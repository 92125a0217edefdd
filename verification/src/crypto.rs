//! The cryptographic and encoding primitives that the kernel relies on.
//!
//! None of these is proved here: each function below hands its arguments to
//! an outside library, and its contract records what that library computes.
//! What a hexadecimal string stands for is written out. Whether a signature
//! verifies, and whether bytes are a public key of the curve, is a function
//! of the arguments alone that takes pages to state, so each has a name in
//! specifications.

use vstd::prelude::*;

verus! {

/// The length of an Ed25519 public key.
pub const ED25519_PUBLIC_KEY_LEN: usize = 32;

/// The length of an Ed25519 signature.
pub const ED25519_SIGNATURE_LEN: usize = 64;

/// Whether `signature` is a valid Ed25519 signature of `message` under the
/// public key `public_key`.
pub uninterp spec fn ed25519_verifies(
    public_key: Seq<u8>,
    message: Seq<u8>,
    signature: Seq<u8>,
) -> bool;

/// Whether a signature is accepted: the key has the length of a key, the
/// signature the length of a signature, and the signature verifies.
pub open spec fn ed25519_accepts(public_key: Seq<u8>, message: Seq<u8>, signature: Seq<u8>) -> bool {
    &&& public_key.len() == ED25519_PUBLIC_KEY_LEN
    &&& signature.len() == ED25519_SIGNATURE_LEN
    &&& ed25519_verifies(public_key, message, signature)
}

/// The value of a hexadecimal digit, upper or lower case.
pub open spec fn hex_digit(c: char) -> Option<u8> {
    if '0' <= c && c <= '9' {
        Some((c as u32 - '0' as u32) as u8)
    } else if 'a' <= c && c <= 'f' {
        Some((c as u32 - 'a' as u32 + 10) as u8)
    } else if 'A' <= c && c <= 'F' {
        Some((c as u32 - 'A' as u32 + 10) as u8)
    } else {
        None
    }
}

/// The bytes that a hexadecimal string stands for: it must have an even
/// number of characters, each a hexadecimal digit, and every two digits
/// give one byte, the first digit its upper half.
pub open spec fn hex_decoded(text: Seq<char>) -> Option<Seq<u8>> {
    if text.len() % 2 == 0 && forall|i: int|
        0 <= i < text.len() ==> hex_digit(#[trigger] text[i]) is Some {
        Some(
            Seq::new(
                text.len() / 2,
                |i: int|
                    (16 * hex_digit(text[2 * i]).unwrap() + hex_digit(text[2 * i + 1]).unwrap()) as u8,
            ),
        )
    } else {
        None
    }
}

/// Whether `bytes` is accepted as the SEC1 encoding of a public key of the
/// curve secp256k1.
pub uninterp spec fn is_secp256k1_public_key(bytes: Seq<u8>) -> bool;

/// Calls `ring::signature::UnparsedPublicKey::verify` with the algorithm
/// `ED25519`. The key is parsed and the signature checked by `ring`; the
/// result is true exactly when `ring` accepts the signature. `ring` accepts
/// none under a key that has not 32 bytes, and none that has not 64 bytes;
/// such input is turned down, it is no fault.
#[verifier::external_body]
pub(crate) fn ed25519_verify(public_key: &Vec<u8>, message: &Vec<u8>, signature: &Vec<u8>) -> (ok:
    bool)
    ensures
        ok == ed25519_verifies(public_key@, message@, signature@),
        ok ==> public_key@.len() == ED25519_PUBLIC_KEY_LEN && signature@.len()
            == ED25519_SIGNATURE_LEN,
{
    ring::signature::UnparsedPublicKey::new(&ring::signature::ED25519, public_key.as_slice())
        .verify(message.as_slice(), signature.as_slice())
        .is_ok()
}

/// The mathematical value of an optional byte vector.
pub open spec fn option_bytes_view(bytes: Option<Vec<u8>>) -> Option<Seq<u8>> {
    match bytes {
        Some(b) => Some(b@),
        None => None,
    }
}

/// Calls `hex::decode` on the bytes of the string. The result is `None`
/// where `hex` reports an error: an odd length, or a byte that is no
/// hexadecimal digit, as every byte of a character outside ASCII is.
#[verifier::external_body]
pub(crate) fn hex_decode(text: &String) -> (bytes: Option<Vec<u8>>)
    ensures
        option_bytes_view(bytes) == hex_decoded(text@),
{
    hex::decode(text.as_bytes()).ok()
}

/// Calls `k256::PublicKey::from_sec1_bytes` and reports whether it accepts
/// the bytes. It accepts the compressed, the uncompressed and the compact
/// form of a point of secp256k1, and turns down the point at infinity and
/// whatever has a wrong tag or length or is not on the curve.
#[verifier::external_body]
pub(crate) fn secp256k1_public_key_valid(bytes: &Vec<u8>) -> (ok: bool)
    ensures
        ok == is_secp256k1_public_key(bytes@),
{
    k256::PublicKey::from_sec1_bytes(bytes.as_slice()).is_ok()
}

/// Calls `rand::random` for a `u64`. Nothing is promised of the number.
#[verifier::external_body]
pub(crate) fn random_u64() -> u64 {
    rand::random::<u64>()
}

} // verus!
