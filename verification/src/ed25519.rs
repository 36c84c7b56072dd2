//! Ed25519 signatures, computed by the `ed25519-dalek` crate.
//!
//! What that crate computes is named here, not defined: the contracts of the
//! library speak of these names, and nothing in the library says what they
//! are on given bytes.

use ed25519_dalek::{Signature, Signer, SigningKey, Verifier, VerifyingKey};
use vstd::prelude::*;

verus! {

/// Length in bytes of a private signing key.
pub const SECRET_KEY_LENGTH: usize = 32;

/// Length in bytes of a public verification key.
pub const PUBLIC_KEY_LENGTH: usize = 32;

/// Length in bytes of a signature.
pub const SIGNATURE_LENGTH: usize = 64;

/// The public key that belongs to a 32-byte private key.
pub uninterp spec fn ed25519_public_key(secret: Seq<u8>) -> Seq<u8>;

/// The signature that a 32-byte private key gives a message. Signing is
/// deterministic: the same key and message always give the same signature.
pub uninterp spec fn ed25519_signature(secret: Seq<u8>, message: Seq<u8>) -> Seq<u8>;

/// Whether 32 bytes are the encoding of a point of the curve, and so are
/// accepted as a public key.
pub uninterp spec fn ed25519_key_valid(public: Seq<u8>) -> bool;

/// Whether a 64-byte signature is accepted for a message under a valid
/// public key.
pub uninterp spec fn ed25519_verifies(public: Seq<u8>, message: Seq<u8>, signature: Seq<u8>) -> bool;

/// `SigningKey::verifying_key`, on a key made by `SigningKey::from_bytes`:
/// the public key of a private key, as bytes. The crate computes it from the
/// private key alone. Its documentation reads a public key that was written
/// with `to_bytes` back with `VerifyingKey::from_bytes`: the bytes are those
/// of a point of the curve, so they are accepted as a key.
#[verifier::external_body]
pub(crate) fn derive_public_key(secret: &[u8; 32]) -> (public: [u8; 32])
    ensures
        public@ == ed25519_public_key(secret@),
        ed25519_key_valid(public@),
{
    SigningKey::from_bytes(secret).verifying_key().to_bytes()
}

/// `Signer::sign` of `SigningKey`, on a key made by `SigningKey::from_bytes`:
/// the signature of a message, as bytes. The crate computes it from the key
/// and the message alone, without random input. Its documentation shows
/// that the public key of the signing key verifies what the key signed.
#[verifier::external_body]
pub(crate) fn sign_message(secret: &[u8; 32], message: &[u8]) -> (signature: [u8; 64])
    ensures
        signature@ == ed25519_signature(secret@, message@),
        ed25519_verifies(ed25519_public_key(secret@), message@, signature@),
{
    SigningKey::from_bytes(secret).sign(message).to_bytes()
}

/// `VerifyingKey::from_bytes`: whether the bytes are accepted as a public
/// key, which they are when they decompress to a point of the curve.
#[verifier::external_body]
pub(crate) fn public_key_is_valid(public: &[u8; 32]) -> (valid: bool)
    ensures
        valid == ed25519_key_valid(public@),
{
    VerifyingKey::from_bytes(public).is_ok()
}

/// `Verifier::verify` of `VerifyingKey`, on a key read by
/// `VerifyingKey::from_bytes` and a signature read by
/// `Signature::from_bytes`: whether the signature is accepted for the
/// message. Bytes that are no public key accept nothing.
#[verifier::external_body]
pub(crate) fn signature_verifies(public: &[u8; 32], message: &[u8], signature: &[u8; 64]) -> (ok:
    bool)
    ensures
        ok == (ed25519_key_valid(public@) && ed25519_verifies(public@, message@, signature@)),
{
    match VerifyingKey::from_bytes(public) {
        Ok(key) => key.verify(message, &Signature::from_bytes(signature)).is_ok(),
        Err(_) => false,
    }
}

/// Copies a slice of 32 bytes into an array.
pub(crate) fn array_32(bytes: &[u8]) -> (out: [u8; 32])
    requires
        bytes@.len() == 32,
    ensures
        out@ == bytes@,
{
    let mut out = [0u8; 32];
    let mut i: usize = 0;
    while i < 32
        invariant
            i <= 32,
            bytes@.len() == 32,
            forall|k: int| 0 <= k < i ==> out@[k] == bytes@[k],
        decreases 32 - i,
    {
        out[i] = bytes[i];
        i += 1;
    }
    assert(out@ =~= bytes@);
    out
}

/// Copies a slice of 64 bytes into an array.
pub(crate) fn array_64(bytes: &[u8]) -> (out: [u8; 64])
    requires
        bytes@.len() == 64,
    ensures
        out@ == bytes@,
{
    let mut out = [0u8; 64];
    let mut i: usize = 0;
    while i < 64
        invariant
            i <= 64,
            bytes@.len() == 64,
            forall|k: int| 0 <= k < i ==> out@[k] == bytes@[k],
        decreases 64 - i,
    {
        out[i] = bytes[i];
        i += 1;
    }
    assert(out@ =~= bytes@);
    out
}

} // verus!
