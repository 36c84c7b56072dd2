//! Nonces: 128 random bits in hexadecimal, which tell two payloads apart
//! even where their facts and their time are the same.

use crate::hexcode::{hex_text, is_lower_hex, lemma_hex_round_trip, to_hex};
use rand::rngs::OsRng;
use rand::RngCore;
use vstd::prelude::*;

verus! {

/// Number of random bytes in a nonce.
pub const NONCE_LENGTH: usize = 16;

/// Whether a text is a nonce: the hexadecimal text of sixteen bytes.
pub open spec fn is_nonce(text: Seq<char>) -> bool {
    exists|bytes: Seq<u8>| bytes.len() == NONCE_LENGTH && text == #[trigger] hex_text(bytes)
}

/// `OsRng::fill_bytes`: sixteen bytes from the operating system's random
/// source. Nothing is promised of the bytes, and two calls may give any two
/// values. Where the system gives no random bytes the call does not return
/// a value: `rand` panics.
#[verifier::external_body]
fn random_bytes() -> (bytes: [u8; 16]) {
    let mut bytes = [0u8; 16];
    OsRng.fill_bytes(&mut bytes);
    bytes
}

/// The nonce made of sixteen given bytes.
pub fn nonce_from(bytes: &[u8; 16]) -> (nonce: String)
    ensures
        nonce@ == hex_text(bytes@),
        is_nonce(nonce@),
        nonce@.len() == 2 * NONCE_LENGTH,
        is_lower_hex(nonce@),
{
    proof {
        lemma_hex_round_trip(bytes@);
    }
    to_hex(bytes.as_slice())
}

/// A fresh nonce: 32 lowercase hexadecimal digits from the operating
/// system's random source.
pub fn generate_nonce() -> (nonce: String)
    ensures
        is_nonce(nonce@),
        nonce@.len() == 2 * NONCE_LENGTH,
        is_lower_hex(nonce@),
{
    let bytes = random_bytes();
    nonce_from(&bytes)
}

} // verus!
