//! SHA-256 digests in hexadecimal, as lock files and artifacts are named by.

use crate::hexcode::{hex_text, to_hex};
use sha2::{Digest, Sha256};
use vstd::prelude::*;

verus! {

/// The SHA-256 digest of a byte string: 32 bytes that depend on the input
/// alone. Computed by the `sha2` crate; named here, not defined.
pub uninterp spec fn sha256_digest(data: Seq<u8>) -> Seq<u8>;

/// `Sha256::digest`: the SHA-256 digest of the data.
#[verifier::external_body]
fn sha256(data: &[u8]) -> (digest: [u8; 32])
    ensures
        digest@ == sha256_digest(data@),
{
    Sha256::digest(data).into()
}

/// The digest of a file's contents as the verifier compares it: SHA-256 in
/// lowercase hexadecimal, 64 characters.
pub fn compute_file_sha256(contents: &[u8]) -> (digest: String)
    ensures
        digest@ == hex_text(sha256_digest(contents@)),
        digest@.len() == 64,
{
    let raw = sha256(contents);
    to_hex(raw.as_slice())
}

} // verus!
