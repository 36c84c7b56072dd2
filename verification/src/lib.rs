//! Signed attestations that bind a build's artifact to the source revision,
//! lock file and command that produced it, and the checks that accept or
//! reject such an attestation.
//!
//! - `payload`: the attested facts and the signed document.
//! - `canonical` and `json`: the bytes that a signature covers.
//! - `signing`: from facts and a private key to a signed document.
//! - `pipeline`: the verifier's checks, their order and their verdict.
//! - `trust`: the list of trusted keys.
//! - `hexcode`, `digest`, `ed25519`, `nonce`, `calendar`, `timestamp` and
//!   `text`: what the above are made of.
//! - `paths` and `command`: the texts that the command-line helper for the
//!   repository's Nix workflows works with.
//!
//! Everything here computes on values that the caller hands in. Reading and
//! writing files, and reporting to the user, is for the programs that use
//! the library.

pub mod calendar;
pub mod canonical;
pub mod command;
pub mod digest;
pub mod ed25519;
pub mod hexcode;
pub mod json;
pub mod nonce;
pub mod paths;
pub mod payload;
pub mod pipeline;
pub mod signing;
pub mod text;
pub mod timestamp;
pub mod trust;
