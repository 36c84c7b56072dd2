//! The signer: from build facts and a private key to a signed document.

use crate::canonical::{canonical_bytes, canonical_encoding};
use crate::ed25519::{
    array_32, derive_public_key, ed25519_key_valid, ed25519_public_key, ed25519_signature,
    ed25519_verifies, sign_message, PUBLIC_KEY_LENGTH, SECRET_KEY_LENGTH, SIGNATURE_LENGTH,
};
use crate::hexcode::{hex_text, is_lower_hex, lemma_hex_round_trip, to_hex};
use crate::nonce::{generate_nonce, is_nonce};
use crate::payload::{BuildFacts, Payload, PayloadView, Proof, ProofView, RequiredField};
use crate::pipeline::{
    format_outcome, lemma_sound_document_is_accepted, options_admit, signature_outcome, verdict_of,
    VerifyOptions, FORMAT_VERSION,
};
use crate::timestamp::{get_timestamp, timestamp_text};
use vstd::prelude::*;

verus! {

/// Why nothing was signed.
#[derive(Clone, Copy, Debug, PartialEq, Eq, Structural)]
pub enum SignError {
    /// The private key does not have 32 bytes.
    KeyFormat { length: usize },
    /// A required fact is empty: the first that is, in the order of the
    /// payload's fields.
    EmptyField(RequiredField),
}

/// The document that a private key signs for a payload: the payload, its
/// signature and the key's public key in hexadecimal, in format version 1.
pub open spec fn signed_document(payload: PayloadView, secret_key: Seq<u8>) -> ProofView {
    ProofView {
        payload,
        signature: hex_text(ed25519_signature(secret_key, canonical_encoding(payload))),
        public_key: hex_text(ed25519_public_key(secret_key)),
        format_version: FORMAT_VERSION,
    }
}

/// Whether the verifier accepts a document under every set of options that
/// asks nothing of it that it does not meet.
pub open spec fn accepted_where_admitted(doc: ProofView) -> bool {
    forall|options: VerifyOptions|
        options_admit(doc, options) ==> #[trigger] verdict_of(doc, options) is Accepted
}

/// The public key of a private key, in hexadecimal: 64 lowercase digits,
/// of bytes that are accepted as a public key.
pub fn public_key_hex(secret_key: &[u8]) -> (text: Result<String, SignError>)
    ensures
        secret_key@.len() != SECRET_KEY_LENGTH ==> text == Err::<String, SignError>(
            SignError::KeyFormat { length: secret_key@.len() as usize },
        ),
        secret_key@.len() == SECRET_KEY_LENGTH ==> text is Ok,
        text matches Ok(key) ==> {
            &&& key@ == hex_text(ed25519_public_key(secret_key@))
            &&& key@.len() == 2 * PUBLIC_KEY_LENGTH
            &&& is_lower_hex(key@)
            &&& ed25519_key_valid(ed25519_public_key(secret_key@))
        },
{
    if secret_key.len() != SECRET_KEY_LENGTH {
        return Err(SignError::KeyFormat { length: secret_key.len() });
    }
    let key = array_32(secret_key);
    let public = derive_public_key(&key);
    proof {
        lemma_hex_round_trip(public@);
    }
    Ok(to_hex(public.as_slice()))
}

/// Signs a payload: the signature over its canonical encoding, in
/// hexadecimal: 128 lowercase digits, of bytes that the public key of the
/// private key verifies for that encoding.
pub fn sign_payload(secret_key: &[u8], payload: &Payload) -> (text: Result<String, SignError>)
    ensures
        secret_key@.len() != SECRET_KEY_LENGTH ==> text == Err::<String, SignError>(
            SignError::KeyFormat { length: secret_key@.len() as usize },
        ),
        secret_key@.len() == SECRET_KEY_LENGTH ==> text is Ok,
        text matches Ok(signature) ==> {
            &&& signature@ == hex_text(
                ed25519_signature(secret_key@, canonical_encoding(payload@)),
            )
            &&& signature@.len() == 2 * SIGNATURE_LENGTH
            &&& is_lower_hex(signature@)
            &&& ed25519_verifies(
                ed25519_public_key(secret_key@),
                canonical_encoding(payload@),
                ed25519_signature(secret_key@, canonical_encoding(payload@)),
            )
        },
{
    if secret_key.len() != SECRET_KEY_LENGTH {
        return Err(SignError::KeyFormat { length: secret_key.len() });
    }
    let key = array_32(secret_key);
    let message = canonical_bytes(payload);
    let signature = sign_message(&key, message.as_slice());
    proof {
        lemma_hex_round_trip(signature@);
    }
    Ok(to_hex(signature.as_slice()))
}

/// Builds the payload that attests the facts of a build as of now: with the
/// timestamp of the present moment and a fresh nonce. There is none where a
/// required fact is empty: the first such fact is named instead.
pub fn build_payload(facts: BuildFacts) -> (built: Result<Payload, RequiredField>)
    ensures
        match facts@.first_empty_fact() {
            Some(field) => built == Err::<Payload, RequiredField>(field),
            None => built is Ok,
        },
        built matches Ok(payload) ==> exists|seconds: u64, nonce: Seq<char>|
            is_nonce(nonce) && payload@ == #[trigger] PayloadView::of_facts(
                facts@,
                timestamp_text(seconds as int),
                nonce,
            ),
{
    let timestamp = get_timestamp();
    let nonce = generate_nonce();
    Payload::new(facts, timestamp, nonce)
}

/// Signs a payload and puts the document together: the payload, the
/// signature over its canonical encoding, the public key of the private key,
/// and format version 1. The document that comes out passes the verifier's
/// format and signature checks.
pub fn sign(payload: Payload, secret_key: &[u8]) -> (signed: Result<Proof, SignError>)
    ensures
        secret_key@.len() != SECRET_KEY_LENGTH ==> signed == Err::<Proof, SignError>(
            SignError::KeyFormat { length: secret_key@.len() as usize },
        ),
        secret_key@.len() == SECRET_KEY_LENGTH ==> signed is Ok,
        signed matches Ok(doc) ==> {
            &&& doc@ == signed_document(payload@, secret_key@)
            &&& format_outcome(doc@) is Ok
            &&& signature_outcome(doc@) is Ok
            &&& accepted_where_admitted(doc@)
        },
{
    if secret_key.len() != SECRET_KEY_LENGTH {
        return Err(SignError::KeyFormat { length: secret_key.len() });
    }
    let key = array_32(secret_key);
    let public = derive_public_key(&key);
    let message = canonical_bytes(&payload);
    let signature = sign_message(&key, message.as_slice());
    let doc = Proof::new(
        payload,
        to_hex(signature.as_slice()),
        to_hex(public.as_slice()),
        FORMAT_VERSION,
    );
    proof {
        lemma_hex_round_trip(public@);
        lemma_hex_round_trip(signature@);
        assert(signature_outcome(doc@) is Ok);
        assert forall|options: VerifyOptions| options_admit(doc@, options) implies #[trigger] verdict_of(
            doc@,
            options,
        ) is Accepted by {
            lemma_sound_document_is_accepted(doc@, options);
        }
    }
    Ok(doc)
}

/// Signs the facts of a build as of now, under a fresh nonce. The key is
/// held to its length first, then the facts to being filled in.
pub fn sign_build(facts: BuildFacts, secret_key: &[u8]) -> (signed: Result<Proof, SignError>)
    ensures
        secret_key@.len() != SECRET_KEY_LENGTH ==> signed == Err::<Proof, SignError>(
            SignError::KeyFormat { length: secret_key@.len() as usize },
        ),
        secret_key@.len() == SECRET_KEY_LENGTH ==> match facts@.first_empty_fact() {
            Some(field) => signed == Err::<Proof, SignError>(SignError::EmptyField(field)),
            None => signed is Ok,
        },
        signed matches Ok(doc) ==> {
            &&& exists|seconds: u64, nonce: Seq<char>|
                is_nonce(nonce) && doc@ == #[trigger] signed_document(
                    PayloadView::of_facts(facts@, timestamp_text(seconds as int), nonce),
                    secret_key@,
                )
            &&& format_outcome(doc@) is Ok
            &&& signature_outcome(doc@) is Ok
            &&& accepted_where_admitted(doc@)
        },
{
    if secret_key.len() != SECRET_KEY_LENGTH {
        return Err(SignError::KeyFormat { length: secret_key.len() });
    }
    match build_payload(facts) {
        Ok(payload) => sign(payload, secret_key),
        Err(field) => Err(SignError::EmptyField(field)),
    }
}

} // verus!
