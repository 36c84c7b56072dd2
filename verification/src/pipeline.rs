//! The verifier: the checks that a signed document goes through, in their
//! fixed order, and the verdict they end in.
//!
//! The order is format, signature, trusted key, commit, lock file. The first
//! check that fails gives the verdict and no later check is made, so nothing
//! is compared against a payload whose signature does not hold.

use crate::canonical::{canonical_bytes, canonical_encoding, lemma_canonical_encoding_faithful};
use crate::ed25519::{
    array_32, array_64, ed25519_key_valid, ed25519_verifies, public_key_is_valid,
    signature_verifies, PUBLIC_KEY_LENGTH, SIGNATURE_LENGTH,
};
use crate::hexcode::{
    from_lower_hex, hex_value, is_hex_text, is_lower_hex, lemma_lower_hex_is_unique,
};
use crate::payload::{optional_text, BuildFacts, Payload, PayloadView, Proof, ProofView};
use crate::text::same_text;
use crate::trust::{check_trusted_key, trusted_key_set};
use vstd::prelude::*;

verus! {

/// The one document format that this verifier reads.
pub const FORMAT_VERSION: u8 = 1;

/// The largest document, in bytes, that is read at all.
pub const MAX_DOCUMENT_BYTES: usize = 1048576;

/// The checks of the verifier, in the order in which they are made.
#[derive(Clone, Copy, Debug, PartialEq, Eq, Structural)]
pub enum Stage {
    /// Can the document be read, and does it hold every required field?
    Parse,
    /// Is the format version one that this verifier reads?
    FormatCheck,
    /// Does the signature hold for the payload under the document's key?
    SignatureCheck,
    /// Is the document's key one of the trusted keys?
    TrustedKeyCheck,
    /// Is the payload's commit the expected one?
    CommitCheck,
    /// Is the payload's lock-file digest that of the local lock file?
    LockFileCheck,
}

/// Why a signature was not accepted, in the order in which the faults are
/// looked for.
#[derive(Clone, Copy, Debug, PartialEq, Eq, Structural)]
pub enum SignatureFault {
    /// The public key is not hexadecimal text in lowercase digits.
    PublicKeyEncoding,
    /// The public key is not 32 bytes long.
    PublicKeyLength,
    /// The signature is not hexadecimal text in lowercase digits.
    SignatureEncoding,
    /// The signature is not 64 bytes long.
    SignatureLength,
    /// The 32 bytes are not a public key.
    PublicKeyRejected,
    /// The signature does not hold for the payload under the key.
    Mismatch,
}

/// A file that the caller reads for the verifier.
#[derive(Clone, Copy, Debug, PartialEq, Eq, Structural)]
pub enum FileRole {
    /// The list of trusted keys.
    TrustedKeys,
    /// The local lock file.
    LockFile,
}

/// Why a document was rejected.
#[derive(Clone, Copy, Debug, PartialEq, Eq, Structural)]
pub enum VerifyError {
    /// The document cannot be read: it is too large, it is not of the
    /// expected form, or a required field is missing or empty.
    MalformedProof,
    /// The document has a format version that this verifier does not read.
    UnsupportedVersion { found: u8 },
    /// The signature does not hold.
    SignatureInvalid(SignatureFault),
    /// The document's key is not in the list of trusted keys.
    UntrustedKey,
    /// The payload's commit is not the expected one.
    CommitMismatch,
    /// The payload's lock-file digest is not that of the local lock file.
    LockHashMismatch,
    /// A file that a check needs is there and could not be read.
    Io(FileRole),
}

/// How one of the optional checks ended where it did not fail.
#[derive(Clone, Copy, Debug, PartialEq, Eq, Structural)]
pub enum CheckStatus {
    /// The check was made and passed.
    Passed,
    /// The caller asked for the check not to be made.
    Skipped,
    /// There was nothing to compare against. The document is not rejected
    /// for that, and the caller is to warn that the check could not be made.
    Unavailable,
}

/// How the three optional checks of an accepted document ended.
#[derive(Clone, Copy, Debug, PartialEq, Eq, Structural)]
pub struct Checks {
    pub trusted_key: CheckStatus,
    pub commit: CheckStatus,
    pub lock_file: CheckStatus,
}

/// The end of a verification.
#[derive(Clone, Copy, Debug, PartialEq, Eq, Structural)]
pub enum Verdict {
    /// Format and signature hold, and no optional check failed.
    Accepted(Checks),
    /// The first check that failed, and why.
    Rejected(VerifyError),
}

/// Where the trusted keys come from.
#[derive(Clone, Debug, PartialEq, Eq)]
pub enum TrustSource {
    /// No list was supplied: any key is accepted.
    NotSupplied,
    /// A list was supplied and could not be read.
    Unreadable,
    /// The text of the list that was supplied.
    Keys(String),
}

/// What the caller found of the local lock file.
#[derive(Clone, Debug, PartialEq, Eq)]
pub enum LockFile {
    /// There is no such file.
    Missing,
    /// The file is there and could not be read.
    Unreadable,
    /// The digest of the file's contents, in hexadecimal.
    Digest(String),
}

/// What a document is verified against.
#[derive(Clone, Debug, PartialEq, Eq)]
pub struct VerifyOptions {
    /// The trusted keys, where the caller holds keys to a list.
    pub trusted_keys: TrustSource,
    /// The commit that the payload should name, where one is known.
    pub expected_commit: Option<String>,
    /// Leave the commit check out.
    pub skip_commit_check: bool,
    /// The local lock file.
    pub lock_file: LockFile,
    /// Leave the lock-file check out.
    pub skip_flake_lock_check: bool,
}

impl VerifyError {
    /// The check at which the document was rejected.
    pub open spec fn spec_stage(self) -> Stage {
        match self {
            VerifyError::MalformedProof => Stage::Parse,
            VerifyError::UnsupportedVersion { .. } => Stage::FormatCheck,
            VerifyError::SignatureInvalid(_) => Stage::SignatureCheck,
            VerifyError::UntrustedKey => Stage::TrustedKeyCheck,
            VerifyError::Io(FileRole::TrustedKeys) => Stage::TrustedKeyCheck,
            VerifyError::CommitMismatch => Stage::CommitCheck,
            VerifyError::LockHashMismatch => Stage::LockFileCheck,
            VerifyError::Io(FileRole::LockFile) => Stage::LockFileCheck,
        }
    }

    /// The check at which the document was rejected.
    #[verifier::when_used_as_spec(spec_stage)]
    pub fn stage(self) -> (stage: Stage)
        ensures
            stage == self.spec_stage(),
    {
        match self {
            VerifyError::MalformedProof => Stage::Parse,
            VerifyError::UnsupportedVersion { .. } => Stage::FormatCheck,
            VerifyError::SignatureInvalid(_) => Stage::SignatureCheck,
            VerifyError::UntrustedKey => Stage::TrustedKeyCheck,
            VerifyError::Io(FileRole::TrustedKeys) => Stage::TrustedKeyCheck,
            VerifyError::CommitMismatch => Stage::CommitCheck,
            VerifyError::LockHashMismatch => Stage::LockFileCheck,
            VerifyError::Io(FileRole::LockFile) => Stage::LockFileCheck,
        }
    }
}

impl Verdict {
    /// Whether the document was accepted.
    pub fn is_accepted(self) -> (accepted: bool)
        ensures
            accepted == (self is Accepted),
    {
        match self {
            Verdict::Accepted(_) => true,
            Verdict::Rejected(_) => false,
        }
    }
}

/// What the format check finds.
pub open spec fn format_outcome(doc: ProofView) -> Result<(), VerifyError> {
    if doc.format_version == FORMAT_VERSION {
        Ok(())
    } else {
        Err(VerifyError::UnsupportedVersion { found: doc.format_version })
    }
}

/// What is wrong with a document's signature, `None` where it holds: key and
/// signature are hexadecimal in lowercase digits and decode to 32 and 64
/// bytes, the key is a public key, and the signature is accepted under it
/// for the canonical encoding of the payload. The faults are looked for in
/// that order: encodings and lengths come before anything is asked of
/// Ed25519.
pub open spec fn signature_fault(doc: ProofView) -> Option<SignatureFault> {
    let key = hex_value(doc.public_key);
    let signature = hex_value(doc.signature);
    if !(is_hex_text(doc.public_key) && is_lower_hex(doc.public_key)) {
        Some(SignatureFault::PublicKeyEncoding)
    } else if key.len() != PUBLIC_KEY_LENGTH {
        Some(SignatureFault::PublicKeyLength)
    } else if !(is_hex_text(doc.signature) && is_lower_hex(doc.signature)) {
        Some(SignatureFault::SignatureEncoding)
    } else if signature.len() != SIGNATURE_LENGTH {
        Some(SignatureFault::SignatureLength)
    } else if !ed25519_key_valid(key) {
        Some(SignatureFault::PublicKeyRejected)
    } else if !ed25519_verifies(key, canonical_encoding(doc.payload), signature) {
        Some(SignatureFault::Mismatch)
    } else {
        None
    }
}

/// What the signature check finds.
pub open spec fn signature_outcome(doc: ProofView) -> Result<(), VerifyError> {
    match signature_fault(doc) {
        None => Ok(()),
        Some(fault) => Err(VerifyError::SignatureInvalid(fault)),
    }
}

/// What the trusted-key check finds. Without a list it is left out and any
/// key passes.
pub open spec fn trust_outcome(public_key: Seq<char>, source: TrustSource) -> Result<
    CheckStatus,
    VerifyError,
> {
    match source {
        TrustSource::NotSupplied => Ok(CheckStatus::Skipped),
        TrustSource::Unreadable => Err(VerifyError::Io(FileRole::TrustedKeys)),
        TrustSource::Keys(list) => if trusted_key_set(list@).contains(public_key) {
            Ok(CheckStatus::Passed)
        } else {
            Err(VerifyError::UntrustedKey)
        },
    }
}

/// What the commit check finds. Without an expected commit there is nothing
/// to compare against, which is no failure.
pub open spec fn commit_outcome(commit: Seq<char>, expected: Option<Seq<char>>, skip: bool) -> Result<
    CheckStatus,
    VerifyError,
> {
    if skip {
        Ok(CheckStatus::Skipped)
    } else {
        match expected {
            None => Ok(CheckStatus::Unavailable),
            Some(e) => if e == commit {
                Ok(CheckStatus::Passed)
            } else {
                Err(VerifyError::CommitMismatch)
            },
        }
    }
}

/// What the lock-file check finds. Without a local lock file there is
/// nothing to compare against, which is no failure. A check that is left out
/// does not look at the file at all.
pub open spec fn lock_outcome(flake_lock_hash: Seq<char>, lock_file: LockFile, skip: bool) -> Result<
    CheckStatus,
    VerifyError,
> {
    if skip {
        Ok(CheckStatus::Skipped)
    } else {
        match lock_file {
            LockFile::Missing => Ok(CheckStatus::Unavailable),
            LockFile::Unreadable => Err(VerifyError::Io(FileRole::LockFile)),
            LockFile::Digest(digest) => if digest@ == flake_lock_hash {
                Ok(CheckStatus::Passed)
            } else {
                Err(VerifyError::LockHashMismatch)
            },
        }
    }
}

/// The verdict of the three checks that follow the signature check: the
/// first failure among trusted key, commit and lock file, or how each ended.
pub open spec fn policy_verdict(doc: ProofView, options: VerifyOptions) -> Verdict {
    match trust_outcome(doc.public_key, options.trusted_keys) {
        Err(e) => Verdict::Rejected(e),
        Ok(trusted_key) => match commit_outcome(
            doc.payload.commit,
            optional_text(options.expected_commit),
            options.skip_commit_check,
        ) {
            Err(e) => Verdict::Rejected(e),
            Ok(commit) => match lock_outcome(
                doc.payload.flake_lock_hash,
                options.lock_file,
                options.skip_flake_lock_check,
            ) {
                Err(e) => Verdict::Rejected(e),
                Ok(lock_file) => Verdict::Accepted(Checks { trusted_key, commit, lock_file }),
            },
        },
    }
}

/// The verdict on a document: the first failure among format, signature,
/// trusted key, commit and lock file, or acceptance.
pub open spec fn verdict_of(doc: ProofView, options: VerifyOptions) -> Verdict {
    match format_outcome(doc) {
        Err(e) => Verdict::Rejected(e),
        Ok(_) => match signature_outcome(doc) {
            Err(e) => Verdict::Rejected(e),
            Ok(_) => policy_verdict(doc, options),
        },
    }
}

/// Whether a document of the given length in bytes is read at all. One
/// that is larger than `MAX_DOCUMENT_BYTES` is turned away before it is
/// parsed.
pub fn check_document_size(length: usize) -> (outcome: Result<(), VerifyError>)
    ensures
        outcome == (if length <= MAX_DOCUMENT_BYTES {
            Ok::<(), VerifyError>(())
        } else {
            Err::<(), VerifyError>(VerifyError::MalformedProof)
        }),
{
    if length <= MAX_DOCUMENT_BYTES {
        Ok(())
    } else {
        Err(VerifyError::MalformedProof)
    }
}

/// Puts together the document that was read from its fields. A document
/// with an empty required field is malformed.
pub fn proof_from_parts(
    facts: BuildFacts,
    timestamp: String,
    nonce: String,
    signature: String,
    public_key: String,
    format_version: u8,
) -> (read: Result<Proof, VerifyError>)
    ensures
        read is Ok <==> facts@.valid() && timestamp@.len() > 0 && nonce@.len() > 0,
        read matches Ok(doc) ==> doc@ == (ProofView {
            payload: PayloadView::of_facts(facts@, timestamp@, nonce@),
            signature: signature@,
            public_key: public_key@,
            format_version,
        }),
        read matches Err(e) ==> e == VerifyError::MalformedProof,
{
    match Payload::new(facts, timestamp, nonce) {
        Ok(payload) => Ok(Proof::new(payload, signature, public_key, format_version)),
        Err(_) => Err(VerifyError::MalformedProof),
    }
}

/// The format check: only version 1 is read.
pub fn check_format_version(doc: &Proof) -> (outcome: Result<(), VerifyError>)
    ensures
        outcome == format_outcome(doc@),
{
    let found = doc.format_version();
    if found == FORMAT_VERSION {
        Ok(())
    } else {
        Err(VerifyError::UnsupportedVersion { found })
    }
}

/// The signature check: decodes key and signature from lowercase
/// hexadecimal, holds each to its length, and only then has Ed25519 read the
/// key and verify the signature over the canonical encoding of the payload.
pub fn verify_signature(doc: &Proof) -> (outcome: Result<(), VerifyError>)
    ensures
        outcome == signature_outcome(doc@),
{
    let key = match from_lower_hex(doc.public_key()) {
        Some(bytes) => bytes,
        None => {
            return Err(VerifyError::SignatureInvalid(SignatureFault::PublicKeyEncoding));
        },
    };
    if key.len() != PUBLIC_KEY_LENGTH {
        return Err(VerifyError::SignatureInvalid(SignatureFault::PublicKeyLength));
    }
    let signature = match from_lower_hex(doc.signature()) {
        Some(bytes) => bytes,
        None => {
            return Err(VerifyError::SignatureInvalid(SignatureFault::SignatureEncoding));
        },
    };
    if signature.len() != SIGNATURE_LENGTH {
        return Err(VerifyError::SignatureInvalid(SignatureFault::SignatureLength));
    }
    let key = array_32(key.as_slice());
    let signature = array_64(signature.as_slice());
    if !public_key_is_valid(&key) {
        return Err(VerifyError::SignatureInvalid(SignatureFault::PublicKeyRejected));
    }
    let message = canonical_bytes(doc.payload());
    if signature_verifies(&key, message.as_slice(), &signature) {
        Ok(())
    } else {
        Err(VerifyError::SignatureInvalid(SignatureFault::Mismatch))
    }
}

/// The trusted-key check.
pub fn check_trust(doc: &Proof, source: &TrustSource) -> (outcome: Result<CheckStatus, VerifyError>)
    ensures
        outcome == trust_outcome(doc@.public_key, *source),
{
    match source {
        TrustSource::NotSupplied => Ok(CheckStatus::Skipped),
        TrustSource::Unreadable => Err(VerifyError::Io(FileRole::TrustedKeys)),
        TrustSource::Keys(list) => {
            if check_trusted_key(doc.public_key(), Some(list.as_str())) {
                Ok(CheckStatus::Passed)
            } else {
                Err(VerifyError::UntrustedKey)
            }
        },
    }
}

/// The commit check.
pub fn check_commit(payload: &Payload, expected: Option<&str>, skip: bool) -> (outcome: Result<
    CheckStatus,
    VerifyError,
>)
    ensures
        outcome == commit_outcome(
            payload@.commit,
            match expected {
                Some(e) => Some(e@),
                None => None,
            },
            skip,
        ),
{
    if skip {
        return Ok(CheckStatus::Skipped);
    }
    match expected {
        None => Ok(CheckStatus::Unavailable),
        Some(e) => {
            if same_text(e, payload.commit()) {
                Ok(CheckStatus::Passed)
            } else {
                Err(VerifyError::CommitMismatch)
            }
        },
    }
}

/// The lock-file check.
pub fn check_lock_file(payload: &Payload, lock_file: &LockFile, skip: bool) -> (outcome: Result<
    CheckStatus,
    VerifyError,
>)
    ensures
        outcome == lock_outcome(payload@.flake_lock_hash, *lock_file, skip),
{
    if skip {
        return Ok(CheckStatus::Skipped);
    }
    match lock_file {
        LockFile::Missing => Ok(CheckStatus::Unavailable),
        LockFile::Unreadable => Err(VerifyError::Io(FileRole::LockFile)),
        LockFile::Digest(digest) => {
            if same_text(digest.as_str(), payload.flake_lock_hash()) {
                Ok(CheckStatus::Passed)
            } else {
                Err(VerifyError::LockHashMismatch)
            }
        },
    }
}

/// The three checks that follow the signature check, in their order.
pub fn check_policies(doc: &Proof, options: &VerifyOptions) -> (verdict: Verdict)
    ensures
        verdict == policy_verdict(doc@, *options),
{
    let trusted_key = match check_trust(doc, &options.trusted_keys) {
        Ok(status) => status,
        Err(e) => {
            return Verdict::Rejected(e);
        },
    };
    let expected = match &options.expected_commit {
        Some(e) => Some(e.as_str()),
        None => None,
    };
    let commit = match check_commit(doc.payload(), expected, options.skip_commit_check) {
        Ok(status) => status,
        Err(e) => {
            return Verdict::Rejected(e);
        },
    };
    let lock_file = match check_lock_file(
        doc.payload(),
        &options.lock_file,
        options.skip_flake_lock_check,
    ) {
        Ok(status) => status,
        Err(e) => {
            return Verdict::Rejected(e);
        },
    };
    Verdict::Accepted(Checks { trusted_key, commit, lock_file })
}

/// Verifies a document: format, signature, trusted key, commit, lock file,
/// each only where all before it passed.
pub fn verify_proof(doc: &Proof, options: &VerifyOptions) -> (verdict: Verdict)
    ensures
        verdict == verdict_of(doc@, *options),
{
    match check_format_version(doc) {
        Err(e) => Verdict::Rejected(e),
        Ok(_) => match verify_signature(doc) {
            Err(e) => Verdict::Rejected(e),
            Ok(_) => check_policies(doc, options),
        },
    }
}

/// Whether the options ask nothing of a document that it does not meet:
/// its key is listed where keys are held to a list, its commit is the
/// expected one where one is expected and compared, and its lock-file digest
/// is the local one where there is a lock file and it is compared.
pub open spec fn options_admit(doc: ProofView, options: VerifyOptions) -> bool {
    &&& match options.trusted_keys {
        TrustSource::NotSupplied => true,
        TrustSource::Unreadable => false,
        TrustSource::Keys(list) => trusted_key_set(list@).contains(doc.public_key),
    }
    &&& (options.skip_commit_check || match options.expected_commit {
        None => true,
        Some(expected) => expected@ == doc.payload.commit,
    })
    &&& (options.skip_flake_lock_check || match options.lock_file {
        LockFile::Missing => true,
        LockFile::Unreadable => false,
        LockFile::Digest(digest) => digest@ == doc.payload.flake_lock_hash,
    })
}

/// A document of format version 1 whose signature holds is accepted under
/// every set of options that asks nothing of it that it does not meet.
pub proof fn lemma_sound_document_is_accepted(doc: ProofView, options: VerifyOptions)
    requires
        format_outcome(doc) is Ok,
        signature_outcome(doc) is Ok,
        options_admit(doc, options),
    ensures
        verdict_of(doc, options) is Accepted,
{
}

/// A document of any other format version than 1 is rejected for its
/// version, whatever its signature, its key and the options are: the format
/// check comes before all others.
pub proof fn lemma_unknown_version_is_rejected(doc: ProofView, options: VerifyOptions)
    requires
        doc.format_version != FORMAT_VERSION,
    ensures
        verdict_of(doc, options) == Verdict::Rejected(
            VerifyError::UnsupportedVersion { found: doc.format_version },
        ),
{
}

/// A document whose signature does not hold is rejected for that, whatever
/// the options are: nothing is compared against its payload.
pub proof fn lemma_signature_comes_before_policy(doc: ProofView, options: VerifyOptions)
    requires
        doc.format_version == FORMAT_VERSION,
        signature_fault(doc) is Some,
    ensures
        verdict_of(doc, options) == Verdict::Rejected(
            VerifyError::SignatureInvalid(signature_fault(doc)->0),
        ),
{
}

/// Without a list of trusted keys no document is rejected for its key: one
/// whose format and signature hold is accepted exactly when the commit check
/// and the lock-file check do not fail, whichever key signed it.
pub proof fn lemma_any_key_passes_without_list(doc: ProofView, options: VerifyOptions)
    requires
        options.trusted_keys is NotSupplied,
        format_outcome(doc) is Ok,
        signature_outcome(doc) is Ok,
    ensures
        verdict_of(doc, options) != Verdict::Rejected(VerifyError::UntrustedKey),
        verdict_of(doc, options) is Accepted <==> commit_outcome(
            doc.payload.commit,
            optional_text(options.expected_commit),
            options.skip_commit_check,
        ) is Ok && lock_outcome(
            doc.payload.flake_lock_hash,
            options.lock_file,
            options.skip_flake_lock_check,
        ) is Ok,
        verdict_of(doc, options) matches Verdict::Accepted(checks) ==> checks.trusted_key
            == CheckStatus::Skipped,
{
}

/// With a list of trusted keys, a document whose format and signature hold
/// and whose key the list does not name is rejected as untrusted.
pub proof fn lemma_unlisted_key_is_rejected(doc: ProofView, options: VerifyOptions)
    requires
        format_outcome(doc) is Ok,
        signature_outcome(doc) is Ok,
        options.trusted_keys matches TrustSource::Keys(list) && !trusted_key_set(list@).contains(
            doc.public_key,
        ),
    ensures
        verdict_of(doc, options) == Verdict::Rejected(VerifyError::UntrustedKey),
{
}

/// Whether a signature holds is decided by Ed25519 over the canonical
/// encoding of the payload as it now stands: a document is past the
/// signature check exactly when its key and signature are lowercase
/// hexadecimal of 32 and 64 bytes, the key is a public key, and the
/// signature is accepted under it for those bytes.
pub proof fn lemma_signature_covers_payload(doc: ProofView)
    ensures
        signature_outcome(doc) is Ok <==> {
            &&& is_hex_text(doc.public_key) && is_lower_hex(doc.public_key)
            &&& hex_value(doc.public_key).len() == PUBLIC_KEY_LENGTH
            &&& is_hex_text(doc.signature) && is_lower_hex(doc.signature)
            &&& hex_value(doc.signature).len() == SIGNATURE_LENGTH
            &&& ed25519_key_valid(hex_value(doc.public_key))
            &&& ed25519_verifies(
                hex_value(doc.public_key),
                canonical_encoding(doc.payload),
                hex_value(doc.signature),
            )
        },
{
}

/// Whether Ed25519 is asked the same of two documents: the same key bytes,
/// the same signature bytes, and the same bytes to be signed.
pub open spec fn same_signature_question(a: ProofView, b: ProofView) -> bool {
    &&& hex_value(a.public_key) == hex_value(b.public_key)
    &&& hex_value(a.signature) == hex_value(b.signature)
    &&& canonical_encoding(a.payload) == canonical_encoding(b.payload)
}

/// A document that was changed after it was signed does not get past the
/// signature check on the strength of the old signature. Where a document
/// is past the check, Ed25519 accepted what it was asked of that document;
/// and it was asked the same as of the signed document only where nothing
/// of payload, key and signature was changed. Any change of a character in
/// one of them either fails the check for its encoding or puts another
/// question to Ed25519.
pub proof fn lemma_tampering_reaches_ed25519(signed: ProofView, tampered: ProofView)
    requires
        is_hex_text(signed.public_key) && is_lower_hex(signed.public_key),
        is_hex_text(signed.signature) && is_lower_hex(signed.signature),
        signature_outcome(tampered) is Ok,
    ensures
        same_signature_question(signed, tampered) ==> {
            &&& tampered.payload == signed.payload
            &&& tampered.public_key == signed.public_key
            &&& tampered.signature == signed.signature
        },
        ed25519_verifies(
            hex_value(tampered.public_key),
            canonical_encoding(tampered.payload),
            hex_value(tampered.signature),
        ),
{
    if same_signature_question(signed, tampered) {
        lemma_canonical_encoding_faithful(signed.payload, tampered.payload);
        lemma_lower_hex_is_unique(signed.public_key, tampered.public_key);
        lemma_lower_hex_is_unique(signed.signature, tampered.signature);
    }
}

impl Stage {
    /// The place of a check in the order in which the checks are made.
    pub open spec fn rank(self) -> int {
        match self {
            Stage::Parse => 0,
            Stage::FormatCheck => 1,
            Stage::SignatureCheck => 2,
            Stage::TrustedKeyCheck => 3,
            Stage::CommitCheck => 4,
            Stage::LockFileCheck => 5,
        }
    }
}

/// Whether a check, taken by itself, does not fail for a document that was
/// read.
pub open spec fn stage_passes(doc: ProofView, options: VerifyOptions, stage: Stage) -> bool {
    match stage {
        Stage::Parse => true,
        Stage::FormatCheck => format_outcome(doc) is Ok,
        Stage::SignatureCheck => signature_outcome(doc) is Ok,
        Stage::TrustedKeyCheck => trust_outcome(doc.public_key, options.trusted_keys) is Ok,
        Stage::CommitCheck => commit_outcome(
            doc.payload.commit,
            optional_text(options.expected_commit),
            options.skip_commit_check,
        ) is Ok,
        Stage::LockFileCheck => lock_outcome(
            doc.payload.flake_lock_hash,
            options.lock_file,
            options.skip_flake_lock_check,
        ) is Ok,
    }
}

/// The first check that fails decides. A document is rejected at the first
/// check, in the order of the checks, that fails for it, with the error of
/// that check; it is accepted when none fails.
pub proof fn lemma_first_failure_decides(doc: ProofView, options: VerifyOptions)
    ensures
        match verdict_of(doc, options) {
            Verdict::Rejected(error) => {
                &&& !stage_passes(doc, options, error.spec_stage())
                &&& forall|earlier: Stage|
                    earlier.rank() < error.spec_stage().rank() ==> #[trigger] stage_passes(
                        doc,
                        options,
                        earlier,
                    )
            },
            Verdict::Accepted(_) => forall|stage: Stage| #[trigger]
                stage_passes(doc, options, stage),
        },
{
}

} // verus!
