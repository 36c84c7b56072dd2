//! The attested facts and the signed document that carries them.

use vstd::prelude::*;

verus! {

/// What a build supplies to be attested: where the source stood, what was
/// built from it and how.
#[derive(Clone, Debug, PartialEq, Eq)]
pub struct BuildFacts {
    /// The source revision.
    pub commit: String,
    /// Digest of the dependency lock file at build time.
    pub flake_lock_hash: String,
    /// The exact command that was run.
    pub build_command: String,
    /// Digest of the produced artifact.
    pub artifact_tar_hash: String,
    /// Digest of the build recipe, where known.
    pub drv_hash: Option<String>,
    /// Digest of the build log, where known.
    pub build_log_hash: Option<String>,
}

/// The facts of a `BuildFacts` as plain sequences.
pub struct BuildFactsView {
    pub commit: Seq<char>,
    pub flake_lock_hash: Seq<char>,
    pub build_command: Seq<char>,
    pub artifact_tar_hash: Seq<char>,
    pub drv_hash: Option<Seq<char>>,
    pub build_log_hash: Option<Seq<char>>,
}

/// The text of an optional string.
pub open spec fn optional_text(text: Option<String>) -> Option<Seq<char>> {
    match text {
        Some(t) => Some(t@),
        None => None,
    }
}

impl View for BuildFacts {
    type V = BuildFactsView;

    open spec fn view(&self) -> BuildFactsView {
        BuildFactsView {
            commit: self.commit@,
            flake_lock_hash: self.flake_lock_hash@,
            build_command: self.build_command@,
            artifact_tar_hash: self.artifact_tar_hash@,
            drv_hash: optional_text(self.drv_hash),
            build_log_hash: optional_text(self.build_log_hash),
        }
    }
}

impl BuildFactsView {
    /// Facts can be attested when each required one is given: none of the
    /// four is empty.
    pub open spec fn valid(self) -> bool {
        &&& self.commit.len() > 0
        &&& self.flake_lock_hash.len() > 0
        &&& self.build_command.len() > 0
        &&& self.artifact_tar_hash.len() > 0
    }

    /// The first required fact that is empty, where there is one.
    pub open spec fn first_empty_fact(self) -> Option<RequiredField> {
        if self.commit.len() == 0 {
            Some(RequiredField::Commit)
        } else if self.flake_lock_hash.len() == 0 {
            Some(RequiredField::FlakeLockHash)
        } else if self.build_command.len() == 0 {
            Some(RequiredField::BuildCommand)
        } else if self.artifact_tar_hash.len() == 0 {
            Some(RequiredField::ArtifactTarHash)
        } else {
            None
        }
    }
}

/// The attested facts with the time of the build and a nonce: what the
/// signature covers. Once made it does not change, and none of its required
/// fields is empty.
#[derive(Debug, PartialEq, Eq)]
pub struct Payload {
    commit: String,
    flake_lock_hash: String,
    build_command: String,
    artifact_tar_hash: String,
    drv_hash: Option<String>,
    build_log_hash: Option<String>,
    timestamp: String,
    nonce: String,
}

/// The fields of a `Payload` as plain sequences.
pub struct PayloadView {
    pub commit: Seq<char>,
    pub flake_lock_hash: Seq<char>,
    pub build_command: Seq<char>,
    pub artifact_tar_hash: Seq<char>,
    pub drv_hash: Option<Seq<char>>,
    pub build_log_hash: Option<Seq<char>>,
    pub timestamp: Seq<char>,
    pub nonce: Seq<char>,
}

/// A field that every payload has to have, and not empty.
#[derive(Clone, Copy, Debug, PartialEq, Eq, Structural)]
pub enum RequiredField {
    Commit,
    FlakeLockHash,
    BuildCommand,
    ArtifactTarHash,
    Timestamp,
    Nonce,
}

impl PayloadView {
    /// Every field but the two optional ones is present and not empty.
    pub open spec fn well_formed(self) -> bool {
        &&& self.commit.len() > 0
        &&& self.flake_lock_hash.len() > 0
        &&& self.build_command.len() > 0
        &&& self.artifact_tar_hash.len() > 0
        &&& self.timestamp.len() > 0
        &&& self.nonce.len() > 0
    }

    /// The first required field that is empty, in the order of the fields,
    /// where there is one.
    pub open spec fn first_empty_field(self) -> Option<RequiredField> {
        if self.commit.len() == 0 {
            Some(RequiredField::Commit)
        } else if self.flake_lock_hash.len() == 0 {
            Some(RequiredField::FlakeLockHash)
        } else if self.build_command.len() == 0 {
            Some(RequiredField::BuildCommand)
        } else if self.artifact_tar_hash.len() == 0 {
            Some(RequiredField::ArtifactTarHash)
        } else if self.timestamp.len() == 0 {
            Some(RequiredField::Timestamp)
        } else if self.nonce.len() == 0 {
            Some(RequiredField::Nonce)
        } else {
            None
        }
    }

    /// The payload that attests the given facts at the given time under the
    /// given nonce.
    pub open spec fn of_facts(facts: BuildFactsView, timestamp: Seq<char>, nonce: Seq<char>) -> PayloadView {
        PayloadView {
            commit: facts.commit,
            flake_lock_hash: facts.flake_lock_hash,
            build_command: facts.build_command,
            artifact_tar_hash: facts.artifact_tar_hash,
            drv_hash: facts.drv_hash,
            build_log_hash: facts.build_log_hash,
            timestamp,
            nonce,
        }
    }
}

impl View for Payload {
    type V = PayloadView;

    closed spec fn view(&self) -> PayloadView {
        PayloadView {
            commit: self.commit@,
            flake_lock_hash: self.flake_lock_hash@,
            build_command: self.build_command@,
            artifact_tar_hash: self.artifact_tar_hash@,
            drv_hash: optional_text(self.drv_hash),
            build_log_hash: optional_text(self.build_log_hash),
            timestamp: self.timestamp@,
            nonce: self.nonce@,
        }
    }
}

impl Payload {
    #[verifier::type_invariant]
    spec fn inv(self) -> bool {
        self@.well_formed()
    }

    /// Makes a payload from the facts, the time of the build and the nonce.
    /// There is none where a required fact, the timestamp or the nonce is
    /// empty: the first such field is named instead.
    pub fn new(facts: BuildFacts, timestamp: String, nonce: String) -> (made: Result<
        Payload,
        RequiredField,
    >)
        ensures
            match PayloadView::of_facts(facts@, timestamp@, nonce@).first_empty_field() {
                Some(field) => made == Err::<Payload, RequiredField>(field),
                None => made is Ok && made->Ok_0@ == PayloadView::of_facts(
                    facts@,
                    timestamp@,
                    nonce@,
                ),
            },
            made is Ok <==> facts@.valid() && timestamp@.len() > 0 && nonce@.len() > 0,
    {
        if facts.commit.as_str().is_empty() {
            Err(RequiredField::Commit)
        } else if facts.flake_lock_hash.as_str().is_empty() {
            Err(RequiredField::FlakeLockHash)
        } else if facts.build_command.as_str().is_empty() {
            Err(RequiredField::BuildCommand)
        } else if facts.artifact_tar_hash.as_str().is_empty() {
            Err(RequiredField::ArtifactTarHash)
        } else if timestamp.as_str().is_empty() {
            Err(RequiredField::Timestamp)
        } else if nonce.as_str().is_empty() {
            Err(RequiredField::Nonce)
        } else {
            Ok(
                Payload {
                    commit: facts.commit,
                    flake_lock_hash: facts.flake_lock_hash,
                    build_command: facts.build_command,
                    artifact_tar_hash: facts.artifact_tar_hash,
                    drv_hash: facts.drv_hash,
                    build_log_hash: facts.build_log_hash,
                    timestamp,
                    nonce,
                },
            )
        }
    }

    /// The source revision.
    pub fn commit(&self) -> (text: &str)
        ensures
            text@ == self@.commit,
            self@.well_formed(),
    {
        proof {
            use_type_invariant(self);
        }
        self.commit.as_str()
    }

    /// Digest of the dependency lock file at build time.
    pub fn flake_lock_hash(&self) -> (text: &str)
        ensures
            text@ == self@.flake_lock_hash,
            self@.well_formed(),
    {
        proof {
            use_type_invariant(self);
        }
        self.flake_lock_hash.as_str()
    }

    /// The exact command that was run.
    pub fn build_command(&self) -> (text: &str)
        ensures
            text@ == self@.build_command,
            self@.well_formed(),
    {
        proof {
            use_type_invariant(self);
        }
        self.build_command.as_str()
    }

    /// Digest of the produced artifact.
    pub fn artifact_tar_hash(&self) -> (text: &str)
        ensures
            text@ == self@.artifact_tar_hash,
            self@.well_formed(),
    {
        proof {
            use_type_invariant(self);
        }
        self.artifact_tar_hash.as_str()
    }

    /// Digest of the build recipe, where the payload has one.
    pub fn drv_hash(&self) -> (text: Option<&str>)
        ensures
            text is Some <==> self@.drv_hash is Some,
            text matches Some(t) ==> Some(t@) == self@.drv_hash,
    {
        match &self.drv_hash {
            Some(t) => Some(t.as_str()),
            None => None,
        }
    }

    /// Digest of the build log, where the payload has one.
    pub fn build_log_hash(&self) -> (text: Option<&str>)
        ensures
            text is Some <==> self@.build_log_hash is Some,
            text matches Some(t) ==> Some(t@) == self@.build_log_hash,
    {
        match &self.build_log_hash {
            Some(t) => Some(t.as_str()),
            None => None,
        }
    }

    /// The time of the build.
    pub fn timestamp(&self) -> (text: &str)
        ensures
            text@ == self@.timestamp,
            self@.well_formed(),
    {
        proof {
            use_type_invariant(self);
        }
        self.timestamp.as_str()
    }

    /// The nonce that tells this payload from any other of the same facts.
    pub fn nonce(&self) -> (text: &str)
        ensures
            text@ == self@.nonce,
            self@.well_formed(),
    {
        proof {
            use_type_invariant(self);
        }
        self.nonce.as_str()
    }
}

impl Clone for Payload {
    /// A payload with the same fields.
    fn clone(&self) -> (copy: Payload)
        ensures
            copy@ == self@,
    {
        proof {
            use_type_invariant(self);
        }
        Payload {
            commit: self.commit.clone(),
            flake_lock_hash: self.flake_lock_hash.clone(),
            build_command: self.build_command.clone(),
            artifact_tar_hash: self.artifact_tar_hash.clone(),
            drv_hash: match &self.drv_hash {
                Some(t) => Some(t.clone()),
                None => None,
            },
            build_log_hash: match &self.build_log_hash {
                Some(t) => Some(t.clone()),
                None => None,
            },
            timestamp: self.timestamp.clone(),
            nonce: self.nonce.clone(),
        }
    }
}

/// The signed document: a payload, the signature over its canonical
/// encoding, the key that verifies it, and the version of the format.
#[derive(Clone, Debug, PartialEq, Eq)]
pub struct Proof {
    payload: Payload,
    signature: String,
    public_key: String,
    format_version: u8,
}

/// The fields of a `Proof` as plain values.
pub struct ProofView {
    pub payload: PayloadView,
    pub signature: Seq<char>,
    pub public_key: Seq<char>,
    pub format_version: u8,
}

impl View for Proof {
    type V = ProofView;

    closed spec fn view(&self) -> ProofView {
        ProofView {
            payload: self.payload@,
            signature: self.signature@,
            public_key: self.public_key@,
            format_version: self.format_version,
        }
    }
}

impl Proof {
    /// Puts a document together from its four parts. Nothing is checked
    /// here: whether the signature holds is for the verifier to say.
    pub fn new(payload: Payload, signature: String, public_key: String, format_version: u8) -> (doc:
        Proof)
        ensures
            doc@ == (ProofView {
                payload: payload@,
                signature: signature@,
                public_key: public_key@,
                format_version,
            }),
    {
        Proof { payload, signature, public_key, format_version }
    }

    /// The attested facts.
    pub fn payload(&self) -> (payload: &Payload)
        ensures
            payload@ == self@.payload,
    {
        &self.payload
    }

    /// The signature, in hexadecimal.
    pub fn signature(&self) -> (text: &str)
        ensures
            text@ == self@.signature,
    {
        self.signature.as_str()
    }

    /// The verification key, in hexadecimal.
    pub fn public_key(&self) -> (text: &str)
        ensures
            text@ == self@.public_key,
    {
        self.public_key.as_str()
    }

    /// The version of the document format.
    pub fn format_version(&self) -> (version: u8)
        ensures
            version == self@.format_version,
    {
        self.format_version
    }
}

} // verus!
