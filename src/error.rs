//! The failures of negotiation, tip updates and identity handling, each
//! carrying the cause it came from.
use vstd::prelude::*;

use git2::Error as GitError;

use crate::identities::VerificationError;
use crate::ids::Urn;
use crate::refs::Scoped;

verus! {

/// Relies on `git2::Error` only as a type: a failure of the version-control
/// library is carried through unchanged, and nothing is assumed of it.
#[verifier::external_type_specification]
#[verifier::external_body]
pub struct ExGitError(GitError);

/// A failure reported by a collaborator (storage, configuration, identity
/// history), kept as its description.
#[derive(Debug)]
pub struct Cause {
    pub message: String,
}

/// The failures of loading, verifying and storing identities.
#[derive(Debug)]
pub enum Error {
    /// The identifier does not exist.
    NotFound(Urn),
    /// The identifier does not form a valid ref name.
    Ref(Cause),
    /// The local peer's identity mapping is invalid.
    LocalId(Cause),
    /// The identity failed verification.
    Verification(VerificationError),
    /// The storage configuration failed.
    Config(Cause),
    /// The local storage failed.
    Storage(Cause),
    /// The identity history failed verification.
    Verify(Cause),
    /// Two identity histories could not be merged.
    Merge(Cause),
    /// An identity could not be loaded.
    Load(Cause),
    /// An identity could not be stored.
    Store(Cause),
    /// The version-control library failed.
    Git(GitError),
}

impl From<GitError> for Error {
    fn from(e: GitError) -> (r: Error) {
        Error::Git(e)
    }
}

impl vstd::std_specs::convert::FromSpecImpl<GitError> for Error {
    open spec fn obeys_from_spec() -> bool {
        true
    }

    open spec fn from_spec(e: GitError) -> Error {
        Error::Git(e)
    }
}

impl From<VerificationError> for Error {
    fn from(e: VerificationError) -> (r: Error) {
        Error::Verification(e)
    }
}

impl vstd::std_specs::convert::FromSpecImpl<VerificationError> for Error {
    open spec fn obeys_from_spec() -> bool {
        true
    }

    open spec fn from_spec(e: VerificationError) -> Error {
        Error::Verification(e)
    }
}

/// A peer's advertisement lacks refs the negotiation requires.
#[derive(Debug)]
pub enum Layout {
    /// The required refs that were not advertised, in the order required.
    MissingRequiredRefs(Vec<Scoped>),
}

/// Tip updates could not be prepared.
#[derive(Debug)]
pub enum Prepare {
    /// The fetched identity history did not verify.
    Verification(VerificationError),
}

/// Wants and haves could not be computed.
#[derive(Debug)]
pub enum WantsHaves<E> {
    /// Looking up a local ref failed.
    Find(E),
}

/// A clone negotiation failed before any transfer.
#[derive(Debug)]
pub enum Negotiate<E> {
    /// The advertisement lacks required refs.
    Layout(Layout),
    /// Wants and haves could not be computed.
    WantsHaves(WantsHaves<E>),
}

} // verus!
