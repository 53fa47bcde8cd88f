//! The library's error type.
use vstd::prelude::*;

verus! {

/// Errors reported by the library. Paths and ids are carried as text.
#[derive(Debug)]
pub enum Error {
    /// Reading or writing a file failed.
    Io { path: String, reason: String },
    /// Project or configuration state is invalid.
    InvalidState { path: String, reason: String },
    /// The lockfile could not be interpreted.
    InvalidLockfile { path: String, reason: String },
    /// The lockfile kind or version is not supported.
    UnsupportedLockfile { path: String, reason: String },
    /// No lockfile was found under the project root.
    MissingLockfile { root: String },
    /// Building the dependency tree failed.
    MaterializationFailed { path: String, reason: String },
    /// Bytes did not hash to the expected artifact id.
    ArtifactHashMismatch { id: String, reason: String },
    /// The store holds no object for the id.
    ArtifactNotFound { id: String },
    /// A stored object no longer hashes to its id.
    CorruptArtifact { id: String, reason: String },
    /// A download failed or was refused.
    FetchFailed { url: String, reason: String },
    /// Bytes did not match the expected integrity.
    IntegrityCheckFailed { package: String, reason: String },
    /// The directory is not inside a git repository.
    NotAGitRepository { path: String },
    /// A git command failed.
    Git { message: String },
    /// The project has no `.weave/` directory yet.
    NotInitialized { root: String },
}

impl Error {
    /// The reason text carried by the error (empty for variants without one).
    pub open spec fn reason_of(self) -> Seq<char> {
        match self {
            Error::Io { reason, .. } => reason@,
            Error::InvalidState { reason, .. } => reason@,
            Error::InvalidLockfile { reason, .. } => reason@,
            Error::UnsupportedLockfile { reason, .. } => reason@,
            Error::MissingLockfile { .. } => Seq::empty(),
            Error::MaterializationFailed { reason, .. } => reason@,
            Error::ArtifactHashMismatch { reason, .. } => reason@,
            Error::ArtifactNotFound { .. } => Seq::empty(),
            Error::CorruptArtifact { reason, .. } => reason@,
            Error::FetchFailed { reason, .. } => reason@,
            Error::IntegrityCheckFailed { reason, .. } => reason@,
            Error::NotAGitRepository { .. } => Seq::empty(),
            Error::Git { message } => message@,
            Error::NotInitialized { .. } => Seq::empty(),
        }
    }

    /// The reason text carried by the error.
    pub fn reason(&self) -> (r: String)
        ensures
            r@ == self.reason_of(),
    {
        match self {
            Error::Io { reason, .. } => reason.clone(),
            Error::InvalidState { reason, .. } => reason.clone(),
            Error::InvalidLockfile { reason, .. } => reason.clone(),
            Error::UnsupportedLockfile { reason, .. } => reason.clone(),
            Error::MissingLockfile { .. } => String::new(),
            Error::MaterializationFailed { reason, .. } => reason.clone(),
            Error::ArtifactHashMismatch { reason, .. } => reason.clone(),
            Error::ArtifactNotFound { .. } => String::new(),
            Error::CorruptArtifact { reason, .. } => reason.clone(),
            Error::FetchFailed { reason, .. } => reason.clone(),
            Error::IntegrityCheckFailed { reason, .. } => reason.clone(),
            Error::NotAGitRepository { .. } => String::new(),
            Error::Git { message } => message.clone(),
            Error::NotInitialized { .. } => String::new(),
        }
    }
}

} // verus!
