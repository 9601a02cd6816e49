//! The errors the tool reports.

use vstd::prelude::*;

verus! {

/// Everything that can go wrong in a command.
#[derive(Debug)]
pub enum VoltError {
    /// An environment value could not be read.
    EnvironmentError { env: String, source: String },
    /// The home directory is unknown.
    GetHomeDirError,
    /// A directory could not be created.
    CreateDirError { source: String },
    /// `~/.gitconfig` could not be parsed.
    GitConfigParseError { error_text: String },
    /// The registry could not be reached.
    NetworkError { message: String },
    /// The registry answered 429.
    TooManyRequests { url: String },
    /// The registry answered 400.
    BadRequest { url: String },
    /// The registry answered 404 on the last attempt.
    PackageNotFound { url: String, package_name: String },
    /// The registry answered another status on the last attempt.
    NetworkUnknownError { url: String, package_name: String, code: String },
    /// A tarball's digest differs from its integrity string.
    ChecksumVerificationError,
}

} // verus!
