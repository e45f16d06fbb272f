//! The ways in which an analysis fails.

use vstd::prelude::*;
use vstd::string::StringExecFns;

verus! {

/// Why no footprint or no metadata could be had. Each failure keeps its kind
/// from where it arose up to the caller.
#[derive(Debug, PartialEq, Eq)]
pub enum AnalysisError {
    /// The registry or the archive's origin could not be reached, or answered
    /// with a failure.
    Network(String),
    /// The registry's answer was not the metadata expected.
    Parse(String),
    /// The registry lists no binary distribution for the package.
    NoDistributableFound { package: String, version: String },
    /// The archive's directory could not be read.
    ArchiveFormat(String),
    /// The cache's lock is in a state in which it cannot be used.
    CacheUnavailable(String),
    /// The archive could not be staged on local storage.
    Io(String),
}

impl Clone for AnalysisError {
    fn clone(&self) -> (copy: Self)
        ensures
            message_of(copy) == message_of(*self),
            copy is Network <==> *self is Network,
            copy is Parse <==> *self is Parse,
            copy is NoDistributableFound <==> *self is NoDistributableFound,
            copy is ArchiveFormat <==> *self is ArchiveFormat,
            copy is CacheUnavailable <==> *self is CacheUnavailable,
            copy is Io <==> *self is Io,
    {
        match self {
            AnalysisError::Network(text) => AnalysisError::Network(text.clone()),
            AnalysisError::Parse(text) => AnalysisError::Parse(text.clone()),
            AnalysisError::NoDistributableFound { package, version } => {
                AnalysisError::NoDistributableFound {
                    package: package.clone(),
                    version: version.clone(),
                }
            },
            AnalysisError::ArchiveFormat(text) => AnalysisError::ArchiveFormat(text.clone()),
            AnalysisError::CacheUnavailable(text) => AnalysisError::CacheUnavailable(text.clone()),
            AnalysisError::Io(text) => AnalysisError::Io(text.clone()),
        }
    }
}

/// The text of a failure, as a caller is shown it.
pub open spec fn message_of(error: AnalysisError) -> Seq<char> {
    match error {
        AnalysisError::Network(text) => text@,
        AnalysisError::Parse(text) => text@,
        AnalysisError::NoDistributableFound { package, version } => "No wheel found for package: "@
            + package@ + ", version: "@ + version@,
        AnalysisError::ArchiveFormat(text) => text@,
        AnalysisError::CacheUnavailable(text) => text@,
        AnalysisError::Io(text) => text@,
    }
}

impl AnalysisError {
    /// The text of this failure: the text it carries, or, where no binary
    /// distribution was found, a sentence that names the package and the
    /// version.
    pub fn message(&self) -> (text: String)
        ensures
            text@ == message_of(*self),
    {
        match self {
            AnalysisError::NoDistributableFound { package, version } => {
                let text = String::from_str("No wheel found for package: ");
                let text = text.concat(package.as_str());
                let text = text.concat(", version: ");
                text.concat(version.as_str())
            },
            AnalysisError::Network(text) => text.clone(),
            AnalysisError::Parse(text) => text.clone(),
            AnalysisError::ArchiveFormat(text) => text.clone(),
            AnalysisError::CacheUnavailable(text) => text.clone(),
            AnalysisError::Io(text) => text.clone(),
        }
    }
}

} // verus!
