use vstd::prelude::*;

verus! {

/// The failure taxonomy of the three commands. Each variant wraps the
/// operating-system message verbatim; nothing is recovered or retried, and
/// the boundary renders every failure as plain text for the caller.
#[derive(Debug, PartialEq, Eq)]
pub enum FsError {
    /// Canonicalization could not resolve the joined path on the real
    /// filesystem (typically because it does not exist).
    NotFound(String),
    /// The directory could not be opened for enumeration at all.
    IoError(String),
    /// The external file-manager process could not be launched.
    SpawnError(String),
}

impl FsError {
    /// The operating-system message carried by the error, as a sequence of
    /// characters.
    pub open spec fn message_spec(&self) -> Seq<char> {
        match self {
            FsError::NotFound(m) => m@,
            FsError::IoError(m) => m@,
            FsError::SpawnError(m) => m@,
        }
    }

    /// Renders the error as the plain text that crosses the boundary to the
    /// caller: the wrapped message, surfaced verbatim.
    pub fn message(&self) -> (r: &str)
        ensures
            r@ == self.message_spec(),
    {
        match self {
            FsError::NotFound(m) => m.as_str(),
            FsError::IoError(m) => m.as_str(),
            FsError::SpawnError(m) => m.as_str(),
        }
    }
}

} // verus!
