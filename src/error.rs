use vstd::prelude::*;

verus! {

/// The failures that the browsing operations report.
#[derive(Debug, Clone, PartialEq, Eq)]
pub enum CommandError {
    /// A read, write, create or remove failed; carries the system's message.
    Io(String),
    /// The target of the operation does not exist.
    PathNotFound(String),
    /// Sibling resolution was asked for a path that has no parent.
    NoParent,
    /// The archive could not be read as a container; carries the reason.
    ArchiveFormat(String),
    /// An archive entry would be written outside the destination directory.
    UnsafeEntry(String),
}

} // verus!
