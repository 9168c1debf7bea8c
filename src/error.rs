//! The errors that registry operations report.
use vstd::prelude::*;

verus! {

/// What went wrong in a registry, manifest or loader operation.
#[derive(Debug, Clone, PartialEq, Eq)]
pub enum TalonError {
    /// The manifest text has no frontmatter block, or the block is blank.
    MissingFrontmatter,
    /// The frontmatter block does not describe a manifest; holds the reason.
    InvalidFrontmatter(String),
    /// A package directory has no manifest file; holds the directory.
    ManifestNotFound(String),
    /// A package name cannot stand as a directory name inside the registry;
    /// holds the name.
    InvalidName(String),
    /// No installed package has the given name; holds the name.
    NotFound(String),
    /// A filesystem operation failed; holds the path and the cause.
    IOFailure(String),
    /// The persisted index exists but cannot be read back; holds the cause.
    IndexCorrupt(String),
}

} // verus!
