//! Error types for detection operations.

use vstd::prelude::*;

verus! {

/// Errors reported by the loading, cache, baseline and output layers. The
/// match engine and the scheduler are infallible by contract.
#[derive(Debug)]
pub enum DuploError {
    /// A file could not be opened or read.
    FileNotFound { path: String, reason: String },
    /// A file has too many cleaned lines for the configured thread count.
    FileTooLarge { path: String, lines: usize, threads: usize, max_lines: usize },
    /// Memory allocation failed.
    AllocationFailed(String),
    /// Invalid configuration.
    InvalidConfig(String),
    /// Conflicting output format options.
    OutputFormatConflict,
    /// An I/O error, with its message.
    Io(String),
    /// A version-control operation failed.
    GitError(String),
    /// Not inside a version-controlled repository.
    NotGitRepo,
    /// A cache operation failed.
    CacheError(String),
    /// A baseline file could not be used.
    BaselineError(String),
    /// A baseline carries an unsupported format version.
    BaselineVersionMismatch { found: u32, expected: u32 },
    /// Any other error.
    Other(String),
}

} // verus!
