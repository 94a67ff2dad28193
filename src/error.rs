//! The ways a release run can stop.

use vstd::prelude::*;

verus! {

/// What was wrong with a manifest or with a file derived from it.
#[derive(Debug, Clone, Copy, PartialEq, Eq, Structural)]
pub enum ManifestFault {
    /// The manifest text could not be parsed in its format.
    Malformed,
    /// No version field was found.
    MissingVersion,
    /// The version field holds something other than a string.
    VersionNotString,
    /// The readme holds no artifact identifier between its tags.
    MissingArtifact,
}

/// Which verification step of a toolchain failed.
#[derive(Debug, Clone, Copy, PartialEq, Eq, Structural)]
pub enum CheckStep {
    Lint,
    TypeCheck,
    Test,
}

/// Which version-control operation failed.
#[derive(Debug, Clone, Copy, PartialEq, Eq, Structural)]
pub enum VcsOperation {
    Status,
    Fetch,
    CountBehind,
    Command,
}

#[derive(Debug, Clone, PartialEq, Eq)]
pub enum ReleaseError {
    /// No known marker file was found.
    Detection,
    /// More than one lockfile was found.
    AmbiguousToolchain,
    /// No lockfile was found for an ecosystem that needs one.
    MissingToolchain,
    /// A test-file pattern did not compile.
    InvalidPattern,
    /// The manifest could not be read or its version field was not found.
    Manifest(ManifestFault),
    /// A verification step failed; carries the step's captured output.
    CheckFailure(CheckStep, String),
    /// A version-control command failed; carries its captured error output.
    Vcs(VcsOperation, String),
    /// The working tree has uncommitted changes.
    DirtyTree,
    /// The local branch lacks commits of its upstream.
    BehindUpstream,
}

/// `e` is the failure of the version-control operation `op` with output `msg`.
pub open spec fn is_vcs_error(e: ReleaseError, op: VcsOperation, msg: Seq<char>) -> bool {
    match e {
        ReleaseError::Vcs(o, m) => o == op && m@ == msg,
        _ => false,
    }
}

} // verus!
