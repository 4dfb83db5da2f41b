use vstd::prelude::*;

verus! {

/// Reason a pinned `git+` source string failed to parse.
#[derive(Clone, Copy, Debug, PartialEq, Eq, Structural)]
pub enum SourceGitPinnedParseError {
    /// The string does not begin with the literal prefix `git+`.
    Prefix,
    /// The repository portion is not a well-formed URL.
    Url,
    /// The `?reference=` marker is missing.
    Reference,
    /// The `#` separator and trailing commit hash are missing.
    CommitHash,
}

/// Errors raised while constructing, validating, or driving a build plan.
///
/// Every error carries the package name, reference, or path needed to
/// diagnose the failure without re-running with added instrumentation.
#[derive(Clone, Debug, PartialEq, Eq)]
pub enum Error {
    /// The dependency graph admits no dependency-first total order.
    DependencyCycle,
    /// The graph holds no node at all, so it cannot describe a project.
    EmptyGraph,
    /// Cloning the named package's repository failed.
    GitCloneFailure { name: String, repo: String },
    /// The named git reference was not found in the package's repository.
    GitReferenceNotFound { name: String, reference: String },
    /// The named git reference did not resolve to a commit.
    GitCommitResolutionFailure { name: String, reference: String },
    /// Checking the pinned commit out into the cache directory failed.
    GitCheckoutFailure { name: String },
    /// A declared git repository location is not a well-formed URL.
    InvalidUrl { url: String },
    /// The pinned graph no longer matches the manifest's declarations.
    LockManifestMismatch,
    /// No manifest could be loaded at the given path.
    ManifestLoadFailure { path: String },
    /// A pinned `path` dependency's source directory is missing on disk.
    MissingPathDependencySource { name: String },
    /// A `path`-pinned node does not have exactly one incoming edge, so its
    /// location cannot be derived from a single parent.
    AmbiguousPathDependencyParent { name: String },
    /// A non-local dependency was requested while offline mode is active.
    OfflineViolation { name: String },
    /// A dependency's resolved package name differs from the project name in
    /// its own manifest, and no `package` alias excuses the difference.
    PackageNameMismatch { dependency_name: String, manifest_name: String },
    /// The dependency declaration names no supported source kind: only `git`
    /// and `path` dependencies are supported.
    UnsupportedDependencyKind { name: String },
    /// Registry-sourced packages are acknowledged but not yet implemented.
    RegistryUnsupported { name: String },
    /// Compiling the named package failed.
    CompilationFailure { name: String },
}

} // verus!
