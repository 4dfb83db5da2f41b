//! Build planning for a package-aware compiler frontend.
//!
//! The crate models package sources (git, path, registry), pins them to
//! exact versions, assembles a directed dependency graph, computes a
//! dependency-first compilation order, validates a plan against a manifest,
//! reconstructs local paths from a persisted lock graph, composes
//! dependency namespaces, and keeps the books while a build runs.
//!
//! All operations with effects — cloning repositories, reading manifest
//! files, probing directories, compiling packages — are expressed as
//! explicit actions handed to the caller; the planning decisions between
//! those actions are verified.

pub mod error;
pub mod fetch;
pub mod graph;
pub mod hashing;
pub mod ir_error;
pub mod manifest;
pub mod namespace;
pub mod orchestrator;
pub mod paths;
pub mod pin_str;
pub mod plan;
pub mod reconstruct;
pub mod source;
pub mod storage;
pub mod text;
pub mod variable;

pub use error::Error;
pub use error::SourceGitPinnedParseError;
pub use fetch::FetchAction;
pub use fetch::FetchEvent;
pub use fetch::Fetcher;
pub use fetch::PinFailure;
pub use graph::Graph;
pub use graph::GraphEdge;
pub use ir_error::IrError;
pub use manifest::Dependency;
pub use manifest::DependencyDetails;
pub use manifest::Manifest;
pub use manifest::Project;
pub use namespace::dependency_namespace;
pub use orchestrator::AbiEntry;
pub use orchestrator::BuildConfig;
pub use orchestrator::BuildProgress;
pub use orchestrator::Compiled;
pub use plan::BuildPlan;
pub use plan::PathMap;
pub use reconstruct::PathResolver;
pub use reconstruct::ResolveAction;
pub use reconstruct::ResolveEvent;
pub use source::Pinned;
pub use source::PinnedId;
pub use source::Pkg;
pub use source::SemverVersion;
pub use source::Source;
pub use source::SourceGit;
pub use source::SourceGitPinned;
pub use source::SourcePinned;
pub use source::SourceRegistry;
pub use source::SourceRegistryPinned;
pub use storage::TypeId;
pub use storage::TypedExpression;
pub use storage::TypedStorageField;
pub use variable::check_if_name_is_invalid;
pub use variable::CompileError;
pub use variable::CompileResult;
pub use variable::Ident;
pub use variable::Span;
pub use variable::VariableMutability;
pub use variable::Visibility;
