//! The package identity model: unpinned sources, pinned sources, and the
//! deterministic fingerprint of a pinned package.

use vstd::prelude::*;

use crate::hashing::fnv_chars;
use crate::hashing::fnv_step;
use crate::hashing::fnv_str;
use crate::hashing::fnv_u64;
use crate::hashing::spec_fnv_u64;
use crate::hashing::FNV_OFFSET;
use crate::text::str_eq;

verus! {

/// A semantic version, held as its three numeric components.
#[derive(Clone, Copy, Debug, PartialEq, Eq, Structural)]
pub struct SemverVersion {
    pub major: u64,
    pub minor: u64,
    pub patch: u64,
}

/// A git repository location plus a movable reference such as a branch or
/// tag. The repository location is kept as the URL text it was declared
/// with.
#[derive(Debug)]
pub struct SourceGit {
    /// The URL at which the repository is located.
    pub repo: String,
    /// A git reference, e.g. a branch or tag.
    pub reference: String,
}

/// A package on a registry, by base version. Registry sources are part of
/// the data model but unimplemented downstream: every attempt to resolve one
/// fails.
#[derive(Clone, Copy, Debug, PartialEq, Eq, Structural)]
pub struct SourceRegistry {
    /// The base version specified for the package.
    pub version: SemverVersion,
}

/// Specifies a base source for a package, not yet pinned to an exact
/// version or commit.
#[derive(Debug)]
pub enum Source {
    /// A git repository with a manifest at its root.
    Git(SourceGit),
    /// A path to a local directory with a manifest at its root.
    Path(String),
    /// A package hosted on a registry.
    Registry(SourceRegistry),
}

/// A pinned instance of a git source: the source plus the exact commit the
/// reference resolved to.
#[derive(Debug)]
pub struct SourceGitPinned {
    /// The git source that is being pinned.
    pub source: SourceGit,
    /// The hash to which we have pinned the source.
    pub commit_hash: String,
}

/// A pinned instance of a registry source.
#[derive(Clone, Copy, Debug, PartialEq, Eq, Structural)]
pub struct SourceRegistryPinned {
    /// The registry package with base version.
    pub source: SourceRegistry,
    /// The pinned version.
    pub version: SemverVersion,
}

/// A pinned instance of a package source: an exact commit for git sources,
/// the path itself for path sources, an exact version for registry sources.
#[derive(Debug)]
pub enum SourcePinned {
    Git(SourceGitPinned),
    Path,
    Registry(SourceRegistryPinned),
}

/// A package uniquely identified by name along with its source.
#[derive(Debug)]
pub struct Pkg {
    /// The unique name of the package as declared in its manifest.
    pub name: String,
    /// Where the package is sourced from.
    pub source: Source,
}

/// A package uniquely identified by name along with its pinned source.
#[derive(Debug)]
pub struct Pinned {
    pub name: String,
    pub source: SourcePinned,
}

/// A unique ID for a pinned package, produced by fingerprinting the
/// package's name and pinned source.
#[derive(Clone, Copy, Debug, PartialEq, Eq, Hash, Structural)]
pub struct PinnedId(u64);

// ---------------------------------------------------------------------------
// Mathematical views.
// ---------------------------------------------------------------------------

pub ghost struct SourceGitView {
    pub repo: Seq<char>,
    pub reference: Seq<char>,
}

pub ghost enum SourceView {
    Git(SourceGitView),
    Path(Seq<char>),
    Registry(SourceRegistry),
}

pub ghost struct SourceGitPinnedView {
    pub source: SourceGitView,
    pub commit_hash: Seq<char>,
}

pub ghost enum SourcePinnedView {
    Git(SourceGitPinnedView),
    Path,
    Registry(SourceRegistryPinned),
}

pub ghost struct PkgView {
    pub name: Seq<char>,
    pub source: SourceView,
}

pub ghost struct PinnedView {
    pub name: Seq<char>,
    pub source: SourcePinnedView,
}

impl View for SourceGit {
    type V = SourceGitView;

    open spec fn view(&self) -> SourceGitView {
        SourceGitView { repo: self.repo@, reference: self.reference@ }
    }
}

impl View for Source {
    type V = SourceView;

    open spec fn view(&self) -> SourceView {
        match self {
            Source::Git(g) => SourceView::Git(g@),
            Source::Path(p) => SourceView::Path(p@),
            Source::Registry(r) => SourceView::Registry(*r),
        }
    }
}

impl View for SourceGitPinned {
    type V = SourceGitPinnedView;

    open spec fn view(&self) -> SourceGitPinnedView {
        SourceGitPinnedView { source: self.source@, commit_hash: self.commit_hash@ }
    }
}

impl View for SourcePinned {
    type V = SourcePinnedView;

    open spec fn view(&self) -> SourcePinnedView {
        match self {
            SourcePinned::Git(g) => SourcePinnedView::Git(g@),
            SourcePinned::Path => SourcePinnedView::Path,
            SourcePinned::Registry(r) => SourcePinnedView::Registry(*r),
        }
    }
}

impl View for Pkg {
    type V = PkgView;

    open spec fn view(&self) -> PkgView {
        PkgView { name: self.name@, source: self.source@ }
    }
}

impl View for Pinned {
    type V = PinnedView;

    open spec fn view(&self) -> PinnedView {
        PinnedView { name: self.name@, source: self.source@ }
    }
}

impl View for PinnedId {
    type V = u64;

    closed spec fn view(&self) -> u64 {
        self.0
    }
}

// ---------------------------------------------------------------------------
// Clones and equality, with their meaning stated over the views.
// ---------------------------------------------------------------------------

impl Clone for SourceGit {
    fn clone(&self) -> (r: Self)
        ensures
            r@ == self@,
    {
        SourceGit { repo: self.repo.clone(), reference: self.reference.clone() }
    }
}

impl Clone for Source {
    fn clone(&self) -> (r: Self)
        ensures
            r@ == self@,
    {
        match self {
            Source::Git(g) => Source::Git(g.clone()),
            Source::Path(p) => Source::Path(p.clone()),
            Source::Registry(r) => Source::Registry(*r),
        }
    }
}

impl Clone for SourceGitPinned {
    fn clone(&self) -> (r: Self)
        ensures
            r@ == self@,
    {
        SourceGitPinned { source: self.source.clone(), commit_hash: self.commit_hash.clone() }
    }
}

impl Clone for SourcePinned {
    fn clone(&self) -> (r: Self)
        ensures
            r@ == self@,
    {
        match self {
            SourcePinned::Git(g) => SourcePinned::Git(g.clone()),
            SourcePinned::Path => SourcePinned::Path,
            SourcePinned::Registry(r) => SourcePinned::Registry(*r),
        }
    }
}

impl Clone for Pkg {
    fn clone(&self) -> (r: Self)
        ensures
            r@ == self@,
    {
        Pkg { name: self.name.clone(), source: self.source.clone() }
    }
}

impl Clone for Pinned {
    fn clone(&self) -> (r: Self)
        ensures
            r@ == self@,
    {
        Pinned { name: self.name.clone(), source: self.source.clone() }
    }
}

/// Compare two git sources by value.
pub fn source_git_eq(a: &SourceGit, b: &SourceGit) -> (r: bool)
    ensures
        r == (a@ == b@),
{
    str_eq(a.repo.as_str(), b.repo.as_str()) && str_eq(a.reference.as_str(), b.reference.as_str())
}

/// Compare two unpinned sources by value.
pub fn source_eq(a: &Source, b: &Source) -> (r: bool)
    ensures
        r == (a@ == b@),
{
    match (a, b) {
        (Source::Git(x), Source::Git(y)) => source_git_eq(x, y),
        (Source::Path(x), Source::Path(y)) => str_eq(x.as_str(), y.as_str()),
        (Source::Registry(x), Source::Registry(y)) => x == y,
        _ => false,
    }
}

/// Compare two pinned git sources by value.
pub fn source_git_pinned_eq(a: &SourceGitPinned, b: &SourceGitPinned) -> (r: bool)
    ensures
        r == (a@ == b@),
{
    source_git_eq(&a.source, &b.source) && str_eq(a.commit_hash.as_str(), b.commit_hash.as_str())
}

/// Compare two pinned sources by value.
pub fn source_pinned_eq(a: &SourcePinned, b: &SourcePinned) -> (r: bool)
    ensures
        r == (a@ == b@),
{
    match (a, b) {
        (SourcePinned::Git(x), SourcePinned::Git(y)) => source_git_pinned_eq(x, y),
        (SourcePinned::Path, SourcePinned::Path) => true,
        (SourcePinned::Registry(x), SourcePinned::Registry(y)) => x == y,
        _ => false,
    }
}

/// Compare two unpinned packages by value.
pub fn pkg_eq(a: &Pkg, b: &Pkg) -> (r: bool)
    ensures
        r == (a@ == b@),
{
    str_eq(a.name.as_str(), b.name.as_str()) && source_eq(&a.source, &b.source)
}

/// Compare two pinned packages by value.
pub fn pinned_eq(a: &Pinned, b: &Pinned) -> (r: bool)
    ensures
        r == (a@ == b@),
{
    str_eq(a.name.as_str(), b.name.as_str()) && source_pinned_eq(&a.source, &b.source)
}

// ---------------------------------------------------------------------------
// The fingerprint.
// ---------------------------------------------------------------------------

/// Field separator folded between the textual components of a fingerprint.
/// The byte `0xff` never occurs in UTF-8 text, so distinct field layouts
/// cannot collide by mere concatenation.
pub const ID_SEP: u8 = 0xff;

/// Fingerprint of a pinned source, continued from state `h`: a variant tag,
/// then each field separated by `ID_SEP`.
pub open spec fn spec_source_pinned_fingerprint(h: u64, source: SourcePinnedView) -> u64 {
    match source {
        SourcePinnedView::Git(g) => {
            let h1 = fnv_step(h, 0u8);
            let h2 = fnv_chars(h1, g.source.repo);
            let h3 = fnv_step(h2, ID_SEP);
            let h4 = fnv_chars(h3, g.source.reference);
            let h5 = fnv_step(h4, ID_SEP);
            fnv_chars(h5, g.commit_hash)
        },
        SourcePinnedView::Path => fnv_step(h, 1u8),
        SourcePinnedView::Registry(r) => {
            let h1 = fnv_step(h, 2u8);
            let h2 = spec_fnv_u64(h1, r.source.version.major);
            let h3 = spec_fnv_u64(h2, r.source.version.minor);
            let h4 = spec_fnv_u64(h3, r.source.version.patch);
            let h5 = spec_fnv_u64(h4, r.version.major);
            let h6 = spec_fnv_u64(h5, r.version.minor);
            spec_fnv_u64(h6, r.version.patch)
        },
    }
}

/// The fingerprint of a package name together with its pinned source.
#[verifier::opaque]
pub open spec fn spec_pinned_id(name: Seq<char>, source: SourcePinnedView) -> u64 {
    let h1 = fnv_chars(FNV_OFFSET, name);
    let h2 = fnv_step(h1, ID_SEP);
    spec_source_pinned_fingerprint(h2, source)
}

/// Fold one byte into the running state.
fn fnv_byte(h: u64, byte: u8) -> (r: u64)
    ensures
        r == fnv_step(h, byte),
{
    (h ^ (byte as u64)).wrapping_mul(crate::hashing::FNV_PRIME)
}

/// Two pinned IDs are equal values exactly when they hold the same
/// fingerprint.
pub proof fn lemma_pinned_id_eq(a: PinnedId, b: PinnedId)
    ensures
        (a == b) <==> (a@ == b@),
{
}

impl PinnedId {
    /// Fingerprint the given name and pinned source to produce a unique
    /// pinned package ID. The algorithm is fixed, so equal inputs yield the
    /// same ID in every process and on every machine.
    pub fn new(name: &str, source: &SourcePinned) -> (r: Self)
        ensures
            r@ == spec_pinned_id(name@, source@),
    {
        proof {
            reveal(crate::source::spec_pinned_id);
        }
        let h1 = fnv_str(FNV_OFFSET, name);
        let h2 = fnv_byte(h1, ID_SEP);
        let h = match source {
            SourcePinned::Git(g) => {
                let ha = fnv_byte(h2, 0);
                let hb = fnv_str(ha, g.source.repo.as_str());
                let hc = fnv_byte(hb, ID_SEP);
                let hd = fnv_str(hc, g.source.reference.as_str());
                let he = fnv_byte(hd, ID_SEP);
                fnv_str(he, g.commit_hash.as_str())
            },
            SourcePinned::Path => fnv_byte(h2, 1),
            SourcePinned::Registry(r) => {
                let ha = fnv_byte(h2, 2);
                let hb = fnv_u64(ha, r.source.version.major);
                let hc = fnv_u64(hb, r.source.version.minor);
                let hd = fnv_u64(hc, r.source.version.patch);
                let he = fnv_u64(hd, r.version.major);
                let hf = fnv_u64(he, r.version.minor);
                fnv_u64(hf, r.version.patch)
            },
        };
        PinnedId(h)
    }
}

impl Pinned {
    /// Retrieve the unique ID for the pinned package.
    pub fn id(&self) -> (r: PinnedId)
        ensures
            r@ == spec_pinned_id(self@.name, self@.source),
    {
        PinnedId::new(self.name.as_str(), &self.source)
    }
}

/// The fingerprint function is a pure function of its inputs: applying it
/// twice to equal `(name, pinned source)` pairs yields identical IDs, in
/// every process and on every machine.
pub proof fn lemma_pinned_id_deterministic(
    name_a: Seq<char>,
    source_a: SourcePinnedView,
    name_b: Seq<char>,
    source_b: SourcePinnedView,
)
    requires
        name_a == name_b,
        source_a == source_b,
    ensures
        spec_pinned_id(name_a, source_a) == spec_pinned_id(name_b, source_b),
{
}

} // verus!
