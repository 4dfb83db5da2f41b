//! The manifest boundary: the project name and dependency declarations a
//! manifest supplies, and the resolution of a declaration to a `Source`.
//!
//! Reading and deserializing manifest files is the caller's business; the
//! planner consumes manifests as plain values.

use vstd::prelude::*;

use crate::error::Error;
use crate::pin_str::url_is_valid;
use crate::pin_str::url_ok;
use crate::source::Source;
use crate::source::SourceGit;
use crate::source::SourceGitView;
use crate::source::SourceView;
use crate::text::str_eq;

verus! {

/// The `[project]` section: the package's own name.
#[derive(Debug)]
pub struct Project {
    pub name: String,
}

/// The detailed form of a dependency declaration.
#[derive(Debug)]
pub struct DependencyDetails {
    /// Accepted but ignored: registries are unimplemented.
    pub version: Option<String>,
    /// A directory relative to the dependent package.
    pub path: Option<String>,
    /// A git repository URL.
    pub git: Option<String>,
    /// A branch of the git repository.
    pub branch: Option<String>,
    /// A tag of the git repository.
    pub tag: Option<String>,
    /// The target package's real name, when the declared name is an alias.
    pub package: Option<String>,
}

/// One dependency declaration: a bare version string (unsupported), or a
/// detailed record.
#[derive(Debug)]
pub enum Dependency {
    Simple(String),
    Detailed(DependencyDetails),
}

/// A package manifest: the project's name and its declared dependencies,
/// each under its declared name.
#[derive(Debug)]
pub struct Manifest {
    pub project: Project,
    pub dependencies: Vec<(String, Dependency)>,
}

pub ghost struct DependencyDetailsView {
    pub version: Option<Seq<char>>,
    pub path: Option<Seq<char>>,
    pub git: Option<Seq<char>>,
    pub branch: Option<Seq<char>>,
    pub tag: Option<Seq<char>>,
    pub package: Option<Seq<char>>,
}

pub ghost enum DependencyView {
    Simple(Seq<char>),
    Detailed(DependencyDetailsView),
}

pub ghost struct ManifestView {
    pub project_name: Seq<char>,
    pub deps: Seq<(Seq<char>, DependencyView)>,
}

/// The view of an optional string.
pub open spec fn opt_view(o: Option<String>) -> Option<Seq<char>> {
    match o {
        Some(s) => Some(s@),
        None => None,
    }
}

impl View for DependencyDetails {
    type V = DependencyDetailsView;

    open spec fn view(&self) -> DependencyDetailsView {
        DependencyDetailsView {
            version: opt_view(self.version),
            path: opt_view(self.path),
            git: opt_view(self.git),
            branch: opt_view(self.branch),
            tag: opt_view(self.tag),
            package: opt_view(self.package),
        }
    }
}

impl View for Dependency {
    type V = DependencyView;

    open spec fn view(&self) -> DependencyView {
        match self {
            Dependency::Simple(v) => DependencyView::Simple(v@),
            Dependency::Detailed(d) => DependencyView::Detailed(d@),
        }
    }
}

impl View for Manifest {
    type V = ManifestView;

    open spec fn view(&self) -> ManifestView {
        ManifestView {
            project_name: self.project.name@,
            deps: self.dependencies@.map_values(|p: (String, Dependency)| (p.0@, p.1@)),
        }
    }
}

/// Clone an optional string, keeping its value.
fn clone_opt_string(o: &Option<String>) -> (r: Option<String>)
    ensures
        opt_view(r) == opt_view(*o),
{
    match o {
        Some(s) => Some(s.clone()),
        None => None,
    }
}

impl Clone for DependencyDetails {
    fn clone(&self) -> (r: Self)
        ensures
            r@ == self@,
    {
        DependencyDetails {
            version: clone_opt_string(&self.version),
            path: clone_opt_string(&self.path),
            git: clone_opt_string(&self.git),
            branch: clone_opt_string(&self.branch),
            tag: clone_opt_string(&self.tag),
            package: clone_opt_string(&self.package),
        }
    }
}

impl Clone for Dependency {
    fn clone(&self) -> (r: Self)
        ensures
            r@ == self@,
    {
        match self {
            Dependency::Simple(v) => Dependency::Simple(v.clone()),
            Dependency::Detailed(d) => Dependency::Detailed(d.clone()),
        }
    }
}

impl Clone for Project {
    fn clone(&self) -> (r: Self)
        ensures
            r.name@ == self.name@,
    {
        Project { name: self.name.clone() }
    }
}

impl Clone for Manifest {
    fn clone(&self) -> (r: Self)
        ensures
            r@ == self@,
    {
        let mut deps: Vec<(String, Dependency)> = Vec::new();
        let n = self.dependencies.len();
        let mut i: usize = 0;
        while i < n
            invariant
                i <= n,
                n == self.dependencies@.len(),
                deps@.len() == i,
                forall|j: int| 0 <= j < i ==> (#[trigger] deps@[j]).0@
                    == self.dependencies@[j].0@ && deps@[j].1@ == self.dependencies@[j].1@,
            decreases n - i,
        {
            let pair = &self.dependencies[i];
            deps.push((pair.0.clone(), pair.1.clone()));
            i = i + 1;
        }
        let r = Manifest { project: self.project.clone(), dependencies: deps };
        proof {
            assert(r@.deps =~= self@.deps);
        }
        r
    }
}

/// The package name a declaration resolves to: the `package` alias when one
/// is given, the declared dependency name otherwise.
pub open spec fn spec_dep_pkg_name(declared: Seq<char>, d: DependencyView) -> Seq<char> {
    match d {
        DependencyView::Detailed(det) => match det.package {
            Some(p) => p,
            None => declared,
        },
        DependencyView::Simple(_) => declared,
    }
}

/// Resolve the package name of a declaration: its `package` alias if given,
/// else the declared name.
pub fn dep_pkg_name<'a>(declared: &'a String, dep: &'a Dependency) -> (r: &'a String)
    ensures
        r@ == spec_dep_pkg_name(declared@, dep@),
{
    match dep {
        Dependency::Detailed(det) => match &det.package {
            Some(p) => p,
            None => declared,
        },
        Dependency::Simple(_) => declared,
    }
}

/// Joining a relative path onto a base directory.
pub open spec fn spec_join_path(base: Seq<char>, rel: Seq<char>) -> Seq<char> {
    base + "/"@ + rel
}

/// Join a relative path onto a base directory with a `/` separator.
pub fn join_path(base: &str, rel: &str) -> (r: String)
    ensures
        r@ == spec_join_path(base@, rel@),
{
    let mut s: String = base.to_owned();
    s.append("/");
    s.append(rel);
    s
}

/// The git reference a detailed declaration selects: the branch when one is
/// given alone, the tag when one is given alone, and the default branch name
/// otherwise.
pub open spec fn spec_git_reference(det: DependencyDetailsView) -> Seq<char> {
    match (det.branch, det.tag) {
        (Some(b), None) => b,
        (None, Some(t)) => t,
        _ => "master"@,
    }
}

/// The declaration names no supported source kind: it is a bare version
/// string, or a detailed record with neither `path` nor `git`.
pub open spec fn dep_unsupported(d: DependencyView) -> bool {
    match d {
        DependencyView::Simple(_) => true,
        DependencyView::Detailed(det) => det.path is None && det.git is None,
    }
}

/// The declaration selects a git source whose URL the URL parser rejects.
pub open spec fn dep_bad_url(d: DependencyView) -> bool {
    match d {
        DependencyView::Simple(_) => false,
        DependencyView::Detailed(det) => det.path is None && det.git is Some && !url_ok(
            det.git->0,
        ),
    }
}

/// The source a declaration resolves to, when it resolves. Resolution
/// precedence is `path` first, else `git`.
pub open spec fn spec_dep_to_source(pkg_path: Seq<char>, d: DependencyView) -> Option<
    SourceView,
> {
    match d {
        DependencyView::Simple(_) => None,
        DependencyView::Detailed(det) => {
            if det.path is Some {
                Some(SourceView::Path(spec_join_path(pkg_path, det.path->0)))
            } else if det.git is Some && url_ok(det.git->0) {
                Some(
                    SourceView::Git(
                        SourceGitView { repo: det.git->0, reference: spec_git_reference(det) },
                    ),
                )
            } else {
                None
            }
        },
    }
}

/// Given the path to a package and a dependency declaration parsed from its
/// manifest, produce the `Source` for that dependency. The declared name is
/// taken along for error context.
pub fn dep_to_source(pkg_path: &str, dep_name: &str, dep: &Dependency) -> (r: Result<
    Source,
    Error,
>)
    ensures
        r is Ok <==> spec_dep_to_source(pkg_path@, dep@) is Some,
        r matches Ok(s) ==> Some(s@) == spec_dep_to_source(pkg_path@, dep@),
        dep_unsupported(dep@) ==> (r matches Err(e) && e matches
            Error::UnsupportedDependencyKind { name } && name@ == dep_name@),
        dep_bad_url(dep@) ==> (r matches Err(e) && e matches Error::InvalidUrl { url }
            && dep@ matches DependencyView::Detailed(det) && det.git == Some(url@)),
{
    match dep {
        Dependency::Simple(_) => Err(
            Error::UnsupportedDependencyKind { name: dep_name.to_owned() },
        ),
        Dependency::Detailed(det) => {
            if let Some(rel) = &det.path {
                return Ok(Source::Path(join_path(pkg_path, rel.as_str())));
            }
            if let Some(repo) = &det.git {
                if !url_is_valid(repo.as_str()) {
                    return Err(Error::InvalidUrl { url: repo.clone() });
                }
                let reference: String = match (&det.branch, &det.tag) {
                    (Some(b), None) => b.clone(),
                    (None, Some(t)) => t.clone(),
                    _ => "master".to_owned(),
                };
                let source = SourceGit { repo: repo.clone(), reference };
                return Ok(Source::Git(source));
            }
            Err(Error::UnsupportedDependencyKind { name: dep_name.to_owned() })
        },
    }
}

/// Compare project names, used when holding a node against the manifest
/// found at its path.
pub fn project_name_matches(m: &Manifest, name: &String) -> (r: bool)
    ensures
        r == (m@.project_name == name@),
{
    str_eq(m.project.name.as_str(), name.as_str())
}

} // verus!
