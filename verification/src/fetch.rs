//! The graph builder: a depth-first walk over manifests that pins each
//! declared dependency, deduplicates identical pinned packages, and grows
//! the dependency graph together with the path map.
//!
//! The walk itself performs no I/O. It is a session: each step hands the
//! caller an action (load a manifest, resolve a git reference, probe or
//! populate the checkout cache) and consumes the action's outcome as an
//! event. All decisions between actions — source resolution, offline
//! enforcement, pinning, deduplication, name checking — happen here and
//! are verified: `step_transition` fixes, for every stage and event,
//! exactly which action or error comes back and exactly how the graph, the
//! path map, and the walk's stack change. In offline mode the session
//! never asks for any git action, so a non-local dependency fails before
//! any network access is attempted.

use vstd::prelude::*;

use crate::error::Error;
use crate::graph::distinct_nodes;
use crate::graph::has_parent_edge;
use crate::graph::lemma_root_reaches;
use crate::graph::reaches;
use crate::graph::wf;
use crate::graph::Graph;
use crate::graph::GraphEdgeView;
use crate::graph::GraphView;
use crate::manifest::dep_bad_url;
use crate::manifest::dep_pkg_name;
use crate::manifest::dep_to_source;
use crate::manifest::dep_unsupported;
use crate::manifest::project_name_matches;
use crate::manifest::spec_dep_pkg_name;
use crate::manifest::spec_dep_to_source;
use crate::manifest::DependencyView;
use crate::manifest::Manifest;
use crate::paths::git_commit_path;
use crate::paths::spec_git_commit_path;
use crate::plan::lookup;
use crate::plan::node_id;
use crate::plan::path_total;
use crate::plan::PathMap;
use crate::source::pinned_eq;
use crate::source::Pinned;
use crate::source::PinnedView;
use crate::source::Source;
use crate::source::SourceGit;
use crate::source::SourceGitPinned;
use crate::source::SourceGitPinnedView;
use crate::source::SourceGitView;
use crate::source::SourcePinned;
use crate::source::SourcePinnedView;
use crate::source::SourceView;

verus! {

/// What the session asks the caller to do next.
#[derive(Debug)]
pub enum FetchAction {
    /// Load the manifest at `path`; reply with `Manifest` or
    /// `ManifestFailed`.
    LoadManifest { path: String },
    /// Clone `source.repo` into scratch space, resolve `source.reference`
    /// to a commit, and remove the scratch clone; reply with `GitPinned`
    /// carrying the commit hash, or `GitPinFailed`.
    PinGit { name: String, source: SourceGit },
    /// Report whether the directory at `path` exists; reply with
    /// `DirChecked`.
    CheckDir { path: String },
    /// Check the pinned commit out into `path`, removing and recreating the
    /// directory first; reply with `Fetched` or `FetchFailed`.
    FetchGit { name: String, pinned: SourceGitPinned, path: String },
    /// The walk is complete; take the graph and path map with `finish`.
    Done,
}

/// The stage at which a pin attempt failed.
#[derive(Clone, Copy, Debug, PartialEq, Eq, Structural)]
pub enum PinFailure {
    /// The repository could not be cloned.
    Clone,
    /// The reference was not found in the repository.
    ReferenceNotFound,
    /// The reference did not resolve to a commit.
    CommitResolution,
}

/// The caller's reply to the most recent action.
#[derive(Debug)]
pub enum FetchEvent {
    /// The requested manifest, parsed.
    Manifest(Manifest),
    /// The manifest could not be loaded.
    ManifestFailed,
    /// The git reference resolved to this commit.
    GitPinned { commit_hash: String },
    /// The pin attempt failed at the given stage.
    GitPinFailed(PinFailure),
    /// Whether the probed directory exists.
    DirChecked { exists: bool },
    /// The checkout succeeded.
    Fetched,
    /// The checkout failed.
    FetchFailed,
}

/// The kind of event the session is waiting for.
pub ghost enum AwaitKind {
    Manifest,
    Pin,
    Dir,
    Fetch,
    Finished,
}

/// Whether an event answers what the session is waiting for.
pub open spec fn accepts(k: AwaitKind, e: FetchEvent) -> bool {
    match k {
        AwaitKind::Manifest => e is Manifest || e is ManifestFailed,
        AwaitKind::Pin => e is GitPinned || e is GitPinFailed,
        AwaitKind::Dir => e is DirChecked,
        AwaitKind::Fetch => e is Fetched || e is FetchFailed,
        AwaitKind::Finished => false,
    }
}

/// The awaiting state a returned action puts the session into.
pub open spec fn action_awaits(a: FetchAction) -> AwaitKind {
    match a {
        FetchAction::LoadManifest { .. } => AwaitKind::Manifest,
        FetchAction::PinGit { .. } => AwaitKind::Pin,
        FetchAction::CheckDir { .. } => AwaitKind::Dir,
        FetchAction::FetchGit { .. } => AwaitKind::Fetch,
        FetchAction::Done => AwaitKind::Finished,
    }
}

/// One package whose declared dependencies are still being walked: its
/// graph node, the declarations of its manifest, and how many of them have
/// been taken up.
pub ghost struct FrameView {
    pub node: int,
    pub deps: Seq<(Seq<char>, DependencyView)>,
    pub next_dep: int,
}

/// The stage of the dependency currently being pinned, with everything the
/// stage has resolved so far.
pub ghost enum PendingView {
    /// Waiting for the root project's manifest, loaded from `path`.
    RootManifest { path: Seq<char> },
    /// Waiting for a pin result for the declaration `dep_name`, resolving
    /// package `name` from `source`.
    Pin { dep_name: Seq<char>, name: Seq<char>, source: SourceGitView },
    /// Waiting for a probe of the pinned package's cache directory.
    Dir { dep_name: Seq<char>, pinned: PinnedView, git: SourceGitPinnedView, path: Seq<char> },
    /// Waiting for a checkout into the cache directory.
    Fetch { dep_name: Seq<char>, pinned: PinnedView, git: SourceGitPinnedView, path: Seq<char> },
    /// Waiting for the pinned dependency's own manifest at `path`.
    DepManifest { dep_name: Seq<char>, pinned: PinnedView, path: Seq<char> },
    /// The walk is complete, or the session has stopped on an error.
    Finished,
}

/// The kind of event each stage waits for.
pub open spec fn awaiting_of(p: PendingView) -> AwaitKind {
    match p {
        PendingView::RootManifest { .. } => AwaitKind::Manifest,
        PendingView::Pin { .. } => AwaitKind::Pin,
        PendingView::Dir { .. } => AwaitKind::Dir,
        PendingView::Fetch { .. } => AwaitKind::Fetch,
        PendingView::DepManifest { .. } => AwaitKind::Manifest,
        PendingView::Finished => AwaitKind::Finished,
    }
}

/// What the session guarantees of the graph it is growing: well-formed
/// edges, no two equal pinned packages (diamonds collapse), the root
/// project as the path-sourced first node, a path registered for every
/// node, and an incoming edge from an earlier node for every node but the
/// root.
pub open spec fn fetch_graph_inv(g: GraphView, pm: Seq<(u64, Seq<char>)>) -> bool {
    &&& wf(g)
    &&& distinct_nodes(g)
    &&& g.nodes.len() >= 1
    &&& g.nodes[0].source is Path
    &&& path_total(g, pm)
    &&& forall|j: int| 1 <= j < g.nodes.len() ==> has_parent_edge(g, j)
}

pub ghost struct FetcherView {
    pub offline: bool,
    pub fetch_id: u64,
    pub cache_root: Seq<char>,
    pub graph: GraphView,
    pub path_map: Seq<(u64, Seq<char>)>,
    pub stack: Seq<FrameView>,
    pub pending: PendingView,
}

// ---------------------------------------------------------------------------
// The walk's next move, as spec functions over the exposed state.
// ---------------------------------------------------------------------------

/// The next declared dependency the walk takes up: the deepest frame's next
/// entry, after discarding frames whose declarations are exhausted. `None`
/// means the walk is complete.
pub open spec fn next_declared(stack: Seq<FrameView>) -> Option<(int, Seq<char>, DependencyView)>
    decreases stack.len(),
{
    if stack.len() == 0 {
        None
    } else {
        let f = stack.last();
        if f.next_dep < f.deps.len() {
            Some((f.node, f.deps[f.next_dep].0, f.deps[f.next_dep].1))
        } else {
            next_declared(stack.drop_last())
        }
    }
}

/// The stack after the walk takes up that dependency: exhausted frames
/// discarded, the consuming frame's cursor advanced by one. A declaration
/// is therefore taken up exactly once — a repeated pinned identity adds an
/// edge but never a frame, so it is never walked into again.
pub open spec fn consumed_stack(stack: Seq<FrameView>) -> Seq<FrameView>
    decreases stack.len(),
{
    if stack.len() == 0 {
        stack
    } else {
        let f = stack.last();
        if f.next_dep < f.deps.len() {
            stack.update(
                stack.len() - 1,
                FrameView { node: f.node, deps: f.deps, next_dep: f.next_dep + 1 },
            )
        } else {
            consumed_stack(stack.drop_last())
        }
    }
}

/// The declarations the walk still has to take up.
pub open spec fn walk_work(stack: Seq<FrameView>) -> int
    decreases stack.len(),
{
    if stack.len() == 0 {
        0
    } else {
        walk_work(stack.drop_last()) + (stack.last().deps.len() - stack.last().next_dep)
    }
}

/// Taking up a declaration decreases the outstanding work by exactly one.
/// Since reusing an existing node pushes no frame, a declaration is never
/// taken up twice: over a finite declaration set the walk ends.
pub proof fn lemma_consumed_stack_work(stack: Seq<FrameView>)
    requires
        next_declared(stack) is Some,
        forall|f: int| 0 <= f < stack.len() ==> (#[trigger] stack[f]).next_dep
            <= stack[f].deps.len(),
    ensures
        walk_work(consumed_stack(stack)) == walk_work(stack) - 1,
    decreases stack.len(),
{
    let f = stack.last();
    if f.next_dep < f.deps.len() {
        let c = consumed_stack(stack);
        assert(c.drop_last() =~= stack.drop_last());
        assert(c.last() == FrameView { node: f.node, deps: f.deps, next_dep: f.next_dep + 1 });
    } else {
        assert forall|g: int| 0 <= g < stack.drop_last().len()
            implies (#[trigger] stack.drop_last()[g]).next_dep
            <= stack.drop_last()[g].deps.len() by {
            assert(stack[g].next_dep <= stack[g].deps.len());
        }
        lemma_consumed_stack_work(stack.drop_last());
    }
}

/// The git URL a detailed declaration names, if any.
pub open spec fn git_url_of(d: DependencyView) -> Option<Seq<char>> {
    match d {
        DependencyView::Detailed(det) => det.git,
        DependencyView::Simple(_) => None,
    }
}

/// What one resumption of the walk does, given the state it resumes in:
/// either the walk is complete (`Done`), or the next declared dependency is
/// taken up — rejected as unsupported, rejected for its URL, rejected
/// outright under offline mode when it is not local, rejected as a
/// registry source, or resolved into the pin stage its source kind calls
/// for. The graph never changes here; the path map changes only when a
/// local path dependency is pinned on the spot.
pub open spec fn walk_advances(
    offline: bool,
    graph: GraphView,
    path_map: Seq<(u64, Seq<char>)>,
    stack: Seq<FrameView>,
    r: Result<FetchAction, Error>,
    post: FetcherView,
) -> bool {
    &&& post.graph == graph
    &&& match next_declared(stack) {
        None => {
            &&& r matches Ok(FetchAction::Done)
            &&& post.path_map == path_map
            &&& post.stack.len() == 0
            &&& post.pending is Finished
        },
        Some((parent, declared, d)) => {
            &&& post.stack == consumed_stack(stack)
            &&& if dep_unsupported(d) {
                &&& (r matches Err(e) && (e matches Error::UnsupportedDependencyKind { name }
                    && name@ == declared))
                &&& post.path_map == path_map
                &&& post.pending is Finished
            } else if dep_bad_url(d) {
                &&& (r matches Err(e) && (e matches Error::InvalidUrl { url } && Some(url@)
                    == git_url_of(d)))
                &&& post.path_map == path_map
                &&& post.pending is Finished
            } else {
                let parent_path = lookup(path_map, node_id(graph.nodes[parent]))->0;
                let name = spec_dep_pkg_name(declared, d);
                match spec_dep_to_source(parent_path, d)->0 {
                    SourceView::Path(p) => {
                        let pinned = PinnedView { name, source: SourcePinnedView::Path };
                        &&& (r matches Ok(a) && (a matches FetchAction::LoadManifest { path }
                            && path@ == p))
                        &&& lookup(post.path_map, node_id(pinned)) == Some(p)
                        &&& (forall|k: u64| k != node_id(pinned) ==> lookup(post.path_map, k)
                            == lookup(path_map, k))
                        &&& post.pending == (PendingView::DepManifest {
                            dep_name: declared,
                            pinned,
                            path: p,
                        })
                    },
                    SourceView::Git(g) => {
                        if offline {
                            &&& (r matches Err(e) && (e matches Error::OfflineViolation {
                                name: n,
                            } && n@ == name))
                            &&& post.path_map == path_map
                            &&& post.pending is Finished
                        } else {
                            &&& (r matches Ok(a) && (a matches FetchAction::PinGit {
                                name: n,
                                source,
                            } && n@ == name && source@ == g))
                            &&& post.path_map == path_map
                            &&& post.pending == (PendingView::Pin {
                                dep_name: declared,
                                name,
                                source: g,
                            })
                        }
                    },
                    SourceView::Registry(_) => {
                        &&& (r matches Err(e) && (if offline {
                            e matches Error::OfflineViolation { name: n } && n@ == name
                        } else {
                            e matches Error::RegistryUnsupported { name: n } && n@ == name
                        }))
                        &&& post.path_map == path_map
                        &&& post.pending is Finished
                    },
                }
            }
        },
    }
}

/// `pv` is held by some node of the graph.
pub open spec fn graph_has_node(g: GraphView, pv: PinnedView) -> bool {
    exists|i: int| 0 <= i < g.nodes.len() && #[trigger] g.nodes[i] == pv
}

/// The index of the node holding `pv`; unique in a duplicate-free graph.
pub open spec fn graph_node_index(g: GraphView, pv: PinnedView) -> int {
    choose|i: int| 0 <= i < g.nodes.len() && #[trigger] g.nodes[i] == pv
}

/// What `step` does for every stage and event: which action or error comes
/// back, and exactly how the graph, path map, stack, and pending stage
/// change. Events excluded by `accepts` never reach `step`.
pub open spec fn step_transition(
    pre: FetcherView,
    event: FetchEvent,
    r: Result<FetchAction, Error>,
    post: FetcherView,
) -> bool {
    match pre.pending {
        PendingView::RootManifest { path } => match event {
            FetchEvent::Manifest(m) => {
                &&& post.graph == pre.graph
                &&& walk_advances(
                    pre.offline,
                    pre.graph,
                    pre.path_map,
                    pre.stack.push(FrameView { node: 0, deps: m@.deps, next_dep: 0 }),
                    r,
                    post,
                )
            },
            FetchEvent::ManifestFailed => {
                &&& (r matches Err(e) && (e matches Error::ManifestLoadFailure { path: p }
                    && p@ == path))
                &&& post.graph == pre.graph
                &&& post.path_map == pre.path_map
                &&& post.pending is Finished
            },
            _ => true,
        },
        PendingView::Pin { dep_name, name, source } => match event {
            FetchEvent::GitPinned { commit_hash } => {
                let git = SourceGitPinnedView { source, commit_hash: commit_hash@ };
                let pinned = PinnedView { name, source: SourcePinnedView::Git(git) };
                let path = spec_git_commit_path(pre.cache_root, name, source.repo, commit_hash@);
                &&& post.graph == pre.graph
                &&& post.path_map == pre.path_map
                &&& post.stack == pre.stack
                &&& if lookup(pre.path_map, node_id(pinned)) is Some {
                    // The cache already holds this pinned package: no probe
                    // and no re-fetch; go straight to its manifest.
                    &&& (r matches Ok(a) && (a matches FetchAction::LoadManifest { path: p }
                        && p@ == path))
                    &&& post.pending == (PendingView::DepManifest { dep_name, pinned, path })
                } else {
                    &&& (r matches Ok(a) && (a matches FetchAction::CheckDir { path: p } && p@
                        == path))
                    &&& post.pending == (PendingView::Dir { dep_name, pinned, git, path })
                }
            },
            FetchEvent::GitPinFailed(failure) => {
                &&& post.graph == pre.graph
                &&& post.path_map == pre.path_map
                &&& post.pending is Finished
                &&& match failure {
                    PinFailure::Clone => r matches Err(e) && (e matches Error::GitCloneFailure {
                        name: n,
                        repo,
                    } && n@ == name && repo@ == source.repo),
                    PinFailure::ReferenceNotFound => r matches Err(e) && (e matches
                        Error::GitReferenceNotFound { name: n, reference } && n@ == name
                        && reference@ == source.reference),
                    PinFailure::CommitResolution => r matches Err(e) && (e matches
                        Error::GitCommitResolutionFailure { name: n, reference } && n@ == name
                        && reference@ == source.reference),
                }
            },
            _ => true,
        },
        PendingView::Dir { dep_name, pinned, git, path } => match event {
            FetchEvent::DirChecked { exists } => {
                &&& post.graph == pre.graph
                &&& post.stack == pre.stack
                &&& if exists {
                    &&& (r matches Ok(a) && (a matches FetchAction::LoadManifest { path: p }
                        && p@ == path))
                    &&& lookup(post.path_map, node_id(pinned)) == Some(path)
                    &&& (forall|k: u64| k != node_id(pinned) ==> lookup(post.path_map, k)
                        == lookup(pre.path_map, k))
                    &&& post.pending == (PendingView::DepManifest { dep_name, pinned, path })
                } else {
                    &&& (r matches Ok(a) && (a matches FetchAction::FetchGit {
                        name: n,
                        pinned: pg,
                        path: p,
                    } && n@ == pinned.name && pg@ == git && p@ == path))
                    &&& post.path_map == pre.path_map
                    &&& post.pending == (PendingView::Fetch { dep_name, pinned, git, path })
                }
            },
            _ => true,
        },
        PendingView::Fetch { dep_name, pinned, git, path } => match event {
            FetchEvent::Fetched => {
                &&& post.graph == pre.graph
                &&& post.stack == pre.stack
                &&& (r matches Ok(a) && (a matches FetchAction::LoadManifest { path: p } && p@
                    == path))
                &&& lookup(post.path_map, node_id(pinned)) == Some(path)
                &&& (forall|k: u64| k != node_id(pinned) ==> lookup(post.path_map, k) == lookup(
                    pre.path_map,
                    k,
                ))
                &&& post.pending == (PendingView::DepManifest { dep_name, pinned, path })
            },
            FetchEvent::FetchFailed => {
                &&& (r matches Err(e) && (e matches Error::GitCheckoutFailure { name: n } && n@
                    == pinned.name))
                &&& post.graph == pre.graph
                &&& post.path_map == pre.path_map
                &&& post.pending is Finished
            },
            _ => true,
        },
        PendingView::DepManifest { dep_name, pinned, path } => match event {
            FetchEvent::Manifest(m) => {
                if m@.project_name != pinned.name {
                    // The resolved name must match the manifest's project
                    // name; the error carries both. Nothing is added.
                    &&& (r matches Err(e) && (e matches Error::PackageNameMismatch {
                        dependency_name,
                        manifest_name,
                    } && dependency_name@ == pinned.name && manifest_name@ == m@.project_name))
                    &&& post.graph == pre.graph
                    &&& post.path_map == pre.path_map
                    &&& post.stack == pre.stack
                    &&& post.pending is Finished
                } else {
                    let parent = pre.stack.last().node;
                    if graph_has_node(pre.graph, pinned) {
                        // An equal pinned package was walked before: reuse
                        // its node, add one labeled edge, push no frame.
                        let target = graph_node_index(pre.graph, pinned);
                        let g2 = GraphView {
                            nodes: pre.graph.nodes,
                            edges: pre.graph.edges.push(
                                GraphEdgeView { from: parent, to: target, name: dep_name },
                            ),
                        };
                        walk_advances(pre.offline, g2, pre.path_map, pre.stack, r, post)
                    } else {
                        // A fresh pinned package: append its node, one
                        // labeled edge from the declaring package, and walk
                        // into its own declarations.
                        let fresh = pre.graph.nodes.len() as int;
                        let g2 = GraphView {
                            nodes: pre.graph.nodes.push(pinned),
                            edges: pre.graph.edges.push(
                                GraphEdgeView { from: parent, to: fresh, name: dep_name },
                            ),
                        };
                        walk_advances(
                            pre.offline,
                            g2,
                            pre.path_map,
                            pre.stack.push(
                                FrameView { node: fresh, deps: m@.deps, next_dep: 0 },
                            ),
                            r,
                            post,
                        )
                    }
                }
            },
            FetchEvent::ManifestFailed => {
                &&& (r matches Err(e) && (e matches Error::ManifestLoadFailure { path: p }
                    && p@ == path))
                &&& post.graph == pre.graph
                &&& post.path_map == pre.path_map
                &&& post.pending is Finished
            },
            _ => true,
        },
        PendingView::Finished => true,
    }
}

/// One package whose declared dependencies are still being walked.
struct Frame {
    node: usize,
    manifest: Manifest,
    next_dep: usize,
}

impl View for Frame {
    type V = FrameView;

    closed spec fn view(&self) -> FrameView {
        FrameView {
            node: self.node as int,
            deps: self.manifest@.deps,
            next_dep: self.next_dep as int,
        }
    }
}

/// The stage of the dependency currently being pinned.
enum Pending {
    /// Waiting for the root project's manifest.
    RootManifest { path: String },
    /// Waiting for a pin result.
    Pin { dep_name: String, name: String, source: SourceGit },
    /// Waiting for a cache-directory probe.
    Dir { dep_name: String, pinned: Pinned, git: SourceGitPinned, path: String },
    /// Waiting for a checkout.
    Fetch { dep_name: String, pinned: Pinned, git: SourceGitPinned, path: String },
    /// Waiting for a pinned dependency's own manifest.
    DepManifest { dep_name: String, pinned: Pinned, path: String },
    /// The walk is complete.
    Finished,
}

impl View for Pending {
    type V = PendingView;

    closed spec fn view(&self) -> PendingView {
        match self {
            Pending::RootManifest { path } => PendingView::RootManifest { path: path@ },
            Pending::Pin { dep_name, name, source } => PendingView::Pin {
                dep_name: dep_name@,
                name: name@,
                source: source@,
            },
            Pending::Dir { dep_name, pinned, git, path } => PendingView::Dir {
                dep_name: dep_name@,
                pinned: pinned@,
                git: git@,
                path: path@,
            },
            Pending::Fetch { dep_name, pinned, git, path } => PendingView::Fetch {
                dep_name: dep_name@,
                pinned: pinned@,
                git: git@,
                path: path@,
            },
            Pending::DepManifest { dep_name, pinned, path } => PendingView::DepManifest {
                dep_name: dep_name@,
                pinned: pinned@,
                path: path@,
            },
            Pending::Finished => PendingView::Finished,
        }
    }
}

/// The recursive fetch-and-pin walk, held between actions.
pub struct Fetcher {
    offline: bool,
    fetch_id: u64,
    cache_root: String,
    graph: Graph,
    path_map: PathMap,
    stack: Vec<Frame>,
    pending: Pending,
}

impl View for Fetcher {
    type V = FetcherView;

    closed spec fn view(&self) -> FetcherView {
        FetcherView {
            offline: self.offline,
            fetch_id: self.fetch_id,
            cache_root: self.cache_root@,
            graph: self.graph@,
            path_map: self.path_map@,
            stack: self.stack@.map_values(|f: Frame| f@),
            pending: self.pending@,
        }
    }
}

impl Fetcher {
    /// The session's internal consistency: the public graph invariant,
    /// frames that index real nodes with cursors inside their declaration
    /// lists, a registered path for the package whose manifest is pending,
    /// a parent frame whenever a dependency is mid-pin, and never a git
    /// stage in offline mode.
    pub closed spec fn wf_state(&self) -> bool {
        &&& fetch_graph_inv(self@.graph, self@.path_map)
        &&& forall|f: int| 0 <= f < self.stack@.len() ==> (#[trigger] self.stack@[f]).node
            < self.graph@.nodes.len() && self.stack@[f].next_dep
            <= self.stack@[f].manifest@.deps.len()
        &&& match self.pending {
            Pending::RootManifest { .. } => self.stack@.len() == 0,
            Pending::Pin { .. } => self.stack@.len() >= 1,
            Pending::Dir { .. } => self.stack@.len() >= 1,
            Pending::Fetch { .. } => self.stack@.len() >= 1,
            Pending::DepManifest { pinned, .. } => self.stack@.len() >= 1 && lookup(
                self.path_map@,
                node_id(pinned@),
            ) is Some,
            Pending::Finished => true,
        }
        &&& (self.offline ==> match self.pending {
            Pending::Pin { .. } => false,
            Pending::Dir { .. } => false,
            Pending::Fetch { .. } => false,
            _ => true,
        })
    }

    /// The identifier of this fetch pass, used to name scratch clone
    /// directories so concurrent build attempts do not collide.
    pub fn fetch_id(&self) -> (r: u64)
        ensures
            r == self@.fetch_id,
    {
        self.fetch_id
    }

    /// Start a fetch pass for the root project: the graph begins with the
    /// project itself — under its own name, path-sourced — as its sole
    /// node, the path map binds the project's id to the project directory,
    /// and the first action asks for the project's manifest.
    pub fn new(
        proj_name: String,
        proj_path: String,
        offline: bool,
        fetch_id: u64,
        cache_root: String,
    ) -> (r: (Fetcher, FetchAction))
        ensures
            r.0.wf_state(),
            r.0@.offline == offline,
            r.0@.fetch_id == fetch_id,
            r.0@.cache_root == cache_root@,
            r.0@.graph.nodes == seq![
                PinnedView { name: proj_name@, source: SourcePinnedView::Path },
            ],
            r.0@.graph.edges.len() == 0,
            lookup(
                r.0@.path_map,
                node_id(PinnedView { name: proj_name@, source: SourcePinnedView::Path }),
            ) == Some(proj_path@),
            forall|k: u64| k != node_id(
                PinnedView { name: proj_name@, source: SourcePinnedView::Path },
            ) ==> lookup(r.0@.path_map, k) is None,
            r.0@.stack.len() == 0,
            r.0@.pending == (PendingView::RootManifest { path: proj_path@ }),
            r.1 matches FetchAction::LoadManifest { path } && path@ == proj_path@,
    {
        let root = Pinned { name: proj_name, source: SourcePinned::Path };
        let root_id = root.id();
        let mut graph = Graph::new();
        let mut path_map = PathMap::new();
        path_map.insert(root_id, proj_path.clone());
        graph.add_node(root);
        let fetcher = Fetcher {
            offline,
            fetch_id,
            cache_root,
            graph,
            path_map,
            stack: Vec::new(),
            pending: Pending::RootManifest { path: proj_path.clone() },
        };
        proof {
            assert(fetcher.graph@.nodes =~= seq![
                PinnedView { name: fetcher.graph@.nodes[0].name, source: SourcePinnedView::Path },
            ]);
            assert(path_total(fetcher.graph@, fetcher.path_map@));
            let rid = node_id(
                PinnedView { name: fetcher.graph@.nodes[0].name, source: SourcePinnedView::Path },
            );
            assert forall|k: u64| k != rid implies lookup(fetcher.path_map@, k) is None by {
                assert(lookup(Seq::<(u64, Seq<char>)>::empty(), k) is None);
            }
        }
        (fetcher, FetchAction::LoadManifest { path: proj_path })
    }

    /// Walk forward until the next action is needed: pop packages whose
    /// dependencies are exhausted, and begin resolving the next declared
    /// dependency — rejecting unsupported declarations, and rejecting any
    /// non-local source outright in offline mode. `walk_advances` fixes
    /// the outcome exactly.
    fn advance(&mut self) -> (r: Result<FetchAction, Error>)
        requires
            old(self).wf_state(),
            old(self).pending is Finished,
        ensures
            final(self).wf_state(),
            final(self)@.offline == old(self)@.offline,
            final(self)@.fetch_id == old(self)@.fetch_id,
            final(self)@.cache_root == old(self)@.cache_root,
            final(self)@.graph == old(self)@.graph,
            walk_advances(
                old(self)@.offline,
                old(self)@.graph,
                old(self)@.path_map,
                old(self)@.stack,
                r,
                final(self)@,
            ),
            r matches Ok(a) ==> awaiting_of(final(self)@.pending) == action_awaits(a),
            r is Err ==> final(self)@.pending is Finished,
            final(self)@.offline ==> !(r matches Ok(FetchAction::PinGit { .. }) || r matches Ok(
                FetchAction::CheckDir { .. },
            ) || r matches Ok(FetchAction::FetchGit { .. })),
    {
        loop
            invariant
                self.wf_state(),
                self.pending is Finished,
                self@.offline == old(self)@.offline,
                self@.fetch_id == old(self)@.fetch_id,
                self@.cache_root == old(self)@.cache_root,
                self@.graph == old(self)@.graph,
                self@.path_map == old(self)@.path_map,
                next_declared(self@.stack) == next_declared(old(self)@.stack),
                consumed_stack(self@.stack) == consumed_stack(old(self)@.stack),
            decreases self.stack@.len(),
        {
            let depth = self.stack.len();
            if depth == 0 {
                self.pending = Pending::Finished;
                return Ok(FetchAction::Done);
            }
            let ghost stack_before = self@.stack;
            let mut frame = match self.stack.pop() {
                Some(f) => f,
                None => unreached(),
            };
            if frame.next_dep >= frame.manifest.dependencies.len() {
                proof {
                    assert(self@.stack =~= stack_before.drop_last());
                }
                continue ;
            }
            let d = frame.next_dep;
            let dep_name: String = frame.manifest.dependencies[d].0.clone();
            let dep = frame.manifest.dependencies[d].1.clone();
            proof {
                assert(stack_before.last().deps[d as int] == (
                    frame.manifest.dependencies@[d as int].0@,
                    frame.manifest.dependencies@[d as int].1@,
                ));
                assert(next_declared(stack_before) == Some(
                    (frame.node as int, dep_name@, dep@),
                ));
            }
            frame.next_dep = d + 1;
            let parent_node = frame.node;
            let parent_id = self.graph.nodes[parent_node].id();
            proof {
                assert(lookup(self.path_map@, node_id(self.graph@.nodes[parent_node as int]))
                    is Some);
            }
            let parent_path: String = match self.path_map.get(parent_id) {
                Some(p) => p.clone(),
                None => unreached(),
            };
            self.stack.push(frame);
            proof {
                assert(self@.stack =~= consumed_stack(stack_before));
            }
            let name: String = dep_pkg_name(&dep_name, &dep).clone();
            let source = match dep_to_source(parent_path.as_str(), dep_name.as_str(), &dep) {
                Ok(s) => s,
                Err(e) => {
                    return Err(e);
                },
            };
            if self.offline {
                match &source {
                    Source::Path(_) => {},
                    _ => {
                        return Err(Error::OfflineViolation { name });
                    },
                }
            }
            match source {
                Source::Path(path) => {
                    let pinned = Pinned { name, source: SourcePinned::Path };
                    let id = pinned.id();
                    self.path_map.insert(id, path.clone());
                    self.pending = Pending::DepManifest {
                        dep_name,
                        pinned,
                        path: path.clone(),
                    };
                    return Ok(FetchAction::LoadManifest { path });
                },
                Source::Git(git) => {
                    let action_source = git.clone();
                    let action_name = name.clone();
                    self.pending = Pending::Pin { dep_name, name, source: git };
                    return Ok(
                        FetchAction::PinGit { name: action_name, source: action_source },
                    );
                },
                Source::Registry(_) => {
                    return Err(Error::RegistryUnsupported { name });
                },
            }
        }
    }

    /// Feed the outcome of the previous action back into the walk and get
    /// the next action. `step_transition` fixes the outcome exactly, for
    /// every stage and event: which action or error is returned, the graph
    /// delta (one labeled edge per declaration, a fresh node exactly when
    /// no equal pinned package exists), the path-map updates, and the
    /// walk's stack. Every error aborts the whole fetch pass.
    pub fn step(&mut self, event: FetchEvent) -> (r: Result<FetchAction, Error>)
        requires
            old(self).wf_state(),
            accepts(awaiting_of(old(self)@.pending), event),
        ensures
            final(self).wf_state(),
            final(self)@.offline == old(self)@.offline,
            final(self)@.fetch_id == old(self)@.fetch_id,
            final(self)@.cache_root == old(self)@.cache_root,
            final(self)@.graph.nodes.len() >= old(self)@.graph.nodes.len(),
            forall|i: int| 0 <= i < old(self)@.graph.nodes.len()
                ==> final(self)@.graph.nodes[i] == old(self)@.graph.nodes[i],
            step_transition(old(self)@, event, r, final(self)@),
            r matches Ok(a) ==> awaiting_of(final(self)@.pending) == action_awaits(a),
            r is Err ==> final(self)@.pending is Finished,
            final(self)@.offline ==> !(r matches Ok(FetchAction::PinGit { .. }) || r matches Ok(
                FetchAction::CheckDir { .. },
            ) || r matches Ok(FetchAction::FetchGit { .. })),
    {
        let mut pending = Pending::Finished;
        core::mem::swap(&mut pending, &mut self.pending);
        match pending {
            Pending::RootManifest { path } => match event {
                FetchEvent::Manifest(m) => {
                    let ghost deps = m@.deps;
                    self.stack.push(Frame { node: 0, manifest: m, next_dep: 0 });
                    proof {
                        assert(self@.stack =~= old(self)@.stack.push(
                            FrameView { node: 0, deps, next_dep: 0 },
                        ));
                    }
                    self.advance()
                },
                FetchEvent::ManifestFailed => Err(Error::ManifestLoadFailure { path }),
                _ => unreached(),
            },
            Pending::Pin { dep_name, name, source } => match event {
                FetchEvent::GitPinned { commit_hash } => {
                    let path = git_commit_path(
                        self.cache_root.as_str(),
                        name.as_str(),
                        source.repo.as_str(),
                        commit_hash.as_str(),
                    );
                    let git = SourceGitPinned { source, commit_hash };
                    let pinned = Pinned { name, source: SourcePinned::Git(git.clone()) };
                    let id = pinned.id();
                    if self.path_map.contains(id) {
                        self.pending = Pending::DepManifest {
                            dep_name,
                            pinned,
                            path: path.clone(),
                        };
                        Ok(FetchAction::LoadManifest { path })
                    } else {
                        let probe = path.clone();
                        self.pending = Pending::Dir { dep_name, pinned, git, path };
                        Ok(FetchAction::CheckDir { path: probe })
                    }
                },
                FetchEvent::GitPinFailed(failure) => match failure {
                    PinFailure::Clone => Err(
                        Error::GitCloneFailure { name, repo: source.repo },
                    ),
                    PinFailure::ReferenceNotFound => Err(
                        Error::GitReferenceNotFound { name, reference: source.reference },
                    ),
                    PinFailure::CommitResolution => Err(
                        Error::GitCommitResolutionFailure {
                            name,
                            reference: source.reference,
                        },
                    ),
                },
                _ => unreached(),
            },
            Pending::Dir { dep_name, pinned, git, path } => match event {
                FetchEvent::DirChecked { exists } => {
                    if exists {
                        let id = pinned.id();
                        self.path_map.insert(id, path.clone());
                        self.pending = Pending::DepManifest {
                            dep_name,
                            pinned,
                            path: path.clone(),
                        };
                        Ok(FetchAction::LoadManifest { path })
                    } else {
                        let action_name = pinned.name.clone();
                        let action_git = git.clone();
                        let action_path = path.clone();
                        self.pending = Pending::Fetch { dep_name, pinned, git, path };
                        Ok(
                            FetchAction::FetchGit {
                                name: action_name,
                                pinned: action_git,
                                path: action_path,
                            },
                        )
                    }
                },
                _ => unreached(),
            },
            Pending::Fetch { dep_name, pinned, git: _, path } => match event {
                FetchEvent::Fetched => {
                    let id = pinned.id();
                    self.path_map.insert(id, path.clone());
                    self.pending = Pending::DepManifest {
                        dep_name,
                        pinned,
                        path: path.clone(),
                    };
                    Ok(FetchAction::LoadManifest { path })
                },
                FetchEvent::FetchFailed => Err(
                    Error::GitCheckoutFailure { name: pinned.name },
                ),
                _ => unreached(),
            },
            Pending::DepManifest { dep_name, pinned, path } => match event {
                FetchEvent::Manifest(m) => {
                    if !project_name_matches(&m, &pinned.name) {
                        return Err(
                            Error::PackageNameMismatch {
                                dependency_name: pinned.name,
                                manifest_name: m.project.name,
                            },
                        );
                    }
                    let parent = self.stack[self.stack.len() - 1].node;
                    let ghost older = self.graph@;
                    let ghost pv = pinned@;
                    let ghost deps = m@.deps;
                    match self.find_node(&pinned) {
                        Some(existing) => {
                            proof {
                                assert(graph_has_node(older, pv));
                                lemma_node_index_unique(older, pv, existing as int);
                            }
                            self.graph.add_edge(parent, existing, dep_name);
                            proof {
                                lemma_parent_edges_extend(self.graph@, older);
                                assert(wf(self@.graph));
                                crate::graph::lemma_distinct_same_nodes(older, self@.graph);
                                assert(fetch_graph_inv(self@.graph, self@.path_map));
                            }
                            self.advance()
                        },
                        None => {
                            proof {
                                assert forall|i: int| 0 <= i < older.nodes.len()
                                    implies #[trigger] older.nodes[i] != pv by {
                                    assert(self@.graph.nodes[i] != pv);
                                }
                                assert(!graph_has_node(older, pv));
                            }
                            let node = self.graph.add_node(pinned);
                            self.graph.add_edge(parent, node, dep_name);
                            proof {
                                let g = self.graph@;
                                assert(g.edges[g.edges.len() - 1].to == node as int);
                                assert(g.edges[g.edges.len() - 1].from == parent as int);
                                assert(has_parent_edge(g, node as int));
                                lemma_parent_edges_extend(g, older);
                                assert(wf(self@.graph));
                                assert(self@.graph.nodes == older.nodes.push(pv));
                                crate::graph::lemma_distinct_push(older, self@.graph, pv);
                                assert(path_total(self@.graph, self@.path_map));
                                assert(fetch_graph_inv(self@.graph, self@.path_map));
                            }
                            let ghost stack_mid = self@.stack;
                            self.stack.push(Frame { node, manifest: m, next_dep: 0 });
                            proof {
                                assert(self@.stack =~= stack_mid.push(
                                    FrameView { node: node as int, deps, next_dep: 0 },
                                ));
                            }
                            self.advance()
                        },
                    }
                },
                FetchEvent::ManifestFailed => Err(Error::ManifestLoadFailure { path }),
                _ => unreached(),
            },
            Pending::Finished => unreached(),
        }
    }

    /// The index of a node holding an equal pinned package, if one has
    /// already been added: diamond dependencies collapse to that node.
    fn find_node(&self, pinned: &Pinned) -> (r: Option<usize>)
        ensures
            match r {
                Some(ix) => ix < self@.graph.nodes.len() && self@.graph.nodes[ix as int]
                    == pinned@,
                None => forall|i: int| 0 <= i < self@.graph.nodes.len()
                    ==> #[trigger] self@.graph.nodes[i] != pinned@,
            },
    {
        let n = self.graph.nodes.len();
        let mut i: usize = 0;
        while i < n
            invariant
                i <= n,
                n == self@.graph.nodes.len(),
                forall|j: int| 0 <= j < i ==> #[trigger] self@.graph.nodes[j] != pinned@,
            decreases n - i,
        {
            if pinned_eq(&self.graph.nodes[i], pinned) {
                return Some(i);
            }
            i = i + 1;
        }
        None
    }

    /// Take the finished graph and path map. The graph is well-formed and
    /// duplicate-free, the root project is its path-sourced first node and
    /// reaches every node, and the path map registers a path for every
    /// node.
    pub fn finish(self) -> (r: (Graph, PathMap))
        requires
            self.wf_state(),
            self@.pending is Finished,
        ensures
            r.0@ == self@.graph,
            r.1@ == self@.path_map,
            fetch_graph_inv(r.0@, r.1@),
            forall|j: int| 0 <= j < r.0@.nodes.len() ==> reaches(r.0@, 0, j),
    {
        proof {
            assert forall|j: int| 0 <= j < self@.graph.nodes.len() implies reaches(
                self@.graph,
                0,
                j,
            ) by {
                lemma_root_reaches(self@.graph, j);
            }
        }
        (self.graph, self.path_map)
    }
}

/// In a duplicate-free graph, the node index of a pinned package is the
/// one where it was found.
proof fn lemma_node_index_unique(g: GraphView, pv: PinnedView, ix: int)
    requires
        distinct_nodes(g),
        0 <= ix < g.nodes.len(),
        g.nodes[ix] == pv,
    ensures
        graph_node_index(g, pv) == ix,
{
    assert(graph_has_node(g, pv));
    let w = graph_node_index(g, pv);
    assert(0 <= w < g.nodes.len() && g.nodes[w] == pv);
    if w != ix {
        assert(g.nodes[w] != g.nodes[ix]);
    }
}

/// Extending a graph's edge list (and possibly appending nodes) keeps
/// every older node's incoming edge from an earlier node.
proof fn lemma_parent_edges_extend(g: GraphView, older: GraphView)
    requires
        older.edges.len() <= g.edges.len(),
        forall|k: int| 0 <= k < older.edges.len() ==> g.edges[k] == older.edges[k],
        forall|j: int| 1 <= j < older.nodes.len() ==> has_parent_edge(older, j),
    ensures
        forall|j: int| 1 <= j < older.nodes.len() ==> has_parent_edge(g, j),
{
    assert forall|j: int| 1 <= j < older.nodes.len() implies has_parent_edge(g, j) by {
        assert(has_parent_edge(older, j));
        let k = choose|k: int|
            0 <= k < older.edges.len() && (#[trigger] older.edges[k]).to == j
                && older.edges[k].from < j;
        assert(g.edges[k] == older.edges[k]);
    }
}

} // verus!
