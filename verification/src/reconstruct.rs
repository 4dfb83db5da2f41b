//! Path reconstruction from a persisted lock graph: given only a pinned
//! graph (no fresh fetch), resolve every node's local path by walking nodes
//! in reverse compilation order — root first, since the root's path is
//! known externally — so that each dependency's path can be derived from
//! its already-resolved parent.
//!
//! Like the fetcher, this is a session: probing directories, loading parent
//! manifests, and fetching missing git checkouts are actions handed to the
//! caller, and `resolve_transition` fixes, for every stage and event,
//! exactly which action or error comes back and exactly which path is
//! recorded. A git-pinned node's path is its deterministic cache location,
//! fetched on demand when absent; a `path`-pinned node needs exactly one
//! incoming edge (its single parent) and a manifest entry with a relative
//! path, and a missing local directory for it is fatal and never
//! auto-created. Registry-pinned nodes always fail.

use vstd::prelude::*;

use crate::error::Error;
use crate::graph::lemma_index_of_unique;
use crate::graph::ord_of;
use crate::graph::valid_compilation_order;
use crate::graph::wf;
use crate::graph::Graph;
use crate::graph::GraphEdgeView;
use crate::graph::GraphView;
use crate::manifest::join_path;
use crate::manifest::spec_join_path;
use crate::manifest::Dependency;
use crate::manifest::DependencyView;
use crate::manifest::Manifest;
use crate::paths::git_commit_path;
use crate::paths::spec_git_commit_path;
use crate::plan::lookup;
use crate::plan::node_id;
use crate::plan::path_total;
use crate::plan::PathMap;
use crate::source::PinnedId;
use crate::source::SourceGitPinned;
use crate::source::SourceGitPinnedView;
use crate::source::SourcePinned;
use crate::source::SourcePinnedView;
use crate::text::str_eq;

verus! {

/// What the session asks the caller to do next.
#[derive(Debug)]
pub enum ResolveAction {
    /// Load the manifest at `path`; reply with `Manifest` or
    /// `ManifestFailed`.
    LoadManifest { path: String },
    /// Report whether the directory at `path` exists; reply with
    /// `DirChecked`.
    CheckDir { path: String },
    /// Check the pinned commit out into `path`; reply with `Fetched` or
    /// `FetchFailed`.
    FetchGit { name: String, pinned: SourceGitPinned, path: String },
    /// Every node's path is resolved; take the result with `finish`.
    Done,
}

/// The caller's reply to the most recent action.
#[derive(Debug)]
pub enum ResolveEvent {
    Manifest(Manifest),
    ManifestFailed,
    DirChecked { exists: bool },
    Fetched,
    FetchFailed,
}

/// The kind of event the session is waiting for.
pub ghost enum ResolveAwait {
    Manifest,
    Dir,
    Fetch,
    Finished,
}

/// Whether an event answers what the session is waiting for.
pub open spec fn resolve_accepts(k: ResolveAwait, e: ResolveEvent) -> bool {
    match k {
        ResolveAwait::Manifest => e is Manifest || e is ManifestFailed,
        ResolveAwait::Dir => e is DirChecked,
        ResolveAwait::Fetch => e is Fetched || e is FetchFailed,
        ResolveAwait::Finished => false,
    }
}

/// The awaiting state a returned action puts the session into.
pub open spec fn resolve_action_awaits(a: ResolveAction) -> ResolveAwait {
    match a {
        ResolveAction::LoadManifest { .. } => ResolveAwait::Manifest,
        ResolveAction::CheckDir { .. } => ResolveAwait::Dir,
        ResolveAction::FetchGit { .. } => ResolveAwait::Fetch,
        ResolveAction::Done => ResolveAwait::Finished,
    }
}

/// The stage of the node currently being resolved, with everything the
/// stage has derived so far.
pub ghost enum RPendingView {
    /// The node's deterministic cache path is being probed.
    GitDir { id: u64, name: Seq<char>, git: SourceGitPinnedView, path: Seq<char> },
    /// The node's missing checkout is being fetched.
    GitFetch { id: u64, name: Seq<char>, git: SourceGitPinnedView, path: Seq<char> },
    /// The node's single parent manifest is being loaded.
    ParentManifest { id: u64, name: Seq<char>, parent_path: Seq<char> },
    /// The node's derived directory is being probed.
    PathDir { id: u64, name: Seq<char>, path: Seq<char> },
    /// Nothing pending: the walk is between nodes, complete, or stopped.
    Finished,
}

/// The kind of event each stage waits for.
pub open spec fn resolve_awaiting_of(p: RPendingView) -> ResolveAwait {
    match p {
        RPendingView::GitDir { .. } => ResolveAwait::Dir,
        RPendingView::GitFetch { .. } => ResolveAwait::Fetch,
        RPendingView::ParentManifest { .. } => ResolveAwait::Manifest,
        RPendingView::PathDir { .. } => ResolveAwait::Dir,
        RPendingView::Finished => ResolveAwait::Finished,
    }
}

pub ghost struct PathResolverView {
    pub fetch_id: u64,
    pub cache_root: Seq<char>,
    pub graph: GraphView,
    pub order: Seq<int>,
    pub path_map: Seq<(u64, Seq<char>)>,
    pub pending: RPendingView,
    /// How many positions of the compilation order still lack a path.
    pub remaining: int,
}

// ---------------------------------------------------------------------------
// The walk's next move, as spec functions over the exposed state.
// ---------------------------------------------------------------------------

/// How many edges point into node `x`.
pub open spec fn count_incoming(edges: Seq<GraphEdgeView>, x: int) -> int
    decreases edges.len(),
{
    if edges.len() == 0 {
        0
    } else {
        (if edges.last().to == x {
            1int
        } else {
            0int
        }) + count_incoming(edges.drop_last(), x)
    }
}

/// The dependent behind some edge into `x`: the node's single parent when
/// exactly one edge points at it.
pub open spec fn incoming_parent(g: GraphView, x: int) -> int {
    g.edges[choose|k: int| 0 <= k < g.edges.len() && (#[trigger] g.edges[k]).to == x].from
}

/// The relative path of the first declaration under the key `name`, when
/// that declaration is detailed and carries one.
pub open spec fn manifest_path_entry(
    deps: Seq<(Seq<char>, DependencyView)>,
    name: Seq<char>,
) -> Option<Seq<char>>
    decreases deps.len(),
{
    if deps.len() == 0 {
        None
    } else if deps[0].0 == name {
        match deps[0].1 {
            DependencyView::Detailed(det) => det.path,
            DependencyView::Simple(_) => None,
        }
    } else {
        manifest_path_entry(deps.drop_first(), name)
    }
}

/// The walk refuses the position's node outright: a `path`-pinned node
/// without exactly one incoming edge, or a registry-pinned node.
pub open spec fn walk_refuses(graph: GraphView, order: Seq<int>, pos: int) -> bool {
    pos > 0 && {
        let node = graph.nodes[order[pos - 1]];
        match node.source {
            SourcePinnedView::Path => count_incoming(graph.edges, order[pos - 1]) != 1,
            SourcePinnedView::Registry(_) => true,
            SourcePinnedView::Git(_) => false,
        }
    }
}

/// The error such a refusal carries: the parent-ambiguity error or the
/// registry error, each naming the node's package.
pub open spec fn walk_refusal(graph: GraphView, order: Seq<int>, pos: int, e: Error) -> bool {
    pos > 0 && {
        let node = graph.nodes[order[pos - 1]];
        match node.source {
            SourcePinnedView::Path => count_incoming(graph.edges, order[pos - 1]) != 1 && (
            e matches Error::AmbiguousPathDependencyParent { name } && name@ == node.name),
            SourcePinnedView::Registry(_) => e matches Error::RegistryUnsupported { name }
                && name@ == node.name,
            SourcePinnedView::Git(_) => false,
        }
    }
}

/// What one resumption of the walk does, given the state it resumes in:
/// done at position zero; a cache probe at the deterministic commit path
/// for a git-pinned node; a parent-manifest request — the parent being the
/// single incoming edge's dependent, whose path is already resolved — for
/// a `path`-pinned node; a named refusal otherwise.
pub open spec fn resolve_advances(
    graph: GraphView,
    order: Seq<int>,
    cache_root: Seq<char>,
    path_map: Seq<(u64, Seq<char>)>,
    pos: int,
    r: Result<ResolveAction, Error>,
    post: PathResolverView,
) -> bool {
    &&& post.graph == graph
    &&& post.order == order
    &&& post.cache_root == cache_root
    &&& post.path_map == path_map
    &&& if pos == 0 {
        &&& r matches Ok(ResolveAction::Done)
        &&& post.remaining == 0
        &&& post.pending is Finished
    } else {
        let x = order[pos - 1];
        let node = graph.nodes[x];
        &&& post.remaining == pos
        &&& match node.source {
            SourcePinnedView::Git(g) => {
                let pth = spec_git_commit_path(
                    cache_root,
                    node.name,
                    g.source.repo,
                    g.commit_hash,
                );
                &&& (r matches Ok(a) && (a matches ResolveAction::CheckDir { path } && path@
                    == pth))
                &&& post.pending == (RPendingView::GitDir {
                    id: node_id(node),
                    name: node.name,
                    git: g,
                    path: pth,
                })
            },
            SourcePinnedView::Path => {
                if count_incoming(graph.edges, x) != 1 {
                    &&& (r matches Err(e) && (e matches
                        Error::AmbiguousPathDependencyParent { name } && name@ == node.name))
                    &&& post.pending is Finished
                } else {
                    let parent = incoming_parent(graph, x);
                    let pp = lookup(path_map, node_id(graph.nodes[parent]))->0;
                    &&& (r matches Ok(a) && (a matches ResolveAction::LoadManifest { path }
                        && path@ == pp))
                    &&& post.pending == (RPendingView::ParentManifest {
                        id: node_id(node),
                        name: node.name,
                        parent_path: pp,
                    })
                }
            },
            SourcePinnedView::Registry(_) => {
                &&& (r matches Err(e) && (e matches Error::RegistryUnsupported { name }
                    && name@ == node.name))
                &&& post.pending is Finished
            },
        }
    }
}

/// What `step` does for every stage and event: which action or error comes
/// back, which path-map entry is recorded (a recorded path steps the walk
/// backward, so `remaining` decreases), and how the walk resumes. Events
/// excluded by `resolve_accepts` never reach `step`.
pub open spec fn resolve_transition(
    pre: PathResolverView,
    event: ResolveEvent,
    r: Result<ResolveAction, Error>,
    post: PathResolverView,
) -> bool {
    match pre.pending {
        RPendingView::GitDir { id, name, git, path } => match event {
            ResolveEvent::DirChecked { exists } => if exists {
                &&& lookup(post.path_map, id) == Some(path)
                &&& (forall|k: u64| k != id ==> lookup(post.path_map, k) == lookup(
                    pre.path_map,
                    k,
                ))
                &&& resolve_advances(
                    pre.graph,
                    pre.order,
                    pre.cache_root,
                    post.path_map,
                    pre.remaining - 1,
                    r,
                    post,
                )
            } else {
                &&& (r matches Ok(a) && (a matches ResolveAction::FetchGit {
                    name: n,
                    pinned: pg,
                    path: p,
                } && n@ == name && pg@ == git && p@ == path))
                &&& post.graph == pre.graph
                &&& post.order == pre.order
                &&& post.path_map == pre.path_map
                &&& post.remaining == pre.remaining
                &&& post.pending == (RPendingView::GitFetch { id, name, git, path })
            },
            _ => true,
        },
        RPendingView::GitFetch { id, name, git, path } => match event {
            ResolveEvent::Fetched => {
                &&& lookup(post.path_map, id) == Some(path)
                &&& (forall|k: u64| k != id ==> lookup(post.path_map, k) == lookup(
                    pre.path_map,
                    k,
                ))
                &&& resolve_advances(
                    pre.graph,
                    pre.order,
                    pre.cache_root,
                    post.path_map,
                    pre.remaining - 1,
                    r,
                    post,
                )
            },
            ResolveEvent::FetchFailed => {
                &&& (r matches Err(e) && (e matches Error::GitCheckoutFailure { name: n } && n@
                    == name))
                &&& post.graph == pre.graph
                &&& post.path_map == pre.path_map
                &&& post.pending is Finished
            },
            _ => true,
        },
        RPendingView::ParentManifest { id, name, parent_path } => match event {
            ResolveEvent::Manifest(m) => match manifest_path_entry(m@.deps, name) {
                Some(rel) => {
                    let full = spec_join_path(parent_path, rel);
                    &&& (r matches Ok(a) && (a matches ResolveAction::CheckDir { path } && path@
                        == full))
                    &&& post.graph == pre.graph
                    &&& post.order == pre.order
                    &&& post.path_map == pre.path_map
                    &&& post.remaining == pre.remaining
                    &&& post.pending == (RPendingView::PathDir { id, name, path: full })
                },
                None => {
                    &&& (r matches Err(e) && (e matches Error::MissingPathDependencySource {
                        name: n,
                    } && n@ == name))
                    &&& post.graph == pre.graph
                    &&& post.path_map == pre.path_map
                    &&& post.pending is Finished
                },
            },
            ResolveEvent::ManifestFailed => {
                &&& (r matches Err(e) && (e matches Error::ManifestLoadFailure { path: p } && p@
                    == parent_path))
                &&& post.graph == pre.graph
                &&& post.path_map == pre.path_map
                &&& post.pending is Finished
            },
            _ => true,
        },
        RPendingView::PathDir { id, name, path } => match event {
            ResolveEvent::DirChecked { exists } => if exists {
                &&& lookup(post.path_map, id) == Some(path)
                &&& (forall|k: u64| k != id ==> lookup(post.path_map, k) == lookup(
                    pre.path_map,
                    k,
                ))
                &&& resolve_advances(
                    pre.graph,
                    pre.order,
                    pre.cache_root,
                    post.path_map,
                    pre.remaining - 1,
                    r,
                    post,
                )
            } else {
                // The directory a local path dependency should stand in is
                // missing: fatal, never auto-created.
                &&& (r matches Err(e) && (e matches Error::MissingPathDependencySource {
                    name: n,
                } && n@ == name))
                &&& post.graph == pre.graph
                &&& post.path_map == pre.path_map
                &&& post.pending is Finished
            },
            _ => true,
        },
        RPendingView::Finished => true,
    }
}

/// The stage of the node currently being resolved.
enum Pending {
    GitDir { id: PinnedId, name: String, git: SourceGitPinned, path: String },
    GitFetch { id: PinnedId, name: String, git: SourceGitPinned, path: String },
    ParentManifest { id: PinnedId, name: String, parent_path: String },
    PathDir { id: PinnedId, name: String, path: String },
    Finished,
}

impl View for Pending {
    type V = RPendingView;

    closed spec fn view(&self) -> RPendingView {
        match self {
            Pending::GitDir { id, name, git, path } => RPendingView::GitDir {
                id: id@,
                name: name@,
                git: git@,
                path: path@,
            },
            Pending::GitFetch { id, name, git, path } => RPendingView::GitFetch {
                id: id@,
                name: name@,
                git: git@,
                path: path@,
            },
            Pending::ParentManifest { id, name, parent_path } => RPendingView::ParentManifest {
                id: id@,
                name: name@,
                parent_path: parent_path@,
            },
            Pending::PathDir { id, name, path } => RPendingView::PathDir {
                id: id@,
                name: name@,
                path: path@,
            },
            Pending::Finished => RPendingView::Finished,
        }
    }
}

/// The reverse-order path resolution walk, held between actions.
pub struct PathResolver {
    cache_root: String,
    fetch_id: u64,
    graph: Graph,
    order: Vec<usize>,
    path_map: PathMap,
    /// Positions `pos..order.len()` of the order are resolved.
    pos: usize,
    pending: Pending,
}

impl View for PathResolver {
    type V = PathResolverView;

    closed spec fn view(&self) -> PathResolverView {
        PathResolverView {
            fetch_id: self.fetch_id,
            cache_root: self.cache_root@,
            graph: self.graph@,
            order: ord_of(self.order@),
            path_map: self.path_map@,
            pending: self.pending@,
            remaining: self.pos as int,
        }
    }
}

impl PathResolver {
    /// The session's internal consistency: a well-formed graph with a valid
    /// order, a path registered for every already-walked position, and a
    /// pending stage that belongs to the position being walked.
    pub closed spec fn wf_state(&self) -> bool {
        &&& wf(self.graph@)
        &&& valid_compilation_order(self.graph@, ord_of(self.order@))
        &&& self.pos as int <= self.order@.len()
        &&& forall|q: int| self.pos as int <= q < self.order@.len() ==> lookup(
            self.path_map@,
            node_id(self.graph@.nodes[ord_of(self.order@)[q]]),
        ) is Some
        &&& match self.pending {
            Pending::GitDir { id, .. } => self.pos >= 1 && id@ == node_id(
                self.graph@.nodes[ord_of(self.order@)[self.pos - 1]],
            ),
            Pending::GitFetch { id, .. } => self.pos >= 1 && id@ == node_id(
                self.graph@.nodes[ord_of(self.order@)[self.pos - 1]],
            ),
            Pending::ParentManifest { id, .. } => self.pos >= 1 && id@ == node_id(
                self.graph@.nodes[ord_of(self.order@)[self.pos - 1]],
            ),
            Pending::PathDir { id, .. } => self.pos >= 1 && id@ == node_id(
                self.graph@.nodes[ord_of(self.order@)[self.pos - 1]],
            ),
            Pending::Finished => true,
        }
    }

    /// The identifier of this resolution pass, used to name scratch clone
    /// directories when a missing git checkout must be fetched.
    pub fn fetch_id(&self) -> (r: u64)
        ensures
            r == self@.fetch_id,
    {
        self.fetch_id
    }

    /// Begin resolving paths for a lock graph: the root — last in the
    /// order — takes the externally known project path as its path-map
    /// entry, and the walk proceeds in reverse order from there. A graph
    /// without even a root node is rejected; otherwise the first walked
    /// node's outcome is fixed by `resolve_advances`.
    pub fn new(
        graph: Graph,
        order: Vec<usize>,
        proj_path: String,
        cache_root: String,
        fetch_id: u64,
    ) -> (r: Result<(PathResolver, ResolveAction), Error>)
        requires
            wf(graph@),
            valid_compilation_order(graph@, ord_of(order@)),
        ensures
            (r matches Err(e) && e matches Error::EmptyGraph) <==> order@.len() == 0,
            order@.len() > 0 && !walk_refuses(graph@, ord_of(order@), order@.len() - 1)
                ==> r is Ok,
            order@.len() > 0 ==> (r matches Err(e) ==> walk_refusal(
                graph@,
                ord_of(order@),
                order@.len() - 1,
                e,
            )),
            r matches Ok(p) ==> ({
                let rid = node_id(graph@.nodes[ord_of(order@)[order@.len() - 1]]);
                &&& p.0.wf_state()
                &&& p.0@.fetch_id == fetch_id
                &&& lookup(p.0@.path_map, rid) == Some(proj_path@)
                &&& (forall|k: u64| k != rid ==> lookup(p.0@.path_map, k) is None)
                &&& resolve_advances(
                    graph@,
                    ord_of(order@),
                    cache_root@,
                    p.0@.path_map,
                    order@.len() - 1,
                    Ok(p.1),
                    p.0@,
                )
                &&& resolve_awaiting_of(p.0@.pending) == resolve_action_awaits(p.1)
            }),
    {
        let n = order.len();
        if n == 0 {
            return Err(Error::EmptyGraph);
        }
        let root = order[n - 1];
        proof {
            assert(ord_of(order@)[n - 1] == root as int);
        }
        let root_id = graph.nodes[root].id();
        let mut path_map = PathMap::new();
        let ghost empty_map = path_map@;
        path_map.insert(root_id, proj_path);
        let mut resolver = PathResolver {
            cache_root,
            fetch_id,
            graph,
            order,
            path_map,
            pos: n - 1,
            pending: Pending::Finished,
        };
        proof {
            assert forall|q: int|
                resolver.pos as int <= q < resolver.order@.len() implies lookup(
                resolver.path_map@,
                node_id(resolver.graph@.nodes[ord_of(resolver.order@)[q]]),
            ) is Some by {
                assert(q == n - 1);
            }
            assert forall|k: u64| k != root_id@ implies lookup(
                resolver.path_map@,
                k,
            ) is None by {
                assert(lookup(empty_map, k) is None);
            }
        }
        match resolver.advance() {
            Ok(action) => Ok((resolver, action)),
            Err(e) => Err(e),
        }
    }

    /// Walk one position backward: compute the next node's candidate path
    /// and ask the caller to probe or derive it. `resolve_advances` fixes
    /// the outcome exactly.
    fn advance(&mut self) -> (r: Result<ResolveAction, Error>)
        requires
            old(self).wf_state(),
            old(self).pending is Finished,
        ensures
            final(self).wf_state(),
            final(self)@.fetch_id == old(self)@.fetch_id,
            resolve_advances(
                old(self)@.graph,
                old(self)@.order,
                old(self)@.cache_root,
                old(self)@.path_map,
                old(self)@.remaining,
                r,
                final(self)@,
            ),
            r matches Ok(a) ==> resolve_awaiting_of(final(self)@.pending)
                == resolve_action_awaits(a),
            r is Err ==> final(self)@.pending is Finished,
    {
        if self.pos == 0 {
            return Ok(ResolveAction::Done);
        }
        let p = self.pos - 1;
        let x = self.order[p];
        proof {
            assert(ord_of(self.order@)[p as int] == x as int);
        }
        let node_name = self.graph.nodes[x].name.clone();
        match &self.graph.nodes[x].source {
            SourcePinned::Git(git) => {
                let path = git_commit_path(
                    self.cache_root.as_str(),
                    node_name.as_str(),
                    git.source.repo.as_str(),
                    git.commit_hash.as_str(),
                );
                let id = self.graph.nodes[x].id();
                let git = git.clone();
                let probe = path.clone();
                self.pending = Pending::GitDir { id, name: node_name, git, path };
                Ok(ResolveAction::CheckDir { path: probe })
            },
            SourcePinned::Path => {
                // A path-pinned node needs exactly one incoming edge: its
                // single parent, from whose manifest its location derives.
                let m = self.graph.edges.len();
                let mut count: usize = 0;
                let mut parent: usize = 0;
                let mut k: usize = 0;
                while k < m
                    invariant
                        k <= m,
                        m == self.graph@.edges.len(),
                        wf(self.graph@),
                        x < self.graph@.nodes.len(),
                        count == count_incoming(
                            self.graph@.edges.subrange(0, k as int),
                            x as int,
                        ),
                        count > 0 ==> parent < self.graph@.nodes.len() && exists|k2: int|
                            0 <= k2 < k && (#[trigger] self.graph@.edges[k2]).from
                                == parent as int && self.graph@.edges[k2].to == x as int,
                        count <= k,
                    decreases m - k,
                {
                    let et = self.graph.edges[k].to;
                    let ef = self.graph.edges[k].from;
                    proof {
                        assert(self.graph@.edges[k as int].to == et as int);
                        assert(self.graph@.edges[k as int].from == ef as int);
                        let pre = self.graph@.edges.subrange(0, k as int);
                        assert(self.graph@.edges.subrange(0, k + 1) =~= pre.push(
                            self.graph@.edges[k as int],
                        ));
                        assert(pre.push(self.graph@.edges[k as int]).drop_last() =~= pre);
                    }
                    if et == x {
                        if count == usize::MAX {
                            proof {
                                lemma_count_incoming_prefix(
                                    self.graph@.edges,
                                    x as int,
                                    k as int,
                                );
                            }
                            return Err(Error::AmbiguousPathDependencyParent {
                                name: node_name,
                            });
                        }
                        count = count + 1;
                        parent = ef;
                    }
                    k = k + 1;
                }
                proof {
                    assert(self.graph@.edges.subrange(0, m as int) =~= self.graph@.edges);
                }
                if count != 1 {
                    return Err(Error::AmbiguousPathDependencyParent { name: node_name });
                }
                proof {
                    let k2 = choose|k2: int|
                        0 <= k2 < self.graph@.edges.len()
                            && (#[trigger] self.graph@.edges[k2]).from == parent as int
                            && self.graph@.edges[k2].to == x as int;
                    let kc = choose|k: int|
                        0 <= k < self.graph@.edges.len()
                            && (#[trigger] self.graph@.edges[k]).to == x as int;
                    lemma_count_one_unique(self.graph@.edges, x as int, k2, kc);
                    assert(incoming_parent(self.graph@, x as int) == parent as int);
                }
                let parent_id = self.graph.nodes[parent].id();
                proof {
                    let ordv = ord_of(self.order@);
                    let k2 = choose|k2: int|
                        0 <= k2 < self.graph@.edges.len()
                            && (#[trigger] self.graph@.edges[k2]).from == parent as int
                            && self.graph@.edges[k2].to == x as int;
                    lemma_index_of_unique(ordv, p as int);
                    assert(ordv.index_of(x as int) == p as int);
                    assert(ordv.index_of(self.graph@.edges[k2].to) < ordv.index_of(
                        self.graph@.edges[k2].from,
                    ));
                    assert(ordv.contains(parent as int));
                    let q = ordv.index_of(parent as int);
                    assert(0 <= q < ordv.len() && ordv[q] == parent as int);
                    assert(q > p as int);
                    assert(lookup(
                        self.path_map@,
                        node_id(self.graph@.nodes[ordv[q]]),
                    ) is Some);
                }
                let parent_path: String = match self.path_map.get(parent_id) {
                    Some(pp) => pp.clone(),
                    None => unreached(),
                };
                let id = self.graph.nodes[x].id();
                let action_path = parent_path.clone();
                self.pending = Pending::ParentManifest { id, name: node_name, parent_path };
                Ok(ResolveAction::LoadManifest { path: action_path })
            },
            SourcePinned::Registry(_) => Err(
                Error::RegistryUnsupported { name: node_name },
            ),
        }
    }

    /// Feed the outcome of the previous action back into the walk and get
    /// the next action. `resolve_transition` fixes the outcome exactly;
    /// every failure aborts the whole reconstruction.
    pub fn step(&mut self, event: ResolveEvent) -> (r: Result<ResolveAction, Error>)
        requires
            old(self).wf_state(),
            resolve_accepts(resolve_awaiting_of(old(self)@.pending), event),
        ensures
            final(self).wf_state(),
            final(self)@.fetch_id == old(self)@.fetch_id,
            final(self)@.graph == old(self)@.graph,
            resolve_transition(old(self)@, event, r, final(self)@),
            r matches Ok(a) ==> resolve_awaiting_of(final(self)@.pending)
                == resolve_action_awaits(a),
            r is Err ==> final(self)@.pending is Finished,
    {
        let mut pending = Pending::Finished;
        core::mem::swap(&mut pending, &mut self.pending);
        match pending {
            Pending::GitDir { id, name, git, path } => match event {
                ResolveEvent::DirChecked { exists } => {
                    if exists {
                        self.record_resolved(id, path);
                        self.advance()
                    } else {
                        let action_name = name.clone();
                        let action_git = git.clone();
                        let action_path = path.clone();
                        self.pending = Pending::GitFetch { id, name, git, path };
                        Ok(
                            ResolveAction::FetchGit {
                                name: action_name,
                                pinned: action_git,
                                path: action_path,
                            },
                        )
                    }
                },
                _ => unreached(),
            },
            Pending::GitFetch { id, name, git: _, path } => match event {
                ResolveEvent::Fetched => {
                    self.record_resolved(id, path);
                    self.advance()
                },
                ResolveEvent::FetchFailed => Err(Error::GitCheckoutFailure { name }),
                _ => unreached(),
            },
            Pending::ParentManifest { id, name, parent_path } => match event {
                ResolveEvent::Manifest(m) => {
                    let rel = match find_path_entry(&m, &name) {
                        Some(rel) => rel,
                        None => {
                            return Err(Error::MissingPathDependencySource { name });
                        },
                    };
                    let full = join_path(parent_path.as_str(), rel.as_str());
                    let probe = full.clone();
                    self.pending = Pending::PathDir { id, name, path: full };
                    Ok(ResolveAction::CheckDir { path: probe })
                },
                ResolveEvent::ManifestFailed => Err(
                    Error::ManifestLoadFailure { path: parent_path },
                ),
                _ => unreached(),
            },
            Pending::PathDir { id, name, path } => match event {
                ResolveEvent::DirChecked { exists } => {
                    if exists {
                        self.record_resolved(id, path);
                        self.advance()
                    } else {
                        Err(Error::MissingPathDependencySource { name })
                    }
                },
                _ => unreached(),
            },
            Pending::Finished => unreached(),
        }
    }

    /// Register the resolved path for the position being walked and step
    /// the walk backward.
    fn record_resolved(&mut self, id: PinnedId, path: String)
        requires
            old(self).wf_state(),
            old(self).pending is Finished,
            old(self).pos >= 1,
            id@ == node_id(
                old(self).graph@.nodes[ord_of(old(self).order@)[old(self).pos - 1]],
            ),
        ensures
            final(self).wf_state(),
            final(self).pending is Finished,
            final(self)@.graph == old(self)@.graph,
            final(self)@.order == old(self)@.order,
            final(self)@.cache_root == old(self)@.cache_root,
            final(self)@.fetch_id == old(self)@.fetch_id,
            final(self)@.remaining == old(self)@.remaining - 1,
            lookup(final(self)@.path_map, id@) == Some(path@),
            forall|k: u64| k != id@ ==> lookup(final(self)@.path_map, k) == lookup(
                old(self)@.path_map,
                k,
            ),
    {
        self.path_map.insert(id, path);
        self.pos = self.pos - 1;
        proof {
            assert forall|q: int|
                self.pos as int <= q < self.order@.len() implies lookup(
                self.path_map@,
                node_id(self.graph@.nodes[ord_of(self.order@)[q]]),
            ) is Some by {
                let key = node_id(self.graph@.nodes[ord_of(self.order@)[q]]);
                if key != id@ {
                    assert(lookup(self.path_map@, key) == lookup(old(self).path_map@, key));
                }
            }
        }
    }

    /// Take the graph back together with the completed path map, which now
    /// registers a path for every node.
    pub fn finish(self) -> (r: (Graph, PathMap))
        requires
            self.wf_state(),
            self@.pending is Finished,
            self@.remaining == 0,
        ensures
            r.0@ == self@.graph,
            r.1@ == self@.path_map,
            path_total(r.0@, r.1@),
    {
        proof {
            let ordv = ord_of(self.order@);
            assert forall|i: int| 0 <= i < self@.graph.nodes.len() implies lookup(
                self@.path_map,
                node_id(#[trigger] self@.graph.nodes[i]),
            ) is Some by {
                assert(ordv.contains(i));
                let q = ordv.index_of(i);
                assert(0 <= q < ordv.len() && ordv[q] == i);
            }
        }
        (self.graph, self.path_map)
    }
}

/// A prefix never holds more incoming edges than the whole list.
proof fn lemma_count_incoming_prefix(edges: Seq<GraphEdgeView>, x: int, j: int)
    requires
        0 <= j <= edges.len(),
    ensures
        count_incoming(edges.subrange(0, j), x) <= count_incoming(edges, x),
    decreases edges.len() - j,
{
    if j == edges.len() {
        assert(edges.subrange(0, j) =~= edges);
    } else {
        lemma_count_incoming_prefix(edges, x, j + 1);
        let s1 = edges.subrange(0, j + 1);
        assert(s1.drop_last() =~= edges.subrange(0, j));
        lemma_count_incoming_nonneg(edges.subrange(0, j), x);
    }
}

/// Incoming-edge counts are never negative.
proof fn lemma_count_incoming_nonneg(edges: Seq<GraphEdgeView>, x: int)
    ensures
        count_incoming(edges, x) >= 0,
    decreases edges.len(),
{
    if edges.len() > 0 {
        lemma_count_incoming_nonneg(edges.drop_last(), x);
    }
}

/// A list with no incoming edges holds no witness.
proof fn lemma_count_incoming_zero(edges: Seq<GraphEdgeView>, x: int)
    requires
        count_incoming(edges, x) == 0,
    ensures
        forall|k: int| 0 <= k < edges.len() ==> (#[trigger] edges[k]).to != x,
    decreases edges.len(),
{
    if edges.len() > 0 {
        lemma_count_incoming_nonneg(edges.drop_last(), x);
        lemma_count_incoming_zero(edges.drop_last(), x);
        assert forall|k: int| 0 <= k < edges.len() implies (#[trigger] edges[k]).to != x by {
            if k < edges.len() - 1 {
                assert(edges.drop_last()[k].to != x);
            }
        }
    }
}

/// With exactly one incoming edge, any two witnesses coincide.
proof fn lemma_count_one_unique(edges: Seq<GraphEdgeView>, x: int, k1: int, k2: int)
    requires
        count_incoming(edges, x) == 1,
        0 <= k1 < edges.len(),
        edges[k1].to == x,
        0 <= k2 < edges.len(),
        edges[k2].to == x,
    ensures
        k1 == k2,
    decreases edges.len(),
{
    if edges.last().to == x {
        lemma_count_incoming_nonneg(edges.drop_last(), x);
        lemma_count_incoming_zero(edges.drop_last(), x);
        if k1 < edges.len() - 1 {
            assert(edges.drop_last()[k1].to != x);
        }
        if k2 < edges.len() - 1 {
            assert(edges.drop_last()[k2].to != x);
        }
    } else {
        if k1 == edges.len() - 1 || k2 == edges.len() - 1 {
            assert(edges.last().to == x);
        } else {
            assert(edges.drop_last()[k1].to == x);
            assert(edges.drop_last()[k2].to == x);
            lemma_count_one_unique(edges.drop_last(), x, k1, k2);
        }
    }
}

/// The relative path declared for the dependency whose resolved package
/// name is `name`, mirroring `manifest_path_entry`: the first entry under
/// that key decides, and only a detailed declaration with a `path` field
/// yields one.
fn find_path_entry<'a>(m: &'a Manifest, name: &String) -> (r: Option<&'a String>)
    ensures
        match r {
            Some(rel) => manifest_path_entry(m@.deps, name@) == Some(rel@),
            None => manifest_path_entry(m@.deps, name@) is None,
        },
{
    let n = m.dependencies.len();
    let mut i: usize = 0;
    proof {
        assert(m@.deps.subrange(0, n as int) =~= m@.deps);
    }
    while i < n
        invariant
            i <= n,
            n == m.dependencies@.len(),
            n == m@.deps.len(),
            manifest_path_entry(m@.deps, name@) == manifest_path_entry(
                m@.deps.subrange(i as int, n as int),
                name@,
            ),
        decreases n - i,
    {
        let pair = &m.dependencies[i];
        proof {
            assert(m@.deps[i as int] == (pair.0@, pair.1@));
            assert(m@.deps.subrange(i as int, n as int)[0] == m@.deps[i as int]);
        }
        if str_eq(pair.0.as_str(), name.as_str()) {
            match &pair.1 {
                Dependency::Detailed(det) => {
                    return det.path.as_ref();
                },
                Dependency::Simple(_) => {
                    return None;
                },
            }
        }
        proof {
            assert(m@.deps.subrange(i as int, n as int).drop_first() =~= m@.deps.subrange(
                i + 1,
                n as int,
            ));
        }
        i = i + 1;
    }
    proof {
        assert(m@.deps.subrange(n as int, n as int) =~= Seq::<
            (Seq<char>, DependencyView),
        >::empty());
    }
    None
}

} // verus!
