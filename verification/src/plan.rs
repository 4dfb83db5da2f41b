//! The build plan: a pinned dependency graph, the map from pinned identity
//! to local path, and a dependency-first compilation order.

use vstd::prelude::*;

use crate::error::Error;
use crate::manifest::dep_pkg_name;
use crate::manifest::dep_to_source;
use crate::manifest::project_name_matches;
use crate::manifest::spec_dep_pkg_name;
use crate::manifest::spec_dep_to_source;
use crate::manifest::Manifest;
use crate::manifest::ManifestView;
use crate::graph::acyclic;
use crate::graph::compilation_order;
use crate::graph::ord_of;
use crate::graph::reaches;
use crate::graph::valid_compilation_order;
use crate::graph::wf;
use crate::graph::Graph;
use crate::graph::GraphView;
use crate::source::spec_pinned_id;
use crate::source::Pinned;
use crate::source::PinnedId;
use crate::source::PinnedView;
use crate::source::pkg_eq;
use crate::source::Pkg;
use crate::source::PkgView;
use crate::source::Source;
use crate::source::SourcePinned;
use crate::source::SourcePinnedView;
use crate::source::SourceView;

verus! {

/// The fingerprint of a pinned package.
pub open spec fn node_id(p: PinnedView) -> u64 {
    spec_pinned_id(p.name, p.source)
}

// ---------------------------------------------------------------------------
// PathMap: pinned identity -> local source path.
// ---------------------------------------------------------------------------

/// The path registered for `key`, scanning from the front.
pub open spec fn lookup(entries: Seq<(u64, Seq<char>)>, key: u64) -> Option<Seq<char>>
    decreases entries.len(),
{
    if entries.len() == 0 {
        None
    } else if entries[0].0 == key {
        Some(entries[0].1)
    } else {
        lookup(entries.drop_first(), key)
    }
}

/// A mapping from pinned package identity to the local path holding that
/// package's source, total over all graph nodes once a plan is valid.
#[derive(Debug)]
pub struct PathMap {
    entries: Vec<(PinnedId, String)>,
}

impl View for PathMap {
    type V = Seq<(u64, Seq<char>)>;

    closed spec fn view(&self) -> Seq<(u64, Seq<char>)> {
        self.entries@.map_values(|p: (PinnedId, String)| (p.0@, p.1@))
    }
}

proof fn lemma_lookup_skip_step(s: Seq<(u64, Seq<char>)>, i: int, key: u64)
    requires
        0 <= i < s.len(),
        s.subrange(i, s.len() as int)[0].0 != key,
    ensures
        lookup(s.subrange(i, s.len() as int), key) == lookup(
            s.subrange(i + 1, s.len() as int),
            key,
        ),
{
    assert(s.subrange(i, s.len() as int).drop_first() =~= s.subrange(i + 1, s.len() as int));
}

proof fn lemma_lookup_update(s: Seq<(u64, Seq<char>)>, i: int, v: Seq<char>, key: u64, k: u64)
    requires
        0 <= i < s.len(),
        s[i].0 == key,
        forall|j: int| 0 <= j < i ==> (#[trigger] s[j]).0 != key,
    ensures
        lookup(s.update(i, (key, v)), key) == Some(v),
        k != key ==> lookup(s.update(i, (key, v)), k) == lookup(s, k),
    decreases i,
{
    let t = s.update(i, (key, v));
    if i == 0 {
        if k != key && s[0].0 != k {
            assert(t.drop_first() =~= s.drop_first());
        }
    } else {
        assert(t.drop_first() =~= s.drop_first().update(i - 1, (key, v)));
        assert(s.drop_first()[i - 1].0 == key);
        assert forall|j: int| 0 <= j < i - 1 implies (#[trigger] s.drop_first()[j]).0 != key by {
            assert(s[j + 1].0 != key);
        }
        lemma_lookup_update(s.drop_first(), i - 1, v, key, k);
    }
}

proof fn lemma_lookup_push(s: Seq<(u64, Seq<char>)>, e: (u64, Seq<char>), k: u64)
    ensures
        lookup(s, k) is Some ==> lookup(s.push(e), k) == lookup(s, k),
        lookup(s, k) is None && e.0 == k ==> lookup(s.push(e), k) == Some(e.1),
        lookup(s, k) is None && e.0 != k ==> lookup(s.push(e), k) is None,
    decreases s.len(),
{
    if s.len() == 0 {
        assert(s.push(e)[0] == e);
        assert(s.push(e).drop_first() =~= Seq::<(u64, Seq<char>)>::empty());
        assert(lookup(Seq::<(u64, Seq<char>)>::empty(), k) is None);
    } else {
        assert(s.push(e)[0] == s[0]);
        assert(s.push(e).drop_first() =~= s.drop_first().push(e));
        lemma_lookup_push(s.drop_first(), e, k);
    }
}

impl PathMap {
    /// An empty map.
    pub fn new() -> (r: PathMap)
        ensures
            r@.len() == 0,
    {
        PathMap { entries: Vec::new() }
    }

    /// The path registered for `id`.
    pub fn get(&self, id: PinnedId) -> (r: Option<&String>)
        ensures
            match r {
                Some(p) => lookup(self@, id@) == Some(p@),
                None => lookup(self@, id@) is None,
            },
{
        let mut i: usize = 0;
        let n = self.entries.len();
        proof {
            assert(self@.subrange(0, n as int) =~= self@);
        }
        while i < n
            invariant
                i <= n,
                n == self.entries@.len(),
                self@.len() == n,
                lookup(self@, id@) == lookup(self@.subrange(i as int, n as int), id@),
            decreases n - i,
        {
            proof {
                assert(self@[i as int] == (self.entries@[i as int].0@,
                    self.entries@[i as int].1@));
                crate::source::lemma_pinned_id_eq(self.entries@[i as int].0, id);
            }
            if self.entries[i].0 == id {
                proof {
                    assert(self@.subrange(i as int, n as int)[0] == self@[i as int]);
                }
                return Some(&self.entries[i].1);
            }
            proof {
                assert(self@.subrange(i as int, n as int)[0] == self@[i as int]);
                lemma_lookup_skip_step(self@, i as int, id@);
            }
            i = i + 1;
        }
        proof {
            assert(self@.subrange(n as int, n as int) =~= Seq::<(u64, Seq<char>)>::empty());
        }
        None
    }

    /// Whether a path is registered for `id`.
    pub fn contains(&self, id: PinnedId) -> (r: bool)
        ensures
            r == (lookup(self@, id@) is Some),
    {
        self.get(id).is_some()
    }

    /// Register `path` for `id`, replacing any earlier registration.
    pub fn insert(&mut self, id: PinnedId, path: String)
        ensures
            lookup(final(self)@, id@) == Some(path@),
            forall|k: u64| k != id@ ==> lookup(final(self)@, k) == lookup(old(self)@, k),
    {
        let mut i: usize = 0;
        let n = self.entries.len();
        while i < n
            invariant
                i <= n,
                n == self.entries@.len(),
                self@ == old(self)@,
                forall|j: int| 0 <= j < i ==> (#[trigger] self@[j]).0 != id@,
            decreases n - i,
        {
            proof {
                assert(self@[i as int] == (self.entries@[i as int].0@,
                    self.entries@[i as int].1@));
                crate::source::lemma_pinned_id_eq(self.entries@[i as int].0, id);
            }
            if self.entries[i].0 == id {
                let ghost path_view = path@;
                self.entries.set(i, (id, path));
                proof {
                    assert(self@ =~= old(self)@.update(i as int, (id@, path_view)));
                    assert forall|k: u64| k != id@ implies lookup(self@, k) == lookup(
                        old(self)@,
                        k,
                    ) by {
                        lemma_lookup_update(old(self)@, i as int, path_view, id@, k);
                    }
                    lemma_lookup_update(old(self)@, i as int, path_view, id@, id@);
                }
                return ;
            }
            i = i + 1;
        }
        let ghost path_view = path@;
        proof {
            lemma_lookup_none_scan(old(self)@, id@);
        }
        self.entries.push((id, path));
        proof {
            assert(self@ =~= old(self)@.push((id@, path_view)));
            assert forall|k: u64| k != id@ implies lookup(self@, k) == lookup(old(self)@, k) by {
                lemma_lookup_push(old(self)@, (id@, path_view), k);
            }
            lemma_lookup_push(old(self)@, (id@, path_view), id@);
        }
    }
}

proof fn lemma_lookup_none_scan(s: Seq<(u64, Seq<char>)>, key: u64)
    requires
        forall|j: int| 0 <= j < s.len() ==> (#[trigger] s[j]).0 != key,
    ensures
        lookup(s, key) is None,
    decreases s.len(),
{
    if s.len() > 0 {
        assert forall|j: int| 0 <= j < s.drop_first().len()
            implies (#[trigger] s.drop_first()[j]).0 != key by {
            assert(s[j + 1].0 != key);
        }
        lemma_lookup_none_scan(s.drop_first(), key);
    }
}

// ---------------------------------------------------------------------------
// Recovering the unpinned declaration of a pinned package.
// ---------------------------------------------------------------------------

/// The approximate unpinned package a pinned one came from: a path
/// dependency is pinned by virtue of being local, so its declaration is
/// recovered from the path map.
pub open spec fn spec_unpinned(p: PinnedView, pm: Seq<(u64, Seq<char>)>) -> PkgView {
    let source = match p.source {
        SourcePinnedView::Git(g) => SourceView::Git(g.source),
        SourcePinnedView::Path => SourceView::Path(lookup(pm, node_id(p))->0),
        SourcePinnedView::Registry(r) => SourceView::Registry(r.source),
    };
    PkgView { name: p.name, source }
}

impl Pinned {
    /// Retrieve the unpinned version of this package, used when comparing
    /// against manifest-declared sources during validation.
    pub fn unpinned(&self, path_map: &PathMap) -> (r: Pkg)
        requires
            self@.source is Path ==> lookup(path_map@, node_id(self@)) is Some,
        ensures
            r@ == spec_unpinned(self@, path_map@),
    {
        let source = match &self.source {
            SourcePinned::Git(g) => Source::Git(g.source.clone()),
            SourcePinned::Path => {
                let id = self.id();
                match path_map.get(id) {
                    Some(p) => Source::Path(p.clone()),
                    None => unreached(),
                }
            },
            SourcePinned::Registry(r) => Source::Registry(r.source),
        };
        let name = self.name.clone();
        Pkg { name, source }
    }
}

// ---------------------------------------------------------------------------
// The plan itself.
// ---------------------------------------------------------------------------

/// Represents the full build plan for a project.
#[derive(Debug)]
pub struct BuildPlan {
    graph: Graph,
    path_map: PathMap,
    compilation_order: Vec<usize>,
}

pub ghost struct BuildPlanView {
    pub graph: GraphView,
    pub path_map: Seq<(u64, Seq<char>)>,
    pub order: Seq<usize>,
}

impl View for BuildPlan {
    type V = BuildPlanView;

    closed spec fn view(&self) -> BuildPlanView {
        BuildPlanView {
            graph: self.graph@,
            path_map: self.path_map@,
            order: self.compilation_order@,
        }
    }
}

/// The path map registers a path for every node of the graph.
pub open spec fn path_total(g: GraphView, pm: Seq<(u64, Seq<char>)>) -> bool {
    forall|i: int| 0 <= i < g.nodes.len() ==> lookup(pm, node_id(#[trigger] g.nodes[i])) is Some
}

/// What every build plan guarantees: a well-formed graph, a dependency-first
/// compilation order over exactly its nodes, and a total path map.
pub open spec fn plan_wf(v: BuildPlanView) -> bool {
    &&& wf(v.graph)
    &&& valid_compilation_order(v.graph, ord_of(v.order))
    &&& path_total(v.graph, v.path_map)
}

/// The root node: the last entry of the compilation order.
pub open spec fn plan_root(v: BuildPlanView) -> int {
    ord_of(v.order).last()
}

/// The root project's local path.
pub open spec fn proj_path_of(v: BuildPlanView) -> Seq<char> {
    lookup(v.path_map, node_id(v.graph.nodes[plan_root(v)]))->0
}

/// The view of an executable `(declared name, package)` pair.
pub open spec fn pair_view(p: (String, Pkg)) -> (Seq<char>, PkgView) {
    (p.0@, p.1@)
}

/// The `(declared name, unpinned package)` pair carried by edge `k` of the
/// plan's graph.
#[verifier::opaque]
pub open spec fn plan_dep_pair(v: BuildPlanView, k: int) -> (Seq<char>, PkgView) {
    (v.graph.edges[k].name, spec_unpinned(v.graph.nodes[v.graph.edges[k].to], v.path_map))
}

/// The `(declared name, package)` pair derived from the manifest's `j`-th
/// declaration. Meaningful only when the declaration resolves.
#[verifier::opaque]
pub open spec fn manifest_dep_pair(m: ManifestView, proj_path: Seq<char>, j: int) -> (
    Seq<char>,
    PkgView,
) {
    (
        m.deps[j].0,
        PkgView {
            name: spec_dep_pkg_name(m.deps[j].0, m.deps[j].1),
            source: spec_dep_to_source(proj_path, m.deps[j].1)->0,
        },
    )
}

/// Every declaration of the manifest resolves to a source.
pub open spec fn all_deps_resolve(m: ManifestView, proj_path: Seq<char>) -> bool {
    forall|j: int| 0 <= j < m.deps.len() ==> spec_dep_to_source(
        proj_path,
        (#[trigger] m.deps[j]).1,
    ) is Some
}

/// Some entry of `b` equals the pair `pv`.
pub open spec fn pair_in(b: Seq<(String, Pkg)>, pv: (Seq<char>, PkgView)) -> bool {
    exists|y: int| 0 <= y < b.len() && pair_view(#[trigger] b[y]) == pv
}

/// Every entry of `a` has an equal entry in `b`.
pub open spec fn pairs_included(a: Seq<(String, Pkg)>, b: Seq<(String, Pkg)>) -> bool {
    forall|x: int| 0 <= x < a.len() ==> pair_in(b, pair_view(#[trigger] a[x]))
}

/// The pair on edge `k` equals one declared by the manifest.
pub open spec fn edge_pair_declared(v: BuildPlanView, m: ManifestView, k: int) -> bool {
    exists|j: int| 0 <= j < m.deps.len() && #[trigger] manifest_dep_pair(m, proj_path_of(v), j)
        == plan_dep_pair(v, k)
}

/// The pair declared by the manifest's `j`-th declaration stands on some
/// root edge.
pub open spec fn declared_pair_on_edge(v: BuildPlanView, m: ManifestView, j: int) -> bool {
    exists|k: int| 0 <= k < v.graph.edges.len() && (#[trigger] v.graph.edges[k]).from
        == plan_root(v) && manifest_dep_pair(m, proj_path_of(v), j) == plan_dep_pair(v, k)
}

/// The pairs on the root's outgoing edges and the pairs declared by the
/// manifest are equal as sets.
pub open spec fn dep_sets_match(v: BuildPlanView, m: ManifestView) -> bool {
    &&& forall|k: int| 0 <= k < v.graph.edges.len() && (#[trigger] v.graph.edges[k]).from
        == plan_root(v) ==> edge_pair_declared(v, m, k)
    &&& forall|j: int| 0 <= j < m.deps.len() ==> #[trigger] declared_pair_on_edge(v, m, j)
}

/// `pv` is the pair of some root edge.
pub open spec fn is_plan_pair(v: BuildPlanView, pv: (Seq<char>, PkgView)) -> bool {
    exists|k: int| 0 <= k < v.graph.edges.len() && (#[trigger] v.graph.edges[k]).from
        == plan_root(v) && pv == plan_dep_pair(v, k)
}

/// `pv` is the pair of some manifest declaration.
pub open spec fn is_man_pair(m: ManifestView, proj_path: Seq<char>, pv: (Seq<char>, PkgView))
    -> bool {
    exists|j: int| 0 <= j < m.deps.len() && pv == #[trigger] manifest_dep_pair(m, proj_path, j)
}

/// `plan_pairs` holds exactly the pairs of the root's outgoing edges.
pub open spec fn plan_pairs_good(v: BuildPlanView, plan_pairs: Seq<(String, Pkg)>) -> bool {
    &&& forall|x: int| 0 <= x < plan_pairs.len() ==> is_plan_pair(
        v,
        pair_view(#[trigger] plan_pairs[x]),
    )
    &&& forall|k: int| 0 <= k < v.graph.edges.len() && (#[trigger] v.graph.edges[k]).from
        == plan_root(v) ==> pair_in(plan_pairs, plan_dep_pair(v, k))
}

/// `man_pairs` holds exactly the pairs of the manifest's declarations.
pub open spec fn man_pairs_good(
    m: ManifestView,
    proj_path: Seq<char>,
    man_pairs: Seq<(String, Pkg)>,
) -> bool {
    &&& forall|x: int| 0 <= x < man_pairs.len() ==> is_man_pair(
        m,
        proj_path,
        pair_view(#[trigger] man_pairs[x]),
    )
    &&& forall|j: int| 0 <= j < m.deps.len() ==> pair_in(
        man_pairs,
        #[trigger] manifest_dep_pair(m, proj_path, j),
    )
}

/// Each node's package name equals the project name of the manifest loaded
/// at that node's path.
pub open spec fn names_match(v: BuildPlanView, ms: Seq<ManifestView>) -> bool {
    forall|i: int| 0 <= i < v.graph.nodes.len() ==> (#[trigger] ms[i]).project_name
        == v.graph.nodes[i].name
}

/// The views of a sequence of manifests.
pub open spec fn manifests_view(ms: Seq<Manifest>) -> Seq<ManifestView> {
    ms.map_values(|mm: Manifest| mm@)
}

/// Whether some entry of `v` equals `p`, compared by value.
fn contains_pair(v: &Vec<(String, Pkg)>, p: &(String, Pkg)) -> (r: bool)
    ensures
        r == pair_in(v@, pair_view(*p)),
{
    let n = v.len();
    let mut i: usize = 0;
    while i < n
        invariant
            i <= n,
            n == v@.len(),
            forall|y: int| 0 <= y < i ==> pair_view(#[trigger] v@[y]) != pair_view(*p),
        decreases n - i,
    {
        let entry = &v[i];
        if crate::text::str_eq(entry.0.as_str(), p.0.as_str()) && pkg_eq(&entry.1, &p.1) {
            proof {
                assert(pair_view(v@[i as int]) == pair_view(*p));
            }
            return true;
        }
        i = i + 1;
    }
    proof {
        if pair_in(v@, pair_view(*p)) {
            let y = choose|y: int| 0 <= y < v@.len() && pair_view(#[trigger] v@[y]) == pair_view(
                *p,
            );
            assert(pair_view(v@[y]) != pair_view(*p));
        }
    }
    false
}

/// Check that every entry of `a` has an equal entry in `b`.
fn pairs_include(a: &Vec<(String, Pkg)>, b: &Vec<(String, Pkg)>) -> (r: bool)
    ensures
        r == pairs_included(a@, b@),
{
    let n = a.len();
    let mut i: usize = 0;
    while i < n
        invariant
            i <= n,
            n == a@.len(),
            forall|x: int| 0 <= x < i ==> pair_in(b@, pair_view(#[trigger] a@[x])),
        decreases n - i,
    {
        if !contains_pair(b, &a[i]) {
            return false;
        }
        i = i + 1;
    }
    true
}

/// With both pair vectors faithfully collected, the set comparison of the
/// root's edges against the manifest's declarations is exactly mutual
/// inclusion of the two vectors.
proof fn lemma_sets_match_iff(
    v: BuildPlanView,
    m: ManifestView,
    plan_pairs: Seq<(String, Pkg)>,
    man_pairs: Seq<(String, Pkg)>,
)
    requires
        plan_pairs_good(v, plan_pairs),
        man_pairs_good(m, proj_path_of(v), man_pairs),
    ensures
        dep_sets_match(v, m) <==> (pairs_included(plan_pairs, man_pairs) && pairs_included(
            man_pairs,
            plan_pairs,
        )),
{
    if pairs_included(plan_pairs, man_pairs) && pairs_included(man_pairs, plan_pairs) {
        assert forall|k: int|
            0 <= k < v.graph.edges.len() && (#[trigger] v.graph.edges[k]).from == plan_root(v)
            implies edge_pair_declared(v, m, k) by {
            assert(pair_in(plan_pairs, plan_dep_pair(v, k)));
            let x = choose|x: int|
                0 <= x < plan_pairs.len() && pair_view(#[trigger] plan_pairs[x])
                    == plan_dep_pair(v, k);
            assert(pair_in(man_pairs, pair_view(plan_pairs[x])));
            let y = choose|y: int|
                0 <= y < man_pairs.len() && pair_view(#[trigger] man_pairs[y]) == pair_view(
                    plan_pairs[x],
                );
            assert(is_man_pair(m, proj_path_of(v), pair_view(man_pairs[y])));
            let j = choose|j: int|
                0 <= j < m.deps.len() && pair_view(man_pairs[y]) == #[trigger] manifest_dep_pair(
                    m,
                    proj_path_of(v),
                    j,
                );
            assert(manifest_dep_pair(m, proj_path_of(v), j) == plan_dep_pair(v, k));
        }
        assert forall|j: int| 0 <= j < m.deps.len() implies #[trigger] declared_pair_on_edge(
            v,
            m,
            j,
        ) by {
            assert(pair_in(man_pairs, manifest_dep_pair(m, proj_path_of(v), j)));
            let y = choose|y: int|
                0 <= y < man_pairs.len() && pair_view(#[trigger] man_pairs[y])
                    == manifest_dep_pair(m, proj_path_of(v), j);
            assert(pair_in(plan_pairs, pair_view(man_pairs[y])));
            let x = choose|x: int|
                0 <= x < plan_pairs.len() && pair_view(#[trigger] plan_pairs[x]) == pair_view(
                    man_pairs[y],
                );
            assert(is_plan_pair(v, pair_view(plan_pairs[x])));
            let k = choose|k: int|
                0 <= k < v.graph.edges.len() && (#[trigger] v.graph.edges[k]).from
                    == plan_root(v) && pair_view(plan_pairs[x]) == plan_dep_pair(v, k);
            assert(manifest_dep_pair(m, proj_path_of(v), j) == plan_dep_pair(v, k));
        }
    }
    if dep_sets_match(v, m) {
        assert forall|x: int| 0 <= x < plan_pairs.len() implies pair_in(
            man_pairs,
            pair_view(#[trigger] plan_pairs[x]),
        ) by {
            assert(is_plan_pair(v, pair_view(plan_pairs[x])));
            let k = choose|k: int|
                0 <= k < v.graph.edges.len() && (#[trigger] v.graph.edges[k]).from
                    == plan_root(v) && pair_view(plan_pairs[x]) == plan_dep_pair(v, k);
            assert(edge_pair_declared(v, m, k));
            let j = choose|j: int|
                0 <= j < m.deps.len() && #[trigger] manifest_dep_pair(m, proj_path_of(v), j)
                    == plan_dep_pair(v, k);
            assert(pair_in(man_pairs, manifest_dep_pair(m, proj_path_of(v), j)));
        }
        assert forall|y: int| 0 <= y < man_pairs.len() implies pair_in(
            plan_pairs,
            pair_view(#[trigger] man_pairs[y]),
        ) by {
            assert(is_man_pair(m, proj_path_of(v), pair_view(man_pairs[y])));
            let j = choose|j: int|
                0 <= j < m.deps.len() && pair_view(man_pairs[y]) == #[trigger] manifest_dep_pair(
                    m,
                    proj_path_of(v),
                    j,
                );
            assert(declared_pair_on_edge(v, m, j));
            let k = choose|k: int|
                0 <= k < v.graph.edges.len() && (#[trigger] v.graph.edges[k]).from
                    == plan_root(v) && manifest_dep_pair(m, proj_path_of(v), j)
                    == plan_dep_pair(v, k);
            assert(pair_in(plan_pairs, plan_dep_pair(v, k)));
        }
    }
}

/// Derive the `(declared name, package)` pairs from a manifest's
/// declarations, failing on the first declaration that does not resolve.
fn collect_manifest_pairs(manifest: &Manifest, proj_path: &str) -> (r: Result<
    Vec<(String, Pkg)>,
    Error,
>)
    ensures
        r is Ok <==> all_deps_resolve(manifest@, proj_path@),
        r matches Ok(v) ==> man_pairs_good(manifest@, proj_path@, v@),
        r matches Err(e) ==> (e matches Error::UnsupportedDependencyKind { .. } || e matches
            Error::InvalidUrl { .. }),
{
    let dn = manifest.dependencies.len();
    let mut man_pairs: Vec<(String, Pkg)> = Vec::new();
    let mut j: usize = 0;
    while j < dn
        invariant
            j <= dn,
            dn == manifest@.deps.len(),
            forall|j2: int| 0 <= j2 < j ==> spec_dep_to_source(
                proj_path@,
                (#[trigger] manifest@.deps[j2]).1,
            ) is Some,
            forall|x: int| 0 <= x < man_pairs@.len() ==> is_man_pair(
                manifest@,
                proj_path@,
                pair_view(#[trigger] man_pairs@[x]),
            ),
            forall|j2: int| 0 <= j2 < j ==> pair_in(
                man_pairs@,
                #[trigger] manifest_dep_pair(manifest@, proj_path@, j2),
            ),
        decreases dn - j,
    {
        let pair = &manifest.dependencies[j];
        proof {
            assert(manifest@.deps[j as int] == (pair.0@, pair.1@));
        }
        let name: String = dep_pkg_name(&pair.0, &pair.1).clone();
        let source = match dep_to_source(proj_path, pair.0.as_str(), &pair.1) {
            Ok(s) => s,
            Err(e) => {
                proof {
                    assert(crate::manifest::dep_unsupported(pair.1@)
                        || crate::manifest::dep_bad_url(pair.1@));
                    assert(spec_dep_to_source(proj_path@, manifest@.deps[j as int].1) is None);
                }
                return Err(e);
            },
        };
        let ghost prev = man_pairs@;
        man_pairs.push((pair.0.clone(), Pkg { name, source }));
        proof {
            reveal(manifest_dep_pair);
            assert(man_pairs@ =~= prev.push(man_pairs@[man_pairs@.len() - 1]));
            assert(pair_view(man_pairs@[man_pairs@.len() - 1]) == manifest_dep_pair(
                manifest@,
                proj_path@,
                j as int,
            ));
            assert(is_man_pair(manifest@, proj_path@, pair_view(
                man_pairs@[man_pairs@.len() - 1],
            )));
            assert forall|j2: int| 0 <= j2 <= j implies pair_in(
                man_pairs@,
                #[trigger] manifest_dep_pair(manifest@, proj_path@, j2),
            ) by {
                if j2 < j {
                    let y = choose|y: int|
                        0 <= y < prev.len() && pair_view(#[trigger] prev[y])
                            == manifest_dep_pair(manifest@, proj_path@, j2);
                    assert(pair_view(man_pairs@[y]) == manifest_dep_pair(
                        manifest@,
                        proj_path@,
                        j2,
                    ));
                } else {
                    assert(pair_view(man_pairs@[man_pairs@.len() - 1]) == manifest_dep_pair(
                        manifest@,
                        proj_path@,
                        j2,
                    ));
                }
            }
        }
        j = j + 1;
    }
    Ok(man_pairs)
}

/// In a plan whose graph was grown from the project node — so the project
/// reaches every node — the project is always the last entry of the
/// compilation order.
pub proof fn lemma_project_compiled_last(v: BuildPlanView)
    requires
        plan_wf(v),
        v.graph.nodes.len() >= 1,
        forall|j: int| 0 <= j < v.graph.nodes.len() ==> reaches(v.graph, 0, j),
    ensures
        plan_root(v) == 0,
{
    crate::graph::lemma_root_last(v.graph, ord_of(v.order), 0);
}

/// A manifest that declares a dependency matching none of the root's edges
/// can never pass the set comparison: the lock state must be regenerated.
pub proof fn lemma_manifest_drift_mismatch(v: BuildPlanView, m: ManifestView, j: int)
    requires
        0 <= j < m.deps.len(),
        forall|k: int| 0 <= k < v.graph.edges.len() && (#[trigger] v.graph.edges[k]).from
            == plan_root(v) ==> manifest_dep_pair(m, proj_path_of(v), j) != plan_dep_pair(v, k),
    ensures
        !dep_sets_match(v, m),
{
    if dep_sets_match(v, m) {
        assert(declared_pair_on_edge(v, m, j));
        let k = choose|k: int|
            0 <= k < v.graph.edges.len() && (#[trigger] v.graph.edges[k]).from == plan_root(v)
                && manifest_dep_pair(m, proj_path_of(v), j) == plan_dep_pair(v, k);
        assert(v.graph.edges[k].from == plan_root(v));
    }
}

impl BuildPlan {
    /// Assemble a build plan from a pinned graph and its path map by
    /// computing the compilation order. Fails exactly when the graph holds a
    /// dependency cycle, in which case no order exists at all.
    pub fn new(graph: Graph, path_map: PathMap) -> (r: Result<BuildPlan, Error>)
        requires
            wf(graph@),
            path_total(graph@, path_map@),
        ensures
            r is Ok <==> acyclic(graph@),
            r matches Ok(p) ==> p@.graph == graph@ && p@.path_map == path_map@ && plan_wf(p@),
            r matches Err(e) ==> e matches Error::DependencyCycle,
    {
        match compilation_order(&graph) {
            Ok(order) => Ok(BuildPlan { graph, path_map, compilation_order: order }),
            Err(e) => Err(e),
        }
    }

    /// Ensure that the build plan is valid for the given manifest: the
    /// `(dependency name, unpinned source)` pairs on the root node's
    /// outgoing edges must equal, as a set, the pairs freshly derived from
    /// the manifest's declarations, and every node's package name must
    /// equal the project name in the manifest found at that node's path
    /// (`node_manifests[i]` is the manifest loaded for node `i`).
    pub fn validate(&self, manifest: &Manifest, node_manifests: &Vec<Manifest>) -> (r: Result<
        (),
        Error,
    >)
        requires
            plan_wf(self@),
            node_manifests@.len() == self@.graph.nodes.len(),
        ensures
            self@.graph.nodes.len() == 0 ==> (r matches Err(e) && e matches Error::EmptyGraph),
            self@.graph.nodes.len() > 0 ==> ({
                let m = manifest@;
                let pp = proj_path_of(self@);
                let msv = manifests_view(node_manifests@);
                &&& (r is Ok <==> all_deps_resolve(m, pp) && dep_sets_match(self@, m)
                    && names_match(self@, msv))
                &&& (all_deps_resolve(m, pp) ==> ((r matches Err(e) && e matches
                    Error::LockManifestMismatch) <==> !dep_sets_match(self@, m)))
                &&& ((all_deps_resolve(m, pp) && dep_sets_match(self@, m)) ==> ((r matches Err(
                    e,
                ) && e matches Error::PackageNameMismatch { .. }) <==> !names_match(self@, msv)))
                &&& (!all_deps_resolve(m, pp) ==> r is Err)
            }),
    {
        let n = self.graph.nodes.len();
        if n == 0 {
            return Err(Error::EmptyGraph);
        }
        let ol = self.compilation_order.len();
        proof {
            assert(ord_of(self@.order).len() == self@.order.len());
        }
        let root = self.compilation_order[ol - 1];
        proof {
            assert(ord_of(self@.order)[ol - 1] == root as int);
            assert(root as int == plan_root(self@));
        }
        let root_id = self.graph.nodes[root].id();
        proof {
            assert(lookup(self@.path_map, node_id(self@.graph.nodes[root as int])) is Some);
        }
        let proj_path: &String = match self.path_map.get(root_id) {
            Some(p) => p,
            None => unreached(),
        };
        proof {
            assert(proj_path@ == proj_path_of(self@));
        }
        let plan_pairs = self.collect_plan_pairs(root);
        let man_pairs = match collect_manifest_pairs(manifest, proj_path.as_str()) {
            Ok(v) => v,
            Err(e) => {
                return Err(e);
            },
        };
        proof {
            lemma_sets_match_iff(self@, manifest@, plan_pairs@, man_pairs@);
        }
        if !pairs_include(&plan_pairs, &man_pairs) {
            return Err(Error::LockManifestMismatch);
        }
        if !pairs_include(&man_pairs, &plan_pairs) {
            return Err(Error::LockManifestMismatch);
        }
        self.check_node_names(node_manifests)
    }

    /// Collect the `(declared name, unpinned package)` pairs on the root's
    /// outgoing edges.
    fn collect_plan_pairs(&self, root: usize) -> (r: Vec<(String, Pkg)>)
        requires
            wf(self@.graph),
            path_total(self@.graph, self@.path_map),
            root as int == plan_root(self@),
            root < self@.graph.nodes.len(),
        ensures
            plan_pairs_good(self@, r@),
    {
        let m_edges = self.graph.edges.len();
        let mut plan_pairs: Vec<(String, Pkg)> = Vec::new();
        let mut k: usize = 0;
        while k < m_edges
            invariant
                wf(self@.graph),
                path_total(self@.graph, self@.path_map),
                k <= m_edges,
                m_edges == self@.graph.edges.len(),
                root as int == plan_root(self@),
                root < self@.graph.nodes.len(),
                forall|x: int| 0 <= x < plan_pairs@.len() ==> is_plan_pair(
                    self@,
                    pair_view(#[trigger] plan_pairs@[x]),
                ),
                forall|k2: int| 0 <= k2 < k && (#[trigger] self@.graph.edges[k2]).from
                    == plan_root(self@) ==> pair_in(plan_pairs@, plan_dep_pair(self@, k2)),
            decreases m_edges - k,
        {
            let ef = self.graph.edges[k].from;
            proof {
                assert(self@.graph.edges[k as int].from == ef as int);
            }
            if ef == root {
                let et = self.graph.edges[k].to;
                proof {
                    assert(self@.graph.edges[k as int].to == et as int);
                    assert(lookup(self@.path_map, node_id(self@.graph.nodes[et as int]))
                        is Some);
                }
                let pkg = self.graph.nodes[et].unpinned(&self.path_map);
                let name = self.graph.edges[k].name.clone();
                let ghost prev = plan_pairs@;
                plan_pairs.push((name, pkg));
                proof {
                    reveal(plan_dep_pair);
                    assert(plan_pairs@ =~= prev.push(plan_pairs@[plan_pairs@.len() - 1]));
                    assert(pair_view(plan_pairs@[plan_pairs@.len() - 1]) == plan_dep_pair(
                        self@,
                        k as int,
                    ));
                    assert(is_plan_pair(self@, pair_view(
                        plan_pairs@[plan_pairs@.len() - 1],
                    )));
                    assert forall|k2: int|
                        0 <= k2 <= k && (#[trigger] self@.graph.edges[k2]).from
                        == plan_root(self@) implies pair_in(
                        plan_pairs@,
                        plan_dep_pair(self@, k2),
                    ) by {
                        if k2 < k {
                            let y = choose|y: int|
                                0 <= y < prev.len() && pair_view(#[trigger] prev[y])
                                    == plan_dep_pair(self@, k2);
                            assert(pair_view(plan_pairs@[y]) == plan_dep_pair(self@, k2));
                        } else {
                            assert(pair_view(plan_pairs@[plan_pairs@.len() - 1])
                                == plan_dep_pair(self@, k2));
                        }
                    }
                }
            }
            k = k + 1;
        }
        plan_pairs
    }

    /// Check every node's package name against the project name in the
    /// manifest loaded at that node's path.
    fn check_node_names(&self, node_manifests: &Vec<Manifest>) -> (r: Result<(), Error>)
        requires
            node_manifests@.len() == self@.graph.nodes.len(),
        ensures
            r is Ok <==> names_match(self@, manifests_view(node_manifests@)),
            r matches Err(e) ==> e matches Error::PackageNameMismatch { .. },
    {
        let n = self.graph.nodes.len();
        let mut i: usize = 0;
        while i < n
            invariant
                i <= n,
                n == self@.graph.nodes.len(),
                node_manifests@.len() == n,
                forall|i2: int| 0 <= i2 < i
                    ==> (#[trigger] manifests_view(node_manifests@)[i2]).project_name
                    == self@.graph.nodes[i2].name,
            decreases n - i,
        {
            proof {
                assert(manifests_view(node_manifests@)[i as int] == node_manifests@[i as int]@);
            }
            if !project_name_matches(&node_manifests[i], &self.graph.nodes[i].name) {
                proof {
                    assert(!names_match(self@, manifests_view(node_manifests@)));
                }
                return Err(
                    Error::PackageNameMismatch {
                        dependency_name: self.graph.nodes[i].name.clone(),
                        manifest_name: node_manifests[i].project.name.clone(),
                    },
                );
            }
            i = i + 1;
        }
        Ok(())
    }

    /// View the build plan's dependency graph.
    pub fn graph(&self) -> (r: &Graph)
        ensures
            r@ == self@.graph,
    {
        &self.graph
    }

    /// View the build plan's map from pinned package ID to local path.
    pub fn path_map(&self) -> (r: &PathMap)
        ensures
            r@ == self@.path_map,
    {
        &self.path_map
    }

    /// The order in which nodes are compiled: dependencies first, the root
    /// last.
    pub fn compilation_order(&self) -> (r: &Vec<usize>)
        ensures
            r@ == self@.order,
    {
        &self.compilation_order
    }
}

} // verus!
