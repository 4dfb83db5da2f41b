//! The namespace composer: for a package about to be compiled, the module
//! insertions that expose its already-compiled dependencies' namespaces.
//!
//! Namespaces themselves belong to the compiler collaborator; the planner
//! tracks them as plain handles, and composes a list of `(module name,
//! handle)` insertions. A dependency reached through differently-named
//! edges is inserted once per distinct declared name, so an aliased package
//! is visible under every alias.

use vstd::prelude::*;

use crate::graph::lemma_index_of_unique;
use crate::graph::lemma_position_beyond;
use crate::graph::ord_of;
use crate::graph::reachable_set;
use crate::graph::reaches;
use crate::graph::valid_compilation_order;
use crate::graph::wf;
use crate::graph::Graph;
use crate::graph::GraphView;
use crate::text::kebab_to_snake_case;
use crate::text::snake_chars;
use crate::text::str_eq;

verus! {

/// Some edge into `dep` is declared under a name whose identifier-safe form
/// is `s`.
pub open spec fn label_of(g: GraphView, dep: int, s: Seq<char>) -> bool {
    exists|ke: int| 0 <= ke < g.edges.len() && (#[trigger] g.edges[ke]).to == dep && snake_chars(
        g.edges[ke].name,
    ) == s
}

/// The entry exposes a genuine dependency: a node other than `node` itself,
/// inside `node`'s dependency closure, compiled earlier, whose namespace
/// handle is recorded, under one of its declared names.
pub open spec fn ns_entry_ok(
    g: GraphView,
    nsmap: Seq<Option<usize>>,
    node: int,
    ordv: Seq<int>,
    ent: (String, usize),
) -> bool {
    exists|dep: int| 0 <= dep < g.nodes.len() && dep != node && #[trigger] reaches(g, node, dep)
        && ordv.index_of(dep) < ordv.index_of(node) && nsmap[dep] == Some(ent.1) && label_of(
        g,
        dep,
        ent.0@,
    )
}

/// Some entry of `v` is the insertion `(name, handle)`.
pub open spec fn entry_in(v: Seq<(String, usize)>, name: Seq<char>, handle: usize) -> bool {
    exists|x: int| 0 <= x < v.len() && (#[trigger] v[x]).0@ == name && v[x].1 == handle
}

/// Everything the composed insertion list guarantees: every entry exposes a
/// genuine earlier dependency, and every earlier recorded dependency is
/// exposed under each of its declared names.
pub open spec fn namespace_entries_ok(
    g: GraphView,
    nsmap: Seq<Option<usize>>,
    node: int,
    ordv: Seq<int>,
    result: Seq<(String, usize)>,
) -> bool {
    &&& forall|x: int| 0 <= x < result.len() ==> ns_entry_ok(
        g,
        nsmap,
        node,
        ordv,
        #[trigger] result[x],
    )
    &&& forall|dep: int, ke: int|
        0 <= dep < g.nodes.len() && dep != node && #[trigger] reaches(g, node, dep)
            && ordv.index_of(dep) < ordv.index_of(node) && nsmap[dep] is Some && 0 <= ke
            < g.edges.len() && (#[trigger] g.edges[ke]).to == dep ==> entry_in(
            result,
            snake_chars(g.edges[ke].name),
            nsmap[dep]->0,
        )
}

/// The string `s` is the view of some entry of `v`.
pub open spec fn string_in(v: Seq<String>, s: Seq<char>) -> bool {
    exists|i: int| 0 <= i < v.len() && (#[trigger] v[i])@ == s
}

/// An insertion present in a list is still present after an append.
proof fn lemma_entry_in_push(
    v: Seq<(String, usize)>,
    e: (String, usize),
    name: Seq<char>,
    handle: usize,
)
    requires
        entry_in(v, name, handle),
    ensures
        entry_in(v.push(e), name, handle),
{
    let x = choose|x: int| 0 <= x < v.len() && (#[trigger] v[x]).0@ == name && v[x].1 == handle;
    assert(v.push(e)[x] == v[x]);
}

/// Whether `s` occurs in `v`, compared by value.
fn contains_string(v: &Vec<String>, s: &String) -> (r: bool)
    ensures
        r == string_in(v@, s@),
{
    let n = v.len();
    let mut i: usize = 0;
    while i < n
        invariant
            i <= n,
            n == v@.len(),
            forall|y: int| 0 <= y < i ==> (#[trigger] v@[y])@ != s@,
        decreases n - i,
    {
        if str_eq(v[i].as_str(), s.as_str()) {
            proof {
                assert(v@[i as int]@ == s@);
            }
            return true;
        }
        i = i + 1;
    }
    proof {
        if string_in(v@, s@) {
            let y = choose|y: int| 0 <= y < v@.len() && (#[trigger] v@[y])@ == s@;
            assert(v@[y]@ != s@);
        }
    }
    false
}

/// The distinct declared names of the edges pointing into `dep`, in the
/// order the edges stand in the graph.
fn incoming_labels(graph: &Graph, dep: usize) -> (r: Vec<String>)
    requires
        wf(graph@),
        dep < graph@.nodes.len(),
    ensures
        forall|y: int| 0 <= y < r@.len() ==> label_of(graph@, dep as int, snake_chars(
            (#[trigger] r@[y])@,
        )),
        forall|ke: int| 0 <= ke < graph@.edges.len() && (#[trigger] graph@.edges[ke]).to
            == dep as int ==> string_in(r@, graph@.edges[ke].name),
{
    let m = graph.edges.len();
    let mut labels: Vec<String> = Vec::new();
    let mut k: usize = 0;
    while k < m
        invariant
            wf(graph@),
            k <= m,
            m == graph@.edges.len(),
            dep < graph@.nodes.len(),
            forall|y: int| 0 <= y < labels@.len() ==> label_of(graph@, dep as int, snake_chars(
                (#[trigger] labels@[y])@,
            )),
            forall|ke: int| 0 <= ke < k && (#[trigger] graph@.edges[ke]).to == dep as int
                ==> string_in(labels@, graph@.edges[ke].name),
        decreases m - k,
    {
        let et = graph.edges[k].to;
        proof {
            assert(graph@.edges[k as int].to == et as int);
            assert(graph@.edges[k as int].name == graph.edges@[k as int].name@);
        }
        if et == dep {
            if !contains_string(&labels, &graph.edges[k].name) {
                let ghost prev = labels@;
                labels.push(graph.edges[k].name.clone());
                proof {
                    assert(labels@[labels@.len() - 1]@ == graph@.edges[k as int].name);
                    assert(label_of(graph@, dep as int, snake_chars(
                        labels@[labels@.len() - 1]@,
                    )));
                    assert forall|ke: int|
                        0 <= ke < k + 1 && (#[trigger] graph@.edges[ke]).to == dep as int
                        implies string_in(labels@, graph@.edges[ke].name) by {
                        if ke < k {
                            let y = choose|y: int|
                                0 <= y < prev.len()
                                    && (#[trigger] prev[y])@ == graph@.edges[ke].name;
                            assert(labels@[y]@ == graph@.edges[ke].name);
                        } else {
                            assert(labels@[labels@.len() - 1]@ == graph@.edges[ke].name);
                        }
                    }
                }
            }
        }
        k = k + 1;
    }
    labels
}

/// Build the dependency namespace insertions for the package at `node`:
/// walk the global compilation order up to `node`, and for every node in
/// `node`'s dependency closure whose namespace handle is already recorded,
/// insert that handle under the identifier-safe form of each of its
/// distinct incoming declared names. Iterating the global order keeps name
/// collisions deterministic; a dependency aliased differently by several
/// dependents is inserted once per distinct name.
#[verifier::loop_isolation(false)]
#[verifier::rlimit(60)]
pub fn dependency_namespace(
    namespace_map: &Vec<Option<usize>>,
    graph: &Graph,
    compilation_order: &Vec<usize>,
    node: usize,
) -> (r: Vec<(String, usize)>)
    requires
        wf(graph@),
        valid_compilation_order(graph@, ord_of(compilation_order@)),
        node < graph@.nodes.len(),
        namespace_map@.len() == graph@.nodes.len(),
    ensures
        namespace_entries_ok(
            graph@,
            namespace_map@,
            node as int,
            ord_of(compilation_order@),
            r@,
        ),
{
    let ghost ordv = ord_of(compilation_order@);
    let deps = reachable_set(graph, node);
    let mut result: Vec<(String, usize)> = Vec::new();
    let ol = compilation_order.len();
    proof {
        assert forall|dep2: int| 0 <= dep2 < graph@.nodes.len() implies ordv.index_of(dep2)
            >= 0 by {
            assert(ordv.contains(dep2));
            assert(0 <= ordv.index_of(dep2) < ordv.len() && ordv[ordv.index_of(dep2)] == dep2);
        }
    }
    let mut p: usize = 0;
    while p < ol
        invariant
            p <= ol,
            forall|q: int| 0 <= q < p ==> #[trigger] ordv[q] != node as int,
            forall|x: int| 0 <= x < result@.len() ==> ns_entry_ok(
                graph@,
                namespace_map@,
                node as int,
                ordv,
                #[trigger] result@[x],
            ),
            forall|dep2: int, ke: int|
                0 <= dep2 < graph@.nodes.len() && dep2 != node && #[trigger] reaches(
                    graph@,
                    node as int,
                    dep2,
                ) && ordv.index_of(dep2) < p && namespace_map@[dep2] is Some && 0 <= ke
                    < graph@.edges.len() && (#[trigger] graph@.edges[ke]).to == dep2
                    ==> entry_in(result@, snake_chars(graph@.edges[ke].name), namespace_map@[dep2]->0),
        decreases ol - p,
    {
        let dep = compilation_order[p];
        proof {
            assert(ordv[p as int] == dep as int);
            lemma_index_of_unique(ordv, p as int);
        }
        if dep == node {
            proof {
                lemma_entries_complete_at_node(
                    graph@,
                    namespace_map@,
                    node as int,
                    ordv,
                    result@,
                    p as int,
                );
            }
            return result;
        }
        if deps[dep] {
            let handle_opt = namespace_map[dep];
            if let Some(handle) = handle_opt {
                let labels = incoming_labels(graph, dep);
                let ln = labels.len();
                let mut li: usize = 0;
                while li < ln
                    invariant
                        li <= ln,
                        forall|x: int| 0 <= x < result@.len() ==> ns_entry_ok(
                            graph@,
                            namespace_map@,
                            node as int,
                            ordv,
                            #[trigger] result@[x],
                        ),
                        forall|y: int| 0 <= y < li ==> entry_in(
                            result@,
                            snake_chars((#[trigger] labels@[y])@),
                            handle,
                        ),
                        forall|dep2: int, ke: int|
                            0 <= dep2 < graph@.nodes.len() && dep2 != node
                                && #[trigger] reaches(graph@, node as int, dep2)
                                && ordv.index_of(dep2) < p && namespace_map@[dep2] is Some && 0
                                <= ke < graph@.edges.len() && (#[trigger] graph@.edges[ke]).to
                                == dep2 ==> entry_in(
                                result@,
                                snake_chars(graph@.edges[ke].name),
                                namespace_map@[dep2]->0,
                            ),
                    decreases ln - li,
                {
                    let name = kebab_to_snake_case(labels[li].as_str());
                    let ghost pushed = (name, handle);
                    let ghost prev = result@;
                    result.push((name, handle));
                    proof {
                        assert(result@ == prev.push(pushed));
                        assert(result@[result@.len() - 1].0@ == snake_chars(
                            labels@[li as int]@,
                        ));
                        assert(ns_entry_ok(
                            graph@,
                            namespace_map@,
                            node as int,
                            ordv,
                            result@[result@.len() - 1],
                        )) by {
                            assert(label_of(graph@, dep as int, snake_chars(
                                labels@[li as int]@,
                            )));
                            assert(ordv.index_of(dep as int) == p as int);
                            assert(ordv.contains(node as int));
                            lemma_position_beyond(ordv, node as int, p as int);
                        }
                        assert forall|y: int| 0 <= y < li + 1 implies entry_in(
                            result@,
                            snake_chars((#[trigger] labels@[y])@),
                            handle,
                        ) by {
                            if y < li {
                                lemma_entry_in_push(
                                    prev,
                                    pushed,
                                    snake_chars(labels@[y]@),
                                    handle,
                                );
                            } else {
                                assert(result@[result@.len() - 1].0@ == snake_chars(
                                    labels@[y]@,
                                ));
                            }
                        }
                        assert forall|dep2: int, ke: int|
                            0 <= dep2 < graph@.nodes.len() && dep2 != node
                                && #[trigger] reaches(graph@, node as int, dep2)
                                && ordv.index_of(dep2) < p && namespace_map@[dep2] is Some && 0
                                <= ke < graph@.edges.len() && (#[trigger] graph@.edges[ke]).to
                                == dep2 implies entry_in(
                            result@,
                            snake_chars(graph@.edges[ke].name),
                            namespace_map@[dep2]->0,
                        ) by {
                            lemma_entry_in_push(
                                prev,
                                pushed,
                                snake_chars(graph@.edges[ke].name),
                                namespace_map@[dep2]->0,
                            );
                        }
                    }
                    li = li + 1;
                }
                proof {
                    assert forall|dep2: int, ke: int|
                        0 <= dep2 < graph@.nodes.len() && dep2 != node && #[trigger] reaches(
                            graph@,
                            node as int,
                            dep2,
                        ) && ordv.index_of(dep2) < p + 1 && namespace_map@[dep2] is Some && 0
                            <= ke < graph@.edges.len() && (#[trigger] graph@.edges[ke]).to
                            == dep2 implies entry_in(
                        result@,
                        snake_chars(graph@.edges[ke].name),
                        namespace_map@[dep2]->0,
                    ) by {
                        if ordv.index_of(dep2) == p as int {
                            assert(ordv.contains(dep2));
                            assert(ordv[ordv.index_of(dep2)] == dep2);
                            assert(dep2 == dep as int);
                            assert(string_in(labels@, graph@.edges[ke].name));
                            let y = choose|y: int|
                                0 <= y < labels@.len() && (#[trigger] labels@[y])@
                                    == graph@.edges[ke].name;
                            assert(entry_in(result@, snake_chars(labels@[y]@), handle));
                        }
                    }
                }
            } else {
                proof {
                    assert forall|dep2: int, ke: int|
                        0 <= dep2 < graph@.nodes.len() && dep2 != node && #[trigger] reaches(
                            graph@,
                            node as int,
                            dep2,
                        ) && ordv.index_of(dep2) < p + 1 && namespace_map@[dep2] is Some && 0
                            <= ke < graph@.edges.len() && (#[trigger] graph@.edges[ke]).to
                            == dep2 implies entry_in(
                        result@,
                        snake_chars(graph@.edges[ke].name),
                        namespace_map@[dep2]->0,
                    ) by {
                        if ordv.index_of(dep2) == p as int {
                            assert(ordv.contains(dep2));
                            assert(ordv[ordv.index_of(dep2)] == dep2);
                            assert(dep2 == dep as int);
                        }
                    }
                }
            }
        } else {
            proof {
                assert forall|dep2: int, ke: int|
                    0 <= dep2 < graph@.nodes.len() && dep2 != node && #[trigger] reaches(
                        graph@,
                        node as int,
                        dep2,
                    ) && ordv.index_of(dep2) < p + 1 && namespace_map@[dep2] is Some && 0 <= ke
                        < graph@.edges.len() && (#[trigger] graph@.edges[ke]).to == dep2
                    implies entry_in(
                    result@,
                    snake_chars(graph@.edges[ke].name),
                    namespace_map@[dep2]->0,
                ) by {
                    if ordv.index_of(dep2) == p as int {
                        assert(ordv.contains(dep2));
                        assert(ordv[ordv.index_of(dep2)] == dep2);
                        assert(dep2 == dep as int);
                    }
                }
            }
        }
        p = p + 1;
    }
    proof {
        assert(ordv.contains(node as int));
        let q = ordv.index_of(node as int);
        assert(0 <= q < ordv.len() && ordv[q] == node as int);
    }
    result
}

/// When the walk stops at the node's own position, every earlier recorded
/// dependency has been composed.
proof fn lemma_entries_complete_at_node(
    g: GraphView,
    nsmap: Seq<Option<usize>>,
    node: int,
    ordv: Seq<int>,
    result: Seq<(String, usize)>,
    p: int,
)
    requires
        0 <= p < ordv.len(),
        ordv[p] == node,
        ordv.no_duplicates(),
        forall|x: int| 0 <= x < result.len() ==> ns_entry_ok(
            g,
            nsmap,
            node,
            ordv,
            #[trigger] result[x],
        ),
        forall|dep2: int, ke: int|
            0 <= dep2 < g.nodes.len() && dep2 != node && #[trigger] reaches(g, node, dep2)
                && ordv.index_of(dep2) < p && nsmap[dep2] is Some && 0 <= ke < g.edges.len()
                && (#[trigger] g.edges[ke]).to == dep2 ==> entry_in(
                result,
                snake_chars(g.edges[ke].name),
                nsmap[dep2]->0,
            ),
    ensures
        namespace_entries_ok(g, nsmap, node, ordv, result),
{
    lemma_index_of_unique(ordv, p);
    assert forall|dep2: int, ke: int|
        0 <= dep2 < g.nodes.len() && dep2 != node && #[trigger] reaches(g, node, dep2)
            && ordv.index_of(dep2) < ordv.index_of(node) && nsmap[dep2] is Some && 0 <= ke
            < g.edges.len() && (#[trigger] g.edges[ke]).to == dep2 implies entry_in(
        result,
        snake_chars(g.edges[ke].name),
        nsmap[dep2]->0,
    ) by {
        assert(ordv.index_of(node) == p);
    }
}

/// A package depended on under several distinct declared names is exposed
/// under the identifier-safe form of every one of them: compiling any
/// dependent of an aliased package sees its namespace under each alias.
pub proof fn lemma_namespace_aliasing(
    g: GraphView,
    nsmap: Seq<Option<usize>>,
    node: int,
    ordv: Seq<int>,
    result: Seq<(String, usize)>,
    dep: int,
    ka: int,
    kb: int,
)
    requires
        namespace_entries_ok(g, nsmap, node, ordv, result),
        0 <= dep < g.nodes.len(),
        dep != node,
        reaches(g, node, dep),
        ordv.index_of(dep) < ordv.index_of(node),
        nsmap[dep] is Some,
        0 <= ka < g.edges.len(),
        g.edges[ka].to == dep,
        0 <= kb < g.edges.len(),
        g.edges[kb].to == dep,
    ensures
        entry_in(result, snake_chars(g.edges[ka].name), nsmap[dep]->0),
        entry_in(result, snake_chars(g.edges[kb].name), nsmap[dep]->0),
{
}

} // verus!
