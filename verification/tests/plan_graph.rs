//! Compilation ordering, cycle detection, and lock/manifest validation.

use forc_pkg::manifest::Dependency;
use forc_pkg::manifest::DependencyDetails;
use forc_pkg::manifest::Manifest;
use forc_pkg::manifest::Project;
use forc_pkg::plan::BuildPlan;
use forc_pkg::plan::PathMap;
use forc_pkg::Error;
use forc_pkg::Graph;
use forc_pkg::Pinned;
use forc_pkg::SourcePinned;

fn path_node(name: &str) -> Pinned {
    Pinned {
        name: name.to_string(),
        source: SourcePinned::Path,
    }
}

fn path_dep(path: &str) -> Dependency {
    Dependency::Detailed(DependencyDetails {
        version: None,
        path: Some(path.to_string()),
        git: None,
        branch: None,
        tag: None,
        package: None,
    })
}

fn manifest(name: &str, deps: Vec<(&str, Dependency)>) -> Manifest {
    Manifest {
        project: Project {
            name: name.to_string(),
        },
        dependencies: deps
            .into_iter()
            .map(|(n, d)| (n.to_string(), d))
            .collect(),
    }
}

/// root -> a, root -> b, a -> c, b -> c, with `c` as a single shared node.
fn diamond() -> (Graph, PathMap) {
    let mut graph = Graph::new();
    let root = graph.add_node(path_node("proj"));
    let a = graph.add_node(path_node("a"));
    let b = graph.add_node(path_node("b"));
    let c = graph.add_node(path_node("c"));
    graph.add_edge(root, a, "a".to_string());
    graph.add_edge(root, b, "b".to_string());
    graph.add_edge(a, c, "c".to_string());
    graph.add_edge(b, c, "c".to_string());
    let mut path_map = PathMap::new();
    for (node, path) in [
        (root, "/proj"),
        (a, "/proj/a"),
        (b, "/proj/b"),
        (c, "/proj/c"),
    ] {
        let id = graph.nodes[node].id();
        path_map.insert(id, path.to_string());
    }
    (graph, path_map)
}

fn position(order: &[usize], node: usize) -> usize {
    order.iter().position(|&x| x == node).unwrap()
}

#[test]
fn topological_order_dependencies_first() {
    let (graph, path_map) = diamond();
    let edges: Vec<(usize, usize)> = graph.edges.iter().map(|e| (e.from, e.to)).collect();
    let plan = BuildPlan::new(graph, path_map).unwrap();
    let order = plan.compilation_order();
    assert_eq!(order.len(), 4);
    for (from, to) in edges {
        assert!(position(order, to) < position(order, from));
    }
    // The root is always last.
    assert_eq!(*order.last().unwrap(), 0);
}

#[test]
fn diamond_shares_one_node() {
    let (graph, path_map) = diamond();
    assert_eq!(graph.node_count(), 4);
    let plan = BuildPlan::new(graph, path_map).unwrap();
    let order = plan.compilation_order();
    // `c` (node 3) appears exactly once, before both `a` (1) and `b` (2).
    assert_eq!(order.iter().filter(|&&x| x == 3).count(), 1);
    assert!(position(order, 3) < position(order, 1));
    assert!(position(order, 3) < position(order, 2));
}

#[test]
fn cycle_is_detected() {
    let mut graph = Graph::new();
    let root = graph.add_node(path_node("proj"));
    let a = graph.add_node(path_node("a"));
    graph.add_edge(root, a, "a".to_string());
    graph.add_edge(a, root, "proj".to_string());
    let mut path_map = PathMap::new();
    let root_id = graph.nodes[root].id();
    let a_id = graph.nodes[a].id();
    path_map.insert(root_id, "/proj".to_string());
    path_map.insert(a_id, "/proj/a".to_string());
    let result = BuildPlan::new(graph, path_map);
    assert!(matches!(result, Err(Error::DependencyCycle)));
}

fn simple_plan() -> BuildPlan {
    let mut graph = Graph::new();
    let root = graph.add_node(path_node("proj"));
    let dep = graph.add_node(path_node("dep"));
    graph.add_edge(root, dep, "dep".to_string());
    let mut path_map = PathMap::new();
    let root_id = graph.nodes[root].id();
    let dep_id = graph.nodes[dep].id();
    path_map.insert(root_id, "/proj".to_string());
    path_map.insert(dep_id, "/proj/libs/dep".to_string());
    BuildPlan::new(graph, path_map).unwrap()
}

fn node_manifests() -> Vec<Manifest> {
    vec![
        manifest("proj", vec![("dep", path_dep("libs/dep"))]),
        manifest("dep", vec![]),
    ]
}

#[test]
fn validate_accepts_matching_manifest() {
    let plan = simple_plan();
    let m = manifest("proj", vec![("dep", path_dep("libs/dep"))]);
    assert!(plan.validate(&m, &node_manifests()).is_ok());
}

#[test]
fn validate_rejects_added_dependency() {
    let plan = simple_plan();
    let m = manifest(
        "proj",
        vec![
            ("dep", path_dep("libs/dep")),
            ("extra", path_dep("libs/extra")),
        ],
    );
    assert!(matches!(
        plan.validate(&m, &node_manifests()),
        Err(Error::LockManifestMismatch)
    ));
}

#[test]
fn validate_rejects_removed_dependency() {
    let plan = simple_plan();
    let m = manifest("proj", vec![]);
    assert!(matches!(
        plan.validate(&m, &node_manifests()),
        Err(Error::LockManifestMismatch)
    ));
}

#[test]
fn validate_rejects_renamed_project() {
    let plan = simple_plan();
    let m = manifest("proj", vec![("dep", path_dep("libs/dep"))]);
    let wrong = vec![
        manifest("proj", vec![("dep", path_dep("libs/dep"))]),
        manifest("other", vec![]),
    ];
    assert!(matches!(
        plan.validate(&m, &wrong),
        Err(Error::PackageNameMismatch { .. })
    ));
}
