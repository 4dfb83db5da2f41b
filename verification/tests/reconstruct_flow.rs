//! Driving path reconstruction from a persisted lock graph.

use forc_pkg::manifest::Dependency;
use forc_pkg::manifest::DependencyDetails;
use forc_pkg::manifest::Manifest;
use forc_pkg::manifest::Project;
use forc_pkg::reconstruct::PathResolver;
use forc_pkg::reconstruct::ResolveAction;
use forc_pkg::reconstruct::ResolveEvent;
use forc_pkg::Error;
use forc_pkg::Graph;
use forc_pkg::Pinned;
use forc_pkg::SemverVersion;
use forc_pkg::SourceGit;
use forc_pkg::SourceGitPinned;
use forc_pkg::SourcePinned;
use forc_pkg::SourceRegistry;
use forc_pkg::SourceRegistryPinned;

fn path_node(name: &str) -> Pinned {
    Pinned {
        name: name.to_string(),
        source: SourcePinned::Path,
    }
}

fn git_node(name: &str, repo: &str, commit: &str) -> Pinned {
    Pinned {
        name: name.to_string(),
        source: SourcePinned::Git(SourceGitPinned {
            source: SourceGit {
                repo: repo.to_string(),
                reference: "main".to_string(),
            },
            commit_hash: commit.to_string(),
        }),
    }
}

fn root_manifest() -> Manifest {
    Manifest {
        project: Project {
            name: "proj".to_string(),
        },
        dependencies: vec![(
            "dep".to_string(),
            Dependency::Detailed(DependencyDetails {
                version: None,
                path: Some("libs/dep".to_string()),
                git: None,
                branch: None,
                tag: None,
                package: None,
            }),
        )],
    }
}

#[test]
fn path_dependency_derives_from_its_parent() {
    let mut graph = Graph::new();
    let root = graph.add_node(path_node("proj"));
    let dep = graph.add_node(path_node("dep"));
    graph.add_edge(root, dep, "dep".to_string());
    let dep_id = graph.nodes[dep].id();
    let (mut resolver, action) = PathResolver::new(
        graph,
        vec![dep, root],
        "/proj".to_string(),
        "/cache".to_string(),
        7,
    )
    .unwrap();
    let parent_path = match action {
        ResolveAction::LoadManifest { path } => path,
        other => panic!("expected a manifest request, got {:?}", other),
    };
    assert_eq!(parent_path, "/proj");
    let action = resolver
        .step(ResolveEvent::Manifest(root_manifest()))
        .unwrap();
    let probe = match action {
        ResolveAction::CheckDir { path } => path,
        other => panic!("expected a directory probe, got {:?}", other),
    };
    assert_eq!(probe, "/proj/libs/dep");
    let action = resolver.step(ResolveEvent::DirChecked { exists: true }).unwrap();
    assert!(matches!(action, ResolveAction::Done));
    let (_graph, path_map) = resolver.finish();
    assert_eq!(path_map.get(dep_id).unwrap(), "/proj/libs/dep");
}

#[test]
fn missing_path_dependency_directory_is_fatal() {
    let mut graph = Graph::new();
    let root = graph.add_node(path_node("proj"));
    let dep = graph.add_node(path_node("dep"));
    graph.add_edge(root, dep, "dep".to_string());
    let (mut resolver, _action) = PathResolver::new(
        graph,
        vec![dep, root],
        "/proj".to_string(),
        "/cache".to_string(),
        7,
    )
    .unwrap();
    resolver
        .step(ResolveEvent::Manifest(root_manifest()))
        .unwrap();
    let result = resolver.step(ResolveEvent::DirChecked { exists: false });
    assert!(matches!(
        result,
        Err(Error::MissingPathDependencySource { .. })
    ));
}

#[test]
fn git_dependency_refetched_when_absent() {
    let mut graph = Graph::new();
    let root = graph.add_node(path_node("proj"));
    let dep = graph.add_node(git_node("libx", "https://example.com/libx", "abc123"));
    graph.add_edge(root, dep, "libx".to_string());
    let dep_id = graph.nodes[dep].id();
    let (mut resolver, action) = PathResolver::new(
        graph,
        vec![dep, root],
        "/proj".to_string(),
        "/cache".to_string(),
        7,
    )
    .unwrap();
    let expected = forc_pkg::paths::git_commit_path(
        "/cache",
        "libx",
        "https://example.com/libx",
        "abc123",
    );
    match action {
        ResolveAction::CheckDir { ref path } => assert_eq!(path, &expected),
        other => panic!("expected a directory probe, got {:?}", other),
    }
    let action = resolver.step(ResolveEvent::DirChecked { exists: false }).unwrap();
    assert!(matches!(action, ResolveAction::FetchGit { .. }));
    let action = resolver.step(ResolveEvent::Fetched).unwrap();
    assert!(matches!(action, ResolveAction::Done));
    let (_graph, path_map) = resolver.finish();
    assert_eq!(path_map.get(dep_id).unwrap(), &expected);
}

#[test]
fn registry_dependency_is_unsupported() {
    let mut graph = Graph::new();
    let root = graph.add_node(path_node("proj"));
    let version = SemverVersion {
        major: 1,
        minor: 0,
        patch: 0,
    };
    let dep = graph.add_node(Pinned {
        name: "reg".to_string(),
        source: SourcePinned::Registry(SourceRegistryPinned {
            source: SourceRegistry { version },
            version,
        }),
    });
    graph.add_edge(root, dep, "reg".to_string());
    let result = PathResolver::new(
        graph,
        vec![dep, root],
        "/proj".to_string(),
        "/cache".to_string(),
        7,
    );
    assert!(matches!(result, Err(Error::RegistryUnsupported { .. })));
}

#[test]
fn ambiguous_path_parent_is_fatal() {
    let mut graph = Graph::new();
    let root = graph.add_node(path_node("proj"));
    let a = graph.add_node(path_node("a"));
    let dep = graph.add_node(path_node("dep"));
    graph.add_edge(root, a, "a".to_string());
    graph.add_edge(root, dep, "dep".to_string());
    graph.add_edge(a, dep, "dep".to_string());
    let (mut resolver, action) = PathResolver::new(
        graph,
        vec![dep, a, root],
        "/proj".to_string(),
        "/cache".to_string(),
        7,
    )
    .unwrap();
    // `a` resolves first, from the root's manifest.
    assert!(matches!(action, ResolveAction::LoadManifest { .. }));
    let root_manifest = Manifest {
        project: Project {
            name: "proj".to_string(),
        },
        dependencies: vec![
            (
                "a".to_string(),
                Dependency::Detailed(DependencyDetails {
                    version: None,
                    path: Some("a".to_string()),
                    git: None,
                    branch: None,
                    tag: None,
                    package: None,
                }),
            ),
            (
                "dep".to_string(),
                Dependency::Detailed(DependencyDetails {
                    version: None,
                    path: Some("libs/dep".to_string()),
                    git: None,
                    branch: None,
                    tag: None,
                    package: None,
                }),
            ),
        ],
    };
    let action = resolver.step(ResolveEvent::Manifest(root_manifest)).unwrap();
    assert!(matches!(action, ResolveAction::CheckDir { .. }));
    // Walking on to `dep`, which has two incoming edges, is fatal.
    let result = resolver.step(ResolveEvent::DirChecked { exists: true });
    assert!(matches!(
        result,
        Err(Error::AmbiguousPathDependencyParent { .. })
    ));
}

#[test]
fn empty_graph_is_rejected() {
    let graph = Graph::new();
    let result = PathResolver::new(
        graph,
        vec![],
        "/proj".to_string(),
        "/cache".to_string(),
        7,
    );
    assert!(matches!(result, Err(Error::EmptyGraph)));
}
