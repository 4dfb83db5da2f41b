//! Driving the fetch session: deduplication, offline enforcement, git
//! pinning, and name checking.

use forc_pkg::fetch::FetchAction;
use forc_pkg::fetch::FetchEvent;
use forc_pkg::fetch::Fetcher;
use forc_pkg::manifest::Dependency;
use forc_pkg::manifest::DependencyDetails;
use forc_pkg::manifest::Manifest;
use forc_pkg::manifest::Project;
use forc_pkg::plan::BuildPlan;
use forc_pkg::Error;

fn path_dep(path: &str) -> Dependency {
    Dependency::Detailed(DependencyDetails {
        version: None,
        path: Some(path.to_string()),
        git: None,
        branch: None,
        tag: None,
        package: None,
    })
}

fn git_dep(repo: &str, branch: Option<&str>) -> Dependency {
    Dependency::Detailed(DependencyDetails {
        version: None,
        path: None,
        git: Some(repo.to_string()),
        branch: branch.map(|s| s.to_string()),
        tag: None,
        package: None,
    })
}

fn manifest(name: &str, deps: Vec<(&str, Dependency)>) -> Manifest {
    Manifest {
        project: Project {
            name: name.to_string(),
        },
        dependencies: deps
            .into_iter()
            .map(|(n, d)| (n.to_string(), d))
            .collect(),
    }
}

/// Answer every manifest request from the given table; fail on any other
/// action.
fn drive_manifests(
    fetcher: &mut Fetcher,
    mut action: FetchAction,
    manifests: &[(&str, Manifest)],
) -> Result<(), Error> {
    loop {
        match action {
            FetchAction::Done => return Ok(()),
            FetchAction::LoadManifest { ref path } => {
                let found = manifests
                    .iter()
                    .find(|(p, _)| p == path)
                    .map(|(_, m)| m.clone());
                let event = match found {
                    Some(m) => FetchEvent::Manifest(m),
                    None => FetchEvent::ManifestFailed,
                };
                action = fetcher.step(event)?;
            }
            other => panic!("unexpected action: {:?}", other),
        }
    }
}

#[test]
fn diamond_collapses_to_one_node() {
    let (mut fetcher, first) = Fetcher::new(
        "proj".to_string(),
        "/proj".to_string(),
        false,
        7,
        "/cache".to_string(),
    );
    let manifests = [
        (
            "/proj",
            manifest(
                "proj",
                vec![("a", path_dep("a")), ("b", path_dep("b"))],
            ),
        ),
        ("/proj/a", manifest("a", vec![("c", path_dep("c"))])),
        ("/proj/b", manifest("b", vec![("c", path_dep("c"))])),
        ("/proj/a/c", manifest("c", vec![])),
        ("/proj/b/c", manifest("c", vec![])),
    ];
    drive_manifests(&mut fetcher, first, &manifests).unwrap();
    let (graph, path_map) = fetcher.finish();
    // root, a, b, and a single shared c: four nodes, not five.
    assert_eq!(graph.node_count(), 4);
    assert_eq!(graph.edges.len(), 4);
    let plan = BuildPlan::new(graph, path_map).unwrap();
    let order = plan.compilation_order().clone();
    let names: Vec<String> = order
        .iter()
        .map(|&ix| plan.graph().nodes[ix].name.clone())
        .collect();
    let pos = |n: &str| names.iter().position(|x| x == n).unwrap();
    assert!(pos("c") < pos("a"));
    assert!(pos("c") < pos("b"));
    assert_eq!(names.last().unwrap(), "proj");
}

#[test]
fn offline_mode_rejects_git_dependency_before_any_network_action() {
    let (mut fetcher, first) = Fetcher::new(
        "proj".to_string(),
        "/proj".to_string(),
        true,
        7,
        "/cache".to_string(),
    );
    assert!(matches!(first, FetchAction::LoadManifest { .. }));
    let root = manifest(
        "proj",
        vec![("libx", git_dep("https://example.com/libx", Some("main")))],
    );
    let result = fetcher.step(FetchEvent::Manifest(root));
    match result {
        Err(Error::OfflineViolation { name }) => assert_eq!(name, "libx"),
        other => panic!("expected an offline violation, got {:?}", other),
    }
}

#[test]
fn offline_mode_accepts_path_dependencies() {
    let (mut fetcher, first) = Fetcher::new(
        "proj".to_string(),
        "/proj".to_string(),
        true,
        7,
        "/cache".to_string(),
    );
    let manifests = [
        ("/proj", manifest("proj", vec![("dep", path_dep("dep"))])),
        ("/proj/dep", manifest("dep", vec![])),
    ];
    drive_manifests(&mut fetcher, first, &manifests).unwrap();
    let (graph, _path_map) = fetcher.finish();
    assert_eq!(graph.node_count(), 2);
}

#[test]
fn git_dependency_is_pinned_and_fetched() {
    let (mut fetcher, first) = Fetcher::new(
        "proj".to_string(),
        "/proj".to_string(),
        false,
        7,
        "/cache".to_string(),
    );
    let root = manifest(
        "proj",
        vec![("libx", git_dep("https://example.com/libx", None))],
    );
    assert!(matches!(first, FetchAction::LoadManifest { .. }));
    let action = fetcher.step(FetchEvent::Manifest(root)).unwrap();
    let (name, source) = match action {
        FetchAction::PinGit { name, source } => (name, source),
        other => panic!("expected a pin request, got {:?}", other),
    };
    assert_eq!(name, "libx");
    assert_eq!(source.repo, "https://example.com/libx");
    // Neither branch nor tag was given, so the reference defaults.
    assert_eq!(source.reference, "master");
    let action = fetcher
        .step(FetchEvent::GitPinned {
            commit_hash: "abc123".to_string(),
        })
        .unwrap();
    let expected_path = forc_pkg::paths::git_commit_path(
        "/cache",
        "libx",
        "https://example.com/libx",
        "abc123",
    );
    let probe = match action {
        FetchAction::CheckDir { path } => path,
        other => panic!("expected a directory probe, got {:?}", other),
    };
    assert_eq!(probe, expected_path);
    let action = fetcher.step(FetchEvent::DirChecked { exists: false }).unwrap();
    match &action {
        FetchAction::FetchGit { name, pinned, path } => {
            assert_eq!(name, "libx");
            assert_eq!(pinned.commit_hash, "abc123");
            assert_eq!(path, &expected_path);
        }
        other => panic!("expected a checkout request, got {:?}", other),
    }
    let action = fetcher.step(FetchEvent::Fetched).unwrap();
    let dep_manifest_path = match action {
        FetchAction::LoadManifest { path } => path,
        other => panic!("expected a manifest request, got {:?}", other),
    };
    assert_eq!(dep_manifest_path, expected_path);
    let action = fetcher
        .step(FetchEvent::Manifest(manifest("libx", vec![])))
        .unwrap();
    assert!(matches!(action, FetchAction::Done));
    let (graph, path_map) = fetcher.finish();
    assert_eq!(graph.node_count(), 2);
    let dep_id = graph.nodes[1].id();
    assert_eq!(path_map.get(dep_id).unwrap(), &expected_path);
}

#[test]
fn dependency_name_must_match_its_manifest() {
    let (mut fetcher, first) = Fetcher::new(
        "proj".to_string(),
        "/proj".to_string(),
        false,
        7,
        "/cache".to_string(),
    );
    let manifests = [
        ("/proj", manifest("proj", vec![("dep", path_dep("dep"))])),
        ("/proj/dep", manifest("other", vec![])),
    ];
    let result = drive_manifests(&mut fetcher, first, &manifests);
    match result {
        Err(Error::PackageNameMismatch {
            dependency_name,
            manifest_name,
        }) => {
            assert_eq!(dependency_name, "dep");
            assert_eq!(manifest_name, "other");
        }
        other => panic!("expected a name mismatch, got {:?}", other),
    }
}

#[test]
fn alias_skips_the_name_check() {
    let (mut fetcher, first) = Fetcher::new(
        "proj".to_string(),
        "/proj".to_string(),
        false,
        7,
        "/cache".to_string(),
    );
    let aliased = Dependency::Detailed(DependencyDetails {
        version: None,
        path: Some("dep".to_string()),
        git: None,
        branch: None,
        tag: None,
        package: Some("other".to_string()),
    });
    let manifests = [
        ("/proj", manifest("proj", vec![("dep-alt", aliased)])),
        ("/proj/dep", manifest("other", vec![])),
    ];
    drive_manifests(&mut fetcher, first, &manifests).unwrap();
    let (graph, _path_map) = fetcher.finish();
    assert_eq!(graph.node_count(), 2);
    assert_eq!(graph.nodes[1].name, "other");
    assert_eq!(graph.edges[0].name, "dep-alt");
}

#[test]
fn pinned_commit_already_cached_skips_probe_and_fetch() {
    // Two declarations resolving to the same package, repository, and
    // commit: the first pin populates the path map, so the second pin goes
    // straight to the manifest without probing or fetching again.
    let (mut fetcher, first) = Fetcher::new(
        "proj".to_string(),
        "/proj".to_string(),
        false,
        7,
        "/cache".to_string(),
    );
    let aliased = |repo: &str| {
        Dependency::Detailed(DependencyDetails {
            version: None,
            path: None,
            git: Some(repo.to_string()),
            branch: Some("main".to_string()),
            tag: None,
            package: Some("libx".to_string()),
        })
    };
    let root = manifest(
        "proj",
        vec![
            ("x1", aliased("https://example.com/libx")),
            ("x2", aliased("https://example.com/libx")),
        ],
    );
    assert!(matches!(first, FetchAction::LoadManifest { .. }));
    let action = fetcher.step(FetchEvent::Manifest(root)).unwrap();
    assert!(matches!(action, FetchAction::PinGit { .. }));
    let action = fetcher
        .step(FetchEvent::GitPinned {
            commit_hash: "abc".to_string(),
        })
        .unwrap();
    assert!(matches!(action, FetchAction::CheckDir { .. }));
    let action = fetcher.step(FetchEvent::DirChecked { exists: false }).unwrap();
    assert!(matches!(action, FetchAction::FetchGit { .. }));
    let action = fetcher.step(FetchEvent::Fetched).unwrap();
    assert!(matches!(action, FetchAction::LoadManifest { .. }));
    let action = fetcher
        .step(FetchEvent::Manifest(manifest("libx", vec![])))
        .unwrap();
    // The second declaration pins again, but the pinned id is already
    // registered: the next action asks for the manifest directly.
    assert!(matches!(action, FetchAction::PinGit { .. }));
    let action = fetcher
        .step(FetchEvent::GitPinned {
            commit_hash: "abc".to_string(),
        })
        .unwrap();
    assert!(matches!(action, FetchAction::LoadManifest { .. }));
    let action = fetcher
        .step(FetchEvent::Manifest(manifest("libx", vec![])))
        .unwrap();
    assert!(matches!(action, FetchAction::Done));
    let (graph, _path_map) = fetcher.finish();
    // One shared node for the twice-declared package, one edge per
    // declaration.
    assert_eq!(graph.node_count(), 2);
    assert_eq!(graph.edges.len(), 2);
}

#[test]
fn bare_version_dependency_is_unsupported() {
    let (mut fetcher, first) = Fetcher::new(
        "proj".to_string(),
        "/proj".to_string(),
        false,
        7,
        "/cache".to_string(),
    );
    let root = manifest(
        "proj",
        vec![("dep", Dependency::Simple("1.0.0".to_string()))],
    );
    assert!(matches!(first, FetchAction::LoadManifest { .. }));
    let result = fetcher.step(FetchEvent::Manifest(root));
    assert!(matches!(
        result,
        Err(Error::UnsupportedDependencyKind { .. })
    ));
}
