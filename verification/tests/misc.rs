//! Namespace composition, build bookkeeping, cache paths, manifest
//! resolution, and the declaration helpers.

use forc_pkg::dependency_namespace;
use forc_pkg::manifest::dep_to_source;
use forc_pkg::manifest::Dependency;
use forc_pkg::manifest::DependencyDetails;
use forc_pkg::paths;
use forc_pkg::plan::PathMap;
use forc_pkg::text;
use forc_pkg::check_if_name_is_invalid;
use forc_pkg::AbiEntry;
use forc_pkg::BuildConfig;
use forc_pkg::BuildProgress;
use forc_pkg::Compiled;
use forc_pkg::CompileError;
use forc_pkg::Error;
use forc_pkg::Graph;
use forc_pkg::Ident;
use forc_pkg::IrError;
use forc_pkg::Pinned;
use forc_pkg::Pkg;
use forc_pkg::Source;
use forc_pkg::SourcePinned;
use forc_pkg::TypeId;
use forc_pkg::TypedExpression;
use forc_pkg::TypedStorageField;
use forc_pkg::Span;
use forc_pkg::VariableMutability;
use forc_pkg::Visibility;

fn path_node(name: &str) -> Pinned {
    Pinned {
        name: name.to_string(),
        source: SourcePinned::Path,
    }
}

fn detailed(
    path: Option<&str>,
    git: Option<&str>,
    branch: Option<&str>,
    tag: Option<&str>,
    package: Option<&str>,
) -> Dependency {
    Dependency::Detailed(DependencyDetails {
        version: None,
        path: path.map(|s| s.to_string()),
        git: git.map(|s| s.to_string()),
        branch: branch.map(|s| s.to_string()),
        tag: tag.map(|s| s.to_string()),
        package: package.map(|s| s.to_string()),
    })
}

#[test]
fn aliased_package_is_exposed_under_every_alias() {
    // root -> a, root -> b, a -> c as "c", b -> c as "c-alt".
    let mut graph = Graph::new();
    let root = graph.add_node(path_node("proj"));
    let a = graph.add_node(path_node("a"));
    let b = graph.add_node(path_node("b"));
    let c = graph.add_node(path_node("c"));
    graph.add_edge(root, a, "a".to_string());
    graph.add_edge(root, b, "b".to_string());
    graph.add_edge(a, c, "c".to_string());
    graph.add_edge(b, c, "c-alt".to_string());
    let order = vec![c, a, b, root];
    // Only `c` has been compiled so far, exposing namespace handle 7.
    let mut handles: Vec<Option<usize>> = vec![None, None, None, None];
    handles[c] = Some(7);
    // Composing for the root, a dependent of both aliases, exposes `c`
    // under both identifier-safe names.
    let entries = dependency_namespace(&handles, &graph, &order, root);
    assert!(entries.iter().any(|e| e.0 == "c" && e.1 == 7));
    assert!(entries.iter().any(|e| e.0 == "c_alt" && e.1 == 7));
    assert_eq!(entries.len(), 2);
}

#[test]
fn namespace_composition_skips_unreachable_nodes() {
    // root -> a; b is in the graph but not a dependency of a.
    let mut graph = Graph::new();
    let root = graph.add_node(path_node("proj"));
    let a = graph.add_node(path_node("a"));
    let b = graph.add_node(path_node("b"));
    graph.add_edge(root, a, "a".to_string());
    graph.add_edge(root, b, "b".to_string());
    let order = vec![a, b, root];
    let handles: Vec<Option<usize>> = vec![None, Some(1), Some(2)];
    let entries = dependency_namespace(&handles, &graph, &order, a);
    assert!(entries.is_empty());
}

#[test]
fn build_progress_accumulates_abi_and_replaces_bytecode() {
    let mut progress = BuildProgress::new(2);
    assert_eq!(progress.namespace_handles().len(), 2);
    progress.record(
        0,
        Compiled {
            json_abi: vec![AbiEntry {
                name: "transfer".to_string(),
            }],
            bytecode: vec![1, 2],
        },
        Some(4),
        "/proj/dep".to_string(),
    );
    progress.record(
        1,
        Compiled {
            json_abi: vec![AbiEntry {
                name: "mint".to_string(),
            }],
            bytecode: vec![3, 4, 5],
        },
        None,
        "/proj".to_string(),
    );
    assert_eq!(progress.namespace_handles()[0], Some(4));
    assert_eq!(progress.namespace_handles()[1], None);
    let (compiled, source_map) = progress.finish();
    let names: Vec<&str> = compiled.json_abi.iter().map(|e| e.name.as_str()).collect();
    assert_eq!(names, ["transfer", "mint"]);
    // Bytecode accumulates by replacement: the last node's output wins.
    assert_eq!(compiled.bytecode, vec![3, 4, 5]);
    assert_eq!(source_map, ["/proj/dep", "/proj"]);
}

#[test]
fn build_config_carries_flags() {
    let conf = BuildConfig {
        use_ir: true,
        print_ir: false,
        print_finalized_asm: false,
        print_intermediate_asm: false,
        silent: true,
    };
    assert!(conf.use_ir && conf.silent && !conf.print_ir);
}

#[test]
fn git_cache_paths_are_deterministic() {
    let a = paths::git_commit_path("/cache", "std", "https://example.com/std", "abc");
    let b = paths::git_commit_path("/cache", "std", "https://example.com/std", "abc");
    assert_eq!(a, b);
    assert!(a.starts_with("/cache/std-"));
    assert!(a.ends_with("/abc"));
    let other_repo = paths::git_commit_path("/cache", "std", "https://example.com/fork", "abc");
    assert_ne!(a, other_repo);
    let tmp = paths::tmp_git_repo_dir("/cache", 7, "std", "https://example.com/std");
    assert!(tmp.starts_with("/cache/tmp/"));
    assert!(tmp.contains("std-"));
}

#[test]
fn fetch_id_depends_on_path_and_timestamp() {
    let a = paths::fetch_id("/proj", 1);
    let b = paths::fetch_id("/proj", 1);
    let c = paths::fetch_id("/proj", 2);
    let d = paths::fetch_id("/other", 1);
    assert_eq!(a, b);
    assert_ne!(a, c);
    assert_ne!(a, d);
}

#[test]
fn hex_and_snake_helpers() {
    assert_eq!(text::to_hex(0), "0");
    assert_eq!(text::to_hex(255), "ff");
    assert_eq!(text::to_hex(0x1b3), "1b3");
    assert_eq!(text::kebab_to_snake_case("sway-lib-std"), "sway_lib_std");
    assert_eq!(text::kebab_to_snake_case("plain"), "plain");
}

#[test]
fn dep_to_source_resolution_precedence() {
    // A path wins over everything else.
    let d = detailed(Some("libs/dep"), Some("https://example.com/x"), None, None, None);
    match dep_to_source("/proj", "dep", &d).unwrap() {
        Source::Path(p) => assert_eq!(p, "/proj/libs/dep"),
        other => panic!("expected a path source, got {:?}", other),
    }
    // A git declaration with a branch takes that branch as reference.
    let d = detailed(None, Some("https://example.com/x"), Some("dev"), None, None);
    match dep_to_source("/proj", "dep", &d).unwrap() {
        Source::Git(g) => {
            assert_eq!(g.repo, "https://example.com/x");
            assert_eq!(g.reference, "dev");
        }
        other => panic!("expected a git source, got {:?}", other),
    }
    // A tag alone is the reference; neither defaults to the fixed branch.
    let d = detailed(None, Some("https://example.com/x"), None, Some("v1.0"), None);
    match dep_to_source("/proj", "dep", &d).unwrap() {
        Source::Git(g) => assert_eq!(g.reference, "v1.0"),
        other => panic!("expected a git source, got {:?}", other),
    }
    let d = detailed(None, Some("https://example.com/x"), None, None, None);
    match dep_to_source("/proj", "dep", &d).unwrap() {
        Source::Git(g) => assert_eq!(g.reference, "master"),
        other => panic!("expected a git source, got {:?}", other),
    }
    // A bare version string is unsupported.
    let d = Dependency::Simple("1.0".to_string());
    assert!(matches!(
        dep_to_source("/proj", "dep", &d),
        Err(Error::UnsupportedDependencyKind { .. })
    ));
    // A declaration with neither path nor git is unsupported.
    let d = detailed(None, None, None, None, None);
    assert!(matches!(
        dep_to_source("/proj", "dep", &d),
        Err(Error::UnsupportedDependencyKind { .. })
    ));
    // A git declaration with an unparseable URL is rejected.
    let d = detailed(None, Some("not a url"), None, None, None);
    assert!(matches!(
        dep_to_source("/proj", "dep", &d),
        Err(Error::InvalidUrl { .. })
    ));
}

#[test]
fn path_map_registers_and_replaces() {
    let mut map = PathMap::new();
    let a = path_node("a").id();
    let b = path_node("b").id();
    assert!(map.get(a).is_none());
    map.insert(a, "/one".to_string());
    map.insert(b, "/two".to_string());
    assert_eq!(map.get(a).unwrap(), "/one");
    assert_eq!(map.get(b).unwrap(), "/two");
    map.insert(a, "/three".to_string());
    assert_eq!(map.get(a).unwrap(), "/three");
    assert_eq!(map.get(b).unwrap(), "/two");
}

#[test]
fn unpinned_recovers_the_declared_source() {
    let mut map = PathMap::new();
    let node = path_node("dep");
    map.insert(node.id(), "/proj/dep".to_string());
    let pkg: Pkg = node.unpinned(&map);
    assert_eq!(pkg.name, "dep");
    match pkg.source {
        Source::Path(p) => assert_eq!(p, "/proj/dep"),
        other => panic!("expected a path source, got {:?}", other),
    }
}

#[test]
fn variable_mutability_helpers() {
    assert!(VariableMutability::Mutable.is_mutable());
    assert!(!VariableMutability::Mutable.is_immutable());
    assert!(VariableMutability::Immutable.is_immutable());
    assert!(VariableMutability::ExportedConst.is_immutable());
    assert_eq!(
        VariableMutability::ExportedConst.visibility(),
        Visibility::Public
    );
    assert_eq!(VariableMutability::Mutable.visibility(), Visibility::Private);
    assert_eq!(
        VariableMutability::Immutable.visibility(),
        Visibility::Private
    );
    assert_eq!(VariableMutability::default(), VariableMutability::Immutable);
    assert_eq!(VariableMutability::from(true), VariableMutability::Mutable);
    assert_eq!(VariableMutability::from(false), VariableMutability::Immutable);
    assert!(bool::from(VariableMutability::Mutable));
    assert!(!bool::from(VariableMutability::ExportedConst));
}

#[test]
fn storage_fields_keep_their_parts() {
    let field = TypedStorageField::new(
        Ident {
            name: "balance".to_string(),
            span: Span { start: 4, end: 11 },
        },
        TypeId(9),
        TypedExpression {
            return_type: TypeId(9),
            span: Span { start: 14, end: 15 },
        },
    );
    assert_eq!(field.name().name, "balance");
}

#[test]
fn reserved_variable_names_are_rejected() {
    let bad = Ident {
        name: "storage".to_string(),
        span: Span { start: 3, end: 10 },
    };
    let result = check_if_name_is_invalid(&bad);
    assert!(result.value.is_none());
    assert_eq!(result.errors.len(), 1);
    match &result.errors[0] {
        CompileError::InvalidVariableName { name, span } => {
            assert_eq!(name, "storage");
            assert_eq!(*span, Span { start: 3, end: 10 });
        }
    }
    let good = Ident {
        name: "balance".to_string(),
        span: Span { start: 0, end: 7 },
    };
    let result = check_if_name_is_invalid(&good);
    assert_eq!(result.value, Some(()));
    assert!(result.errors.is_empty());
}

#[test]
fn ir_errors_carry_their_context() {
    let e = IrError::MissingBlock("entry".to_string());
    assert!(matches!(e, IrError::MissingBlock(ref b) if b == "entry"));
    let e = IrError::FunctionLocalClobbered("main".to_string(), "x".to_string());
    assert!(matches!(e, IrError::FunctionLocalClobbered(..)));
    assert!(matches!(IrError::NonUniquePhiLabels, IrError::NonUniquePhiLabels));
}
