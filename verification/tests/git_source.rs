//! The pinned git source string form and the pinned-package fingerprint.

use forc_pkg::source::source_git_pinned_eq;
use forc_pkg::PinnedId;
use forc_pkg::SourceGit;
use forc_pkg::SourceGitPinned;
use forc_pkg::SourceGitPinnedParseError;
use forc_pkg::SourcePinned;

fn pinned(repo: &str, reference: &str, commit: &str) -> SourceGitPinned {
    SourceGitPinned {
        source: SourceGit {
            repo: repo.to_string(),
            reference: reference.to_string(),
        },
        commit_hash: commit.to_string(),
    }
}

#[test]
fn test_source_git_pinned_parsing() {
    let strings = [
        "git+https://github.com/foo/bar?reference=baz#64092602dd6158f3e41d775ed889389440a2cd86",
        "git+https://github.com/fuellabs/sway-lib-std?reference=v0.1.0#0000000000000000000000000000000000000000",
        "git+https://github.com/fuellabs/sway-lib-core?reference=v0.0.1#0000000000000000000000000000000000000000",
    ];

    let expected = [
        pinned(
            "https://github.com/foo/bar",
            "baz",
            "64092602dd6158f3e41d775ed889389440a2cd86",
        ),
        pinned(
            "https://github.com/fuellabs/sway-lib-std",
            "v0.1.0",
            "0000000000000000000000000000000000000000",
        ),
        pinned(
            "https://github.com/fuellabs/sway-lib-core",
            "v0.0.1",
            "0000000000000000000000000000000000000000",
        ),
    ];

    for (&string, expected) in strings.iter().zip(&expected) {
        let parsed = SourceGitPinned::from_str(string).unwrap();
        assert!(source_git_pinned_eq(&parsed, expected));
        let serialized = expected.to_string();
        assert_eq!(&serialized, string);
    }
}

#[test]
fn round_trip_example() {
    let s = "git+https://example.com/foo/bar?reference=baz#64092602dd6158f3e41d775ed889389440a2cd86";
    let parsed = SourceGitPinned::from_str(s).unwrap();
    assert_eq!(parsed.source.repo, "https://example.com/foo/bar");
    assert_eq!(parsed.source.reference, "baz");
    assert_eq!(
        parsed.commit_hash,
        "64092602dd6158f3e41d775ed889389440a2cd86"
    );
    assert_eq!(parsed.to_string(), s);
}

#[test]
fn parse_trims_whitespace() {
    let s = "  git+https://example.com/a?reference=main#abc  ";
    let parsed = SourceGitPinned::from_str(s).unwrap();
    assert_eq!(parsed.source.repo, "https://example.com/a");
    assert_eq!(parsed.source.reference, "main");
    assert_eq!(parsed.commit_hash, "abc");
}

#[test]
fn parse_error_kinds() {
    assert!(matches!(
        SourceGitPinned::from_str("https://example.com/a?reference=b#c"),
        Err(SourceGitPinnedParseError::Prefix)
    ));
    assert!(matches!(
        SourceGitPinned::from_str("git+not a url?reference=b#c"),
        Err(SourceGitPinnedParseError::Url)
    ));
    assert!(matches!(
        SourceGitPinned::from_str("git+https://example.com/a?ref=b#c"),
        Err(SourceGitPinnedParseError::Reference)
    ));
    assert!(matches!(
        SourceGitPinned::from_str("git+https://example.com/a"),
        Err(SourceGitPinnedParseError::Reference)
    ));
    assert!(matches!(
        SourceGitPinned::from_str("git+https://example.com/a?reference=b"),
        Err(SourceGitPinnedParseError::CommitHash)
    ));
}

#[test]
fn pinned_id_deterministic() {
    let a = PinnedId::new(
        "std",
        &SourcePinned::Git(pinned("https://example.com/std", "v1", "abc")),
    );
    let b = PinnedId::new(
        "std",
        &SourcePinned::Git(pinned("https://example.com/std", "v1", "abc")),
    );
    assert_eq!(a, b);
}

#[test]
fn pinned_id_distinguishes_inputs() {
    let base = PinnedId::new("std", &SourcePinned::Path);
    let other_name = PinnedId::new("core", &SourcePinned::Path);
    let other_source = PinnedId::new(
        "std",
        &SourcePinned::Git(pinned("https://example.com/std", "v1", "abc")),
    );
    let other_commit = PinnedId::new(
        "std",
        &SourcePinned::Git(pinned("https://example.com/std", "v1", "abd")),
    );
    assert_ne!(base, other_name);
    assert_ne!(base, other_source);
    assert_ne!(other_source, other_commit);
}
