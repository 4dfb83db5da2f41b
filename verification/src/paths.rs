//! Deterministic locations in the git checkout cache, and the fetch
//! identifier that keeps concurrent build attempts out of each other's
//! scratch space.
//!
//! The cache root is an explicit argument rather than ambient state, so
//! callers (and tests) can work against isolated roots. The layout is
//! `<cache-root>/<name>-<hash(repo-url)>/<commit-hash>/` for resolved
//! checkouts and `<cache-root>/tmp/<fetch-id>-<name>-<hash(repo-url)>/` for
//! scratch clones.

use vstd::prelude::*;

use crate::hashing::fnv_chars;
use crate::hashing::fnv_str;
use crate::hashing::fnv_u64;
use crate::hashing::spec_fnv_u64;
use crate::hashing::FNV_OFFSET;
use crate::text::hex_chars;
use crate::text::to_hex;

verus! {

/// The fingerprint of a repository URL's text.
pub open spec fn spec_hash_url(url: Seq<char>) -> u64 {
    fnv_chars(FNV_OFFSET, url)
}

/// Fingerprint a repository URL.
pub fn hash_url(url: &str) -> (r: u64)
    ensures
        r == spec_hash_url(url@),
{
    fnv_str(FNV_OFFSET, url)
}

/// The directory name of a package's repository in the checkout cache:
/// `<name>-<hash(repo-url)>`.
pub open spec fn spec_git_repo_dir_name(name: Seq<char>, repo: Seq<char>) -> Seq<char> {
    name + "-"@ + hex_chars(spec_hash_url(repo))
}

/// The name to use for a package's git repository under the checkout cache.
pub fn git_repo_dir_name(name: &str, repo: &str) -> (r: String)
    ensures
        r@ == spec_git_repo_dir_name(name@, repo@),
{
    let h = hash_url(repo);
    let mut s: String = name.to_owned();
    s.append("-");
    let hx = to_hex(h);
    s.append(hx.as_str());
    s
}

/// The path a pinned git commit is checked out to:
/// `<cache-root>/<name>-<hash(repo-url)>/<commit-hash>`.
pub open spec fn spec_git_commit_path(
    cache_root: Seq<char>,
    name: Seq<char>,
    repo: Seq<char>,
    commit_hash: Seq<char>,
) -> Seq<char> {
    cache_root + "/"@ + spec_git_repo_dir_name(name, repo) + "/"@ + commit_hash
}

/// The path to which a git package commit is checked out.
pub fn git_commit_path(cache_root: &str, name: &str, repo: &str, commit_hash: &str) -> (r:
    String)
    ensures
        r@ == spec_git_commit_path(cache_root@, name@, repo@, commit_hash@),
{
    let mut s: String = cache_root.to_owned();
    s.append("/");
    let dir = git_repo_dir_name(name, repo);
    s.append(dir.as_str());
    s.append("/");
    s.append(commit_hash);
    s
}

/// The scratch directory for cloning a package's repository:
/// `<cache-root>/tmp/<fetch-id>-<name>-<hash(repo-url)>`.
pub open spec fn spec_tmp_git_repo_dir(
    cache_root: Seq<char>,
    fetch_id: u64,
    name: Seq<char>,
    repo: Seq<char>,
) -> Seq<char> {
    cache_root + "/tmp/"@ + hex_chars(fetch_id) + "-"@ + spec_git_repo_dir_name(name, repo)
}

/// A temporary directory for cloning a git-sourced package's repository and
/// discovering the commit behind a reference. The fetch identifier keeps
/// concurrent build attempts from contending over it.
pub fn tmp_git_repo_dir(cache_root: &str, fetch_id: u64, name: &str, repo: &str) -> (r: String)
    ensures
        r@ == spec_tmp_git_repo_dir(cache_root@, fetch_id, name@, repo@),
{
    let mut s: String = cache_root.to_owned();
    s.append("/tmp/");
    let hx = to_hex(fetch_id);
    s.append(hx.as_str());
    s.append("-");
    let dir = git_repo_dir_name(name, repo);
    s.append(dir.as_str());
    s
}

/// The identifier of one fetch pass, from the root project's path and a
/// caller-supplied timestamp.
pub open spec fn spec_fetch_id(path: Seq<char>, timestamp: u64) -> u64 {
    spec_fnv_u64(fnv_chars(FNV_OFFSET, path), timestamp)
}

/// Produce a unique ID for a particular fetch pass. The timestamp (an
/// arbitrary tick count supplied by the caller) distinguishes one build
/// attempt's scratch space from another's.
pub fn fetch_id(path: &str, timestamp: u64) -> (r: u64)
    ensures
        r == spec_fetch_id(path@, timestamp),
{
    let h = fnv_str(FNV_OFFSET, path);
    fnv_u64(h, timestamp)
}

} // verus!
