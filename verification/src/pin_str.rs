//! The textual form of a pinned git source:
//! `git+<repository-url>?reference=<reference>#<commit-hash>`.
//!
//! Parsing requires the literal prefix `git+`, a `?reference=` marker before
//! the reference, and a `#` separating the reference from the commit hash.
//! For well-formed inputs, parsing then re-serializing reproduces the
//! original string exactly; both directions are proved below.

use vstd::prelude::*;

use crate::error::SourceGitPinnedParseError;
use crate::source::SourceGit;
use crate::source::SourceGitPinned;
use crate::source::SourceGitPinnedView;
use crate::source::SourceGitView;
use crate::text::contains_char;
use crate::text::find_char;
use crate::text::first_index_of;
use crate::text::has_prefix;
use crate::text::starts_with;
use crate::text::trim;
use crate::text::trim_chars;

verus! {

/// Whether the URL parser accepts `s` as an absolute URL.
pub uninterp spec fn url_ok(s: Seq<char>) -> bool;

/// Relies on `url::Url::parse`: whether a string parses as an absolute URL
/// is a function of its characters alone.
#[verifier::external_body]
pub fn url_is_valid(s: &str) -> (r: bool)
    ensures
        r == url_ok(s@),
{
    url::Url::parse(s).is_ok()
}

/// The serialized form of a pinned git source.
pub open spec fn git_pinned_chars(v: SourceGitPinnedView) -> Seq<char> {
    "git+"@ + v.source.repo + seq!['?'] + "reference="@ + v.source.reference + seq!['#']
        + v.commit_hash
}

/// Everything after the `git+` prefix. Meaningful only when the prefix is
/// present.
pub open spec fn after_prefix(t: Seq<char>) -> Seq<char> {
    t.subrange(4, t.len() as int)
}

/// Where the repository text ends: at the first `?`, or at the end of the
/// string when there is none.
pub open spec fn repo_cut(u: Seq<char>) -> int {
    if contains_char(u, '?') {
        first_index_of(u, '?')
    } else {
        u.len() as int
    }
}

/// The repository text.
pub open spec fn repo_part(u: Seq<char>) -> Seq<char> {
    u.subrange(0, repo_cut(u))
}

/// Everything after the first `?`. Meaningful only when a `?` is present.
pub open spec fn query_part(u: Seq<char>) -> Seq<char> {
    u.subrange(repo_cut(u) + 1, u.len() as int)
}

/// Whether the `?reference=` marker follows the repository text.
pub open spec fn marker_ok(u: Seq<char>) -> bool {
    contains_char(u, '?') && starts_with(query_part(u), "reference="@)
}

/// The text following the `?reference=` marker. Meaningful only when the
/// marker is present.
pub open spec fn payload_part(u: Seq<char>) -> Seq<char> {
    query_part(u).subrange(10, query_part(u).len() as int)
}

/// The reference text: the payload up to the first `#`. Meaningful only
/// when a `#` is present.
pub open spec fn reference_part(u: Seq<char>) -> Seq<char> {
    payload_part(u).subrange(0, first_index_of(payload_part(u), '#'))
}

/// The payload after the first `#`.
pub open spec fn after_hash_part(u: Seq<char>) -> Seq<char> {
    payload_part(u).subrange(
        first_index_of(payload_part(u), '#') + 1,
        payload_part(u).len() as int,
    )
}

/// The commit hash: what follows the first `#`, up to a second `#` when one
/// occurs.
pub open spec fn commit_part(u: Seq<char>) -> Seq<char> {
    after_hash_part(u).subrange(0, repo_cut_hash(after_hash_part(u)))
}

/// Where the commit hash ends: at the next `#`, or at the end.
pub open spec fn repo_cut_hash(w: Seq<char>) -> int {
    if contains_char(w, '#') {
        first_index_of(w, '#')
    } else {
        w.len() as int
    }
}

/// Whether the trimmed string has all the markers the format requires.
pub open spec fn shape_ok(t: Seq<char>) -> bool {
    &&& starts_with(t, "git+"@)
    &&& contains_char(after_prefix(t), '?')
    &&& marker_ok(after_prefix(t))
    &&& contains_char(payload_part(after_prefix(t)), '#')
}

/// The components a well-shaped string parses to.
pub open spec fn parsed_git_view(t: Seq<char>) -> SourceGitPinnedView {
    SourceGitPinnedView {
        source: SourceGitView {
            repo: repo_part(after_prefix(t)),
            reference: reference_part(after_prefix(t)),
        },
        commit_hash: commit_part(after_prefix(t)),
    }
}

impl SourceGitPinned {
    /// Serialize as `git+<repo>?reference=<reference>#<commit-hash>`.
    #[allow(clippy::inherent_to_string)]
    pub fn to_string(&self) -> (r: String)
        ensures
            r@ == git_pinned_chars(self@),
    {
        let mut s: String = "git+".to_owned();
        s.append(self.source.repo.as_str());
        s.append("?reference=");
        s.append(self.source.reference.as_str());
        s.append("#");
        s.append(self.commit_hash.as_str());
        proof {
            reveal_strlit("git+");
            reveal_strlit("?reference=");
            reveal_strlit("reference=");
            reveal_strlit("#");
            assert("?reference="@ =~= seq!['?'] + "reference="@);
            assert("#"@ =~= seq!['#']);
            assert(s@ =~= git_pinned_chars(self@));
        }
        s
    }

    /// Parse the `git+<repo>?reference=<reference>#<commit-hash>` form, after
    /// trimming surrounding whitespace.
    ///
    /// Exactly one error is reported per failure, in the order the string is
    /// examined: a missing `git+` prefix, an unparseable repository URL, a
    /// missing `?reference=` marker, then a missing `#` commit separator.
    pub fn from_str(s: &str) -> (r: Result<SourceGitPinned, SourceGitPinnedParseError>)
        ensures
            ({
                let t = trim_chars(s@);
                let u = after_prefix(t);
                &&& (r matches Err(SourceGitPinnedParseError::Prefix) <==> !starts_with(
                    t,
                    "git+"@,
                ))
                &&& starts_with(t, "git+"@) ==> ((r matches Err(
                    SourceGitPinnedParseError::Url,
                )) <==> !url_ok(repo_part(u)))
                &&& (starts_with(t, "git+"@) && url_ok(repo_part(u))) ==> ((r matches Err(
                    SourceGitPinnedParseError::Reference,
                )) <==> !marker_ok(u))
                &&& (starts_with(t, "git+"@) && url_ok(repo_part(u)) && marker_ok(u)) ==> ((
                r matches Err(SourceGitPinnedParseError::CommitHash)) <==> !contains_char(
                    payload_part(u),
                    '#',
                ))
                &&& (r is Ok <==> shape_ok(t) && url_ok(repo_part(u)))
                &&& (r matches Ok(p) ==> p@ == parsed_git_view(t))
            }),
    {
        let t = trim(s);
        proof {
            reveal_strlit("git+");
        }
        if !has_prefix(t, "git+") {
            return Err(SourceGitPinnedParseError::Prefix);
        }
        let n = t.unicode_len();
        let u = t.substring_char(4, n);
        let un = u.unicode_len();
        proof {
            assert(u@ =~= after_prefix(t@));
        }
        let qopt = find_char(u, '?');
        let cut: usize = match qopt {
            Some(q) => q,
            None => un,
        };
        let repo = u.substring_char(0, cut);
        proof {
            assert(repo@ =~= repo_part(u@));
        }
        if !url_is_valid(repo) {
            return Err(SourceGitPinnedParseError::Url);
        }
        let q: usize = match qopt {
            Some(q) => q,
            None => {
                return Err(SourceGitPinnedParseError::Reference);
            },
        };
        let tail = u.substring_char(q + 1, un);
        proof {
            assert(tail@ =~= query_part(u@));
            reveal_strlit("reference=");
        }
        if !has_prefix(tail, "reference=") {
            return Err(SourceGitPinnedParseError::Reference);
        }
        let tn = tail.unicode_len();
        let payload = tail.substring_char(10, tn);
        let pn = payload.unicode_len();
        proof {
            assert(payload@ =~= payload_part(u@));
        }
        let h: usize = match find_char(payload, '#') {
            Some(h) => h,
            None => {
                return Err(SourceGitPinnedParseError::CommitHash);
            },
        };
        let reference = payload.substring_char(0, h);
        let after = payload.substring_char(h + 1, pn);
        let an = after.unicode_len();
        proof {
            assert(reference@ =~= reference_part(u@));
            assert(after@ =~= after_hash_part(u@));
        }
        let ccut: usize = match find_char(after, '#') {
            Some(h2) => h2,
            None => an,
        };
        let commit = after.substring_char(0, ccut);
        proof {
            assert(commit@ =~= commit_part(u@));
        }
        Ok(
            SourceGitPinned {
                source: SourceGit { repo: repo.to_owned(), reference: reference.to_owned() },
                commit_hash: commit.to_owned(),
            },
        )
    }
}

/// Serializing components free of the format's separators, then parsing the
/// result, recovers the components exactly.
pub proof fn lemma_git_pinned_serialize_parse(v: SourceGitPinnedView)
    requires
        !contains_char(v.source.repo, '?'),
        !contains_char(v.source.reference, '#'),
        !contains_char(v.commit_hash, '#'),
    ensures
        shape_ok(git_pinned_chars(v)),
        parsed_git_view(git_pinned_chars(v)) == v,
{
    reveal_strlit("git+");
    reveal_strlit("reference=");
    let t = git_pinned_chars(v);
    let repo = v.source.repo;
    let refr = v.source.reference;
    let hash = v.commit_hash;
    assert(t.subrange(0, 4) =~= "git+"@);
    let u = after_prefix(t);
    assert(u =~= repo + seq!['?'] + "reference="@ + refr + seq!['#'] + hash);
    let rl = repo.len() as int;
    assert(u[rl] == '?');
    assert(forall|j: int| 0 <= j < rl ==> u[j] == repo[j]);
    crate::text::lemma_first_index_of(u, '?', rl);
    assert(repo_part(u) =~= repo);
    let tail = query_part(u);
    assert(tail =~= "reference="@ + refr + seq!['#'] + hash);
    assert(tail.subrange(0, 10) =~= "reference="@);
    let payload = payload_part(u);
    assert(payload =~= refr + seq!['#'] + hash);
    let fl = refr.len() as int;
    assert(payload[fl] == '#');
    assert(forall|j: int| 0 <= j < fl ==> payload[j] == refr[j]);
    crate::text::lemma_first_index_of(payload, '#', fl);
    assert(reference_part(u) =~= refr);
    let w = after_hash_part(u);
    assert(w =~= hash);
    assert(commit_part(u) =~= hash);
}

/// Parsing a well-shaped string whose commit hash runs to the end, then
/// serializing the parsed components, reproduces the string exactly.
pub proof fn lemma_git_pinned_parse_serialize(t: Seq<char>)
    requires
        shape_ok(t),
        !contains_char(after_hash_part(after_prefix(t)), '#'),
    ensures
        git_pinned_chars(parsed_git_view(t)) == t,
{
    reveal_strlit("git+");
    reveal_strlit("reference=");
    let u = after_prefix(t);
    let q = first_index_of(u, '?');
    crate::text::lemma_first_index_of_properties(u, '?');
    let tail = query_part(u);
    let payload = payload_part(u);
    let h = first_index_of(payload, '#');
    crate::text::lemma_first_index_of_properties(payload, '#');
    let w = after_hash_part(u);
    assert(git_pinned_chars(parsed_git_view(t)) =~= t);
}

} // verus!
