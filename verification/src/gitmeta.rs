//! Parsers for the git metadata the tool reads: the repository slug out of
//! the checkout's configuration text, and the default branch out of the
//! output of querying the `origin` remote. Running `git` happens outside the
//! library; these functions receive the captured text.

use vstd::prelude::*;
use vstd::string::StrSliceExecFns;
use vstd::string::StringExecFns;
use crate::text::contains_pat;
use crate::text::find_char;
use crate::text::find_pattern;
use crate::text::index_of_char;
use crate::text::index_of_pat;
use crate::text::lemma_index_of_pat;
use crate::text::matches_at;
use crate::text::pattern_at;

verus! {

/// A line with one trailing carriage return removed, the way `str::lines`
/// yields lines.
pub open spec fn strip_cr(l: Seq<char>) -> Seq<char> {
    if l.len() > 0 && l[l.len() - 1] == '\r' {
        l.drop_last()
    } else {
        l
    }
}

/// The segment of `line` between the first occurrence of `pat` and the next
/// occurrence after it (or the line's end): the second field of splitting
/// the line on `pat`.
pub open spec fn segment_after(line: Seq<char>, pat: Seq<char>) -> Seq<char> {
    let i = index_of_pat(line, pat, 0);
    let j = index_of_pat(line, pat, i + pat.len());
    line.subrange(i + pat.len(), j)
}

/// The marker value in a text: in the first line that contains `pat`, the
/// segment after `pat`; `None` when no line contains `pat`.
pub open spec fn marker_value_spec(s: Seq<char>, pat: Seq<char>) -> Option<Seq<char>>
    decreases s.len(),
{
    let nl = index_of_char(s, '\n', 0);
    if nl < 0 || nl >= s.len() {
        let line = strip_cr(s);
        if contains_pat(line, pat) {
            Some(segment_after(line, pat))
        } else {
            None
        }
    } else {
        let line = strip_cr(s.subrange(0, nl));
        if contains_pat(line, pat) {
            Some(segment_after(line, pat))
        } else {
            marker_value_spec(s.subrange(nl + 1, s.len() as int), pat)
        }
    }
}

/// Scans the text line by line for the first line containing `pat` and
/// returns the segment after `pat` in it, exactly as [`marker_value_spec`]
/// says.
pub fn marker_value(s: &str, pat: &str) -> (r: Option<String>)
    requires
        pat@.len() > 0,
    ensures
        r is Some <==> marker_value_spec(s@, pat@) is Some,
        r is Some ==> r->Some_0@ == marker_value_spec(s@, pat@)->Some_0,
{
    let mut cur: &str = s;
    loop
        invariant
            pat@.len() > 0,
            marker_value_spec(cur@, pat@) == marker_value_spec(s@, pat@),
        decreases cur@.len(),
    {
        let curlen: usize = cur.unicode_len();
        let nl = find_char(cur, '\n', 0);
        proof {
            crate::text::lemma_index_of_char(cur@, '\n', 0);
        }
        let mut end: usize = nl;
        if end > 0 && cur.get_char(end - 1) == '\r' {
            end = end - 1;
        }
        let line = cur.substring_char(0, end);
        proof {
            if nl >= curlen {
                assert(cur@.subrange(0, end as int) =~= strip_cr(cur@));
            } else {
                assert(cur@.subrange(0, end as int) =~= strip_cr(
                    cur@.subrange(0, nl as int),
                ));
            }
        }
        let linelen: usize = line.unicode_len();
        let idx = find_pattern(line, pat, 0);
        if idx < linelen {
            proof {
                lemma_index_of_pat(line@, pat@, 0);
            }
            let plen: usize = pat.unicode_len();
            let j = find_pattern(line, pat, idx + plen);
            proof {
                lemma_index_of_pat(line@, pat@, idx + plen);
            }
            let seg = line.substring_char(idx + plen, j);
            return Some(seg.to_owned());
        }
        if nl >= curlen {
            return None;
        }
        proof {
            assert(cur@.subrange(nl + 1, curlen as int) =~= cur@.subrange(
                nl + 1,
                cur@.len() as int,
            ));
        }
        cur = cur.substring_char(nl + 1, curlen);
    }
}

/// Errors of the git-metadata parsers: the marker line is absent, or the
/// remote URL has an unsupported shape.
#[derive(Clone, Copy, PartialEq, Eq, Structural, Debug)]
pub enum GitMetaError {
    RepoNotFound,
    UnsupportedUrl,
    DefaultBranchNotFound,
}

impl GitMetaError {
    /// A human-readable description of the error.
    pub fn message(&self) -> (r: &'static str)
        ensures
            *self == GitMetaError::RepoNotFound ==> r@ == "Could not find the repository."@,
            *self == GitMetaError::UnsupportedUrl ==> r@ == "Unsupported repo URL format."@,
            *self == GitMetaError::DefaultBranchNotFound ==> r@
                == "Could not find the default branch."@,
    {
        match self {
            GitMetaError::RepoNotFound => "Could not find the repository.",
            GitMetaError::UnsupportedUrl => "Unsupported repo URL format.",
            GitMetaError::DefaultBranchNotFound => "Could not find the default branch.",
        }
    }
}

/// The string starts with the given prefix.
pub open spec fn starts_with(s: Seq<char>, p: Seq<char>) -> bool {
    matches_at(s, p, 0)
}

/// The string ends with the given suffix.
pub open spec fn ends_with(s: Seq<char>, p: Seq<char>) -> bool {
    matches_at(s, p, s.len() - p.len())
}

/// The string with one trailing `.git` removed, when it has one.
pub open spec fn strip_dot_git(x: Seq<char>) -> Seq<char> {
    if ends_with(x, ".git"@) {
        x.subrange(0, x.len() - ".git"@.len())
    } else {
        x
    }
}

/// The repository slug (`OWNER/REPO`) of a remote URL: the URL with the
/// HTTPS or SSH GitHub host prefix and the `.git` suffix stripped; `None`
/// for any other shape.
pub open spec fn slug_of_url(u: Seq<char>) -> Option<Seq<char>> {
    if starts_with(u, "https://github.com/"@) {
        Some(strip_dot_git(u.subrange("https://github.com/"@.len() as int, u.len() as int)))
    } else if starts_with(u, "git@github.com:"@) {
        Some(strip_dot_git(u.subrange("git@github.com:"@.len() as int, u.len() as int)))
    } else {
        None
    }
}

/// Strips the GitHub host prefix and the `.git` suffix from a remote URL,
/// exactly as [`slug_of_url`] says.
pub fn repo_slug_of_url(u: &str) -> (r: Option<String>)
    ensures
        r is Some <==> slug_of_url(u@) is Some,
        r is Some ==> r->Some_0@ == slug_of_url(u@)->Some_0,
{
    let ulen: usize = u.unicode_len();
    let https = "https://github.com/";
    let ssh = "git@github.com:";
    if pattern_at(u, https, 0) {
        let plen: usize = https.unicode_len();
        let rest = u.substring_char(plen, ulen);
        Some(drop_dot_git(rest))
    } else if pattern_at(u, ssh, 0) {
        let plen: usize = ssh.unicode_len();
        let rest = u.substring_char(plen, ulen);
        Some(drop_dot_git(rest))
    } else {
        None
    }
}

/// Removes one trailing `.git`, exactly as [`strip_dot_git`] says.
fn drop_dot_git(x: &str) -> (r: String)
    ensures
        r@ == strip_dot_git(x@),
{
    let xlen: usize = x.unicode_len();
    let g = ".git";
    let glen: usize = g.unicode_len();
    if xlen >= glen && pattern_at(x, g, xlen - glen) {
        x.substring_char(0, xlen - glen).to_owned()
    } else {
        x.to_owned()
    }
}

/// Reads the repository slug out of the checkout's configuration text: the
/// first line containing `url = ` names the remote, whose URL must have the
/// HTTPS or SSH GitHub shape.
pub fn repo_slug_from_git_config(text: &str) -> (r: Result<String, GitMetaError>)
    ensures
        match marker_value_spec(text@, "url = "@) {
            Some(u) => match slug_of_url(u) {
                Some(sl) => r is Ok && r->Ok_0@ == sl,
                None => r == Err::<String, GitMetaError>(GitMetaError::UnsupportedUrl),
            },
            None => r == Err::<String, GitMetaError>(GitMetaError::RepoNotFound),
        },
{
    proof {
        reveal_strlit("url = ");
    }
    match marker_value(text, "url = ") {
        None => Err(GitMetaError::RepoNotFound),
        Some(url) => match repo_slug_of_url(url.as_str()) {
            Some(slug) => Ok(slug),
            None => Err(GitMetaError::UnsupportedUrl),
        },
    }
}

/// Reads the default branch out of the output of querying the `origin`
/// remote: the segment after `HEAD branch: ` in the first line carrying that
/// marker.
pub fn default_branch_from_remote(text: &str) -> (r: Result<String, GitMetaError>)
    ensures
        match marker_value_spec(text@, "HEAD branch: "@) {
            Some(b) => r is Ok && r->Ok_0@ == b,
            None => r == Err::<String, GitMetaError>(GitMetaError::DefaultBranchNotFound),
        },
{
    proof {
        reveal_strlit("HEAD branch: ");
    }
    match marker_value(text, "HEAD branch: ") {
        None => Err(GitMetaError::DefaultBranchNotFound),
        Some(b) => Ok(b),
    }
}

/// What a finished external process means: its standard output on success,
/// its standard error as the failure report otherwise.
pub fn command_verdict(success: bool, stdout: String, stderr: String) -> (r: Result<
    String,
    String,
>)
    ensures
        r is Ok <==> success,
        success ==> r->Ok_0 == stdout,
        !success ==> r->Err_0 == stderr,
{
    if success {
        Ok(stdout)
    } else {
        Err(stderr)
    }
}

/// Slug extraction is format-agnostic: wrapping any slug in the HTTPS form
/// or in the SSH form yields that slug back, so the two forms of the same
/// remote always agree.
pub proof fn lemma_slug_extraction_format_agnostic(s: Seq<char>)
    ensures
        slug_of_url("https://github.com/"@ + s + ".git"@) == Some(s),
        slug_of_url("git@github.com:"@ + s + ".git"@) == Some(s),
{
    reveal_strlit("https://github.com/");
    reveal_strlit("git@github.com:");
    reveal_strlit(".git");
    let hp = "https://github.com/"@;
    let sp = "git@github.com:"@;
    let g = ".git"@;
    let hu = hp + s + g;
    let su = sp + s + g;
    assert(hu.subrange(0, hp.len() as int) =~= hp);
    assert(starts_with(hu, hp));
    let hrest = hu.subrange(hp.len() as int, hu.len() as int);
    assert(hrest =~= s + g);
    assert(hrest.subrange(hrest.len() - g.len(), hrest.len() as int) =~= g);
    assert(ends_with(hrest, g));
    assert(hrest.subrange(0, hrest.len() - g.len()) =~= s);
    assert(su.len() >= hp.len());
    assert(su[0] == 'g');
    assert(!starts_with(su, hp)) by {
        assert(su.subrange(0, hp.len() as int)[0] == 'g');
        assert(hp[0] == 'h');
    }
    assert(su.subrange(0, sp.len() as int) =~= sp);
    assert(starts_with(su, sp));
    let srest = su.subrange(sp.len() as int, su.len() as int);
    assert(srest =~= s + g);
    assert(srest.subrange(srest.len() - g.len(), srest.len() as int) =~= g);
    assert(ends_with(srest, g));
    assert(srest.subrange(0, srest.len() - g.len()) =~= s);
}

} // verus!
