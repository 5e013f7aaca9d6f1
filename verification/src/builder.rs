//! The configuration builder: the rules that turn user-typed text into a
//! commit message, a branch name and a pull-request title.
//!
//! Prompting happens outside the library; these functions receive the typed
//! strings and derive everything else deterministically. The derivation is
//! specified over character sequences: trimming of the optional scope, the
//! `type: name` / `type(scope): name` commit-message formats, the
//! `type/slug` branch format, and the ticket suffix `[FIRST-NUMBER]` that is
//! appended to the title when the slug's second `-`-separated segment is a
//! number.

use vstd::prelude::*;
use vstd::string::StrSliceExecFns;
use vstd::string::StringExecFns;
use crate::text::index_of_char;
use crate::text::is_u32_numeral;
use crate::text::lemma_index_of_char;
use crate::text::parses_as_u32;
use crate::text::str_eq;
use crate::text::to_upper;
use crate::text::trim;
use crate::text::trim_spec;
use crate::text::upper_of;

verus! {

/// The fixed enumeration of recognized commit types.
#[derive(Clone, Copy, PartialEq, Eq, Structural, Debug)]
pub enum CommitType {
    Feat,
    Fix,
    Change,
    Refactor,
    Chore,
    Test,
    Docs,
    Ci,
    Remove,
    Perf,
    Revert,
}

/// The keyword of a commit type, as it appears in commit messages and branch
/// names.
pub open spec fn keyword_spec(t: CommitType) -> Seq<char> {
    match t {
        CommitType::Feat => "feat"@,
        CommitType::Fix => "fix"@,
        CommitType::Change => "change"@,
        CommitType::Refactor => "refactor"@,
        CommitType::Chore => "chore"@,
        CommitType::Test => "test"@,
        CommitType::Docs => "docs"@,
        CommitType::Ci => "ci"@,
        CommitType::Remove => "remove"@,
        CommitType::Perf => "perf"@,
        CommitType::Revert => "revert"@,
    }
}

/// The menu line shown for a commit type: its keyword padded to a column,
/// then a short description.
pub open spec fn label_spec(t: CommitType) -> Seq<char> {
    match t {
        CommitType::Feat => "feat        Add a new feature"@,
        CommitType::Fix => "fix         Correct a bug or error"@,
        CommitType::Change => "change      Change an existing feature"@,
        CommitType::Refactor => "refactor    Restructure existing code without altering the product behavior"@,
        CommitType::Chore => "chore       Routine task, maintenance, or project management that does not directly modify the source code"@,
        CommitType::Test => "test        Add missing tests or correcting existing tests"@,
        CommitType::Docs => "docs        Update or create documentation"@,
        CommitType::Ci => "ci          Changes related to continuous integration or build environment configuration"@,
        CommitType::Remove => "remove      Removal of obsolete or unnecessary code, files, or features"@,
        CommitType::Perf => "perf        Improvement of code performance without changing its external behavior"@,
        CommitType::Revert => "revert      Complete or partial reversal of a previous commit"@,
    }
}

impl CommitType {
    /// The keyword of this commit type.
    pub fn keyword(&self) -> (r: &'static str)
        ensures
            r@ == keyword_spec(*self),
    {
        match self {
            CommitType::Feat => "feat",
            CommitType::Fix => "fix",
            CommitType::Change => "change",
            CommitType::Refactor => "refactor",
            CommitType::Chore => "chore",
            CommitType::Test => "test",
            CommitType::Docs => "docs",
            CommitType::Ci => "ci",
            CommitType::Remove => "remove",
            CommitType::Perf => "perf",
            CommitType::Revert => "revert",
        }
    }

    /// The menu line shown for this commit type.
    pub fn label(&self) -> (r: &'static str)
        ensures
            r@ == label_spec(*self),
    {
        match self {
            CommitType::Feat => "feat        Add a new feature",
            CommitType::Fix => "fix         Correct a bug or error",
            CommitType::Change => "change      Change an existing feature",
            CommitType::Refactor => "refactor    Restructure existing code without altering the product behavior",
            CommitType::Chore => "chore       Routine task, maintenance, or project management that does not directly modify the source code",
            CommitType::Test => "test        Add missing tests or correcting existing tests",
            CommitType::Docs => "docs        Update or create documentation",
            CommitType::Ci => "ci          Changes related to continuous integration or build environment configuration",
            CommitType::Remove => "remove      Removal of obsolete or unnecessary code, files, or features",
            CommitType::Perf => "perf        Improvement of code performance without changing its external behavior",
            CommitType::Revert => "revert      Complete or partial reversal of a previous commit",
        }
    }
}

/// The commit types in the order the menu presents them.
pub open spec fn commit_types_order() -> Seq<CommitType> {
    seq![
        CommitType::Feat,
        CommitType::Fix,
        CommitType::Change,
        CommitType::Refactor,
        CommitType::Chore,
        CommitType::Test,
        CommitType::Docs,
        CommitType::Ci,
        CommitType::Remove,
        CommitType::Perf,
        CommitType::Revert,
    ]
}

/// All commit types, in menu order.
pub fn commit_types() -> (r: Vec<CommitType>)
    ensures
        r@ == commit_types_order(),
{
    let mut v: Vec<CommitType> = Vec::new();
    v.push(CommitType::Feat);
    v.push(CommitType::Fix);
    v.push(CommitType::Change);
    v.push(CommitType::Refactor);
    v.push(CommitType::Chore);
    v.push(CommitType::Test);
    v.push(CommitType::Docs);
    v.push(CommitType::Ci);
    v.push(CommitType::Remove);
    v.push(CommitType::Perf);
    v.push(CommitType::Revert);
    proof {
        assert(v@ =~= commit_types_order());
    }
    v
}

/// A required free-text input is valid exactly when it is non-empty.
pub fn not_empty(s: &str) -> (r: bool)
    ensures
        r == (s@.len() > 0),
{
    s.unicode_len() > 0
}

/// The derived commit message: `type(scope): name` when a scope is given and
/// is not blank after trimming, `type: name` otherwise. The name is trimmed
/// as well.
pub open spec fn commit_message_spec(
    t: CommitType,
    scope: Option<Seq<char>>,
    name: Seq<char>,
) -> Seq<char> {
    let n = trim_spec(name);
    match scope {
        Some(sc) => if trim_spec(sc).len() > 0 {
            keyword_spec(t) + "("@ + trim_spec(sc) + "): "@ + n
        } else {
            keyword_spec(t) + ": "@ + n
        },
        None => keyword_spec(t) + ": "@ + n,
    }
}

/// Formats the commit message from the chosen type, the optional scope and
/// the commit name, trimming the scope and the name.
pub fn derive_commit_message(t: CommitType, scope: Option<&str>, name: &str) -> (r: String)
    ensures
        r@ == commit_message_spec(
            t,
            match scope {
                Some(sc) => Some(sc@),
                None => None,
            },
            name@,
        ),
{
    let n = trim(name);
    let mut out = t.keyword().to_owned();
    match scope {
        Some(sc) => {
            let sct = trim(sc);
            if sct.unicode_len() > 0 {
                out.append("(");
                out.append(sct);
                out.append("): ");
                out.append(n);
            } else {
                out.append(": ");
                out.append(n);
            }
        },
        None => {
            out.append(": ");
            out.append(n);
        },
    }
    out
}

/// The derived branch name: `type/slug`.
pub open spec fn branch_spec(t: CommitType, slug: Seq<char>) -> Seq<char> {
    keyword_spec(t) + "/"@ + slug
}

/// The derived pull-request title. When the slug's second `-`-separated
/// segment is a number, the ticket suffix ` [FIRST-NUMBER]` is appended to
/// the commit message, with the first segment uppercased; otherwise the
/// title is the commit message unchanged.
pub open spec fn title_spec(slug: Seq<char>, msg: Seq<char>) -> Seq<char> {
    let i = index_of_char(slug, '-', 0);
    if i == slug.len() {
        msg
    } else {
        let j = index_of_char(slug, '-', i + 1);
        let second = slug.subrange(i + 1, j);
        if parses_as_u32(second) {
            msg + " ["@ + upper_of(slug.subrange(0, i)) + "-"@ + second + "]"@
        } else {
            msg
        }
    }
}

/// Derives the branch name and the pull-request title from the slug, the
/// commit type and the commit message.
pub fn derive_branch_and_title(slug: &str, t: CommitType, commit_message: &str) -> (r: (
    String,
    String,
))
    ensures
        r.0@ == branch_spec(t, slug@),
        r.1@ == title_spec(slug@, commit_message@),
{
    let mut branch = t.keyword().to_owned();
    branch.append("/");
    branch.append(slug);

    let len: usize = slug.unicode_len();
    let i = crate::text::find_char(slug, '-', 0);
    proof {
        lemma_index_of_char(slug@, '-', 0);
    }
    let title = if i == len {
        commit_message.to_owned()
    } else {
        let j = crate::text::find_char(slug, '-', i + 1);
        proof {
            lemma_index_of_char(slug@, '-', i + 1);
        }
        let second = slug.substring_char(i + 1, j);
        if is_u32_numeral(second) {
            let first = slug.substring_char(0, i);
            let up = to_upper(first);
            let mut tl = commit_message.to_owned();
            tl.append(" [");
            tl.append(up.as_str());
            tl.append("-");
            tl.append(second);
            tl.append("]");
            tl
        } else {
            commit_message.to_owned()
        }
    };
    (branch, title)
}

/// The ticket rule in full generality. In a slug of the shape
/// `first-second` or `first-second-rest`, where neither `first` nor `second`
/// holds a `-`, the title gains the suffix ` [FIRST-second]` exactly when
/// `second` is a number; the first segment is uppercased, never the rest.
pub proof fn lemma_ticket_rule(
    first: Seq<char>,
    second: Seq<char>,
    rest: Seq<char>,
    msg: Seq<char>,
)
    requires
        forall|i: int| 0 <= i < first.len() ==> first[i] != '-',
        forall|i: int| 0 <= i < second.len() ==> second[i] != '-',
    ensures
        title_spec(first + seq!['-'] + second + seq!['-'] + rest, msg) == if parses_as_u32(
            second,
        ) {
            msg + " ["@ + upper_of(first) + "-"@ + second + "]"@
        } else {
            msg
        },
        title_spec(first + seq!['-'] + second, msg) == if parses_as_u32(second) {
            msg + " ["@ + upper_of(first) + "-"@ + second + "]"@
        } else {
            msg
        },
{
    let flen = first.len() as int;
    let slen = second.len() as int;
    let slug3 = first + seq!['-'] + second + seq!['-'] + rest;
    assert(slug3.len() == flen + slen + rest.len() + 2);
    assert forall|k: int| 0 <= k < flen implies slug3[k] != '-' by {
        assert(slug3[k] == first[k]);
    }
    assert(slug3[flen] == '-');
    crate::text::lemma_index_of_char_at(slug3, '-', 0, flen);
    assert forall|k: int| flen + 1 <= k < flen + 1 + slen implies slug3[k] != '-' by {
        assert(slug3[k] == second[k - flen - 1]);
    }
    assert(slug3[flen + 1 + slen] == '-');
    crate::text::lemma_index_of_char_at(slug3, '-', flen + 1, flen + 1 + slen);
    assert(slug3.subrange(flen + 1, flen + 1 + slen) =~= second);
    assert(slug3.subrange(0, flen) =~= first);

    let slug2 = first + seq!['-'] + second;
    assert(slug2.len() == flen + slen + 1);
    assert forall|k: int| 0 <= k < flen implies slug2[k] != '-' by {
        assert(slug2[k] == first[k]);
    }
    assert(slug2[flen] == '-');
    crate::text::lemma_index_of_char_at(slug2, '-', 0, flen);
    assert forall|k: int| flen + 1 <= k < slug2.len() implies slug2[k] != '-' by {
        assert(slug2[k] == second[k - flen - 1]);
    }
    crate::text::lemma_index_of_char_at(slug2, '-', flen + 1, slug2.len() as int);
    assert(slug2.subrange(flen + 1, slug2.len() as int) =~= second);
    assert(slug2.subrange(0, flen) =~= first);
}

/// The run's configuration: the pull-request title, the branch name, and the
/// commit type they were derived with. Title and branch are only ever
/// constructed together, by [`Config::assemble`].
pub struct Config {
    pub pr_name: String,
    pub branch: String,
    pub commit_type: CommitType,
}

impl Config {
    /// The configuration is exactly what the derivation rules produce from a
    /// slug, an optional scope and a commit name.
    pub open spec fn derived_from(
        self,
        slug: Seq<char>,
        scope: Option<Seq<char>>,
        name: Seq<char>,
    ) -> bool {
        &&& self.branch@ == branch_spec(self.commit_type, slug)
        &&& self.pr_name@ == title_spec(slug, commit_message_spec(self.commit_type, scope, name))
    }

    /// Builds the configuration from the collected inputs: the commit
    /// message from type, scope and name, then the branch and title from the
    /// slug.
    pub fn assemble(slug: &str, t: CommitType, scope: Option<&str>, name: &str) -> (c: Config)
        ensures
            c.commit_type == t,
            c.derived_from(
                slug@,
                match scope {
                    Some(sc) => Some(sc@),
                    None => None,
                },
                name@,
            ),
    {
        let msg = derive_commit_message(t, scope, name);
        let (branch, title) = derive_branch_and_title(slug, t, msg.as_str());
        Config { pr_name: title, branch, commit_type: t }
    }

    /// The summary shown before the run is confirmed: the five actions about
    /// to be taken, naming the branch and the title.
    pub fn confirm_summary(&self) -> (r: String)
        ensures
            r@ == "This will:\n1. Create a branch called "@ + self.branch@
                + ".\n2. Create an empty commit.\n3. Push to the remote repository.\n4. Create a pull request named "@
                + self.pr_name@ + ".\n5. Assign you the pull request."@,
    {
        let mut out = "This will:\n1. Create a branch called ".to_owned();
        out.append(self.branch.as_str());
        out.append(
            ".\n2. Create an empty commit.\n3. Push to the remote repository.\n4. Create a pull request named ",
        );
        out.append(self.pr_name.as_str());
        out.append(".\n5. Assign you the pull request.");
        out
    }
}

/// Only the trimmed scope reaches the commit message: a scope and its
/// trimmed form derive the same message, and an all-whitespace scope behaves
/// exactly as an absent one.
pub proof fn lemma_scope_trimming(t: CommitType, s: Seq<char>, n: Seq<char>)
    ensures
        commit_message_spec(t, Some(s), n) == commit_message_spec(t, Some(trim_spec(s)), n),
        crate::text::is_blank(s) ==> commit_message_spec(t, Some(s), n) == commit_message_spec(
            t,
            None,
            n,
        ),
{
    crate::text::lemma_trim_idempotent(s);
}

/// The per-tool directory under the user's home directory and the two
/// credential files in it: the token and the default pull-request
/// description.
pub fn credential_paths(home: &str) -> (r: (String, String, String))
    ensures
        r.0@ == home@ + "/.ghl"@,
        r.1@ == home@ + "/.ghl"@ + "/token"@,
        r.2@ == home@ + "/.ghl"@ + "/desc.md"@,
{
    let mut dir = home.to_owned();
    dir.append("/.ghl");
    let mut token_path = dir.clone();
    token_path.append("/token");
    let mut desc_path = dir.clone();
    desc_path.append("/desc.md");
    (dir, token_path, desc_path)
}

/// What the token prompt's answer means for the stored token: `None` when
/// the prompt was cancelled or left empty (skip, leave the file untouched),
/// otherwise the trimmed token to write.
pub fn token_store_decision(input: Option<String>) -> (r: Option<String>)
    ensures
        r is Some <==> (input is Some && input->Some_0@.len() > 0),
        r is Some ==> r->Some_0@ == trim_spec(input->Some_0@),
{
    match input {
        None => None,
        Some(t) => {
            if t.as_str().unicode_len() == 0 {
                None
            } else {
                Some(trim(t.as_str()).to_owned())
            }
        },
    }
}

/// What the description prompt's answer means for the stored default
/// description: `None` when the prompt was cancelled, left empty, or equal
/// to the current description (skip, leave the file untouched), otherwise
/// the new description to write.
pub fn desc_store_decision(current: &str, input: Option<String>) -> (r: Option<String>)
    ensures
        r is Some <==> (input is Some && input->Some_0@.len() > 0 && input->Some_0@ != current@),
        r is Some ==> r->Some_0@ == input->Some_0@,
{
    match input {
        None => None,
        Some(d) => {
            if d.as_str().unicode_len() == 0 {
                None
            } else if str_eq(d.as_str(), current) {
                None
            } else {
                Some(d)
            }
        },
    }
}

} // verus!
