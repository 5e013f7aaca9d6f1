//! Shaping of the GitHub API requests: endpoint URLs, the authorization
//! header value, and the JSON request bodies, framed and escaped by the
//! library itself. Sending the requests and decoding the responses happens
//! outside the library.

use vstd::prelude::*;
use vstd::string::StrSliceExecFns;
use vstd::string::StringExecFns;
use crate::text::find_last_char;
use crate::text::last_index_of_char;
use crate::text::lemma_last_index_of_char_bounds;
use crate::text::push_char;

verus! {

/// The lowercase hexadecimal digit of a value below 16.
pub open spec fn hex_digit(n: nat) -> char {
    if n == 0 {
        '0'
    } else if n == 1 {
        '1'
    } else if n == 2 {
        '2'
    } else if n == 3 {
        '3'
    } else if n == 4 {
        '4'
    } else if n == 5 {
        '5'
    } else if n == 6 {
        '6'
    } else if n == 7 {
        '7'
    } else if n == 8 {
        '8'
    } else if n == 9 {
        '9'
    } else if n == 10 {
        'a'
    } else if n == 11 {
        'b'
    } else if n == 12 {
        'c'
    } else if n == 13 {
        'd'
    } else if n == 14 {
        'e'
    } else {
        'f'
    }
}

fn hex_digit_char(n: u32) -> (r: char)
    requires
        n < 16,
    ensures
        r == hex_digit(n as nat),
{
    if n == 0 {
        '0'
    } else if n == 1 {
        '1'
    } else if n == 2 {
        '2'
    } else if n == 3 {
        '3'
    } else if n == 4 {
        '4'
    } else if n == 5 {
        '5'
    } else if n == 6 {
        '6'
    } else if n == 7 {
        '7'
    } else if n == 8 {
        '8'
    } else if n == 9 {
        '9'
    } else if n == 10 {
        'a'
    } else if n == 11 {
        'b'
    } else if n == 12 {
        'c'
    } else if n == 13 {
        'd'
    } else if n == 14 {
        'e'
    } else {
        'f'
    }
}

/// How one character reads inside a JSON string literal: quote and backslash
/// escaped, the common control characters by their short escapes, any other
/// control character as `\u00XX`, and everything else as itself.
pub open spec fn escaped_char(c: char) -> Seq<char> {
    if c == '"' {
        seq!['\\', '"']
    } else if c == '\\' {
        seq!['\\', '\\']
    } else if c == '\u{8}' {
        seq!['\\', 'b']
    } else if c == '\t' {
        seq!['\\', 't']
    } else if c == '\n' {
        seq!['\\', 'n']
    } else if c == '\u{c}' {
        seq!['\\', 'f']
    } else if c == '\r' {
        seq!['\\', 'r']
    } else if (c as u32) < 0x20 {
        seq!['\\', 'u', '0', '0', hex_digit((c as u32 / 16) as nat), hex_digit(
            (c as u32 % 16) as nat,
        )]
    } else {
        seq![c]
    }
}

/// A string as it reads inside a JSON string literal.
pub open spec fn json_escaped(s: Seq<char>) -> Seq<char>
    decreases s.len(),
{
    if s.len() == 0 {
        Seq::empty()
    } else {
        escaped_char(s[0]) + json_escaped(s.drop_first())
    }
}

pub proof fn lemma_json_escaped_push(s: Seq<char>, c: char)
    ensures
        json_escaped(s.push(c)) == json_escaped(s) + escaped_char(c),
    decreases s.len(),
{
    if s.len() == 0 {
        assert(s.push(c).len() == 1);
        assert(s.push(c)[0] == c);
        assert(s.push(c).drop_first() =~= Seq::<char>::empty());
        assert(json_escaped(s.push(c)) == escaped_char(c) + json_escaped(
            Seq::<char>::empty(),
        ));
        assert(json_escaped(Seq::<char>::empty()) =~= Seq::<char>::empty());
        assert(json_escaped(s) =~= Seq::<char>::empty());
        assert(json_escaped(s.push(c)) =~= json_escaped(s) + escaped_char(c));
    } else {
        assert(s.push(c)[0] == s[0]);
        assert(s.push(c).drop_first() =~= s.drop_first().push(c));
        lemma_json_escaped_push(s.drop_first(), c);
        assert(json_escaped(s.push(c)) =~= json_escaped(s) + escaped_char(c));
    }
}

/// Escapes a string for inclusion in a JSON string literal, exactly as
/// [`json_escaped`] says.
pub fn escape_json(s: &str) -> (r: String)
    ensures
        r@ == json_escaped(s@),
{
    let len: usize = s.unicode_len();
    let mut out = String::new();
    let mut i: usize = 0;
    while i < len
        invariant
            0 <= i <= len,
            len == s@.len(),
            out@ == json_escaped(s@.subrange(0, i as int)),
        decreases len - i,
    {
        let c = s.get_char(i);
        proof {
            assert(s@.subrange(0, i + 1) =~= s@.subrange(0, i as int).push(c));
            lemma_json_escaped_push(s@.subrange(0, i as int), c);
        }
        let u = c as u32;
        if c == '"' {
            push_char(&mut out, '\\');
            push_char(&mut out, '"');
        } else if c == '\\' {
            push_char(&mut out, '\\');
            push_char(&mut out, '\\');
        } else if c == '\u{8}' {
            push_char(&mut out, '\\');
            push_char(&mut out, 'b');
        } else if c == '\t' {
            push_char(&mut out, '\\');
            push_char(&mut out, 't');
        } else if c == '\n' {
            push_char(&mut out, '\\');
            push_char(&mut out, 'n');
        } else if c == '\u{c}' {
            push_char(&mut out, '\\');
            push_char(&mut out, 'f');
        } else if c == '\r' {
            push_char(&mut out, '\\');
            push_char(&mut out, 'r');
        } else if u < 0x20 {
            push_char(&mut out, '\\');
            push_char(&mut out, 'u');
            push_char(&mut out, '0');
            push_char(&mut out, '0');
            push_char(&mut out, hex_digit_char(u / 16));
            push_char(&mut out, hex_digit_char(u % 16));
        } else {
            push_char(&mut out, c);
        }
        proof {
            assert(out@ =~= json_escaped(s@.subrange(0, i as int)) + escaped_char(c));
        }
        i = i + 1;
    }
    proof {
        assert(s@.subrange(0, len as int) =~= s@);
    }
    out
}

/// The JSON body of the create-pull-request call: title, head branch, base
/// branch and body, opened as a draft.
pub open spec fn pr_body_spec(
    title: Seq<char>,
    head: Seq<char>,
    base: Seq<char>,
    body: Seq<char>,
) -> Seq<char> {
    "{\"title\":\""@ + json_escaped(title) + "\",\"head\":\""@ + json_escaped(head)
        + "\",\"base\":\""@ + json_escaped(base) + "\",\"body\":\""@ + json_escaped(body)
        + "\",\"draft\":true}"@
}

/// Builds the create-pull-request JSON body, exactly as [`pr_body_spec`]
/// says.
pub fn pr_request_body(title: &str, head: &str, base: &str, body: &str) -> (r: String)
    ensures
        r@ == pr_body_spec(title@, head@, base@, body@),
{
    let mut out = "{\"title\":\"".to_owned();
    out.append(escape_json(title).as_str());
    out.append("\",\"head\":\"");
    out.append(escape_json(head).as_str());
    out.append("\",\"base\":\"");
    out.append(escape_json(base).as_str());
    out.append("\",\"body\":\"");
    out.append(escape_json(body).as_str());
    out.append("\",\"draft\":true}");
    out
}

/// The JSON body of the self-assign call: a single assignee.
pub open spec fn assignees_body_spec(username: Seq<char>) -> Seq<char> {
    "{\"assignees\":[\""@ + json_escaped(username) + "\"]}"@
}

/// Builds the self-assign JSON body, exactly as [`assignees_body_spec`]
/// says.
pub fn assignees_request_body(username: &str) -> (r: String)
    ensures
        r@ == assignees_body_spec(username@),
{
    let mut out = "{\"assignees\":[\"".to_owned();
    out.append(escape_json(username).as_str());
    out.append("\"]}");
    out
}

/// The endpoint that opens a pull request in the repository.
pub fn pulls_url(repo: &str) -> (r: String)
    ensures
        r@ == "https://api.github.com/repos/"@ + repo@ + "/pulls"@,
{
    let mut out = "https://api.github.com/repos/".to_owned();
    out.append(repo);
    out.append("/pulls");
    out
}

/// The endpoint that assigns users to an issue or pull request.
pub fn assignees_url(repo: &str, number: &str) -> (r: String)
    ensures
        r@ == "https://api.github.com/repos/"@ + repo@ + "/issues/"@ + number@ + "/assignees"@,
{
    let mut out = "https://api.github.com/repos/".to_owned();
    out.append(repo);
    out.append("/issues/");
    out.append(number);
    out.append("/assignees");
    out
}

/// The endpoint that names the authenticated user.
pub fn user_url() -> (r: &'static str)
    ensures
        r@ == "https://api.github.com/user"@,
{
    "https://api.github.com/user"
}

/// The authorization header value for a stored token.
pub fn bearer_header_value(token: &str) -> (r: String)
    ensures
        r@ == "Bearer "@ + token@,
{
    let mut out = "Bearer ".to_owned();
    out.append(token);
    out
}

/// The final `/`-separated segment of a URL: the whole string when it holds
/// no `/`, everything after the last `/` otherwise.
pub open spec fn after_last_slash(s: Seq<char>) -> Seq<char> {
    let j = last_index_of_char(s, '/');
    if j == s.len() {
        s
    } else {
        s.subrange(j + 1, s.len() as int)
    }
}

/// The pull request's identifier as the final path segment of its URL,
/// exactly as [`after_last_slash`] says.
pub fn pr_number_from_url(url: &str) -> (r: String)
    ensures
        r@ == after_last_slash(url@),
{
    let len: usize = url.unicode_len();
    let j = find_last_char(url, '/');
    proof {
        lemma_last_index_of_char_bounds(url@, '/');
    }
    if j == len {
        url.to_owned()
    } else {
        url.substring_char(j + 1, len).to_owned()
    }
}

/// The string with every quote character removed.
pub open spec fn unquoted(s: Seq<char>) -> Seq<char>
    decreases s.len(),
{
    if s.len() == 0 {
        Seq::empty()
    } else if s[0] == '"' {
        unquoted(s.drop_first())
    } else {
        seq![s[0]] + unquoted(s.drop_first())
    }
}

pub proof fn lemma_unquoted_push(s: Seq<char>, c: char)
    ensures
        unquoted(s.push(c)) == if c == '"' {
            unquoted(s)
        } else {
            unquoted(s).push(c)
        },
    decreases s.len(),
{
    if s.len() == 0 {
        assert(s.push(c).len() == 1);
        assert(s.push(c)[0] == c);
        assert(s.push(c).drop_first() =~= Seq::<char>::empty());
        assert(unquoted(Seq::<char>::empty()) =~= Seq::<char>::empty());
        assert(unquoted(s) =~= Seq::<char>::empty());
        if c == '"' {
            assert(unquoted(s.push(c)) == unquoted(Seq::<char>::empty()));
            assert(unquoted(s.push(c)) =~= unquoted(s));
        } else {
            assert(unquoted(s.push(c)) == seq![c] + unquoted(Seq::<char>::empty()));
            assert(unquoted(s.push(c)) =~= unquoted(s).push(c));
        }
    } else {
        assert(s.push(c)[0] == s[0]);
        assert(s.push(c).drop_first() =~= s.drop_first().push(c));
        lemma_unquoted_push(s.drop_first(), c);
        if c == '"' {
            assert(unquoted(s.push(c)) =~= unquoted(s));
        } else {
            assert(unquoted(s.push(c)) =~= unquoted(s).push(c));
        }
    }
}

/// Removes every quote character, exactly as [`unquoted`] says: how the
/// reported URL is cleaned before it is shown and opened.
pub fn strip_quotes(s: &str) -> (r: String)
    ensures
        r@ == unquoted(s@),
{
    let len: usize = s.unicode_len();
    let mut out = String::new();
    let mut i: usize = 0;
    while i < len
        invariant
            0 <= i <= len,
            len == s@.len(),
            out@ == unquoted(s@.subrange(0, i as int)),
        decreases len - i,
    {
        let c = s.get_char(i);
        proof {
            assert(s@.subrange(0, i + 1) =~= s@.subrange(0, i as int).push(c));
            lemma_unquoted_push(s@.subrange(0, i as int), c);
        }
        if c != '"' {
            push_char(&mut out, c);
        }
        i = i + 1;
    }
    proof {
        assert(s@.subrange(0, len as int) =~= s@);
    }
    out
}

} // verus!
