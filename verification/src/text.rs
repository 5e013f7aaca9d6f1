//! Character and string helpers shared by the derivation rules and parsers:
//! whitespace trimming, equality, searching, and decimal-number recognition,
//! all specified over `Seq<char>` views.

use vstd::prelude::*;
use vstd::string::StrSliceExecFns;

verus! {

/// A character with the Unicode `White_Space` property, the set that
/// `str::trim` removes at either end of a string.
pub open spec fn is_space_char(c: char) -> bool {
    let u = c as u32;
    (0x09 <= u && u <= 0x0d) || u == 0x20 || u == 0x85 || u == 0xa0 || u == 0x1680 || (0x2000 <= u
        && u <= 0x200a) || u == 0x2028 || u == 0x2029 || u == 0x202f || u == 0x205f || u == 0x3000
}

/// Runtime test for [`is_space_char`].
pub fn is_space(c: char) -> (r: bool)
    ensures
        r == is_space_char(c),
{
    let u = c as u32;
    (0x09 <= u && u <= 0x0d) || u == 0x20 || u == 0x85 || u == 0xa0 || u == 0x1680 || (0x2000 <= u
        && u <= 0x200a) || u == 0x2028 || u == 0x2029 || u == 0x202f || u == 0x205f || u == 0x3000
}

/// The string with leading and trailing whitespace removed.
pub open spec fn trim_spec(s: Seq<char>) -> Seq<char>
    decreases s.len(),
{
    if s.len() == 0 {
        s
    } else if is_space_char(s[0]) {
        trim_spec(s.drop_first())
    } else if is_space_char(s[s.len() - 1]) {
        trim_spec(s.drop_last())
    } else {
        s
    }
}

/// A string is blank when trimming leaves nothing of it.
pub open spec fn is_blank(s: Seq<char>) -> bool {
    trim_spec(s).len() == 0
}

/// A trimmed string neither starts nor ends with whitespace.
pub proof fn lemma_trim_spec_ends(s: Seq<char>)
    ensures
        trim_spec(s).len() > 0 ==> !is_space_char(trim_spec(s)[0]) && !is_space_char(
            trim_spec(s)[trim_spec(s).len() - 1],
        ),
    decreases s.len(),
{
    if s.len() == 0 {
    } else if is_space_char(s[0]) {
        lemma_trim_spec_ends(s.drop_first());
    } else if is_space_char(s[s.len() - 1]) {
        lemma_trim_spec_ends(s.drop_last());
    }
}

/// Trimming is idempotent.
pub proof fn lemma_trim_idempotent(s: Seq<char>)
    ensures
        trim_spec(trim_spec(s)) == trim_spec(s),
{
    lemma_trim_spec_ends(s);
}

/// Removes leading and trailing whitespace, as `str::trim` does.
pub fn trim(s: &str) -> (r: &str)
    ensures
        r@ == trim_spec(s@),
{
    let len: usize = s.unicode_len();
    proof {
        assert(s@.subrange(0, len as int) =~= s@);
    }
    let mut i: usize = 0;
    while i < len && is_space(s.get_char(i))
        invariant
            0 <= i <= len,
            len == s@.len(),
            trim_spec(s@) == trim_spec(s@.subrange(i as int, len as int)),
        decreases len - i,
    {
        proof {
            assert(s@.subrange(i as int, len as int).drop_first() =~= s@.subrange(
                i + 1,
                len as int,
            ));
        }
        i = i + 1;
    }
    let mut j: usize = len;
    while j > i && is_space(s.get_char(j - 1))
        invariant
            0 <= i <= j <= len,
            len == s@.len(),
            i < j ==> !is_space_char(s@[i as int]),
            trim_spec(s@) == trim_spec(s@.subrange(i as int, j as int)),
        decreases j,
    {
        proof {
            assert(s@.subrange(i as int, j as int).drop_last() =~= s@.subrange(
                i as int,
                j - 1,
            ));
        }
        j = j - 1;
    }
    let r = s.substring_char(i, j);
    proof {
        assert(r@ == trim_spec(s@));
    }
    r
}

/// Character-wise string equality, specified over the views.
pub fn str_eq(a: &str, b: &str) -> (r: bool)
    ensures
        r == (a@ == b@),
{
    let alen: usize = a.unicode_len();
    let blen: usize = b.unicode_len();
    if alen != blen {
        return false;
    }
    let mut i: usize = 0;
    while i < alen
        invariant
            0 <= i <= alen,
            alen == a@.len() == b@.len(),
            forall|k: int| 0 <= k < i ==> a@[k] == b@[k],
        decreases alen - i,
    {
        if a.get_char(i) != b.get_char(i) {
            return false;
        }
        i = i + 1;
    }
    proof {
        assert(a@ =~= b@);
    }
    true
}

/// Index of the first occurrence of `c` in `s` at or after `from`, or
/// `s.len()` when there is none.
pub open spec fn index_of_char(s: Seq<char>, c: char, from: int) -> int
    decreases s.len() - from,
{
    if from < 0 || from >= s.len() {
        s.len() as int
    } else if s[from] == c {
        from
    } else {
        index_of_char(s, c, from + 1)
    }
}

pub proof fn lemma_index_of_char(s: Seq<char>, c: char, from: int)
    requires
        0 <= from <= s.len(),
    ensures
        from <= index_of_char(s, c, from) <= s.len(),
        index_of_char(s, c, from) < s.len() ==> s[index_of_char(s, c, from)] == c,
        forall|k: int| from <= k < index_of_char(s, c, from) ==> s[k] != c,
    decreases s.len() - from,
{
    if from < s.len() && s[from] != c {
        lemma_index_of_char(s, c, from + 1);
    }
}

/// The first occurrence index is the unique position at or after `from` that
/// holds `c` with nothing but other characters before it.
pub proof fn lemma_index_of_char_at(s: Seq<char>, c: char, from: int, i: int)
    requires
        0 <= from <= i <= s.len(),
        forall|k: int| from <= k < i ==> s[k] != c,
        i < s.len() ==> s[i] == c,
    ensures
        index_of_char(s, c, from) == if i < s.len() {
            i
        } else {
            s.len() as int
        },
    decreases i - from,
{
    if from < i {
        lemma_index_of_char_at(s, c, from + 1, i);
    }
}

/// Finds the first occurrence of `c` at or after `from`, returning `s.len()`
/// when there is none, exactly as [`index_of_char`] says.
pub fn find_char(s: &str, c: char, from: usize) -> (r: usize)
    requires
        from <= s@.len(),
    ensures
        r == index_of_char(s@, c, from as int),
{
    let len: usize = s.unicode_len();
    let mut i: usize = from;
    while i < len && s.get_char(i) != c
        invariant
            from <= i <= len,
            len == s@.len(),
            index_of_char(s@, c, from as int) == index_of_char(s@, c, i as int),
        decreases len - i,
    {
        i = i + 1;
    }
    i
}

/// Index of the last occurrence of `c` in `s`, or `s.len()` when there is
/// none.
pub open spec fn last_index_of_char(s: Seq<char>, c: char) -> int
    decreases s.len(),
{
    if s.len() == 0 {
        0
    } else if s[s.len() - 1] == c {
        s.len() - 1
    } else if last_index_of_char(s.drop_last(), c) == s.len() - 1 {
        s.len() as int
    } else {
        last_index_of_char(s.drop_last(), c)
    }
}

/// The last occurrence index is the unique position that holds `c` with
/// nothing but other characters after it.
pub proof fn lemma_last_index_of_char_at(s: Seq<char>, c: char, i: int)
    requires
        0 <= i < s.len(),
        s[i] == c,
        forall|k: int| i < k < s.len() ==> s[k] != c,
    ensures
        last_index_of_char(s, c) == i,
    decreases s.len(),
{
    if i < s.len() - 1 {
        assert(s.drop_last()[i] == s[i]);
        assert(forall|k: int| i < k < s.len() - 1 ==> s.drop_last()[k] == s[k]);
        lemma_last_index_of_char_at(s.drop_last(), c, i);
    }
}

/// When `c` does not occur at all, the last occurrence index is the sentinel
/// `s.len()`.
pub proof fn lemma_last_index_of_char_absent(s: Seq<char>, c: char)
    requires
        forall|k: int| 0 <= k < s.len() ==> s[k] != c,
    ensures
        last_index_of_char(s, c) == s.len(),
    decreases s.len(),
{
    if s.len() > 0 {
        assert(forall|k: int| 0 <= k < s.len() - 1 ==> s.drop_last()[k] == s[k]);
        lemma_last_index_of_char_absent(s.drop_last(), c);
    }
}

pub proof fn lemma_last_index_of_char_bounds(s: Seq<char>, c: char)
    ensures
        0 <= last_index_of_char(s, c) <= s.len(),
    decreases s.len(),
{
    if s.len() > 0 && s[s.len() - 1] != c {
        lemma_last_index_of_char_bounds(s.drop_last(), c);
    }
}

/// Finds the last occurrence of `c`, returning `s.len()` when there is none,
/// exactly as [`last_index_of_char`] says.
pub fn find_last_char(s: &str, c: char) -> (r: usize)
    ensures
        r == last_index_of_char(s@, c),
{
    let len: usize = s.unicode_len();
    let mut j: usize = len;
    while j > 0 && s.get_char(j - 1) != c
        invariant
            0 <= j <= len,
            len == s@.len(),
            forall|k: int| j <= k < len ==> s@[k] != c,
        decreases j,
    {
        j = j - 1;
    }
    if j == 0 {
        proof {
            lemma_last_index_of_char_absent(s@, c);
        }
        len
    } else {
        proof {
            lemma_last_index_of_char_at(s@, c, j - 1);
        }
        j - 1
    }
}

/// The pattern `pat` occurs in `s` starting at index `i`.
pub open spec fn matches_at(s: Seq<char>, pat: Seq<char>, i: int) -> bool {
    0 <= i && i + pat.len() <= s.len() && s.subrange(i, i + pat.len()) == pat
}

/// Runtime test for [`matches_at`].
pub fn pattern_at(s: &str, pat: &str, i: usize) -> (r: bool)
    ensures
        r == matches_at(s@, pat@, i as int),
{
    let len: usize = s.unicode_len();
    let plen: usize = pat.unicode_len();
    if plen > len || i > len - plen {
        return false;
    }
    let mut j: usize = 0;
    while j < plen
        invariant
            0 <= j <= plen,
            len == s@.len(),
            plen == pat@.len(),
            i + plen <= len,
            forall|k: int| 0 <= k < j ==> s@[i + k] == pat@[k],
        decreases plen - j,
    {
        if s.get_char(i + j) != pat.get_char(j) {
            proof {
                assert(s@.subrange(i as int, i + plen) != pat@) by {
                    assert(s@.subrange(i as int, i + plen)[j as int] == s@[i + j]);
                }
            }
            return false;
        }
        j = j + 1;
    }
    proof {
        assert(s@.subrange(i as int, i + plen) =~= pat@);
    }
    true
}

/// Index of the first occurrence of `pat` in `s` at or after `from`, or
/// `s.len()` when there is none.
pub open spec fn index_of_pat(s: Seq<char>, pat: Seq<char>, from: int) -> int
    decreases s.len() - from,
{
    if from < 0 || from >= s.len() || from + pat.len() > s.len() {
        s.len() as int
    } else if matches_at(s, pat, from) {
        from
    } else {
        index_of_pat(s, pat, from + 1)
    }
}

pub proof fn lemma_index_of_pat(s: Seq<char>, pat: Seq<char>, from: int)
    requires
        0 <= from <= s.len(),
        pat.len() > 0,
    ensures
        from <= index_of_pat(s, pat, from) <= s.len(),
        index_of_pat(s, pat, from) < s.len() ==> matches_at(s, pat, index_of_pat(s, pat, from)),
        forall|k: int| from <= k < index_of_pat(s, pat, from) ==> !matches_at(s, pat, k),
        index_of_pat(s, pat, from) == s.len() ==> forall|k: int| from <= k ==> !matches_at(
            s,
            pat,
            k,
        ),
    decreases s.len() - from,
{
    if from >= s.len() || from + pat.len() > s.len() {
        assert(forall|k: int| from <= k ==> !matches_at(s, pat, k));
    } else if !matches_at(s, pat, from) {
        lemma_index_of_pat(s, pat, from + 1);
    }
}

/// The pattern occurs somewhere in `s`.
pub open spec fn contains_pat(s: Seq<char>, pat: Seq<char>) -> bool {
    index_of_pat(s, pat, 0) < s.len()
}

/// Finds the first occurrence of `pat` at or after `from`, returning
/// `s.len()` when there is none, exactly as [`index_of_pat`] says.
pub fn find_pattern(s: &str, pat: &str, from: usize) -> (r: usize)
    requires
        from <= s@.len(),
        pat@.len() > 0,
    ensures
        r == index_of_pat(s@, pat@, from as int),
{
    let len: usize = s.unicode_len();
    let plen: usize = pat.unicode_len();
    if plen > len || from > len - plen {
        return len;
    }
    let mut i: usize = from;
    while i <= len - plen && !pattern_at(s, pat, i)
        invariant
            from <= i <= len - plen + 1,
            0 < plen <= len,
            len == s@.len(),
            plen == pat@.len(),
            index_of_pat(s@, pat@, from as int) == index_of_pat(s@, pat@, i as int),
        decreases len - i,
    {
        i = i + 1;
    }
    if i <= len - plen {
        i
    } else {
        len
    }
}

/// A decimal digit.
pub open spec fn is_dec_digit(c: char) -> bool {
    0x30 <= c as u32 && c as u32 <= 0x39
}

/// The numeric value of a digit (0 for anything else).
pub open spec fn digit_val(c: char) -> nat {
    if is_dec_digit(c) {
        (c as u32 - 0x30) as nat
    } else {
        0
    }
}

pub open spec fn all_dec_digits(s: Seq<char>) -> bool {
    forall|i: int| 0 <= i < s.len() ==> is_dec_digit(s[i])
}

/// The value of a string of decimal digits.
pub open spec fn dec_val(s: Seq<char>) -> nat
    decreases s.len(),
{
    if s.len() == 0 {
        0
    } else {
        dec_val(s.drop_last()) * 10 + digit_val(s.last())
    }
}

/// The string is accepted by `u32::from_str`: an optional leading `+`, then
/// at least one digit, with a value that fits in 32 bits.
pub open spec fn parses_as_u32(s: Seq<char>) -> bool {
    let d = if s.len() > 0 && s[0] == '+' {
        s.drop_first()
    } else {
        s
    };
    d.len() > 0 && all_dec_digits(d) && dec_val(d) <= u32::MAX
}

/// Runtime test for [`parses_as_u32`], the acceptance test of
/// `str::parse::<u32>`.
pub fn is_u32_numeral(s: &str) -> (r: bool)
    ensures
        r == parses_as_u32(s@),
{
    let len: usize = s.unicode_len();
    let start: usize = if len > 0 && s.get_char(0) == '+' {
        1
    } else {
        0
    };
    let ghost d = if start == 1 {
        s@.drop_first()
    } else {
        s@
    };
    proof {
        if start == 1 {
            assert(d =~= s@.subrange(1, len as int));
        } else {
            assert(d =~= s@.subrange(0, len as int));
        }
    }
    if start == len {
        return false;
    }
    let mut i: usize = start;
    let mut acc: u64 = 0;
    while i < len
        invariant
            start <= i <= len,
            start <= 1,
            len == s@.len(),
            (start == 1) <==> (s@.len() > 0 && s@[0] == '+'),
            d == s@.subrange(start as int, len as int),
            d == if s@.len() > 0 && s@[0] == '+' {
                s@.drop_first()
            } else {
                s@
            },
            all_dec_digits(s@.subrange(start as int, i as int)),
            acc == if dec_val(s@.subrange(start as int, i as int)) >= 0x1_0000_0000 {
                0x1_0000_0000
            } else {
                dec_val(s@.subrange(start as int, i as int)) as u64
            },
        decreases len - i,
    {
        let c = s.get_char(i);
        let u = c as u32;
        if !(0x30 <= u && u <= 0x39) {
            proof {
                assert(d[i - start] == s@[i as int]);
                assert(!is_dec_digit(d[i - start]));
            }
            return false;
        }
        let ghost p = s@.subrange(start as int, i as int);
        proof {
            assert(s@.subrange(start as int, i + 1).drop_last() =~= p);
            assert(s@.subrange(start as int, i + 1).last() == s@[i as int]);
            assert(dec_val(s@.subrange(start as int, i + 1)) == dec_val(p) * 10 + digit_val(c));
        }
        acc = acc * 10 + ((u - 0x30) as u64);
        if acc > 0x1_0000_0000 {
            acc = 0x1_0000_0000;
        }
        i = i + 1;
    }
    proof {
        assert(s@.subrange(start as int, len as int) == d);
    }
    acc <= 0xffff_ffff
}

/// Relies on `String::push`: appends exactly the given character.
#[verifier::external_body]
pub fn push_char(s: &mut String, c: char)
    ensures
        final(s)@ == old(s)@.push(c),
{
    s.push(c);
}

/// What `str::to_uppercase` returns; it depends on the characters alone.
pub uninterp spec fn upper_of(s: Seq<char>) -> Seq<char>;

/// Relies on `str::to_uppercase`: the Unicode uppercase mapping of the
/// string, a function of the characters alone; an empty string stays empty.
#[verifier::external_body]
pub fn to_upper(s: &str) -> (r: String)
    ensures
        r@ == upper_of(s@),
        s@.len() == 0 ==> r@.len() == 0,
{
    s.to_uppercase()
}

} // verus!
