//! Text normalization and string matching shared by the capture providers,
//! the toolbar checks and the release classifier.

use vstd::prelude::*;

verus! {

use vstd::string::StrSliceExecFns;

/// Minimum number of non-whitespace characters a captured selection must
/// keep after trimming to count as a valid selection.
pub const MIN_TEXT_LENGTH: usize = 2;

/// What `char::is_whitespace` returns for a character.
pub uninterp spec fn is_space(c: char) -> bool;

/// Relies on `char::is_whitespace`: true exactly on Unicode white-space
/// characters. The documentation lists space, tab, line feed and carriage
/// return among them, and ASCII letters and digits are not white-space.
#[verifier::external_body]
pub(crate) fn char_is_space(c: char) -> (r: bool)
    ensures
        r == is_space(c),
        c == ' ' ==> r,
        c == '\t' ==> r,
        c == '\n' ==> r,
        c == '\r' ==> r,
        'a' <= c && c <= 'z' ==> !r,
        'A' <= c && c <= 'Z' ==> !r,
        '0' <= c && c <= '9' ==> !r,
{
    c.is_whitespace()
}

/// What `str::to_lowercase` returns: a function of the characters alone.
pub uninterp spec fn lower_of(s: Seq<char>) -> Seq<char>;

/// Relies on `str::to_lowercase`: the result depends on the characters
/// alone, and an empty string stays empty.
#[verifier::external_body]
pub(crate) fn lowercase(s: &str) -> (r: String)
    ensures
        r@ == lower_of(s@),
        s@.len() == 0 ==> r@.len() == 0,
{
    s.to_lowercase()
}

/// Relies on `String::push`: appends exactly the one character.
#[verifier::external_body]
pub(crate) fn push_char(s: &mut String, c: char)
    ensures
        final(s)@ == old(s)@.push(c),
{
    s.push(c);
}

/// Number of white-space characters at the start of `s`.
pub open spec fn leading_space_count(s: Seq<char>) -> int
    decreases s.len(),
{
    if s.len() == 0 {
        0
    } else if is_space(s[0]) {
        1 + leading_space_count(s.drop_first())
    } else {
        0
    }
}

/// Number of white-space characters at the end of `s`.
pub open spec fn trailing_space_count(s: Seq<char>) -> int
    decreases s.len(),
{
    if s.len() == 0 {
        0
    } else if is_space(s[s.len() - 1]) {
        1 + trailing_space_count(s.drop_last())
    } else {
        0
    }
}

/// `s` with leading and trailing white-space removed: what `str::trim` keeps.
pub open spec fn spec_trim(s: Seq<char>) -> Seq<char> {
    if leading_space_count(s) == s.len() {
        Seq::empty()
    } else {
        s.subrange(leading_space_count(s), s.len() - trailing_space_count(s))
    }
}

/// Number of non-white-space characters in `s`.
pub open spec fn non_space_count(s: Seq<char>) -> int
    decreases s.len(),
{
    if s.len() == 0 {
        0
    } else {
        non_space_count(s.drop_last()) + if is_space(s[s.len() - 1]) {
            0int
        } else {
            1int
        }
    }
}

proof fn lemma_leading_from_scan(s: Seq<char>, i: int)
    requires
        0 <= i <= s.len(),
        forall|k: int| 0 <= k < i ==> is_space(s[k]),
        i < s.len() ==> !is_space(s[i]),
    ensures
        leading_space_count(s) == i,
    decreases i,
{
    if i == 0 {
    } else {
        assert(is_space(s[0]));
        let t = s.drop_first();
        assert(forall|k: int| 0 <= k < i - 1 ==> is_space(#[trigger] t[k]));
        assert(i - 1 < t.len() ==> !is_space(t[i - 1]));
        lemma_leading_from_scan(t, i - 1);
    }
}

proof fn lemma_trailing_from_scan(s: Seq<char>, j: int)
    requires
        0 <= j <= s.len(),
        forall|k: int| j <= k < s.len() ==> is_space(s[k]),
        j > 0 ==> !is_space(s[j - 1]),
    ensures
        trailing_space_count(s) == s.len() - j,
    decreases s.len() - j,
{
    if j == s.len() {
    } else {
        assert(is_space(s[s.len() - 1]));
        let t = s.drop_last();
        assert(forall|k: int| j <= k < t.len() ==> is_space(#[trigger] t[k]));
        assert(j > 0 ==> !is_space(t[j - 1]));
        lemma_trailing_from_scan(t, j);
    }
}

/// Trims white-space from both ends; the verified counterpart of `str::trim`.
pub fn trim_str<'a>(s: &'a str) -> (r: &'a str)
    ensures
        r@ == spec_trim(s@),
{
    let n = s.unicode_len();
    let mut start: usize = 0;
    while start < n && char_is_space(s.get_char(start))
        invariant
            0 <= start <= n,
            n == s@.len(),
            forall|k: int| 0 <= k < start ==> is_space(s@[k]),
        decreases n - start,
    {
        start = start + 1;
    }
    proof {
        lemma_leading_from_scan(s@, start as int);
    }
    if start == n {
        let r = s.substring_char(0, 0);
        proof {
            assert(spec_trim(s@) =~= r@);
        }
        r
    } else {
        let mut end: usize = n;
        while end > start && char_is_space(s.get_char(end - 1))
            invariant
                start <= end <= n,
                n == s@.len(),
                start < n,
                !is_space(s@[start as int]),
                forall|k: int| end <= k < n ==> is_space(s@[k]),
            decreases end,
        {
            end = end - 1;
        }
        proof {
            if end == start {
                assert(is_space(s@[start as int]));
            }
            lemma_trailing_from_scan(s@, end as int);
        }
        s.substring_char(start, end)
    }
}

/// Counts the non-white-space characters of `s`.
pub fn non_space_len(s: &str) -> (r: usize)
    ensures
        r == non_space_count(s@),
{
    let n = s.unicode_len();
    let mut count: usize = 0;
    let mut i: usize = 0;
    while i < n
        invariant
            0 <= i <= n,
            n == s@.len(),
            count <= i,
            count == non_space_count(s@.take(i as int)),
        decreases n - i,
    {
        let space = char_is_space(s.get_char(i));
        proof {
            assert(s@.take(i as int + 1).drop_last() =~= s@.take(i as int));
            assert(s@.take(i as int + 1)[i as int] == s@[i as int]);
        }
        if !space {
            count = count + 1;
        }
        i = i + 1;
    }
    proof {
        assert(s@.take(n as int) =~= s@);
    }
    count
}

/// Validates and normalizes a captured selection: the trimmed text is kept
/// exactly when it still holds at least `MIN_TEXT_LENGTH` non-white-space
/// characters; anything shorter is no selection.
pub fn normalize_selection(text: &str) -> (r: Option<String>)
    ensures
        r is Some <==> non_space_count(spec_trim(text@)) >= MIN_TEXT_LENGTH,
        r matches Some(t) ==> t@ == spec_trim(text@),
{
    let trimmed = trim_str(text);
    if non_space_len(trimmed) < MIN_TEXT_LENGTH {
        None
    } else {
        Some(trimmed.to_owned())
    }
}

/// Copies an optional string, value for value.
pub(crate) fn clone_opt_string(o: &Option<String>) -> (r: Option<String>)
    ensures
        r == *o,
{
    match o {
        Some(s) => Some(s.clone()),
        None => None,
    }
}

/// There are never more non-white-space characters than characters.
pub proof fn lemma_non_space_count_le_len(s: Seq<char>)
    ensures
        0 <= non_space_count(s) <= s.len(),
    decreases s.len(),
{
    if s.len() > 0 {
        lemma_non_space_count_le_len(s.drop_last());
    }
}

/// Whether `p` occurs in `s` starting at index `i`.
pub open spec fn seq_matches_at(s: Seq<char>, p: Seq<char>, i: int) -> bool {
    0 <= i && i + p.len() <= s.len() && s.subrange(i, i + p.len()) == p
}

/// Whether `p` occurs anywhere in `s` (what `str::contains` decides).
pub open spec fn seq_contains(s: Seq<char>, p: Seq<char>) -> bool {
    exists|i: int| seq_matches_at(s, p, i)
}

/// Whether `s` ends with `p` (what `str::ends_with` decides).
pub open spec fn seq_ends_with(s: Seq<char>, p: Seq<char>) -> bool {
    p.len() <= s.len() && s.subrange(s.len() - p.len(), s.len() as int) == p
}

fn match_at(s: &str, p: &str, i: usize) -> (r: bool)
    requires
        i + p@.len() <= s@.len(),
    ensures
        r == seq_matches_at(s@, p@, i as int),
{
    let n = s.unicode_len();
    let m = p.unicode_len();
    let mut j: usize = 0;
    while j < m
        invariant
            0 <= j <= m,
            n == s@.len(),
            m == p@.len(),
            i + m <= n,
            forall|k: int| 0 <= k < j ==> s@[i + k] == p@[k],
        decreases m - j,
    {
        if s.get_char(i + j) != p.get_char(j) {
            proof {
                assert(s@.subrange(i as int, i + p@.len())[j as int] == s@[i + j]);
            }
            return false;
        }
        j = j + 1;
    }
    proof {
        assert(s@.subrange(i as int, i + p@.len()) =~= p@);
    }
    true
}

/// Decides whether `p` occurs as a substring of `s`.
pub fn str_contains_sub(s: &str, p: &str) -> (r: bool)
    ensures
        r == seq_contains(s@, p@),
{
    let n = s.unicode_len();
    let m = p.unicode_len();
    if m > n {
        proof {
            assert(forall|i: int| !seq_matches_at(s@, p@, i));
        }
        return false;
    }
    if m == 0 {
        proof {
            assert(s@.subrange(0, 0) =~= p@);
            assert(seq_matches_at(s@, p@, 0));
        }
        return true;
    }
    let mut i: usize = 0;
    while i <= n - m
        invariant
            0 <= i <= n - m + 1,
            1 <= m <= n,
            n == s@.len(),
            m == p@.len(),
            forall|k: int| 0 <= k < i ==> !seq_matches_at(s@, p@, k),
        decreases n - i,
    {
        if match_at(s, p, i) {
            return true;
        }
        i = i + 1;
    }
    proof {
        assert(forall|k: int| seq_matches_at(s@, p@, k) ==> 0 <= k <= n - m);
    }
    false
}

/// Decides whether `s` ends with `p`.
pub fn str_ends_with_sub(s: &str, p: &str) -> (r: bool)
    ensures
        r == seq_ends_with(s@, p@),
{
    let n = s.unicode_len();
    let m = p.unicode_len();
    if m > n {
        false
    } else {
        match_at(s, p, n - m)
    }
}

/// Decides whether two strings hold the same characters.
pub fn str_eq_chars(a: &str, b: &str) -> (r: bool)
    ensures
        r == (a@ == b@),
{
    let n = a.unicode_len();
    if n != b.unicode_len() {
        proof {
            assert(a@.len() != b@.len());
        }
        false
    } else {
        let r = match_at(a, b, 0);
        proof {
            assert(a@.subrange(0, b@.len() as int) =~= a@);
        }
        r
    }
}

} // verus!
