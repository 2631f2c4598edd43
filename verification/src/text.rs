//! Shallow text scanning: the deliberately partial grammar model of the
//! session. Lines are inspected only for their last character, a first `=`,
//! whitespace-separated tokens, and keyword prefixes; full understanding of
//! the submitted code is the external compiler's job.

use vstd::prelude::*;
use vstd::string::*;

verus! {

/// The whitespace characters the session recognises when splitting a line
/// into tokens.
pub open spec fn is_space_char(c: char) -> bool {
    c == ' ' || c == '\t' || c == '\n' || c == '\r'
}

/// Whether `c` is one of the whitespace characters used for tokenising.
pub fn is_space(c: char) -> (r: bool)
    ensures
        r == is_space_char(c),
{
    c == ' ' || c == '\t' || c == '\n' || c == '\r'
}

/// The last character of `s`, or `d` when `s` is empty.
pub open spec fn last_char_or(s: Seq<char>, d: char) -> char {
    if s.len() == 0 {
        d
    } else {
        s[s.len() - 1]
    }
}

/// The last character of `s`, with a space standing in for an empty line.
pub fn last_char(s: &str) -> (r: char)
    ensures
        r == last_char_or(s@, ' '),
{
    let n: usize = s.unicode_len();
    if n == 0 {
        ' '
    } else {
        s.get_char(n - 1)
    }
}

/// The least index `j >= i` at which `s` holds a non-space character, or the
/// length of `s` when all of the rest is spaces.
pub open spec fn skip_spaces(s: Seq<char>, i: int) -> int
    decreases s.len() - i,
{
    if i < 0 || i >= s.len() {
        s.len() as int
    } else if !is_space_char(s[i]) {
        i
    } else {
        skip_spaces(s, i + 1)
    }
}

/// The least index `j >= i` at which `s` holds a space, or the length of `s`:
/// the end of the token starting at `i`.
pub open spec fn token_end(s: Seq<char>, i: int) -> int
    decreases s.len() - i,
{
    if i < 0 || i >= s.len() {
        s.len() as int
    } else if is_space_char(s[i]) {
        i
    } else {
        token_end(s, i + 1)
    }
}

/// `skip_spaces` lands between `i` and the end, on a non-space if it lands
/// before the end, and skips only spaces.
pub proof fn lemma_skip_spaces(s: Seq<char>, i: int)
    requires
        0 <= i <= s.len(),
    ensures
        i <= skip_spaces(s, i) <= s.len(),
        skip_spaces(s, i) < s.len() ==> !is_space_char(s[skip_spaces(s, i)]),
        forall|k: int| i <= k < skip_spaces(s, i) ==> is_space_char(s[k]),
    decreases s.len() - i,
{
    if i < s.len() && is_space_char(s[i]) {
        lemma_skip_spaces(s, i + 1);
    }
}

/// `skip_spaces` never passes a non-space character.
pub proof fn lemma_skip_spaces_bounded(s: Seq<char>, i: int, k: int)
    requires
        0 <= i <= k < s.len(),
        !is_space_char(s[k]),
    ensures
        skip_spaces(s, i) <= k,
    decreases s.len() - i,
{
    if i < k && is_space_char(s[i]) {
        lemma_skip_spaces_bounded(s, i + 1, k);
    }
}

/// `token_end` lands between `i` and the end, on a space if it lands before
/// the end, and passes only non-spaces.
pub proof fn lemma_token_end(s: Seq<char>, i: int)
    requires
        0 <= i <= s.len(),
    ensures
        i <= token_end(s, i) <= s.len(),
        token_end(s, i) < s.len() ==> is_space_char(s[token_end(s, i)]),
        forall|k: int| i <= k < token_end(s, i) ==> !is_space_char(s[k]),
    decreases s.len() - i,
{
    if i < s.len() && !is_space_char(s[i]) {
        lemma_token_end(s, i + 1);
    }
}

/// Exec counterpart of `skip_spaces`.
pub fn scan_skip_spaces(s: &str, i: usize) -> (r: usize)
    requires
        i <= s@.len(),
    ensures
        r == skip_spaces(s@, i as int),
        i <= r <= s@.len(),
    decreases s@.len() - i,
{
    proof {
        lemma_skip_spaces(s@, i as int);
    }
    if i == s.unicode_len() {
        i
    } else if !is_space(s.get_char(i)) {
        i
    } else {
        scan_skip_spaces(s, i + 1)
    }
}

/// Exec counterpart of `token_end`.
pub fn scan_token_end(s: &str, i: usize) -> (r: usize)
    requires
        i <= s@.len(),
    ensures
        r == token_end(s@, i as int),
        i <= r <= s@.len(),
    decreases s@.len() - i,
{
    proof {
        lemma_token_end(s@, i as int);
    }
    if i == s.unicode_len() {
        i
    } else if is_space(s.get_char(i)) {
        i
    } else {
        scan_token_end(s, i + 1)
    }
}

/// The end of the trailing run of spaces: the greatest `e <= j` such that
/// `e` is zero or `s[e - 1]` is not a space.
pub open spec fn trim_end(s: Seq<char>, j: int) -> int
    decreases j,
{
    if j <= 0 || j > s.len() {
        0
    } else if is_space_char(s[j - 1]) {
        trim_end(s, j - 1)
    } else {
        j
    }
}

/// The start of the token ending at `j`: the greatest `t <= j` such that `t`
/// is zero or `s[t - 1]` is a space.
pub open spec fn token_start(s: Seq<char>, j: int) -> int
    decreases j,
{
    if j <= 0 || j > s.len() {
        0
    } else if is_space_char(s[j - 1]) {
        j
    } else {
        token_start(s, j - 1)
    }
}

/// `trim_end` and `token_start` stay within bounds.
pub proof fn lemma_trim_end(s: Seq<char>, j: int)
    requires
        0 <= j <= s.len(),
    ensures
        0 <= trim_end(s, j) <= j,
        trim_end(s, j) > 0 ==> !is_space_char(s[trim_end(s, j) - 1]),
        0 <= token_start(s, j) <= j,
    decreases j,
{
    if j > 0 && is_space_char(s[j - 1]) {
        lemma_trim_end(s, j - 1);
    }
    if j > 0 && !is_space_char(s[j - 1]) {
        lemma_trim_end(s, j - 1);
    }
}

/// Exec counterpart of `trim_end`.
pub fn scan_trim_end(s: &str, j: usize) -> (r: usize)
    requires
        j <= s@.len(),
    ensures
        r == trim_end(s@, j as int),
        r <= j,
    decreases j,
{
    proof {
        lemma_trim_end(s@, j as int);
    }
    if j == 0 {
        0
    } else if is_space(s.get_char(j - 1)) {
        scan_trim_end(s, j - 1)
    } else {
        j
    }
}

/// Exec counterpart of `token_start`.
pub fn scan_token_start(s: &str, j: usize) -> (r: usize)
    requires
        j <= s@.len(),
    ensures
        r == token_start(s@, j as int),
        r <= j,
    decreases j,
{
    proof {
        lemma_trim_end(s@, j as int);
    }
    if j == 0 {
        0
    } else if is_space(s.get_char(j - 1)) {
        j
    } else {
        scan_token_start(s, j - 1)
    }
}

/// The last whitespace-separated token of `s`, if any.
pub open spec fn last_token(s: Seq<char>) -> Option<Seq<char>> {
    let e = trim_end(s, s.len() as int);
    if e == 0 {
        None
    } else {
        Some(s.subrange(token_start(s, e), e))
    }
}

/// The first whitespace-separated token of `s`, if any.
pub open spec fn first_token(s: Seq<char>) -> Option<Seq<char>> {
    let b = skip_spaces(s, 0);
    if b == s.len() {
        None
    } else {
        Some(s.subrange(b, token_end(s, b)))
    }
}

/// The second whitespace-separated token of `s`, if any.
pub open spec fn second_token(s: Seq<char>) -> Option<Seq<char>> {
    let b = skip_spaces(s, 0);
    if b == s.len() {
        None
    } else {
        let b2 = skip_spaces(s, token_end(s, b));
        if b2 == s.len() {
            None
        } else {
            Some(s.subrange(b2, token_end(s, b2)))
        }
    }
}

/// The least index `j >= i` with `s[j] == c`, if any.
pub open spec fn find_char_at(s: Seq<char>, c: char, i: int) -> Option<int>
    decreases s.len() - i,
{
    if i < 0 || i >= s.len() {
        None
    } else if s[i] == c {
        Some(i)
    } else {
        find_char_at(s, c, i + 1)
    }
}

/// Exec counterpart of `find_char_at`.
pub fn scan_find_char(s: &str, c: char, i: usize) -> (r: Option<usize>)
    requires
        i <= s@.len(),
    ensures
        match r {
            Some(j) => find_char_at(s@, c, i as int) == Some(j as int) && i <= j < s@.len(),
            None => find_char_at(s@, c, i as int) is None,
        },
    decreases s@.len() - i,
{
    if i == s.unicode_len() {
        None
    } else if s.get_char(i) == c {
        Some(i)
    } else {
        scan_find_char(s, c, i + 1)
    }
}

/// Whether `p` is a prefix of `s`.
pub open spec fn spec_starts_with(s: Seq<char>, p: Seq<char>) -> bool {
    p.len() <= s.len() && (forall|k: int| 0 <= k < p.len() ==> s[k] == p[k])
}

/// Whether `s` starts with `p`, character for character.
pub fn str_starts_with(s: &str, p: &str) -> (r: bool)
    ensures
        r == spec_starts_with(s@, p@),
{
    let n: usize = s.unicode_len();
    let m: usize = p.unicode_len();
    if m > n {
        return false;
    }
    let mut i: usize = 0;
    while i < m
        invariant
            i <= m <= n,
            n == s@.len(),
            m == p@.len(),
            forall|k: int| 0 <= k < i ==> s@[k] == p@[k],
        decreases m - i,
    {
        if s.get_char(i) != p.get_char(i) {
            return false;
        }
        i = i + 1;
    }
    true
}

/// Whether `a` and `b` hold the same characters.
pub fn str_eq(a: &str, b: &str) -> (r: bool)
    ensures
        r == (a@ == b@),
{
    let n: usize = a.unicode_len();
    let m: usize = b.unicode_len();
    if n != m {
        return false;
    }
    let mut i: usize = 0;
    while i < n
        invariant
            i <= n,
            n == a@.len(),
            n == b@.len(),
            forall|k: int| 0 <= k < i ==> a@[k] == b@[k],
        decreases n - i,
    {
        if a.get_char(i) != b.get_char(i) {
            return false;
        }
        i = i + 1;
    }
    proof {
        assert(a@ =~= b@);
    }
    true
}

/// The least index `j >= i` at which `m` occurs as a contiguous run in `s`,
/// if any.
pub open spec fn find_sub_at(s: Seq<char>, m: Seq<char>, i: int) -> Option<int>
    decreases s.len() - i,
{
    if i < 0 || i + m.len() > s.len() {
        None
    } else if s.subrange(i, i + m.len() as int) == m {
        Some(i)
    } else if i == s.len() {
        None
    } else {
        find_sub_at(s, m, i + 1)
    }
}

/// Exec counterpart of `find_sub_at`.
pub fn scan_find_sub(s: &str, m: &str, i: usize) -> (r: Option<usize>)
    requires
        i <= s@.len(),
    ensures
        match r {
            Some(j) => find_sub_at(s@, m@, i as int) == Some(j as int) && i <= j
                && j + m@.len() <= s@.len(),
            None => find_sub_at(s@, m@, i as int) is None,
        },
    decreases s@.len() - i,
{
    let n: usize = s.unicode_len();
    let k: usize = m.unicode_len();
    if n - i < k {
        return None;
    }
    let seg = s.substring_char(i, i + k);
    if str_eq(seg, m) {
        proof {
            assert(s@.subrange(i as int, i + m@.len() as int) == m@);
        }
        Some(i)
    } else if i == n {
        None
    } else {
        scan_find_sub(s, m, i + 1)
    }
}

} // verus!
