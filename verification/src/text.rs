//! Character-level helpers shared by all the name parsers.
//!
//! A name is handled as the sequence of its characters; a parser position is
//! an index into that sequence.

use vstd::prelude::*;
use vstd::string::*;

verus! {

broadcast use vstd::string::group_string_axioms;

/// The characters of `s`, one per element.
pub fn chars_of(s: &str) -> (res: Vec<char>)
    ensures
        res@ == s@,
{
    let mut res: Vec<char> = Vec::new();
    for c in it: s.chars()
        invariant
            res@ == it.seq().take(it.index() as int),
    {
        res.push(c);
    }
    res
}

/// The characters of `s` from index `from` (inclusive) to `to` (exclusive), as a new string.
pub fn substr(s: &str, from: usize, to: usize) -> (res: String)
    requires
        from <= to <= s@.len(),
    ensures
        res@ == s@.subrange(from as int, to as int),
{
    s.substring_char(from, to).to_owned()
}

/// Whether two strings hold the same characters.
pub fn str_eq(a: &str, b: &str) -> (res: bool)
    ensures
        res == (a@ == b@),
{
    let ac = chars_of(a);
    let bc = chars_of(b);
    if ac.len() != bc.len() {
        return false;
    }
    let mut i: usize = 0;
    while i < ac.len()
        invariant
            ac@ == a@,
            bc@ == b@,
            ac.len() == bc.len(),
            i <= ac.len(),
            forall|j: int| 0 <= j < i ==> ac@[j] == bc@[j],
        decreases ac.len() - i,
    {
        if ac[i] != bc[i] {
            return false;
        }
        i = i + 1;
    }
    assert(ac@ =~= bc@);
    true
}

/// The character sequences of a sequence of strings.
pub open spec fn views(v: Seq<String>) -> Seq<Seq<char>> {
    v.map_values(|x: String| x@)
}

/// Pushing a string adds its characters at the end of the views.
pub proof fn lemma_views_push(v: Seq<String>, x: String)
    ensures
        views(v.push(x)) == views(v).push(x@),
{
    assert(views(v.push(x)) =~= views(v).push(x@));
}

pub open spec fn is_ascii_digit(c: char) -> bool {
    '0' <= c <= '9'
}

pub open spec fn is_ascii_upper(c: char) -> bool {
    'A' <= c <= 'Z'
}

pub open spec fn is_ascii_lower(c: char) -> bool {
    'a' <= c <= 'z'
}

pub open spec fn is_ascii_alpha(c: char) -> bool {
    is_ascii_upper(c) || is_ascii_lower(c)
}

pub open spec fn is_ascii_alnum(c: char) -> bool {
    is_ascii_alpha(c) || is_ascii_digit(c)
}

/// The characters with the Unicode `White_Space` property, which is what
/// `char::is_whitespace` tests for.
pub open spec fn is_whitespace(c: char) -> bool {
    ||| '\u{9}' <= c <= '\u{d}'
    ||| c == ' '
    ||| c == '\u{85}'
    ||| c == '\u{a0}'
    ||| c == '\u{1680}'
    ||| '\u{2000}' <= c <= '\u{200a}'
    ||| c == '\u{2028}'
    ||| c == '\u{2029}'
    ||| c == '\u{202f}'
    ||| c == '\u{205f}'
    ||| c == '\u{3000}'
}

/// The ASCII characters that `char::is_ascii_whitespace` accepts.
pub open spec fn is_ascii_whitespace(c: char) -> bool {
    c == ' ' || c == '\t' || c == '\n' || c == '\u{c}' || c == '\r'
}

/// Whether `char::is_alphanumeric` holds of `c` (Unicode letters and numbers).
pub uninterp spec fn unicode_alphanumeric(c: char) -> bool;

/// Calls `char::is_alphanumeric`. Its result is named `unicode_alphanumeric`;
/// std documents it as `is_alphabetic() || is_numeric()`, which on ASCII
/// characters holds exactly of the letters and digits. What it returns on
/// other characters follows the Unicode tables and is not stated here.
#[verifier::external_body]
fn char_is_alphanumeric(c: char) -> (res: bool)
    ensures
        res == unicode_alphanumeric(c),
        c <= '\u{7f}' ==> (res == is_ascii_alnum(c)),
{
    c.is_alphanumeric()
}

/// What `char::is_alphanumeric` gives: on ASCII characters the letters and
/// digits, elsewhere what the Unicode tables say.
pub open spec fn alphanumeric(c: char) -> bool {
    if c <= '\u{7f}' {
        is_ascii_alnum(c)
    } else {
        unicode_alphanumeric(c)
    }
}

/// Whether the pattern compiles with the `regex` crate and matches the string
/// made of `c` alone.
pub uninterp spec fn regex_matches_char(pattern: Seq<char>, c: char) -> bool;

/// Compiles `pattern` with `regex::Regex::new` and matches the string made of
/// `c` alone against it with `Regex::is_match`; `false` where the pattern does
/// not compile. Its result is named `regex_matches_char`. The crate documents
/// `\d` as the Unicode class `Nd` and `\w` as `Alphabetic`, marks, `\d`,
/// connector punctuation and `Join_Control`: on ASCII characters `\A\d\z`
/// matches exactly `0`-`9`, and `\A\w\z` exactly the letters, the digits and
/// `_`. What they match elsewhere follows the Unicode tables and is not
/// stated here.
#[verifier::external_body]
fn regex_matches(pattern: &str, c: char) -> (res: bool)
    ensures
        res == regex_matches_char(pattern@, c),
        pattern@ == "\\A\\d\\z"@ && c <= '\u{7f}' ==> (res == is_ascii_digit(c)),
        pattern@ == "\\A\\w\\z"@ && c <= '\u{7f}' ==> (res == (is_ascii_alnum(c) || c == '_')),
{
    let mut buf = [0u8; 4];
    match regex::Regex::new(pattern) {
        Ok(re) => re.is_match(c.encode_utf8(&mut buf)),
        Err(_) => false,
    }
}

/// Whether `\d` matches `c`.
fn char_is_regex_digit(c: char) -> (res: bool)
    ensures
        res == unicode_digit(c),
{
    regex_matches("\\A\\d\\z", c)
}

/// Whether `\w` matches `c`.
fn char_is_regex_word(c: char) -> (res: bool)
    ensures
        res == word_char(c),
{
    regex_matches("\\A\\w\\z", c)
}

/// What `\d` matches: on ASCII characters the digits, elsewhere what the
/// Unicode tables say.
pub open spec fn unicode_digit(c: char) -> bool {
    if c <= '\u{7f}' {
        is_ascii_digit(c)
    } else {
        regex_matches_char("\\A\\d\\z"@, c)
    }
}

/// What `\w` matches: on ASCII characters the letters, digits and `_`,
/// elsewhere what the Unicode tables say.
pub open spec fn word_char(c: char) -> bool {
    if c <= '\u{7f}' {
        is_ascii_alnum(c) || c == '_'
    } else {
        regex_matches_char("\\A\\w\\z"@, c)
    }
}

/// Classes of characters that the name grammars take runs of.
#[derive(Clone, Copy)]
pub enum CharClass {
    /// `0`-`9`
    Digit,
    /// ASCII letters
    Alpha,
    /// ASCII letters and digits
    Alnum,
    /// ASCII upper-case letters
    Upper,
    /// ASCII lower-case letters
    Lower,
    /// ASCII digits and `x`/`X`
    DigitOrX,
    /// ASCII digits and lower-case `x`
    DigitOrLowerX,
    /// ASCII digits and `/`
    DigitOrSlash,
    /// `0`-`9` and `.`
    DigitOrDot,
    /// ASCII digits and lower-case letters
    DigitOrLower,
    /// ASCII letters, digits and `-`
    AlnumDash,
    /// ASCII letters, digits and `.`
    AlnumDot,
    /// ASCII letters, digits and space
    AlnumSpace,
    /// ASCII letters, digits, `.` and `-`
    AlnumDotDash,
    /// ASCII letters, digits, `-` and `_`
    AlnumDashUnderscore,
    /// ASCII letters, digits, `-`, `_` and `.`
    AlnumDashUnderscoreDot,
    /// ASCII letters, digits, `.`, `_` and ASCII whitespace
    AlnumDotUnderscoreSpace,
    /// Unicode letters and numbers, `.` and `-`
    UniAlnumDotDash,
    /// Unicode letters and numbers, `_` and ASCII whitespace
    UniAlnumUnderscoreSpace,
    /// Every character but the given one
    Not(char),
    /// Only the given character
    Is(char),
    /// What `\w` matches
    Word,
    /// What `\w` matches, `-`, `(` and `)`
    WordDashParens,
    /// What `\d` matches
    UniDigit,
    /// What `\d` matches, `x` and `X`
    UniDigitOrX,
}

pub open spec fn in_class(cls: CharClass, c: char) -> bool {
    match cls {
        CharClass::Digit => is_ascii_digit(c),
        CharClass::Alpha => is_ascii_alpha(c),
        CharClass::Alnum => is_ascii_alnum(c),
        CharClass::Upper => is_ascii_upper(c),
        CharClass::Lower => is_ascii_lower(c),
        CharClass::DigitOrX => is_ascii_digit(c) || c == 'x' || c == 'X',
        CharClass::DigitOrLowerX => is_ascii_digit(c) || c == 'x',
        CharClass::DigitOrSlash => is_ascii_digit(c) || c == '/',
        CharClass::DigitOrDot => is_ascii_digit(c) || c == '.',
        CharClass::DigitOrLower => is_ascii_digit(c) || is_ascii_lower(c),
        CharClass::AlnumDash => is_ascii_alnum(c) || c == '-',
        CharClass::AlnumDot => is_ascii_alnum(c) || c == '.',
        CharClass::AlnumSpace => is_ascii_alnum(c) || c == ' ',
        CharClass::AlnumDotDash => is_ascii_alnum(c) || c == '.' || c == '-',
        CharClass::AlnumDashUnderscore => is_ascii_alnum(c) || c == '-' || c == '_',
        CharClass::AlnumDashUnderscoreDot => is_ascii_alnum(c) || c == '-' || c == '_' || c
            == '.',
        CharClass::AlnumDotUnderscoreSpace => is_ascii_alnum(c) || c == '.' || c == '_'
            || is_ascii_whitespace(c),
        CharClass::UniAlnumDotDash => alphanumeric(c) || c == '.' || c == '-',
        CharClass::UniAlnumUnderscoreSpace => alphanumeric(c) || c == '_' || is_ascii_whitespace(
            c,
        ),
        CharClass::Not(d) => c != d,
        CharClass::Is(d) => c == d,
        CharClass::Word => word_char(c),
        CharClass::WordDashParens => word_char(c) || c == '-' || c == '(' || c == ')',
        CharClass::UniDigit => unicode_digit(c),
        CharClass::UniDigitOrX => unicode_digit(c) || c == 'x' || c == 'X',
    }
}

fn ascii_alnum(c: char) -> (res: bool)
    ensures
        res == is_ascii_alnum(c),
{
    ('a' <= c && c <= 'z') || ('A' <= c && c <= 'Z') || ('0' <= c && c <= '9')
}

fn ascii_digit(c: char) -> (res: bool)
    ensures
        res == is_ascii_digit(c),
{
    '0' <= c && c <= '9'
}

fn ascii_whitespace(c: char) -> (res: bool)
    ensures
        res == is_ascii_whitespace(c),
{
    c == ' ' || c == '\t' || c == '\n' || c == '\u{c}' || c == '\r'
}

/// Whether `c` belongs to the class `cls`.
pub fn class_has(cls: CharClass, c: char) -> (res: bool)
    ensures
        res == in_class(cls, c),
{
    match cls {
        CharClass::Digit => ascii_digit(c),
        CharClass::Alpha => ('a' <= c && c <= 'z') || ('A' <= c && c <= 'Z'),
        CharClass::Alnum => ascii_alnum(c),
        CharClass::Upper => 'A' <= c && c <= 'Z',
        CharClass::Lower => 'a' <= c && c <= 'z',
        CharClass::DigitOrX => ascii_digit(c) || c == 'x' || c == 'X',
        CharClass::DigitOrLowerX => ascii_digit(c) || c == 'x',
        CharClass::DigitOrSlash => ascii_digit(c) || c == '/',
        CharClass::DigitOrDot => ascii_digit(c) || c == '.',
        CharClass::DigitOrLower => ascii_digit(c) || ('a' <= c && c <= 'z'),
        CharClass::AlnumDash => ascii_alnum(c) || c == '-',
        CharClass::AlnumDot => ascii_alnum(c) || c == '.',
        CharClass::AlnumSpace => ascii_alnum(c) || c == ' ',
        CharClass::AlnumDotDash => ascii_alnum(c) || c == '.' || c == '-',
        CharClass::AlnumDashUnderscore => ascii_alnum(c) || c == '-' || c == '_',
        CharClass::AlnumDashUnderscoreDot => ascii_alnum(c) || c == '-' || c == '_' || c == '.',
        CharClass::AlnumDotUnderscoreSpace => ascii_alnum(c) || c == '.' || c == '_'
            || ascii_whitespace(c),
        CharClass::UniAlnumDotDash => char_is_alphanumeric(c) || c == '.' || c == '-',
        CharClass::UniAlnumUnderscoreSpace => char_is_alphanumeric(c) || c == '_'
            || ascii_whitespace(c),
        CharClass::Not(d) => c != d,
        CharClass::Is(d) => c == d,
        CharClass::Word => char_is_regex_word(c),
        CharClass::WordDashParens => char_is_regex_word(c) || c == '-' || c == '(' || c == ')',
        CharClass::UniDigit => char_is_regex_digit(c),
        CharClass::UniDigitOrX => char_is_regex_digit(c) || c == 'x' || c == 'X',
    }
}

/// The length of the longest run of characters of class `cls` that starts
/// at `p`, but no longer than `max`.
pub open spec fn span(s: Seq<char>, p: int, cls: CharClass, max: nat) -> nat
    decreases max,
{
    if max == 0 || p < 0 || p >= s.len() || !in_class(cls, s[p]) {
        0
    } else {
        1 + span(s, p + 1, cls, (max - 1) as nat)
    }
}

/// A run is made of characters of its class, and stops at the end, at `max`,
/// or before a character outside the class.
pub proof fn lemma_span(s: Seq<char>, p: int, cls: CharClass, max: nat)
    requires
        0 <= p <= s.len(),
    ensures
        p + span(s, p, cls, max) <= s.len(),
        span(s, p, cls, max) <= max,
        forall|i: int| p <= i < p + span(s, p, cls, max) ==> in_class(cls, #[trigger] s[i]),
        span(s, p, cls, max) < max && p + span(s, p, cls, max) < s.len() ==> !in_class(
            cls,
            s[p + span(s, p, cls, max)],
        ),
    decreases max,
{
    if max == 0 || p >= s.len() || !in_class(cls, s[p]) {
    } else {
        lemma_span(s, p + 1, cls, (max - 1) as nat);
    }
}

/// Takes the run of characters of class `cls` at `p`, at most `max` of them,
/// and returns its length.
pub fn take_while(cs: &Vec<char>, p: usize, cls: CharClass, max: usize) -> (res: usize)
    requires
        p <= cs@.len(),
    ensures
        res == span(cs@, p as int, cls, max as nat),
        p + res <= cs@.len(),
{
    let mut i = p;
    while i < cs.len() && i - p < max && class_has(cls, cs[i])
        invariant
            p <= i <= cs@.len(),
            i - p <= max,
            span(cs@, p as int, cls, max as nat) == (i - p) + span(
                cs@,
                i as int,
                cls,
                (max - (i - p)) as nat,
            ),
        decreases cs@.len() - i,
    {
        i = i + 1;
    }
    i - p
}

/// Whether `t` occurs in `s` at position `p`.
pub open spec fn has_at(s: Seq<char>, p: int, t: Seq<char>) -> bool {
    0 <= p && p + t.len() <= s.len() && s.subrange(p, p + t.len()) =~= t
}

/// Whether the characters of `t` occur in `cs` at position `p`.
pub fn tag_at(cs: &Vec<char>, p: usize, t: &str) -> (res: bool)
    ensures
        res == has_at(cs@, p as int, t@),
{
    let tc = chars_of(t);
    if p > cs.len() || tc.len() > cs.len() - p {
        return false;
    }
    let mut i: usize = 0;
    while i < tc.len()
        invariant
            tc@ == t@,
            p + tc.len() <= cs.len(),
            i <= tc@.len(),
            forall|j: int| 0 <= j < i ==> cs@[p + j] == tc@[j],
        decreases tc@.len() - i,
    {
        if cs[p + i] != tc[i] {
            assert(cs@.subrange(p as int, p + tc@.len())[i as int] != tc@[i as int]);
            return false;
        }
        i = i + 1;
    }
    assert(cs@.subrange(p as int, p + tc@.len()) =~= tc@);
    true
}

/// Whether `cs[from..to]` holds exactly the characters of `t`.
pub fn range_is(cs: &Vec<char>, from: usize, to: usize, t: &str) -> (res: bool)
    requires
        from <= to <= cs@.len(),
    ensures
        res == (cs@.subrange(from as int, to as int) == t@),
{
    let n = t.unicode_len();
    if to - from != n {
        proof {
            if cs@.subrange(from as int, to as int) == t@ {
                assert(cs@.subrange(from as int, to as int).len() == t@.len());
            }
        }
        return false;
    }
    let r = tag_at(cs, from, t);
    proof {
        if cs@.subrange(from as int, to as int) == t@ {
            assert(cs@.subrange(from as int, from + t@.len()) =~= t@);
        }
        if r {
            assert(cs@.subrange(from as int, to as int) =~= t@);
        }
    }
    r
}

/// Whether the character `c` is at position `p` of `s`.
pub open spec fn char_at(s: Seq<char>, p: int, c: char) -> bool {
    0 <= p < s.len() && s[p] == c
}

/// Whether `c` is at position `p` of `cs`.
pub fn is_char_at(cs: &Vec<char>, p: usize, c: char) -> (res: bool)
    ensures
        res == char_at(cs@, p as int, c),
{
    p < cs.len() && cs[p] == c
}

/// The first position at or after `p` where `t` occurs in `s`.
pub open spec fn find_from(s: Seq<char>, p: int, t: Seq<char>) -> Option<int>
    decreases s.len() - p,
{
    if p < 0 || p + t.len() > s.len() {
        None
    } else if has_at(s, p, t) {
        Some(p)
    } else {
        find_from(s, p + 1, t)
    }
}

pub proof fn lemma_find_from(s: Seq<char>, p: int, t: Seq<char>)
    requires
        0 <= p,
    ensures
        find_from(s, p, t) matches Some(q) ==> p <= q && q + t.len() <= s.len() && has_at(s, q, t),
        find_from(s, p, t) matches Some(q) ==> forall|k: int| p <= k < q ==> !has_at(s, k, t),
        find_from(s, p, t) is None ==> forall|k: int| p <= k ==> !has_at(s, k, t),
    decreases s.len() - p,
{
    if p + t.len() > s.len() {
    } else if has_at(s, p, t) {
    } else {
        lemma_find_from(s, p + 1, t);
    }
}

/// The first position at or after `p` where `t` occurs in `cs`.
pub fn find_tag(cs: &Vec<char>, p: usize, t: &str) -> (res: Option<usize>)
    ensures
        match res {
            Some(q) => find_from(cs@, p as int, t@) == Some(q as int),
            None => find_from(cs@, p as int, t@) is None,
        },
{
    let tlen = t.unicode_len();
    let mut i = p;
    while i <= cs.len() && tlen <= cs.len() - i
        invariant
            tlen == t@.len(),
            p <= i,
            find_from(cs@, p as int, t@) == find_from(cs@, i as int, t@),
        decreases cs@.len() + 1 - i,
    {
        if tag_at(cs, i, t) {
            return Some(i);
        }
        i = i + 1;
    }
    None
}

/// The position of the first character from `p` on that is not whitespace,
/// or `s.len()`.
pub open spec fn skip_ws(s: Seq<char>, p: int) -> int
    decreases s.len() - p,
{
    if p < 0 || p >= s.len() || !is_whitespace(s[p]) {
        p
    } else {
        skip_ws(s, p + 1)
    }
}

/// The end of `s.subrange(from, to)` once whitespace at its end is removed.
pub open spec fn trim_end_pos(s: Seq<char>, from: int, to: int) -> int
    decreases to - from,
{
    if to <= from || !is_whitespace(s[to - 1]) {
        to
    } else {
        trim_end_pos(s, from, to - 1)
    }
}

/// The characters that `str::trim` removes from both ends of `s.subrange(from, to)` are gone.
pub open spec fn trimmed(s: Seq<char>, from: int, to: int) -> Seq<char> {
    let a = trim_start_pos(s, from, to);
    s.subrange(a, trim_end_pos(s, a, to))
}

/// The start of `s.subrange(from, to)` once whitespace at its start is removed.
pub open spec fn trim_start_pos(s: Seq<char>, from: int, to: int) -> int
    decreases to - from,
{
    if to <= from || !is_whitespace(s[from]) {
        from
    } else {
        trim_start_pos(s, from + 1, to)
    }
}

pub proof fn lemma_trim_bounds(s: Seq<char>, from: int, to: int)
    requires
        0 <= from <= to <= s.len(),
    ensures
        from <= trim_start_pos(s, from, to) <= to,
        trim_start_pos(s, from, to) <= trim_end_pos(s, trim_start_pos(s, from, to), to) <= to,
    decreases to - from,
{
    if to <= from || !is_whitespace(s[from]) {
    } else {
        lemma_trim_bounds(s, from + 1, to);
    }
    lemma_trim_end_bounds(s, trim_start_pos(s, from, to), to);
}

pub proof fn lemma_trim_end_bounds(s: Seq<char>, from: int, to: int)
    requires
        0 <= from <= to <= s.len(),
    ensures
        from <= trim_end_pos(s, from, to) <= to,
    decreases to - from,
{
    if to <= from || !is_whitespace(s[to - 1]) {
    } else {
        lemma_trim_end_bounds(s, from, to - 1);
    }
}

/// Whether `c` has the Unicode `White_Space` property.
pub fn whitespace(c: char) -> (res: bool)
    ensures
        res == is_whitespace(c),
{
    ('\u{9}' <= c && c <= '\u{d}') || c == ' ' || c == '\u{85}' || c == '\u{a0}' || c
        == '\u{1680}' || ('\u{2000}' <= c && c <= '\u{200a}') || c == '\u{2028}' || c
        == '\u{2029}' || c == '\u{202f}' || c == '\u{205f}' || c == '\u{3000}'
}

/// The bounds of `cs[from..to]` once whitespace is removed at both ends, as `str::trim` does.
pub fn trim_range(cs: &Vec<char>, from: usize, to: usize) -> (res: (usize, usize))
    requires
        from <= to <= cs@.len(),
    ensures
        res.0 == trim_start_pos(cs@, from as int, to as int),
        res.1 == trim_end_pos(cs@, res.0 as int, to as int),
        from <= res.0 <= res.1 <= to,
{
    proof {
        lemma_trim_bounds(cs@, from as int, to as int);
    }
    let mut a = from;
    while a < to && whitespace(cs[a])
        invariant
            from <= a <= to <= cs@.len(),
            trim_start_pos(cs@, from as int, to as int) == trim_start_pos(cs@, a as int, to as int),
        decreases to - a,
    {
        a = a + 1;
    }
    let mut b = to;
    while b > a && whitespace(cs[b - 1])
        invariant
            a <= b <= to <= cs@.len(),
            trim_end_pos(cs@, a as int, to as int) == trim_end_pos(cs@, a as int, b as int),
        decreases b - a,
    {
        b = b - 1;
    }
    (a, b)
}


/// The characters of an optional string.
pub open spec fn opt_view(o: Option<String>) -> Option<Seq<char>> {
    match o {
        Some(x) => Some(x@),
        None => None,
    }
}

/// The length of the run of characters of class `cls` that starts at `p`.
pub open spec fn run(s: Seq<char>, p: int, cls: CharClass) -> nat {
    span(s, p, cls, s.len())
}

pub proof fn lemma_run(s: Seq<char>, p: int, cls: CharClass)
    requires
        0 <= p <= s.len(),
    ensures
        p + run(s, p, cls) <= s.len(),
        forall|i: int| p <= i < p + run(s, p, cls) ==> in_class(cls, #[trigger] s[i]),
        p + run(s, p, cls) < s.len() ==> !in_class(cls, s[p + run(s, p, cls)]),
{
    lemma_span(s, p, cls, s.len());
}

/// The length of the run of characters of class `cls` that starts at `p`.
pub fn run_len(cs: &Vec<char>, p: usize, cls: CharClass) -> (res: usize)
    requires
        p <= cs@.len(),
    ensures
        res == run(cs@, p as int, cls),
        p + res <= cs@.len(),
{
    take_while(cs, p, cls, cs.len())
}

/// Where `t` ends if it occurs at `p`.
pub open spec fn tag_end(s: Seq<char>, p: int, t: Seq<char>) -> Option<int> {
    if has_at(s, p, t) {
        Some(p + t.len())
    } else {
        None
    }
}

/// Where `t` ends if it occurs in `cs` at `p`.
pub fn tag(cs: &Vec<char>, p: usize, t: &str) -> (res: Option<usize>)
    ensures
        match res {
            Some(q) => tag_end(cs@, p as int, t@) == Some(q as int) && q <= cs@.len(),
            None => tag_end(cs@, p as int, t@) is None,
        },
{
    let n = cs.len();
    if tag_at(cs, p, t) {
        assert(p + t@.len() <= n);
        Some(p + t.unicode_len())
    } else {
        None
    }
}

/// The position after `c` if `c` is at `p`.
pub open spec fn char_end(s: Seq<char>, p: int, c: char) -> Option<int> {
    if char_at(s, p, c) {
        Some(p + 1)
    } else {
        None
    }
}

/// The position after `c` if `c` is in `cs` at `p`.
pub fn char_tag(cs: &Vec<char>, p: usize, c: char) -> (res: Option<usize>)
    ensures
        match res {
            Some(q) => char_end(cs@, p as int, c) == Some(q as int) && q <= cs@.len(),
            None => char_end(cs@, p as int, c) is None,
        },
{
    let n = cs.len();
    if is_char_at(cs, p, c) {
        assert(p < n);
        Some(p + 1)
    } else {
        None
    }
}

/// The number that the decimal digits `d` write.
pub open spec fn digits_value(d: Seq<char>) -> int
    decreases d.len(),
{
    if d.len() == 0 {
        0
    } else {
        digits_value(d.drop_last()) * 10 + (d.last() as int - '0' as int)
    }
}

/// Whether every character of `d` is a decimal digit.
pub open spec fn all_digits(d: Seq<char>) -> bool {
    forall|i: int| 0 <= i < d.len() ==> is_ascii_digit(#[trigger] d[i])
}

/// What `str::parse::<i32>` gives: an optional `+` or `-` sign, then at least
/// one decimal digit and nothing else, with a value that fits in an `i32`.
pub open spec fn i32_value(s: Seq<char>) -> Option<i32> {
    let neg = s.len() > 0 && s[0] == '-';
    let signed = s.len() > 0 && (s[0] == '-' || s[0] == '+');
    let d = if signed {
        s.subrange(1, s.len() as int)
    } else {
        s
    };
    let v = if neg {
        -digits_value(d)
    } else {
        digits_value(d)
    };
    if d.len() > 0 && all_digits(d) && i32::MIN <= v <= i32::MAX {
        Some(v as i32)
    } else {
        None
    }
}

proof fn lemma_digits_value_nonneg(d: Seq<char>)
    requires
        all_digits(d),
    ensures
        digits_value(d) >= 0,
    decreases d.len(),
{
    if d.len() > 0 {
        assert(all_digits(d.drop_last()));
        lemma_digits_value_nonneg(d.drop_last());
        assert(is_ascii_digit(d[d.len() - 1]));
    }
}

proof fn lemma_digits_value_prefix(d: Seq<char>, i: int)
    requires
        0 <= i < d.len(),
        all_digits(d),
    ensures
        digits_value(d.subrange(0, i + 1)) == digits_value(d.subrange(0, i)) * 10 + (d[i] as int
            - '0' as int),
        all_digits(d.subrange(0, i + 1)),
{
    assert(d.subrange(0, i + 1).drop_last() =~= d.subrange(0, i));
}

proof fn lemma_digits_value_grows(d: Seq<char>, i: int)
    requires
        0 <= i <= d.len(),
        all_digits(d),
    ensures
        digits_value(d.subrange(0, i)) <= digits_value(d),
    decreases d.len() - i,
{
    if i < d.len() {
        lemma_digits_value_prefix(d, i);
        assert(all_digits(d.subrange(0, i)));
        lemma_digits_value_nonneg(d.subrange(0, i));
        lemma_digits_value_grows(d, i + 1);
    } else {
        assert(d.subrange(0, i) =~= d);
    }
}

/// Parses `s` as `str::parse::<i32>` does.
pub fn parse_i32(s: &str) -> (res: Option<i32>)
    ensures
        res == i32_value(s@),
{
    let cs = chars_of(s);
    let n = cs.len();
    let neg = n > 0 && cs[0] == '-';
    let signed = n > 0 && (cs[0] == '-' || cs[0] == '+');
    let start: usize = if signed {
        1
    } else {
        0
    };
    let ghost d = if signed {
        s@.subrange(1, s@.len() as int)
    } else {
        s@
    };
    assert(d =~= cs@.subrange(start as int, n as int));
    if start >= n {
        return None;
    }
    let mut i = start;
    let mut acc: i64 = 0;
    while i < n
        invariant
            cs@ == s@,
            n == cs@.len(),
            start <= i <= n,
            d == cs@.subrange(start as int, n as int),
            signed == (s@.len() > 0 && (s@[0] == '-' || s@[0] == '+')),
            neg == (s@.len() > 0 && s@[0] == '-'),
            d == (if signed {
                s@.subrange(1, s@.len() as int)
            } else {
                s@
            }),
            start == (if signed {
                1usize
            } else {
                0usize
            }),
            all_digits(cs@.subrange(start as int, i as int)),
            acc == digits_value(cs@.subrange(start as int, i as int)),
            0 <= acc <= 2147483648,
        decreases n - i,
    {
        let c = cs[i];
        if !('0' <= c && c <= '9') {
            proof {
                assert(d[i - start] == c);
                assert(!is_ascii_digit(d[i - start]));
            }
            return None;
        }
        proof {
            assert(cs@.subrange(start as int, i + 1) =~= d.subrange(0, i - start + 1));
            assert(cs@.subrange(start as int, i as int) =~= d.subrange(0, i - start));
            assert(cs@.subrange(start as int, i + 1).drop_last() =~= cs@.subrange(
                start as int,
                i as int,
            ));
            assert(all_digits(cs@.subrange(start as int, i + 1)));
        }
        let next: i64 = acc * 10 + (c as i64 - '0' as i64);
        if next > 2147483648 {
            proof {
                let k: int = i - start;
                if all_digits(d) {
                    lemma_digits_value_prefix(d, k);
                    assert(d.subrange(0, k) =~= cs@.subrange(start as int, i as int));
                    assert(digits_value(d.subrange(0, k + 1)) == next);
                    lemma_digits_value_grows(d, k + 1);
                }
            }
            return None;
        }
        acc = next;
        i = i + 1;
    }
    assert(cs@.subrange(start as int, n as int) =~= d);
    if neg {
        Some((0 - acc) as i32)
    } else if acc > 2147483647 {
        None
    } else {
        Some(acc as i32)
    }
}


/// The body of a tag that opens with `open` at `p`, holds at least one
/// character other than `stop`, and closes with `close` right after that run.
pub open spec fn enclosed(s: Seq<char>, p: int, open: char, stop: char, close: char) -> Option<
    (int, int),
> {
    if char_at(s, p, open) {
        let n = run(s, p + 1, CharClass::Not(stop));
        if n > 0 && char_at(s, p + 1 + n, close) {
            Some((p + 1, p + 1 + n))
        } else {
            None
        }
    } else {
        None
    }
}

/// The bounds of the body of the tag at `p` that `enclosed` describes.
pub fn enclosed_at(cs: &Vec<char>, p: usize, open: char, stop: char, close: char) -> (res: Option<
    (usize, usize),
>)
    ensures
        match res {
            Some((a, b)) => enclosed(cs@, p as int, open, stop, close) == Some((a as int, b as int))
                && a <= b < cs@.len(),
            None => enclosed(cs@, p as int, open, stop, close) is None,
        },
{
    let len = cs.len();
    if !is_char_at(cs, p, open) {
        return None;
    }
    assert(p < len);
    let n = run_len(cs, p + 1, CharClass::Not(stop));
    if n > 0 && is_char_at(cs, p + 1 + n, close) {
        Some((p + 1, p + 1 + n))
    } else {
        None
    }
}

/// An owned copy of a string.
pub fn owned(s: &str) -> (res: String)
    ensures
        res@ == s@,
{
    s.to_owned()
}


/// The end of `cs[from..to]` once whitespace at its end is removed, as `str::trim_end` does.
pub fn trim_end(cs: &Vec<char>, from: usize, to: usize) -> (res: usize)
    requires
        from <= to <= cs@.len(),
    ensures
        res == trim_end_pos(cs@, from as int, to as int),
        from <= res <= to,
{
    proof {
        lemma_trim_end_bounds(cs@, from as int, to as int);
    }
    let mut b = to;
    while b > from && whitespace(cs[b - 1])
        invariant
            from <= b <= to <= cs@.len(),
            trim_end_pos(cs@, from as int, to as int) == trim_end_pos(cs@, from as int, b as int),
        decreases b - from,
    {
        b = b - 1;
    }
    b
}


/// `c` with an ASCII upper-case letter made lower-case.
pub open spec fn lower_char(c: char) -> char {
    if 'A' <= c <= 'Z' {
        ((c as int) + 32) as char
    } else {
        c
    }
}

/// `c` with an ASCII lower-case letter made upper-case.
pub open spec fn upper_char(c: char) -> char {
    if 'a' <= c <= 'z' {
        ((c as int) - 32) as char
    } else {
        c
    }
}

/// The characters of `s` with the ASCII letters made lower-case.
pub open spec fn ascii_lower(s: Seq<char>) -> Seq<char> {
    s.map_values(|c: char| lower_char(c))
}

/// The characters of `s` with the ASCII letters made upper-case.
pub open spec fn ascii_upper(s: Seq<char>) -> Seq<char> {
    s.map_values(|c: char| upper_char(c))
}

/// Calls `str::to_ascii_lowercase`, which std documents as mapping `A` to `Z`
/// to `a` to `z` and leaving every other character as it is.
#[verifier::external_body]
pub(crate) fn to_ascii_lowercase(s: &str) -> (res: String)
    ensures
        res@ == ascii_lower(s@),
{
    s.to_ascii_lowercase()
}

/// Calls `str::to_ascii_uppercase`, which std documents as mapping `a` to `z`
/// to `A` to `Z` and leaving every other character as it is.
#[verifier::external_body]
pub(crate) fn to_ascii_uppercase(s: &str) -> (res: String)
    ensures
        res@ == ascii_upper(s@),
{
    s.to_ascii_uppercase()
}

/// The number of bytes that `c` takes in UTF-8.
pub open spec fn utf8_len(c: char) -> int {
    if c <= '\u{7f}' {
        1
    } else if c <= '\u{7ff}' {
        2
    } else if c <= '\u{ffff}' {
        3
    } else {
        4
    }
}

/// The number of bytes that `s` takes in UTF-8.
pub open spec fn byte_len(s: Seq<char>) -> int
    decreases s.len(),
{
    if s.len() == 0 {
        0
    } else {
        byte_len(s.drop_last()) + utf8_len(s.last())
    }
}

/// The index, from `m` on, of the character that starts at byte `b` of `s`
/// (or `s.len()` when `b` is the length in bytes), if a character starts there.
pub open spec fn char_at_byte_from(s: Seq<char>, b: int, m: int) -> Option<int>
    decreases s.len() + 1 - m,
{
    if m < 0 || m > s.len() {
        None
    } else if byte_len(s.subrange(0, m)) == b {
        Some(m)
    } else if byte_len(s.subrange(0, m)) > b {
        None
    } else {
        char_at_byte_from(s, b, m + 1)
    }
}

/// Whether bytes `from` to `to` of `s` can be sliced: both fall between characters.
pub open spec fn byte_sliceable(s: Seq<char>, from: int, to: int) -> bool {
    char_at_byte_from(s, from, 0) is Some && char_at_byte_from(s, to, 0) is Some
}

/// The characters written in bytes `from` to `to` of `s`, as `&s[from..to]` gives them.
pub open spec fn bytes_slice(s: Seq<char>, from: int, to: int) -> Seq<char> {
    s.subrange(char_at_byte_from(s, from, 0).unwrap(), char_at_byte_from(s, to, 0).unwrap())
}

pub proof fn lemma_byte_len_push(s: Seq<char>, m: int)
    requires
        0 <= m < s.len(),
    ensures
        byte_len(s.subrange(0, m + 1)) == byte_len(s.subrange(0, m)) + utf8_len(s[m]),
{
    assert(s.subrange(0, m + 1).drop_last() =~= s.subrange(0, m));
}

pub proof fn lemma_byte_len_grows(s: Seq<char>, a: int, b: int)
    requires
        0 <= a <= b <= s.len(),
    ensures
        byte_len(s.subrange(0, b)) >= byte_len(s.subrange(0, a)) + (b - a),
    decreases b - a,
{
    if a < b {
        lemma_byte_len_grows(s, a, b - 1);
        lemma_byte_len_push(s, b - 1);
    }
}

pub proof fn lemma_char_at_byte_from(s: Seq<char>, b: int, m: int)
    requires
        0 <= m,
    ensures
        char_at_byte_from(s, b, m) matches Some(i) ==> m <= i <= s.len() && byte_len(
            s.subrange(0, i),
        ) == b,
    decreases s.len() + 1 - m,
{
    if 0 <= m <= s.len() && byte_len(s.subrange(0, m)) < b {
        lemma_char_at_byte_from(s, b, m + 1);
    }
}

pub fn utf8_width(c: char) -> (res: usize)
    ensures
        res == utf8_len(c),
{
    if c <= '\u{7f}' {
        1
    } else if c <= '\u{7ff}' {
        2
    } else if c <= '\u{ffff}' {
        3
    } else {
        4
    }
}

/// The index of the character that starts at byte `b`, if one does.
pub fn char_at_byte(cs: &Vec<char>, b: usize) -> (res: Option<usize>)
    requires
        b <= 64,
    ensures
        match res {
            Some(i) => char_at_byte_from(cs@, b as int, 0) == Some(i as int) && i <= cs@.len(),
            None => char_at_byte_from(cs@, b as int, 0) is None,
        },
{
    let mut m: usize = 0;
    let mut acc: usize = 0;
    assert(cs@.subrange(0, 0) =~= Seq::<char>::empty());
    while m < cs.len() && acc < b
        invariant
            m <= cs@.len(),
            acc == byte_len(cs@.subrange(0, m as int)),
            acc <= b + 4,
            b <= 64,
            char_at_byte_from(cs@, b as int, 0) == char_at_byte_from(cs@, b as int, m as int),
        decreases cs@.len() - m,
    {
        proof {
            lemma_byte_len_push(cs@, m as int);
        }
        acc = acc + utf8_width(cs[m]);
        m = m + 1;
    }
    if acc == b {
        Some(m)
    } else {
        assert(acc < b ==> char_at_byte_from(cs@, b as int, m + 1) is None);
        None
    }
}


pub proof fn lemma_enclosed_bounds(s: Seq<char>, p: int, open: char, stop: char, close: char)
    requires
        enclosed(s, p, open, stop, close) is Some,
    ensures
        ({
            let (a, b) = enclosed(s, p, open, stop, close).unwrap();
            &&& 0 <= p && a == p + 1 && a < b < s.len()
            &&& s[p] == open && s[b] == close
        }),
{
}

/// Whether `cs` takes more than `b` bytes in UTF-8.
pub fn bytes_over(cs: &Vec<char>, b: usize) -> (res: bool)
    requires
        b <= 64,
    ensures
        res == (byte_len(cs@) > b),
{
    let mut m: usize = 0;
    let mut acc: usize = 0;
    assert(cs@.subrange(0, 0) =~= Seq::<char>::empty());
    while m < cs.len() && acc <= b
        invariant
            m <= cs@.len(),
            acc == byte_len(cs@.subrange(0, m as int)),
            acc <= b + 4,
            b <= 64,
        decreases cs@.len() - m,
    {
        proof {
            lemma_byte_len_push(cs@, m as int);
        }
        acc = acc + utf8_width(cs[m]);
        m = m + 1;
    }
    proof {
        lemma_byte_len_grows(cs@, m as int, cs@.len() as int);
        assert(cs@.subrange(0, cs@.len() as int) =~= cs@);
    }
    acc > b
}
} // verus!
