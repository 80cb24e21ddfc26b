//! The No-Intro naming convention, also used by redump.org:
//! `Title (Region) (Flags...)`, such as `Legend of Zelda, The (USA) (Rev 1)`.
//!
//! The tokenizer is lossless: every part of the name is kept in a token.

use vstd::prelude::*;
use crate::error::ParseError;
use crate::naming::common::{
    release_title_from, release_title_of, version_model, version_models, version_text,
    write_version, DevelopmentStatus, FlagType, NameInfo, NameInfoModel, NamingConvention,
    ToNameInfo, VersionModel, VersionTuple,
};
use crate::region::{
    code_end, code_regions, copy_regions, lemma_code_end, region_list, region_list_from, separator,
    Region, RegionFormat,
};
use crate::text::{
    char_at, char_end, char_tag, chars_of, enclosed, enclosed_at, has_at, i32_value,
    is_ascii_alnum, is_ascii_digit, is_ascii_upper, lemma_find_from, lemma_run, lemma_span, lemma_trim_end_bounds, lemma_views_push, opt_view, owned, parse_i32,
    run, run_len, span, str_eq, substr, tag, tag_at, tag_end, take_while, trim_end, trim_end_pos,
    trim_range, views, CharClass,
};

verus! {

/// A parsed language code.
#[derive(Debug, PartialEq, Eq)]
pub struct NoIntroLanguage {
    /// The language code
    pub code: String,
    /// The language variant identifier, appearing after the hyphen
    pub variant: Option<String>,
}

impl NoIntroLanguage {
    /// The language of a tokenizer's (code, variant) pair.
    pub fn from_pair(pair: &(String, Option<String>)) -> (res: NoIntroLanguage)
        ensures
            res.code@ == pair.0@,
            opt_view(res.variant) == opt_view(pair.1),
    {
        NoIntroLanguage {
            code: pair.0.clone(),
            variant: match &pair.1 {
                Some(v) => Some(v.clone()),
                None => None,
            },
        }
    }
}

/// A token in a No-Intro filename.
#[derive(Debug, PartialEq, Eq)]
pub enum NoIntroToken {
    /// The title of the game.
    Title(String),
    /// The region names as written, and the regions they stand for.
    Region(Vec<String>, Vec<Region>),
    /// An unspecified regular flag
    Flag(FlagType, String),
    /// The versions of a version flag, in order, and what follows each of
    /// them in the flag: the separator before the next version, or what
    /// stands before the closing parenthesis.
    Version(Vec<VersionTuple>, Vec<String>),
    /// A beta flag, with what follows `Beta`.
    Beta(Option<String>),
    /// Part number: the kind of part and its number.
    Part(String, String),
    /// A scene number with an optional type: `1234` is `Scene("1234", None)`,
    /// `z123` is `Scene("123", Some("z"))`, `x123` is `Scene("123", Some("x"))`,
    /// `xB123` is `Scene("123", Some("xB"))`.
    Scene(String, Option<String>),
    /// Language codes with their variants.
    Languages(Vec<(String, Option<String>)>),
    /// Spaces that stand between two tokens or at the ends of the title.
    Space(String),
}

/// The characters that the tokens hold.
pub enum NoIntroTokenModel {
    Title(Seq<char>),
    Region(Seq<Seq<char>>, Seq<Region>),
    Flag(FlagType, Seq<char>),
    Version(Seq<VersionModel>, Seq<Seq<char>>),
    Beta(Option<Seq<char>>),
    Part(Seq<char>, Seq<char>),
    Scene(Seq<char>, Option<Seq<char>>),
    Languages(Seq<(Seq<char>, Option<Seq<char>>)>),
    Space(Seq<char>),
}

pub type LanguageModel = (Seq<char>, Option<Seq<char>>);

pub open spec fn language_models(v: Seq<(String, Option<String>)>) -> Seq<LanguageModel> {
    v.map_values(|l: (String, Option<String>)| (l.0@, opt_view(l.1)))
}

impl View for NoIntroToken {
    type V = NoIntroTokenModel;

    open spec fn view(&self) -> NoIntroTokenModel {
        match self {
            NoIntroToken::Title(t) => NoIntroTokenModel::Title(t@),
            NoIntroToken::Region(s, r) => NoIntroTokenModel::Region(views(s@), r@),
            NoIntroToken::Flag(f, t) => NoIntroTokenModel::Flag(*f, t@),
            NoIntroToken::Version(v, p) => NoIntroTokenModel::Version(version_models(v@), views(p@)),
            NoIntroToken::Beta(b) => NoIntroTokenModel::Beta(opt_view(*b)),
            NoIntroToken::Part(a, b) => NoIntroTokenModel::Part(a@, b@),
            NoIntroToken::Scene(a, b) => NoIntroTokenModel::Scene(a@, opt_view(*b)),
            NoIntroToken::Languages(l) => NoIntroTokenModel::Languages(language_models(l@)),
            NoIntroToken::Space(w) => NoIntroTokenModel::Space(w@),
        }
    }
}

pub open spec fn token_models(v: Seq<NoIntroToken>) -> Seq<NoIntroTokenModel> {
    v.map_values(|t: NoIntroToken| t@)
}

/// A token read at some position and the position after it.
pub type Read = Option<(int, NoIntroTokenModel)>;

pub open spec fn read_of(r: Option<(usize, NoIntroToken)>) -> Read {
    match r {
        Some((j, t)) => Some((j as int, t@)),
        None => None,
    }
}

// ---------------------------------------------------------------------------
// The grammar
// ---------------------------------------------------------------------------
/// `(Region, Region...)`: a parenthesized No-Intro region list.
pub open spec fn region_tag(s: Seq<char>, i: int) -> Read {
    match enclosed(s, i, '(', ')', ')') {
        Some((a, b)) => match region_list(RegionFormat::NoIntro, s.subrange(a, b)) {
            Ok((strs, regs)) => Some((b + 1, NoIntroTokenModel::Region(strs, regs))),
            Err(_) => None,
        },
        None => None,
    }
}

/// `[b]`: a bad dump.
pub open spec fn baddump_tag(s: Seq<char>, i: int) -> Read {
    match tag_end(s, i, "[b]"@) {
        Some(j) => Some((j, NoIntroTokenModel::Flag(FlagType::Bracketed, "b"@))),
        None => None,
    }
}

/// `[BIOS]`: a system file.
pub open spec fn bios_tag(s: Seq<char>, i: int) -> Read {
    match tag_end(s, i, "[BIOS]"@) {
        Some(j) => Some((j, NoIntroTokenModel::Flag(FlagType::Bracketed, "BIOS"@))),
        None => None,
    }
}

/// `(...)`: any parenthesized flag, with at least one character.
pub open spec fn additional_tag(s: Seq<char>, i: int) -> Read {
    match enclosed(s, i, '(', ')', ')') {
        Some((a, b)) => Some(
            (b + 1, NoIntroTokenModel::Flag(FlagType::Parenthesized, s.subrange(a, b))),
        ),
        None => None,
    }
}

/// `(Beta)`, or `(Beta ` and letters, digits and spaces, then `)`.
#[verifier::opaque]
pub open spec fn beta_tag(s: Seq<char>, i: int) -> Read {
    match tag_end(s, i, "(Beta"@) {
        Some(j) => if char_at(s, j, ' ') {
            let k = j + 1 + run(s, j + 1, CharClass::AlnumSpace);
            match char_end(s, k, ')') {
                Some(e) => Some((e, NoIntroTokenModel::Beta(Some(s.subrange(j + 1, k))))),
                None => None,
            }
        } else {
            match char_end(s, j, ')') {
                Some(e) => Some((e, NoIntroTokenModel::Beta(None))),
                None => None,
            }
        },
        None => None,
    }
}

/// `(Disc ` and digits, then `)`.
#[verifier::opaque]
pub open spec fn disc_tag(s: Seq<char>, i: int) -> Read {
    match tag_end(s, i, "(Disc "@) {
        Some(j) => {
            let n = run(s, j, CharClass::Digit);
            if n > 0 {
                match char_end(s, j + n, ')') {
                    Some(e) => Some((e, NoIntroTokenModel::Part("Disc"@, s.subrange(j, j + n)))),
                    None => None,
                }
            } else {
                None
            }
        },
        None => None,
    }
}

/// A scene number: four digits; or `xB` and the digits that follow; or `z` or `x` and three digits.
#[verifier::opaque]
pub open spec fn scene_number(s: Seq<char>, i: int) -> Read {
    if span(s, i, CharClass::Digit, 4) == 4 {
        Some((i + 4, NoIntroTokenModel::Scene(s.subrange(i, i + 4), None)))
    } else if has_at(s, i, "xB"@) && run(s, i + 2, CharClass::Digit) > 0 {
        let n = run(s, i + 2, CharClass::Digit) as int;
        Some((i + 2 + n, NoIntroTokenModel::Scene(s.subrange(i + 2, i + 2 + n), Some("xB"@))))
    } else if (char_at(s, i, 'z') || char_at(s, i, 'x')) && span(s, i + 1, CharClass::Digit, 3)
        == 3 {
        Some((i + 4, NoIntroTokenModel::Scene(s.subrange(i + 1, i + 4), Some(seq![s[i]]))))
    } else {
        None
    }
}

/// A scene number followed by ` - `.
pub open spec fn scene_tag(s: Seq<char>, i: int) -> Read {
    match scene_number(s, i) {
        Some((j, t)) => match tag_end(s, j, " - "@) {
            Some(e) => Some((e, t)),
            None => None,
        },
        None => None,
    }
}

/// One language: a two-letter code, with `-` and a variant when one follows.
pub open spec fn language_item(s: Seq<char>, k: int) -> Option<(int, LanguageModel)> {
    if span(s, k, CharClass::Alpha, 2) == 2 {
        let code = s.subrange(k, k + 2);
        let n = run(s, k + 3, CharClass::Alpha);
        if char_at(s, k + 2, '-') && n > 0 {
            Some((k + 3 + n, (code, Some(s.subrange(k + 3, k + 3 + n)))))
        } else {
            Some((k + 2, (code, None)))
        }
    } else {
        None
    }
}

/// The languages that follow, each after a `,`.
pub open spec fn language_rest(s: Seq<char>, k: int, acc: Seq<LanguageModel>) -> (
    int,
    Seq<LanguageModel>,
)
    decreases s.len() - k,
{
    match char_end(s, k, ',') {
        Some(k1) => match language_item(s, k1) {
            Some((k2, l)) => if k < k2 <= s.len() {
                language_rest(s, k2, acc.push(l))
            } else {
                (k, acc)
            },
            None => (k, acc),
        },
        None => (k, acc),
    }
}

/// `(En,Fr,Zh-Hant)`: a list of languages.
#[verifier::opaque]
pub open spec fn language_tag(s: Seq<char>, i: int) -> Read {
    match char_end(s, i, '(') {
        Some(a) => match language_item(s, a) {
            Some((k, l)) => {
                let (k2, ls) = language_rest(s, k, seq![l]);
                match char_end(s, k2, ')') {
                    Some(e) => Some((e, NoIntroTokenModel::Languages(ls))),
                    None => None,
                }
            },
            None => None,
        },
        None => None,
    }
}

/// A dot and what follows it in `cls`, if there is a dot at `b`.
pub open spec fn dot_part(s: Seq<char>, b: int, cls: CharClass) -> (Option<Seq<char>>, int) {
    if char_at(s, b, '.') {
        let m = run(s, b + 1, cls);
        (Some(s.subrange(b + 1, b + 1 + m)), b + 1 + m)
    } else {
        (None, b)
    }
}

/// `v` and digits, then `.` and more, then ` Alt`, each when present.
#[verifier::opaque]
pub open spec fn version_v(s: Seq<char>, k: int) -> Option<(int, VersionModel)> {
    match tag_end(s, k, "v"@) {
        Some(a) => {
            let n = run(s, a, CharClass::Digit);
            if n > 0 {
                let (minor, c) = dot_part(s, a + n, CharClass::UniAlnumDotDash);
                match tag_end(s, c, " Alt"@) {
                    Some(e) => Some(
                        (e, ("v"@, s.subrange(a, a + n), minor, None, Some(seq!["Alt"@]))),
                    ),
                    None => Some((c, ("v"@, s.subrange(a, a + n), minor, None, None))),
                }
            } else {
                None
            }
        },
        None => None,
    }
}

/// `PS3 ` or `PSP ` and a `v` version.
#[verifier::opaque]
pub open spec fn version_playstation(s: Seq<char>, k: int) -> Option<(int, VersionModel)> {
    if (has_at(s, k, "PS3"@) || has_at(s, k, "PSP"@)) && char_at(s, k + 3, ' ') {
        match version_v(s, k + 4) {
            Some((e, v)) => Some((e, (v.0, v.1, v.2, Some(s.subrange(k, k + 3)), v.4))),
            None => None,
        }
    } else {
        None
    }
}

/// A date as redump writes it in BIOS versions: `mm/dd/yy`.
pub open spec fn short_date_at(s: Seq<char>, d: int) -> bool {
    &&& 0 <= d && d + 8 <= s.len()
    &&& is_ascii_digit(s[d]) && is_ascii_digit(s[d + 1])
    &&& s[d + 2] == '/'
    &&& is_ascii_digit(s[d + 3]) && is_ascii_digit(s[d + 4])
    &&& s[d + 5] == '/'
    &&& is_ascii_digit(s[d + 6]) && is_ascii_digit(s[d + 7])
}

/// A space and `Alt`, or a space and one upper-case letter.
pub open spec fn full_version_suffix(s: Seq<char>, d: int) -> (Option<Seq<char>>, int) {
    if char_at(s, d, ' ') {
        if has_at(s, d + 1, "Alt"@) {
            (Some("Alt"@), d + 4)
        } else if d + 1 < s.len() && is_ascii_upper(s[d + 1]) {
            (Some(s.subrange(d + 1, d + 2)), d + 2)
        } else {
            (None, d)
        }
    } else {
        (None, d)
    }
}

/// `Version ` and digits, then `.` and more, a date, and a suffix, each when present.
#[verifier::opaque]
pub open spec fn version_full(s: Seq<char>, k: int) -> Option<(int, VersionModel)> {
    match tag_end(s, k, "Version "@) {
        Some(a) => {
            let n = run(s, a, CharClass::Digit);
            if n > 0 {
                let (minor, c) = dot_part(s, a + n, CharClass::AlnumDotDash);
                let (date, d) = if char_at(s, c, ' ') && short_date_at(s, c + 1) {
                    (Some(s.subrange(c + 1, c + 9)), c + 9)
                } else {
                    (None, c)
                };
                let (suffix, e) = full_version_suffix(s, d);
                let major = s.subrange(a, a + n);
                let suffixes = match (date, suffix) {
                    (None, None) => None,
                    (Some(x), None) => Some(seq![x]),
                    (None, Some(y)) => Some(seq![y]),
                    (Some(x), Some(y)) => Some(seq![x, y]),
                };
                Some((e, ("Version"@, major, minor, None, suffixes)))
            } else {
                None
            }
        },
        None => None,
    }
}

/// `Rev ` and letters or digits, then `.` and more letters or digits when there is a dot.
#[verifier::opaque]
pub open spec fn version_rev(s: Seq<char>, k: int) -> Option<(int, VersionModel)> {
    match tag_end(s, k, "Rev "@) {
        Some(a) => {
            let n = run(s, a, CharClass::Alnum);
            if n > 0 {
                if char_at(s, a + n, '.') {
                    let c = a + n + 1;
                    let m = run(s, c, CharClass::Alnum);
                    Some((c + m, ("Rev"@, s.subrange(a, a + n), Some(s.subrange(c, c + m)), None, None)))
                } else {
                    Some((a + n, ("Rev"@, s.subrange(a, a + n), None, None, None)))
                }
            } else {
                None
            }
        },
        None => None,
    }
}

/// Digits, `.`, digits.
#[verifier::opaque]
pub open spec fn version_dotted(s: Seq<char>, k: int) -> Option<(int, VersionModel)> {
    let n = run(s, k, CharClass::Digit);
    let m = run(s, k + n + 1, CharClass::Digit);
    if n > 0 && char_at(s, k + n, '.') && m > 0 {
        Some(
            (
                k + n + 1 + m,
                (""@, s.subrange(k, k + n), Some(s.subrange(k + n + 1, k + n + 1 + m)), None, None),
            ),
        )
    } else {
        None
    }
}

/// Four letters or digits, as in `v1.07 1023`.
#[verifier::opaque]
pub open spec fn version_four(s: Seq<char>, k: int) -> Option<(int, VersionModel)> {
    if span(s, k, CharClass::Alnum, 4) == 4 {
        Some((k + 4, (""@, s.subrange(k, k + 4), None, None, None)))
    } else {
        None
    }
}

/// The first version of a version flag.
#[verifier::opaque]
pub open spec fn version_first(s: Seq<char>, k: int) -> Option<(int, VersionModel)> {
    if version_playstation(s, k) is Some {
        version_playstation(s, k)
    } else if version_v(s, k) is Some {
        version_v(s, k)
    } else if version_full(s, k) is Some {
        version_full(s, k)
    } else if version_rev(s, k) is Some {
        version_rev(s, k)
    } else {
        version_dotted(s, k)
    }
}

/// A later version of a version flag.
#[verifier::opaque]
pub open spec fn version_next(s: Seq<char>, k: int) -> Option<(int, VersionModel)> {
    if version_playstation(s, k) is Some {
        version_playstation(s, k)
    } else if version_v(s, k) is Some {
        version_v(s, k)
    } else if version_full(s, k) is Some {
        version_full(s, k)
    } else if version_rev(s, k) is Some {
        version_rev(s, k)
    } else {
        version_four(s, k)
    }
}

/// `, `, `,` or ` ` between versions.
pub open spec fn version_separator(s: Seq<char>, k: int) -> Option<int> {
    if has_at(s, k, ", "@) {
        Some(k + 2)
    } else if char_at(s, k, ',') || char_at(s, k, ' ') {
        Some(k + 1)
    } else {
        None
    }
}

/// The versions that follow, each after a separator; `seps` are the
/// separators between the versions read so far.
pub open spec fn version_rest(
    s: Seq<char>,
    k: int,
    acc: Seq<VersionModel>,
    seps: Seq<Seq<char>>,
) -> (int, Seq<VersionModel>, Seq<Seq<char>>)
    decreases s.len() - k,
{
    match version_separator(s, k) {
        Some(k1) => match version_next(s, k1) {
            Some((k2, v)) => if k < k2 <= s.len() {
                version_rest(s, k2, acc.push(v), seps.push(s.subrange(k, k1)))
            } else {
                (k, acc, seps)
            },
            None => (k, acc, seps),
        },
        None => (k, acc, seps),
    }
}

/// The versions of a version flag: a first version, an optional separator,
/// and then any number of versions separated by separators. Beside the
/// versions stands what follows each: the separator after it, and for the
/// last one the separator that no version followed, or nothing.
#[verifier::opaque]
pub open spec fn version_list(s: Seq<char>, k: int) -> Option<(int, Seq<VersionModel>, Seq<Seq<char>>)> {
    match version_first(s, k) {
        Some((k1, v1)) => {
            let k2 = match version_separator(s, k1) {
                Some(x) => x,
                None => k1,
            };
            match version_next(s, k2) {
                Some((k3, v2)) => if k2 < k3 <= s.len() {
                    let (e, vs, seps) = version_rest(s, k3, seq![v1, v2], seq![s.subrange(k1, k2)]);
                    Some((e, vs, seps.push(seq![])))
                } else {
                    Some((k2, seq![v1], seq![s.subrange(k1, k2)]))
                },
                None => Some((k2, seq![v1], seq![s.subrange(k1, k2)])),
            }
        },
        None => None,
    }
}

/// `(v1.07, Rev 1)`: a parenthesized list of versions.
pub open spec fn version_tag(s: Seq<char>, i: int) -> Read {
    match char_end(s, i, '(') {
        Some(a) => match version_list(s, a) {
            Some((k, vs, seps)) => match char_end(s, k, ')') {
                Some(e) => Some((e, NoIntroTokenModel::Version(vs, seps))),
                None => None,
            },
            None => None,
        },
        None => None,
    }
}

/// A flag that follows the region: languages, versions, beta, disc, or any other.
#[verifier::opaque]
pub open spec fn known_flag(s: Seq<char>, i: int) -> Read {
    if language_tag(s, i) is Some {
        language_tag(s, i)
    } else if version_tag(s, i) is Some {
        version_tag(s, i)
    } else if beta_tag(s, i) is Some {
        beta_tag(s, i)
    } else if disc_tag(s, i) is Some {
        disc_tag(s, i)
    } else {
        additional_tag(s, i)
    }
}

/// A region tag that ends the name or is followed by a space and another flag:
/// this is what ends the title.
#[verifier::opaque]
pub open spec fn region_end(s: Seq<char>, k: int) -> Read {
    match region_tag(s, k) {
        Some((j, t)) => if j == s.len() || (char_at(s, j, ' ') && (additional_tag(s, j + 1) is Some
            || baddump_tag(s, j + 1) is Some)) {
            Some((j, t))
        } else {
            None
        },
        None => None,
    }
}

/// The first position from `k` on where the region tag that ends the title
/// stands, the position after it, and its token.
pub open spec fn title_end(s: Seq<char>, k: int) -> Option<(int, int, NoIntroTokenModel)>
    decreases s.len() - k,
{
    if k < 0 || k > s.len() {
        None
    } else {
        match region_end(s, k) {
            Some((j, t)) => Some((k, j, t)),
            None => if k == s.len() {
                None
            } else {
                title_end(s, k + 1)
            },
        }
    }
}

/// The flags that follow, each after an optional space, which stands as a
/// token of its own.
pub open spec fn flags_from(s: Seq<char>, k: int, acc: Seq<NoIntroTokenModel>) -> (
    int,
    Seq<NoIntroTokenModel>,
)
    decreases s.len() - k,
{
    let k1 = if char_at(s, k, ' ') {
        k + 1
    } else {
        k
    };
    match known_flag(s, k1) {
        Some((k2, t)) => if k < k2 <= s.len() {
            let acc1 = if k1 > k {
                acc.push(NoIntroTokenModel::Space(seq![' ']))
            } else {
                acc
            };
            flags_from(s, k2, acc1.push(t))
        } else {
            (k, acc)
        },
        None => (k, acc),
    }
}

/// The tokens with the spaces `w` added, when there are any.
pub open spec fn spaced(toks: Seq<NoIntroTokenModel>, w: Seq<char>) -> Seq<NoIntroTokenModel> {
    if w.len() > 0 {
        toks.push(NoIntroTokenModel::Space(w))
    } else {
        toks
    }
}

/// The tokens of a whole No-Intro name: an optional scene number and `[BIOS]`,
/// the title (up to the region tag, with the spaces at both of its ends as
/// tokens of their own), the region, the flags, and an optional `[b]`, which
/// must end the name.
pub open spec fn nointro_tokens(s: Seq<char>) -> Option<Seq<NoIntroTokenModel>> {
    let (p1, t1) = match scene_tag(s, 0) {
        Some((j, t)) => (j, seq![t]),
        None => (0, Seq::<NoIntroTokenModel>::empty()),
    };
    let (p2, t2) = match bios_tag(s, p1) {
        Some((j, t)) => (j, t1.push(t)),
        None => (p1, t1),
    };
    let p3 = p2 + run(s, p2, CharClass::Is(' '));
    let t2a = spaced(t2, s.subrange(p2, p3));
    match title_end(s, p3) {
        Some((k, j, region)) => {
            let te = trim_end_pos(s, p3, k);
            let title = s.subrange(p3, te);
            let t2b = spaced(t2a.push(NoIntroTokenModel::Title(title)), s.subrange(te, k));
            let (f, t3) = flags_from(s, j, t2b.push(region));
            let f1 = if char_at(s, f, ' ') {
                f + 1
            } else {
                f
            };
            let (e, t4) = match baddump_tag(s, f1) {
                Some((e, t)) => (e, spaced(t3, s.subrange(f, f1)).push(t)),
                None => (f, t3),
            };
            if e == s.len() {
                Some(t4)
            } else {
                None
            }
        },
        None => None,
    }
}

// ---------------------------------------------------------------------------
// Rebuilding a name from its tokens
// ---------------------------------------------------------------------------
/// A minor version as written: a dot and the minor version, when there is one.
pub open spec fn minor_written(m: Option<Seq<char>>) -> Seq<char> {
    match m {
        Some(x) => seq!['.'] + x,
        None => seq![],
    }
}

/// Suffixes as written: each after a space.
pub open spec fn suffixes_written(xs: Seq<Seq<char>>) -> Seq<char>
    decreases xs.len(),
{
    if xs.len() == 0 {
        seq![]
    } else {
        suffixes_written(xs.drop_last()) + seq![' '] + xs.last()
    }
}

/// What a version prefix is written as: `Version` and `Rev` with a space after them.
pub open spec fn version_head(p: Seq<char>) -> Seq<char> {
    if p == "Version"@ {
        "Version "@
    } else if p == "Rev"@ {
        "Rev "@
    } else {
        p
    }
}

/// A version as written.
pub open spec fn version_written(v: VersionModel) -> Seq<char> {
    (match v.3 {
        Some(p) => p + seq![' '],
        None => seq![],
    }) + version_head(v.0) + v.1 + minor_written(v.2) + (match v.4 {
        Some(xs) => suffixes_written(xs),
        None => seq![],
    })
}

/// Versions as written, with the separators `seps` between them.
pub open spec fn versions_between(vs: Seq<VersionModel>, seps: Seq<Seq<char>>) -> Seq<char>
    decreases vs.len(),
{
    if vs.len() <= 1 {
        if vs.len() == 1 {
            version_written(vs[0])
        } else {
            seq![]
        }
    } else {
        versions_between(vs.drop_last(), seps.drop_last()) + seps.last() + version_written(
            vs.last(),
        )
    }
}

/// A language as written: its code, and `-` and its variant when it has one.
pub open spec fn lang_written(l: LanguageModel) -> Seq<char> {
    l.0 + match l.1 {
        Some(v) => seq!['-'] + v,
        None => seq![],
    }
}

/// Languages as written, separated by `,`.
pub open spec fn langs_written(ls: Seq<LanguageModel>) -> Seq<char>
    decreases ls.len(),
{
    if ls.len() <= 1 {
        if ls.len() == 1 {
            lang_written(ls[0])
        } else {
            seq![]
        }
    } else {
        langs_written(ls.drop_last()) + seq![','] + lang_written(ls.last())
    }
}

/// Region names as written, separated by `, `.
pub open spec fn regions_written(codes: Seq<Seq<char>>) -> Seq<char>
    decreases codes.len(),
{
    if codes.len() <= 1 {
        if codes.len() == 1 {
            codes[0]
        } else {
            seq![]
        }
    } else {
        regions_written(codes.drop_last()) + seq![',', ' '] + codes.last()
    }
}

pub open spec fn parenthesized(x: Seq<char>) -> Seq<char> {
    seq!['('] + x + seq![')']
}

/// The text that a token was read from.
pub open spec fn token_written(t: NoIntroTokenModel) -> Seq<char> {
    match t {
        NoIntroTokenModel::Title(x) => x,
        NoIntroTokenModel::Space(w) => w,
        NoIntroTokenModel::Region(codes, _) => parenthesized(regions_written(codes)),
        NoIntroTokenModel::Flag(FlagType::Parenthesized, x) => parenthesized(x),
        NoIntroTokenModel::Flag(FlagType::Bracketed, x) => seq!['['] + x + seq![']'],
        NoIntroTokenModel::Version(vs, seps) => parenthesized(
            versions_between(vs, seps.drop_last()) + seps.last(),
        ),
        NoIntroTokenModel::Beta(None) => "(Beta"@ + seq![')'],
        NoIntroTokenModel::Beta(Some(x)) => "(Beta"@ + seq![' '] + x + seq![')'],
        NoIntroTokenModel::Part(k, n) => parenthesized(k + seq![' '] + n),
        NoIntroTokenModel::Scene(n, p) => (match p {
            Some(x) => x,
            None => seq![],
        }) + n + " - "@,
        NoIntroTokenModel::Languages(ls) => parenthesized(langs_written(ls)),
    }
}

/// The texts of the tokens, one after the other.
pub open spec fn tokens_written(ts: Seq<NoIntroTokenModel>) -> Seq<char>
    decreases ts.len(),
{
    if ts.len() == 0 {
        seq![]
    } else {
        tokens_written(ts.drop_last()) + token_written(ts.last())
    }
}

/// Whether a read from `i` is of the text it covers.
pub open spec fn read_written(s: Seq<char>, i: int, r: Read) -> bool {
    r matches Some((j, t)) ==> 0 <= i <= j <= s.len() && token_written(t) == s.subrange(i, j)
}

proof fn lemma_tokens_written_push(ts: Seq<NoIntroTokenModel>, t: NoIntroTokenModel)
    ensures
        tokens_written(ts.push(t)) == tokens_written(ts) + token_written(t),
{
    assert(ts.push(t).drop_last() =~= ts);
}

proof fn lemma_spaced_written(ts: Seq<NoIntroTokenModel>, w: Seq<char>)
    ensures
        tokens_written(spaced(ts, w)) == tokens_written(ts) + w,
{
    if w.len() > 0 {
        lemma_tokens_written_push(ts, NoIntroTokenModel::Space(w));
    } else {
        assert(tokens_written(ts) + w =~= tokens_written(ts));
    }
}

proof fn lemma_enclosed(s: Seq<char>, p: int, open: char, stop: char, close: char)
    requires
        enclosed(s, p, open, stop, close) is Some,
    ensures
        ({
            let (a, b) = enclosed(s, p, open, stop, close).unwrap();
            &&& 0 <= p && a == p + 1 && a < b < s.len()
            &&& s[p] == open && s[b] == close
        }),
{
}

proof fn lemma_region_list_written(
    s: Seq<char>,
    p: int,
    strs: Seq<Seq<char>>,
    regs: Seq<Region>,
)
    requires
        0 <= p <= s.len(),
        region_list_from(RegionFormat::NoIntro, s, p, strs, regs) is Ok,
    ensures
        regions_written((region_list_from(RegionFormat::NoIntro, s, p, strs, regs)->Ok_0).0) == (
        if strs.len() == 0 {
            seq![]
        } else {
            regions_written(strs) + seq![',', ' ']
        }) + s.subrange(p, s.len() as int),
    decreases s.len() - p,
{
    let fmt = RegionFormat::NoIntro;
    let e = code_end(fmt, s, p);
    let code = s.subrange(p, e);
    lemma_code_end(fmt, s, p);
    lemma_find_from(s, p, separator(fmt));
    let pre = if strs.len() == 0 {
        seq![]
    } else {
        regions_written(strs) + seq![',', ' ']
    };
    let st = strs.push(code);
    assert(st.drop_last() =~= strs);
    assert(regions_written(st) =~= pre + code);
    if e >= s.len() {
        assert(s.subrange(p, s.len() as int) =~= code);
    } else {
        assert(has_at(s, e, seq![',', ' ']));
        assert(s.subrange(e, e + 2) =~= seq![',', ' ']);
        lemma_region_list_written(s, e + 2, st, regs + code_regions(fmt, code).unwrap());
        assert(s.subrange(p, s.len() as int) =~= code + seq![',', ' '] + s.subrange(
            e + 2,
            s.len() as int,
        ));
    }
}

proof fn lemma_region_tag_written(s: Seq<char>, i: int)
    ensures
        read_written(s, i, region_tag(s, i)),
{
    if let Some((j, t)) = region_tag(s, i) {
        lemma_enclosed(s, i, '(', ')', ')');
        let (a, b) = enclosed(s, i, '(', ')', ')').unwrap();
        let x = s.subrange(a, b);
        lemma_region_list_written(x, 0, seq![], seq![]);
        assert(x.subrange(0, x.len() as int) =~= x);
        assert(s.subrange(i, b + 1) =~= seq!['('] + x + seq![')']);
    }
}

proof fn lemma_additional_written(s: Seq<char>, i: int)
    ensures
        read_written(s, i, additional_tag(s, i)),
{
    if let Some((j, t)) = additional_tag(s, i) {
        lemma_enclosed(s, i, '(', ')', ')');
        let (a, b) = enclosed(s, i, '(', ')', ')').unwrap();
        assert(s.subrange(i, b + 1) =~= seq!['('] + s.subrange(a, b) + seq![')']);
    }
}

proof fn lemma_baddump_written(s: Seq<char>, i: int)
    ensures
        read_written(s, i, baddump_tag(s, i)),
        read_written(s, i, bios_tag(s, i)),
{
    reveal_strlit("[b]");
    reveal_strlit("b");
    reveal_strlit("[BIOS]");
    reveal_strlit("BIOS");
    if let Some((j, t)) = baddump_tag(s, i) {
        assert(s.subrange(i, j) =~= seq!['['] + "b"@ + seq![']']);
    }
    if let Some((j, t)) = bios_tag(s, i) {
        assert(s.subrange(i, j) =~= seq!['['] + "BIOS"@ + seq![']']);
    }
}

proof fn lemma_beta_written(s: Seq<char>, i: int)
    ensures
        read_written(s, i, beta_tag(s, i)),
{
    reveal(beta_tag);
    if let Some((e, t)) = beta_tag(s, i) {
        let j = i + "(Beta"@.len();
        if char_at(s, j, ' ') {
            let k = j + 1 + run(s, j + 1, CharClass::AlnumSpace);
            lemma_run(s, j + 1, CharClass::AlnumSpace);
            assert(s.subrange(i, e) =~= "(Beta"@ + seq![' '] + s.subrange(j + 1, k) + seq![')']);
        } else {
            assert(s.subrange(i, e) =~= "(Beta"@ + seq![')']);
        }
    }
}

proof fn lemma_disc_written(s: Seq<char>, i: int)
    ensures
        read_written(s, i, disc_tag(s, i)),
{
    reveal(disc_tag);
    reveal_strlit("(Disc ");
    reveal_strlit("Disc");
    if let Some((e, t)) = disc_tag(s, i) {
        let j = i + 6;
        let n = run(s, j, CharClass::Digit);
        lemma_run(s, j, CharClass::Digit);
        assert(s.subrange(i, e) =~= seq!['('] + "Disc"@ + seq![' '] + s.subrange(j, j + n) + seq![
            ')',
        ]);
        assert(token_written(t) =~= s.subrange(i, e));
    }
}

proof fn lemma_scene_written(s: Seq<char>, i: int)
    ensures
        read_written(s, i, scene_tag(s, i)),
{
    reveal(scene_number);
    reveal_strlit("xB");
    reveal_strlit(" - ");
    if let Some((e, t)) = scene_tag(s, i) {
        let (j, _) = scene_number(s, i).unwrap();
        if span(s, i, CharClass::Digit, 4) == 4 {
            lemma_span(s, i, CharClass::Digit, 4);
        } else if has_at(s, i, "xB"@) && run(s, i + 2, CharClass::Digit) > 0 {
            lemma_run(s, i + 2, CharClass::Digit);
            assert(s.subrange(i, j) =~= "xB"@ + s.subrange(i + 2, j));
        } else {
            lemma_span(s, i + 1, CharClass::Digit, 3);
            assert(s.subrange(i, j) =~= seq![s[i]] + s.subrange(i + 1, j));
        }
        assert(s.subrange(i, e) =~= s.subrange(i, j) + " - "@);
        assert(token_written(t) =~= s.subrange(i, e));
    }
}

proof fn lemma_language_item_written(s: Seq<char>, k: int)
    ensures
        language_item(s, k) matches Some((e, l)) ==> 0 <= k <= e <= s.len() && lang_written(l)
            == s.subrange(k, e),
{
    if let Some((e, l)) = language_item(s, k) {
        lemma_span(s, k, CharClass::Alpha, 2);
        let n = run(s, k + 3, CharClass::Alpha);
        if char_at(s, k + 2, '-') && n > 0 {
            lemma_run(s, k + 3, CharClass::Alpha);
            assert(s.subrange(k, e) =~= s.subrange(k, k + 2) + seq!['-'] + s.subrange(k + 3, e));
        } else {
            assert(lang_written(l) =~= s.subrange(k, k + 2));
        }
    }
}

proof fn lemma_language_rest_written(s: Seq<char>, k: int, acc: Seq<LanguageModel>)
    requires
        0 <= k <= s.len(),
        acc.len() >= 1,
    ensures
        ({
            let (k2, acc2) = language_rest(s, k, acc);
            &&& k <= k2 <= s.len()
            &&& acc2.len() >= 1
            &&& langs_written(acc2) == langs_written(acc) + s.subrange(k, k2)
        }),
    decreases s.len() - k,
{
    match char_end(s, k, ',') {
        Some(k1) => match language_item(s, k1) {
            Some((k2, l)) => if k < k2 <= s.len() {
                lemma_language_item_written(s, k1);
                let a1 = acc.push(l);
                assert(a1.drop_last() =~= acc);
                lemma_language_rest_written(s, k2, a1);
                let (k3, _) = language_rest(s, k2, a1);
                assert(s.subrange(k, k3) =~= seq![','] + s.subrange(k1, k2) + s.subrange(k2, k3));
            } else {
                assert(s.subrange(k, k) =~= Seq::<char>::empty());
            },
            None => {
                assert(s.subrange(k, k) =~= Seq::<char>::empty());
            },
        },
        None => {
            assert(s.subrange(k, k) =~= Seq::<char>::empty());
        },
    }
}

proof fn lemma_language_written(s: Seq<char>, i: int)
    ensures
        read_written(s, i, language_tag(s, i)),
{
    reveal(language_tag);
    if let Some((e, t)) = language_tag(s, i) {
        let a = i + 1;
        let (k, l) = language_item(s, a).unwrap();
        lemma_language_item_written(s, a);
        lemma_language_rest_written(s, k, seq![l]);
        let (k2, ls) = language_rest(s, k, seq![l]);
        assert(langs_written(seq![l]) == lang_written(l));
        assert(s.subrange(i, e) =~= seq!['('] + s.subrange(a, k) + s.subrange(k, k2) + seq![')']);
        assert(token_written(t) =~= s.subrange(i, e));
    }
}

proof fn lemma_dot_part_written(s: Seq<char>, b: int, cls: CharClass)
    requires
        0 <= b <= s.len(),
    ensures
        ({
            let (m, c) = dot_part(s, b, cls);
            b <= c <= s.len() && minor_written(m) == s.subrange(b, c)
        }),
{
    if char_at(s, b, '.') {
        lemma_run(s, b + 1, cls);
        let c = b + 1 + run(s, b + 1, cls);
        assert(s.subrange(b, c) =~= seq!['.'] + s.subrange(b + 1, c));
    } else {
        assert(s.subrange(b, b) =~= Seq::<char>::empty());
    }
}

proof fn lemma_heads()
    ensures
        version_head("v"@) == "v"@,
        version_head(""@) == ""@,
        version_head("Rev"@) == "Rev "@,
        version_head("Version"@) == "Version "@,
{
    reveal_strlit("v");
    reveal_strlit("Rev");
    reveal_strlit("Version");
    reveal_strlit("");
    assert("v"@.len() == 1);
    assert("Rev"@.len() == 3);
    assert("Version"@.len() == 7);
    assert(""@.len() == 0);
    assert("v"@ != "Version"@);
    assert("v"@ != "Rev"@);
    assert(""@ != "Version"@);
    assert(""@ != "Rev"@);
    assert("Rev"@ != "Version"@);
    reveal_strlit("v");
    reveal_strlit("");
    reveal_strlit("Rev");
    reveal_strlit("Version");
}

/// What a version reader gives is of the text it covers.
pub open spec fn vread_written(s: Seq<char>, k: int, r: Option<(int, VersionModel)>) -> bool {
    r matches Some((e, v)) ==> 0 <= k <= e <= s.len() && version_written(v) == s.subrange(k, e)
}

proof fn lemma_version_v_written(s: Seq<char>, k: int)
    ensures
        vread_written(s, k, version_v(s, k)),
{
    reveal(version_v);
    lemma_heads();
    reveal_strlit("v");
    reveal_strlit(" Alt");
    reveal_strlit("Alt");
    if let Some((e, v)) = version_v(s, k) {
        let a = k + 1;
        let n = run(s, a, CharClass::Digit);
        lemma_run(s, a, CharClass::Digit);
        lemma_dot_part_written(s, a + n, CharClass::UniAlnumDotDash);
        let (minor, c) = dot_part(s, a + n, CharClass::UniAlnumDotDash);
        assert(s.subrange(k, a) =~= "v"@);
        if has_at(s, c, " Alt"@) {
            lemma_suffixes_one("Alt"@);
            assert(s.subrange(k, e) =~= s.subrange(k, a) + s.subrange(a, a + n) + s.subrange(
                a + n,
                c,
            ) + s.subrange(c, e));
            assert(version_written(v) =~= s.subrange(k, e));
        } else {
            assert(s.subrange(k, e) =~= s.subrange(k, a) + s.subrange(a, a + n) + s.subrange(
                a + n,
                c,
            ));
            assert(version_written(v) =~= s.subrange(k, e));
        }
    }
}

proof fn lemma_version_playstation_written(s: Seq<char>, k: int)
    ensures
        vread_written(s, k, version_playstation(s, k)),
{
    reveal(version_playstation);
    if let Some((e, v)) = version_playstation(s, k) {
        lemma_version_v_written(s, k + 4);
        let (e2, w) = version_v(s, k + 4).unwrap();
        reveal(version_v);
        assert(version_written(v) =~= s.subrange(k, k + 3) + seq![' '] + version_written(w));
        assert(s.subrange(k, e) =~= s.subrange(k, k + 3) + seq![' '] + s.subrange(k + 4, e));
    }
}

proof fn lemma_suffixes_one(x: Seq<char>)
    ensures
        suffixes_written(seq![x]) == seq![' '] + x,
{
    assert(seq![x].drop_last() =~= Seq::<Seq<char>>::empty());
    assert(suffixes_written(Seq::<Seq<char>>::empty()) == Seq::<char>::empty());
    assert(suffixes_written(seq![x]) =~= seq![' '] + x);
}

proof fn lemma_suffixes_two(x: Seq<char>, y: Seq<char>)
    ensures
        suffixes_written(seq![x, y]) == seq![' '] + x + seq![' '] + y,
{
    assert(seq![x, y].drop_last() =~= seq![x]);
    lemma_suffixes_one(x);
    assert(suffixes_written(seq![x, y]) =~= seq![' '] + x + seq![' '] + y);
}

proof fn lemma_version_full_written(s: Seq<char>, k: int)
    ensures
        vread_written(s, k, version_full(s, k)),
{
    reveal(version_full);
    lemma_heads();
    reveal_strlit("Version ");
    reveal_strlit(" Alt");
    reveal_strlit("Alt");
    if let Some((e, v)) = version_full(s, k) {
        let a = k + 8;
        let n = run(s, a, CharClass::Digit);
        lemma_run(s, a, CharClass::Digit);
        lemma_dot_part_written(s, a + n, CharClass::AlnumDotDash);
        let (minor, c) = dot_part(s, a + n, CharClass::AlnumDotDash);
        let (date, d) = if char_at(s, c, ' ') && short_date_at(s, c + 1) {
            (Some(s.subrange(c + 1, c + 9)), c + 9)
        } else {
            (None, c)
        };
        let (suffix, e2) = full_version_suffix(s, d);
        assert(e2 == e);
        let dt = match date {
            Some(x) => seq![' '] + x,
            None => seq![],
        };
        let sf = match suffix {
            Some(y) => seq![' '] + y,
            None => seq![],
        };
        assert(s.subrange(c, d) =~= dt);
        assert(s.subrange(d, e) =~= sf);
        match (date, suffix) {
            (Some(x), Some(y)) => {
                lemma_suffixes_two(x, y);
            },
            (Some(x), None) => {
                lemma_suffixes_one(x);
            },
            (None, Some(y)) => {
                lemma_suffixes_one(y);
            },
            (None, None) => {},
        }
        assert(s.subrange(k, e) =~= "Version "@ + s.subrange(a, a + n) + s.subrange(a + n, c) + dt
            + sf);
        assert(version_written(v) =~= s.subrange(k, e));
    }
}

proof fn lemma_version_rev_written(s: Seq<char>, k: int)
    ensures
        vread_written(s, k, version_rev(s, k)),
{
    reveal(version_rev);
    lemma_heads();
    reveal_strlit("Rev ");
    if let Some((e, v)) = version_rev(s, k) {
        let a = k + 4;
        let n = run(s, a, CharClass::Alnum);
        lemma_run(s, a, CharClass::Alnum);
        if char_at(s, a + n, '.') {
            let c = a + n + 1;
            lemma_run(s, c, CharClass::Alnum);
            assert(s.subrange(k, e) =~= "Rev "@ + s.subrange(a, a + n) + seq!['.'] + s.subrange(
                c,
                e,
            ));
            assert(version_written(v) =~= s.subrange(k, e));
        } else {
            assert(s.subrange(k, e) =~= "Rev "@ + s.subrange(a, a + n));
            assert(version_written(v) =~= s.subrange(k, e));
        }
    }
}

proof fn lemma_version_plain_written(s: Seq<char>, k: int)
    ensures
        vread_written(s, k, version_dotted(s, k)),
        vread_written(s, k, version_four(s, k)),
{
    reveal(version_dotted);
    reveal(version_four);
    lemma_heads();
    reveal_strlit("");
    if let Some((e, v)) = version_dotted(s, k) {
        let n = run(s, k, CharClass::Digit);
        lemma_run(s, k, CharClass::Digit);
        lemma_run(s, k + n + 1, CharClass::Digit);
        assert(s.subrange(k, e) =~= ""@ + s.subrange(k, k + n) + seq!['.'] + s.subrange(
            k + n + 1,
            e,
        ));
        assert(version_written(v) =~= s.subrange(k, e));
    }
    if let Some((e, v)) = version_four(s, k) {
        lemma_span(s, k, CharClass::Alnum, 4);
        assert(s.subrange(k, e) =~= ""@ + s.subrange(k, k + 4));
        assert(version_written(v) =~= s.subrange(k, e));
    }
}

proof fn lemma_version_choice_written(s: Seq<char>, k: int)
    ensures
        vread_written(s, k, version_first(s, k)),
        vread_written(s, k, version_next(s, k)),
{
    reveal(version_first);
    reveal(version_next);
    lemma_version_playstation_written(s, k);
    lemma_version_v_written(s, k);
    lemma_version_full_written(s, k);
    lemma_version_rev_written(s, k);
    lemma_version_plain_written(s, k);
}

proof fn lemma_version_separator(s: Seq<char>, k: int)
    ensures
        version_separator(s, k) matches Some(k1) ==> 0 <= k < k1 <= s.len(),
{
    reveal_strlit(", ");
}

proof fn lemma_between_push(
    vs: Seq<VersionModel>,
    seps: Seq<Seq<char>>,
    sep: Seq<char>,
    v: VersionModel,
)
    requires
        vs.len() >= 1,
    ensures
        versions_between(vs.push(v), seps.push(sep)) == versions_between(vs, seps) + sep
            + version_written(v),
{
    assert(vs.push(v).drop_last() =~= vs);
    assert(seps.push(sep).drop_last() =~= seps);
}

proof fn lemma_version_rest_written(
    s: Seq<char>,
    k: int,
    acc: Seq<VersionModel>,
    seps: Seq<Seq<char>>,
)
    requires
        0 <= k <= s.len(),
        acc.len() >= 1,
        seps.len() + 1 == acc.len(),
    ensures
        ({
            let (k2, acc2, seps2) = version_rest(s, k, acc, seps);
            &&& k <= k2 <= s.len()
            &&& acc2.len() >= 1
            &&& seps2.len() + 1 == acc2.len()
            &&& versions_between(acc2, seps2) == versions_between(acc, seps) + s.subrange(k, k2)
        }),
    decreases s.len() - k,
{
    lemma_version_separator(s, k);
    match version_separator(s, k) {
        Some(k1) => match version_next(s, k1) {
            Some((k2, v)) => if k < k2 <= s.len() {
                lemma_version_choice_written(s, k1);
                let sep = s.subrange(k, k1);
                lemma_between_push(acc, seps, sep, v);
                lemma_version_rest_written(s, k2, acc.push(v), seps.push(sep));
                let (k3, _, _) = version_rest(s, k2, acc.push(v), seps.push(sep));
                assert(s.subrange(k, k3) =~= sep + s.subrange(k1, k2) + s.subrange(k2, k3));
            } else {
                assert(s.subrange(k, k) =~= Seq::<char>::empty());
            },
            None => {
                assert(s.subrange(k, k) =~= Seq::<char>::empty());
            },
        },
        None => {
            assert(s.subrange(k, k) =~= Seq::<char>::empty());
        },
    }
}

proof fn lemma_version_list_two(s: Seq<char>, k: int, k1: int, k2: int, v1: VersionModel)
    requires
        0 <= k <= k1 <= k2 <= s.len(),
        version_written(v1) == s.subrange(k, k1),
        version_next(s, k2) matches Some((k3, v2)) && k2 < k3 <= s.len(),
    ensures
        ({
            let (k3, v2) = version_next(s, k2).unwrap();
            let sep1 = s.subrange(k1, k2);
            let (e3, vs3, seps3) = version_rest(s, k3, seq![v1, v2], seq![sep1]);
            &&& k <= e3 <= s.len()
            &&& vs3.len() >= 1
            &&& seps3.len() + 1 == vs3.len()
            &&& versions_between(vs3, seps3) == s.subrange(k, e3)
        }),
{
    let (k3, v2) = version_next(s, k2).unwrap();
    lemma_version_choice_written(s, k2);
    let sep1 = s.subrange(k1, k2);
    assert(versions_between(seq![v1], Seq::<Seq<char>>::empty()) == version_written(v1));
    lemma_between_push(seq![v1], Seq::<Seq<char>>::empty(), sep1, v2);
    assert(seq![v1].push(v2) =~= seq![v1, v2]);
    assert(Seq::<Seq<char>>::empty().push(sep1) =~= seq![sep1]);
    lemma_version_rest_written(s, k3, seq![v1, v2], seq![sep1]);
    let (e3, vs3, seps3) = version_rest(s, k3, seq![v1, v2], seq![sep1]);
    assert(s.subrange(k, e3) =~= s.subrange(k, k1) + sep1 + s.subrange(k2, k3) + s.subrange(
        k3,
        e3,
    ));
}

proof fn lemma_version_list_written(s: Seq<char>, k: int)
    ensures
        version_list(s, k) matches Some((e, vs, seps)) ==> 0 <= k <= e <= s.len() && vs.len()
            >= 1 && seps.len() == vs.len() && versions_between(vs, seps.drop_last()) + seps.last()
            == s.subrange(k, e),
{
    reveal(version_list);
    if let Some((e, vs, seps)) = version_list(s, k) {
        lemma_version_choice_written(s, k);
        let (k1, v1) = version_first(s, k).unwrap();
        lemma_version_separator(s, k1);
        let k2 = match version_separator(s, k1) {
            Some(x) => x,
            None => k1,
        };
        let sep1 = s.subrange(k1, k2);
        if version_next(s, k2) matches Some((k3, v2)) && k2 < k3 <= s.len() {
            lemma_version_list_two(s, k, k1, k2, v1);
            let (k3, v2) = version_next(s, k2).unwrap();
            let (e3, vs3, seps3) = version_rest(s, k3, seq![v1, v2], seq![sep1]);
            assert(seps3.push(seq![]).drop_last() =~= seps3);
            assert(versions_between(vs3, seps3) + seq![] =~= versions_between(vs3, seps3));
        } else {
            assert(seq![sep1].drop_last() =~= Seq::<Seq<char>>::empty());
            assert(versions_between(seq![v1], Seq::<Seq<char>>::empty()) == version_written(v1));
            assert(s.subrange(k, k2) =~= s.subrange(k, k1) + sep1);
        }
    }
}

proof fn lemma_version_tag_written(s: Seq<char>, i: int)
    ensures
        read_written(s, i, version_tag(s, i)),
{
    if let Some((e, t)) = version_tag(s, i) {
        let k = i + 1;
        lemma_version_list_written(s, k);
        let (k4, vs, seps) = version_list(s, k).unwrap();
        assert(s.subrange(i, e) =~= seq!['('] + s.subrange(k, k4) + seq![')']);
    }
}

proof fn lemma_known_flag_written(s: Seq<char>, i: int)
    ensures
        read_written(s, i, known_flag(s, i)),
{
    reveal(known_flag);
    lemma_language_written(s, i);
    lemma_version_tag_written(s, i);
    lemma_beta_written(s, i);
    lemma_disc_written(s, i);
    lemma_additional_written(s, i);
}

proof fn lemma_flags_written(s: Seq<char>, k: int, acc: Seq<NoIntroTokenModel>)
    requires
        0 <= k <= s.len(),
    ensures
        ({
            let (k2, acc2) = flags_from(s, k, acc);
            &&& k <= k2 <= s.len()
            &&& tokens_written(acc2) == tokens_written(acc) + s.subrange(k, k2)
        }),
    decreases s.len() - k,
{
    let k1 = if char_at(s, k, ' ') {
        k + 1
    } else {
        k
    };
    match known_flag(s, k1) {
        Some((k2, t)) => if k < k2 <= s.len() {
            lemma_known_flag_written(s, k1);
            let acc1 = if k1 > k {
                acc.push(NoIntroTokenModel::Space(seq![' ']))
            } else {
                acc
            };
            if k1 > k {
                lemma_tokens_written_push(acc, NoIntroTokenModel::Space(seq![' ']));
            }
            assert(tokens_written(acc1) =~= tokens_written(acc) + s.subrange(k, k1));
            lemma_tokens_written_push(acc1, t);
            lemma_flags_written(s, k2, acc1.push(t));
            let (k3, _) = flags_from(s, k2, acc1.push(t));
            assert(s.subrange(k, k3) =~= s.subrange(k, k1) + s.subrange(k1, k2) + s.subrange(
                k2,
                k3,
            ));
        } else {
            assert(s.subrange(k, k) =~= Seq::<char>::empty());
        },
        None => {
            assert(s.subrange(k, k) =~= Seq::<char>::empty());
        },
    }
}

proof fn lemma_title_end(s: Seq<char>, k: int)
    requires
        0 <= k,
    ensures
        title_end(s, k) matches Some((k2, j, t)) ==> k <= k2 && region_tag(s, k2) == Some((j, t)),
    decreases s.len() - k,
{
    reveal(region_end);
    if k <= s.len() && region_end(s, k) is None && k < s.len() {
        lemma_title_end(s, k + 1);
    }
}

/// A No-Intro name is written by its tokens: the texts that the tokens were
/// read from, one after the other, are the name.
/// The tokens before the title, and where the title starts.
pub open spec fn name_head(s: Seq<char>) -> (int, Seq<NoIntroTokenModel>) {
    let (p1, t1) = match scene_tag(s, 0) {
        Some((j, t)) => (j, seq![t]),
        None => (0, Seq::<NoIntroTokenModel>::empty()),
    };
    let (p2, t2) = match bios_tag(s, p1) {
        Some((j, t)) => (j, t1.push(t)),
        None => (p1, t1),
    };
    let p3 = p2 + run(s, p2, CharClass::Is(' '));
    (p3, spaced(t2, s.subrange(p2, p3)))
}

proof fn lemma_name_head(s: Seq<char>)
    ensures
        0 <= name_head(s).0 <= s.len(),
        tokens_written(name_head(s).1) == s.subrange(0, name_head(s).0),
{
    lemma_scene_written(s, 0);
    let (p1, t1) = match scene_tag(s, 0) {
        Some((j, t)) => (j, seq![t]),
        None => (0, Seq::<NoIntroTokenModel>::empty()),
    };
    if let Some((j, t)) = scene_tag(s, 0) {
        lemma_tokens_written_push(Seq::<NoIntroTokenModel>::empty(), t);
        assert(Seq::<NoIntroTokenModel>::empty().push(t) =~= seq![t]);
    }
    assert(tokens_written(t1) =~= s.subrange(0, p1));
    lemma_baddump_written(s, p1);
    let (p2, t2) = match bios_tag(s, p1) {
        Some((j, t)) => (j, t1.push(t)),
        None => (p1, t1),
    };
    if let Some((j, t)) = bios_tag(s, p1) {
        lemma_tokens_written_push(t1, t);
    }
    assert(tokens_written(t2) =~= s.subrange(0, p2));
    lemma_run(s, p2, CharClass::Is(' '));
    let p3 = p2 + run(s, p2, CharClass::Is(' '));
    lemma_spaced_written(t2, s.subrange(p2, p3));
    assert(tokens_written(spaced(t2, s.subrange(p2, p3))) =~= s.subrange(0, p3));
}

proof fn lemma_name_tail(s: Seq<char>, f: int, t3: Seq<NoIntroTokenModel>)
    requires
        0 <= f <= s.len(),
        tokens_written(t3) == s.subrange(0, f),
    ensures
        ({
            let f1 = if char_at(s, f, ' ') {
                f + 1
            } else {
                f
            };
            let (e, t4) = match baddump_tag(s, f1) {
                Some((e, t)) => (e, spaced(t3, s.subrange(f, f1)).push(t)),
                None => (f, t3),
            };
            0 <= e <= s.len() && tokens_written(t4) == s.subrange(0, e)
        }),
{
    let f1 = if char_at(s, f, ' ') {
        f + 1
    } else {
        f
    };
    lemma_baddump_written(s, f1);
    match baddump_tag(s, f1) {
        Some((e, t)) => {
            lemma_spaced_written(t3, s.subrange(f, f1));
            lemma_tokens_written_push(spaced(t3, s.subrange(f, f1)), t);
            assert(tokens_written(spaced(t3, s.subrange(f, f1)).push(t)) =~= s.subrange(0, e));
        },
        None => {},
    }
}

/// A No-Intro name is written by its tokens: the texts that the tokens were
/// read from, one after the other, are the name.
pub proof fn law_nointro_name_rebuilt(s: Seq<char>)
    requires
        nointro_tokens(s) is Some,
    ensures
        tokens_written(nointro_tokens(s).unwrap()) == s,
{
    lemma_name_head(s);
    let (p3, t2a) = name_head(s);
    lemma_title_end(s, p3);
    let (k, j, region) = title_end(s, p3).unwrap();
    lemma_region_tag_written(s, k);
    lemma_trim_end_bounds(s, p3, k);
    let te = trim_end_pos(s, p3, k);
    let title = s.subrange(p3, te);
    let t2b = spaced(t2a.push(NoIntroTokenModel::Title(title)), s.subrange(te, k));
    assert(tokens_written(t2b.push(region)) == s.subrange(0, j)) by {
        lemma_tokens_written_push(t2a, NoIntroTokenModel::Title(title));
        lemma_spaced_written(t2a.push(NoIntroTokenModel::Title(title)), s.subrange(te, k));
        assert(tokens_written(t2b) =~= s.subrange(0, k));
        lemma_tokens_written_push(t2b, region);
        assert(tokens_written(t2b.push(region)) =~= s.subrange(0, j));
    }
    lemma_flags_written(s, j, t2b.push(region));
    let (f, t3) = flags_from(s, j, t2b.push(region));
    assert(tokens_written(t3) =~= s.subrange(0, f));
    lemma_name_tail(s, f, t3);
    assert(s.subrange(0, s.len() as int) =~= s);
}

/// Two names with the same tokens are the same name.
pub proof fn law_nointro_tokens_determine_name(a: Seq<char>, b: Seq<char>)
    requires
        nointro_tokens(a) is Some,
        nointro_tokens(a) == nointro_tokens(b),
    ensures
        a == b,
{
    law_nointro_name_rebuilt(a);
    law_nointro_name_rebuilt(b);
}


// ---------------------------------------------------------------------------
// The tokenizer
// ---------------------------------------------------------------------------
fn read_region_tag(s: &str, cs: &Vec<char>, i: usize) -> (res: Option<(usize, NoIntroToken)>)
    requires
        cs@ == s@,
    ensures
        read_of(res) == region_tag(cs@, i as int),
        res matches Some((j, _)) ==> i < j <= cs@.len(),
{
    let len = cs.len();
    match enclosed_at(cs, i, '(', ')', ')') {
        Some((a, b)) => {
            let inner = substr(s, a, b);
            match Region::try_from_nointro_region_with_strs(inner.as_str()) {
                Ok((strs, regs)) => Some((b + 1, NoIntroToken::Region(strs, regs))),
                Err(_) => None,
            }
        },
        None => None,
    }
}

fn read_baddump_tag(cs: &Vec<char>, i: usize) -> (res: Option<(usize, NoIntroToken)>)
    ensures
        read_of(res) == baddump_tag(cs@, i as int),
        res matches Some((j, _)) ==> i < j <= cs@.len(),
{
    proof {
        reveal_strlit("[b]");
    }
    match tag(cs, i, "[b]") {
        Some(j) => Some((j, NoIntroToken::Flag(FlagType::Bracketed, owned("b")))),
        None => None,
    }
}

fn read_bios_tag(cs: &Vec<char>, i: usize) -> (res: Option<(usize, NoIntroToken)>)
    ensures
        read_of(res) == bios_tag(cs@, i as int),
        res matches Some((j, _)) ==> i < j <= cs@.len(),
{
    proof {
        reveal_strlit("[BIOS]");
    }
    match tag(cs, i, "[BIOS]") {
        Some(j) => Some((j, NoIntroToken::Flag(FlagType::Bracketed, owned("BIOS")))),
        None => None,
    }
}

fn read_additional_tag(s: &str, cs: &Vec<char>, i: usize) -> (res: Option<(usize, NoIntroToken)>)
    requires
        cs@ == s@,
    ensures
        read_of(res) == additional_tag(cs@, i as int),
        res matches Some((j, _)) ==> i < j <= cs@.len(),
{
    let len = cs.len();
    match enclosed_at(cs, i, '(', ')', ')') {
        Some((a, b)) => Some((b + 1, NoIntroToken::Flag(FlagType::Parenthesized, substr(s, a, b)))),
        None => None,
    }
}

fn read_beta_tag(s: &str, cs: &Vec<char>, i: usize) -> (res: Option<(usize, NoIntroToken)>)
    requires
        cs@ == s@,
    ensures
        read_of(res) == beta_tag(cs@, i as int),
        res matches Some((j, _)) ==> i < j <= cs@.len(),
{
    proof {
        reveal(beta_tag);
    }
    let len = cs.len();
    proof {
        reveal_strlit("(Beta");
    }
    match tag(cs, i, "(Beta") {
        Some(j) => {
            if is_char_at_(cs, j, ' ') {
                let n = run_len(cs, j + 1, CharClass::AlnumSpace);
                let k = j + 1 + n;
                match char_tag(cs, k, ')') {
                    Some(e) => Some((e, NoIntroToken::Beta(Some(substr(s, j + 1, k))))),
                    None => None,
                }
            } else {
                match char_tag(cs, j, ')') {
                    Some(e) => Some((e, NoIntroToken::Beta(None))),
                    None => None,
                }
            }
        },
        None => None,
    }
}

fn is_char_at_(cs: &Vec<char>, p: usize, c: char) -> (res: bool)
    ensures
        res == char_at(cs@, p as int, c),
        res ==> p < cs@.len(),
{
    p < cs.len() && cs[p] == c
}

fn read_disc_tag(s: &str, cs: &Vec<char>, i: usize) -> (res: Option<(usize, NoIntroToken)>)
    requires
        cs@ == s@,
    ensures
        read_of(res) == disc_tag(cs@, i as int),
        res matches Some((j, _)) ==> i < j <= cs@.len(),
{
    proof {
        reveal(disc_tag);
    }
    let len = cs.len();
    proof {
        reveal_strlit("(Disc ");
        reveal_strlit("Disc");
    }
    match tag(cs, i, "(Disc ") {
        Some(j) => {
            let n = run_len(cs, j, CharClass::Digit);
            if n > 0 {
                match char_tag(cs, j + n, ')') {
                    Some(e) => Some((e, NoIntroToken::Part(owned("Disc"), substr(s, j, j + n)))),
                    None => None,
                }
            } else {
                None
            }
        },
        None => None,
    }
}

fn read_scene_number(s: &str, cs: &Vec<char>, i: usize) -> (res: Option<(usize, NoIntroToken)>)
    requires
        cs@ == s@,
    ensures
        read_of(res) == scene_number(cs@, i as int),
        res matches Some((j, _)) ==> i < j <= cs@.len(),
{
    proof {
        reveal(scene_number);
    }
    proof {
        reveal_strlit("xB");
    }
    if i > cs.len() {
        return None;
    }
    if take_while(cs, i, CharClass::Digit, 4) == 4 {
        Some((i + 4, NoIntroToken::Scene(substr(s, i, i + 4), None)))
    } else if tag_at(cs, i, "xB") && run_len(cs, i + 2, CharClass::Digit) > 0 {
        let n = run_len(cs, i + 2, CharClass::Digit);
        Some((i + 2 + n, NoIntroToken::Scene(substr(s, i + 2, i + 2 + n), Some(owned("xB")))))
    } else if (is_char_at_(cs, i, 'z') || is_char_at_(cs, i, 'x')) && take_while(
        cs,
        i + 1,
        CharClass::Digit,
        3,
    ) == 3 {
        let kind = substr(s, i, i + 1);
        assert(kind@ =~= seq![cs@[i as int]]);
        Some((i + 4, NoIntroToken::Scene(substr(s, i + 1, i + 4), Some(kind))))
    } else {
        None
    }
}

fn read_scene_tag(s: &str, cs: &Vec<char>, i: usize) -> (res: Option<(usize, NoIntroToken)>)
    requires
        cs@ == s@,
    ensures
        read_of(res) == scene_tag(cs@, i as int),
        res matches Some((j, _)) ==> i < j <= cs@.len(),
{
    match read_scene_number(s, cs, i) {
        Some((j, t)) => match tag(cs, j, " - ") {
            Some(e) => Some((e, t)),
            None => None,
        },
        None => None,
    }
}

pub open spec fn lread_of(r: Option<(usize, (String, Option<String>))>) -> Option<
    (int, LanguageModel),
> {
    match r {
        Some((j, l)) => Some((j as int, (l.0@, opt_view(l.1)))),
        None => None,
    }
}

fn read_language_item(s: &str, cs: &Vec<char>, k: usize) -> (res: Option<
    (usize, (String, Option<String>)),
>)
    requires
        cs@ == s@,
    ensures
        lread_of(res) == language_item(cs@, k as int),
        res matches Some((j, _)) ==> k < j <= cs@.len(),
{
    if k > cs.len() {
        return None;
    }
    if take_while(cs, k, CharClass::Alpha, 2) == 2 {
        let code = substr(s, k, k + 2);
        if is_char_at_(cs, k + 2, '-') {
            let n = run_len(cs, k + 3, CharClass::Alpha);
            if n > 0 {
                return Some((k + 3 + n, (code, Some(substr(s, k + 3, k + 3 + n)))));
            }
        }
        Some((k + 2, (code, None)))
    } else {
        None
    }
}

fn read_language_tag(s: &str, cs: &Vec<char>, i: usize) -> (res: Option<(usize, NoIntroToken)>)
    requires
        cs@ == s@,
    ensures
        read_of(res) == language_tag(cs@, i as int),
        res matches Some((j, _)) ==> i < j <= cs@.len(),
{
    proof {
        reveal(language_tag);
    }
    let a = match char_tag(cs, i, '(') {
        Some(a) => a,
        None => {
            return None;
        },
    };
    let (k0, l0) = match read_language_item(s, cs, a) {
        Some(x) => x,
        None => {
            return None;
        },
    };
    let mut langs: Vec<(String, Option<String>)> = Vec::new();
    langs.push(l0);
    let mut k = k0;
    assert(language_models(langs@) =~= seq![(l0.0@, opt_view(l0.1))]);
    let ghost first = (l0.0@, opt_view(l0.1));
    loop
        invariant
            cs@ == s@,
            i < k <= cs@.len(),
            language_rest(cs@, k0 as int, seq![first]) == language_rest(
                cs@,
                k as int,
                language_models(langs@),
            ),
        ensures
            i < k <= cs@.len(),
            language_rest(cs@, k0 as int, seq![first]) == (k as int, language_models(langs@)),
        decreases cs@.len() - k,
    {
        let k1 = match char_tag(cs, k, ',') {
            Some(k1) => k1,
            None => {
                break;
            },
        };
        match read_language_item(s, cs, k1) {
            Some((k2, l)) => {
                proof {
                    assert(language_models(langs@.push(l)) =~= language_models(langs@).push(
                        (l.0@, opt_view(l.1)),
                    ));
                }
                langs.push(l);
                k = k2;
            },
            None => {
                break;
            },
        }
    }
    match char_tag(cs, k, ')') {
        Some(e) => Some((e, NoIntroToken::Languages(langs))),
        None => None,
    }
}


pub open spec fn vread_of(r: Option<(usize, VersionTuple)>) -> Option<(int, VersionModel)> {
    match r {
        Some((j, v)) => Some((j as int, crate::naming::common::version_model(v))),
        None => None,
    }
}

fn read_dot_part(s: &str, cs: &Vec<char>, b: usize, cls: CharClass) -> (res: (
    Option<String>,
    usize,
))
    requires
        cs@ == s@,
        b <= cs@.len(),
    ensures
        (opt_view(res.0), res.1 as int) == dot_part(cs@, b as int, cls),
        b <= res.1 <= cs@.len(),
{
    let len = cs.len();
    if is_char_at_(cs, b, '.') {
        let m = run_len(cs, b + 1, cls);
        (Some(substr(s, b + 1, b + 1 + m)), b + 1 + m)
    } else {
        (None, b)
    }
}

fn read_version_v(s: &str, cs: &Vec<char>, k: usize) -> (res: Option<(usize, VersionTuple)>)
    requires
        cs@ == s@,
    ensures
        vread_of(res) == version_v(cs@, k as int),
        res matches Some((j, _)) ==> k < j <= cs@.len(),
{
    proof {
        reveal(version_v);
    }
    let len = cs.len();
    match tag(cs, k, "v") {
        Some(a) => {
            let n = run_len(cs, a, CharClass::Digit);
            if n > 0 {
                let (minor, c) = read_dot_part(s, cs, a + n, CharClass::UniAlnumDotDash);
                let major = substr(s, a, a + n);
                match tag(cs, c, " Alt") {
                    Some(e) => {
                        let sfx = vec![owned("Alt")];
                        assert(views(sfx@) =~= seq!["Alt"@]);
                        Some((e, (owned("v"), major, minor, None, Some(sfx))))
                    },
                    None => Some((c, (owned("v"), major, minor, None, None))),
                }
            } else {
                None
            }
        },
        None => None,
    }
}

fn read_version_playstation(s: &str, cs: &Vec<char>, k: usize) -> (res: Option<
    (usize, VersionTuple),
>)
    requires
        cs@ == s@,
    ensures
        vread_of(res) == version_playstation(cs@, k as int),
        res matches Some((j, _)) ==> k < j <= cs@.len(),
{
    proof {
        reveal(version_playstation);
    }
    let len = cs.len();
    proof {
        reveal_strlit("PS3");
        reveal_strlit("PSP");
    }
    if (tag_at(cs, k, "PS3") || tag_at(cs, k, "PSP")) && is_char_at_(cs, k + 3, ' ') {
        match read_version_v(s, cs, k + 4) {
            Some((e, v)) => {
                let (v0, v1, v2, _, v4) = v;
                Some((e, (v0, v1, v2, Some(substr(s, k, k + 3)), v4)))
            },
            None => None,
        }
    } else {
        None
    }
}

fn is_short_date(cs: &Vec<char>, d: usize) -> (res: bool)
    ensures
        res == short_date_at(cs@, d as int),
{
    let len = cs.len();
    if d > len || len - d < 8 {
        return false;
    }
    ('0' <= cs[d] && cs[d] <= '9') && ('0' <= cs[d + 1] && cs[d + 1] <= '9') && cs[d + 2] == '/'
        && ('0' <= cs[d + 3] && cs[d + 3] <= '9') && ('0' <= cs[d + 4] && cs[d + 4] <= '9')
        && cs[d + 5] == '/' && ('0' <= cs[d + 6] && cs[d + 6] <= '9') && ('0' <= cs[d + 7]
        && cs[d + 7] <= '9')
}

fn read_full_suffix(s: &str, cs: &Vec<char>, d: usize) -> (res: (Option<String>, usize))
    requires
        cs@ == s@,
        d <= cs@.len(),
    ensures
        (opt_view(res.0), res.1 as int) == full_version_suffix(cs@, d as int),
        d <= res.1 <= cs@.len(),
{
    let len = cs.len();
    proof {
        reveal_strlit("Alt");
    }
    if is_char_at_(cs, d, ' ') {
        if tag_at(cs, d + 1, "Alt") {
            (Some(owned("Alt")), d + 4)
        } else if d + 1 < len && 'A' <= cs[d + 1] && cs[d + 1] <= 'Z' {
            (Some(substr(s, d + 1, d + 2)), d + 2)
        } else {
            (None, d)
        }
    } else {
        (None, d)
    }
}

fn read_version_full(s: &str, cs: &Vec<char>, k: usize) -> (res: Option<(usize, VersionTuple)>)
    requires
        cs@ == s@,
    ensures
        vread_of(res) == version_full(cs@, k as int),
        res matches Some((j, _)) ==> k < j <= cs@.len(),
{
    proof {
        reveal(version_full);
    }
    let len = cs.len();
    match tag(cs, k, "Version ") {
        Some(a) => {
            let n = run_len(cs, a, CharClass::Digit);
            if n > 0 {
                let (minor, c) = read_dot_part(s, cs, a + n, CharClass::AlnumDotDash);
                let (date, d) = if is_char_at_(cs, c, ' ') && is_short_date(cs, c + 1) {
                    (Some(substr(s, c + 1, c + 9)), c + 9)
                } else {
                    (None, c)
                };
                let (suffix, e) = read_full_suffix(s, cs, d);
                let major = substr(s, a, a + n);
                let suffixes: Option<Vec<String>> = match (date, suffix) {
                    (None, None) => None,
                    (Some(x), None) => {
                        let v = vec![x];
                        assert(views(v@) =~= seq![v@[0]@]);
                        Some(v)
                    },
                    (None, Some(y)) => {
                        let v = vec![y];
                        assert(views(v@) =~= seq![v@[0]@]);
                        Some(v)
                    },
                    (Some(x), Some(y)) => {
                        let v = vec![x, y];
                        assert(views(v@) =~= seq![v@[0]@, v@[1]@]);
                        Some(v)
                    },
                };
                proof {
                    reveal_strlit("Version ");
                }
                Some((e, (owned("Version"), major, minor, None, suffixes)))
            } else {
                None
            }
        },
        None => None,
    }
}

fn read_version_rev(s: &str, cs: &Vec<char>, k: usize) -> (res: Option<(usize, VersionTuple)>)
    requires
        cs@ == s@,
    ensures
        vread_of(res) == version_rev(cs@, k as int),
        res matches Some((j, _)) ==> k < j <= cs@.len(),
{
    proof {
        reveal(version_rev);
    }
    let len = cs.len();
    proof {
        reveal_strlit("Rev ");
    }
    match tag(cs, k, "Rev ") {
        Some(a) => {
            let n = run_len(cs, a, CharClass::Alnum);
            if n > 0 {
                if is_char_at_(cs, a + n, '.') {
                    let c = a + n + 1;
                    let m = run_len(cs, c, CharClass::Alnum);
                    Some(
                        (
                            c + m,
                            (owned("Rev"), substr(s, a, a + n), Some(substr(s, c, c + m)), None, None),
                        ),
                    )
                } else {
                    Some((a + n, (owned("Rev"), substr(s, a, a + n), None, None, None)))
                }
            } else {
                None
            }
        },
        None => None,
    }
}

fn read_version_dotted(s: &str, cs: &Vec<char>, k: usize) -> (res: Option<(usize, VersionTuple)>)
    requires
        cs@ == s@,
    ensures
        vread_of(res) == version_dotted(cs@, k as int),
        res matches Some((j, _)) ==> k < j <= cs@.len(),
{
    proof {
        reveal(version_dotted);
    }
    let len = cs.len();
    if k > len {
        return None;
    }
    let n = run_len(cs, k, CharClass::Digit);
    if n > 0 && is_char_at_(cs, k + n, '.') {
        let m = run_len(cs, k + n + 1, CharClass::Digit);
        if m > 0 {
            return Some(
                (
                    k + n + 1 + m,
                    (
                        owned(""),
                        substr(s, k, k + n),
                        Some(substr(s, k + n + 1, k + n + 1 + m)),
                        None,
                        None,
                    ),
                ),
            );
        }
    }
    None
}

fn read_version_four(s: &str, cs: &Vec<char>, k: usize) -> (res: Option<(usize, VersionTuple)>)
    requires
        cs@ == s@,
    ensures
        vread_of(res) == version_four(cs@, k as int),
        res matches Some((j, _)) ==> k < j <= cs@.len(),
{
    proof {
        reveal(version_four);
    }
    if k > cs.len() {
        return None;
    }
    if take_while(cs, k, CharClass::Alnum, 4) == 4 {
        Some((k + 4, (owned(""), substr(s, k, k + 4), None, None, None)))
    } else {
        None
    }
}

fn read_version_first(s: &str, cs: &Vec<char>, k: usize) -> (res: Option<(usize, VersionTuple)>)
    requires
        cs@ == s@,
    ensures
        vread_of(res) == version_first(cs@, k as int),
        res matches Some((j, _)) ==> k < j <= cs@.len(),
{
    proof {
        reveal(version_first);
    }
    if let Some(r) = read_version_playstation(s, cs, k) {
        return Some(r);
    }
    if let Some(r) = read_version_v(s, cs, k) {
        return Some(r);
    }
    if let Some(r) = read_version_full(s, cs, k) {
        return Some(r);
    }
    if let Some(r) = read_version_rev(s, cs, k) {
        return Some(r);
    }
    read_version_dotted(s, cs, k)
}

fn read_version_next(s: &str, cs: &Vec<char>, k: usize) -> (res: Option<(usize, VersionTuple)>)
    requires
        cs@ == s@,
    ensures
        vread_of(res) == version_next(cs@, k as int),
        res matches Some((j, _)) ==> k < j <= cs@.len(),
{
    proof {
        reveal(version_next);
    }
    if let Some(r) = read_version_playstation(s, cs, k) {
        return Some(r);
    }
    if let Some(r) = read_version_v(s, cs, k) {
        return Some(r);
    }
    if let Some(r) = read_version_full(s, cs, k) {
        return Some(r);
    }
    if let Some(r) = read_version_rev(s, cs, k) {
        return Some(r);
    }
    read_version_four(s, cs, k)
}

fn read_version_separator(cs: &Vec<char>, k: usize) -> (res: Option<usize>)
    ensures
        match res {
            Some(j) => version_separator(cs@, k as int) == Some(j as int) && k < j <= cs@.len(),
            None => version_separator(cs@, k as int) is None,
        },
{
    let len = cs.len();
    proof {
        reveal_strlit(", ");
    }
    if tag_at(cs, k, ", ") {
        Some(k + 2)
    } else if is_char_at_(cs, k, ',') || is_char_at_(cs, k, ' ') {
        Some(k + 1)
    } else {
        None
    }
}

fn read_version_list(s: &str, cs: &Vec<char>, k: usize) -> (res: Option<
    (usize, Vec<VersionTuple>, Vec<String>),
>)
    requires
        cs@ == s@,
    ensures
        match res {
            Some((j, v, p)) => version_list(cs@, k as int) == Some(
                (j as int, version_models(v@), views(p@)),
            ) && k < j <= cs@.len(),
            None => version_list(cs@, k as int) is None,
        },
{
    proof {
        reveal(version_list);
    }
    let (k1, v1) = match read_version_first(s, cs, k) {
        Some(x) => x,
        None => {
            return None;
        },
    };
    let k2 = match read_version_separator(cs, k1) {
        Some(x) => x,
        None => k1,
    };
    let sep1 = substr(s, k1, k2);
    let (k3, v2) = match read_version_next(s, cs, k2) {
        Some(x) => x,
        None => {
            let v = vec![v1];
            let ghost sv = sep1@;
            let p = vec![sep1];
            assert(version_models(v@) =~= seq![crate::naming::common::version_model(v1)]);
            assert(views(p@) =~= seq![sv]);
            return Some((k2, v, p));
        },
    };
    let ghost m1 = crate::naming::common::version_model(v1);
    let ghost m2 = crate::naming::common::version_model(v2);
    let ghost sv = sep1@;
    let mut acc = vec![v1, v2];
    let mut seps = vec![sep1];
    assert(version_models(acc@) =~= seq![m1, m2]);
    assert(views(seps@) =~= seq![sv]);
    let mut p = k3;
    loop
        invariant
            cs@ == s@,
            k < p <= cs@.len(),
            version_rest(cs@, k3 as int, seq![m1, m2], seq![sv]) == version_rest(
                cs@,
                p as int,
                version_models(acc@),
                views(seps@),
            ),
        ensures
            k < p <= cs@.len(),
            version_rest(cs@, k3 as int, seq![m1, m2], seq![sv]) == (
                p as int,
                version_models(acc@),
                views(seps@),
            ),
        decreases cs@.len() - p,
    {
        let q1 = match read_version_separator(cs, p) {
            Some(q) => q,
            None => {
                break;
            },
        };
        match read_version_next(s, cs, q1) {
            Some((q2, v)) => {
                let sep = substr(s, p, q1);
                proof {
                    assert(version_models(acc@.push(v)) =~= version_models(acc@).push(
                        crate::naming::common::version_model(v),
                    ));
                    lemma_views_push(seps@, sep);
                }
                acc.push(v);
                seps.push(sep);
                p = q2;
            },
            None => {
                break;
            },
        }
    }
    let ghost sq = seps@;
    let empty = String::new();
    proof {
        lemma_views_push(sq, empty);
    }
    seps.push(empty);
    Some((p, acc, seps))
}

fn read_version_tag(s: &str, cs: &Vec<char>, i: usize) -> (res: Option<(usize, NoIntroToken)>)
    requires
        cs@ == s@,
    ensures
        read_of(res) == version_tag(cs@, i as int),
        res matches Some((j, _)) ==> i < j <= cs@.len(),
{
    match char_tag(cs, i, '(') {
        Some(a) => match read_version_list(s, cs, a) {
            Some((k, vs, seps)) => match char_tag(cs, k, ')') {
                Some(e) => Some((e, NoIntroToken::Version(vs, seps))),
                None => None,
            },
            None => None,
        },
        None => None,
    }
}


fn read_known_flag(s: &str, cs: &Vec<char>, i: usize) -> (res: Option<(usize, NoIntroToken)>)
    requires
        cs@ == s@,
    ensures
        read_of(res) == known_flag(cs@, i as int),
        res matches Some((j, _)) ==> i < j <= cs@.len(),
{
    proof {
        reveal(known_flag);
    }
    if let Some(r) = read_language_tag(s, cs, i) {
        return Some(r);
    }
    if let Some(r) = read_version_tag(s, cs, i) {
        return Some(r);
    }
    if let Some(r) = read_beta_tag(s, cs, i) {
        return Some(r);
    }
    if let Some(r) = read_disc_tag(s, cs, i) {
        return Some(r);
    }
    read_additional_tag(s, cs, i)
}

fn read_region_end(s: &str, cs: &Vec<char>, k: usize) -> (res: Option<(usize, NoIntroToken)>)
    requires
        cs@ == s@,
    ensures
        read_of(res) == region_end(cs@, k as int),
        res matches Some((j, _)) ==> k < j <= cs@.len(),
{
    proof {
        reveal(region_end);
    }
    let len = cs.len();
    match read_region_tag(s, cs, k) {
        Some((j, t)) => {
            if j == len || (is_char_at_(cs, j, ' ') && (read_additional_tag(s, cs, j + 1).is_some()
                || read_baddump_tag(cs, j + 1).is_some())) {
                Some((j, t))
            } else {
                None
            }
        },
        None => None,
    }
}

fn read_flags(s: &str, cs: &Vec<char>, k0: usize, toks: Vec<NoIntroToken>) -> (res: (
    usize,
    Vec<NoIntroToken>,
))
    requires
        cs@ == s@,
        k0 <= cs@.len(),
    ensures
        flags_from(cs@, k0 as int, token_models(toks@)) == (res.0 as int, token_models(res.1@)),
        k0 <= res.0 <= cs@.len(),
{
    let len = cs.len();
    let mut k = k0;
    let mut toks = toks;
    let ghost start = token_models(toks@);
    loop
        invariant
            cs@ == s@,
            len == cs@.len(),
            k0 <= k <= cs@.len(),
            flags_from(cs@, k0 as int, start) == flags_from(cs@, k as int, token_models(toks@)),
        ensures
            k0 <= k <= cs@.len(),
            flags_from(cs@, k0 as int, start) == (k as int, token_models(toks@)),
        decreases cs@.len() - k,
    {
        let k1 = if is_char_at_(cs, k, ' ') {
            k + 1
        } else {
            k
        };
        match read_known_flag(s, cs, k1) {
            Some((k2, t)) => {
                if k1 > k {
                    let sp = owned(" ");
                    proof {
                        reveal_strlit(" ");
                        assert(sp@ =~= seq![' ']);
                        assert(token_models(toks@.push(NoIntroToken::Space(sp))) =~= token_models(
                            toks@,
                        ).push(NoIntroTokenModel::Space(seq![' '])));
                    }
                    toks.push(NoIntroToken::Space(sp));
                }
                proof {
                    assert(token_models(toks@.push(t)) =~= token_models(toks@).push(t@));
                }
                toks.push(t);
                k = k2;
            },
            None => {
                break;
            },
        }
    }
    (k, toks)
}

fn push_spaced(toks: &mut Vec<NoIntroToken>, w: String)
    ensures
        token_models(final(toks)@) == spaced(token_models(old(toks)@), w@),
{
    if w.as_str().unicode_len() > 0 {
        let ghost wm = w@;
        toks.push(NoIntroToken::Space(w));
        assert(token_models(toks@) =~= token_models(old(toks)@).push(NoIntroTokenModel::Space(wm)));
    }
}

/// Tokenizes a whole No-Intro name.
fn read_nointro_tokens(s: &str) -> (res: Option<Vec<NoIntroToken>>)
    ensures
        match res {
            Some(v) => nointro_tokens(s@) == Some(token_models(v@)),
            None => nointro_tokens(s@) is None,
        },
{
    let cs = chars_of(s);
    let len = cs.len();
    let mut toks: Vec<NoIntroToken> = Vec::new();
    let p1 = match read_scene_tag(s, &cs, 0) {
        Some((j, t)) => {
            toks.push(t);
            j
        },
        None => 0,
    };
    proof {
        assert(token_models(toks@) =~= (match scene_tag(cs@, 0) {
            Some((j, t)) => seq![t],
            None => Seq::<NoIntroTokenModel>::empty(),
        }));
    }
    let ghost t1 = token_models(toks@);
    let p2 = match read_bios_tag(&cs, p1) {
        Some((j, t)) => {
            proof {
                assert(token_models(toks@.push(t)) =~= token_models(toks@).push(t@));
            }
            toks.push(t);
            j
        },
        None => p1,
    };
    let p3 = p2 + run_len(&cs, p2, CharClass::Is(' '));
    push_spaced(&mut toks, substr(s, p2, p3));
    let ghost t2a = token_models(toks@);
    let mut k = p3;
    let found: Option<(usize, NoIntroToken)>;
    loop
        invariant
            cs@ == s@,
            len == cs@.len(),
            p3 <= k <= cs@.len(),
            title_end(cs@, p3 as int) == title_end(cs@, k as int),
        ensures
            match found {
                Some((j, t)) => title_end(cs@, p3 as int) == Some((k as int, j as int, t@)) && k
                    < j <= cs@.len(),
                None => title_end(cs@, p3 as int) is None,
            },
            p3 <= k <= cs@.len(),
        decreases cs@.len() - k,
    {
        match read_region_end(s, &cs, k) {
            Some(r) => {
                found = Some(r);
                break;
            },
            None => {
                if k == len {
                    found = None;
                    break;
                }
                k = k + 1;
            },
        }
    }
    let (j, region) = match found {
        Some(x) => x,
        None => {
            return None;
        },
    };
    let te = trim_end(&cs, p3, k);
    let title = substr(s, p3, te);
    let ghost tm = NoIntroTokenModel::Title(title@);
    toks.push(NoIntroToken::Title(title));
    assert(token_models(toks@) =~= t2a.push(tm));
    push_spaced(&mut toks, substr(s, te, k));
    let ghost t2b = token_models(toks@);
    let ghost rm = region@;
    toks.push(region);
    proof {
        assert(token_models(toks@) =~= t2b.push(rm));
    }
    let (f, mut toks) = read_flags(s, &cs, j, toks);
    let f1 = if is_char_at_(&cs, f, ' ') {
        f + 1
    } else {
        f
    };
    let e = match read_baddump_tag(&cs, f1) {
        Some((e, t)) => {
            push_spaced(&mut toks, substr(s, f, f1));
            proof {
                assert(token_models(toks@.push(t)) =~= token_models(toks@).push(t@));
            }
            toks.push(t);
            e
        },
        None => f,
    };
    if e == len {
        Some(toks)
    } else {
        None
    }
}


// ---------------------------------------------------------------------------
// What the tokens say
// ---------------------------------------------------------------------------
/// The information of a name before any token is read.
pub open spec fn nointro_start() -> NameInfoModel {
    NameInfoModel {
        entry_title: seq![],
        release_title: seq![],
        region: seq![Region::Unknown],
        part_number: None,
        version: None,
        is_unlicensed: false,
        is_demo: false,
        is_system: false,
        status: DevelopmentStatus::Release,
        naming_convention: NamingConvention::NoIntro,
    }
}

/// The flags that mark a demo.
pub open spec fn is_demo_flag(f: Seq<char>) -> bool {
    ||| f == "Kiosk"@
    ||| f == "Demo"@
    ||| f == "Sample"@
    ||| f == "Bonus Disc"@
    ||| f == "Bonus CD"@
    ||| f == "Taikenban"@
    ||| f == "Tentou Taikenban"@
}

/// What one token changes in the information.
pub open spec fn apply_token(m: NameInfoModel, t: NoIntroTokenModel) -> NameInfoModel {
    match t {
        NoIntroTokenModel::Title(x) => NameInfoModel { entry_title: x, ..m },
        NoIntroTokenModel::Flag(_, f) => if is_demo_flag(f) {
            NameInfoModel { is_demo: true, ..m }
        } else if f == "Proto"@ {
            NameInfoModel { status: DevelopmentStatus::Prototype, ..m }
        } else if f == "Unl"@ {
            NameInfoModel { is_unlicensed: true, ..m }
        } else if f == "BIOS"@ {
            NameInfoModel { is_system: true, ..m }
        } else {
            m
        },
        NoIntroTokenModel::Beta(_) => NameInfoModel { status: DevelopmentStatus::Prerelease, ..m },
        NoIntroTokenModel::Version(vs, _) => if vs.len() > 0 {
            NameInfoModel { version: Some(version_text(vs[0])), ..m }
        } else {
            m
        },
        NoIntroTokenModel::Part(_, p) => NameInfoModel { part_number: i32_value(p), ..m },
        NoIntroTokenModel::Region(_, r) => NameInfoModel { region: r, ..m },
        _ => m,
    }
}

/// The tokens applied in order, each later one overriding what an earlier one set.
pub open spec fn apply_tokens(m: NameInfoModel, toks: Seq<NoIntroTokenModel>) -> NameInfoModel
    decreases toks.len(),
{
    if toks.len() == 0 {
        m
    } else {
        apply_tokens(apply_token(m, toks[0]), toks.drop_first())
    }
}

/// What the tokens of a No-Intro name say; the release title comes from the entry title.
pub open spec fn nointro_name_info(toks: Seq<NoIntroTokenModel>) -> NameInfoModel {
    let m = apply_tokens(nointro_start(), toks);
    NameInfoModel { release_title: release_title_of(m.entry_title), ..m }
}

proof fn lemma_demo_kept(m: NameInfoModel, toks: Seq<NoIntroTokenModel>)
    requires
        m.is_demo,
    ensures
        apply_tokens(m, toks).is_demo,
    decreases toks.len(),
{
    if toks.len() > 0 {
        lemma_demo_kept(apply_token(m, toks[0]), toks.drop_first());
    }
}

proof fn lemma_demo_set(m: NameInfoModel, toks: Seq<NoIntroTokenModel>, i: int)
    requires
        0 <= i < toks.len(),
        toks[i] matches NoIntroTokenModel::Flag(_, f) && is_demo_flag(f),
    ensures
        apply_tokens(m, toks).is_demo,
    decreases toks.len(),
{
    if i == 0 {
        lemma_demo_kept(apply_token(m, toks[0]), toks.drop_first());
    } else {
        assert(toks.drop_first()[i - 1] == toks[i]);
        lemma_demo_set(apply_token(m, toks[0]), toks.drop_first(), i - 1);
    }
}

/// A No-Intro name that carries any of the flags `Kiosk`, `Demo`, `Sample`,
/// `Bonus Disc`, `Bonus CD`, `Taikenban` or `Tentou Taikenban` is a demo,
/// whatever its other tokens.
pub proof fn law_demo_flags_give_demo(toks: Seq<NoIntroTokenModel>, i: int)
    requires
        0 <= i < toks.len(),
        toks[i] matches NoIntroTokenModel::Flag(_, f) && (f == "Kiosk"@ || f == "Demo"@ || f
            == "Sample"@ || f == "Bonus Disc"@ || f == "Bonus CD"@ || f == "Taikenban"@ || f
            == "Tentou Taikenban"@),
    ensures
        nointro_name_info(toks).is_demo,
{
    lemma_demo_set(nointro_start(), toks, i);
}

proof fn lemma_flags_kept(m: NameInfoModel, toks: Seq<NoIntroTokenModel>)
    ensures
        m.is_unlicensed ==> apply_tokens(m, toks).is_unlicensed,
        m.is_system ==> apply_tokens(m, toks).is_system,
    decreases toks.len(),
{
    if toks.len() > 0 {
        lemma_flags_kept(apply_token(m, toks[0]), toks.drop_first());
    }
}

proof fn lemma_flags_set(m: NameInfoModel, toks: Seq<NoIntroTokenModel>, i: int)
    requires
        0 <= i < toks.len(),
    ensures
        toks[i] matches NoIntroTokenModel::Flag(_, f) && f == "Unl"@ ==> apply_tokens(
            m,
            toks,
        ).is_unlicensed,
        toks[i] matches NoIntroTokenModel::Flag(_, f) && f == "BIOS"@ ==> apply_tokens(
            m,
            toks,
        ).is_system,
    decreases toks.len(),
{
    reveal_strlit("Unl");
    reveal_strlit("BIOS");
    reveal_strlit("Proto");
    reveal_strlit("Kiosk");
    reveal_strlit("Demo");
    reveal_strlit("Sample");
    reveal_strlit("Bonus Disc");
    reveal_strlit("Bonus CD");
    reveal_strlit("Taikenban");
    reveal_strlit("Tentou Taikenban");
    if i == 0 {
        if let NoIntroTokenModel::Flag(_, f) = toks[0] {
            if f == "Unl"@ || f == "BIOS"@ {
                assert(!is_demo_flag(f)) by {
                    assert("Unl"@.len() != "Kiosk"@.len());
                    assert("Unl"@.len() != "Demo"@.len());
                    assert("Unl"@.len() != "Sample"@.len());
                    assert("Unl"@.len() != "Bonus Disc"@.len());
                    assert("Unl"@.len() != "Bonus CD"@.len());
                    assert("Unl"@.len() != "Taikenban"@.len());
                    assert("Unl"@.len() != "Tentou Taikenban"@.len());
                    assert("BIOS"@[0] != "Demo"@[0]);
                    assert("BIOS"@.len() != "Kiosk"@.len());
                    assert("BIOS"@.len() != "Sample"@.len());
                    assert("BIOS"@.len() != "Bonus Disc"@.len());
                    assert("BIOS"@.len() != "Bonus CD"@.len());
                    assert("BIOS"@.len() != "Taikenban"@.len());
                    assert("BIOS"@.len() != "Tentou Taikenban"@.len());
                }
                assert("Unl"@.len() != "Proto"@.len());
                assert("BIOS"@.len() != "Proto"@.len());
                assert("BIOS"@.len() != "Unl"@.len());
            }
        }
        lemma_flags_kept(apply_token(m, toks[0]), toks.drop_first());
    } else {
        assert(toks.drop_first()[i - 1] == toks[i]);
        lemma_flags_set(apply_token(m, toks[0]), toks.drop_first(), i - 1);
    }
}

/// A No-Intro name that carries the flag `Unl` is unlicensed, and one that
/// carries the flag `BIOS` is a system file, whatever its other tokens.
pub proof fn law_unl_and_bios_flags(toks: Seq<NoIntroTokenModel>, i: int)
    requires
        0 <= i < toks.len(),
    ensures
        toks[i] matches NoIntroTokenModel::Flag(_, f) && f == "Unl"@ ==> nointro_name_info(
            toks,
        ).is_unlicensed,
        toks[i] matches NoIntroTokenModel::Flag(_, f) && f == "BIOS"@ ==> nointro_name_info(
            toks,
        ).is_system,
{
    lemma_flags_set(nointro_start(), toks, i);
}

fn demo_flag(f: &str) -> (res: bool)
    ensures
        res == is_demo_flag(f@),
{
    str_eq(f, "Kiosk") || str_eq(f, "Demo") || str_eq(f, "Sample") || str_eq(f, "Bonus Disc")
        || str_eq(f, "Bonus CD") || str_eq(f, "Taikenban") || str_eq(f, "Tentou Taikenban")
}

fn tokens_info(toks: &Vec<NoIntroToken>) -> (res: NameInfo)
    ensures
        res@ == nointro_name_info(token_models(toks@)),
{
    let mut info = NameInfo {
        entry_title: String::new(),
        release_title: String::new(),
        region: vec![Region::Unknown],
        part_number: None,
        version: None,
        is_unlicensed: false,
        is_demo: false,
        is_system: false,
        status: DevelopmentStatus::Release,
        naming_convention: NamingConvention::NoIntro,
    };
    let ghost tms = token_models(toks@);
    assert(info.region@ =~= seq![Region::Unknown]);
    assert(info@.entry_title =~= Seq::<char>::empty());
    assert(info@.release_title =~= Seq::<char>::empty());
    assert(info@ == nointro_start());
    assert(tms.subrange(0, tms.len() as int) =~= tms);
    let mut i: usize = 0;
    while i < toks.len()
        invariant
            tms == token_models(toks@),
            i <= toks@.len(),
            apply_tokens(nointro_start(), tms) == apply_tokens(
                info@,
                tms.subrange(i as int, tms.len() as int),
            ),
            info@.naming_convention == NamingConvention::NoIntro,
        decreases toks@.len() - i,
    {
        proof {
            assert(tms.subrange(i as int, tms.len() as int).drop_first() =~= tms.subrange(
                i + 1,
                tms.len() as int,
            ));
            assert(tms.subrange(i as int, tms.len() as int)[0] == toks@[i as int]@);
        }
        match &toks[i] {
            NoIntroToken::Title(t) => {
                info.entry_title = t.clone();
            },
            NoIntroToken::Flag(_, f) => {
                proof {
                    reveal_strlit("Proto");
                    reveal_strlit("Unl");
                    reveal_strlit("BIOS");
                }
                if demo_flag(f.as_str()) {
                    info.is_demo = true;
                } else if str_eq(f.as_str(), "Proto") {
                    info.status = DevelopmentStatus::Prototype;
                } else if str_eq(f.as_str(), "Unl") {
                    info.is_unlicensed = true;
                } else if str_eq(f.as_str(), "BIOS") {
                    info.is_system = true;
                }
            },
            NoIntroToken::Beta(_) => {
                info.status = DevelopmentStatus::Prerelease;
            },
            NoIntroToken::Version(vs, _) => {
                if vs.len() > 0 {
                    info.version = Some(write_version(&vs[0]));
                }
            },
            NoIntroToken::Part(_, p) => {
                info.part_number = parse_i32(p.as_str());
            },
            NoIntroToken::Region(_, r) => {
                info.region = copy_regions(r);
            },
            _ => {},
        }
        i = i + 1;
    }
    info.release_title = release_title_from(info.entry_title.as_str());
    info
}

/// A tokenized No-Intro name.
#[derive(Debug, PartialEq, Eq)]
pub struct NoIntroName {
    pub tokens: Vec<NoIntroToken>,
}

impl NoIntroName {
    /// The name made of these tokens.
    pub fn from_tokens(tokens: Vec<NoIntroToken>) -> (res: NoIntroName)
        ensures
            res.tokens@ == tokens@,
    {
        NoIntroName { tokens }
    }
}

impl ToNameInfo for NoIntroName {
    fn to_name_info(&self) -> (res: NameInfo)
        ensures
            res@ == nointro_name_info(token_models(self.tokens@)),
    {
        tokens_info(&self.tokens)
    }
}

/// Tries to parse the name into a vector of tokens.
pub fn try_parse(input: &str) -> (res: Result<Vec<NoIntroToken>, ParseError>)
    ensures
        match res {
            Ok(v) => nointro_tokens(input@) == Some(token_models(v@)),
            Err(e) => {
                &&& nointro_tokens(input@) is None
                &&& e matches ParseError::BadFileNameError(c, n) && c == NamingConvention::NoIntro
                    && n@ == input@
            },
        },
{
    match read_nointro_tokens(input) {
        Some(v) => Ok(v),
        None => Err(ParseError::BadFileNameError(NamingConvention::NoIntro, owned(input))),
    }
}

/// Reads a name in the No-Intro naming convention.
pub trait NoIntroNameable: Sized {
    fn try_from_nointro(name: &str) -> Result<Self, ParseError>;
}

impl NoIntroNameable for NameInfo {
    /// What a No-Intro name says about its game; an error where the name does
    /// not follow the convention.
    fn try_from_nointro(name: &str) -> (res: Result<NameInfo, ParseError>)
        ensures
            match res {
                Ok(info) => nointro_tokens(name@) matches Some(t) && info@ == nointro_name_info(t),
                Err(e) => {
                    &&& nointro_tokens(name@) is None
                    &&& e matches ParseError::BadFileNameError(c, n) && c
                        == NamingConvention::NoIntro && n@ == name@
                },
            },
    {
        match try_parse(name) {
            Ok(toks) => Ok(tokens_info(&toks)),
            Err(e) => Err(e),
        }
    }
}

// ---------------------------------------------------------------------------
// Single tags
// ---------------------------------------------------------------------------
/// A tag read at the start of a string: what remains of the string, and the token.
pub open spec fn tag_result(s: Seq<char>, r: Read, res: Option<(String, NoIntroToken)>) -> bool {
    match (r, res) {
        (Some((j, t)), Some((rest, tok))) => rest@ == s.subrange(j, s.len() as int) && tok@ == t,
        (None, None) => true,
        _ => false,
    }
}

fn finish(s: &str, cs: &Vec<char>, r: Option<(usize, NoIntroToken)>) -> (res: Option<
    (String, NoIntroToken),
>)
    requires
        cs@ == s@,
        r matches Some((j, _)) ==> j <= cs@.len(),
    ensures
        tag_result(s@, read_of(r), res),
{
    match r {
        Some((j, t)) => Some((substr(s, j, cs.len()), t)),
        None => None,
    }
}

/// Reads a language tag such as `(En,Fr,Zh-Hant)` at the start of `input`.
pub fn parse_language_tag(input: &str) -> (res: Option<(String, NoIntroToken)>)
    ensures
        tag_result(input@, language_tag(input@, 0), res),
{
    let cs = chars_of(input);
    let r = read_language_tag(input, &cs, 0);
    finish(input, &cs, r)
}

/// Reads a version tag such as `(v1.07, Rev 1)` at the start of `input`.
pub fn parse_version_tag(input: &str) -> (res: Option<(String, NoIntroToken)>)
    ensures
        tag_result(input@, version_tag(input@, 0), res),
{
    let cs = chars_of(input);
    let r = read_version_tag(input, &cs, 0);
    finish(input, &cs, r)
}

/// Reads a beta tag such as `(Beta 3)` at the start of `input`.
pub fn parse_beta_tag(input: &str) -> (res: Option<(String, NoIntroToken)>)
    ensures
        tag_result(input@, beta_tag(input@, 0), res),
{
    let cs = chars_of(input);
    let r = read_beta_tag(input, &cs, 0);
    finish(input, &cs, r)
}

/// Reads a disc tag such as `(Disc 2)` at the start of `input`.
pub fn parse_disc_tag(input: &str) -> (res: Option<(String, NoIntroToken)>)
    ensures
        tag_result(input@, disc_tag(input@, 0), res),
{
    let cs = chars_of(input);
    let r = read_disc_tag(input, &cs, 0);
    finish(input, &cs, r)
}

/// Reads any parenthesized flag at the start of `input`.
pub fn parse_additional_tag(input: &str) -> (res: Option<(String, NoIntroToken)>)
    ensures
        tag_result(input@, additional_tag(input@, 0), res),
{
    let cs = chars_of(input);
    let r = read_additional_tag(input, &cs, 0);
    finish(input, &cs, r)
}

/// Reads a region tag such as `(USA, Europe)` at the start of `input`.
pub fn parse_region_tag(input: &str) -> (res: Option<(String, NoIntroToken)>)
    ensures
        tag_result(input@, region_tag(input@, 0), res),
{
    let cs = chars_of(input);
    let r = read_region_tag(input, &cs, 0);
    finish(input, &cs, r)
}

/// Reads a scene number such as `z123` at the start of `input`.
pub fn parse_scene_number(input: &str) -> (res: Option<(String, NoIntroToken)>)
    ensures
        tag_result(input@, scene_number(input@, 0), res),
{
    let cs = chars_of(input);
    let r = read_scene_number(input, &cs, 0);
    finish(input, &cs, r)
}

} // verus!
