//! The TOSEC naming convention:
//! `Title version (demo) (date)(publisher)(flags...)[dump info][more flags]`,
//! such as `Xevious (1983)(CCE)(NTSC)(BR)`.
//!
//! Names that bend the convention are still read; each deviation is recorded
//! as a warning token just before the token it concerns.

use vstd::prelude::*;
use crate::error::ParseError;
use crate::naming::common::{
    clone_opt, clone_strings, release_title_from, release_title_of, version_model, version_text,
    write_version, DevelopmentStatus, FlagType, NameInfo, NameInfoModel, NamingConvention,
    ToNameInfo, VersionModel, VersionTuple,
};
use crate::region::{copy_regions, region_list, Region, RegionFormat};
use crate::text::{
    char_at, char_end, char_tag, chars_of, enclosed, enclosed_at, find_from, find_tag, has_at,
    i32_value, is_ascii_digit, is_ascii_lower, lemma_views_push, opt_view, owned, parse_i32, run,
    byte_len, bytes_slice, char_at_byte_from, is_whitespace, char_at_byte, bytes_over, is_char_at,
    whitespace, range_is, lemma_span,
    run_len, span, str_eq, substr, tag, tag_at, tag_end, take_while, trim_range, trimmed, views,
    CharClass,
};

verus! {

/// A warning about a part of a name that bends the TOSEC convention.
#[derive(Debug, PartialEq, Eq)]
pub enum TOSECWarn {
    /// The name starts with `ZZZ-UNK-`.
    ZZZUnknown,
    /// A date placeholder is written with an upper-case `X`.
    MalformedDatePlaceholder(String),
    /// A development status is capitalised.
    MalformedDevelopmentStatus(String),
    /// A date is written without hyphens.
    UndelimitedDate(String),
    /// There is no date.
    MissingDate,
    /// There is no publisher.
    MissingPublisher,
    /// A space is missing before the date.
    MissingSpace,
    /// A space stands where none belongs.
    UnexpectedSpace,
    /// The publisher follows ` by ` in the title.
    ByPublisher,
    /// The publisher comes before the date.
    PublisherBeforeDate,
    /// The region is a GoodTools region code.
    GoodToolsRegionCode(String),
    /// A version stands in a flag.
    VersionInFlag,
    /// Characters remain after the last flag.
    NotEof(String),
}

/// The languages of a name.
#[derive(Debug, PartialEq, Eq)]
pub enum TOSECLanguage {
    /// A single language code
    Single(String),
    /// Two language codes
    Double(String, String),
    /// A multi-language indicator without the leading `M`
    Count(String),
}

/// A token in a TOSEC filename.
#[derive(Debug, PartialEq, Eq)]
pub enum TOSECToken {
    Title(String),
    /// The region codes as written, and the regions they stand for.
    Region(Vec<String>, Vec<Region>),
    /// The publishers, or none when the name says `(-)`.
    Publisher(Option<Vec<String>>),
    /// A demo, with its kind.
    Demo(Option<String>),
    Version(VersionTuple),
    /// Year, month and day.
    Date(String, Option<String>, Option<String>),
    Video(String),
    Copyright(String),
    Development(String),
    /// A dump info flag: its code, number and parameters.
    DumpInfo(String, Option<String>, Option<String>),
    /// Media parts: kind, number and total.
    Media(Vec<(String, String, Option<String>)>),
    Languages(TOSECLanguage),
    /// An unspecified regular flag
    Flag(FlagType, String),
    /// A warning occurred
    Warning(TOSECWarn),
}

pub enum TOSECWarnModel {
    ZZZUnknown,
    MalformedDatePlaceholder(Seq<char>),
    MalformedDevelopmentStatus(Seq<char>),
    UndelimitedDate(Seq<char>),
    MissingDate,
    MissingPublisher,
    MissingSpace,
    UnexpectedSpace,
    ByPublisher,
    PublisherBeforeDate,
    GoodToolsRegionCode(Seq<char>),
    VersionInFlag,
    NotEof(Seq<char>),
}

pub enum TOSECLanguageModel {
    Single(Seq<char>),
    Double(Seq<char>, Seq<char>),
    Count(Seq<char>),
}

pub type MediaModel = (Seq<char>, Seq<char>, Option<Seq<char>>);

pub enum TOSECTokenModel {
    Title(Seq<char>),
    Region(Seq<Seq<char>>, Seq<Region>),
    Publisher(Option<Seq<Seq<char>>>),
    Demo(Option<Seq<char>>),
    Version(VersionModel),
    Date(Seq<char>, Option<Seq<char>>, Option<Seq<char>>),
    Video(Seq<char>),
    Copyright(Seq<char>),
    Development(Seq<char>),
    DumpInfo(Seq<char>, Option<Seq<char>>, Option<Seq<char>>),
    Media(Seq<MediaModel>),
    Languages(TOSECLanguageModel),
    Flag(FlagType, Seq<char>),
    Warning(TOSECWarnModel),
}

impl View for TOSECWarn {
    type V = TOSECWarnModel;

    open spec fn view(&self) -> TOSECWarnModel {
        match self {
            TOSECWarn::ZZZUnknown => TOSECWarnModel::ZZZUnknown,
            TOSECWarn::MalformedDatePlaceholder(x) => TOSECWarnModel::MalformedDatePlaceholder(x@),
            TOSECWarn::MalformedDevelopmentStatus(x) => TOSECWarnModel::MalformedDevelopmentStatus(
                x@,
            ),
            TOSECWarn::UndelimitedDate(x) => TOSECWarnModel::UndelimitedDate(x@),
            TOSECWarn::MissingDate => TOSECWarnModel::MissingDate,
            TOSECWarn::MissingPublisher => TOSECWarnModel::MissingPublisher,
            TOSECWarn::MissingSpace => TOSECWarnModel::MissingSpace,
            TOSECWarn::UnexpectedSpace => TOSECWarnModel::UnexpectedSpace,
            TOSECWarn::ByPublisher => TOSECWarnModel::ByPublisher,
            TOSECWarn::PublisherBeforeDate => TOSECWarnModel::PublisherBeforeDate,
            TOSECWarn::GoodToolsRegionCode(x) => TOSECWarnModel::GoodToolsRegionCode(x@),
            TOSECWarn::VersionInFlag => TOSECWarnModel::VersionInFlag,
            TOSECWarn::NotEof(x) => TOSECWarnModel::NotEof(x@),
        }
    }
}

impl View for TOSECLanguage {
    type V = TOSECLanguageModel;

    open spec fn view(&self) -> TOSECLanguageModel {
        match self {
            TOSECLanguage::Single(a) => TOSECLanguageModel::Single(a@),
            TOSECLanguage::Double(a, b) => TOSECLanguageModel::Double(a@, b@),
            TOSECLanguage::Count(a) => TOSECLanguageModel::Count(a@),
        }
    }
}

pub open spec fn media_models(v: Seq<(String, String, Option<String>)>) -> Seq<MediaModel> {
    v.map_values(|m: (String, String, Option<String>)| (m.0@, m.1@, opt_view(m.2)))
}

impl View for TOSECToken {
    type V = TOSECTokenModel;

    open spec fn view(&self) -> TOSECTokenModel {
        match self {
            TOSECToken::Title(t) => TOSECTokenModel::Title(t@),
            TOSECToken::Region(s, r) => TOSECTokenModel::Region(views(s@), r@),
            TOSECToken::Publisher(p) => TOSECTokenModel::Publisher(
                match p {
                    Some(v) => Some(views(v@)),
                    None => None,
                },
            ),
            TOSECToken::Demo(d) => TOSECTokenModel::Demo(opt_view(*d)),
            TOSECToken::Version(v) => TOSECTokenModel::Version(version_model(*v)),
            TOSECToken::Date(y, m, d) => TOSECTokenModel::Date(y@, opt_view(*m), opt_view(*d)),
            TOSECToken::Video(v) => TOSECTokenModel::Video(v@),
            TOSECToken::Copyright(c) => TOSECTokenModel::Copyright(c@),
            TOSECToken::Development(d) => TOSECTokenModel::Development(d@),
            TOSECToken::DumpInfo(a, b, c) => TOSECTokenModel::DumpInfo(
                a@,
                opt_view(*b),
                opt_view(*c),
            ),
            TOSECToken::Media(m) => TOSECTokenModel::Media(media_models(m@)),
            TOSECToken::Languages(l) => TOSECTokenModel::Languages(l@),
            TOSECToken::Flag(f, t) => TOSECTokenModel::Flag(*f, t@),
            TOSECToken::Warning(w) => TOSECTokenModel::Warning(w@),
        }
    }
}

pub open spec fn token_models(v: Seq<TOSECToken>) -> Seq<TOSECTokenModel> {
    v.map_values(|t: TOSECToken| t@)
}

pub type Read = Option<(int, TOSECTokenModel)>;

pub type Reads = Option<(int, Seq<TOSECTokenModel>)>;

pub open spec fn read_of(r: Option<(usize, TOSECToken)>) -> Read {
    match r {
        Some((j, t)) => Some((j as int, t@)),
        None => None,
    }
}

pub open spec fn reads_of(r: Option<(usize, Vec<TOSECToken>)>) -> Reads {
    match r {
        Some((j, v)) => Some((j as int, token_models(v@))),
        None => None,
    }
}

/// A warning token.
pub open spec fn warn(w: TOSECWarnModel) -> TOSECTokenModel {
    TOSECTokenModel::Warning(w)
}

// ---------------------------------------------------------------------------
// Word lists
// ---------------------------------------------------------------------------
/// The index of the first word of `words`, from `j` on, that stands at `k`.
pub open spec fn first_word(s: Seq<char>, k: int, words: Seq<Seq<char>>, j: int) -> Option<int>
    decreases words.len() - j,
{
    if j < 0 || j >= words.len() {
        None
    } else if has_at(s, k, words[j]) {
        Some(j)
    } else {
        first_word(s, k, words, j + 1)
    }
}

pub proof fn lemma_first_word(s: Seq<char>, k: int, words: Seq<Seq<char>>, j: int)
    ensures
        first_word(s, k, words, j) matches Some(i) ==> 0 <= i < words.len() && has_at(
            s,
            k,
            words[i],
        ),
    decreases words.len() - j,
{
    if j < 0 || j >= words.len() {
    } else if has_at(s, k, words[j]) {
    } else {
        lemma_first_word(s, k, words, j + 1);
    }
}

/// The video standards.
pub open spec fn video_words() -> Seq<Seq<char>> {
    seq![
        "CGA"@,
        "EGA"@,
        "HGC"@,
        "MCGA"@,
        "MDA"@,
        "NTSC"@,
        "NTSC-PAL"@,
        "PAL"@,
        "PAL-60"@,
        "PAL-NTSC"@,
        "SVGA"@,
        "VGA"@,
        "XGA"@,
    ]
}

/// The copyright statuses.
pub open spec fn copyright_words() -> Seq<Seq<char>> {
    seq!["CW"@, "CW-R"@, "FW"@, "GW"@, "GW-R"@, "LW"@, "PD"@, "SW"@, "SW-R"@]
}

/// The development statuses as the convention writes them.
pub open spec fn devstatus_words() -> Seq<Seq<char>> {
    seq!["alpha"@, "beta"@, "preview"@, "pre-release"@, "proto"@]
}

/// Capitalised development statuses.
pub open spec fn malformed_devstatus_words() -> Seq<Seq<char>> {
    seq!["Alpha"@, "Beta"@, "Preview"@, "Pre-Release"@, "Proto"@, "Prototype"@]
}

/// The kinds of media parts.
pub open spec fn media_words() -> Seq<Seq<char>> {
    seq!["Disk"@, "Disc"@, "File"@, "Part"@, "Side"@]
}

/// The kinds of demos.
pub open spec fn demo_words() -> Seq<Seq<char>> {
    seq!["kiosk"@, "rolling"@, "playable"@, "slideshow"@]
}

/// The dump info codes, in the order in which they are read.
pub open spec fn dumpinfo_words() -> Seq<Seq<char>> {
    seq!["cr"@, "f"@, "h"@, "m"@, "p"@, "t"@, "tr"@, "o"@, "u"@, "v"@, "b"@, "a"@, "!"@]
}

/// The word of `words` that stands at `k`, the first in list order, and where it ends.
pub open spec fn word_at(s: Seq<char>, k: int, words: Seq<Seq<char>>) -> Option<(int, Seq<char>)> {
    match first_word(s, k, words, 0) {
        Some(j) => Some((k + words[j].len(), words[j])),
        None => None,
    }
}

// ---------------------------------------------------------------------------
// Tags
// ---------------------------------------------------------------------------
/// `(` and `inner`, then `)`.
pub open spec fn in_parens(s: Seq<char>, i: int, inner: Read) -> Read {
    match inner {
        Some((k, t)) => match char_end(s, k, ')') {
            Some(e) => Some((e, t)),
            None => None,
        },
        None => None,
    }
}

/// A GoodTools region code, such as `(U)`, read with a warning before it.
#[verifier::opaque]
pub open spec fn goodtools_region_tag(s: Seq<char>, i: int) -> Reads {
    match enclosed(s, i, '(', ')', ')') {
        Some((a, b)) => match region_list(RegionFormat::GoodTools, s.subrange(a, b)) {
            Ok((_, regs)) => Some(
                (
                    b + 1,
                    seq![
                        warn(TOSECWarnModel::GoodToolsRegionCode(s.subrange(a, b))),
                        TOSECTokenModel::Region(seq![s.subrange(a, b)], regs),
                    ],
                ),
            ),
            Err(_) => None,
        },
        None => None,
    }
}

/// `[`, the dump info code `code`, an optional number, and optional
/// parameters after a space, then `]`.
#[verifier::opaque]
pub open spec fn dumpinfo_tag(s: Seq<char>, i: int, code: Seq<char>) -> Read {
    match char_end(s, i, '[') {
        Some(a) => match tag_end(s, a, code) {
            Some(b) => {
                let n = run(s, b, CharClass::Digit);
                let index = if n > 0 {
                    Some(s.subrange(b, b + n))
                } else {
                    None
                };
                let c = b + n;
                let m = run(s, c + 1, CharClass::Not(']'));
                let (params, d) = if char_at(s, c, ' ') && m > 0 {
                    (Some(s.subrange(c + 1, c + 1 + m)), c + 1 + m)
                } else {
                    (None, c)
                };
                match char_end(s, d, ']') {
                    Some(e) => Some((e, TOSECTokenModel::DumpInfo(code, index, params))),
                    None => None,
                }
            },
            None => None,
        },
        None => None,
    }
}

/// `(demo)`, or `(demo-` and a kind of demo, then `)`.
#[verifier::opaque]
pub open spec fn demo_tag(s: Seq<char>, i: int) -> Read {
    match tag_end(s, i, "(demo"@) {
        Some(a) => {
            let (kind, b) = if char_at(s, a, '-') && word_at(s, a + 1, demo_words()) is Some {
                let (e, w) = word_at(s, a + 1, demo_words()).unwrap();
                (Some(w), e)
            } else {
                (None, a)
            };
            match char_end(s, b, ')') {
                Some(e) => Some((e, TOSECTokenModel::Demo(kind))),
                None => None,
            }
        },
        None => None,
    }
}

/// A development status in parentheses; a capitalised one comes with a warning.
#[verifier::opaque]
pub open spec fn devstatus_tag(s: Seq<char>, i: int) -> Reads {
    match char_end(s, i, '(') {
        Some(a) => {
            let inner: Reads = match word_at(s, a, devstatus_words()) {
                Some((e, w)) => Some((e, seq![TOSECTokenModel::Development(w)])),
                None => match word_at(s, a, malformed_devstatus_words()) {
                    Some((e, w)) => Some(
                        (
                            e,
                            seq![
                                warn(TOSECWarnModel::MalformedDevelopmentStatus(w)),
                                TOSECTokenModel::Development(w),
                            ],
                        ),
                    ),
                    None => None,
                },
            };
            match inner {
                Some((e, ts)) => match char_end(s, e, ')') {
                    Some(f) => Some((f, ts)),
                    None => None,
                },
                None => None,
            }
        },
        None => None,
    }
}

/// The number that two digits write.
pub open spec fn two_digit_value(s: Seq<char>, k: int) -> int {
    (s[k] as int - '0' as int) * 10 + (s[k + 1] as int - '0' as int)
}

/// A date written as eight digits, with a month of at most 12 and a day of at most 31.
pub open spec fn undelimited_date(s: Seq<char>, k: int) -> Reads {
    if span(s, k, CharClass::Digit, 4) == 4 && span(s, k + 4, CharClass::Digit, 2) == 2
        && two_digit_value(s, k + 4) <= 12 && span(s, k + 6, CharClass::Digit, 2) == 2
        && two_digit_value(s, k + 6) <= 31 {
        Some(
            (
                k + 8,
                seq![
                    warn(TOSECWarnModel::UndelimitedDate(s.subrange(k, k + 8))),
                    TOSECTokenModel::Date(
                        s.subrange(k, k + 4),
                        Some(s.subrange(k + 4, k + 6)),
                        Some(s.subrange(k + 6, k + 8)),
                    ),
                ],
            ),
        )
    } else {
        None
    }
}

/// `-` and two digits or `x`, when present at `k`.
pub open spec fn date_part(s: Seq<char>, k: int) -> (Option<Seq<char>>, int) {
    if char_at(s, k, '-') && span(s, k + 1, CharClass::DigitOrX, 2) == 2 {
        (Some(s.subrange(k + 1, k + 3)), k + 3)
    } else {
        (None, k)
    }
}

/// Whether a part of a date holds an upper-case `X`.
pub open spec fn has_upper_x(p: Seq<char>) -> bool {
    exists|i: int| 0 <= i < p.len() && p[i] == 'X'
}

/// The placeholder warning for a part of a date, if it has an upper-case `X`.
pub open spec fn placeholder_warning(p: Option<Seq<char>>) -> Seq<TOSECTokenModel> {
    match p {
        Some(x) => if has_upper_x(x) {
            seq![warn(TOSECWarnModel::MalformedDatePlaceholder(x))]
        } else {
            seq![]
        },
        None => seq![],
    }
}

/// A date: eight digits, or a year of four digits or `x`, then an optional
/// month and an optional day, each after `-`.
pub open spec fn date(s: Seq<char>, k: int) -> Reads {
    if undelimited_date(s, k) is Some {
        undelimited_date(s, k)
    } else if span(s, k, CharClass::DigitOrX, 4) == 4 {
        let year = s.subrange(k, k + 4);
        let (month, a) = date_part(s, k + 4);
        let (day, b) = date_part(s, a);
        Some(
            (
                b,
                placeholder_warning(Some(year)) + placeholder_warning(month) + placeholder_warning(
                    day,
                ) + seq![TOSECTokenModel::Date(year, month, day)],
            ),
        )
    } else {
        None
    }
}

/// A date in parentheses.
#[verifier::opaque]
pub open spec fn date_tag(s: Seq<char>, i: int) -> Reads {
    match char_end(s, i, '(') {
        Some(a) => match date(s, a) {
            Some((k, ts)) => match char_end(s, k, ')') {
                Some(e) => Some((e, ts)),
                None => None,
            },
            None => None,
        },
        None => None,
    }
}

/// `(US-ZZ)`: a parenthesized TOSEC region list.
#[verifier::opaque]
pub open spec fn region_tag(s: Seq<char>, i: int) -> Read {
    match enclosed(s, i, '(', ')', ')') {
        Some((a, b)) => match region_list(RegionFormat::TOSEC, s.subrange(a, b)) {
            Ok((strs, regs)) => Some((b + 1, TOSECTokenModel::Region(strs, regs))),
            Err(_) => None,
        },
        None => None,
    }
}

/// One publisher: the characters up to `)`, or up to ` - ` when one comes first.
pub open spec fn publisher_item(s: Seq<char>, k: int) -> Option<int> {
    let r = run(s, k, CharClass::Not(')'));
    if r == 0 {
        None
    } else {
        match find_from(s, k, " - "@) {
            Some(q) => if q + 3 <= k + r {
                Some(q)
            } else {
                Some(k + r)
            },
            None => Some(k + r),
        }
    }
}

/// The publishers that follow, each after ` - `.
pub open spec fn publisher_rest(s: Seq<char>, k: int, acc: Seq<Seq<char>>) -> (int, Seq<Seq<char>>)
    decreases s.len() - k,
{
    match tag_end(s, k, " - "@) {
        Some(k1) => match publisher_item(s, k1) {
            Some(k2) => if k < k2 <= s.len() {
                publisher_rest(s, k2, acc.push(s.subrange(k1, k2)))
            } else {
                (k, acc)
            },
            None => (k, acc),
        },
        None => (k, acc),
    }
}

/// A publisher list: `-` for none, or publishers separated by ` - `.
pub open spec fn publisher(s: Seq<char>, k: int) -> Read {
    if char_at(s, k, '-') {
        Some((k + 1, TOSECTokenModel::Publisher(None)))
    } else {
        match publisher_item(s, k) {
            Some(k1) => {
                let (k2, ps) = publisher_rest(s, k1, seq![s.subrange(k, k1)]);
                Some((k2, TOSECTokenModel::Publisher(Some(ps))))
            },
            None => None,
        }
    }
}

/// A publisher list in parentheses.
#[verifier::opaque]
pub open spec fn publisher_tag(s: Seq<char>, i: int) -> Read {
    match char_end(s, i, '(') {
        Some(a) => in_parens(s, i, publisher(s, a)),
        None => None,
    }
}

/// Languages: `M` and a count, two codes joined by `-`, or one code; codes
/// are two lower-case letters.
pub open spec fn language(s: Seq<char>, k: int) -> Read {
    if char_at(s, k, 'M') {
        let n = run(s, k + 1, CharClass::Digit);
        Some(
            (
                k + 1 + n,
                TOSECTokenModel::Languages(TOSECLanguageModel::Count(s.subrange(k + 1, k + 1 + n))),
            ),
        )
    } else if span(s, k, CharClass::Lower, 2) == 2 {
        if char_at(s, k + 2, '-') && span(s, k + 3, CharClass::Lower, 2) == 2 {
            Some(
                (
                    k + 5,
                    TOSECTokenModel::Languages(
                        TOSECLanguageModel::Double(s.subrange(k, k + 2), s.subrange(k + 3, k + 5)),
                    ),
                ),
            )
        } else {
            Some(
                (
                    k + 2,
                    TOSECTokenModel::Languages(TOSECLanguageModel::Single(s.subrange(k, k + 2))),
                ),
            )
        }
    } else {
        None
    }
}

/// Languages in parentheses.
#[verifier::opaque]
pub open spec fn language_tag(s: Seq<char>, i: int) -> Read {
    match char_end(s, i, '(') {
        Some(a) => in_parens(s, i, language(s, a)),
        None => None,
    }
}

/// One media part: a kind, a space, its number, and ` of ` and a total when present.
pub open spec fn media_part(s: Seq<char>, k: int) -> Option<(int, MediaModel)> {
    match word_at(s, k, media_words()) {
        Some((a, kind)) => if char_at(s, a, ' ') {
            let n = run(s, a + 1, CharClass::AlnumDash);
            let b = a + 1 + n;
            let (total, c) = if has_at(s, b, " of "@) {
                let m = run(s, b + 4, CharClass::AlnumDash);
                (Some(s.subrange(b + 4, b + 4 + m)), b + 4 + m)
            } else {
                (None, b)
            };
            Some((c, (kind, s.subrange(a + 1, b), total)))
        } else {
            None
        },
        None => None,
    }
}

/// A media part, then ` Side ` and a side when present.
pub open spec fn media(s: Seq<char>, k: int) -> Read {
    match media_part(s, k) {
        Some((a, part)) => if has_at(s, a, " Side "@) {
            let n = run(s, a + 6, CharClass::Alnum);
            Some(
                (
                    a + 6 + n,
                    TOSECTokenModel::Media(seq![part, ("Side"@, s.subrange(a + 6, a + 6 + n), None)]),
                ),
            )
        } else {
            Some((a, TOSECTokenModel::Media(seq![part])))
        },
        None => None,
    }
}

/// Media parts in parentheses.
#[verifier::opaque]
pub open spec fn media_tag(s: Seq<char>, i: int) -> Read {
    match char_end(s, i, '(') {
        Some(a) => in_parens(s, i, media(s, a)),
        None => None,
    }
}

/// A video standard in parentheses.
#[verifier::opaque]
pub open spec fn video_tag(s: Seq<char>, i: int) -> Read {
    match char_end(s, i, '(') {
        Some(a) => in_parens(
            s,
            i,
            match word_at(s, a, video_words()) {
                Some((e, w)) => Some((e, TOSECTokenModel::Video(w))),
                None => None,
            },
        ),
        None => None,
    }
}

/// A copyright status in parentheses.
#[verifier::opaque]
pub open spec fn copyright_tag(s: Seq<char>, i: int) -> Read {
    match char_end(s, i, '(') {
        Some(a) => in_parens(
            s,
            i,
            match word_at(s, a, copyright_words()) {
                Some((e, w)) => Some((e, TOSECTokenModel::Copyright(w))),
                None => None,
            },
        ),
        None => None,
    }
}

/// Any parenthesized flag.
pub open spec fn parens_tag(s: Seq<char>, i: int) -> Read {
    match enclosed(s, i, '(', ')', ')') {
        Some((a, b)) => Some(
            (b + 1, TOSECTokenModel::Flag(FlagType::Parenthesized, s.subrange(a, b))),
        ),
        None => None,
    }
}

/// Any bracketed flag.
pub open spec fn bracket_tag(s: Seq<char>, i: int) -> Read {
    match enclosed(s, i, '[', ']', ']') {
        Some((a, b)) => Some((b + 1, TOSECTokenModel::Flag(FlagType::Bracketed, s.subrange(a, b)))),
        None => None,
    }
}

/// A version: `Rev ` and letters or digits; or `v`, digits, and `.` and
/// letters, digits or dots, with something after the `v`.
#[verifier::opaque]
pub open spec fn version_string(s: Seq<char>, k: int) -> Read {
    match tag_end(s, k, "Rev "@) {
        Some(a) => {
            let n = run(s, a, CharClass::Alnum);
            Some((a + n, TOSECTokenModel::Version(("Rev"@, s.subrange(a, a + n), None, None, None))))
        },
        None => match tag_end(s, k, "v"@) {
            Some(a) => {
                let n = run(s, a, CharClass::Digit);
                let b = a + n;
                let m = run(s, b + 1, CharClass::AlnumDot);
                let (minor, c) = if char_at(s, b, '.') {
                    (Some(s.subrange(b + 1, b + 1 + m)), b + 1 + m)
                } else {
                    (None, b)
                };
                if minor is None && n == 0 {
                    None
                } else {
                    Some(
                        (c, TOSECTokenModel::Version(("v"@, s.subrange(a, b), minor, None, None))),
                    )
                }
            },
            None => None,
        },
    }
}

/// A version in parentheses, which the convention does not allow: read with a warning.
#[verifier::opaque]
pub open spec fn version_flag_tag(s: Seq<char>, i: int) -> Reads {
    match char_end(s, i, '(') {
        Some(a) => match in_parens(s, i, version_string(s, a)) {
            Some((e, v)) => Some((e, seq![warn(TOSECWarnModel::VersionInFlag), v])),
            None => None,
        },
        None => None,
    }
}


// ---------------------------------------------------------------------------
// The whole name
// ---------------------------------------------------------------------------
/// A version after a space, a demo flag after an optional space, and a date
/// after an optional space; a missing space before the date is warned of.
#[verifier::opaque]
pub open spec fn version_demo_date(s: Seq<char>, j: int) -> Reads {
    let (p, vt) = if char_at(s, j, ' ') && version_string(s, j + 1) is Some {
        let (e, v) = version_string(s, j + 1).unwrap();
        (e, seq![v])
    } else {
        (j, Seq::<TOSECTokenModel>::empty())
    };
    let q = if char_at(s, p, ' ') {
        p + 1
    } else {
        p
    };
    let (p2, dt) = if demo_tag(s, q) is Some {
        let (e, d) = demo_tag(s, q).unwrap();
        (e, vt.push(d))
    } else {
        (p, vt)
    };
    let (p3, wt) = if char_at(s, p2, ' ') {
        (p2 + 1, dt)
    } else {
        (p2, dt.push(warn(TOSECWarnModel::MissingSpace)))
    };
    match date_tag(s, p3) {
        Some((e, ds)) => Some((e, wt + ds)),
        None => None,
    }
}

/// The first position `j` from where version, demo and date read, before the
/// end of the name; the end of what they read; and their tokens.
pub open spec fn happy_from(s: Seq<char>, j: int) -> Option<(int, int, Seq<TOSECTokenModel>)>
    decreases s.len() - j,
{
    if j < 0 || j >= s.len() {
        None
    } else {
        match version_demo_date(s, j) {
            Some((e, ts)) => Some((j, e, ts)),
            None => happy_from(s, j + 1),
        }
    }
}

/// The title up to the first place where version, demo and date read, then those.
pub open spec fn title_happy(s: Seq<char>, k: int) -> Reads {
    match happy_from(s, k) {
        Some((j, e, ts)) => Some((e, seq![TOSECTokenModel::Title(trimmed(s, k, j))] + ts)),
        None => None,
    }
}

/// Where a title without a date stops: a space and a version, or a `(` or a `[`.
pub open spec fn degenerate_stop(s: Seq<char>, j: int) -> Reads {
    if char_at(s, j, ' ') && version_string(s, j + 1) is Some {
        let (e, v) = version_string(s, j + 1).unwrap();
        Some((e, seq![v]))
    } else if char_at(s, j, '(') || char_at(s, j, '[') {
        Some((j, seq![]))
    } else {
        None
    }
}

pub open spec fn degenerate_from(s: Seq<char>, j: int) -> Option<(int, int, Seq<TOSECTokenModel>)>
    decreases s.len() - j,
{
    if j < 0 || j >= s.len() {
        None
    } else {
        match degenerate_stop(s, j) {
            Some((e, vs)) => Some((j, e, vs)),
            None => degenerate_from(s, j + 1),
        }
    }
}

/// A title without a date: up to the first place where it stops, with the
/// version when there is one, an optional space, and a warning that the date
/// is missing.
pub open spec fn title_degenerate(s: Seq<char>, k: int) -> Reads {
    match degenerate_from(s, k) {
        Some((j, e, vs)) => {
            let e2 = if char_at(s, e, ' ') {
                e + 1
            } else {
                e
            };
            Some(
                (
                    e2,
                    seq![TOSECTokenModel::Title(trimmed(s, k, j))] + vs + seq![
                        warn(TOSECWarnModel::MissingDate),
                    ],
                ),
            )
        },
        None => None,
    }
}

/// ` by ` in `t`: the trimmed text before it, the trimmed publisher after it
/// up to a `(`, and where that publisher ends.
pub open spec fn by_publisher(t: Seq<char>) -> Option<(Seq<char>, Seq<char>, int)> {
    match find_from(t, 0, " by "@) {
        Some(q) => {
            let n = run(t, q + 4, CharClass::Not('('));
            Some((trimmed(t, 0, q), trimmed(t, q + 4, q + 4 + n), q + 4 + n))
        },
        None => None,
    }
}

/// The title and what follows it up to the publisher, with the title of a
/// `ZZZ-UNK-` name read for a publisher after ` by `.
#[verifier::opaque]
pub open spec fn title_part(s: Seq<char>) -> (int, Seq<TOSECTokenModel>) {
    let z = has_at(s, 0, "ZZZ-UNK-"@);
    let p0 = if z {
        8
    } else {
        0
    };
    let (p1, t1) = if title_happy(s, p0) is Some {
        title_happy(s, p0).unwrap()
    } else if title_degenerate(s, p0) is Some {
        title_degenerate(s, p0).unwrap()
    } else {
        (
            s.len() as int,
            seq![
                TOSECTokenModel::Title(s.subrange(p0, s.len() as int)),
                warn(TOSECWarnModel::MissingDate),
                warn(TOSECWarnModel::MissingPublisher),
            ],
        )
    };
    if z {
        let title = match t1[0] {
            TOSECTokenModel::Title(x) => x,
            _ => seq![],
        };
        let (p2, t2) = match by_publisher(title) {
            Some((tt, pn, _)) => (
                p1,
                seq![
                    TOSECTokenModel::Title(tt),
                    warn(TOSECWarnModel::PublisherBeforeDate),
                    warn(TOSECWarnModel::ByPublisher),
                    TOSECTokenModel::Publisher(Some(seq![pn])),
                ] + t1.drop_first(),
            ),
            None => match by_publisher(s.subrange(p1, s.len() as int)) {
                Some((_, pn, end)) => (
                    p1 + end,
                    t1.push(warn(TOSECWarnModel::ByPublisher)).push(
                        TOSECTokenModel::Publisher(Some(seq![pn])),
                    ),
                ),
                None => if p1 == s.len() && t1.last() != warn(TOSECWarnModel::MissingPublisher) {
                    (p1, t1.push(warn(TOSECWarnModel::MissingPublisher)))
                } else {
                    (p1, t1)
                },
            },
        };
        (p2, seq![warn(TOSECWarnModel::ZZZUnknown)] + t2)
    } else {
        (p1, t1)
    }
}

/// Whether one of the flags that may follow the publisher stands at `k`.
pub open spec fn known_flag_at(s: Seq<char>, k: int) -> bool {
    ||| region_tag(s, k) is Some
    ||| language_tag(s, k) is Some
    ||| video_tag(s, k) is Some
    ||| copyright_tag(s, k) is Some
    ||| media_tag(s, k) is Some
    ||| bracket_tag(s, k) is Some
    ||| devstatus_tag(s, k) is Some
    ||| goodtools_region_tag(s, k) is Some
}

/// Whether the tokens hold a publisher.
pub open spec fn has_publisher(ts: Seq<TOSECTokenModel>) -> bool {
    exists|i: int| 0 <= i < ts.len() && ts[i] is Publisher
}

/// The flags in parentheses that follow the publisher.
#[verifier::opaque]
pub open spec fn paren_flag(s: Seq<char>, k: int) -> Reads {
    if region_tag(s, k) is Some {
        let (e, t) = region_tag(s, k).unwrap();
        Some((e, seq![t]))
    } else if language_tag(s, k) is Some {
        let (e, t) = language_tag(s, k).unwrap();
        Some((e, seq![t]))
    } else if video_tag(s, k) is Some {
        let (e, t) = video_tag(s, k).unwrap();
        Some((e, seq![t]))
    } else if copyright_tag(s, k) is Some {
        let (e, t) = copyright_tag(s, k).unwrap();
        Some((e, seq![t]))
    } else if media_tag(s, k) is Some {
        let (e, t) = media_tag(s, k).unwrap();
        Some((e, seq![t]))
    } else if goodtools_region_tag(s, k) is Some {
        goodtools_region_tag(s, k)
    } else if devstatus_tag(s, k) is Some {
        devstatus_tag(s, k)
    } else if version_flag_tag(s, k) is Some {
        version_flag_tag(s, k)
    } else {
        match parens_tag(s, k) {
            Some((e, t)) => Some((e, seq![t])),
            None => None,
        }
    }
}

/// A space warning, if there is a space at `k`.
pub open spec fn space_warning(s: Seq<char>, k: int) -> Seq<TOSECTokenModel> {
    if char_at(s, k, ' ') {
        seq![warn(TOSECWarnModel::UnexpectedSpace)]
    } else {
        seq![]
    }
}

/// The position after an optional space at `k`.
pub open spec fn after_space(s: Seq<char>, k: int) -> int {
    if char_at(s, k, ' ') {
        k + 1
    } else {
        k
    }
}

/// The flags in parentheses, each after an optional space, which is warned of.
pub open spec fn paren_flags(s: Seq<char>, k: int, acc: Seq<TOSECTokenModel>) -> (
    int,
    Seq<TOSECTokenModel>,
)
    decreases s.len() - k,
{
    match paren_flag(s, after_space(s, k)) {
        Some((e, ts)) => if k < e <= s.len() {
            paren_flags(s, e, acc + space_warning(s, k) + ts)
        } else {
            (k, acc)
        },
        None => (k, acc),
    }
}

/// The dump info flags, each code tried once in list order after an optional
/// space, which is warned of.
pub open spec fn dumpinfo_flags(s: Seq<char>, k: int, acc: Seq<TOSECTokenModel>, j: int) -> (
    int,
    Seq<TOSECTokenModel>,
)
    decreases 13 - j,
{
    if j < 0 || j >= 13 {
        (k, acc)
    } else {
        let k1 = after_space(s, k);
        let a1 = acc + space_warning(s, k);
        match dumpinfo_tag(s, k1, dumpinfo_words()[j]) {
            Some((e, t)) => dumpinfo_flags(s, e, a1.push(t), j + 1),
            None => dumpinfo_flags(s, k1, a1, j + 1),
        }
    }
}

/// The bracketed flags, each after an optional space, which is warned of.
pub open spec fn bracket_flags(s: Seq<char>, k: int, acc: Seq<TOSECTokenModel>) -> (
    int,
    Seq<TOSECTokenModel>,
)
    decreases s.len() - k,
{
    match bracket_tag(s, after_space(s, k)) {
        Some((e, t)) => if k < e <= s.len() {
            bracket_flags(s, e, acc + space_warning(s, k) + seq![t])
        } else {
            (k, acc)
        },
        None => (k, acc),
    }
}

/// What a TOSEC name reads as, and where the reading stops: the title part,
/// then a publisher unless a known flag follows, then the flags in
/// parentheses, the dump info flags and the bracketed flags. `None` where a
/// publisher is required and does not read.
#[verifier::opaque]
pub open spec fn tosec_name_read(s: Seq<char>) -> Option<(int, Seq<TOSECTokenModel>)> {
    let (p2, t2) = title_part(s);
    let p3 = after_space(s, p2);
    let t3 = t2 + space_warning(s, p2);
    let after_publisher: Option<(int, Seq<TOSECTokenModel>)> = if !known_flag_at(s, p3) {
        if t3.last() == warn(TOSECWarnModel::MissingPublisher) {
            Some((p3, t3))
        } else {
            match publisher_tag(s, p3) {
                Some((e, pt)) => Some((e, t3.push(pt))),
                None => None,
            }
        }
    } else if !has_publisher(t3) {
        Some((p3, t3.push(warn(TOSECWarnModel::MissingPublisher))))
    } else {
        Some((p3, t3))
    };
    match after_publisher {
        Some((p4, t4)) => {
            let (p5, t5) = paren_flags(s, p4, t4);
            let (p6, t6) = dumpinfo_flags(s, p5, t5, 0);
            Some(bracket_flags(s, p6, t6))
        },
        None => None,
    }
}

/// The tokens of a whole TOSEC name: what the name reads as, and a final
/// `NotEof` warning that holds any text left after it.
pub open spec fn tosec_tokens(s: Seq<char>) -> Option<Seq<TOSECTokenModel>> {
    match tosec_name_read(s) {
        Some((p7, t7)) => if p7 == s.len() {
            Some(t7)
        } else {
            Some(t7.push(warn(TOSECWarnModel::NotEof(s.subrange(p7, s.len() as int)))))
        },
        None => None,
    }
}

/// Text left after a TOSEC name is never an error: a name reads exactly when
/// its start reads, and what is left after that start becomes a final
/// `NotEof` warning.
pub proof fn law_leftover_text_warns(s: Seq<char>)
    ensures
        (tosec_tokens(s) is Some) == (tosec_name_read(s) is Some),
        tosec_name_read(s) matches Some((p, t)) ==> tosec_tokens(s) == Some(
            if p == s.len() {
                t
            } else {
                t.push(warn(TOSECWarnModel::NotEof(s.subrange(p, s.len() as int))))
            },
        ),
{
}

// ---------------------------------------------------------------------------
// Warnings come before the tokens they are about
// ---------------------------------------------------------------------------
/// What a warning says of the token after it (`None` where it is the last):
/// a `ZZZ-UNK-` warning comes before the title; a GoodTools region warning
/// before that region; a capitalised status warning before that status; an
/// undelimited date warning before the date; a placeholder warning before the
/// date or another placeholder warning; a version flag warning before the
/// version; a publisher-before-date warning before the by-publisher warning,
/// and that before the publisher; a missing space before the date or its
/// first warning. The other warnings are about nothing that follows.
pub open spec fn leads(w: TOSECWarnModel, next: Option<TOSECTokenModel>) -> bool {
    match w {
        TOSECWarnModel::ZZZUnknown => next matches Some(TOSECTokenModel::Title(_)),
        TOSECWarnModel::GoodToolsRegionCode(x) => next matches Some(
            TOSECTokenModel::Region(c, _),
        ) && c == seq![x],
        TOSECWarnModel::MalformedDevelopmentStatus(x) => next == Some(
            TOSECTokenModel::Development(x),
        ),
        TOSECWarnModel::UndelimitedDate(x) => next matches Some(
            TOSECTokenModel::Date(y, Some(m), Some(d)),
        ) && y + m + d == x,
        TOSECWarnModel::MalformedDatePlaceholder(_) => next matches Some(
            TOSECTokenModel::Date(_, _, _),
        ) || next matches Some(
            TOSECTokenModel::Warning(TOSECWarnModel::MalformedDatePlaceholder(_)),
        ),
        TOSECWarnModel::VersionInFlag => next matches Some(TOSECTokenModel::Version(_)),
        TOSECWarnModel::PublisherBeforeDate => next == Some(warn(TOSECWarnModel::ByPublisher)),
        TOSECWarnModel::ByPublisher => next matches Some(TOSECTokenModel::Publisher(_)),
        TOSECWarnModel::MissingSpace => next matches Some(TOSECTokenModel::Date(_, _, _)) || next
            matches Some(TOSECTokenModel::Warning(TOSECWarnModel::UndelimitedDate(_))) || next
            matches Some(TOSECTokenModel::Warning(TOSECWarnModel::MalformedDatePlaceholder(_))),
        _ => true,
    }
}

/// Whether a token, if it is a warning, comes before what it is about.
pub open spec fn token_leads(t: TOSECTokenModel, next: Option<TOSECTokenModel>) -> bool {
    match t {
        TOSECTokenModel::Warning(w) => leads(w, next),
        _ => true,
    }
}

/// The token after position `i`, if there is one.
pub open spec fn next_of(ts: Seq<TOSECTokenModel>, i: int) -> Option<TOSECTokenModel> {
    if i + 1 < ts.len() {
        Some(ts[i + 1])
    } else {
        None
    }
}

/// Every warning of the tokens comes right before what it is about.
pub open spec fn warnings_lead(ts: Seq<TOSECTokenModel>) -> bool {
    forall|i: int| 0 <= i < ts.len() ==> token_leads(#[trigger] ts[i], next_of(ts, i))
}

proof fn lemma_leads_last(t: TOSECTokenModel, n: Option<TOSECTokenModel>)
    requires
        token_leads(t, None),
    ensures
        token_leads(t, n),
{
}

proof fn lemma_lead_concat(a: Seq<TOSECTokenModel>, b: Seq<TOSECTokenModel>)
    requires
        warnings_lead(a),
        warnings_lead(b),
    ensures
        warnings_lead(a + b),
{
    let c = a + b;
    assert forall|i: int| 0 <= i < c.len() implies token_leads(#[trigger] c[i], next_of(c, i)) by {
        if i < a.len() {
            assert(c[i] == a[i]);
            assert(token_leads(a[i], next_of(a, i)));
            if i + 1 < a.len() {
                assert(next_of(c, i) == next_of(a, i));
            } else {
                lemma_leads_last(a[i], next_of(c, i));
            }
        } else {
            let j = i - a.len();
            assert(c[i] == b[j]);
            assert(token_leads(b[j], next_of(b, j)));
            if j + 1 < b.len() {
                assert(c[i + 1] == b[j + 1]);
            }
            assert(next_of(c, i) == next_of(b, j));
        }
    }
}

proof fn lemma_lead_one(t: TOSECTokenModel)
    requires
        !(t is Warning),
    ensures
        warnings_lead(seq![t]),
{
    assert(seq![t][0] == t);
}

proof fn lemma_lead_pair(w: TOSECWarnModel, t: TOSECTokenModel)
    requires
        leads(w, Some(t)),
        !(t is Warning),
    ensures
        warnings_lead(seq![warn(w), t]),
{
    let ts = seq![warn(w), t];
    assert(ts[0] == warn(w));
    assert(ts[1] == t);
    assert(next_of(ts, 0) == Some(t));
}

proof fn lemma_lead_free(w: TOSECWarnModel)
    requires
        leads(w, None),
    ensures
        warnings_lead(seq![warn(w)]),
{
    assert(seq![warn(w)][0] == warn(w));
}

proof fn lemma_lead_empty()
    ensures
        warnings_lead(Seq::<TOSECTokenModel>::empty()),
{
}

proof fn lemma_single_tags(s: Seq<char>, k: int, code: Seq<char>)
    ensures
        region_tag(s, k) matches Some((_, t)) ==> !(t is Warning),
        language_tag(s, k) matches Some((_, t)) ==> !(t is Warning),
        video_tag(s, k) matches Some((_, t)) ==> !(t is Warning),
        copyright_tag(s, k) matches Some((_, t)) ==> !(t is Warning),
        media_tag(s, k) matches Some((_, t)) ==> !(t is Warning),
        parens_tag(s, k) matches Some((_, t)) ==> !(t is Warning),
        bracket_tag(s, k) matches Some((_, t)) ==> !(t is Warning),
        demo_tag(s, k) matches Some((_, t)) ==> !(t is Warning),
        version_string(s, k) matches Some((_, t)) ==> t is Version,
        publisher_tag(s, k) matches Some((_, t)) ==> t is Publisher,
        dumpinfo_tag(s, k, code) matches Some((_, t)) ==> !(t is Warning),
{
    reveal(region_tag);
    reveal(language_tag);
    reveal(video_tag);
    reveal(copyright_tag);
    reveal(media_tag);
    reveal(demo_tag);
    reveal(version_string);
    reveal(publisher_tag);
    reveal(dumpinfo_tag);
}

proof fn lemma_date_leads(s: Seq<char>, k: int)
    ensures
        date(s, k) matches Some((_, ts)) ==> warnings_lead(ts) && ts.len() > 0 && (ts[0] is Date
            || ts[0] == warn(TOSECWarnModel::UndelimitedDate(s.subrange(k, k + 8))) || ts[0]
            matches TOSECTokenModel::Warning(TOSECWarnModel::MalformedDatePlaceholder(_))),
{
    if undelimited_date(s, k) is Some {
        let (_, ts) = undelimited_date(s, k).unwrap();
        assert(k >= 0 && k + 6 < s.len());
        lemma_span(s, k + 6, CharClass::Digit, 2);
        let x = s.subrange(k, k + 8);
        assert(s.subrange(k, k + 4) + s.subrange(k + 4, k + 6) + s.subrange(k + 6, k + 8) =~= x);
        lemma_lead_pair(
            TOSECWarnModel::UndelimitedDate(x),
            TOSECTokenModel::Date(
                s.subrange(k, k + 4),
                Some(s.subrange(k + 4, k + 6)),
                Some(s.subrange(k + 6, k + 8)),
            ),
        );
    } else if span(s, k, CharClass::DigitOrX, 4) == 4 {
        let year = s.subrange(k, k + 4);
        let (month, a) = date_part(s, k + 4);
        let (day, b) = date_part(s, a);
        let ws = placeholder_warning(Some(year)) + placeholder_warning(month) + placeholder_warning(
            day,
        );
        let d = TOSECTokenModel::Date(year, month, day);
        let ts = ws + seq![d];
        assert(forall|i: int|
            0 <= i < ws.len() ==> (#[trigger] ws[i]) matches TOSECTokenModel::Warning(
                TOSECWarnModel::MalformedDatePlaceholder(_),
            ));
        assert forall|i: int| 0 <= i < ts.len() implies token_leads(
            #[trigger] ts[i],
            next_of(ts, i),
        ) by {
            if i < ws.len() {
                assert(ts[i] == ws[i]);
                if i + 1 < ws.len() {
                    assert(ts[i + 1] == ws[i + 1]);
                } else {
                    assert(ts[i + 1] == d);
                }
            } else {
                assert(ts[i] == d);
            }
        }
        if ws.len() > 0 {
            assert(ts[0] == ws[0]);
        }
    }
}

proof fn lemma_date_tag_leads(s: Seq<char>, i: int)
    ensures
        date_tag(s, i) matches Some((_, ts)) ==> warnings_lead(ts) && ts.len() > 0 && (ts[0] is Date
            || ts[0] matches TOSECTokenModel::Warning(TOSECWarnModel::UndelimitedDate(_)) || ts[0]
            matches TOSECTokenModel::Warning(TOSECWarnModel::MalformedDatePlaceholder(_))),
{
    reveal(date_tag);
    lemma_date_leads(s, i + 1);
}

proof fn lemma_vdd_leads(s: Seq<char>, j: int)
    ensures
        version_demo_date(s, j) matches Some((_, ts)) ==> warnings_lead(ts),
{
    reveal(version_demo_date);
    if let Some((e, ts)) = version_demo_date(s, j) {
        let (p, vt) = if char_at(s, j, ' ') && version_string(s, j + 1) is Some {
            let (e, v) = version_string(s, j + 1).unwrap();
            (e, seq![v])
        } else {
            (j, Seq::<TOSECTokenModel>::empty())
        };
        lemma_single_tags(s, j + 1, seq![]);
        if vt.len() > 0 {
            lemma_lead_one(vt[0]);
            assert(vt =~= seq![vt[0]]);
        }
        let q = if char_at(s, p, ' ') {
            p + 1
        } else {
            p
        };
        lemma_single_tags(s, q, seq![]);
        let (p2, dt) = if demo_tag(s, q) is Some {
            let (e, d) = demo_tag(s, q).unwrap();
            (e, vt.push(d))
        } else {
            (p, vt)
        };
        if demo_tag(s, q) is Some {
            let (_, d) = demo_tag(s, q).unwrap();
            lemma_lead_one(d);
            lemma_lead_concat(vt, seq![d]);
            assert(vt.push(d) =~= vt + seq![d]);
        }
        let (p3, wt) = if char_at(s, p2, ' ') {
            (p2 + 1, dt)
        } else {
            (p2, dt.push(warn(TOSECWarnModel::MissingSpace)))
        };
        lemma_date_tag_leads(s, p3);
        let (_, ds) = date_tag(s, p3).unwrap();
        if char_at(s, p2, ' ') {
            lemma_lead_concat(dt, ds);
        } else {
            let ms = seq![warn(TOSECWarnModel::MissingSpace)] + ds;
            assert forall|i: int| 0 <= i < ms.len() implies token_leads(
                #[trigger] ms[i],
                next_of(ms, i),
            ) by {
                if i == 0 {
                    assert(ms[1] == ds[0]);
                } else {
                    assert(ms[i] == ds[i - 1]);
                    assert(token_leads(ds[i - 1], next_of(ds, i - 1)));
                    if i + 1 < ms.len() {
                        assert(ms[i + 1] == ds[i]);
                    }
                    assert(next_of(ms, i) == next_of(ds, i - 1));
                }
            }
            lemma_lead_concat(dt, ms);
            assert(dt.push(warn(TOSECWarnModel::MissingSpace)) + ds =~= dt + ms);
        }
    }
}

proof fn lemma_happy_from_leads(s: Seq<char>, j: int)
    ensures
        happy_from(s, j) matches Some((_, _, ts)) ==> warnings_lead(ts),
    decreases s.len() - j,
{
    if 0 <= j < s.len() {
        lemma_vdd_leads(s, j);
        if version_demo_date(s, j) is None {
            lemma_happy_from_leads(s, j + 1);
        }
    }
}

proof fn lemma_degenerate_from_leads(s: Seq<char>, j: int)
    ensures
        degenerate_from(s, j) matches Some((_, _, vs)) ==> warnings_lead(vs),
    decreases s.len() - j,
{
    if 0 <= j < s.len() {
        lemma_single_tags(s, j + 1, seq![]);
        if degenerate_stop(s, j) is Some {
            if char_at(s, j, ' ') && version_string(s, j + 1) is Some {
                let (_, v) = version_string(s, j + 1).unwrap();
                lemma_lead_one(v);
            }
        } else {
            lemma_degenerate_from_leads(s, j + 1);
        }
    }
}

proof fn lemma_title_part_leads(s: Seq<char>)
    ensures
        warnings_lead(title_part(s).1),
        title_part(s).1.len() > 0,
{
    reveal(title_part);
    reveal_strlit("ZZZ-UNK-");
    let z = has_at(s, 0, "ZZZ-UNK-"@);
    let p0 = if z {
        8
    } else {
        0
    };
    let (p1, t1) = if title_happy(s, p0) is Some {
        title_happy(s, p0).unwrap()
    } else if title_degenerate(s, p0) is Some {
        title_degenerate(s, p0).unwrap()
    } else {
        (
            s.len() as int,
            seq![
                TOSECTokenModel::Title(s.subrange(p0, s.len() as int)),
                warn(TOSECWarnModel::MissingDate),
                warn(TOSECWarnModel::MissingPublisher),
            ],
        )
    };
    if title_happy(s, p0) is Some {
        lemma_happy_from_leads(s, p0);
        let (j, e, ts) = happy_from(s, p0).unwrap();
        let tt = TOSECTokenModel::Title(trimmed(s, p0, j));
        lemma_lead_one(tt);
        lemma_lead_concat(seq![tt], ts);
    } else if title_degenerate(s, p0) is Some {
        lemma_degenerate_from_leads(s, p0);
        let (j, e, vs) = degenerate_from(s, p0).unwrap();
        let tt = TOSECTokenModel::Title(trimmed(s, p0, j));
        lemma_lead_one(tt);
        lemma_lead_concat(seq![tt], vs);
        lemma_lead_free(TOSECWarnModel::MissingDate);
        lemma_lead_concat(seq![tt] + vs, seq![warn(TOSECWarnModel::MissingDate)]);
    } else {
        let tt = TOSECTokenModel::Title(s.subrange(p0, s.len() as int));
        lemma_lead_one(tt);
        lemma_lead_free(TOSECWarnModel::MissingDate);
        lemma_lead_free(TOSECWarnModel::MissingPublisher);
        lemma_lead_concat(seq![tt], seq![warn(TOSECWarnModel::MissingDate)]);
        lemma_lead_concat(
            seq![tt] + seq![warn(TOSECWarnModel::MissingDate)],
            seq![warn(TOSECWarnModel::MissingPublisher)],
        );
        assert(t1 =~= seq![tt] + seq![warn(TOSECWarnModel::MissingDate)] + seq![
            warn(TOSECWarnModel::MissingPublisher),
        ]);
    }
    assert(t1.len() > 0 && t1[0] is Title);
    if z {
        let title = match t1[0] {
            TOSECTokenModel::Title(x) => x,
            _ => seq![],
        };
        let rest = t1.drop_first();
        assert(warnings_lead(rest)) by {
            assert forall|i: int| 0 <= i < rest.len() implies token_leads(
                #[trigger] rest[i],
                next_of(rest, i),
            ) by {
                assert(rest[i] == t1[i + 1]);
                assert(token_leads(t1[i + 1], next_of(t1, i + 1)));
                if i + 1 < rest.len() {
                    assert(rest[i + 1] == t1[i + 2]);
                }
                assert(next_of(rest, i) == next_of(t1, i + 1));
            }
        }
        let (p2, t2) = match by_publisher(title) {
            Some((tt, pn, _)) => (
                p1,
                seq![
                    TOSECTokenModel::Title(tt),
                    warn(TOSECWarnModel::PublisherBeforeDate),
                    warn(TOSECWarnModel::ByPublisher),
                    TOSECTokenModel::Publisher(Some(seq![pn])),
                ] + t1.drop_first(),
            ),
            None => match by_publisher(s.subrange(p1, s.len() as int)) {
                Some((_, pn, end)) => (
                    p1 + end,
                    t1.push(warn(TOSECWarnModel::ByPublisher)).push(
                        TOSECTokenModel::Publisher(Some(seq![pn])),
                    ),
                ),
                None => if p1 == s.len() && t1.last() != warn(TOSECWarnModel::MissingPublisher) {
                    (p1, t1.push(warn(TOSECWarnModel::MissingPublisher)))
                } else {
                    (p1, t1)
                },
            },
        };
        match by_publisher(title) {
            Some((tt, pn, _)) => {
                let head = seq![
                    TOSECTokenModel::Title(tt),
                    warn(TOSECWarnModel::PublisherBeforeDate),
                    warn(TOSECWarnModel::ByPublisher),
                    TOSECTokenModel::Publisher(Some(seq![pn])),
                ];
                assert forall|i: int| 0 <= i < head.len() implies token_leads(
                    #[trigger] head[i],
                    next_of(head, i),
                ) by {
                    assert(head[1] == warn(TOSECWarnModel::PublisherBeforeDate));
                    assert(head[2] == warn(TOSECWarnModel::ByPublisher));
                    assert(head[3] == TOSECTokenModel::Publisher(Some(seq![pn])));
                }
                lemma_lead_concat(head, rest);
            },
            None => match by_publisher(s.subrange(p1, s.len() as int)) {
                Some((_, pn, end)) => {
                    lemma_lead_pair(
                        TOSECWarnModel::ByPublisher,
                        TOSECTokenModel::Publisher(Some(seq![pn])),
                    );
                    lemma_lead_concat(
                        t1,
                        seq![
                            warn(TOSECWarnModel::ByPublisher),
                            TOSECTokenModel::Publisher(Some(seq![pn])),
                        ],
                    );
                    assert(t1.push(warn(TOSECWarnModel::ByPublisher)).push(
                        TOSECTokenModel::Publisher(Some(seq![pn])),
                    ) =~= t1 + seq![
                        warn(TOSECWarnModel::ByPublisher),
                        TOSECTokenModel::Publisher(Some(seq![pn])),
                    ]);
                },
                None => {
                    lemma_lead_free(TOSECWarnModel::MissingPublisher);
                    lemma_lead_concat(t1, seq![warn(TOSECWarnModel::MissingPublisher)]);
                    assert(t1.push(warn(TOSECWarnModel::MissingPublisher)) =~= t1 + seq![
                        warn(TOSECWarnModel::MissingPublisher),
                    ]);
                },
            },
        }
        assert(t2.len() > 0 && t2[0] is Title);
        let zt = seq![warn(TOSECWarnModel::ZZZUnknown)] + t2;
        assert forall|i: int| 0 <= i < zt.len() implies token_leads(
            #[trigger] zt[i],
            next_of(zt, i),
        ) by {
            if i == 0 {
                assert(zt[1] == t2[0]);
            } else {
                assert(zt[i] == t2[i - 1]);
                assert(token_leads(t2[i - 1], next_of(t2, i - 1)));
                if i + 1 < zt.len() {
                    assert(zt[i + 1] == t2[i]);
                }
                assert(next_of(zt, i) == next_of(t2, i - 1));
            }
        }
    }
}

proof fn lemma_space_leads(s: Seq<char>, k: int)
    ensures
        warnings_lead(space_warning(s, k)),
{
    if char_at(s, k, ' ') {
        lemma_lead_free(TOSECWarnModel::UnexpectedSpace);
    }
}

proof fn lemma_paren_flag_leads(s: Seq<char>, k: int)
    ensures
        paren_flag(s, k) matches Some((_, ts)) ==> warnings_lead(ts),
{
    reveal(paren_flag);
    reveal(goodtools_region_tag);
    reveal(devstatus_tag);
    reveal(version_flag_tag);
    lemma_single_tags(s, k, seq![]);
    lemma_single_tags(s, k + 1, seq![]);
    if let Some((e, ts)) = paren_flag(s, k) {
        if ts.len() == 1 {
            lemma_lead_one(ts[0]);
            assert(ts =~= seq![ts[0]]);
        } else {
            assert(ts.len() == 2);
            assert(ts =~= seq![ts[0], ts[1]]);
            let ts2 = seq![ts[0], ts[1]];
            assert(ts2[0] == ts[0]);
            assert(ts2[1] == ts[1]);
            assert(next_of(ts, 0) == Some(ts[1]));
        }
    }
}

proof fn lemma_paren_flags_leads(s: Seq<char>, k: int, acc: Seq<TOSECTokenModel>)
    requires
        warnings_lead(acc),
    ensures
        warnings_lead(paren_flags(s, k, acc).1),
    decreases s.len() - k,
{
    if let Some((e, ts)) = paren_flag(s, after_space(s, k)) {
        if k < e <= s.len() {
            lemma_paren_flag_leads(s, after_space(s, k));
            lemma_space_leads(s, k);
            lemma_lead_concat(acc, space_warning(s, k));
            lemma_lead_concat(acc + space_warning(s, k), ts);
            lemma_paren_flags_leads(s, e, acc + space_warning(s, k) + ts);
        }
    }
}

proof fn lemma_dumpinfo_flags_leads(s: Seq<char>, k: int, acc: Seq<TOSECTokenModel>, j: int)
    requires
        warnings_lead(acc),
    ensures
        warnings_lead(dumpinfo_flags(s, k, acc, j).1),
    decreases 13 - j,
{
    if 0 <= j < 13 {
        let k1 = after_space(s, k);
        lemma_space_leads(s, k);
        lemma_lead_concat(acc, space_warning(s, k));
        let a1 = acc + space_warning(s, k);
        lemma_single_tags(s, k1, dumpinfo_words()[j]);
        match dumpinfo_tag(s, k1, dumpinfo_words()[j]) {
            Some((e, t)) => {
                lemma_lead_one(t);
                lemma_lead_concat(a1, seq![t]);
                assert(a1.push(t) =~= a1 + seq![t]);
                lemma_dumpinfo_flags_leads(s, e, a1.push(t), j + 1);
            },
            None => {
                lemma_dumpinfo_flags_leads(s, k1, a1, j + 1);
            },
        }
    }
}

proof fn lemma_bracket_flags_leads(s: Seq<char>, k: int, acc: Seq<TOSECTokenModel>)
    requires
        warnings_lead(acc),
    ensures
        warnings_lead(bracket_flags(s, k, acc).1),
    decreases s.len() - k,
{
    lemma_single_tags(s, after_space(s, k), seq![]);
    if let Some((e, t)) = bracket_tag(s, after_space(s, k)) {
        if k < e <= s.len() {
            lemma_space_leads(s, k);
            lemma_lead_concat(acc, space_warning(s, k));
            lemma_lead_one(t);
            lemma_lead_concat(acc + space_warning(s, k), seq![t]);
            lemma_bracket_flags_leads(s, e, acc + space_warning(s, k) + seq![t]);
        }
    }
}

/// Among the tokens of a TOSEC name, each warning comes right before the
/// token it is about (see `leads`).
pub proof fn law_warnings_before_their_tokens(s: Seq<char>)
    requires
        tosec_tokens(s) is Some,
    ensures
        warnings_lead(tosec_tokens(s).unwrap()),
{
    reveal(tosec_name_read);
    let (p2, t2) = title_part(s);
    lemma_title_part_leads(s);
    lemma_space_leads(s, p2);
    lemma_lead_concat(t2, space_warning(s, p2));
    let p3 = after_space(s, p2);
    let t3 = t2 + space_warning(s, p2);
    lemma_single_tags(s, p3, seq![]);
    if !known_flag_at(s, p3) {
        if t3.last() != warn(TOSECWarnModel::MissingPublisher) {
            if let Some((e, pt)) = publisher_tag(s, p3) {
                lemma_lead_one(pt);
                lemma_lead_concat(t3, seq![pt]);
                assert(t3.push(pt) =~= t3 + seq![pt]);
            }
        }
    } else if !has_publisher(t3) {
        lemma_lead_free(TOSECWarnModel::MissingPublisher);
        lemma_lead_concat(t3, seq![warn(TOSECWarnModel::MissingPublisher)]);
        assert(t3.push(warn(TOSECWarnModel::MissingPublisher)) =~= t3 + seq![
            warn(TOSECWarnModel::MissingPublisher),
        ]);
    }
    let after_publisher: Option<(int, Seq<TOSECTokenModel>)> = if !known_flag_at(s, p3) {
        if t3.last() == warn(TOSECWarnModel::MissingPublisher) {
            Some((p3, t3))
        } else {
            match publisher_tag(s, p3) {
                Some((e, pt)) => Some((e, t3.push(pt))),
                None => None,
            }
        }
    } else if !has_publisher(t3) {
        Some((p3, t3.push(warn(TOSECWarnModel::MissingPublisher))))
    } else {
        Some((p3, t3))
    };
    let (p4, t4) = after_publisher.unwrap();
    lemma_paren_flags_leads(s, p4, t4);
    let (p5, t5) = paren_flags(s, p4, t4);
    lemma_dumpinfo_flags_leads(s, p5, t5, 0);
    let (p6, t6) = dumpinfo_flags(s, p5, t5, 0);
    lemma_bracket_flags_leads(s, p6, t6);
    let (p7, t7) = bracket_flags(s, p6, t6);
    if p7 != s.len() {
        let w = TOSECWarnModel::NotEof(s.subrange(p7, s.len() as int));
        lemma_lead_free(w);
        lemma_lead_concat(t7, seq![warn(w)]);
        assert(t7.push(warn(w)) =~= t7 + seq![warn(w)]);
    }
}

// ---------------------------------------------------------------------------
// The tokens come in the order of the parts of the name
// ---------------------------------------------------------------------------
/// Whether a token may stand among those of a part of a TOSEC name: a warning
/// anywhere; after the title (part 0) a version, demo, date or publisher; in
/// the publisher part (1) a publisher; among the flags in parentheses (2) a
/// region, languages, video, copyright, media, development status, version or
/// other parenthesized flag; among the dump infos (3) a dump info; among the
/// flags in brackets (4) a bracketed flag.
pub open spec fn fits(t: TOSECTokenModel, part: int) -> bool {
    ||| t is Warning
    ||| part == 0 && (t is Version || t is Demo || t is Date || t is Publisher)
    ||| part == 1 && t is Publisher
    ||| part == 2 && (t is Region || t is Languages || t is Video || t is Copyright || t is Media
        || t is Development || t is Version || t matches TOSECTokenModel::Flag(
        FlagType::Parenthesized,
        _,
    ))
    ||| part == 3 && t is DumpInfo
    ||| part == 4 && t matches TOSECTokenModel::Flag(FlagType::Bracketed, _)
}

/// Whether every token of `ts` may stand in part `part`.
pub open spec fn all_fit(ts: Seq<TOSECTokenModel>, part: int) -> bool {
    forall|i: int| 0 <= i < ts.len() ==> fits(#[trigger] ts[i], part)
}

/// The title, with the `ZZZ-UNK-` warning before it where there is one.
pub open spec fn title_head(h: Seq<TOSECTokenModel>) -> bool {
    ||| h.len() == 1 && h[0] is Title
    ||| h.len() == 2 && h[0] == warn(TOSECWarnModel::ZZZUnknown) && h[1] is Title
}

/// Whether tokens come in the order of the parts of a name: the title, what
/// follows it up to the publisher, the publisher, the flags in parentheses,
/// the dump infos and the flags in brackets.
pub open spec fn parts_in_order(ts: Seq<TOSECTokenModel>) -> bool {
    exists|h: Seq<TOSECTokenModel>, a: Seq<TOSECTokenModel>, b: Seq<TOSECTokenModel>, c: Seq<
        TOSECTokenModel,
    >, d: Seq<TOSECTokenModel>, e: Seq<TOSECTokenModel>|
        #![trigger title_head(h), all_fit(a, 0), all_fit(b, 1), all_fit(c, 2), all_fit(d, 3), all_fit(e, 4)]
        ts == h + a + b + c + d + e && title_head(h) && all_fit(a, 0) && all_fit(b, 1) && all_fit(
            c,
            2,
        ) && all_fit(d, 3) && all_fit(e, 4)
}

proof fn lemma_fit_concat(a: Seq<TOSECTokenModel>, b: Seq<TOSECTokenModel>, part: int)
    requires
        all_fit(a, part),
        all_fit(b, part),
    ensures
        all_fit(a + b, part),
{
    assert forall|i: int| 0 <= i < (a + b).len() implies fits(#[trigger] (a + b)[i], part) by {
        if i < a.len() {
            assert((a + b)[i] == a[i]);
        } else {
            assert((a + b)[i] == b[i - a.len()]);
        }
    }
}

proof fn lemma_fit_one(t: TOSECTokenModel, part: int)
    requires
        fits(t, part),
    ensures
        all_fit(seq![t], part),
{
    assert(seq![t][0] == t);
}

proof fn lemma_fit_empty(part: int)
    ensures
        all_fit(Seq::<TOSECTokenModel>::empty(), part),
{
}

proof fn lemma_tag_kinds(s: Seq<char>, k: int, code: Seq<char>)
    ensures
        region_tag(s, k) matches Some((_, t)) ==> fits(t, 2),
        language_tag(s, k) matches Some((_, t)) ==> fits(t, 2),
        video_tag(s, k) matches Some((_, t)) ==> fits(t, 2),
        copyright_tag(s, k) matches Some((_, t)) ==> fits(t, 2),
        media_tag(s, k) matches Some((_, t)) ==> fits(t, 2),
        parens_tag(s, k) matches Some((_, t)) ==> fits(t, 2),
        bracket_tag(s, k) matches Some((_, t)) ==> fits(t, 4),
        demo_tag(s, k) matches Some((_, t)) ==> fits(t, 0),
        version_string(s, k) matches Some((_, t)) ==> fits(t, 0) && fits(t, 2),
        publisher_tag(s, k) matches Some((_, t)) ==> fits(t, 1),
        dumpinfo_tag(s, k, code) matches Some((_, t)) ==> fits(t, 3),
{
    reveal(region_tag);
    reveal(language_tag);
    reveal(video_tag);
    reveal(copyright_tag);
    reveal(media_tag);
    reveal(demo_tag);
    reveal(version_string);
    reveal(publisher_tag);
    reveal(dumpinfo_tag);
}

proof fn lemma_date_fits(s: Seq<char>, i: int)
    ensures
        date_tag(s, i) matches Some((_, ts)) ==> all_fit(ts, 0),
{
    reveal(date_tag);
    let k = i + 1;
    if date(s, k) is Some {
        if undelimited_date(s, k) is Some {
        } else if span(s, k, CharClass::DigitOrX, 4) == 4 {
            let year = s.subrange(k, k + 4);
            let (month, a) = date_part(s, k + 4);
            let (day, b) = date_part(s, a);
            let ws = placeholder_warning(Some(year)) + placeholder_warning(month)
                + placeholder_warning(day);
            let ts = ws + seq![TOSECTokenModel::Date(year, month, day)];
            assert forall|j: int| 0 <= j < ts.len() implies fits(#[trigger] ts[j], 0) by {
                if j < ws.len() {
                    assert(ts[j] == ws[j]);
                }
            }
        }
    }
}

proof fn lemma_vdd_fits(s: Seq<char>, j: int)
    ensures
        version_demo_date(s, j) matches Some((_, ts)) ==> all_fit(ts, 0),
{
    reveal(version_demo_date);
    if let Some((e, ts)) = version_demo_date(s, j) {
        let (p, vt) = if char_at(s, j, ' ') && version_string(s, j + 1) is Some {
            let (e, v) = version_string(s, j + 1).unwrap();
            (e, seq![v])
        } else {
            (j, Seq::<TOSECTokenModel>::empty())
        };
        lemma_tag_kinds(s, j + 1, seq![]);
        if vt.len() > 0 {
            lemma_fit_one(vt[0], 0);
            assert(vt =~= seq![vt[0]]);
        }
        let q = if char_at(s, p, ' ') {
            p + 1
        } else {
            p
        };
        lemma_tag_kinds(s, q, seq![]);
        let (p2, dt) = if demo_tag(s, q) is Some {
            let (e, d) = demo_tag(s, q).unwrap();
            (e, vt.push(d))
        } else {
            (p, vt)
        };
        if demo_tag(s, q) is Some {
            let (_, d) = demo_tag(s, q).unwrap();
            lemma_fit_one(d, 0);
            lemma_fit_concat(vt, seq![d], 0);
            assert(vt.push(d) =~= vt + seq![d]);
        }
        let (p3, wt) = if char_at(s, p2, ' ') {
            (p2 + 1, dt)
        } else {
            (p2, dt.push(warn(TOSECWarnModel::MissingSpace)))
        };
        if !char_at(s, p2, ' ') {
            lemma_fit_one(warn(TOSECWarnModel::MissingSpace), 0);
            lemma_fit_concat(dt, seq![warn(TOSECWarnModel::MissingSpace)], 0);
            assert(dt.push(warn(TOSECWarnModel::MissingSpace)) =~= dt + seq![
                warn(TOSECWarnModel::MissingSpace),
            ]);
        }
        lemma_date_fits(s, p3);
        let (_, ds) = date_tag(s, p3).unwrap();
        lemma_fit_concat(wt, ds, 0);
    }
}

proof fn lemma_happy_from_fits(s: Seq<char>, j: int)
    ensures
        happy_from(s, j) matches Some((_, _, ts)) ==> all_fit(ts, 0),
    decreases s.len() - j,
{
    if 0 <= j < s.len() {
        lemma_vdd_fits(s, j);
        if version_demo_date(s, j) is None {
            lemma_happy_from_fits(s, j + 1);
        }
    }
}

proof fn lemma_degenerate_from_fits(s: Seq<char>, j: int)
    ensures
        degenerate_from(s, j) matches Some((_, _, vs)) ==> all_fit(vs, 0),
    decreases s.len() - j,
{
    if 0 <= j < s.len() {
        lemma_tag_kinds(s, j + 1, seq![]);
        if degenerate_stop(s, j) is Some {
            if char_at(s, j, ' ') && version_string(s, j + 1) is Some {
                let (_, v) = version_string(s, j + 1).unwrap();
                lemma_fit_one(v, 0);
            }
        } else {
            lemma_degenerate_from_fits(s, j + 1);
        }
    }
}

/// The tokens of the title part: the title, with the `ZZZ-UNK-` warning before
/// it where there is one, then tokens that may follow the title.
proof fn lemma_title_part_order(s: Seq<char>) -> (r: (Seq<TOSECTokenModel>, Seq<TOSECTokenModel>))
    ensures
        title_part(s).1 == r.0 + r.1,
        title_head(r.0),
        all_fit(r.1, 0),
{
    reveal(title_part);
    reveal_strlit("ZZZ-UNK-");
    let z = has_at(s, 0, "ZZZ-UNK-"@);
    let p0 = if z {
        8
    } else {
        0
    };
    let (p1, t1) = if title_happy(s, p0) is Some {
        title_happy(s, p0).unwrap()
    } else if title_degenerate(s, p0) is Some {
        title_degenerate(s, p0).unwrap()
    } else {
        (
            s.len() as int,
            seq![
                TOSECTokenModel::Title(s.subrange(p0, s.len() as int)),
                warn(TOSECWarnModel::MissingDate),
                warn(TOSECWarnModel::MissingPublisher),
            ],
        )
    };
    let rest = t1.drop_first();
    if title_happy(s, p0) is Some {
        lemma_happy_from_fits(s, p0);
        let (j, e, ts) = happy_from(s, p0).unwrap();
        assert(rest =~= ts);
    } else if title_degenerate(s, p0) is Some {
        lemma_degenerate_from_fits(s, p0);
        let (j, e, vs) = degenerate_from(s, p0).unwrap();
        lemma_fit_one(warn(TOSECWarnModel::MissingDate), 0);
        lemma_fit_concat(vs, seq![warn(TOSECWarnModel::MissingDate)], 0);
        assert(rest =~= vs + seq![warn(TOSECWarnModel::MissingDate)]);
    } else {
        assert(rest =~= seq![warn(TOSECWarnModel::MissingDate), warn(TOSECWarnModel::MissingPublisher)]);
        assert(rest[0] == warn(TOSECWarnModel::MissingDate));
        assert(rest[1] == warn(TOSECWarnModel::MissingPublisher));
    }
    assert(all_fit(rest, 0));
    assert(t1 =~= seq![t1[0]] + rest);
    if z {
        let title = match t1[0] {
            TOSECTokenModel::Title(x) => x,
            _ => seq![],
        };
        let zw = warn(TOSECWarnModel::ZZZUnknown);
        match by_publisher(title) {
            Some((tt, pn, _)) => {
                let mid = seq![
                    warn(TOSECWarnModel::PublisherBeforeDate),
                    warn(TOSECWarnModel::ByPublisher),
                    TOSECTokenModel::Publisher(Some(seq![pn])),
                ];
                assert(mid[0] == warn(TOSECWarnModel::PublisherBeforeDate));
                assert(mid[1] == warn(TOSECWarnModel::ByPublisher));
                assert(mid[2] == TOSECTokenModel::Publisher(Some(seq![pn])));
                assert(all_fit(mid, 0));
                lemma_fit_concat(mid, rest, 0);
                let h = seq![zw, TOSECTokenModel::Title(tt)];
                assert(title_part(s).1 =~= h + (mid + rest));
                (h, mid + rest)
            },
            None => match by_publisher(s.subrange(p1, s.len() as int)) {
                Some((_, pn, end)) => {
                    let tail = seq![
                        warn(TOSECWarnModel::ByPublisher),
                        TOSECTokenModel::Publisher(Some(seq![pn])),
                    ];
                    assert(tail[0] == warn(TOSECWarnModel::ByPublisher));
                    assert(tail[1] == TOSECTokenModel::Publisher(Some(seq![pn])));
                    assert(all_fit(tail, 0));
                    lemma_fit_concat(rest, tail, 0);
                    let h = seq![zw, t1[0]];
                    assert(title_part(s).1 =~= h + (rest + tail));
                    (h, rest + tail)
                },
                None => {
                    let h = seq![zw, t1[0]];
                    if p1 == s.len() && t1.last() != warn(TOSECWarnModel::MissingPublisher) {
                        let tail = seq![warn(TOSECWarnModel::MissingPublisher)];
                        lemma_fit_one(warn(TOSECWarnModel::MissingPublisher), 0);
                        lemma_fit_concat(rest, tail, 0);
                        assert(title_part(s).1 =~= h + (rest + tail));
                        (h, rest + tail)
                    } else {
                        assert(title_part(s).1 =~= h + rest);
                        (h, rest)
                    }
                },
            },
        }
    } else {
        (seq![t1[0]], rest)
    }
}

proof fn lemma_space_fits(s: Seq<char>, k: int, part: int)
    ensures
        all_fit(space_warning(s, k), part),
{
    if char_at(s, k, ' ') {
        lemma_fit_one(warn(TOSECWarnModel::UnexpectedSpace), part);
    }
}

proof fn lemma_paren_flag_fits(s: Seq<char>, k: int)
    ensures
        paren_flag(s, k) matches Some((_, ts)) ==> all_fit(ts, 2),
{
    reveal(paren_flag);
    reveal(goodtools_region_tag);
    reveal(devstatus_tag);
    reveal(version_flag_tag);
    lemma_tag_kinds(s, k, seq![]);
    lemma_tag_kinds(s, k + 1, seq![]);
    if let Some((e, ts)) = paren_flag(s, k) {
        if ts.len() == 1 {
            lemma_fit_one(ts[0], 2);
            assert(ts =~= seq![ts[0]]);
        } else {
            assert(ts.len() == 2);
            assert(fits(ts[0], 2));
            assert(fits(ts[1], 2));
        }
    }
}

proof fn lemma_paren_flags_order(s: Seq<char>, k: int, acc: Seq<TOSECTokenModel>) -> (r: Seq<
    TOSECTokenModel,
>)
    ensures
        paren_flags(s, k, acc).1 == acc + r,
        all_fit(r, 2),
    decreases s.len() - k,
{
    if let Some((e, ts)) = paren_flag(s, after_space(s, k)) {
        if k < e <= s.len() {
            lemma_paren_flag_fits(s, after_space(s, k));
            lemma_space_fits(s, k, 2);
            lemma_fit_concat(space_warning(s, k), ts, 2);
            let x = space_warning(s, k) + ts;
            let r2 = lemma_paren_flags_order(s, e, acc + space_warning(s, k) + ts);
            lemma_fit_concat(x, r2, 2);
            assert(acc + space_warning(s, k) + ts + r2 =~= acc + (x + r2));
            return x + r2;
        }
    }
    lemma_fit_empty(2);
    assert(acc + Seq::<TOSECTokenModel>::empty() =~= acc);
    Seq::<TOSECTokenModel>::empty()
}

proof fn lemma_dumpinfo_flags_order(s: Seq<char>, k: int, acc: Seq<TOSECTokenModel>, j: int) -> (r: Seq<
    TOSECTokenModel,
>)
    ensures
        dumpinfo_flags(s, k, acc, j).1 == acc + r,
        all_fit(r, 3),
    decreases 13 - j,
{
    if 0 <= j < 13 {
        let k1 = after_space(s, k);
        lemma_space_fits(s, k, 3);
        let a1 = acc + space_warning(s, k);
        lemma_tag_kinds(s, k1, dumpinfo_words()[j]);
        match dumpinfo_tag(s, k1, dumpinfo_words()[j]) {
            Some((e, t)) => {
                lemma_fit_one(t, 3);
                let x = space_warning(s, k) + seq![t];
                lemma_fit_concat(space_warning(s, k), seq![t], 3);
                let r2 = lemma_dumpinfo_flags_order(s, e, a1.push(t), j + 1);
                lemma_fit_concat(x, r2, 3);
                assert(a1.push(t) + r2 =~= acc + (x + r2));
                x + r2
            },
            None => {
                let r2 = lemma_dumpinfo_flags_order(s, k1, a1, j + 1);
                lemma_fit_concat(space_warning(s, k), r2, 3);
                assert(a1 + r2 =~= acc + (space_warning(s, k) + r2));
                space_warning(s, k) + r2
            },
        }
    } else {
        lemma_fit_empty(3);
        assert(acc + Seq::<TOSECTokenModel>::empty() =~= acc);
        Seq::<TOSECTokenModel>::empty()
    }
}

proof fn lemma_bracket_flags_order(s: Seq<char>, k: int, acc: Seq<TOSECTokenModel>) -> (r: Seq<
    TOSECTokenModel,
>)
    ensures
        bracket_flags(s, k, acc).1 == acc + r,
        all_fit(r, 4),
    decreases s.len() - k,
{
    lemma_tag_kinds(s, after_space(s, k), seq![]);
    if let Some((e, t)) = bracket_tag(s, after_space(s, k)) {
        if k < e <= s.len() {
            lemma_space_fits(s, k, 4);
            lemma_fit_one(t, 4);
            lemma_fit_concat(space_warning(s, k), seq![t], 4);
            let x = space_warning(s, k) + seq![t];
            let r2 = lemma_bracket_flags_order(s, e, acc + space_warning(s, k) + seq![t]);
            lemma_fit_concat(x, r2, 4);
            assert(acc + space_warning(s, k) + seq![t] + r2 =~= acc + (x + r2));
            return x + r2;
        }
    }
    lemma_fit_empty(4);
    assert(acc + Seq::<TOSECTokenModel>::empty() =~= acc);
    Seq::<TOSECTokenModel>::empty()
}

/// The tokens of a TOSEC name come in the order of the parts of the name: the
/// title (after the `ZZZ-UNK-` warning where there is one), what follows the
/// title up to the publisher, the publisher, the flags in parentheses, the
/// dump infos and the flags in brackets.
pub proof fn law_tokens_in_order_of_parts(s: Seq<char>)
    requires
        tosec_tokens(s) is Some,
    ensures
        parts_in_order(tosec_tokens(s).unwrap()),
{
    reveal(tosec_name_read);
    let (p2, t2) = title_part(s);
    let (h, a) = lemma_title_part_order(s);
    let p3 = after_space(s, p2);
    let t3 = t2 + space_warning(s, p2);
    lemma_space_fits(s, p2, 1);
    lemma_tag_kinds(s, p3, seq![]);
    let after_publisher: Option<(int, Seq<TOSECTokenModel>)> = if !known_flag_at(s, p3) {
        if t3.last() == warn(TOSECWarnModel::MissingPublisher) {
            Some((p3, t3))
        } else {
            match publisher_tag(s, p3) {
                Some((e, pt)) => Some((e, t3.push(pt))),
                None => None,
            }
        }
    } else if !has_publisher(t3) {
        Some((p3, t3.push(warn(TOSECWarnModel::MissingPublisher))))
    } else {
        Some((p3, t3))
    };
    let (p4, t4) = after_publisher.unwrap();
    let b: Seq<TOSECTokenModel> = if t4.len() == t3.len() {
        space_warning(s, p2)
    } else {
        space_warning(s, p2).push(t4.last())
    };
    if t4.len() != t3.len() {
        assert(fits(t4.last(), 1));
        lemma_fit_one(t4.last(), 1);
        lemma_fit_concat(space_warning(s, p2), seq![t4.last()], 1);
        assert(space_warning(s, p2).push(t4.last()) =~= space_warning(s, p2) + seq![t4.last()]);
        assert(t4 =~= t3.push(t4.last()));
    } else {
        assert(t4 =~= t3);
    }
    assert(t4 =~= h + a + b);
    let c = lemma_paren_flags_order(s, p4, t4);
    let (p5, t5) = paren_flags(s, p4, t4);
    let d = lemma_dumpinfo_flags_order(s, p5, t5, 0);
    let (p6, t6) = dumpinfo_flags(s, p5, t5, 0);
    let e0 = lemma_bracket_flags_order(s, p6, t6);
    let (p7, t7) = bracket_flags(s, p6, t6);
    let e = if p7 == s.len() {
        e0
    } else {
        let w = warn(TOSECWarnModel::NotEof(s.subrange(p7, s.len() as int)));
        lemma_fit_one(w, 4);
        lemma_fit_concat(e0, seq![w], 4);
        assert(t7.push(w) =~= t7 + seq![w]);
        e0 + seq![w]
    };
    assert(tosec_tokens(s).unwrap() =~= h + a + b + c + d + e);
}


// ---------------------------------------------------------------------------
// The tokenizer
// ---------------------------------------------------------------------------
/// The word lists of the convention.
#[derive(Clone, Copy)]
enum WordList {
    Video,
    Copyright,
    DevStatus,
    MalformedDevStatus,
    Media,
    Demo,
    DumpInfo,
}

spec fn words_of(l: WordList) -> Seq<Seq<char>> {
    match l {
        WordList::Video => video_words(),
        WordList::Copyright => copyright_words(),
        WordList::DevStatus => devstatus_words(),
        WordList::MalformedDevStatus => malformed_devstatus_words(),
        WordList::Media => media_words(),
        WordList::Demo => demo_words(),
        WordList::DumpInfo => dumpinfo_words(),
    }
}

fn list_len(l: WordList) -> (res: usize)
    ensures
        res == words_of(l).len(),
{
    match l {
        WordList::Video => 13,
        WordList::Copyright => 9,
        WordList::DevStatus => 5,
        WordList::MalformedDevStatus => 6,
        WordList::Media => 5,
        WordList::Demo => 4,
        WordList::DumpInfo => 13,
    }
}

fn word_of(l: WordList, j: usize) -> (res: &'static str)
    requires
        j < words_of(l).len(),
    ensures
        res@ == words_of(l)[j as int],
{
    match l {
        WordList::Video => match j {
            0 => "CGA",
            1 => "EGA",
            2 => "HGC",
            3 => "MCGA",
            4 => "MDA",
            5 => "NTSC",
            6 => "NTSC-PAL",
            7 => "PAL",
            8 => "PAL-60",
            9 => "PAL-NTSC",
            10 => "SVGA",
            11 => "VGA",
            _ => "XGA",
        },
        WordList::Copyright => match j {
            0 => "CW",
            1 => "CW-R",
            2 => "FW",
            3 => "GW",
            4 => "GW-R",
            5 => "LW",
            6 => "PD",
            7 => "SW",
            _ => "SW-R",
        },
        WordList::DevStatus => match j {
            0 => "alpha",
            1 => "beta",
            2 => "preview",
            3 => "pre-release",
            _ => "proto",
        },
        WordList::MalformedDevStatus => match j {
            0 => "Alpha",
            1 => "Beta",
            2 => "Preview",
            3 => "Pre-Release",
            4 => "Proto",
            _ => "Prototype",
        },
        WordList::Media => match j {
            0 => "Disk",
            1 => "Disc",
            2 => "File",
            3 => "Part",
            _ => "Side",
        },
        WordList::Demo => match j {
            0 => "kiosk",
            1 => "rolling",
            2 => "playable",
            _ => "slideshow",
        },
        WordList::DumpInfo => match j {
            0 => "cr",
            1 => "f",
            2 => "h",
            3 => "m",
            4 => "p",
            5 => "t",
            6 => "tr",
            7 => "o",
            8 => "u",
            9 => "v",
            10 => "b",
            11 => "a",
            _ => "!",
        },
    }
}

/// The word of the list at `k`, as `word_at` gives it, with its index.
fn read_word(cs: &Vec<char>, k: usize, l: WordList) -> (res: Option<(usize, String)>)
    ensures
        match res {
            Some((e, w)) => word_at(cs@, k as int, words_of(l)) == Some((e as int, w@)) && k <= e
                <= cs@.len(),
            None => word_at(cs@, k as int, words_of(l)) is None,
        },
{
    let n = list_len(l);
    let mut j: usize = 0;
    while j < n
        invariant
            n == words_of(l).len(),
            j <= n,
            first_word(cs@, k as int, words_of(l), 0) == first_word(
                cs@,
                k as int,
                words_of(l),
                j as int,
            ),
        decreases n - j,
    {
        let w = word_of(l, j);
        if tag_at(cs, k, w) {
            let len = cs.len();
            return Some((k + w.unicode_len(), owned(w)));
        }
        j = j + 1;
    }
    None
}


fn push_token(acc: &mut Vec<TOSECToken>, t: TOSECToken)
    ensures
        token_models(final(acc)@) == token_models(old(acc)@).push(t@),
{
    proof {
        assert(token_models(old(acc)@.push(t)) =~= token_models(old(acc)@).push(t@));
    }
    acc.push(t);
}

fn append_tokens(acc: &mut Vec<TOSECToken>, more: Vec<TOSECToken>)
    ensures
        token_models(final(acc)@) == token_models(old(acc)@) + token_models(more@),
{
    let mut more = more;
    let ghost m = more@;
    acc.append(&mut more);
    proof {
        assert(token_models(old(acc)@ + m) =~= token_models(old(acc)@) + token_models(m));
    }
}

fn is_char_at_(cs: &Vec<char>, p: usize, c: char) -> (res: bool)
    ensures
        res == char_at(cs@, p as int, c),
        res ==> p < cs@.len(),
{
    p < cs.len() && cs[p] == c
}

fn read_goodtools_region_tag(s: &str, cs: &Vec<char>, i: usize) -> (res: Option<
    (usize, Vec<TOSECToken>),
>)
    requires
        cs@ == s@,
    ensures
        reads_of(res) == goodtools_region_tag(cs@, i as int),
        res matches Some((j, _)) ==> i < j <= cs@.len(),
{
    proof {
        reveal(goodtools_region_tag);
    }
    let len = cs.len();
    match enclosed_at(cs, i, '(', ')', ')') {
        Some((a, b)) => {
            let inner = substr(s, a, b);
            match Region::try_from_goodtools_region(inner.as_str()) {
                Ok(regs) => {
                    let code = substr(s, a, b);
                    let strs = vec![substr(s, a, b)];
                    assert(views(strs@) =~= seq![cs@.subrange(a as int, b as int)]);
                    let v = vec![
                        TOSECToken::Warning(TOSECWarn::GoodToolsRegionCode(code)),
                        TOSECToken::Region(strs, regs),
                    ];
                    assert(token_models(v@) =~= seq![v@[0]@, v@[1]@]);
                    Some((b + 1, v))
                },
                Err(_) => None,
            }
        },
        None => None,
    }
}

fn read_dumpinfo_tag(s: &str, cs: &Vec<char>, i: usize, code: &str) -> (res: Option<
    (usize, TOSECToken),
>)
    requires
        cs@ == s@,
    ensures
        read_of(res) == dumpinfo_tag(cs@, i as int, code@),
        res matches Some((e, _)) ==> i < e <= cs@.len(),
{
    proof {
        reveal(dumpinfo_tag);
    }
    let len = cs.len();
    let a = match char_tag(cs, i, '[') {
        Some(a) => a,
        None => {
            return None;
        },
    };
    let b = match tag(cs, a, code) {
        Some(b) => b,
        None => {
            return None;
        },
    };
    let n = run_len(cs, b, CharClass::Digit);
    let index = if n > 0 {
        Some(substr(s, b, b + n))
    } else {
        None
    };
    let c = b + n;
    let (params, d) = if is_char_at_(cs, c, ' ') {
        let m = run_len(cs, c + 1, CharClass::Not(']'));
        if m > 0 {
            (Some(substr(s, c + 1, c + 1 + m)), c + 1 + m)
        } else {
            (None, c)
        }
    } else {
        (None, c)
    };
    match char_tag(cs, d, ']') {
        Some(e) => Some((e, TOSECToken::DumpInfo(owned(code), index, params))),
        None => None,
    }
}

fn read_demo_tag(cs: &Vec<char>, i: usize) -> (res: Option<(usize, TOSECToken)>)
    ensures
        read_of(res) == demo_tag(cs@, i as int),
        res matches Some((e, _)) ==> i < e <= cs@.len(),
{
    proof {
        reveal(demo_tag);
        reveal_strlit("(demo");
    }
    let len = cs.len();
    let a = match tag(cs, i, "(demo") {
        Some(a) => a,
        None => {
            return None;
        },
    };
    let (kind, b) = if is_char_at_(cs, a, '-') {
        match read_word(cs, a + 1, WordList::Demo) {
            Some((e, w)) => (Some(w), e),
            None => (None, a),
        }
    } else {
        (None, a)
    };
    match char_tag(cs, b, ')') {
        Some(e) => Some((e, TOSECToken::Demo(kind))),
        None => None,
    }
}

fn read_devstatus_tag(cs: &Vec<char>, i: usize) -> (res: Option<(usize, Vec<TOSECToken>)>)
    ensures
        reads_of(res) == devstatus_tag(cs@, i as int),
        res matches Some((e, _)) ==> i < e <= cs@.len(),
{
    proof {
        reveal(devstatus_tag);
    }
    let len = cs.len();
    let a = match char_tag(cs, i, '(') {
        Some(a) => a,
        None => {
            return None;
        },
    };
    let (e, ts) = match read_word(cs, a, WordList::DevStatus) {
        Some((e, w)) => {
            let v = vec![TOSECToken::Development(w)];
            assert(token_models(v@) =~= seq![v@[0]@]);
            (e, v)
        },
        None => match read_word(cs, a, WordList::MalformedDevStatus) {
            Some((e, w)) => {
                let w2 = w.clone();
                let v = vec![
                    TOSECToken::Warning(TOSECWarn::MalformedDevelopmentStatus(w)),
                    TOSECToken::Development(w2),
                ];
                assert(token_models(v@) =~= seq![v@[0]@, v@[1]@]);
                (e, v)
            },
            None => {
                return None;
            },
        },
    };
    match char_tag(cs, e, ')') {
        Some(f) => Some((f, ts)),
        None => None,
    }
}

fn two_digits(cs: &Vec<char>, k: usize) -> (res: u32)
    requires
        k + 2 <= cs@.len(),
        is_ascii_digit(cs@[k as int]),
        is_ascii_digit(cs@[k + 1]),
    ensures
        res == two_digit_value(cs@, k as int),
{
    let len = cs.len();
    let c0 = cs[k];
    let c1 = cs[k + 1];
    assert('0' <= c0 <= '9' && '0' <= c1 <= '9');
    let a = (c0 as u32) - 48;
    let b = (c1 as u32) - 48;
    a * 10 + b
}

fn read_undelimited_date(s: &str, cs: &Vec<char>, k: usize) -> (res: Option<
    (usize, Vec<TOSECToken>),
>)
    requires
        cs@ == s@,
    ensures
        reads_of(res) == undelimited_date(cs@, k as int),
        res matches Some((e, _)) ==> k < e <= cs@.len(),
{
    let len = cs.len();
    if k > len {
        return None;
    }
    if take_while(cs, k, CharClass::Digit, 4) != 4 {
        return None;
    }
    proof {
        crate::text::lemma_span(cs@, k as int, CharClass::Digit, 4);
    }
    if take_while(cs, k + 4, CharClass::Digit, 2) != 2 {
        return None;
    }
    proof {
        crate::text::lemma_span(cs@, k + 4, CharClass::Digit, 2);
        assert(is_ascii_digit(cs@[k + 4]) && is_ascii_digit(cs@[k + 5]));
    }
    if two_digits(cs, k + 4) > 12 {
        return None;
    }
    if take_while(cs, k + 6, CharClass::Digit, 2) != 2 {
        return None;
    }
    proof {
        crate::text::lemma_span(cs@, k + 6, CharClass::Digit, 2);
        assert(is_ascii_digit(cs@[k + 6]) && is_ascii_digit(cs@[k + 7]));
    }
    if two_digits(cs, k + 6) > 31 {
        return None;
    }
    let v = vec![
        TOSECToken::Warning(TOSECWarn::UndelimitedDate(substr(s, k, k + 8))),
        TOSECToken::Date(
            substr(s, k, k + 4),
            Some(substr(s, k + 4, k + 6)),
            Some(substr(s, k + 6, k + 8)),
        ),
    ];
    assert(token_models(v@) =~= seq![v@[0]@, v@[1]@]);
    Some((k + 8, v))
}

fn read_date_part(s: &str, cs: &Vec<char>, k: usize) -> (res: (Option<String>, usize))
    requires
        cs@ == s@,
        k <= cs@.len(),
    ensures
        (opt_view(res.0), res.1 as int) == date_part(cs@, k as int),
        k <= res.1 <= cs@.len(),
{
    let len = cs.len();
    if is_char_at_(cs, k, '-') && take_while(cs, k + 1, CharClass::DigitOrX, 2) == 2 {
        (Some(substr(s, k + 1, k + 3)), k + 3)
    } else {
        (None, k)
    }
}

fn contains_upper_x(x: &str) -> (res: bool)
    ensures
        res == has_upper_x(x@),
{
    let cs = chars_of(x);
    let mut i: usize = 0;
    while i < cs.len()
        invariant
            cs@ == x@,
            i <= cs@.len(),
            forall|j: int| 0 <= j < i ==> cs@[j] != 'X',
        decreases cs@.len() - i,
    {
        if cs[i] == 'X' {
            assert(0 <= i < x@.len() && x@[i as int] == 'X');
            return true;
        }
        i = i + 1;
    }
    false
}

fn placeholder(p: &Option<String>) -> (res: Vec<TOSECToken>)
    ensures
        token_models(res@) == placeholder_warning(opt_view(*p)),
{
    match p {
        Some(x) => {
            if contains_upper_x(x.as_str()) {
                let v = vec![TOSECToken::Warning(TOSECWarn::MalformedDatePlaceholder(x.clone()))];
                assert(token_models(v@) =~= seq![v@[0]@]);
                v
            } else {
                let v: Vec<TOSECToken> = Vec::new();
                assert(token_models(v@) =~= Seq::<TOSECTokenModel>::empty());
                v
            }
        },
        None => {
            let v: Vec<TOSECToken> = Vec::new();
            assert(token_models(v@) =~= Seq::<TOSECTokenModel>::empty());
            v
        },
    }
}

fn read_date(s: &str, cs: &Vec<char>, k: usize) -> (res: Option<(usize, Vec<TOSECToken>)>)
    requires
        cs@ == s@,
    ensures
        reads_of(res) == date(cs@, k as int),
        res matches Some((e, _)) ==> k < e <= cs@.len(),
{
    if let Some(r) = read_undelimited_date(s, cs, k) {
        return Some(r);
    }
    let len = cs.len();
    if k > len || take_while(cs, k, CharClass::DigitOrX, 4) != 4 {
        return None;
    }
    let year = substr(s, k, k + 4);
    let (month, a) = read_date_part(s, cs, k + 4);
    let (day, b) = read_date_part(s, cs, a);
    let mut toks = placeholder(&Some(year.clone()));
    append_tokens(&mut toks, placeholder(&month));
    append_tokens(&mut toks, placeholder(&day));
    push_token(&mut toks, TOSECToken::Date(year, month, day));
    Some((b, toks))
}

fn read_date_tag(s: &str, cs: &Vec<char>, i: usize) -> (res: Option<(usize, Vec<TOSECToken>)>)
    requires
        cs@ == s@,
    ensures
        reads_of(res) == date_tag(cs@, i as int),
        res matches Some((e, _)) ==> i < e <= cs@.len(),
{
    proof {
        reveal(date_tag);
    }
    match char_tag(cs, i, '(') {
        Some(a) => match read_date(s, cs, a) {
            Some((k, ts)) => match char_tag(cs, k, ')') {
                Some(e) => Some((e, ts)),
                None => None,
            },
            None => None,
        },
        None => None,
    }
}

fn read_region_tag(s: &str, cs: &Vec<char>, i: usize) -> (res: Option<(usize, TOSECToken)>)
    requires
        cs@ == s@,
    ensures
        read_of(res) == region_tag(cs@, i as int),
        res matches Some((j, _)) ==> i < j <= cs@.len(),
{
    proof {
        reveal(region_tag);
    }
    let len = cs.len();
    match enclosed_at(cs, i, '(', ')', ')') {
        Some((a, b)) => {
            let inner = substr(s, a, b);
            match Region::try_from_tosec_region_with_strs(inner.as_str()) {
                Ok((strs, regs)) => Some((b + 1, TOSECToken::Region(strs, regs))),
                Err(_) => None,
            }
        },
        None => None,
    }
}


fn read_publisher_item(cs: &Vec<char>, k: usize) -> (res: Option<usize>)
    requires
        k <= cs@.len(),
    ensures
        match res {
            Some(e) => publisher_item(cs@, k as int) == Some(e as int) && k <= e <= cs@.len(),
            None => publisher_item(cs@, k as int) is None,
        },
{
    let len = cs.len();
    let r = run_len(cs, k, CharClass::Not(')'));
    if r == 0 {
        return None;
    }
    proof {
        reveal_strlit(" - ");
        crate::text::lemma_find_from(cs@, k as int, " - "@);
    }
    match find_tag(cs, k, " - ") {
        Some(q) => {
            if q + 3 <= k + r {
                Some(q)
            } else {
                Some(k + r)
            }
        },
        None => Some(k + r),
    }
}

fn read_publisher(s: &str, cs: &Vec<char>, k: usize) -> (res: Option<(usize, TOSECToken)>)
    requires
        cs@ == s@,
        k <= cs@.len(),
    ensures
        read_of(res) == publisher(cs@, k as int),
        res matches Some((e, _)) ==> k <= e <= cs@.len(),
{
    let len = cs.len();
    if is_char_at_(cs, k, '-') {
        return Some((k + 1, TOSECToken::Publisher(None)));
    }
    let k1 = match read_publisher_item(cs, k) {
        Some(e) => e,
        None => {
            return None;
        },
    };
    let mut pubs: Vec<String> = Vec::new();
    let first = substr(s, k, k1);
    proof {
        lemma_views_push(pubs@, first);
    }
    pubs.push(first);
    let ghost start = views(pubs@);
    assert(start =~= seq![cs@.subrange(k as int, k1 as int)]);
    let mut p = k1;
    proof {
        reveal_strlit(" - ");
    }
    loop
        invariant
            cs@ == s@,
            len == cs@.len(),
            k1 <= p <= cs@.len(),
            publisher_rest(cs@, k1 as int, start) == publisher_rest(cs@, p as int, views(pubs@)),
        ensures
            k1 <= p <= cs@.len(),
            publisher_rest(cs@, k1 as int, start) == (p as int, views(pubs@)),
        decreases cs@.len() - p,
    {
        let q1 = match tag(cs, p, " - ") {
            Some(q) => q,
            None => {
                break;
            },
        };
        match read_publisher_item(cs, q1) {
            Some(q2) => {
                if q2 <= p {
                    break;
                }
                let item = substr(s, q1, q2);
                proof {
                    lemma_views_push(pubs@, item);
                }
                pubs.push(item);
                p = q2;
            },
            None => {
                break;
            },
        }
    }
    Some((p, TOSECToken::Publisher(Some(pubs))))
}

fn read_publisher_tag(s: &str, cs: &Vec<char>, i: usize) -> (res: Option<(usize, TOSECToken)>)
    requires
        cs@ == s@,
    ensures
        read_of(res) == publisher_tag(cs@, i as int),
        res matches Some((e, _)) ==> i < e <= cs@.len(),
{
    proof {
        reveal(publisher_tag);
    }
    match char_tag(cs, i, '(') {
        Some(a) => match read_publisher(s, cs, a) {
            Some((k, t)) => match char_tag(cs, k, ')') {
                Some(e) => Some((e, t)),
                None => None,
            },
            None => None,
        },
        None => None,
    }
}

fn read_language(s: &str, cs: &Vec<char>, k: usize) -> (res: Option<(usize, TOSECToken)>)
    requires
        cs@ == s@,
        k <= cs@.len(),
    ensures
        read_of(res) == language(cs@, k as int),
        res matches Some((e, _)) ==> k < e <= cs@.len(),
{
    let len = cs.len();
    if is_char_at_(cs, k, 'M') {
        let n = run_len(cs, k + 1, CharClass::Digit);
        return Some(
            (k + 1 + n, TOSECToken::Languages(TOSECLanguage::Count(substr(s, k + 1, k + 1 + n)))),
        );
    }
    if take_while(cs, k, CharClass::Lower, 2) == 2 {
        if is_char_at_(cs, k + 2, '-') && take_while(cs, k + 3, CharClass::Lower, 2) == 2 {
            Some(
                (
                    k + 5,
                    TOSECToken::Languages(
                        TOSECLanguage::Double(substr(s, k, k + 2), substr(s, k + 3, k + 5)),
                    ),
                ),
            )
        } else {
            Some((k + 2, TOSECToken::Languages(TOSECLanguage::Single(substr(s, k, k + 2)))))
        }
    } else {
        None
    }
}

fn read_language_tag(s: &str, cs: &Vec<char>, i: usize) -> (res: Option<(usize, TOSECToken)>)
    requires
        cs@ == s@,
    ensures
        read_of(res) == language_tag(cs@, i as int),
        res matches Some((e, _)) ==> i < e <= cs@.len(),
{
    proof {
        reveal(language_tag);
    }
    match char_tag(cs, i, '(') {
        Some(a) => match read_language(s, cs, a) {
            Some((k, t)) => match char_tag(cs, k, ')') {
                Some(e) => Some((e, t)),
                None => None,
            },
            None => None,
        },
        None => None,
    }
}

pub open spec fn mread_of(r: Option<(usize, (String, String, Option<String>))>) -> Option<
    (int, MediaModel),
> {
    match r {
        Some((j, m)) => Some((j as int, (m.0@, m.1@, opt_view(m.2)))),
        None => None,
    }
}

fn read_media_part(s: &str, cs: &Vec<char>, k: usize) -> (res: Option<
    (usize, (String, String, Option<String>)),
>)
    requires
        cs@ == s@,
    ensures
        mread_of(res) == media_part(cs@, k as int),
        res matches Some((e, _)) ==> k < e <= cs@.len(),
{
    let len = cs.len();
    let (a, kind) = match read_word(cs, k, WordList::Media) {
        Some(x) => x,
        None => {
            return None;
        },
    };
    if !is_char_at_(cs, a, ' ') {
        return None;
    }
    let n = run_len(cs, a + 1, CharClass::AlnumDash);
    let b = a + 1 + n;
    proof {
        reveal_strlit(" of ");
    }
    let (total, c) = if tag_at(cs, b, " of ") {
        let m = run_len(cs, b + 4, CharClass::AlnumDash);
        (Some(substr(s, b + 4, b + 4 + m)), b + 4 + m)
    } else {
        (None, b)
    };
    Some((c, (kind, substr(s, a + 1, b), total)))
}

fn read_media(s: &str, cs: &Vec<char>, k: usize) -> (res: Option<(usize, TOSECToken)>)
    requires
        cs@ == s@,
    ensures
        read_of(res) == media(cs@, k as int),
        res matches Some((e, _)) ==> k < e <= cs@.len(),
{
    let len = cs.len();
    let (a, part) = match read_media_part(s, cs, k) {
        Some(x) => x,
        None => {
            return None;
        },
    };
    let ghost pm = (part.0@, part.1@, opt_view(part.2));
    proof {
        reveal_strlit(" Side ");
        reveal_strlit("Side");
    }
    if tag_at(cs, a, " Side ") {
        let n = run_len(cs, a + 6, CharClass::Alnum);
        let side = (owned("Side"), substr(s, a + 6, a + 6 + n), None);
        let ghost sm = (side.0@, side.1@, opt_view(side.2));
        let v = vec![part, side];
        assert(media_models(v@) =~= seq![pm, sm]);
        Some((a + 6 + n, TOSECToken::Media(v)))
    } else {
        let v = vec![part];
        assert(media_models(v@) =~= seq![pm]);
        Some((a, TOSECToken::Media(v)))
    }
}

fn read_media_tag(s: &str, cs: &Vec<char>, i: usize) -> (res: Option<(usize, TOSECToken)>)
    requires
        cs@ == s@,
    ensures
        read_of(res) == media_tag(cs@, i as int),
        res matches Some((e, _)) ==> i < e <= cs@.len(),
{
    proof {
        reveal(media_tag);
    }
    match char_tag(cs, i, '(') {
        Some(a) => match read_media(s, cs, a) {
            Some((k, t)) => match char_tag(cs, k, ')') {
                Some(e) => Some((e, t)),
                None => None,
            },
            None => None,
        },
        None => None,
    }
}

fn read_video_tag(cs: &Vec<char>, i: usize) -> (res: Option<(usize, TOSECToken)>)
    ensures
        read_of(res) == video_tag(cs@, i as int),
        res matches Some((e, _)) ==> i < e <= cs@.len(),
{
    proof {
        reveal(video_tag);
    }
    match char_tag(cs, i, '(') {
        Some(a) => match read_word(cs, a, WordList::Video) {
            Some((k, w)) => match char_tag(cs, k, ')') {
                Some(e) => Some((e, TOSECToken::Video(w))),
                None => None,
            },
            None => None,
        },
        None => None,
    }
}

fn read_copyright_tag(cs: &Vec<char>, i: usize) -> (res: Option<(usize, TOSECToken)>)
    ensures
        read_of(res) == copyright_tag(cs@, i as int),
        res matches Some((e, _)) ==> i < e <= cs@.len(),
{
    proof {
        reveal(copyright_tag);
    }
    match char_tag(cs, i, '(') {
        Some(a) => match read_word(cs, a, WordList::Copyright) {
            Some((k, w)) => match char_tag(cs, k, ')') {
                Some(e) => Some((e, TOSECToken::Copyright(w))),
                None => None,
            },
            None => None,
        },
        None => None,
    }
}

fn read_parens_tag(s: &str, cs: &Vec<char>, i: usize) -> (res: Option<(usize, TOSECToken)>)
    requires
        cs@ == s@,
    ensures
        read_of(res) == parens_tag(cs@, i as int),
        res matches Some((e, _)) ==> i < e <= cs@.len(),
{
    let len = cs.len();
    match enclosed_at(cs, i, '(', ')', ')') {
        Some((a, b)) => Some((b + 1, TOSECToken::Flag(FlagType::Parenthesized, substr(s, a, b)))),
        None => None,
    }
}

fn read_bracket_tag(s: &str, cs: &Vec<char>, i: usize) -> (res: Option<(usize, TOSECToken)>)
    requires
        cs@ == s@,
    ensures
        read_of(res) == bracket_tag(cs@, i as int),
        res matches Some((e, _)) ==> i < e <= cs@.len(),
{
    let len = cs.len();
    match enclosed_at(cs, i, '[', ']', ']') {
        Some((a, b)) => Some((b + 1, TOSECToken::Flag(FlagType::Bracketed, substr(s, a, b)))),
        None => None,
    }
}

fn read_version_string(s: &str, cs: &Vec<char>, k: usize) -> (res: Option<(usize, TOSECToken)>)
    requires
        cs@ == s@,
    ensures
        read_of(res) == version_string(cs@, k as int),
        res matches Some((e, _)) ==> k < e <= cs@.len(),
{
    proof {
        reveal(version_string);
        reveal_strlit("Rev ");
        reveal_strlit("v");
    }
    let len = cs.len();
    match tag(cs, k, "Rev ") {
        Some(a) => {
            let n = run_len(cs, a, CharClass::Alnum);
            Some(
                (a + n, TOSECToken::Version((owned("Rev"), substr(s, a, a + n), None, None, None))),
            )
        },
        None => match tag(cs, k, "v") {
            Some(a) => {
                let n = run_len(cs, a, CharClass::Digit);
                let b = a + n;
                let (minor, c) = if is_char_at_(cs, b, '.') {
                    let m = run_len(cs, b + 1, CharClass::AlnumDot);
                    (Some(substr(s, b + 1, b + 1 + m)), b + 1 + m)
                } else {
                    (None, b)
                };
                if minor.is_none() && n == 0 {
                    None
                } else {
                    Some((c, TOSECToken::Version((owned("v"), substr(s, a, b), minor, None, None))))
                }
            },
            None => None,
        },
    }
}

fn read_version_flag_tag(s: &str, cs: &Vec<char>, i: usize) -> (res: Option<
    (usize, Vec<TOSECToken>),
>)
    requires
        cs@ == s@,
    ensures
        reads_of(res) == version_flag_tag(cs@, i as int),
        res matches Some((e, _)) ==> i < e <= cs@.len(),
{
    proof {
        reveal(version_flag_tag);
    }
    match char_tag(cs, i, '(') {
        Some(a) => match read_version_string(s, cs, a) {
            Some((k, v)) => match char_tag(cs, k, ')') {
                Some(e) => {
                    let t = vec![TOSECToken::Warning(TOSECWarn::VersionInFlag), v];
                    assert(token_models(t@) =~= seq![t@[0]@, t@[1]@]);
                    Some((e, t))
                },
                None => None,
            },
            None => None,
        },
        None => None,
    }
}


fn read_version_demo_date(s: &str, cs: &Vec<char>, j: usize) -> (res: Option<
    (usize, Vec<TOSECToken>),
>)
    requires
        cs@ == s@,
    ensures
        reads_of(res) == version_demo_date(cs@, j as int),
        res matches Some((e, _)) ==> j < e <= cs@.len(),
{
    proof {
        reveal(version_demo_date);
    }
    let len = cs.len();
    let mut toks: Vec<TOSECToken> = Vec::new();
    assert(token_models(toks@) =~= Seq::<TOSECTokenModel>::empty());
    let mut p = j;
    if is_char_at_(cs, j, ' ') {
        if let Some((e, v)) = read_version_string(s, cs, j + 1) {
            push_token(&mut toks, v);
            p = e;
        }
    }
    let q = if is_char_at_(cs, p, ' ') {
        p + 1
    } else {
        p
    };
    let p2 = match read_demo_tag(cs, q) {
        Some((e, d)) => {
            push_token(&mut toks, d);
            e
        },
        None => p,
    };
    let p3 = if is_char_at_(cs, p2, ' ') {
        p2 + 1
    } else {
        push_token(&mut toks, TOSECToken::Warning(TOSECWarn::MissingSpace));
        p2
    };
    match read_date_tag(s, cs, p3) {
        Some((e, ds)) => {
            append_tokens(&mut toks, ds);
            Some((e, toks))
        },
        None => None,
    }
}

fn title_token(s: &str, cs: &Vec<char>, k: usize, j: usize) -> (res: TOSECToken)
    requires
        cs@ == s@,
        k <= j <= cs@.len(),
    ensures
        res@ == TOSECTokenModel::Title(trimmed(cs@, k as int, j as int)),
{
    let (a, b) = trim_range(cs, k, j);
    TOSECToken::Title(substr(s, a, b))
}

fn read_title_happy(s: &str, cs: &Vec<char>, k: usize) -> (res: Option<(usize, Vec<TOSECToken>)>)
    requires
        cs@ == s@,
    ensures
        reads_of(res) == title_happy(cs@, k as int),
        res matches Some((e, _)) ==> k < e <= cs@.len(),
{
    let len = cs.len();
    let mut j = k;
    loop
        invariant
            cs@ == s@,
            len == cs@.len(),
            k <= j,
            happy_from(cs@, k as int) == happy_from(cs@, j as int),
        decreases len - j,
    {
        if j >= len {
            return None;
        }
        match read_version_demo_date(s, cs, j) {
            Some((e, ts)) => {
                let mut toks = vec![title_token(s, cs, k, j)];
                assert(token_models(toks@) =~= seq![toks@[0]@]);
                append_tokens(&mut toks, ts);
                return Some((e, toks));
            },
            None => {
                j = j + 1;
            },
        }
    }
}

fn read_degenerate_stop(s: &str, cs: &Vec<char>, j: usize) -> (res: Option<(usize, Vec<TOSECToken>)>)
    requires
        cs@ == s@,
        j < cs@.len(),
    ensures
        reads_of(res) == degenerate_stop(cs@, j as int),
        res matches Some((e, _)) ==> j <= e <= cs@.len(),
{
    let len = cs.len();
    if is_char_at_(cs, j, ' ') {
        if let Some((e, v)) = read_version_string(s, cs, j + 1) {
            let t = vec![v];
            assert(token_models(t@) =~= seq![t@[0]@]);
            return Some((e, t));
        }
    }
    if is_char_at_(cs, j, '(') || is_char_at_(cs, j, '[') {
        let t: Vec<TOSECToken> = Vec::new();
        assert(token_models(t@) =~= Seq::<TOSECTokenModel>::empty());
        Some((j, t))
    } else {
        None
    }
}

fn read_title_degenerate(s: &str, cs: &Vec<char>, k: usize) -> (res: Option<
    (usize, Vec<TOSECToken>),
>)
    requires
        cs@ == s@,
    ensures
        reads_of(res) == title_degenerate(cs@, k as int),
        res matches Some((e, _)) ==> k <= e <= cs@.len(),
{
    let len = cs.len();
    let mut j = k;
    loop
        invariant
            cs@ == s@,
            len == cs@.len(),
            k <= j,
            degenerate_from(cs@, k as int) == degenerate_from(cs@, j as int),
        decreases len - j,
    {
        if j >= len {
            return None;
        }
        match read_degenerate_stop(s, cs, j) {
            Some((e, vs)) => {
                let e2 = if is_char_at_(cs, e, ' ') {
                    e + 1
                } else {
                    e
                };
                let mut toks = vec![title_token(s, cs, k, j)];
                assert(token_models(toks@) =~= seq![toks@[0]@]);
                append_tokens(&mut toks, vs);
                push_token(&mut toks, TOSECToken::Warning(TOSECWarn::MissingDate));
                return Some((e2, toks));
            },
            None => {
                j = j + 1;
            },
        }
    }
}

fn read_by_publisher(t: &str) -> (res: Option<(String, String, usize)>)
    ensures
        match res {
            Some((a, b, e)) => by_publisher(t@) == Some((a@, b@, e as int)) && e <= t@.len(),
            None => by_publisher(t@) is None,
        },
{
    let cs = chars_of(t);
    let len = cs.len();
    proof {
        reveal_strlit(" by ");
        crate::text::lemma_find_from(cs@, 0, " by "@);
    }
    match find_tag(&cs, 0, " by ") {
        Some(q) => {
            let n = run_len(&cs, q + 4, CharClass::Not('('));
            let (a, b) = trim_range(&cs, 0, q);
            let (c, d) = trim_range(&cs, q + 4, q + 4 + n);
            Some((substr(t, a, b), substr(t, c, d), q + 4 + n))
        },
        None => None,
    }
}

fn is_missing_publisher(t: &TOSECToken) -> (res: bool)
    ensures
        res == (t@ == warn(TOSECWarnModel::MissingPublisher)),
{
    match t {
        TOSECToken::Warning(TOSECWarn::MissingPublisher) => true,
        _ => false,
    }
}

fn read_title_part(s: &str, cs: &Vec<char>) -> (res: (usize, Vec<TOSECToken>))
    requires
        cs@ == s@,
    ensures
        (res.0 as int, token_models(res.1@)) == title_part(cs@),
        res.0 <= cs@.len(),
        res.1@.len() > 0,
{
    let len = cs.len();
    proof {
        reveal(title_part);
        reveal_strlit("ZZZ-UNK-");
    }
    let z = tag_at(cs, 0, "ZZZ-UNK-");
    let p0: usize = if z {
        8
    } else {
        0
    };
    let (p1, mut t1) = match read_title_happy(s, cs, p0) {
        Some(x) => x,
        None => match read_title_degenerate(s, cs, p0) {
            Some(x) => x,
            None => {
                let v = vec![
                    TOSECToken::Title(substr(s, p0, len)),
                    TOSECToken::Warning(TOSECWarn::MissingDate),
                    TOSECToken::Warning(TOSECWarn::MissingPublisher),
                ];
                assert(token_models(v@) =~= seq![v@[0]@, v@[1]@, v@[2]@]);
                (len, v)
            },
        },
    };
    assert(token_models(t1@).len() > 0);
    assert(t1@.len() > 0);
    if !z {
        return (p1, t1);
    }
    let title: String = match &t1[0] {
        TOSECToken::Title(x) => x.clone(),
        _ => String::new(),
    };
    let ghost m1 = token_models(t1@);
    let (p2, t2) = match read_by_publisher(title.as_str()) {
        Some((tt, pn, _)) => {
            let pubs = vec![pn];
            assert(views(pubs@) =~= seq![pubs@[0]@]);
            let mut v = vec![
                TOSECToken::Title(tt),
                TOSECToken::Warning(TOSECWarn::PublisherBeforeDate),
                TOSECToken::Warning(TOSECWarn::ByPublisher),
                TOSECToken::Publisher(Some(pubs)),
            ];
            assert(token_models(v@) =~= seq![v@[0]@, v@[1]@, v@[2]@, v@[3]@]);
            let _ = t1.remove(0);
            assert(token_models(t1@) =~= m1.drop_first());
            append_tokens(&mut v, t1);
            (p1, v)
        },
        None => {
            let rest = substr(s, p1, len);
            match read_by_publisher(rest.as_str()) {
                Some((_, pn, end)) => {
                    let pubs = vec![pn];
                    assert(views(pubs@) =~= seq![pubs@[0]@]);
                    push_token(&mut t1, TOSECToken::Warning(TOSECWarn::ByPublisher));
                    push_token(&mut t1, TOSECToken::Publisher(Some(pubs)));
                    (p1 + end, t1)
                },
                None => {
                    let last = t1.len() - 1;
                    if p1 == len && !is_missing_publisher(&t1[last]) {
                        push_token(&mut t1, TOSECToken::Warning(TOSECWarn::MissingPublisher));
                    }
                    (p1, t1)
                },
            }
        },
    };
    let mut v = vec![TOSECToken::Warning(TOSECWarn::ZZZUnknown)];
    assert(token_models(v@) =~= seq![v@[0]@]);
    append_tokens(&mut v, t2);
    assert(token_models(v@).len() > 0);
    (p2, v)
}


fn known_flag_here(s: &str, cs: &Vec<char>, k: usize) -> (res: bool)
    requires
        cs@ == s@,
    ensures
        res == known_flag_at(cs@, k as int),
{
    read_region_tag(s, cs, k).is_some() || read_language_tag(s, cs, k).is_some()
        || read_video_tag(cs, k).is_some() || read_copyright_tag(cs, k).is_some()
        || read_media_tag(s, cs, k).is_some() || read_bracket_tag(s, cs, k).is_some()
        || read_devstatus_tag(cs, k).is_some() || read_goodtools_region_tag(s, cs, k).is_some()
}

fn holds_publisher(ts: &Vec<TOSECToken>) -> (res: bool)
    ensures
        res == has_publisher(token_models(ts@)),
{
    let mut i: usize = 0;
    while i < ts.len()
        invariant
            i <= ts@.len(),
            forall|j: int| 0 <= j < i ==> !(token_models(ts@)[j] is Publisher),
        decreases ts@.len() - i,
    {
        if let TOSECToken::Publisher(_) = &ts[i] {
            assert(token_models(ts@)[i as int] is Publisher);
            return true;
        }
        i = i + 1;
    }
    false
}

fn single(t: TOSECToken) -> (res: Vec<TOSECToken>)
    ensures
        token_models(res@) == seq![t@],
{
    let v = vec![t];
    assert(token_models(v@) =~= seq![t@]);
    v
}

fn read_paren_flag(s: &str, cs: &Vec<char>, k: usize) -> (res: Option<(usize, Vec<TOSECToken>)>)
    requires
        cs@ == s@,
    ensures
        reads_of(res) == paren_flag(cs@, k as int),
        res matches Some((e, _)) ==> k < e <= cs@.len(),
{
    proof {
        reveal(paren_flag);
    }
    if let Some((e, t)) = read_region_tag(s, cs, k) {
        return Some((e, single(t)));
    }
    if let Some((e, t)) = read_language_tag(s, cs, k) {
        return Some((e, single(t)));
    }
    if let Some((e, t)) = read_video_tag(cs, k) {
        return Some((e, single(t)));
    }
    if let Some((e, t)) = read_copyright_tag(cs, k) {
        return Some((e, single(t)));
    }
    if let Some((e, t)) = read_media_tag(s, cs, k) {
        return Some((e, single(t)));
    }
    if let Some(r) = read_goodtools_region_tag(s, cs, k) {
        return Some(r);
    }
    if let Some(r) = read_devstatus_tag(cs, k) {
        return Some(r);
    }
    if let Some(r) = read_version_flag_tag(s, cs, k) {
        return Some(r);
    }
    match read_parens_tag(s, cs, k) {
        Some((e, t)) => Some((e, single(t))),
        None => None,
    }
}

fn space_warnings(cs: &Vec<char>, k: usize) -> (res: Vec<TOSECToken>)
    ensures
        token_models(res@) == space_warning(cs@, k as int),
{
    if is_char_at_(cs, k, ' ') {
        single(TOSECToken::Warning(TOSECWarn::UnexpectedSpace))
    } else {
        let v: Vec<TOSECToken> = Vec::new();
        assert(token_models(v@) =~= Seq::<TOSECTokenModel>::empty());
        v
    }
}

fn skip_space(cs: &Vec<char>, k: usize) -> (res: usize)
    requires
        k <= cs@.len(),
    ensures
        res == after_space(cs@, k as int),
        k <= res <= cs@.len(),
{
    let len = cs.len();
    if is_char_at_(cs, k, ' ') {
        k + 1
    } else {
        k
    }
}

fn read_paren_flags(s: &str, cs: &Vec<char>, k0: usize, toks: Vec<TOSECToken>) -> (res: (
    usize,
    Vec<TOSECToken>,
))
    requires
        cs@ == s@,
        k0 <= cs@.len(),
    ensures
        paren_flags(cs@, k0 as int, token_models(toks@)) == (res.0 as int, token_models(res.1@)),
        k0 <= res.0 <= cs@.len(),
{
    let mut k = k0;
    let mut toks = toks;
    let ghost start = token_models(toks@);
    loop
        invariant
            cs@ == s@,
            k0 <= k <= cs@.len(),
            paren_flags(cs@, k0 as int, start) == paren_flags(cs@, k as int, token_models(toks@)),
        ensures
            k0 <= k <= cs@.len(),
            paren_flags(cs@, k0 as int, start) == (k as int, token_models(toks@)),
        decreases cs@.len() - k,
    {
        let k1 = skip_space(cs, k);
        match read_paren_flag(s, cs, k1) {
            Some((e, ts)) => {
                append_tokens(&mut toks, space_warnings(cs, k));
                append_tokens(&mut toks, ts);
                k = e;
            },
            None => {
                break;
            },
        }
    }
    (k, toks)
}

fn read_dumpinfo_flags(s: &str, cs: &Vec<char>, k0: usize, toks: Vec<TOSECToken>) -> (res: (
    usize,
    Vec<TOSECToken>,
))
    requires
        cs@ == s@,
        k0 <= cs@.len(),
    ensures
        dumpinfo_flags(cs@, k0 as int, token_models(toks@), 0) == (
            res.0 as int,
            token_models(res.1@),
        ),
        k0 <= res.0 <= cs@.len(),
{
    let mut k = k0;
    let mut toks = toks;
    let ghost start = token_models(toks@);
    let mut j: usize = 0;
    while j < 13
        invariant
            cs@ == s@,
            k0 <= k <= cs@.len(),
            j <= 13,
            dumpinfo_flags(cs@, k0 as int, start, 0) == dumpinfo_flags(
                cs@,
                k as int,
                token_models(toks@),
                j as int,
            ),
        decreases 13 - j,
    {
        let k1 = skip_space(cs, k);
        append_tokens(&mut toks, space_warnings(cs, k));
        let code = word_of(WordList::DumpInfo, j);
        match read_dumpinfo_tag(s, cs, k1, code) {
            Some((e, t)) => {
                push_token(&mut toks, t);
                k = e;
            },
            None => {
                k = k1;
            },
        }
        j = j + 1;
    }
    (k, toks)
}

fn read_bracket_flags(s: &str, cs: &Vec<char>, k0: usize, toks: Vec<TOSECToken>) -> (res: (
    usize,
    Vec<TOSECToken>,
))
    requires
        cs@ == s@,
        k0 <= cs@.len(),
    ensures
        bracket_flags(cs@, k0 as int, token_models(toks@)) == (res.0 as int, token_models(res.1@)),
        k0 <= res.0 <= cs@.len(),
{
    let mut k = k0;
    let mut toks = toks;
    let ghost start = token_models(toks@);
    loop
        invariant
            cs@ == s@,
            k0 <= k <= cs@.len(),
            bracket_flags(cs@, k0 as int, start) == bracket_flags(cs@, k as int, token_models(toks@)),
        ensures
            k0 <= k <= cs@.len(),
            bracket_flags(cs@, k0 as int, start) == (k as int, token_models(toks@)),
        decreases cs@.len() - k,
    {
        let k1 = skip_space(cs, k);
        match read_bracket_tag(s, cs, k1) {
            Some((e, t)) => {
                let ghost before = token_models(toks@);
                append_tokens(&mut toks, space_warnings(cs, k));
                push_token(&mut toks, t);
                assert(token_models(toks@) =~= before + space_warning(cs@, k as int) + seq![t@]);
                k = e;
            },
            None => {
                break;
            },
        }
    }
    (k, toks)
}

/// Tokenizes a whole TOSEC name.
fn read_tosec_tokens(s: &str) -> (res: Option<Vec<TOSECToken>>)
    ensures
        match res {
            Some(v) => tosec_tokens(s@) == Some(token_models(v@)),
            None => tosec_tokens(s@) is None,
        },
{
    proof {
        reveal(tosec_name_read);
    }
    let cs = chars_of(s);
    let len = cs.len();
    let (p2, mut t2) = read_title_part(s, &cs);
    let p3 = skip_space(&cs, p2);
    append_tokens(&mut t2, space_warnings(&cs, p2));
    let mut t3 = t2;
    assert(t3@.len() > 0);
    let p4 = if !known_flag_here(s, &cs, p3) {
        let last = t3.len() - 1;
        if is_missing_publisher(&t3[last]) {
            p3
        } else {
            match read_publisher_tag(s, &cs, p3) {
                Some((e, pt)) => {
                    push_token(&mut t3, pt);
                    e
                },
                None => {
                    return None;
                },
            }
        }
    } else {
        if !holds_publisher(&t3) {
            push_token(&mut t3, TOSECToken::Warning(TOSECWarn::MissingPublisher));
        }
        p3
    };
    let (p5, t5) = read_paren_flags(s, &cs, p4, t3);
    let (p6, t6) = read_dumpinfo_flags(s, &cs, p5, t5);
    let (p7, mut t7) = read_bracket_flags(s, &cs, p6, t6);
    if p7 != len {
        push_token(&mut t7, TOSECToken::Warning(TOSECWarn::NotEof(substr(s, p7, len))));
    }
    Some(t7)
}


// ---------------------------------------------------------------------------
// Copies of tokens
// ---------------------------------------------------------------------------
impl TOSECWarn {
    /// A copy of the warning.
    pub fn copy(&self) -> (res: TOSECWarn)
        ensures
            res@ == self@,
    {
        match self {
            TOSECWarn::ZZZUnknown => TOSECWarn::ZZZUnknown,
            TOSECWarn::MalformedDatePlaceholder(x) => TOSECWarn::MalformedDatePlaceholder(x.clone()),
            TOSECWarn::MalformedDevelopmentStatus(x) => TOSECWarn::MalformedDevelopmentStatus(
                x.clone(),
            ),
            TOSECWarn::UndelimitedDate(x) => TOSECWarn::UndelimitedDate(x.clone()),
            TOSECWarn::MissingDate => TOSECWarn::MissingDate,
            TOSECWarn::MissingPublisher => TOSECWarn::MissingPublisher,
            TOSECWarn::MissingSpace => TOSECWarn::MissingSpace,
            TOSECWarn::UnexpectedSpace => TOSECWarn::UnexpectedSpace,
            TOSECWarn::ByPublisher => TOSECWarn::ByPublisher,
            TOSECWarn::PublisherBeforeDate => TOSECWarn::PublisherBeforeDate,
            TOSECWarn::GoodToolsRegionCode(x) => TOSECWarn::GoodToolsRegionCode(x.clone()),
            TOSECWarn::VersionInFlag => TOSECWarn::VersionInFlag,
            TOSECWarn::NotEof(x) => TOSECWarn::NotEof(x.clone()),
        }
    }
}

fn copy_media(v: &Vec<(String, String, Option<String>)>) -> (res: Vec<(String, String, Option<String>)>)
    ensures
        media_models(res@) == media_models(v@),
{
    let mut res: Vec<(String, String, Option<String>)> = Vec::new();
    let mut i: usize = 0;
    while i < v.len()
        invariant
            i <= v@.len(),
            media_models(res@) == media_models(v@.subrange(0, i as int)),
        decreases v@.len() - i,
    {
        let m = (v[i].0.clone(), v[i].1.clone(), clone_opt(&v[i].2));
        proof {
            assert(media_models(res@.push(m)) =~= media_models(res@).push((m.0@, m.1@, opt_view(m.2))));
            assert(media_models(v@.subrange(0, i + 1)) =~= media_models(v@.subrange(0, i as int)).push(
                (v@[i as int].0@, v@[i as int].1@, opt_view(v@[i as int].2)),
            ));
        }
        res.push(m);
        i = i + 1;
    }
    assert(v@.subrange(0, v@.len() as int) =~= v@);
    res
}

fn copy_version(v: &VersionTuple) -> (res: VersionTuple)
    ensures
        version_model(res) == version_model(*v),
{
    (
        v.0.clone(),
        v.1.clone(),
        clone_opt(&v.2),
        clone_opt(&v.3),
        match &v.4 {
            Some(x) => Some(clone_strings(x)),
            None => None,
        },
    )
}

impl TOSECToken {
    /// A copy of the token.
    pub fn copy(&self) -> (res: TOSECToken)
        ensures
            res@ == self@,
    {
        match self {
            TOSECToken::Title(t) => TOSECToken::Title(t.clone()),
            TOSECToken::Region(a, b) => TOSECToken::Region(clone_strings(a), copy_regions(b)),
            TOSECToken::Publisher(p) => TOSECToken::Publisher(
                match p {
                    Some(v) => Some(clone_strings(v)),
                    None => None,
                },
            ),
            TOSECToken::Demo(d) => TOSECToken::Demo(clone_opt(d)),
            TOSECToken::Version(v) => TOSECToken::Version(copy_version(v)),
            TOSECToken::Date(y, m, d) => TOSECToken::Date(y.clone(), clone_opt(m), clone_opt(d)),
            TOSECToken::Video(v) => TOSECToken::Video(v.clone()),
            TOSECToken::Copyright(c) => TOSECToken::Copyright(c.clone()),
            TOSECToken::Development(d) => TOSECToken::Development(d.clone()),
            TOSECToken::DumpInfo(a, b, c) => TOSECToken::DumpInfo(
                a.clone(),
                clone_opt(b),
                clone_opt(c),
            ),
            TOSECToken::Media(m) => TOSECToken::Media(copy_media(m)),
            TOSECToken::Languages(l) => TOSECToken::Languages(
                match l {
                    TOSECLanguage::Single(a) => TOSECLanguage::Single(a.clone()),
                    TOSECLanguage::Double(a, b) => TOSECLanguage::Double(a.clone(), b.clone()),
                    TOSECLanguage::Count(a) => TOSECLanguage::Count(a.clone()),
                },
            ),
            TOSECToken::Flag(f, t) => TOSECToken::Flag(*f, t.clone()),
            TOSECToken::Warning(w) => TOSECToken::Warning(w.copy()),
        }
    }
}

fn copy_tokens(v: &Vec<TOSECToken>, acc: &mut Vec<TOSECToken>)
    ensures
        token_models(final(acc)@) == token_models(old(acc)@) + token_models(v@),
{
    let ghost start = token_models(acc@);
    let mut i: usize = 0;
    while i < v.len()
        invariant
            i <= v@.len(),
            token_models(acc@) == start + token_models(v@.subrange(0, i as int)),
        decreases v@.len() - i,
    {
        proof {
            assert(token_models(v@.subrange(0, i + 1)) =~= token_models(v@.subrange(0, i as int)).push(
                v@[i as int]@,
            ));
        }
        push_token(acc, v[i].copy());
        i = i + 1;
    }
    assert(v@.subrange(0, v@.len() as int) =~= v@);
}

// ---------------------------------------------------------------------------
// Names
// ---------------------------------------------------------------------------
/// The warnings among the tokens, in order.
pub open spec fn warnings_of(ts: Seq<TOSECTokenModel>) -> Seq<TOSECTokenModel>
    decreases ts.len(),
{
    if ts.len() == 0 {
        seq![]
    } else if ts.last() is Warning {
        warnings_of(ts.drop_last()).push(ts.last())
    } else {
        warnings_of(ts.drop_last())
    }
}

/// A tokenized TOSEC name.
#[derive(Debug, PartialEq, Eq)]
pub struct TOSECName {
    pub tokens: Vec<TOSECToken>,
}

impl TOSECName {
    /// The name made of these tokens.
    pub fn from_tokens(tokens: Vec<TOSECToken>) -> (res: TOSECName)
        ensures
            res.tokens@ == tokens@,
    {
        TOSECName { tokens }
    }

    /// Tries to parse the name into its tokens. Tokens are in the order in
    /// which they appear; a warning comes before the token it concerns.
    pub fn try_parse(input: &str) -> (res: Result<TOSECName, ParseError>)
        ensures
            match res {
                Ok(n) => tosec_tokens(input@) == Some(token_models(n.tokens@)),
                Err(e) => {
                    &&& tosec_tokens(input@) is None
                    &&& e matches ParseError::BadFileNameError(c, n) && c
                        == NamingConvention::TOSEC && n@ == input@
                },
            },
    {
        match read_tosec_tokens(input) {
            Some(v) => Ok(TOSECName { tokens: v }),
            None => Err(ParseError::BadFileNameError(NamingConvention::TOSEC, owned(input))),
        }
    }

    /// Whether any token is a warning.
    pub fn has_warnings(&self) -> (res: bool)
        ensures
            res == exists|i: int| 0 <= i < self.tokens@.len() && (#[trigger] self.tokens@[i]) is Warning,
    {
        let mut i: usize = 0;
        while i < self.tokens.len()
            invariant
                i <= self.tokens@.len(),
                forall|j: int| 0 <= j < i ==> !(self.tokens@[j] is Warning),
            decreases self.tokens@.len() - i,
        {
            if let TOSECToken::Warning(_) = &self.tokens[i] {
                return true;
            }
            i = i + 1;
        }
        false
    }

    /// The warnings, in order.
    pub fn warnings(&self) -> (res: Vec<TOSECToken>)
        ensures
            token_models(res@) == warnings_of(token_models(self.tokens@)),
    {
        let ghost ts = token_models(self.tokens@);
        let mut res: Vec<TOSECToken> = Vec::new();
        assert(token_models(res@) =~= Seq::<TOSECTokenModel>::empty());
        let mut i: usize = 0;
        while i < self.tokens.len()
            invariant
                ts == token_models(self.tokens@),
                i <= self.tokens@.len(),
                token_models(res@) == warnings_of(ts.subrange(0, i as int)),
            decreases self.tokens@.len() - i,
        {
            proof {
                assert(ts.subrange(0, i + 1).drop_last() =~= ts.subrange(0, i as int));
            }
            if let TOSECToken::Warning(_) = &self.tokens[i] {
                push_token(&mut res, self.tokens[i].copy());
            }
            i = i + 1;
        }
        assert(ts.subrange(0, ts.len() as int) =~= ts);
        res
    }
}

/// Whether any of the tokens is a warning exactly when the warnings are not none.
pub proof fn lemma_warnings_of(ts: Seq<TOSECTokenModel>)
    ensures
        (warnings_of(ts).len() > 0) == (exists|i: int| 0 <= i < ts.len() && (#[trigger] ts[i]) is Warning),
    decreases ts.len(),
{
    if ts.len() > 0 {
        lemma_warnings_of(ts.drop_last());
        if exists|i: int| 0 <= i < ts.drop_last().len() && (#[trigger] ts.drop_last()[i]) is Warning {
            let i = choose|i: int| 0 <= i < ts.drop_last().len() && (#[trigger] ts.drop_last()[i]) is Warning;
            assert(ts[i] is Warning);
        }
        if exists|i: int| 0 <= i < ts.len() && (#[trigger] ts[i]) is Warning {
            let i = choose|i: int| 0 <= i < ts.len() && (#[trigger] ts[i]) is Warning;
            if i < ts.len() - 1 {
                assert(ts.drop_last()[i] is Warning);
            }
        }
    }
}

/// A name has warnings exactly when the list of its warnings is not empty.
pub proof fn law_has_warnings_iff_warnings(n: TOSECName)
    ensures
        (exists|i: int| 0 <= i < n.tokens@.len() && (#[trigger] n.tokens@[i]) is Warning) == (
        warnings_of(token_models(n.tokens@)).len() > 0),
{
    let ts = token_models(n.tokens@);
    lemma_warnings_of(ts);
    if exists|i: int| 0 <= i < n.tokens@.len() && (#[trigger] n.tokens@[i]) is Warning {
        let i = choose|i: int| 0 <= i < n.tokens@.len() && (#[trigger] n.tokens@[i]) is Warning;
        assert(ts[i] is Warning);
    }
    if exists|i: int| 0 <= i < ts.len() && (#[trigger] ts[i]) is Warning {
        let i = choose|i: int| 0 <= i < ts.len() && (#[trigger] ts[i]) is Warning;
        assert(n.tokens@[i] is Warning);
    }
}

/// The names of a multi-set entry: the tokens of each set, and the tokens
/// that all sets share.
#[derive(Debug, PartialEq, Eq)]
pub struct TOSECMultiSetName {
    pub tokens: Vec<Vec<TOSECToken>>,
    pub globals: Vec<TOSECToken>,
}

impl TOSECMultiSetName {
    /// The multi-set name made of per-set tokens and shared tokens.
    pub fn new(tokens: Vec<Vec<TOSECToken>>, globals: Vec<TOSECToken>) -> (res: TOSECMultiSetName)
        ensures
            res.tokens@ == tokens@,
            res.globals@ == globals@,
    {
        TOSECMultiSetName { tokens, globals }
    }

    /// The name of set `index`: its own tokens followed by the shared ones.
    pub fn get_single(&self, index: usize) -> (res: Option<TOSECName>)
        ensures
            match res {
                Some(n) => index < self.tokens@.len() && token_models(n.tokens@) == token_models(
                    self.tokens@[index as int]@,
                ) + token_models(self.globals@),
                None => index >= self.tokens@.len(),
            },
    {
        if index >= self.tokens.len() {
            return None;
        }
        let mut v: Vec<TOSECToken> = Vec::new();
        assert(token_models(v@) =~= Seq::<TOSECTokenModel>::empty());
        copy_tokens(&self.tokens[index], &mut v);
        copy_tokens(&self.globals, &mut v);
        assert(token_models(v@) =~= token_models(self.tokens@[index as int]@) + token_models(
            self.globals@,
        ));
        Some(TOSECName { tokens: v })
    }
}

/// Tries to parse the name into its tokens.
pub fn try_parse(input: &str) -> (res: Result<TOSECName, ParseError>)
    ensures
        match res {
            Ok(n) => tosec_tokens(input@) == Some(token_models(n.tokens@)),
            Err(e) => {
                &&& tosec_tokens(input@) is None
                &&& e matches ParseError::BadFileNameError(c, n) && c == NamingConvention::TOSEC
                    && n@ == input@
            },
        },
{
    TOSECName::try_parse(input)
}

/// The information of a name before any token is read.
pub open spec fn tosec_start() -> NameInfoModel {
    NameInfoModel {
        entry_title: seq![],
        release_title: seq![],
        region: seq![Region::Unknown],
        part_number: None,
        version: None,
        is_unlicensed: false,
        is_demo: false,
        is_system: false,
        status: DevelopmentStatus::Release,
        naming_convention: NamingConvention::TOSEC,
    }
}

/// The part number that a media token gives: the number of the first part,
/// or 1 and 2 for sides A and B.
pub open spec fn media_part_number(m: NameInfoModel, parts: Seq<MediaModel>) -> NameInfoModel {
    if parts.len() > 0 {
        let p = parts[0];
        if p.0 != "Side"@ {
            NameInfoModel { part_number: i32_value(p.1), ..m }
        } else if p.1 == "A"@ {
            NameInfoModel { part_number: Some(1), ..m }
        } else if p.1 == "B"@ {
            NameInfoModel { part_number: Some(2), ..m }
        } else {
            m
        }
    } else {
        m
    }
}

/// What one token changes in the information.
pub open spec fn apply_token(m: NameInfoModel, t: TOSECTokenModel) -> NameInfoModel {
    match t {
        TOSECTokenModel::Title(x) => NameInfoModel { entry_title: x, ..m },
        TOSECTokenModel::Region(_, r) => NameInfoModel { region: r, ..m },
        TOSECTokenModel::Media(parts) => media_part_number(m, parts),
        TOSECTokenModel::Version(v) => NameInfoModel { version: Some(version_text(v)), ..m },
        TOSECTokenModel::DumpInfo(c, _, _) => if c == "p"@ {
            NameInfoModel { is_unlicensed: true, ..m }
        } else {
            m
        },
        TOSECTokenModel::Demo(_) => NameInfoModel { is_demo: true, ..m },
        TOSECTokenModel::Development(d) => if d == "proto"@ || d == "Proto"@ || d == "Prototype"@ {
            NameInfoModel { status: DevelopmentStatus::Prototype, ..m }
        } else {
            NameInfoModel { status: DevelopmentStatus::Prerelease, ..m }
        },
        _ => m,
    }
}

pub open spec fn apply_tokens(m: NameInfoModel, toks: Seq<TOSECTokenModel>) -> NameInfoModel
    decreases toks.len(),
{
    if toks.len() == 0 {
        m
    } else {
        apply_tokens(apply_token(m, toks[0]), toks.drop_first())
    }
}

/// Whether `s` ends with `t`.
pub open spec fn ends_with(s: Seq<char>, t: Seq<char>) -> bool {
    s.len() >= t.len() && s.subrange(s.len() - t.len(), s.len() as int) == t
}

/// What the tokens of a TOSEC name say: a title that ends with `BIOS` or
/// `System Software` names a system file, and the release title comes from
/// the entry title.
pub open spec fn tosec_name_info(toks: Seq<TOSECTokenModel>) -> NameInfoModel {
    let m = apply_tokens(tosec_start(), toks);
    NameInfoModel {
        is_system: ends_with(m.entry_title, "BIOS"@) || ends_with(m.entry_title, "System Software"@),
        release_title: release_title_of(m.entry_title),
        ..m
    }
}

fn ends_with_str(s: &str, t: &str) -> (res: bool)
    ensures
        res == ends_with(s@, t@),
{
    let cs = chars_of(s);
    let n = cs.len();
    let m = t.unicode_len();
    if n < m {
        return false;
    }
    crate::text::range_is(&cs, n - m, n, t)
}

fn tokens_info(toks: &Vec<TOSECToken>) -> (res: NameInfo)
    ensures
        res@ == tosec_name_info(token_models(toks@)),
{
    let mut info = NameInfo {
        entry_title: String::new(),
        release_title: String::new(),
        region: vec![Region::Unknown],
        part_number: None,
        version: None,
        is_unlicensed: false,
        is_demo: false,
        is_system: false,
        status: DevelopmentStatus::Release,
        naming_convention: NamingConvention::TOSEC,
    };
    let ghost tms = token_models(toks@);
    assert(info.region@ =~= seq![Region::Unknown]);
    assert(info@.entry_title =~= Seq::<char>::empty());
    assert(info@.release_title =~= Seq::<char>::empty());
    assert(info@ == tosec_start());
    assert(tms.subrange(0, tms.len() as int) =~= tms);
    let mut i: usize = 0;
    while i < toks.len()
        invariant
            tms == token_models(toks@),
            i <= toks@.len(),
            apply_tokens(tosec_start(), tms) == apply_tokens(
                info@,
                tms.subrange(i as int, tms.len() as int),
            ),
        decreases toks@.len() - i,
    {
        proof {
            assert(tms.subrange(i as int, tms.len() as int).drop_first() =~= tms.subrange(
                i + 1,
                tms.len() as int,
            ));
            assert(tms.subrange(i as int, tms.len() as int)[0] == toks@[i as int]@);
            reveal_strlit("Side");
            reveal_strlit("A");
            reveal_strlit("B");
            reveal_strlit("p");
        }
        match &toks[i] {
            TOSECToken::Title(t) => {
                info.entry_title = t.clone();
            },
            TOSECToken::Region(_, r) => {
                info.region = copy_regions(r);
            },
            TOSECToken::Media(parts) => {
                if parts.len() > 0 {
                    let p = &parts[0];
                    if !str_eq(p.0.as_str(), "Side") {
                        info.part_number = parse_i32(p.1.as_str());
                    } else if str_eq(p.1.as_str(), "A") {
                        info.part_number = Some(1);
                    } else if str_eq(p.1.as_str(), "B") {
                        info.part_number = Some(2);
                    }
                }
            },
            TOSECToken::Version(v) => {
                info.version = Some(write_version(v));
            },
            TOSECToken::DumpInfo(c, _, _) => {
                if str_eq(c.as_str(), "p") {
                    info.is_unlicensed = true;
                }
            },
            TOSECToken::Demo(_) => {
                info.is_demo = true;
            },
            TOSECToken::Development(d) => {
                if str_eq(d.as_str(), "proto") || str_eq(d.as_str(), "Proto") || str_eq(
                    d.as_str(),
                    "Prototype",
                ) {
                    info.status = DevelopmentStatus::Prototype;
                } else {
                    info.status = DevelopmentStatus::Prerelease;
                }
            },
            _ => {},
        }
        i = i + 1;
    }
    info.is_system = ends_with_str(info.entry_title.as_str(), "BIOS") || ends_with_str(
        info.entry_title.as_str(),
        "System Software",
    );
    info.release_title = release_title_from(info.entry_title.as_str());
    info
}

impl ToNameInfo for TOSECName {
    fn to_name_info(&self) -> (res: NameInfo)
        ensures
            res@ == tosec_name_info(token_models(self.tokens@)),
    {
        tokens_info(&self.tokens)
    }
}

// ---------------------------------------------------------------------------
// What a name says by its title and its tags
// ---------------------------------------------------------------------------
/// `(demo)`, or `(demo-playable)`, `(demo-kiosk)`, `(demo-rolling)` or
/// `(demo-slideshow)`, at `p`: where it ends.
pub open spec fn demo_paren(s: Seq<char>, p: int) -> Option<int> {
    match tag_end(s, p, "(demo"@) {
        Some(a) => {
            let b = match tag_end(s, a, "-playable"@) {
                Some(x) => x,
                None => match tag_end(s, a, "-kiosk"@) {
                    Some(x) => x,
                    None => match tag_end(s, a, "-rolling"@) {
                        Some(x) => x,
                        None => match tag_end(s, a, "-slideshow"@) {
                            Some(x) => x,
                            None => a,
                        },
                    },
                },
            };
            if char_at(s, b, ')') {
                Some(b + 1)
            } else if char_at(s, a, ')') {
                Some(a + 1)
            } else {
                None
            }
        },
        None => None,
    }
}

/// A date in parentheses at `p`: `19` or `20` and two digits (what `\d`
/// matches) or `x` alone; or `19` or `20`, two ASCII digits or `x`, `-` and a
/// two-digit month, and `-`, a digit and a digit or `x` when present; where it
/// ends.
pub open spec fn date_paren(s: Seq<char>, p: int) -> Option<int> {
    let y = p + 5;
    if !(char_at(s, p, '(') && (has_at(s, p + 1, "19"@) || has_at(s, p + 1, "20"@))) {
        None
    } else if span(s, p + 3, CharClass::UniDigitOrX, 2) == 2 && char_at(s, y, ')') {
        Some(y + 1)
    } else if span(s, p + 3, CharClass::DigitOrX, 2) == 2 {
        if char_at(s, y, '-') && span(s, y + 1, CharClass::Digit, 2) == 2 {
            let m = y + 3;
            if char_at(s, m, ')') {
                Some(m + 1)
            } else if char_at(s, m, '-') && span(s, m + 1, CharClass::Digit, 1) == 1 && span(
                s,
                m + 2,
                CharClass::DigitOrX,
                1,
            ) == 1 && char_at(s, m + 3, ')') {
                Some(m + 4)
            } else {
                None
            }
        } else {
            None
        }
    } else {
        None
    }
}

/// A date at `q`, with a demo flag before it when one is there: where it ends.
pub open spec fn dated_from(s: Seq<char>, q: int) -> Option<int> {
    match demo_paren(s, q) {
        Some(d) => if date_paren(s, d) is Some {
            date_paren(s, d)
        } else {
            date_paren(s, q)
        },
        None => date_paren(s, q),
    }
}

/// What may follow the title at `l`: an optional whitespace character, an
/// optional demo flag and a date, or else a whitespace character before `(`.
/// Where it ends.
pub open spec fn title_tail(s: Seq<char>, l: int) -> Option<int> {
    let ws = 0 <= l < s.len() && is_whitespace(s[l]);
    if ws && dated_from(s, l + 1) is Some {
        dated_from(s, l + 1)
    } else if dated_from(s, l) is Some {
        dated_from(s, l)
    } else if ws && char_at(s, l + 1, '(') {
        Some(l)
    } else {
        None
    }
}

/// The longest title, ending at `l` or before, that something may follow:
/// where the title ends, and where what follows it ends.
pub open spec fn title_split_from(s: Seq<char>, l: int) -> Option<(int, int)>
    decreases l,
{
    if l < 1 {
        None
    } else {
        match title_tail(s, l) {
            Some(e) => Some((l, e)),
            None => title_split_from(s, l - 1),
        }
    }
}

/// Where the first line of `s` ends.
pub open spec fn line_end(s: Seq<char>) -> int {
    match find_from(s, 0, seq!['\n']) {
        Some(q) => q,
        None => s.len() as int,
    }
}

/// The tags in parentheses from `p` on, one right after the other.
pub open spec fn tags_in(s: Seq<char>, p: int, open: char, close: char, acc: Seq<Seq<char>>) -> (
    int,
    Seq<Seq<char>>,
)
    decreases s.len() - p,
{
    match enclosed(s, p, open, close, close) {
        Some((a, b)) => if p < b + 1 <= s.len() {
            tags_in(s, b + 1, open, close, acc.push(s.subrange(a, b)))
        } else {
            (p, acc)
        },
        None => (p, acc),
    }
}

/// The title, the tags in parentheses after the publisher, and the flags in
/// brackets; `None` where no publisher follows the title.
pub open spec fn title_reading(s: Seq<char>) -> Option<(Seq<char>, Seq<Seq<char>>, Seq<Seq<char>>)> {
    match title_split_from(s, line_end(s)) {
        Some((l, e)) => {
            let p = e + run(s, e, CharClass::Is(' '));
            match enclosed(s, p, '(', ')', ')') {
                Some((a, b)) => {
                    let (q, tags) = tags_in(s, b + 1, '(', ')', seq![]);
                    let r = q + run(s, q, CharClass::Is(' '));
                    let (_, flags) = tags_in(s, r, '[', ']', seq![]);
                    Some((s.subrange(0, l), tags, flags))
                },
                None => None,
            }
        },
        None => None,
    }
}

/// The tags that make a name a pre-release.
pub open spec fn prerelease_word(t: Seq<char>) -> bool {
    t == "alpha"@ || t == "beta"@ || t == "preview"@ || t == "pre-release"@
}

/// The words that a part number follows.
pub open spec fn part_word(w: Seq<char>) -> bool {
    w == "Disc"@ || w == "Disk"@ || w == "File"@ || w == "Part"@ || w == "Tape"@
}

/// Whether a tag is read as a part: it is longer than four bytes and they
/// spell a part word.
pub open spec fn is_part_tag(tag: Seq<char>) -> bool {
    !prerelease_word(tag) && tag != "proto"@ && byte_len(tag) > 4 && part_word(
        bytes_slice(tag, 0, 4),
    )
}

/// The part number of a part tag: the digits that start at its fifth byte.
pub open spec fn tag_part(tag: Seq<char>) -> Option<i32> {
    let rest = tag.subrange(char_at_byte_from(tag, 5, 0).unwrap(), tag.len() as int);
    let n = run(rest, 0, CharClass::UniDigit) as int;
    if n > 0 {
        i32_value(rest.subrange(0, n))
    } else {
        None
    }
}

/// Where reading a tag slices bytes that do not fall between characters.
pub open spec fn tag_defined(tag: Seq<char>) -> bool {
    !prerelease_word(tag) && tag != "proto"@ && byte_len(tag) > 4 ==> char_at_byte_from(tag, 4, 0)
        is Some && (part_word(bytes_slice(tag, 0, 4)) ==> char_at_byte_from(tag, 5, 0) is Some)
}

/// What one tag changes: the development status or the part number.
pub open spec fn apply_title_tag(m: NameInfoModel, tag: Seq<char>) -> NameInfoModel {
    if prerelease_word(tag) {
        NameInfoModel { status: DevelopmentStatus::Prerelease, ..m }
    } else if tag == "proto"@ {
        NameInfoModel { status: DevelopmentStatus::Prototype, ..m }
    } else if is_part_tag(tag) {
        NameInfoModel { part_number: tag_part(tag), ..m }
    } else {
        m
    }
}

/// The tags applied in order.
pub open spec fn apply_title_tags(m: NameInfoModel, tags: Seq<Seq<char>>) -> NameInfoModel
    decreases tags.len(),
{
    if tags.len() == 0 {
        m
    } else {
        apply_title_tag(apply_title_tags(m, tags.drop_last()), tags.last())
    }
}

/// The regions of the first tag, from `i` on, that is a TOSEC region list.
pub open spec fn first_region(tags: Seq<Seq<char>>, i: int) -> Option<Seq<Region>>
    decreases tags.len() - i,
{
    if i < 0 || i >= tags.len() {
        None
    } else {
        match region_list(RegionFormat::TOSEC, tags[i]) {
            Ok((_, r)) => Some(r),
            Err(_) => first_region(tags, i + 1),
        }
    }
}

/// The first position from `p` on where the demo flag that ends the title
/// starts, after an optional whitespace character.
pub open spec fn demo_start(t: Seq<char>, p: int) -> Option<int>
    decreases t.len() - p,
{
    if p < 0 || p >= t.len() {
        None
    } else if (is_whitespace(t[p]) && demo_paren(t, p + 1) is Some) || demo_paren(t, p) is Some {
        Some(p)
    } else {
        demo_start(t, p + 1)
    }
}

/// Whether `t` ends, from `p` on, with `v` and digits and dots.
pub open spec fn v_version_at(t: Seq<char>, p: int) -> bool {
    let n = run(t, p + 1, CharClass::DigitOrDot) as int;
    char_at(t, p, 'v') && n > 0 && p + 1 + n == t.len()
}

/// Whether `t` ends, from `p` on, with `Rev ` and digits.
pub open spec fn rev_version_at(t: Seq<char>, p: int) -> bool {
    let n = run(t, p + 4, CharClass::Digit) as int;
    has_at(t, p, "Rev "@) && n > 0 && p + 4 + n == t.len()
}

/// The first position from `p` on where a version ends the title: `v`
/// versions first, then `Rev` versions; with the length of the prefix.
pub open spec fn version_start(t: Seq<char>, p: int, rev: bool) -> Option<int>
    decreases t.len() - p,
{
    if p < 0 || p >= t.len() {
        None
    } else if (if rev {
        rev_version_at(t, p)
    } else {
        v_version_at(t, p)
    }) {
        Some(p)
    } else {
        version_start(t, p + 1, rev)
    }
}

/// The version of the first tag, from `i` on, that is `v` and digits and dots.
pub open spec fn flag_version(tags: Seq<Seq<char>>, i: int) -> Option<Seq<char>>
    decreases tags.len() - i,
{
    if i < 0 || i >= tags.len() {
        None
    } else if v_version_at(tags[i], 0) {
        Some(tags[i].subrange(1, tags[i].len() as int))
    } else {
        flag_version(tags, i + 1)
    }
}

/// The title without the version at its end, and the version.
pub open spec fn title_version(t: Seq<char>) -> (Seq<char>, Option<Seq<char>>) {
    match version_start(t, 0, false) {
        Some(p) => (t.subrange(0, p), Some(t.subrange(p + 1, t.len() as int))),
        None => match version_start(t, 0, true) {
            Some(p) => (t.subrange(0, p), Some(t.subrange(p + 4, t.len() as int))),
            None => (t, None),
        },
    }
}

/// What a TOSEC name says by its title and tags: the title up to a demo flag
/// and without a version at its end, trimmed; the regions of the first tag
/// that is a region list; the status and part number that the tags give;
/// the version at the end of the title, else that of a `v` tag; a demo where
/// the title has a demo flag; unlicensed where a flag is `p`. `None` where
/// the name has no publisher after its title.
pub open spec fn tosec_title_info(s: Seq<char>) -> Option<NameInfoModel> {
    match title_reading(s) {
        Some((t0, tags, flags)) => {
            let (t1, demo) = match demo_start(t0, 0) {
                Some(p) => (t0.subrange(0, p), true),
                None => (t0, false),
            };
            let (t2, v) = title_version(t1);
            let version = if v is Some {
                v
            } else {
                flag_version(tags, 0)
            };
            let entry = trimmed(t2, 0, t2.len() as int);
            let m = NameInfoModel {
                entry_title: entry,
                release_title: release_title_of(entry),
                region: match first_region(tags, 0) {
                    Some(r) => r,
                    None => seq![Region::Unknown],
                },
                part_number: None,
                version: version,
                is_unlicensed: flags.contains("p"@),
                is_demo: demo,
                is_system: false,
                status: DevelopmentStatus::Release,
                naming_convention: NamingConvention::TOSEC,
            };
            Some(apply_title_tags(m, tags))
        },
        None => None,
    }
}

proof fn lemma_prerelease_tag_status(m: NameInfoModel, tags: Seq<Seq<char>>, i: int)
    requires
        0 <= i < tags.len(),
        tags[i] == "alpha"@ || tags[i] == "beta"@ || tags[i] == "preview"@ || tags[i]
            == "pre-release"@,
        forall|j: int| i < j < tags.len() ==> tags[j] != "proto"@,
    ensures
        apply_title_tags(m, tags).status == DevelopmentStatus::Prerelease,
    decreases tags.len(),
{
    let last = tags.last();
    if i == tags.len() - 1 {
        assert(prerelease_word(last));
    } else {
        let init = tags.drop_last();
        assert forall|j: int| i < j < init.len() implies init[j] != "proto"@ by {
            assert(init[j] == tags[j]);
        }
        assert(init[i] == tags[i]);
        lemma_prerelease_tag_status(m, init, i);
        assert(last != "proto"@);
    }
}

/// A TOSEC name whose tags after the publisher include `alpha`, `beta`,
/// `preview` or `pre-release`, with no `proto` after it, reads as a
/// pre-release.
pub proof fn law_prerelease_tags_give_prerelease(s: Seq<char>, i: int)
    requires
        title_reading(s) matches Some((_, tags, _)) && 0 <= i < tags.len() && (tags[i]
            == "alpha"@ || tags[i] == "beta"@ || tags[i] == "preview"@ || tags[i]
            == "pre-release"@) && forall|j: int| i < j < tags.len() ==> tags[j] != "proto"@,
    ensures
        tosec_title_info(s) matches Some(info) && info.status == DevelopmentStatus::Prerelease,
{
    let (t0, tags, flags) = title_reading(s).unwrap();
    let (t1, demo) = match demo_start(t0, 0) {
        Some(p) => (t0.subrange(0, p), true),
        None => (t0, false),
    };
    let (t2, v) = title_version(t1);
    let version = if v is Some {
        v
    } else {
        flag_version(tags, 0)
    };
    let entry = trimmed(t2, 0, t2.len() as int);
    let m = NameInfoModel {
        entry_title: entry,
        release_title: release_title_of(entry),
        region: match first_region(tags, 0) {
            Some(r) => r,
            None => seq![Region::Unknown],
        },
        part_number: None,
        version: version,
        is_unlicensed: flags.contains("p"@),
        is_demo: demo,
        is_system: false,
        status: DevelopmentStatus::Release,
        naming_convention: NamingConvention::TOSEC,
    };
    lemma_prerelease_tag_status(m, tags, i);
}

/// A tag reads as a pre-release exactly when it is `alpha`, `beta`, `preview`
/// or `pre-release`, and as a prototype exactly when it is `proto`.
pub proof fn law_status_words(m: NameInfoModel, tag: Seq<char>)
    ensures
        (apply_title_tag(m, tag).status == DevelopmentStatus::Prerelease && m.status
            != DevelopmentStatus::Prerelease) ==> (tag == "alpha"@ || tag == "beta"@ || tag
            == "preview"@ || tag == "pre-release"@),
        (tag == "alpha"@ || tag == "beta"@ || tag == "preview"@ || tag == "pre-release"@)
            ==> apply_title_tag(m, tag).status == DevelopmentStatus::Prerelease,
        tag == "proto"@ ==> apply_title_tag(m, tag).status == DevelopmentStatus::Prototype,
{
    reveal_strlit("alpha");
    reveal_strlit("beta");
    reveal_strlit("preview");
    reveal_strlit("pre-release");
    reveal_strlit("proto");
    assert("proto"@[0] != "alpha"@[0]);
    assert("proto"@.len() != "beta"@.len());
    assert("proto"@.len() != "preview"@.len());
    assert("proto"@.len() != "pre-release"@.len());
}

/// Where reading a name's tags slices bytes that do not fall between characters.
pub open spec fn tosec_title_defined(s: Seq<char>) -> bool {
    title_reading(s) matches Some((_, tags, _)) ==> forall|i: int|
        0 <= i < tags.len() ==> tag_defined(#[trigger] tags[i])
}


fn read_demo_paren(cs: &Vec<char>, p: usize) -> (res: Option<usize>)
    ensures
        match res {
            Some(e) => demo_paren(cs@, p as int) == Some(e as int) && p < e <= cs@.len(),
            None => demo_paren(cs@, p as int) is None,
        },
{
    let _len = cs.len();
    proof {
        reveal_strlit("(demo");
    }
    let a = match tag(cs, p, "(demo") {
        Some(a) => a,
        None => {
            return None;
        },
    };
    let b = match tag(cs, a, "-playable") {
        Some(x) => x,
        None => match tag(cs, a, "-kiosk") {
            Some(x) => x,
            None => match tag(cs, a, "-rolling") {
                Some(x) => x,
                None => match tag(cs, a, "-slideshow") {
                    Some(x) => x,
                    None => a,
                },
            },
        },
    };
    if is_char_at(cs, b, ')') {
        Some(b + 1)
    } else if is_char_at(cs, a, ')') {
        Some(a + 1)
    } else {
        None
    }
}

fn span_at(cs: &Vec<char>, p: usize, cls: CharClass, max: usize) -> (res: usize)
    ensures
        res == span(cs@, p as int, cls, max as nat),
{
    if p > cs.len() {
        proof {
            reveal(span);
        }
        return 0;
    }
    take_while(cs, p, cls, max)
}

fn read_date_paren(cs: &Vec<char>, p: usize) -> (res: Option<usize>)
    ensures
        match res {
            Some(e) => date_paren(cs@, p as int) == Some(e as int) && p < e <= cs@.len(),
            None => date_paren(cs@, p as int) is None,
        },
{
    let _len = cs.len();
    if p >= cs.len() {
        return None;
    }
    if !(is_char_at(cs, p, '(') && (tag_at(cs, p + 1, "19") || tag_at(cs, p + 1, "20"))) {
        return None;
    }
    proof {
        reveal_strlit("19");
        reveal_strlit("20");
    }
    if span_at(cs, p + 3, CharClass::UniDigitOrX, 2) == 2 {
        proof {
            crate::text::lemma_span(cs@, p + 3, CharClass::UniDigitOrX, 2);
        }
        if is_char_at(cs, p + 5, ')') {
            return Some(p + 6);
        }
    }
    if span_at(cs, p + 3, CharClass::DigitOrX, 2) != 2 {
        return None;
    }
    proof {
        crate::text::lemma_span(cs@, p + 3, CharClass::DigitOrX, 2);
    }
    let y = p + 5;
    if !(is_char_at(cs, y, '-') && span_at(cs, y + 1, CharClass::Digit, 2) == 2) {
        return None;
    }
    proof {
        crate::text::lemma_span(cs@, y + 1, CharClass::Digit, 2);
    }
    let m = y + 3;
    if is_char_at(cs, m, ')') {
        return Some(m + 1);
    }
    if is_char_at(cs, m, '-') && span_at(cs, m + 1, CharClass::Digit, 1) == 1 && span_at(
        cs,
        m + 2,
        CharClass::DigitOrX,
        1,
    ) == 1 && is_char_at(cs, m + 3, ')') {
        Some(m + 4)
    } else {
        None
    }
}

fn read_dated_from(cs: &Vec<char>, q: usize) -> (res: Option<usize>)
    ensures
        match res {
            Some(e) => dated_from(cs@, q as int) == Some(e as int) && q < e <= cs@.len(),
            None => dated_from(cs@, q as int) is None,
        },
{
    let _len = cs.len();
    match read_demo_paren(cs, q) {
        Some(d) => match read_date_paren(cs, d) {
            Some(e) => Some(e),
            None => read_date_paren(cs, q),
        },
        None => read_date_paren(cs, q),
    }
}

fn read_title_tail(cs: &Vec<char>, l: usize) -> (res: Option<usize>)
    requires
        l <= cs@.len(),
    ensures
        match res {
            Some(e) => title_tail(cs@, l as int) == Some(e as int) && l <= e <= cs@.len(),
            None => title_tail(cs@, l as int) is None,
        },
{
    let ws = l < cs.len() && whitespace(cs[l]);
    if ws {
        if let Some(e) = read_dated_from(cs, l + 1) {
            return Some(e);
        }
    }
    if let Some(e) = read_dated_from(cs, l) {
        return Some(e);
    }
    if ws && is_char_at(cs, l + 1, '(') {
        Some(l)
    } else {
        None
    }
}

fn read_tags_in(s: &str, cs: &Vec<char>, p0: usize, open: char, close: char) -> (res: (
    usize,
    Vec<String>,
))
    requires
        cs@ == s@,
        p0 <= cs@.len(),
    ensures
        tags_in(cs@, p0 as int, open, close, seq![]) == (res.0 as int, views(res.1@)),
        p0 <= res.0 <= cs@.len(),
{
    let _len = cs.len();
    let mut p = p0;
    let mut acc: Vec<String> = Vec::new();
    assert(views(acc@) =~= Seq::<Seq<char>>::empty());
    loop
        invariant
            cs@ == s@,
            _len == cs@.len(),
            p0 <= p <= cs@.len(),
            tags_in(cs@, p0 as int, open, close, seq![]) == tags_in(
                cs@,
                p as int,
                open,
                close,
                views(acc@),
            ),
        ensures
            p0 <= p <= cs@.len(),
            tags_in(cs@, p0 as int, open, close, seq![]) == (p as int, views(acc@)),
        decreases cs@.len() - p,
    {
        match enclosed_at(cs, p, open, close, close) {
            Some((a, b)) => {
                proof {
                    crate::text::lemma_enclosed_bounds(cs@, p as int, open, close, close);
                }
                let t = substr(s, a, b);
                proof {
                    lemma_views_push(acc@, t);
                }
                acc.push(t);
                p = b + 1;
            },
            None => {
                break;
            },
        }
    }
    (p, acc)
}

fn spaces_after(cs: &Vec<char>, p: usize) -> (res: usize)
    requires
        p <= cs@.len(),
    ensures
        res == p + run(cs@, p as int, CharClass::Is(' ')),
        p <= res <= cs@.len(),
{
    let _len = cs.len();
    p + run_len(cs, p, CharClass::Is(' '))
}

fn read_title_reading(s: &str, cs: &Vec<char>) -> (res: Option<(String, Vec<String>, Vec<String>)>)
    requires
        cs@ == s@,
    ensures
        match res {
            Some((t, tags, flags)) => title_reading(cs@) == Some((t@, views(tags@), views(flags@))),
            None => title_reading(cs@) is None,
        },
{
    let _len = cs.len();
    proof {
        reveal_strlit("\n");
        assert("\n"@ =~= seq!['\n']);
        crate::text::lemma_find_from(cs@, 0, seq!['\n']);
    }
    let mut l = match find_tag(cs, 0, "\n") {
        Some(q) => q,
        None => cs.len(),
    };
    let ghost l0 = l as int;
    assert(l0 == line_end(cs@));
    let found: Option<usize>;
    loop
        invariant
            l <= cs@.len(),
            title_split_from(cs@, l0) == title_split_from(cs@, l as int),
        ensures
            match found {
                Some(e) => title_split_from(cs@, l0) == Some((l as int, e as int)) && l <= e
                    <= cs@.len(),
                None => title_split_from(cs@, l0) is None,
            },
        decreases l,
    {
        if l < 1 {
            found = None;
            break;
        }
        match read_title_tail(cs, l) {
            Some(e) => {
                found = Some(e);
                break;
            },
            None => {
                l = l - 1;
            },
        }
    }
    let e = match found {
        Some(e) => e,
        None => {
            return None;
        },
    };
    let p = spaces_after(cs, e);
    match enclosed_at(cs, p, '(', ')', ')') {
        Some((a, b)) => {
            let (q, tags) = read_tags_in(s, cs, b + 1, '(', ')');
            let r = spaces_after(cs, q);
            let (_, flags) = read_tags_in(s, cs, r, '[', ']');
            Some((substr(s, 0, l), tags, flags))
        },
        None => None,
    }
}

fn read_demo_start(cs: &Vec<char>) -> (res: Option<usize>)
    ensures
        match res {
            Some(p) => demo_start(cs@, 0) == Some(p as int) && p < cs@.len(),
            None => demo_start(cs@, 0) is None,
        },
{
    let mut p: usize = 0;
    while p < cs.len()
        invariant
            p <= cs@.len(),
            demo_start(cs@, 0) == demo_start(cs@, p as int),
        decreases cs@.len() - p,
    {
        if (whitespace(cs[p]) && read_demo_paren(cs, p + 1).is_some()) || read_demo_paren(
            cs,
            p,
        ).is_some() {
            return Some(p);
        }
        p = p + 1;
    }
    None
}

fn read_version_start(cs: &Vec<char>, rev: bool) -> (res: Option<usize>)
    ensures
        match res {
            Some(p) => version_start(cs@, 0, rev) == Some(p as int) && p < cs@.len() && (if rev {
                rev_version_at(cs@, p as int)
            } else {
                v_version_at(cs@, p as int)
            }),
            None => version_start(cs@, 0, rev) is None,
        },
{
    proof {
        reveal_strlit("Rev ");
    }
    let len = cs.len();
    let mut p: usize = 0;
    while p < len
        invariant
            len == cs@.len(),
            p <= cs@.len(),
            version_start(cs@, 0, rev) == version_start(cs@, p as int, rev),
        decreases cs@.len() - p,
    {
        proof {
            reveal_strlit("Rev ");
        }
        let hit = if rev {
            tag_at(cs, p, "Rev ") && {
                let n = run_len(cs, p + 4, CharClass::Digit);
                n > 0 && p + 4 + n == len
            }
        } else {
            is_char_at(cs, p, 'v') && {
                let n = run_len(cs, p + 1, CharClass::DigitOrDot);
                n > 0 && p + 1 + n == len
            }
        };
        if hit {
            return Some(p);
        }
        p = p + 1;
    }
    None
}

fn is_v_version(t: &str) -> (res: bool)
    ensures
        res == v_version_at(t@, 0),
{
    let cs = chars_of(t);
    let len = cs.len();
    is_char_at(&cs, 0, 'v') && {
        let n = run_len(&cs, 1, CharClass::DigitOrDot);
        n > 0 && 1 + n == len
    }
}

fn read_flag_version(tags: &Vec<String>) -> (res: Option<String>)
    ensures
        opt_view(res) == flag_version(views(tags@), 0),
{
    let ghost tv = views(tags@);
    let mut i: usize = 0;
    while i < tags.len()
        invariant
            tv == views(tags@),
            i <= tags@.len(),
            flag_version(tv, 0) == flag_version(tv, i as int),
        decreases tags@.len() - i,
    {
        let t = tags[i].as_str();
        if is_v_version(t) {
            return Some(substr(t, 1, t.unicode_len()));
        }
        i = i + 1;
    }
    None
}

fn read_first_region(tags: &Vec<String>) -> (res: Option<Vec<Region>>)
    ensures
        match res {
            Some(r) => first_region(views(tags@), 0) == Some(r@),
            None => first_region(views(tags@), 0) is None,
        },
{
    let ghost tv = views(tags@);
    let mut i: usize = 0;
    while i < tags.len()
        invariant
            tv == views(tags@),
            i <= tags@.len(),
            first_region(tv, 0) == first_region(tv, i as int),
        decreases tags@.len() - i,
    {
        match Region::try_from_tosec_region(tags[i].as_str()) {
            Ok(r) => {
                return Some(r);
            },
            Err(_) => {},
        }
        i = i + 1;
    }
    None
}

fn flags_have_p(flags: &Vec<String>) -> (res: bool)
    ensures
        res == views(flags@).contains("p"@),
{
    let ghost fv = views(flags@);
    let mut i: usize = 0;
    while i < flags.len()
        invariant
            fv == views(flags@),
            i <= flags@.len(),
            forall|j: int| 0 <= j < i ==> fv[j] != "p"@,
        decreases flags@.len() - i,
    {
        if str_eq(flags[i].as_str(), "p") {
            assert(fv[i as int] == "p"@);
            return true;
        }
        i = i + 1;
    }
    false
}

fn prerelease(t: &str) -> (res: bool)
    ensures
        res == prerelease_word(t@),
{
    str_eq(t, "alpha") || str_eq(t, "beta") || str_eq(t, "preview") || str_eq(t, "pre-release")
}

fn read_tag_part(t: &str) -> (res: Option<i32>)
    requires
        char_at_byte_from(t@, 5, 0) is Some,
    ensures
        res == tag_part(t@),
{
    let cs = chars_of(t);
    let a = match char_at_byte(&cs, 5) {
        Some(a) => a,
        None => {
            return None;
        },
    };
    let rest = substr(t, a, cs.len());
    let rc = chars_of(rest.as_str());
    let n = run_len(&rc, 0, CharClass::UniDigit);
    if n > 0 {
        let d = substr(rest.as_str(), 0, n);
        parse_i32(d.as_str())
    } else {
        None
    }
}

/// Whether the tag is a part tag; defined where its fifth byte starts a character.
fn part_tag(t: &str) -> (res: bool)
    requires
        tag_defined(t@),
    ensures
        res == is_part_tag(t@),
{
    if prerelease(t) || str_eq(t, "proto") {
        return false;
    }
    let cs = chars_of(t);
    if !bytes_over(&cs, 4) {
        return false;
    }
    let i = match char_at_byte(&cs, 4) {
        Some(i) => i,
        None => {
            return false;
        },
    };
    proof {
        assert(cs@.subrange(0, 0) =~= Seq::<char>::empty());
        assert(char_at_byte_from(cs@, 0, 0) == Some(0int));
    }
    range_is(&cs, 0, i, "Disc") || range_is(&cs, 0, i, "Disk") || range_is(&cs, 0, i, "File")
        || range_is(&cs, 0, i, "Part") || range_is(&cs, 0, i, "Tape")
}

fn title_info(s: &str) -> (res: Option<NameInfo>)
    requires
        tosec_title_defined(s@),
    ensures
        match res {
            Some(info) => tosec_title_info(s@) == Some(info@),
            None => tosec_title_info(s@) is None,
        },
{
    let cs = chars_of(s);
    let (t0, tags, flags) = match read_title_reading(s, &cs) {
        Some(x) => x,
        None => {
            return None;
        },
    };
    let tc0 = chars_of(t0.as_str());
    let (t1, demo) = match read_demo_start(&tc0) {
        Some(p) => (substr(t0.as_str(), 0, p), true),
        None => (t0.clone(), false),
    };
    assert(t1@ == (match demo_start(t0@, 0) {
        Some(p) => t0@.subrange(0, p),
        None => t0@,
    }));
    let tc1 = chars_of(t1.as_str());
    let _n1 = tc1.len();
    let (t2, v) = match read_version_start(&tc1, false) {
        Some(p) => (substr(t1.as_str(), 0, p), Some(substr(t1.as_str(), p + 1, tc1.len()))),
        None => match read_version_start(&tc1, true) {
            Some(p) => (substr(t1.as_str(), 0, p), Some(substr(t1.as_str(), p + 4, tc1.len()))),
            None => (t1.clone(), None),
        },
    };
    assert((t2@, opt_view(v)) == title_version(t1@));
    let version = match v {
        Some(x) => Some(x),
        None => read_flag_version(&tags),
    };
    let tc2 = chars_of(t2.as_str());
    let (a, b) = trim_range(&tc2, 0, tc2.len());
    let entry = substr(t2.as_str(), a, b);
    let release = release_title_from(entry.as_str());
    let region = match read_first_region(&tags) {
        Some(r) => r,
        None => vec![Region::Unknown],
    };
    let mut info = NameInfo {
        entry_title: entry,
        release_title: release,
        region,
        part_number: None,
        version,
        is_unlicensed: flags_have_p(&flags),
        is_demo: demo,
        is_system: false,
        status: DevelopmentStatus::Release,
        naming_convention: NamingConvention::TOSEC,
    };
    let ghost tv = views(tags@);
    let ghost m0 = info@;
    proof {
        assert(tv.subrange(0, 0) =~= Seq::<Seq<char>>::empty());
        assert(title_reading(s@) == Some((t0@, tv, views(flags@))));
        assert(info.region@ == match first_region(tv, 0) {
            Some(r) => r,
            None => seq![Region::Unknown],
        });
        assert(opt_view(info.version) == (if title_version(t1@).1 is Some {
            title_version(t1@).1
        } else {
            flag_version(tv, 0)
        }));
        assert(info@.entry_title == trimmed(t2@, 0, t2@.len() as int));
        let ghost sm = NameInfoModel {
            entry_title: trimmed(t2@, 0, t2@.len() as int),
            release_title: release_title_of(trimmed(t2@, 0, t2@.len() as int)),
            region: match first_region(tv, 0) {
                Some(r) => r,
                None => seq![Region::Unknown],
            },
            part_number: None,
            version: if title_version(t1@).1 is Some {
                title_version(t1@).1
            } else {
                flag_version(tv, 0)
            },
            is_unlicensed: views(flags@).contains("p"@),
            is_demo: demo_start(t0@, 0) is Some,
            is_system: false,
            status: DevelopmentStatus::Release,
            naming_convention: NamingConvention::TOSEC,
        };
        assert(m0 == sm);
    }
    let mut i: usize = 0;
    while i < tags.len()
        invariant
            tv == views(tags@),
            i <= tags@.len(),
            forall|j: int| 0 <= j < tv.len() ==> tag_defined(#[trigger] tv[j]),
            info@ == apply_title_tags(m0, tv.subrange(0, i as int)),
        decreases tags@.len() - i,
    {
        let t = tags[i].as_str();
        proof {
            assert(tv.subrange(0, i + 1).drop_last() =~= tv.subrange(0, i as int));
            assert(tv[i as int] == t@);
        }
        if prerelease(t) {
            info.status = DevelopmentStatus::Prerelease;
        } else if str_eq(t, "proto") {
            info.status = DevelopmentStatus::Prototype;
        } else if part_tag(t) {
            info.part_number = read_tag_part(t);
        }
        i = i + 1;
    }
    proof {
        assert(tv.subrange(0, tv.len() as int) =~= tv);
    }
    Some(info)
}

/// Reads a name in the TOSEC naming convention.
fn tag_is_defined(t: &str) -> (res: bool)
    ensures
        res == tag_defined(t@),
{
    if prerelease(t) || str_eq(t, "proto") {
        return true;
    }
    let cs = chars_of(t);
    if !bytes_over(&cs, 4) {
        return true;
    }
    let i = match char_at_byte(&cs, 4) {
        Some(i) => i,
        None => {
            return false;
        },
    };
    proof {
        assert(cs@.subrange(0, 0) =~= Seq::<char>::empty());
        assert(char_at_byte_from(cs@, 0, 0) == Some(0int));
    }
    let word = range_is(&cs, 0, i, "Disc") || range_is(&cs, 0, i, "Disk") || range_is(
        &cs,
        0,
        i,
        "File",
    ) || range_is(&cs, 0, i, "Part") || range_is(&cs, 0, i, "Tape");
    !word || char_at_byte(&cs, 5).is_some()
}

/// Whether reading the tags of the TOSEC name slices only bytes that fall
/// between characters; `try_from_tosec` reads exactly these names.
pub fn tosec_title_readable(name: &str) -> (res: bool)
    ensures
        res == tosec_title_defined(name@),
{
    let cs = chars_of(name);
    let (t0, tags, flags) = match read_title_reading(name, &cs) {
        Some(x) => x,
        None => {
            assert(tosec_title_defined(name@));
            return true;
        },
    };
    let ghost tv = views(tags@);
    assert(title_reading(name@) == Some((t0@, tv, views(flags@))));
    let mut i: usize = 0;
    while i < tags.len()
        invariant
            tv == views(tags@),
            title_reading(name@) == Some((t0@, tv, views(flags@))),
            i <= tags@.len(),
            forall|j: int| 0 <= j < i ==> tag_defined(#[trigger] tv[j]),
        decreases tags@.len() - i,
    {
        if !tag_is_defined(tags[i].as_str()) {
            assert(!tag_defined(tv[i as int]));
            assert(!tosec_title_defined(name@)) by {
                if tosec_title_defined(name@) {
                    let (_, tg, _) = title_reading(name@).unwrap();
                    assert(tg == tv);
                    assert(tag_defined(tg[i as int]));
                }
            }
            return false;
        }
        i = i + 1;
    }
    assert(forall|j: int| 0 <= j < tv.len() ==> tag_defined(#[trigger] tv[j]));
    assert(tosec_title_defined(name@));
    true
}

/// Reads a name in the TOSEC naming convention. Reading its tags slices
/// bytes of them, which must fall between characters.
pub trait TOSECNameable: Sized {
    fn try_from_tosec(name: &str) -> Result<Self, ParseError>
        requires
            tosec_title_defined(name@),
    ;
}

impl TOSECNameable for NameInfo {
    /// What a TOSEC name says about its game by its title and tags; an error
    /// where no publisher follows the title.
    fn try_from_tosec(name: &str) -> (res: Result<NameInfo, ParseError>)
        ensures
            match res {
                Ok(info) => tosec_title_info(name@) == Some(info@),
                Err(e) => {
                    &&& tosec_title_info(name@) is None
                    &&& e matches ParseError::BadFileNameError(c, n) && c
                        == NamingConvention::TOSEC && n@ == name@
                },
            },
    {
        match title_info(name) {
            Some(info) => Ok(info),
            None => Err(ParseError::BadFileNameError(NamingConvention::TOSEC, owned(name))),
        }
    }
}

// ---------------------------------------------------------------------------
// Single tags
// ---------------------------------------------------------------------------
/// A tag read at the start of a string: what remains of the string, and the token.
pub open spec fn tag_result(s: Seq<char>, r: Read, res: Option<(String, TOSECToken)>) -> bool {
    match (r, res) {
        (Some((j, t)), Some((rest, tok))) => rest@ == s.subrange(j, s.len() as int) && tok@ == t,
        (None, None) => true,
        _ => false,
    }
}

/// Tags read at the start of a string: what remains of the string, and the tokens.
pub open spec fn tags_result(s: Seq<char>, r: Reads, res: Option<(String, Vec<TOSECToken>)>) -> bool {
    match (r, res) {
        (Some((j, t)), Some((rest, toks))) => rest@ == s.subrange(j, s.len() as int)
            && token_models(toks@) == t,
        (None, None) => true,
        _ => false,
    }
}

fn finish(s: &str, cs: &Vec<char>, r: Option<(usize, TOSECToken)>) -> (res: Option<
    (String, TOSECToken),
>)
    requires
        cs@ == s@,
        r matches Some((j, _)) ==> j <= cs@.len(),
    ensures
        tag_result(s@, read_of(r), res),
{
    match r {
        Some((j, t)) => Some((substr(s, j, cs.len()), t)),
        None => None,
    }
}

fn finish_all(s: &str, cs: &Vec<char>, r: Option<(usize, Vec<TOSECToken>)>) -> (res: Option<
    (String, Vec<TOSECToken>),
>)
    requires
        cs@ == s@,
        r matches Some((j, _)) ==> j <= cs@.len(),
    ensures
        tags_result(s@, reads_of(r), res),
{
    match r {
        Some((j, t)) => Some((substr(s, j, cs.len()), t)),
        None => None,
    }
}

/// Reads languages in parentheses, such as `(en-ja)` or `(M6)`.
pub fn parse_language_tag(input: &str) -> (res: Option<(String, TOSECToken)>)
    ensures
        tag_result(input@, language_tag(input@, 0), res),
{
    let cs = chars_of(input);
    let r = read_language_tag(input, &cs, 0);
    finish(input, &cs, r)
}

/// Reads a dump info flag with the code `code`, such as `[cr2 Crack]`.
pub fn parse_dumpinfo_tag(code: &str, input: &str) -> (res: Option<(String, TOSECToken)>)
    ensures
        tag_result(input@, dumpinfo_tag(input@, 0, code@), res),
{
    let cs = chars_of(input);
    let r = read_dumpinfo_tag(input, &cs, 0, code);
    finish(input, &cs, r)
}

/// Reads media parts without parentheses, such as `Disc 2 of 2 Side C`.
pub fn parse_media(input: &str) -> (res: Option<(String, TOSECToken)>)
    ensures
        tag_result(input@, media(input@, 0), res),
{
    let cs = chars_of(input);
    let r = read_media(input, &cs, 0);
    finish(input, &cs, r)
}

/// Reads a version, such as `v1.0a` or `Rev 1b`.
pub fn parse_version_string(input: &str) -> (res: Option<(String, TOSECToken)>)
    ensures
        tag_result(input@, version_string(input@, 0), res),
{
    let cs = chars_of(input);
    let r = read_version_string(input, &cs, 0);
    finish(input, &cs, r)
}

/// Reads a date without parentheses, such as `199x-2x-10`.
pub fn parse_date(input: &str) -> (res: Option<(String, Vec<TOSECToken>)>)
    ensures
        tags_result(input@, date(input@, 0), res),
{
    let cs = chars_of(input);
    let r = read_date(input, &cs, 0);
    finish_all(input, &cs, r)
}

/// Reads a region list in parentheses, such as `(US-ZZ)`.
pub fn parse_region_tag(input: &str) -> (res: Option<(String, TOSECToken)>)
    ensures
        tag_result(input@, region_tag(input@, 0), res),
{
    let cs = chars_of(input);
    let r = read_region_tag(input, &cs, 0);
    finish(input, &cs, r)
}

/// Reads publishers without parentheses, such as `Smith, R. - White, P.S.`.
pub fn parse_publisher(input: &str) -> (res: Option<(String, TOSECToken)>)
    ensures
        tag_result(input@, publisher(input@, 0), res),
{
    let cs = chars_of(input);
    let r = read_publisher(input, &cs, 0);
    finish(input, &cs, r)
}

/// Reads publishers in parentheses, such as `(Smith, R. - White, P.S.)`.
pub fn parse_publisher_tag(input: &str) -> (res: Option<(String, TOSECToken)>)
    ensures
        tag_result(input@, publisher_tag(input@, 0), res),
{
    let cs = chars_of(input);
    let r = read_publisher_tag(input, &cs, 0);
    finish(input, &cs, r)
}

} // verus!
