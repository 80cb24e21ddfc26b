//! The GoodTools naming convention: a title followed by codes in parentheses
//! and brackets, such as `Fire Emblem (J) [hM04][b1]`.

use vstd::prelude::*;
use crate::error::ParseError;
use crate::naming::common::{FlagType, NameInfo};
use crate::region::{region_list, Region, RegionFormat};
use crate::text::{
    char_at, char_end, char_tag, chars_of, enclosed, enclosed_at, find_from, find_tag, has_at,
    lemma_find_from, opt_view, owned, range_is, run, run_len, span, substr, tag, tag_at, tag_end,
    take_while, views, CharClass,
};

verus! {

/// Whether a translation is the most recent one.
#[derive(Debug, Clone, Copy, PartialEq, Eq, Structural)]
pub enum TranslationStatus {
    Recent,
    Outdated,
}

/// The GoodTools tool that produced a name.
#[derive(Debug, Clone, Copy, PartialEq, Eq, Structural)]
pub enum GoodTool {
    Generic,
    Good2600,
    Good5200,
    Good7800,
    GoodChaF,
    GoodCoCo,
    GoodCol,
    GoodCPC,
    GoodGB64,
    GoodGBA,
    GoodGBx,
    GoodGCOM,
    GoodGen,
    GoodGG,
    GoodINTV,
    GoodJag,
    GoodLynx,
    GoodMO5,
    GoodMSX1,
    GoodMSX2,
    GoodMTX,
    GoodN64,
    GoodNES,
    GoodNGPx,
    GoodOric,
    GoodPCE,
    GoodPico,
    GoodPSID,
    GoodSAMC,
    GoodSMS,
    GoodSNES,
    GoodSPC,
    GoodSV,
    GoodVBoy,
    GoodVect,
    GoodWSx,
}

/// The tool that a tool name, with or without its `Good` prefix, stands for.
pub open spec fn tool_named(name: Seq<char>) -> GoodTool {
    let s = if has_at(name, 0, "Good"@) {
        name.subrange(4, name.len() as int)
    } else {
        name
    };
    if s == "2600"@ {
        GoodTool::Good2600
    } else if s == "5200"@ {
        GoodTool::Good5200
    } else if s == "7800"@ {
        GoodTool::Good7800
    } else if s == "ChaF"@ {
        GoodTool::GoodChaF
    } else if s == "CoCo"@ {
        GoodTool::GoodCoCo
    } else if s == "Col"@ {
        GoodTool::GoodCol
    } else if s == "CPC"@ {
        GoodTool::GoodCPC
    } else if s == "GB64"@ {
        GoodTool::GoodGB64
    } else if s == "GBA"@ {
        GoodTool::GoodGBA
    } else if s == "GBx"@ {
        GoodTool::GoodGBx
    } else if s == "GCOM"@ {
        GoodTool::GoodGCOM
    } else if s == "Gen"@ {
        GoodTool::GoodGen
    } else if s == "GG"@ {
        GoodTool::GoodGG
    } else if s == "INTV"@ {
        GoodTool::GoodINTV
    } else if s == "Jag"@ {
        GoodTool::GoodJag
    } else if s == "Lynx"@ {
        GoodTool::GoodLynx
    } else if s == "MO5"@ {
        GoodTool::GoodMO5
    } else if s == "MSX1"@ {
        GoodTool::GoodMSX1
    } else if s == "MSX2"@ {
        GoodTool::GoodMSX2
    } else if s == "MTX"@ {
        GoodTool::GoodMTX
    } else if s == "N64"@ {
        GoodTool::GoodN64
    } else if s == "NES"@ {
        GoodTool::GoodNES
    } else if s == "NGPx"@ {
        GoodTool::GoodNGPx
    } else if s == "Oric"@ {
        GoodTool::GoodOric
    } else if s == "PCE"@ {
        GoodTool::GoodPCE
    } else if s == "Pico"@ {
        GoodTool::GoodPico
    } else if s == "PSID"@ {
        GoodTool::GoodPSID
    } else if s == "SAMC"@ {
        GoodTool::GoodSAMC
    } else if s == "SMS"@ {
        GoodTool::GoodSMS
    } else if s == "SNES"@ {
        GoodTool::GoodSNES
    } else if s == "SPC"@ {
        GoodTool::GoodSPC
    } else if s == "SV"@ {
        GoodTool::GoodSV
    } else if s == "VBoy"@ {
        GoodTool::GoodVBoy
    } else if s == "Vect"@ {
        GoodTool::GoodVect
    } else if s == "WSx"@ {
        GoodTool::GoodWSx
    } else {
        GoodTool::Generic
    }
}

impl GoodTool {
    /// The generic tool.
    pub fn default() -> (res: GoodTool)
        ensures
            res == GoodTool::Generic,
    {
        GoodTool::Generic
    }

    /// The tool that a tool name, such as `GoodNES` or `NES`, stands for.
    pub fn from(tool: &str) -> (res: GoodTool)
        ensures
            res == tool_named(tool@),
    {
        let cs = chars_of(tool);
        let n = cs.len();
        proof {
            reveal_strlit("Good");
        }
        let a: usize = if tag_at(&cs, 0, "Good") {
            4
        } else {
            0
        };
        assert(cs@.subrange(a as int, n as int) =~= (if has_at(tool@, 0, "Good"@) {
            tool@.subrange(4, tool@.len() as int)
        } else {
            tool@
        }));
        if range_is(&cs, a, n, "2600") {
            GoodTool::Good2600
        } else if range_is(&cs, a, n, "5200") {
            GoodTool::Good5200
        } else if range_is(&cs, a, n, "7800") {
            GoodTool::Good7800
        } else if range_is(&cs, a, n, "ChaF") {
            GoodTool::GoodChaF
        } else if range_is(&cs, a, n, "CoCo") {
            GoodTool::GoodCoCo
        } else if range_is(&cs, a, n, "Col") {
            GoodTool::GoodCol
        } else if range_is(&cs, a, n, "CPC") {
            GoodTool::GoodCPC
        } else if range_is(&cs, a, n, "GB64") {
            GoodTool::GoodGB64
        } else if range_is(&cs, a, n, "GBA") {
            GoodTool::GoodGBA
        } else if range_is(&cs, a, n, "GBx") {
            GoodTool::GoodGBx
        } else if range_is(&cs, a, n, "GCOM") {
            GoodTool::GoodGCOM
        } else if range_is(&cs, a, n, "Gen") {
            GoodTool::GoodGen
        } else if range_is(&cs, a, n, "GG") {
            GoodTool::GoodGG
        } else if range_is(&cs, a, n, "INTV") {
            GoodTool::GoodINTV
        } else if range_is(&cs, a, n, "Jag") {
            GoodTool::GoodJag
        } else if range_is(&cs, a, n, "Lynx") {
            GoodTool::GoodLynx
        } else if range_is(&cs, a, n, "MO5") {
            GoodTool::GoodMO5
        } else if range_is(&cs, a, n, "MSX1") {
            GoodTool::GoodMSX1
        } else if range_is(&cs, a, n, "MSX2") {
            GoodTool::GoodMSX2
        } else if range_is(&cs, a, n, "MTX") {
            GoodTool::GoodMTX
        } else if range_is(&cs, a, n, "N64") {
            GoodTool::GoodN64
        } else if range_is(&cs, a, n, "NES") {
            GoodTool::GoodNES
        } else if range_is(&cs, a, n, "NGPx") {
            GoodTool::GoodNGPx
        } else if range_is(&cs, a, n, "Oric") {
            GoodTool::GoodOric
        } else if range_is(&cs, a, n, "PCE") {
            GoodTool::GoodPCE
        } else if range_is(&cs, a, n, "Pico") {
            GoodTool::GoodPico
        } else if range_is(&cs, a, n, "PSID") {
            GoodTool::GoodPSID
        } else if range_is(&cs, a, n, "SAMC") {
            GoodTool::GoodSAMC
        } else if range_is(&cs, a, n, "SMS") {
            GoodTool::GoodSMS
        } else if range_is(&cs, a, n, "SNES") {
            GoodTool::GoodSNES
        } else if range_is(&cs, a, n, "SPC") {
            GoodTool::GoodSPC
        } else if range_is(&cs, a, n, "SV") {
            GoodTool::GoodSV
        } else if range_is(&cs, a, n, "VBoy") {
            GoodTool::GoodVBoy
        } else if range_is(&cs, a, n, "Vect") {
            GoodTool::GoodVect
        } else if range_is(&cs, a, n, "WSx") {
            GoodTool::GoodWSx
        } else {
            GoodTool::Generic
        }
    }
}

/// A token in a GoodTools filename.
#[derive(Debug, PartialEq, Eq)]
pub enum GoodToolsToken {
    Title(String),
    /// The region codes as written, and the regions they stand for.
    Region(Vec<String>, Vec<Region>),
    Year(String),
    /// `(M#)`: the number of languages.
    Multilanguage(String),
    /// `[T+...]` or `[T-...]`.
    Translation(TranslationStatus, String),
    /// The version tag (`REV`, `V`, `V ` or `V_`), the version, and what
    /// follows it.
    Version(String, String, Option<String>),
    /// `(Vol #)`
    Volume(String),
    /// The games of a several-in-one entry, and their separator.
    NInOne(Vec<String>, Option<String>),
    /// A dump code: the code, its number, its type, a `+` or `-`, the number
    /// of arguments, and the arguments.
    DumpCode(String, Option<String>, Option<String>, Option<String>, Option<String>, Option<String>),
    /// `(... Hack)`: the hacked game, when named.
    GameHack(Option<String>),
    Media(String, String, Option<String>),
    Flag(FlagType, String),
}

pub enum GoodToolsTokenModel {
    Title(Seq<char>),
    Region(Seq<Seq<char>>, Seq<Region>),
    Year(Seq<char>),
    Multilanguage(Seq<char>),
    Translation(TranslationStatus, Seq<char>),
    Version(Seq<char>, Seq<char>, Option<Seq<char>>),
    Volume(Seq<char>),
    NInOne(Seq<Seq<char>>, Option<Seq<char>>),
    DumpCode(
        Seq<char>,
        Option<Seq<char>>,
        Option<Seq<char>>,
        Option<Seq<char>>,
        Option<Seq<char>>,
        Option<Seq<char>>,
    ),
    GameHack(Option<Seq<char>>),
    Media(Seq<char>, Seq<char>, Option<Seq<char>>),
    Flag(FlagType, Seq<char>),
}

impl View for GoodToolsToken {
    type V = GoodToolsTokenModel;

    open spec fn view(&self) -> GoodToolsTokenModel {
        match self {
            GoodToolsToken::Title(t) => GoodToolsTokenModel::Title(t@),
            GoodToolsToken::Region(s, r) => GoodToolsTokenModel::Region(views(s@), r@),
            GoodToolsToken::Year(y) => GoodToolsTokenModel::Year(y@),
            GoodToolsToken::Multilanguage(m) => GoodToolsTokenModel::Multilanguage(m@),
            GoodToolsToken::Translation(st, t) => GoodToolsTokenModel::Translation(*st, t@),
            GoodToolsToken::Version(a, b, c) => GoodToolsTokenModel::Version(a@, b@, opt_view(*c)),
            GoodToolsToken::Volume(v) => GoodToolsTokenModel::Volume(v@),
            GoodToolsToken::NInOne(l, sep) => GoodToolsTokenModel::NInOne(views(l@), opt_view(*sep)),
            GoodToolsToken::DumpCode(a, b, c, d, e, f) => GoodToolsTokenModel::DumpCode(
                a@,
                opt_view(*b),
                opt_view(*c),
                opt_view(*d),
                opt_view(*e),
                opt_view(*f),
            ),
            GoodToolsToken::GameHack(g) => GoodToolsTokenModel::GameHack(opt_view(*g)),
            GoodToolsToken::Media(a, b, c) => GoodToolsTokenModel::Media(a@, b@, opt_view(*c)),
            GoodToolsToken::Flag(f, t) => GoodToolsTokenModel::Flag(*f, t@),
        }
    }
}

pub open spec fn token_models(v: Seq<GoodToolsToken>) -> Seq<GoodToolsTokenModel> {
    v.map_values(|t: GoodToolsToken| t@)
}

pub type Read = Option<(int, GoodToolsTokenModel)>;

pub open spec fn read_of(r: Option<(usize, GoodToolsToken)>) -> Read {
    match r {
        Some((j, t)) => Some((j as int, t@)),
        None => None,
    }
}

/// `(` and `inner`, then `)`.
pub open spec fn in_parens(s: Seq<char>, inner: Read) -> Read {
    match inner {
        Some((k, t)) => match char_end(s, k, ')') {
            Some(e) => Some((e, t)),
            None => None,
        },
        None => None,
    }
}

/// A region: `E-GC)` or `J-GC)` as they stand, or a parenthesized GoodTools region list.
#[verifier::opaque]
pub open spec fn region_tag(s: Seq<char>, i: int) -> Read {
    if has_at(s, i, "E-GC"@) {
        match char_end(s, i + 4, ')') {
            Some(e) => Some((e, GoodToolsTokenModel::Region(seq!["E-GC"@], seq![Region::Europe]))),
            None => None,
        }
    } else if has_at(s, i, "J-GC"@) {
        match char_end(s, i + 4, ')') {
            Some(e) => Some((e, GoodToolsTokenModel::Region(seq!["J-GC"@], seq![Region::Japan]))),
            None => None,
        }
    } else {
        match enclosed(s, i, '(', ')', ')') {
            Some((a, b)) => match region_list(RegionFormat::GoodTools, s.subrange(a, b)) {
                Ok((strs, regs)) => Some((b + 1, GoodToolsTokenModel::Region(strs, regs))),
                Err(_) => None,
            },
            None => None,
        }
    }
}

/// A year in parentheses: four digits or `x`.
#[verifier::opaque]
pub open spec fn year_tag(s: Seq<char>, i: int) -> Read {
    match char_end(s, i, '(') {
        Some(a) => in_parens(
            s,
            if span(s, a, CharClass::DigitOrLowerX, 4) == 4 {
                Some((a + 4, GoodToolsTokenModel::Year(s.subrange(a, a + 4))))
            } else {
                None
            },
        ),
        None => None,
    }
}

/// `[T+` or `[T-`, the translation, then `]`.
#[verifier::opaque]
pub open spec fn translation_tag(s: Seq<char>, i: int) -> Read {
    let status = if has_at(s, i, "[T+"@) {
        Some(TranslationStatus::Recent)
    } else if has_at(s, i, "[T-"@) {
        Some(TranslationStatus::Outdated)
    } else {
        None
    };
    match status {
        Some(st) => match find_from(s, i + 3, seq![']']) {
            Some(q) => Some((q + 1, GoodToolsTokenModel::Translation(st, s.subrange(i + 3, q)))),
            None => None,
        },
        None => None,
    }
}

/// `(REV` and a version of letters, digits and dots, then `)`.
#[verifier::opaque]
pub open spec fn revision_tag(s: Seq<char>, i: int) -> Read {
    match tag_end(s, i, "(REV"@) {
        Some(a) => {
            let n = run(s, a, CharClass::AlnumDot);
            in_parens(
                s,
                if n > 0 {
                    Some((a + n, GoodToolsTokenModel::Version("REV"@, s.subrange(a, a + n), None)))
                } else {
                    None
                },
            )
        },
        None => None,
    }
}

/// What follows `V`: `WIP` and a digit, `Final` and `_` and more, `unknown`,
/// or a version that starts with a digit or `x`.
pub open spec fn version(s: Seq<char>, a: int) -> Read {
    if has_at(s, a, "WIP"@) {
        let n = span(s, a + 3, CharClass::Digit, 1);
        Some(
            (
                a + 3 + n,
                GoodToolsTokenModel::Version(
                    "V"@,
                    "WIP"@,
                    if n > 0 {
                        Some(s.subrange(a + 3, a + 4))
                    } else {
                        None
                    },
                ),
            ),
        )
    } else if has_at(s, a, "Final"@) {
        if char_at(s, a + 5, '_') {
            let n = run(s, a + 6, CharClass::UniAlnumUnderscoreSpace);
            Some(
                (
                    a + 6 + n,
                    GoodToolsTokenModel::Version("V"@, "Final"@, Some(s.subrange(a + 6, a + 6 + n))),
                ),
            )
        } else {
            Some((a + 5, GoodToolsTokenModel::Version("V"@, "Final"@, None)))
        }
    } else if has_at(s, a, "unknown"@) {
        Some((a + 7, GoodToolsTokenModel::Version("V"@, "unknown"@, None)))
    } else if run(s, a, CharClass::DigitOrLowerX) > 0 {
        let n = run(s, a, CharClass::AlnumDashUnderscore);
        let m = run(s, a + n + 1, CharClass::AlnumDashUnderscoreDot);
        if char_at(s, a + n, '.') && m > 0 {
            Some(
                (
                    a + n + 1 + m,
                    GoodToolsTokenModel::Version(
                        "V"@,
                        s.subrange(a, a + n),
                        Some(s.subrange(a + n + 1, a + n + 1 + m)),
                    ),
                ),
            )
        } else {
            Some((a + n, GoodToolsTokenModel::Version("V"@, s.subrange(a, a + n), None)))
        }
    } else {
        None
    }
}

/// `(V` and a version, then `)`.
#[verifier::opaque]
pub open spec fn version_tag(s: Seq<char>, i: int) -> Read {
    match tag_end(s, i, "(V"@) {
        Some(a) => in_parens(s, version(s, a)),
        None => None,
    }
}

/// `(V ` and `x.xx`, two to four digits, or `b` and digits, then `)`.
#[verifier::opaque]
pub open spec fn version_with_space_tag(s: Seq<char>, i: int) -> Read {
    match tag_end(s, i, "(V "@) {
        Some(a) => in_parens(
            s,
            if has_at(s, a, "x.xx"@) {
                Some((a + 4, GoodToolsTokenModel::Version("V "@, "x"@, Some("xx"@))))
            } else if span(s, a, CharClass::Digit, 4) >= 2 {
                let n = span(s, a, CharClass::Digit, 4);
                Some((a + n, GoodToolsTokenModel::Version("V "@, s.subrange(a, a + n), None)))
            } else if char_at(s, a, 'b') && run(s, a + 1, CharClass::Digit) > 0 {
                let n = run(s, a + 1, CharClass::Digit);
                Some((a + 1 + n, GoodToolsTokenModel::Version("V "@, s.subrange(a, a + 1 + n), None)))
            } else {
                None
            },
        ),
        None => None,
    }
}

/// `(V_` and letters, digits, dots, underscores and whitespace, then `)`.
#[verifier::opaque]
pub open spec fn version_with_underscore_tag(s: Seq<char>, i: int) -> Read {
    match tag_end(s, i, "(V_"@) {
        Some(a) => {
            let n = run(s, a, CharClass::AlnumDotUnderscoreSpace);
            in_parens(
                s,
                Some((a + n, GoodToolsTokenModel::Version("V_"@, s.subrange(a, a + n), None))),
            )
        },
        None => None,
    }
}

/// `(M` and one or two digits, then `)`.
#[verifier::opaque]
pub open spec fn multilanguage_tag(s: Seq<char>, i: int) -> Read {
    match tag_end(s, i, "(M"@) {
        Some(a) => {
            let n = span(s, a, CharClass::Digit, 2);
            in_parens(
                s,
                if n > 0 {
                    Some((a + n, GoodToolsTokenModel::Multilanguage(s.subrange(a, a + n))))
                } else {
                    None
                },
            )
        },
        None => None,
    }
}

/// `(Vol ` and digits, then `)`.
#[verifier::opaque]
pub open spec fn vol_tag(s: Seq<char>, i: int) -> Read {
    match tag_end(s, i, "(Vol "@) {
        Some(a) => {
            let n = run(s, a, CharClass::Digit);
            in_parens(s, Some((a + n, GoodToolsTokenModel::Volume(s.subrange(a, a + n)))))
        },
        None => None,
    }
}

/// The flags in parentheses that are known to the tokenizer.
pub open spec fn known_words() -> Seq<Seq<char>> {
    seq!["PD"@, "NTSC"@, "PAL"@, "NTSC-PAL"@, "PAL-NTSC"@]
}

/// The first known word, from index `j` on, that stands in parentheses at `i`.
pub open spec fn known_parens_from(s: Seq<char>, i: int, j: int) -> Read
    decreases 5 - j,
{
    if j < 0 || j >= 5 {
        None
    } else if char_at(s, i, '(') && has_at(s, i + 1, known_words()[j]) && char_at(
        s,
        i + 1 + known_words()[j].len(),
        ')',
    ) {
        Some(
            (
                i + 2 + known_words()[j].len(),
                GoodToolsTokenModel::Flag(FlagType::Parenthesized, known_words()[j]),
            ),
        )
    } else {
        known_parens_from(s, i, j + 1)
    }
}

/// Any parenthesized flag.
pub open spec fn additional_parens_tag(s: Seq<char>, i: int) -> Read {
    match enclosed(s, i, '(', ')', ')') {
        Some((a, b)) => Some(
            (b + 1, GoodToolsTokenModel::Flag(FlagType::Parenthesized, s.subrange(a, b))),
        ),
        None => None,
    }
}

/// `[`, at least one character other than `)`, then `]`.
pub open spec fn additional_brackets_tag(s: Seq<char>, i: int) -> Read {
    match enclosed(s, i, '[', ')', ']') {
        Some((a, b)) => Some((b + 1, GoodToolsTokenModel::Flag(FlagType::Bracketed, s.subrange(a, b)))),
        None => None,
    }
}

/// A run of at least one character of `cls` at `k`, when there is one.
pub open spec fn opt_run(s: Seq<char>, k: int, cls: CharClass) -> (Option<Seq<char>>, int) {
    let n = run(s, k, cls);
    if n > 0 {
        (Some(s.subrange(k, k + n)), k + n)
    } else {
        (None, k)
    }
}

/// `[`, the dump code `code`, a number of digits and lower-case letters, a
/// type of upper-case letters, then either `-` and arguments up to `]`, or
/// `+`, a number of arguments and arguments, or arguments alone; then `]`.
#[verifier::opaque]
pub open spec fn dump_tag(s: Seq<char>, i: int, code: Seq<char>) -> Read {
    match char_end(s, i, '[') {
        Some(a) => match tag_end(s, a, code) {
            Some(b) => {
                let (number, c) = opt_run(s, b, CharClass::DigitOrLower);
                let (ty, d) = opt_run(s, c, CharClass::Upper);
                if char_at(s, d, '-') {
                    let n = run(s, d + 1, CharClass::Not(']'));
                    if n > 0 {
                        match char_end(s, d + 1 + n, ']') {
                            Some(e) => Some(
                                (
                                    e,
                                    GoodToolsTokenModel::DumpCode(
                                        code,
                                        number,
                                        ty,
                                        Some("-"@),
                                        None,
                                        Some(s.subrange(d + 1, d + 1 + n)),
                                    ),
                                ),
                            ),
                            None => None,
                        }
                    } else {
                        None
                    }
                } else if char_at(s, d, '+') {
                    let (argnum, f) = opt_run(s, d + 1, CharClass::Digit);
                    let (args, g) = opt_run(s, f, CharClass::Alnum);
                    match char_end(s, g, ']') {
                        Some(e) => Some(
                            (
                                e,
                                GoodToolsTokenModel::DumpCode(code, number, ty, Some("+"@), argnum, args),
                            ),
                        ),
                        None => None,
                    }
                } else {
                    let (args, g) = opt_run(s, d, CharClass::Alnum);
                    match char_end(s, g, ']') {
                        Some(e) => Some(
                            (e, GoodToolsTokenModel::DumpCode(code, number, ty, None, None, args)),
                        ),
                        None => None,
                    }
                }
            },
            None => None,
        },
        None => None,
    }
}

/// The dump codes, in the order in which they are tried.
pub open spec fn dump_codes() -> Seq<Seq<char>> {
    seq!["a"@, "b"@, "f_"@, "f"@, "o"@, "h"@, "p"@, "t"@, "!p"@, "!"@]
}

/// The first dump code, from index `j` on, whose tag reads at `i`.
pub open spec fn dump_tags_from(s: Seq<char>, i: int, j: int) -> Read
    decreases 10 - j,
{
    if j < 0 || j >= 10 {
        None
    } else if dump_tag(s, i, dump_codes()[j]) is Some {
        dump_tag(s, i, dump_codes()[j])
    } else {
        dump_tags_from(s, i, j + 1)
    }
}

proof fn lemma_dump_tag_opens(s: Seq<char>, i: int, code: Seq<char>)
    requires
        dump_tag(s, i, code) is Some,
        code.len() > 0,
    ensures
        0 <= i && i + 1 < s.len() && s[i] == '[' && s[i + 1] == code[0],
{
    reveal(dump_tag);
    assert(s.subrange(i + 1, i + 1 + code.len())[0] == s[i + 1]);
}

/// Where a bracketed tag reads both with a dump code and with a longer code
/// that starts with it, the longer code is the one read: `[!p]` is the code
/// `!p`, not `!` with the number `p`, and `[f_...]` is `f_`, not `f`.
pub proof fn law_longer_dump_code_wins(s: Seq<char>, i: int)
    ensures
        dump_tag(s, i, "!p"@) is Some ==> dump_tags_from(s, i, 0) == dump_tag(s, i, "!p"@),
        dump_tag(s, i, "f_"@) is Some ==> dump_tags_from(s, i, 0) == dump_tag(s, i, "f_"@),
{
    reveal_strlit("a");
    reveal_strlit("b");
    reveal_strlit("f_");
    reveal_strlit("f");
    reveal_strlit("o");
    reveal_strlit("h");
    reveal_strlit("p");
    reveal_strlit("t");
    reveal_strlit("!p");
    reveal_strlit("!");
    reveal_with_fuel(dump_tags_from, 11);
    let codes = dump_codes();
    if dump_tag(s, i, "!p"@) is Some {
        lemma_dump_tag_opens(s, i, "!p"@);
        assert forall|j: int| 0 <= j < 8 implies dump_tag(s, i, codes[j]) is None by {
            if dump_tag(s, i, codes[j]) is Some {
                lemma_dump_tag_opens(s, i, codes[j]);
            }
        }
        assert(codes[8] == "!p"@);
        assert(dump_tag(s, i, codes[0]) is None);
        assert(dump_tag(s, i, codes[1]) is None);
        assert(dump_tag(s, i, codes[2]) is None);
        assert(dump_tag(s, i, codes[3]) is None);
        assert(dump_tag(s, i, codes[4]) is None);
        assert(dump_tag(s, i, codes[5]) is None);
        assert(dump_tag(s, i, codes[6]) is None);
        assert(dump_tag(s, i, codes[7]) is None);
    }
    if dump_tag(s, i, "f_"@) is Some {
        lemma_dump_tag_opens(s, i, "f_"@);
        assert(codes[2] == "f_"@);
        if dump_tag(s, i, codes[0]) is Some {
            lemma_dump_tag_opens(s, i, codes[0]);
        }
        if dump_tag(s, i, codes[1]) is Some {
            lemma_dump_tag_opens(s, i, codes[1]);
        }
    }
}

/// `(`, the hacked game up to the first ` Hack`, then `)`; or `(Hack)`.
#[verifier::opaque]
pub open spec fn game_hack_tag(s: Seq<char>, i: int) -> Read {
    match char_end(s, i, '(') {
        Some(a) => in_parens(
            s,
            match find_from(s, a, " Hack"@) {
                Some(q) => Some((q + 5, GoodToolsTokenModel::GameHack(Some(s.subrange(a, q))))),
                None => match tag_end(s, a, "Hack"@) {
                    Some(e) => Some((e, GoodToolsTokenModel::GameHack(None))),
                    None => None,
                },
            },
        ),
        None => None,
    }
}

/// A tag that the tokenizer knows, tried in a fixed order.
#[verifier::opaque]
pub open spec fn known_tag(s: Seq<char>, i: int) -> Read {
    if region_tag(s, i) is Some {
        region_tag(s, i)
    } else if year_tag(s, i) is Some {
        year_tag(s, i)
    } else if vol_tag(s, i) is Some {
        vol_tag(s, i)
    } else if version_with_underscore_tag(s, i) is Some {
        version_with_underscore_tag(s, i)
    } else if version_with_space_tag(s, i) is Some {
        version_with_space_tag(s, i)
    } else if version_tag(s, i) is Some {
        version_tag(s, i)
    } else if revision_tag(s, i) is Some {
        revision_tag(s, i)
    } else if game_hack_tag(s, i) is Some {
        game_hack_tag(s, i)
    } else if multilanguage_tag(s, i) is Some {
        multilanguage_tag(s, i)
    } else if translation_tag(s, i) is Some {
        translation_tag(s, i)
    } else if known_parens_from(s, i, 0) is Some {
        known_parens_from(s, i, 0)
    } else {
        dump_tags_from(s, i, 0)
    }
}

proof fn lemma_bang_tag_is_dump_code(s: Seq<char>, i: int)
    requires
        0 <= i && i + 1 < s.len() && s[i] == '[' && s[i + 1] == '!',
    ensures
        known_tag(s, i) == dump_tags_from(s, i, 0),
{
    reveal(known_tag);
    reveal(region_tag);
    reveal(year_tag);
    reveal(translation_tag);
    reveal(revision_tag);
    reveal(version_tag);
    reveal(version_with_space_tag);
    reveal(version_with_underscore_tag);
    reveal(multilanguage_tag);
    reveal(vol_tag);
    reveal(game_hack_tag);
    reveal_strlit("E-GC");
    reveal_strlit("J-GC");
    reveal_strlit("(Vol ");
    reveal_strlit("(V_");
    reveal_strlit("(V ");
    reveal_strlit("(V");
    reveal_strlit("(REV");
    reveal_strlit("(M");
    reveal_strlit("[T+");
    reveal_strlit("[T-");
    reveal_with_fuel(known_parens_from, 6);
    assert(s.subrange(i, i + 2)[0] == s[i]);
    if i + 3 <= s.len() {
        assert(s.subrange(i, i + 3)[0] == s[i]);
        assert(s.subrange(i, i + 3)[1] == s[i + 1]);
    }
    if i + 4 <= s.len() {
        assert(s.subrange(i, i + 4)[0] == s[i]);
    }
    if i + 5 <= s.len() {
        assert(s.subrange(i, i + 5)[0] == s[i]);
    }
}

/// In a GoodTools name, a tag `[!p]` reads as the dump code `!p` with no
/// number: wherever a tag reads with the code `!p`, that is the tag read.
pub proof fn law_bang_p_tag_reads_as_bang_p(s: Seq<char>, i: int)
    requires
        dump_tag(s, i, "!p"@) is Some,
    ensures
        any_tag(s, i) == dump_tag(s, i, "!p"@),
        dump_tag(s, i, "!p"@) matches Some((_, GoodToolsTokenModel::DumpCode(code, _, _, _, _, _)))
            && code == "!p"@,
{
    reveal_strlit("!p");
    lemma_dump_tag_opens(s, i, "!p"@);
    lemma_bang_tag_is_dump_code(s, i);
    law_longer_dump_code_wins(s, i);
    reveal(any_tag);
    reveal(dump_tag);
}

/// Any tag: a known one, or any other in parentheses or brackets.
#[verifier::opaque]
pub open spec fn any_tag(s: Seq<char>, i: int) -> Read {
    if known_tag(s, i) is Some {
        known_tag(s, i)
    } else if additional_parens_tag(s, i) is Some {
        additional_parens_tag(s, i)
    } else {
        additional_brackets_tag(s, i)
    }
}

/// The position after an optional space at `k`.
pub open spec fn after_space(s: Seq<char>, k: int) -> int {
    if char_at(s, k, ' ') {
        k + 1
    } else {
        k
    }
}

/// The tags that follow, each after an optional space.
pub open spec fn tags_from(s: Seq<char>, k: int, acc: Seq<GoodToolsTokenModel>) -> (
    int,
    Seq<GoodToolsTokenModel>,
)
    decreases s.len() - k,
{
    match any_tag(s, after_space(s, k)) {
        Some((e, t)) => if k < e <= s.len() {
            tags_from(s, e, acc.push(t))
        } else {
            (k, acc)
        },
        None => (k, acc),
    }
}

/// At least one tag, each after an optional space, up to the end of the name.
pub open spec fn tags_to_end(s: Seq<char>, j: int) -> Option<Seq<GoodToolsTokenModel>> {
    match any_tag(s, after_space(s, j)) {
        Some((e, t)) => if j < e <= s.len() {
            let (f, ts) = tags_from(s, e, seq![t]);
            if f == s.len() {
                Some(ts)
            } else {
                None
            }
        } else {
            None
        },
        None => None,
    }
}

/// The first position from `j` on, before the end, from where the tags read
/// to the end of the name, and those tags.
pub open spec fn tags_start(s: Seq<char>, j: int) -> Option<(int, Seq<GoodToolsTokenModel>)>
    decreases s.len() - j,
{
    if j < 0 || j >= s.len() {
        None
    } else {
        match tags_to_end(s, j) {
            Some(ts) => Some((j, ts)),
            None => tags_start(s, j + 1),
        }
    }
}

/// The tokens of a GoodTools name: the title up to the first position from
/// where tags read to the end, then those tags; the whole name as the title
/// where there is no such position.
pub open spec fn goodtools_tokens(s: Seq<char>) -> Seq<GoodToolsTokenModel> {
    match tags_start(s, 0) {
        Some((j, ts)) => seq![GoodToolsTokenModel::Title(s.subrange(0, j))] + ts,
        None => seq![GoodToolsTokenModel::Title(s)],
    }
}


// ---------------------------------------------------------------------------
// The tokenizer
// ---------------------------------------------------------------------------
fn is_char_at_(cs: &Vec<char>, p: usize, c: char) -> (res: bool)
    ensures
        res == char_at(cs@, p as int, c),
        res ==> p < cs@.len(),
{
    p < cs.len() && cs[p] == c
}

fn close_paren(cs: &Vec<char>, inner: Option<(usize, GoodToolsToken)>) -> (res: Option<
    (usize, GoodToolsToken),
>)
    requires
        inner matches Some((k, _)) ==> k <= cs@.len(),
    ensures
        read_of(res) == in_parens(cs@, read_of(inner)),
        res matches Some((e, _)) ==> inner matches Some((k, _)) && k < e <= cs@.len(),
{
    match inner {
        Some((k, t)) => match char_tag(cs, k, ')') {
            Some(e) => Some((e, t)),
            None => None,
        },
        None => None,
    }
}

fn read_region_tag(s: &str, cs: &Vec<char>, i: usize) -> (res: Option<(usize, GoodToolsToken)>)
    requires
        cs@ == s@,
    ensures
        read_of(res) == region_tag(cs@, i as int),
        res matches Some((e, _)) ==> i < e <= cs@.len(),
{
    proof {
        reveal(region_tag);
        reveal_strlit("E-GC");
        reveal_strlit("J-GC");
    }
    let len = cs.len();
    if tag_at(cs, i, "E-GC") {
        return match char_tag(cs, i + 4, ')') {
            Some(e) => {
                let strs = vec![owned("E-GC")];
                assert(views(strs@) =~= seq!["E-GC"@]);
                let regs = vec![Region::Europe];
                assert(regs@ =~= seq![Region::Europe]);
                Some((e, GoodToolsToken::Region(strs, regs)))
            },
            None => None,
        };
    }
    if tag_at(cs, i, "J-GC") {
        return match char_tag(cs, i + 4, ')') {
            Some(e) => {
                let strs = vec![owned("J-GC")];
                assert(views(strs@) =~= seq!["J-GC"@]);
                let regs = vec![Region::Japan];
                assert(regs@ =~= seq![Region::Japan]);
                Some((e, GoodToolsToken::Region(strs, regs)))
            },
            None => None,
        };
    }
    match enclosed_at(cs, i, '(', ')', ')') {
        Some((a, b)) => {
            let inner = substr(s, a, b);
            match Region::try_from_goodtools_region_with_strs(inner.as_str()) {
                Ok((strs, regs)) => Some((b + 1, GoodToolsToken::Region(strs, regs))),
                Err(_) => None,
            }
        },
        None => None,
    }
}

fn read_year_tag(s: &str, cs: &Vec<char>, i: usize) -> (res: Option<(usize, GoodToolsToken)>)
    requires
        cs@ == s@,
    ensures
        read_of(res) == year_tag(cs@, i as int),
        res matches Some((e, _)) ==> i < e <= cs@.len(),
{
    let len = cs.len();
    proof {
        reveal(year_tag);
    }
    match char_tag(cs, i, '(') {
        Some(a) => {
            let inner = if take_while(cs, a, CharClass::DigitOrLowerX, 4) == 4 {
                Some((a + 4, GoodToolsToken::Year(substr(s, a, a + 4))))
            } else {
                None
            };
            close_paren(cs, inner)
        },
        None => None,
    }
}

fn read_translation_tag(s: &str, cs: &Vec<char>, i: usize) -> (res: Option<
    (usize, GoodToolsToken),
>)
    requires
        cs@ == s@,
    ensures
        read_of(res) == translation_tag(cs@, i as int),
        res matches Some((e, _)) ==> i < e <= cs@.len(),
{
    let len = cs.len();
    proof {
        reveal(translation_tag);
        reveal_strlit("[T+");
        reveal_strlit("[T-");
        reveal_strlit("]");
        assert("]"@ =~= seq![']']);
    }
    let status = if tag_at(cs, i, "[T+") {
        TranslationStatus::Recent
    } else if tag_at(cs, i, "[T-") {
        TranslationStatus::Outdated
    } else {
        return None;
    };
    proof {
        lemma_find_from(cs@, i + 3, seq![']']);
    }
    match find_tag(cs, i + 3, "]") {
        Some(q) => Some((q + 1, GoodToolsToken::Translation(status, substr(s, i + 3, q)))),
        None => None,
    }
}

fn read_revision_tag(s: &str, cs: &Vec<char>, i: usize) -> (res: Option<(usize, GoodToolsToken)>)
    requires
        cs@ == s@,
    ensures
        read_of(res) == revision_tag(cs@, i as int),
        res matches Some((e, _)) ==> i < e <= cs@.len(),
{
    let len = cs.len();
    proof {
        reveal(revision_tag);
        reveal_strlit("(REV");
    }
    match tag(cs, i, "(REV") {
        Some(a) => {
            let n = run_len(cs, a, CharClass::AlnumDot);
            let inner = if n > 0 {
                Some((a + n, GoodToolsToken::Version(owned("REV"), substr(s, a, a + n), None)))
            } else {
                None
            };
            close_paren(cs, inner)
        },
        None => None,
    }
}

fn read_version(s: &str, cs: &Vec<char>, a: usize) -> (res: Option<(usize, GoodToolsToken)>)
    requires
        cs@ == s@,
        a <= cs@.len(),
    ensures
        read_of(res) == version(cs@, a as int),
        res matches Some((e, _)) ==> a <= e <= cs@.len(),
{
    let len = cs.len();
    proof {
        reveal_strlit("WIP");
        reveal_strlit("Final");
        reveal_strlit("unknown");
    }
    if tag_at(cs, a, "WIP") {
        let n = take_while(cs, a + 3, CharClass::Digit, 1);
        let number = if n > 0 {
            Some(substr(s, a + 3, a + 4))
        } else {
            None
        };
        return Some((a + 3 + n, GoodToolsToken::Version(owned("V"), owned("WIP"), number)));
    }
    if tag_at(cs, a, "Final") {
        if is_char_at_(cs, a + 5, '_') {
            let n = run_len(cs, a + 6, CharClass::UniAlnumUnderscoreSpace);
            return Some(
                (
                    a + 6 + n,
                    GoodToolsToken::Version(
                        owned("V"),
                        owned("Final"),
                        Some(substr(s, a + 6, a + 6 + n)),
                    ),
                ),
            );
        }
        return Some((a + 5, GoodToolsToken::Version(owned("V"), owned("Final"), None)));
    }
    if tag_at(cs, a, "unknown") {
        return Some((a + 7, GoodToolsToken::Version(owned("V"), owned("unknown"), None)));
    }
    if run_len(cs, a, CharClass::DigitOrLowerX) == 0 {
        return None;
    }
    let n = run_len(cs, a, CharClass::AlnumDashUnderscore);
    if is_char_at_(cs, a + n, '.') {
        let m = run_len(cs, a + n + 1, CharClass::AlnumDashUnderscoreDot);
        if m > 0 {
            return Some(
                (
                    a + n + 1 + m,
                    GoodToolsToken::Version(
                        owned("V"),
                        substr(s, a, a + n),
                        Some(substr(s, a + n + 1, a + n + 1 + m)),
                    ),
                ),
            );
        }
    }
    Some((a + n, GoodToolsToken::Version(owned("V"), substr(s, a, a + n), None)))
}

fn read_version_tag(s: &str, cs: &Vec<char>, i: usize) -> (res: Option<(usize, GoodToolsToken)>)
    requires
        cs@ == s@,
    ensures
        read_of(res) == version_tag(cs@, i as int),
        res matches Some((e, _)) ==> i < e <= cs@.len(),
{
    let len = cs.len();
    proof {
        reveal(version_tag);
        reveal_strlit("(V");
    }
    match tag(cs, i, "(V") {
        Some(a) => close_paren(cs, read_version(s, cs, a)),
        None => None,
    }
}

fn read_version_with_space_tag(s: &str, cs: &Vec<char>, i: usize) -> (res: Option<
    (usize, GoodToolsToken),
>)
    requires
        cs@ == s@,
    ensures
        read_of(res) == version_with_space_tag(cs@, i as int),
        res matches Some((e, _)) ==> i < e <= cs@.len(),
{
    proof {
        reveal(version_with_space_tag);
        reveal_strlit("(V ");
        reveal_strlit("x.xx");
    }
    let len = cs.len();
    match tag(cs, i, "(V ") {
        Some(a) => {
            let inner = if tag_at(cs, a, "x.xx") {
                Some((a + 4, GoodToolsToken::Version(owned("V "), owned("x"), Some(owned("xx")))))
            } else if take_while(cs, a, CharClass::Digit, 4) >= 2 {
                let n = take_while(cs, a, CharClass::Digit, 4);
                Some((a + n, GoodToolsToken::Version(owned("V "), substr(s, a, a + n), None)))
            } else if is_char_at_(cs, a, 'b') && run_len(cs, a + 1, CharClass::Digit) > 0 {
                let n = run_len(cs, a + 1, CharClass::Digit);
                Some((a + 1 + n, GoodToolsToken::Version(owned("V "), substr(s, a, a + 1 + n), None)))
            } else {
                None
            };
            close_paren(cs, inner)
        },
        None => None,
    }
}

fn read_version_with_underscore_tag(s: &str, cs: &Vec<char>, i: usize) -> (res: Option<
    (usize, GoodToolsToken),
>)
    requires
        cs@ == s@,
    ensures
        read_of(res) == version_with_underscore_tag(cs@, i as int),
        res matches Some((e, _)) ==> i < e <= cs@.len(),
{
    let len = cs.len();
    proof {
        reveal(version_with_underscore_tag);
        reveal_strlit("(V_");
    }
    match tag(cs, i, "(V_") {
        Some(a) => {
            let n = run_len(cs, a, CharClass::AlnumDotUnderscoreSpace);
            close_paren(
                cs,
                Some((a + n, GoodToolsToken::Version(owned("V_"), substr(s, a, a + n), None))),
            )
        },
        None => None,
    }
}

fn read_multilanguage_tag(s: &str, cs: &Vec<char>, i: usize) -> (res: Option<
    (usize, GoodToolsToken),
>)
    requires
        cs@ == s@,
    ensures
        read_of(res) == multilanguage_tag(cs@, i as int),
        res matches Some((e, _)) ==> i < e <= cs@.len(),
{
    let len = cs.len();
    proof {
        reveal(multilanguage_tag);
        reveal_strlit("(M");
    }
    match tag(cs, i, "(M") {
        Some(a) => {
            let n = take_while(cs, a, CharClass::Digit, 2);
            let inner = if n > 0 {
                Some((a + n, GoodToolsToken::Multilanguage(substr(s, a, a + n))))
            } else {
                None
            };
            close_paren(cs, inner)
        },
        None => None,
    }
}

fn read_vol_tag(s: &str, cs: &Vec<char>, i: usize) -> (res: Option<(usize, GoodToolsToken)>)
    requires
        cs@ == s@,
    ensures
        read_of(res) == vol_tag(cs@, i as int),
        res matches Some((e, _)) ==> i < e <= cs@.len(),
{
    let len = cs.len();
    proof {
        reveal(vol_tag);
        reveal_strlit("(Vol ");
    }
    match tag(cs, i, "(Vol ") {
        Some(a) => {
            let n = run_len(cs, a, CharClass::Digit);
            close_paren(cs, Some((a + n, GoodToolsToken::Volume(substr(s, a, a + n)))))
        },
        None => None,
    }
}

fn known_word(j: usize) -> (res: &'static str)
    requires
        j < 5,
    ensures
        res@ == known_words()[j as int],
{
    match j {
        0 => "PD",
        1 => "NTSC",
        2 => "PAL",
        3 => "NTSC-PAL",
        _ => "PAL-NTSC",
    }
}

fn read_known_parens(cs: &Vec<char>, i: usize) -> (res: Option<(usize, GoodToolsToken)>)
    ensures
        read_of(res) == known_parens_from(cs@, i as int, 0),
        res matches Some((e, _)) ==> i < e <= cs@.len(),
{
    let len = cs.len();
    let mut j: usize = 0;
    while j < 5
        invariant
            len == cs@.len(),
            j <= 5,
            known_parens_from(cs@, i as int, 0) == known_parens_from(cs@, i as int, j as int),
        decreases 5 - j,
    {
        let w = known_word(j);
        if is_char_at_(cs, i, '(') && tag_at(cs, i + 1, w) {
            let wl = w.unicode_len();
            if is_char_at_(cs, i + 1 + wl, ')') {
                return Some((i + 2 + wl, GoodToolsToken::Flag(FlagType::Parenthesized, owned(w))));
            }
        }
        j = j + 1;
    }
    None
}

fn read_additional_parens_tag(s: &str, cs: &Vec<char>, i: usize) -> (res: Option<
    (usize, GoodToolsToken),
>)
    requires
        cs@ == s@,
    ensures
        read_of(res) == additional_parens_tag(cs@, i as int),
        res matches Some((e, _)) ==> i < e <= cs@.len(),
{
    let len = cs.len();
    match enclosed_at(cs, i, '(', ')', ')') {
        Some((a, b)) => Some((b + 1, GoodToolsToken::Flag(FlagType::Parenthesized, substr(s, a, b)))),
        None => None,
    }
}

fn read_additional_brackets_tag(s: &str, cs: &Vec<char>, i: usize) -> (res: Option<
    (usize, GoodToolsToken),
>)
    requires
        cs@ == s@,
    ensures
        read_of(res) == additional_brackets_tag(cs@, i as int),
        res matches Some((e, _)) ==> i < e <= cs@.len(),
{
    let len = cs.len();
    match enclosed_at(cs, i, '[', ')', ']') {
        Some((a, b)) => Some((b + 1, GoodToolsToken::Flag(FlagType::Bracketed, substr(s, a, b)))),
        None => None,
    }
}

fn read_opt_run(s: &str, cs: &Vec<char>, k: usize, cls: CharClass) -> (res: (Option<String>, usize))
    requires
        cs@ == s@,
        k <= cs@.len(),
    ensures
        (opt_view(res.0), res.1 as int) == opt_run(cs@, k as int, cls),
        k <= res.1 <= cs@.len(),
{
    let len = cs.len();
    let n = run_len(cs, k, cls);
    if n > 0 {
        (Some(substr(s, k, k + n)), k + n)
    } else {
        (None, k)
    }
}

fn read_dump_tag(s: &str, cs: &Vec<char>, i: usize, code: &str) -> (res: Option<
    (usize, GoodToolsToken),
>)
    requires
        cs@ == s@,
    ensures
        read_of(res) == dump_tag(cs@, i as int, code@),
        res matches Some((e, _)) ==> i < e <= cs@.len(),
{
    proof {
        reveal(dump_tag);
        reveal_strlit("-");
        reveal_strlit("+");
    }
    let len = cs.len();
    let a = match char_tag(cs, i, '[') {
        Some(a) => a,
        None => {
            return None;
        },
    };
    let b = match tag(cs, a, code) {
        Some(b) => b,
        None => {
            return None;
        },
    };
    let (number, c) = read_opt_run(s, cs, b, CharClass::DigitOrLower);
    let (ty, d) = read_opt_run(s, cs, c, CharClass::Upper);
    if is_char_at_(cs, d, '-') {
        let n = run_len(cs, d + 1, CharClass::Not(']'));
        if n == 0 {
            return None;
        }
        match char_tag(cs, d + 1 + n, ']') {
            Some(e) => Some(
                (
                    e,
                    GoodToolsToken::DumpCode(
                        owned(code),
                        number,
                        ty,
                        Some(owned("-")),
                        None,
                        Some(substr(s, d + 1, d + 1 + n)),
                    ),
                ),
            ),
            None => None,
        }
    } else if is_char_at_(cs, d, '+') {
        let (argnum, f) = read_opt_run(s, cs, d + 1, CharClass::Digit);
        let (args, g) = read_opt_run(s, cs, f, CharClass::Alnum);
        match char_tag(cs, g, ']') {
            Some(e) => Some(
                (e, GoodToolsToken::DumpCode(owned(code), number, ty, Some(owned("+")), argnum, args)),
            ),
            None => None,
        }
    } else {
        let (args, g) = read_opt_run(s, cs, d, CharClass::Alnum);
        match char_tag(cs, g, ']') {
            Some(e) => Some((e, GoodToolsToken::DumpCode(owned(code), number, ty, None, None, args))),
            None => None,
        }
    }
}

fn dump_code(j: usize) -> (res: &'static str)
    requires
        j < 10,
    ensures
        res@ == dump_codes()[j as int],
{
    match j {
        0 => "a",
        1 => "b",
        2 => "f_",
        3 => "f",
        4 => "o",
        5 => "h",
        6 => "p",
        7 => "t",
        8 => "!p",
        _ => "!",
    }
}

fn read_dump_tags(s: &str, cs: &Vec<char>, i: usize) -> (res: Option<(usize, GoodToolsToken)>)
    requires
        cs@ == s@,
    ensures
        read_of(res) == dump_tags_from(cs@, i as int, 0),
        res matches Some((e, _)) ==> i < e <= cs@.len(),
{
    let len = cs.len();
    let mut j: usize = 0;
    while j < 10
        invariant
            cs@ == s@,
            j <= 10,
            dump_tags_from(cs@, i as int, 0) == dump_tags_from(cs@, i as int, j as int),
        decreases 10 - j,
    {
        if let Some(r) = read_dump_tag(s, cs, i, dump_code(j)) {
            return Some(r);
        }
        j = j + 1;
    }
    None
}

fn read_game_hack_tag(s: &str, cs: &Vec<char>, i: usize) -> (res: Option<(usize, GoodToolsToken)>)
    requires
        cs@ == s@,
    ensures
        read_of(res) == game_hack_tag(cs@, i as int),
        res matches Some((e, _)) ==> i < e <= cs@.len(),
{
    proof {
        reveal(game_hack_tag);
        reveal_strlit(" Hack");
        reveal_strlit("Hack");
    }
    let len = cs.len();
    match char_tag(cs, i, '(') {
        Some(a) => {
            proof {
                lemma_find_from(cs@, a as int, " Hack"@);
            }
            let inner = match find_tag(cs, a, " Hack") {
                Some(q) => Some((q + 5, GoodToolsToken::GameHack(Some(substr(s, a, q))))),
                None => match tag(cs, a, "Hack") {
                    Some(e) => Some((e, GoodToolsToken::GameHack(None))),
                    None => None,
                },
            };
            close_paren(cs, inner)
        },
        None => None,
    }
}

fn read_known_tag(s: &str, cs: &Vec<char>, i: usize) -> (res: Option<(usize, GoodToolsToken)>)
    requires
        cs@ == s@,
    ensures
        read_of(res) == known_tag(cs@, i as int),
        res matches Some((e, _)) ==> i < e <= cs@.len(),
{
    let len = cs.len();
    proof {
        reveal(known_tag);
    }
    if let Some(r) = read_region_tag(s, cs, i) {
        return Some(r);
    }
    if let Some(r) = read_year_tag(s, cs, i) {
        return Some(r);
    }
    if let Some(r) = read_vol_tag(s, cs, i) {
        return Some(r);
    }
    if let Some(r) = read_version_with_underscore_tag(s, cs, i) {
        return Some(r);
    }
    if let Some(r) = read_version_with_space_tag(s, cs, i) {
        return Some(r);
    }
    if let Some(r) = read_version_tag(s, cs, i) {
        return Some(r);
    }
    if let Some(r) = read_revision_tag(s, cs, i) {
        return Some(r);
    }
    if let Some(r) = read_game_hack_tag(s, cs, i) {
        return Some(r);
    }
    if let Some(r) = read_multilanguage_tag(s, cs, i) {
        return Some(r);
    }
    if let Some(r) = read_translation_tag(s, cs, i) {
        return Some(r);
    }
    if let Some(r) = read_known_parens(cs, i) {
        return Some(r);
    }
    read_dump_tags(s, cs, i)
}

fn read_any_tag(s: &str, cs: &Vec<char>, i: usize) -> (res: Option<(usize, GoodToolsToken)>)
    requires
        cs@ == s@,
    ensures
        read_of(res) == any_tag(cs@, i as int),
        res matches Some((e, _)) ==> i < e <= cs@.len(),
{
    let len = cs.len();
    proof {
        reveal(any_tag);
    }
    if let Some(r) = read_known_tag(s, cs, i) {
        return Some(r);
    }
    if let Some(r) = read_additional_parens_tag(s, cs, i) {
        return Some(r);
    }
    read_additional_brackets_tag(s, cs, i)
}

fn skip_space(cs: &Vec<char>, k: usize) -> (res: usize)
    requires
        k <= cs@.len(),
    ensures
        res == after_space(cs@, k as int),
        k <= res <= cs@.len(),
{
    let len = cs.len();
    if is_char_at_(cs, k, ' ') {
        k + 1
    } else {
        k
    }
}

fn read_tags_to_end(s: &str, cs: &Vec<char>, j: usize) -> (res: Option<Vec<GoodToolsToken>>)
    requires
        cs@ == s@,
        j <= cs@.len(),
    ensures
        match res {
            Some(v) => tags_to_end(cs@, j as int) == Some(token_models(v@)),
            None => tags_to_end(cs@, j as int) is None,
        },
{
    let len = cs.len();
    let (e0, t0) = match read_any_tag(s, cs, skip_space(cs, j)) {
        Some(x) => x,
        None => {
            return None;
        },
    };
    let ghost first = t0@;
    let mut toks = vec![t0];
    assert(token_models(toks@) =~= seq![first]);
    let mut k = e0;
    loop
        invariant
            cs@ == s@,
            len == cs@.len(),
            j < k <= cs@.len(),
            tags_from(cs@, e0 as int, seq![first]) == tags_from(cs@, k as int, token_models(toks@)),
        ensures
            j < k <= cs@.len(),
            tags_from(cs@, e0 as int, seq![first]) == (k as int, token_models(toks@)),
        decreases cs@.len() - k,
    {
        match read_any_tag(s, cs, skip_space(cs, k)) {
            Some((e, t)) => {
                proof {
                    assert(token_models(toks@.push(t)) =~= token_models(toks@).push(t@));
                }
                toks.push(t);
                k = e;
            },
            None => {
                break;
            },
        }
    }
    if k == len {
        Some(toks)
    } else {
        None
    }
}

/// A tokenized GoodTools name.
#[derive(Debug, PartialEq, Eq)]
pub struct GoodToolsName {
    pub tokens: Vec<GoodToolsToken>,
}

/// Tries to parse the name into a vector of tokens. Every name reads: one
/// without tags is all title.
pub fn try_parse(input: &str) -> (res: Result<GoodToolsName, ParseError>)
    ensures
        res matches Ok(n) && token_models(n.tokens@) == goodtools_tokens(input@),
{
    let cs = chars_of(input);
    let len = cs.len();
    let mut j: usize = 0;
    while j < len
        invariant
            cs@ == input@,
            len == cs@.len(),
            tags_start(cs@, 0) == tags_start(cs@, j as int),
        decreases len - j,
    {
        if let Some(tags) = read_tags_to_end(input, &cs, j) {
            let mut toks = vec![GoodToolsToken::Title(substr(input, 0, j))];
            let ghost m = token_models(tags@);
            let ghost t = toks@[0]@;
            let mut tags = tags;
            toks.append(&mut tags);
            assert(token_models(toks@) =~= seq![t] + m);
            return Ok(GoodToolsName { tokens: toks });
        }
        j = j + 1;
    }
    let toks = vec![GoodToolsToken::Title(owned(input))];
    assert(token_models(toks@) =~= seq![GoodToolsTokenModel::Title(input@)]);
    Ok(GoodToolsName { tokens: toks })
}

/// Reads a name in the GoodTools naming convention.
pub trait GoodToolsNameable: Sized {
    fn try_from_goodtools(name: &str) -> Result<Self, ParseError>;
}

// ---------------------------------------------------------------------------
// Single tags
// ---------------------------------------------------------------------------
/// A tag read at the start of a string: what remains of the string, and the token.
pub open spec fn tag_result(s: Seq<char>, r: Read, res: Option<(String, GoodToolsToken)>) -> bool {
    match (r, res) {
        (Some((j, t)), Some((rest, tok))) => rest@ == s.subrange(j, s.len() as int) && tok@ == t,
        (None, None) => true,
        _ => false,
    }
}

fn finish(s: &str, cs: &Vec<char>, r: Option<(usize, GoodToolsToken)>) -> (res: Option<
    (String, GoodToolsToken),
>)
    requires
        cs@ == s@,
        r matches Some((j, _)) ==> j <= cs@.len(),
    ensures
        tag_result(s@, read_of(r), res),
{
    match r {
        Some((j, t)) => Some((substr(s, j, cs.len()), t)),
        None => None,
    }
}

/// Reads a game hack tag such as `(SMB1 Hack)`.
pub fn parse_game_hack_tag(input: &str) -> (res: Option<(String, GoodToolsToken)>)
    ensures
        tag_result(input@, game_hack_tag(input@, 0), res),
{
    let cs = chars_of(input);
    let r = read_game_hack_tag(input, &cs, 0);
    finish(input, &cs, r)
}

/// Reads a volume tag such as `(Vol 6)`.
pub fn parse_vol_tag(input: &str) -> (res: Option<(String, GoodToolsToken)>)
    ensures
        tag_result(input@, vol_tag(input@, 0), res),
{
    let cs = chars_of(input);
    let r = read_vol_tag(input, &cs, 0);
    finish(input, &cs, r)
}

/// Reads a dump code tag for the code `code`, such as `[b1]`.
pub fn parse_dump_tag(code: &str, input: &str) -> (res: Option<(String, GoodToolsToken)>)
    ensures
        tag_result(input@, dump_tag(input@, 0, code@), res),
{
    let cs = chars_of(input);
    let r = read_dump_tag(input, &cs, 0, code);
    finish(input, &cs, r)
}

/// Reads a version tag with an underscore, such as `(V_unfinished)`.
pub fn parse_version_with_underscore_tag(input: &str) -> (res: Option<(String, GoodToolsToken)>)
    ensures
        tag_result(input@, version_with_underscore_tag(input@, 0), res),
{
    let cs = chars_of(input);
    let r = read_version_with_underscore_tag(input, &cs, 0);
    finish(input, &cs, r)
}

/// Reads a version tag such as `(V1.1)`.
pub fn parse_version_tag(input: &str) -> (res: Option<(String, GoodToolsToken)>)
    ensures
        tag_result(input@, version_tag(input@, 0), res),
{
    let cs = chars_of(input);
    let r = read_version_tag(input, &cs, 0);
    finish(input, &cs, r)
}

/// Reads a version tag with a space, such as `(V 1502)`.
pub fn parse_version_with_space_tag(input: &str) -> (res: Option<(String, GoodToolsToken)>)
    ensures
        tag_result(input@, version_with_space_tag(input@, 0), res),
{
    let cs = chars_of(input);
    let r = read_version_with_space_tag(input, &cs, 0);
    finish(input, &cs, r)
}

/// Reads a translation tag such as `[T+Eng10%]`.
pub fn parse_translation_tag(input: &str) -> (res: Option<(String, GoodToolsToken)>)
    ensures
        tag_result(input@, translation_tag(input@, 0), res),
{
    let cs = chars_of(input);
    let r = read_translation_tag(input, &cs, 0);
    finish(input, &cs, r)
}

/// Reads a region tag such as `(U)`.
pub fn parse_region_tag(input: &str) -> (res: Option<(String, GoodToolsToken)>)
    ensures
        tag_result(input@, region_tag(input@, 0), res),
{
    let cs = chars_of(input);
    let r = read_region_tag(input, &cs, 0);
    finish(input, &cs, r)
}

/// Reads a year tag such as `(19xx)`.
pub fn parse_year_tag(input: &str) -> (res: Option<(String, GoodToolsToken)>)
    ensures
        tag_result(input@, year_tag(input@, 0), res),
{
    let cs = chars_of(input);
    let r = read_year_tag(input, &cs, 0);
    finish(input, &cs, r)
}

} // verus!
