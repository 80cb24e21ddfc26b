//! What every naming convention shares: the kinds of flags, the development
//! status of a release, and the information that a name gives about a game.

use vstd::prelude::*;
use crate::region::Region;
use crate::text::{
    chars_of, find_from, find_tag, has_at, is_whitespace, lemma_find_from, opt_view, substr,
    tag_at, whitespace,
};

verus! {

/// Naming convention commonly used by DAT producers.
#[derive(Debug, Clone, Copy, PartialEq, Eq, Structural)]
pub enum NamingConvention {
    /// Not a known naming convention
    Unknown,
    /// The naming convention of The Old School Emulation Center (TNC v3 or later).
    TOSEC,
    /// The naming convention of No-Intro, redump.org and others.
    NoIntro,
    /// The naming convention of GoodTools.
    GoodTools,
    /// The third revision of the TOSEC naming convention, with `ZZZ-UNK-` names.
    TOSECV0,
}

/// The name under which each convention is known.
pub open spec fn convention_name(c: NamingConvention) -> Seq<char> {
    match c {
        NamingConvention::Unknown => "Unknown"@,
        NamingConvention::TOSEC => "TOSEC"@,
        NamingConvention::NoIntro => "No-Intro"@,
        NamingConvention::GoodTools => "GoodTools"@,
        NamingConvention::TOSECV0 => "TOSEC"@,
    }
}

impl NamingConvention {
    /// The name under which the convention is known.
    pub fn as_ref(&self) -> (res: &'static str)
        ensures
            res@ == convention_name(*self),
    {
        match self {
            NamingConvention::Unknown => "Unknown",
            NamingConvention::TOSEC => "TOSEC",
            NamingConvention::NoIntro => "No-Intro",
            NamingConvention::GoodTools => "GoodTools",
            NamingConvention::TOSECV0 => "TOSEC",
        }
    }
}

/// The development status of a release.
#[derive(Debug, Clone, Copy, PartialEq, Eq, Structural)]
pub enum DevelopmentStatus {
    /// A commercially released, or feature complete product.
    Release,
    /// An unfinished but mostly feature complete product, that may or may not
    /// have been released on purpose: No-Intro's (Beta), TOSEC's (alpha),
    /// (beta), (preview) and (pre-release).
    Prerelease,
    /// An unreleased, unfinished product: (Proto) in No-Intro, (proto) in TOSEC.
    Prototype,
}

/// How a flag of a name is delimited.
#[derive(Debug, Clone, Copy, PartialEq, Eq, Structural)]
pub enum FlagType {
    /// The flag is parenthesized
    Parenthesized,
    /// The flag is bracketed with square brackets
    Bracketed,
}

/// A version as the tokenizers read it: the version prefix (`v`, `Version`,
/// `Rev` or nothing), the major version, what follows a dot, a prefix such as
/// `PS3` in `PS3 v1.40`, and suffixes such as `Alt` or a date.
pub type VersionTuple = (String, String, Option<String>, Option<String>, Option<Vec<String>>);

/// The characters of the parts of a version.
pub type VersionModel = (
    Seq<char>,
    Seq<char>,
    Option<Seq<char>>,
    Option<Seq<char>>,
    Option<Seq<Seq<char>>>,
);

pub open spec fn version_model(t: VersionTuple) -> VersionModel {
    (
        t.0@,
        t.1@,
        opt_view(t.2),
        opt_view(t.3),
        match t.4 {
            Some(v) => Some(crate::text::views(v@)),
            None => None,
        },
    )
}

pub open spec fn version_models(v: Seq<VersionTuple>) -> Seq<VersionModel> {
    v.map_values(|t: VersionTuple| version_model(t))
}

/// A parsed version.
#[derive(Debug, Clone, PartialEq, Eq)]
pub struct Version {
    /// The version prefix, usually `v`, `Version` or `Rev`.
    pub version_prefix: String,
    /// The major version; the whole version when it has no dot.
    pub major: String,
    /// Everything past the dot, when there is one.
    pub minor: Option<String>,
    /// A prefix that appears before the version, such as `PS3` in `(PS3 v1.40)`.
    pub prefix: Option<String>,
    /// Suffixes that appear after the version, such as `Alt` in `(v1.40 Alt)`.
    pub suffix: Option<Vec<String>>,
}

pub fn clone_opt(o: &Option<String>) -> (res: Option<String>)
    ensures
        opt_view(res) == opt_view(*o),
{
    match o {
        Some(x) => Some(x.clone()),
        None => None,
    }
}

pub fn clone_strings(v: &Vec<String>) -> (res: Vec<String>)
    ensures
        crate::text::views(res@) == crate::text::views(v@),
{
    let mut res: Vec<String> = Vec::new();
    let mut i: usize = 0;
    while i < v.len()
        invariant
            i <= v@.len(),
            crate::text::views(res@) == crate::text::views(v@.subrange(0, i as int)),
        decreases v@.len() - i,
    {
        let x = v[i].clone();
        proof {
            crate::text::lemma_views_push(res@, x);
            assert(v@.subrange(0, i + 1) =~= v@.subrange(0, i as int).push(v@[i as int]));
            assert(crate::text::views(v@.subrange(0, i + 1)) =~= crate::text::views(
                v@.subrange(0, i as int),
            ).push(v@[i as int]@));
        }
        res.push(x);
        i = i + 1;
    }
    assert(v@.subrange(0, v@.len() as int) =~= v@);
    res
}

impl Version {
    /// The version that a tokenizer's version tuple describes.
    pub fn from_tuple(t: &VersionTuple) -> (res: Version)
        ensures
            version_model(
                (res.version_prefix, res.major, res.minor, res.prefix, res.suffix),
            ) == version_model(*t),
    {
        Version {
            version_prefix: t.0.clone(),
            major: t.1.clone(),
            minor: clone_opt(&t.2),
            prefix: clone_opt(&t.3),
            suffix: match &t.4 {
                Some(v) => Some(clone_strings(v)),
                None => None,
            },
        }
    }
}

/// A version written out: the major version, and `.` and the minor one when there is one.
pub open spec fn version_text(v: VersionModel) -> Seq<char> {
    match v.2 {
        Some(minor) => v.1 + seq!['.'] + minor,
        None => v.1,
    }
}

pub fn write_version(v: &VersionTuple) -> (res: String)
    ensures
        res@ == version_text(version_model(*v)),
{
    let mut text = v.1.clone();
    match &v.2 {
        Some(minor) => {
            proof {
                reveal_strlit(".");
                assert("."@ =~= seq!['.']);
            }
            text.append(".");
            text.append(minor.as_str());
            text
        },
        None => text,
    }
}

/// Conversion that fails where a strict reading of the value is not possible.
pub trait TryIntoStrict<T, E> {
    fn try_into_strict(self) -> Result<T, E>;
}

/// What a name says about a game.
#[derive(Debug, PartialEq, Eq)]
pub struct NameInfo {
    /// The name of the release as it appears in the file name.
    pub entry_title: String,
    /// The name with all tags removed and articles at its beginning.
    pub release_title: String,
    /// The regions of the release.
    pub region: Vec<Region>,
    /// The part number, for an entry split into parts.
    pub part_number: Option<i32>,
    /// The version of the entry.
    pub version: Option<String>,
    /// Whether the game is unlicensed.
    pub is_unlicensed: bool,
    /// Whether the game is a sample or demo of a full game.
    pub is_demo: bool,
    /// Whether the entry is a system update or BIOS.
    pub is_system: bool,
    /// The development status.
    pub status: DevelopmentStatus,
    /// The naming convention the name follows.
    pub naming_convention: NamingConvention,
}

/// Gives the information that a tokenized name holds.
pub trait ToNameInfo {
    /// Creates a new `NameInfo` object from the name data.
    fn to_name_info(&self) -> NameInfo;
}

/// The abstract content of a `NameInfo`.
pub struct NameInfoModel {
    pub entry_title: Seq<char>,
    pub release_title: Seq<char>,
    pub region: Seq<Region>,
    pub part_number: Option<i32>,
    pub version: Option<Seq<char>>,
    pub is_unlicensed: bool,
    pub is_demo: bool,
    pub is_system: bool,
    pub status: DevelopmentStatus,
    pub naming_convention: NamingConvention,
}

impl View for NameInfo {
    type V = NameInfoModel;

    open spec fn view(&self) -> NameInfoModel {
        NameInfoModel {
            entry_title: self.entry_title@,
            release_title: self.release_title@,
            region: self.region@,
            part_number: self.part_number,
            version: opt_view(self.version),
            is_unlicensed: self.is_unlicensed,
            is_demo: self.is_demo,
            is_system: self.is_system,
            status: self.status,
            naming_convention: self.naming_convention,
        }
    }
}

impl NameInfo {
    /// The region of the game.
    pub fn region(&self) -> (res: &[Region])
        ensures
            res@ == self@.region,
    {
        self.region.as_slice()
    }

    /// If this entry is split into multiple parts, the part number of this entry.
    pub fn part_number(&self) -> (res: Option<i32>)
        ensures
            res == self@.part_number,
    {
        self.part_number
    }

    /// Whether or not this game is unlicensed.
    pub fn is_unlicensed(&self) -> (res: bool)
        ensures
            res == self@.is_unlicensed,
    {
        self.is_unlicensed
    }

    /// Whether or not this game is a sample or a demo version of a full game.
    pub fn is_demo(&self) -> (res: bool)
        ensures
            res == self@.is_demo,
    {
        self.is_demo
    }

    /// Whether or not this game is a system update or BIOS file.
    pub fn is_system(&self) -> (res: bool)
        ensures
            res == self@.is_system,
    {
        self.is_system
    }

    /// The version of the game entry.
    pub fn version(&self) -> (res: Option<&str>)
        ensures
            match res {
                Some(v) => self@.version == Some(v@),
                None => self@.version is None,
            },
    {
        match &self.version {
            Some(v) => Some(v.as_str()),
            None => None,
        }
    }

    /// The name of the release, with all tags removed, and articles at the beginning of the title.
    pub fn release_title(&self) -> (res: &str)
        ensures
            res@ == self@.release_title,
    {
        self.release_title.as_str()
    }

    /// The name of the release as it appears in the filename.
    pub fn entry_title(&self) -> (res: &str)
        ensures
            res@ == self@.entry_title,
    {
        self.entry_title.as_str()
    }

    /// The development status of the game entry.
    pub fn development_status(&self) -> (res: DevelopmentStatus)
        ensures
            res == self@.status,
    {
        self.status
    }

    /// The naming convention of the structuredly named filename.
    pub fn naming_convention(&self) -> (res: NamingConvention)
        ensures
            res == self@.naming_convention,
    {
        self.naming_convention
    }
}

/// The articles that a title may carry after a comma, as in `Legend, The`.
pub open spec fn article_words() -> Seq<Seq<char>> {
    seq![
        "Eine"@,
        "The"@,
        "Der"@,
        "Die"@,
        "Das"@,
        "Ein"@,
        "Les"@,
        "Los"@,
        "Las"@,
        "An"@,
        "De"@,
        "La"@,
        "Le"@,
        "El"@,
        "A"@,
    ]
}

/// `, ` and then the article `a` stand at `k`, followed by the end or by whitespace.
pub open spec fn article_at(s: Seq<char>, k: int, a: Seq<char>) -> bool {
    &&& has_at(s, k, seq![',', ' '])
    &&& has_at(s, k + 2, a)
    &&& (k + 2 + a.len() == s.len() || (k + 2 + a.len() < s.len() && is_whitespace(
        s[k + 2 + a.len()],
    )))
}

/// The first article of the list, from index `j` on, that stands at `k`.
pub open spec fn article_from(s: Seq<char>, k: int, j: int) -> Option<int>
    decreases 15 - j,
{
    if j < 0 || j >= 15 {
        None
    } else if article_at(s, k, article_words()[j]) {
        Some(j)
    } else {
        article_from(s, k, j + 1)
    }
}

pub proof fn lemma_article_from(s: Seq<char>, k: int, j: int)
    ensures
        article_from(s, k, j) matches Some(i) ==> 0 <= i < 15 && article_at(s, k, article_words()[i]),
    decreases 15 - j,
{
    if j < 0 || j >= 15 {
    } else if article_at(s, k, article_words()[j]) {
    } else {
        lemma_article_from(s, k, j + 1);
    }
}

/// The first position from `k` on where an article stands, and which article.
pub open spec fn first_article(s: Seq<char>, k: int) -> Option<(int, int)>
    decreases s.len() - k,
{
    if k < 0 || k >= s.len() {
        None
    } else {
        match article_from(s, k, 0) {
            Some(j) => Some((k, j)),
            None => first_article(s, k + 1),
        }
    }
}

/// The title with its first trailing article moved to the front:
/// `Legend of Zelda, The - X` becomes `The Legend of Zelda - X`.
pub open spec fn move_article(s: Seq<char>) -> Seq<char> {
    match first_article(s, 0) {
        Some((k, j)) => {
            let a = article_words()[j];
            a + seq![' '] + s.subrange(0, k) + s.subrange(k + 2 + a.len(), s.len() as int)
        },
        None => s,
    }
}

/// The title with its first ` - ` replaced by `: `.
pub open spec fn replace_hyphen(s: Seq<char>) -> Seq<char> {
    match find_from(s, 0, seq![' ', '-', ' ']) {
        Some(q) => s.subrange(0, q) + seq![':', ' '] + s.subrange(q + 3, s.len() as int),
        None => s,
    }
}

/// The release title that goes with an entry title.
pub open spec fn release_title_of(entry_title: Seq<char>) -> Seq<char> {
    replace_hyphen(move_article(entry_title))
}

fn article_word(j: usize) -> (res: &'static str)
    requires
        j < 15,
    ensures
        res@ == article_words()[j as int],
{
    match j {
        0 => "Eine",
        1 => "The",
        2 => "Der",
        3 => "Die",
        4 => "Das",
        5 => "Ein",
        6 => "Les",
        7 => "Los",
        8 => "Las",
        9 => "An",
        10 => "De",
        11 => "La",
        12 => "Le",
        13 => "El",
        _ => "A",
    }
}

fn article_here(cs: &Vec<char>, k: usize) -> (res: Option<usize>)
    requires
        k < cs@.len(),
    ensures
        match res {
            Some(j) => article_from(cs@, k as int, 0) == Some(j as int) && j < 15,
            None => article_from(cs@, k as int, 0) is None,
        },
{
    proof {
        reveal_strlit(", ");
        assert(", "@ =~= seq![',', ' ']);
    }
    if !tag_at(cs, k, ", ") {
        let mut j0: usize = 0;
        while j0 < 15
            invariant
                !has_at(cs@, k as int, seq![',', ' ']),
                j0 <= 15,
                article_from(cs@, k as int, 0) == article_from(cs@, k as int, j0 as int),
            decreases 15 - j0,
        {
            j0 = j0 + 1;
        }
        return None;
    }
    let n = cs.len();
    assert(k + 2 <= n) by {
        assert(seq![',', ' '].len() == 2);
    }
    let mut j: usize = 0;
    while j < 15
        invariant
            k < cs@.len(),
            n == cs@.len(),
            k + 2 <= n,
            has_at(cs@, k as int, seq![',', ' ']),
            j <= 15,
            article_from(cs@, k as int, 0) == article_from(cs@, k as int, j as int),
        decreases 15 - j,
    {
        let a = article_word(j);
        if tag_at(cs, k + 2, a) {
            assert(k + 2 + a@.len() <= n);
            let end = k + 2 + a.unicode_len();
            if end == cs.len() || (end < cs.len() && whitespace(cs[end])) {
                return Some(j);
            }
        }
        j = j + 1;
    }
    None
}

/// Moves the first trailing article of a title to its front.
pub fn move_default_articles(title: &str) -> (res: String)
    ensures
        res@ == move_article(title@),
{
    let cs = chars_of(title);
    let mut k: usize = 0;
    while k < cs.len()
        invariant
            cs@ == title@,
            k <= cs@.len(),
            first_article(cs@, 0) == first_article(cs@, k as int),
        decreases cs@.len() - k,
    {
        match article_here(&cs, k) {
            Some(j) => {
                let a = article_word(j);
                proof {
                    lemma_article_from(cs@, k as int, 0);
                }
                let mut res = substr(a, 0, a.unicode_len());
                proof {
                    assert(a@.subrange(0, a@.len() as int) =~= a@);
                    reveal_strlit(" ");
                }
                res.append(" ");
                let head = substr(title, 0, k);
                res.append(head.as_str());
                let tail = substr(title, k + 2 + a.unicode_len(), cs.len());
                res.append(tail.as_str());
                proof {
                    assert(" "@ =~= seq![' ']);
                }
                return res;
            },
            None => {
                k = k + 1;
            },
        }
    }
    let res = substr(title, 0, cs.len());
    assert(title@.subrange(0, cs@.len() as int) =~= title@);
    res
}

/// Replaces the first ` - ` of a title by `: `.
pub fn replace_hyphen_in(title: &str) -> (res: String)
    ensures
        res@ == replace_hyphen(title@),
{
    let cs = chars_of(title);
    proof {
        reveal_strlit(" - ");
        reveal_strlit(": ");
        assert(" - "@ =~= seq![' ', '-', ' ']);
        assert(": "@ =~= seq![':', ' ']);
        lemma_find_from(cs@, 0, seq![' ', '-', ' ']);
    }
    match find_tag(&cs, 0, " - ") {
        Some(q) => {
            let mut res = substr(title, 0, q);
            res.append(": ");
            let tail = substr(title, q + 3, cs.len());
            res.append(tail.as_str());
            res
        },
        None => {
            assert(title@.subrange(0, cs@.len() as int) =~= title@);
            substr(title, 0, cs.len())
        },
    }
}

/// The release title that goes with an entry title: the first trailing
/// article moved to the front, then the first ` - ` replaced by `: `.
pub fn release_title_from(entry_title: &str) -> (res: String)
    ensures
        res@ == release_title_of(entry_title@),
{
    let moved = move_default_articles(entry_title);
    replace_hyphen_in(moved.as_str())
}


/// What a name that follows a naming convention says about a game.
pub trait StructuredlyNamed {
    /// The region of the game.
    fn region(&self) -> &[Region];
    /// If this entry is split into multiple parts, the part number of this entry.
    fn part_number(&self) -> Option<i32>;
    /// Whether or not this game is unlicensed.
    fn is_unlicensed(&self) -> bool;
    /// Whether or not this game is a sample or a demo version of a full game.
    fn is_demo(&self) -> bool;
    /// The version of the game entry.
    fn version(&self) -> Option<&str>;
    /// The name of the release, with all tags removed, and articles at the beginning of the title.
    fn release_name(&self) -> &str;
    /// The development status of the game entry.
    fn development_status(&self) -> DevelopmentStatus;
    /// The naming convention of the structuredly named filename.
    fn naming_convention(&self) -> NamingConvention;
}

impl StructuredlyNamed for NameInfo {
    fn region(&self) -> (res: &[Region])
        ensures
            res@ == self@.region,
    {
        self.region.as_slice()
    }

    fn part_number(&self) -> (res: Option<i32>)
        ensures
            res == self@.part_number,
    {
        self.part_number
    }

    fn is_unlicensed(&self) -> (res: bool)
        ensures
            res == self@.is_unlicensed,
    {
        self.is_unlicensed
    }

    fn is_demo(&self) -> (res: bool)
        ensures
            res == self@.is_demo,
    {
        self.is_demo
    }

    fn version(&self) -> (res: Option<&str>)
        ensures
            match res {
                Some(v) => self@.version == Some(v@),
                None => self@.version is None,
            },
    {
        match &self.version {
            Some(v) => Some(v.as_str()),
            None => None,
        }
    }

    fn release_name(&self) -> (res: &str)
        ensures
            res@ == self@.release_title,
    {
        self.release_title.as_str()
    }

    fn development_status(&self) -> (res: DevelopmentStatus)
        ensures
            res == self@.status,
    {
        self.status
    }

    fn naming_convention(&self) -> (res: NamingConvention)
        ensures
            res == self@.naming_convention,
    {
        self.naming_convention
    }
}

} // verus!
