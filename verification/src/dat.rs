//! The entries of DAT files: games, the ROMs they are made of, and their
//! serials, built from what the DAT of each cataloguing group holds.

use vstd::prelude::*;
use crate::error::ParseError;
use crate::naming::common::{NameInfo, NameInfoModel};
use crate::naming::nointro::{nointro_name_info, nointro_tokens, NoIntroNameable};
use crate::naming::tosec::{tosec_title_defined, tosec_title_info, TOSECNameable};
use crate::stone::{lookup, pair_views, PlatformId, PlatformInfo, has_bios_md5};
use crate::text::{
    ascii_lower, char_at, chars_of, find_from, find_tag, has_at, is_ascii_alpha,
    is_ascii_digit, lemma_find_from, opt_view, owned, range_is, run, run_len, span, str_eq,
    substr, take_while, to_ascii_lowercase, trim_range, trimmed, CharClass, byte_sliceable,
    bytes_slice, char_at_byte, char_at_byte_from, lemma_byte_len_grows, lemma_char_at_byte_from,
};

verus! {

/// A single file that is a part of a game entry.
#[derive(Debug)]
pub struct RomEntry {
    /// The MD5 hash of the ROM
    pub md5: Option<String>,
    /// The SHA1 hash of the ROM
    pub sha1: Option<String>,
    /// The CRC hash of the ROM
    pub crc: Option<String>,
    /// The canonical file name of the ROM
    pub file_name: String,
    /// The size of the ROM
    pub size: i64,
}

impl RomEntry {
    /// The MD5 hash of the ROM
    pub fn hash_md5(&self) -> (res: Option<&str>)
        ensures
            match res {
                Some(h) => opt_view(self.md5) == Some(h@),
                None => self.md5 is None,
            },
    {
        match &self.md5 {
            Some(h) => Some(h.as_str()),
            None => None,
        }
    }

    /// The SHA1 hash of the ROM
    pub fn hash_sha1(&self) -> (res: Option<&str>)
        ensures
            match res {
                Some(h) => opt_view(self.sha1) == Some(h@),
                None => self.sha1 is None,
            },
    {
        match &self.sha1 {
            Some(h) => Some(h.as_str()),
            None => None,
        }
    }

    /// The CRC hash of the ROM
    pub fn hash_crc(&self) -> (res: Option<&str>)
        ensures
            match res {
                Some(h) => opt_view(self.crc) == Some(h@),
                None => self.crc is None,
            },
    {
        match &self.crc {
            Some(h) => Some(h.as_str()),
            None => None,
        }
    }

    /// The canonical file name of the ROM
    pub fn file_name(&self) -> (res: &str)
        ensures
            res@ == self.file_name@,
    {
        self.file_name.as_str()
    }

    /// The size of the ROM
    pub fn size(&self) -> (res: i64)
        ensures
            res == self.size,
    {
        self.size
    }
}

/// Two ROM entries are the same ROM when both have all three hashes and
/// each hash of one equals the same hash of the other.
pub open spec fn same_rom(a: RomEntry, b: RomEntry) -> bool {
    match (a.md5, b.md5, a.sha1, b.sha1, a.crc, b.crc) {
        (Some(m1), Some(m2), Some(s1), Some(s2), Some(c1), Some(c2)) => m1@ == m2@ && s1@ == s2@
            && c1@ == c2@,
        _ => false,
    }
}

fn same_hash(a: &Option<String>, b: &Option<String>) -> (res: Option<bool>)
    ensures
        match res {
            Some(eq) => a is Some && b is Some && eq == (opt_view(*a) == opt_view(*b)),
            None => a is None || b is None,
        },
{
    match (a, b) {
        (Some(x), Some(y)) => Some(str_eq(x.as_str(), y.as_str())),
        _ => None,
    }
}

impl PartialEq for RomEntry {
    fn eq(&self, other: &RomEntry) -> (res: bool) {
        let m = same_hash(&self.md5, &other.md5);
        let s = same_hash(&self.sha1, &other.sha1);
        let c = same_hash(&self.crc, &other.crc);
        match (m, s, c) {
            (Some(m), Some(s), Some(c)) => m && s && c,
            _ => false,
        }
    }
}

impl vstd::std_specs::cmp::PartialEqSpecImpl for RomEntry {
    open spec fn obeys_eq_spec() -> bool {
        true
    }

    open spec fn eq_spec(&self, other: &RomEntry) -> bool {
        same_rom(*self, *other)
    }
}

/// Two ROM entries are the same ROM whichever is compared with which.
pub proof fn law_same_rom_symmetric(a: RomEntry, b: RomEntry)
    ensures
        same_rom(a, b) == same_rom(b, a),
{
}

/// Two ROM entries that are the same ROM as a third are the same ROM.
pub proof fn law_same_rom_transitive(a: RomEntry, b: RomEntry, c: RomEntry)
    requires
        same_rom(a, b),
        same_rom(b, c),
    ensures
        same_rom(a, c),
{
}

/// A ROM entry is the same ROM as itself exactly when it has all three hashes.
pub proof fn law_same_rom_reflexive(a: RomEntry)
    ensures
        same_rom(a, a) == (a.md5 is Some && a.sha1 is Some && a.crc is Some),
{
}

/// A serial number that a game was released under.
#[derive(Debug, PartialEq, Eq)]
pub struct Serial(pub String);

/// A Sony serial as it should be written: ASCII letters, `-`, digits (what
/// `\d` matches), and optionally `/` and word characters (what `\w` matches).
pub open spec fn sony_canonical(s: Seq<char>) -> bool {
    let a = run(s, 0, CharClass::Alpha) as int;
    let d = run(s, a + 1, CharClass::UniDigit) as int;
    let e = a + 1 + d;
    &&& a > 0
    &&& char_at(s, a, '-')
    &&& d > 0
    &&& (e == s.len() || (char_at(s, e, '/') && run(s, e + 1, CharClass::Word) > 0 && e + 1 + (run(
        s,
        e + 1,
        CharClass::Word,
    ) as int) == s.len()))
}

/// Groups of a separator (`-`, `_`, ` ` or `/`) and word characters, from `i`
/// to the end.
pub open spec fn separated_words(s: Seq<char>, i: int) -> bool
    decreases s.len() - i,
{
    if i < 0 || i > s.len() {
        false
    } else if i == s.len() {
        true
    } else {
        let n = run(s, i + 1, CharClass::Word) as int;
        proof {
            crate::text::lemma_run(s, i + 1, CharClass::Word);
        }
        (s[i] == '-' || s[i] == '_' || s[i] == ' ' || s[i] == '/') && n > 0 && separated_words(
            s,
            i + 1 + n,
        )
    }
}

/// A Sony serial in another writing: ASCII letters, a separator (`-`, `_` or
/// ` `), digits (what `\d` matches), then groups of a separator and word
/// characters (what `\w` matches); rewritten as the letters, `-` and the
/// digits.
pub open spec fn sony_rewritten(s: Seq<char>) -> Option<Seq<char>> {
    let a = run(s, 0, CharClass::Alpha) as int;
    let d = run(s, a + 1, CharClass::UniDigit) as int;
    if a > 0 && (char_at(s, a, '-') || char_at(s, a, '_') || char_at(s, a, ' ')) && d > 0
        && separated_words(s, a + 1 + d) {
        Some(s.subrange(0, a) + seq!['-'] + s.subrange(a + 1, a + 1 + d))
    } else {
        None
    }
}

/// A Nintendo serial: the prefix, four word characters, `-`, and at least one
/// word character, `-`, `(` or `)` up to the end.
pub open spec fn nintendo_form(s: Seq<char>, prefix: Seq<char>) -> bool {
    let p = prefix.len() as int;
    let t = run(s, p + 5, CharClass::WordDashParens) as int;
    &&& has_at(s, 0, prefix)
    &&& span(s, p, CharClass::Word, 4) == 4
    &&& char_at(s, p + 4, '-')
    &&& t > 0
    &&& p + 5 + t == s.len()
}

/// The prefix of the serials of a Nintendo platform.
pub open spec fn nintendo_prefix(ruleset: Seq<char>) -> Option<Seq<char>> {
    if ruleset == "NINTENDO_GCN"@ {
        Some("DL-DOL-"@)
    } else if ruleset == "NINTENDO_WII"@ {
        Some("RVL-"@)
    } else if ruleset == "NINTENDO_WIIU"@ {
        Some("WUP-P-"@)
    } else if ruleset == "NINTENDO_3DS"@ {
        Some("CTR-P-"@)
    } else {
        None
    }
}

/// The Sony platforms.
pub open spec fn is_sony(ruleset: Seq<char>) -> bool {
    ||| ruleset == "SONY_PSX"@
    ||| ruleset == "SONY_PS2"@
    ||| ruleset == "SONY_PS3"@
    ||| ruleset == "SONY_PS4"@
    ||| ruleset == "SONY_PSP"@
    ||| ruleset == "SONY_PSV"@
}

/// A serial as the platform's rules normalize it: a Sony serial not written
/// as it should be is rewritten; of a Nintendo serial only the characters
/// written in its UTF-8 bytes 7 to 11 are kept; other serials stay as they are.
pub open spec fn normalized(ruleset: Seq<char>, s: Seq<char>) -> Seq<char> {
    if is_sony(ruleset) {
        if sony_canonical(s) {
            s
        } else {
            match sony_rewritten(s) {
                Some(r) => r,
                None => s,
            }
        }
    } else {
        match nintendo_prefix(ruleset) {
            Some(prefix) => if nintendo_form(s, prefix) {
                bytes_slice(s, 7, 11)
            } else {
                s
            },
            None => s,
        }
    }
}

/// Where normalizing slices bytes 7 to 11 of a serial that they do not fall
/// between characters of.
pub open spec fn normalization_defined(ruleset: Seq<char>, s: Seq<char>) -> bool {
    match nintendo_prefix(ruleset) {
        Some(prefix) => !is_sony(ruleset) && nintendo_form(s, prefix) ==> byte_sliceable(s, 7, 11),
        None => true,
    }
}

fn is_word_class(cs: &Vec<char>, from: usize) -> (res: usize)
    requires
        from <= cs@.len(),
    ensures
        res == run(cs@, from as int, CharClass::Word),
        from + res <= cs@.len(),
{
    run_len(cs, from, CharClass::Word)
}

fn check_separated_words(cs: &Vec<char>, i0: usize) -> (res: bool)
    requires
        i0 <= cs@.len(),
    ensures
        res == separated_words(cs@, i0 as int),
{
    let len = cs.len();
    let mut i = i0;
    loop
        invariant
            i0 <= i <= cs@.len(),
            len == cs@.len(),
            separated_words(cs@, i0 as int) == separated_words(cs@, i as int),
        decreases cs@.len() - i,
    {
        if i == len {
            return true;
        }
        let c = cs[i];
        if !(c == '-' || c == '_' || c == ' ' || c == '/') {
            return false;
        }
        let n = is_word_class(cs, i + 1);
        if n == 0 {
            return false;
        }
        i = i + 1 + n;
    }
}

fn check_sony_canonical(cs: &Vec<char>) -> (res: bool)
    ensures
        res == sony_canonical(cs@),
{
    let len = cs.len();
    let a = run_len(cs, 0, CharClass::Alpha);
    if a == 0 || !(a < len && cs[a] == '-') {
        return false;
    }
    let d = run_len(cs, a + 1, CharClass::UniDigit);
    if d == 0 {
        return false;
    }
    let e = a + 1 + d;
    if e == len {
        return true;
    }
    if !(cs[e] == '/') {
        return false;
    }
    let w = is_word_class(cs, e + 1);
    w > 0 && e + 1 + w == len
}

fn sony_rewrite(s: &str, cs: &Vec<char>) -> (res: Option<String>)
    requires
        cs@ == s@,
    ensures
        match res {
            Some(r) => sony_rewritten(s@) == Some(r@),
            None => sony_rewritten(s@) is None,
        },
{
    let len = cs.len();
    let a = run_len(cs, 0, CharClass::Alpha);
    if a == 0 || !(a < len && (cs[a] == '-' || cs[a] == '_' || cs[a] == ' ')) {
        return None;
    }
    let d = run_len(cs, a + 1, CharClass::UniDigit);
    if d == 0 || !check_separated_words(cs, a + 1 + d) {
        return None;
    }
    let mut r = substr(s, 0, a);
    proof {
        reveal_strlit("-");
        assert("-"@ =~= seq!['-']);
    }
    r.append("-");
    let digits = substr(s, a + 1, a + 1 + d);
    r.append(digits.as_str());
    Some(r)
}

fn ruleset_prefix(ruleset: &str) -> (res: Option<&'static str>)
    ensures
        match res {
            Some(p) => nintendo_prefix(ruleset@) == Some(p@),
            None => nintendo_prefix(ruleset@) is None,
        },
{
    if str_eq(ruleset, "NINTENDO_GCN") {
        Some("DL-DOL-")
    } else if str_eq(ruleset, "NINTENDO_WII") {
        Some("RVL-")
    } else if str_eq(ruleset, "NINTENDO_WIIU") {
        Some("WUP-P-")
    } else if str_eq(ruleset, "NINTENDO_3DS") {
        Some("CTR-P-")
    } else {
        None
    }
}

fn check_nintendo_form(cs: &Vec<char>, prefix: &str) -> (res: bool)
    ensures
        res == nintendo_form(cs@, prefix@),
{
    let len = cs.len();
    if !tag_at_start(cs, prefix) {
        return false;
    }
    let p = prefix.unicode_len();
    if take_while(cs, p, CharClass::Word, 4) != 4 {
        return false;
    }
    if !(p + 4 < len && cs[p + 4] == '-') {
        return false;
    }
    let t = run_len(cs, p + 5, CharClass::WordDashParens);
    t > 0 && p + 5 + t == len
}

fn tag_at_start(cs: &Vec<char>, prefix: &str) -> (res: bool)
    ensures
        res == has_at(cs@, 0, prefix@),
        res ==> prefix@.len() <= cs@.len(),
{
    crate::text::tag_at(cs, 0, prefix)
}

fn sony_ruleset(ruleset: &str) -> (res: bool)
    ensures
        res == is_sony(ruleset@),
{
    str_eq(ruleset, "SONY_PSX") || str_eq(ruleset, "SONY_PS2") || str_eq(ruleset, "SONY_PS3")
        || str_eq(ruleset, "SONY_PS4") || str_eq(ruleset, "SONY_PSP") || str_eq(ruleset, "SONY_PSV")
}

impl Serial {
    /// The serial written `serial_str`.
    pub fn new(serial_str: String) -> (res: Serial)
        ensures
            res.0@ == serial_str@,
    {
        Serial(serial_str)
    }

    /// The serial as it is written.
    pub fn as_ref(&self) -> (res: &str)
        ensures
            res@ == self.0@,
    {
        self.0.as_str()
    }

    /// The serial as the rules of the platform `ruleset` write it.
    pub fn as_normalized(&self, ruleset: &PlatformId) -> (res: Serial)
        requires
            normalization_defined(ruleset.0@, self.0@),
        ensures
            res.0@ == normalized(ruleset.0@, self.0@),
    {
        let s = self.0.as_str();
        let cs = chars_of(s);
        let rules = ruleset.as_ref();
        if sony_ruleset(rules) {
            if check_sony_canonical(&cs) {
                return Serial(self.0.clone());
            }
            return match sony_rewrite(s, &cs) {
                Some(r) => Serial(r),
                None => Serial(self.0.clone()),
            };
        }
        match ruleset_prefix(rules) {
            Some(prefix) => {
                if check_nintendo_form(&cs, prefix) {
                    let a = char_at_byte(&cs, 7);
                    let b = char_at_byte(&cs, 11);
                    match (a, b) {
                        (Some(a), Some(b)) => {
                            proof {
                                lemma_char_at_byte_from(cs@, 7, 0);
                                lemma_char_at_byte_from(cs@, 11, 0);
                                if b < a {
                                    lemma_byte_len_grows(cs@, b as int, a as int);
                                }
                            }
                            Serial(substr(s, a, b))
                        },
                        _ => Serial(self.0.clone()),
                    }
                } else {
                    Serial(self.0.clone())
                }
            },
            None => Serial(self.0.clone()),
        }
    }
}

pub proof fn lemma_sony_rewritten_canonical(s: Seq<char>)
    requires
        sony_rewritten(s) is Some,
    ensures
        sony_canonical(sony_rewritten(s).unwrap()),
{
    let a = run(s, 0, CharClass::Alpha) as int;
    let d = run(s, a + 1, CharClass::UniDigit) as int;
    let r = sony_rewritten(s).unwrap();
    crate::text::lemma_run(s, 0, CharClass::Alpha);
    crate::text::lemma_run(s, a + 1, CharClass::UniDigit);
    assert(r.len() == a + 1 + d);
    assert forall|i: int| 0 <= i < a implies crate::text::in_class(CharClass::Alpha, #[trigger] r[i]) by {
        assert(r[i] == s[i]);
    }
    assert forall|i: int| a + 1 <= i < a + 1 + d implies crate::text::in_class(
        CharClass::UniDigit,
        #[trigger] r[i],
    ) by {
        assert(r[i] == s[i]);
    }
    assert(r[a] == '-');
    lemma_span_prefix(r, 0, CharClass::Alpha, r.len() as nat, a);
    lemma_span_prefix(r, a + 1, CharClass::UniDigit, r.len() as nat, d);
}

proof fn lemma_span_prefix(r: Seq<char>, from: int, cls: CharClass, m: nat, n: int)
    requires
        0 <= from,
        0 <= n <= m,
        from + n <= r.len(),
        forall|i: int| from <= i < from + n ==> crate::text::in_class(cls, #[trigger] r[i]),
        from + n == r.len() || (from + n < r.len() && !crate::text::in_class(cls, r[from + n])),
    ensures
        span(r, from, cls, m) == n,
    decreases n,
{
    if n > 0 {
        assert(crate::text::in_class(cls, r[from]));
        lemma_span_prefix(r, from + 1, cls, (m - 1) as nat, n - 1);
    }
}

proof fn lemma_run_is(s: Seq<char>, p: int, q: int, cls: CharClass)
    requires
        0 <= p <= q <= s.len(),
        forall|k: int| p <= k < q ==> crate::text::in_class(cls, #[trigger] s[k]),
        q < s.len() ==> !crate::text::in_class(cls, s[q]),
    ensures
        run(s, p, cls) == q - p,
{
    crate::text::lemma_run(s, p, cls);
    let r = run(s, p, cls) as int;
    if r < q - p {
        assert(crate::text::in_class(cls, s[p + r]));
    }
    if r > q - p {
        assert(crate::text::in_class(cls, s[q]));
    }
}

/// On every Sony platform (`SONY_PSX`, `SONY_PS2`, `SONY_PS3`, `SONY_PS4`,
/// `SONY_PSP`, `SONY_PSV`) a serial made of ASCII letters, `_` or a space, and
/// ASCII digits normalizes to the letters, `-` and the digits.
pub proof fn law_sony_serials_rewritten(ruleset: Seq<char>, letters: Seq<char>, sep: char, digits: Seq<char>)
    requires
        ruleset == "SONY_PSX"@ || ruleset == "SONY_PS2"@ || ruleset == "SONY_PS3"@ || ruleset
            == "SONY_PS4"@ || ruleset == "SONY_PSP"@ || ruleset == "SONY_PSV"@,
        letters.len() > 0,
        forall|k: int| 0 <= k < letters.len() ==> is_ascii_alpha(#[trigger] letters[k]),
        sep == '_' || sep == ' ',
        digits.len() > 0,
        forall|k: int| 0 <= k < digits.len() ==> is_ascii_digit(#[trigger] digits[k]),
    ensures
        normalized(ruleset, letters + seq![sep] + digits) == letters + seq!['-'] + digits,
{
    let s = letters + seq![sep] + digits;
    let a = letters.len() as int;
    let d = digits.len() as int;
    assert forall|k: int| 0 <= k < a implies crate::text::in_class(CharClass::Alpha, #[trigger] s[k]) by {
        assert(s[k] == letters[k]);
    }
    assert(s[a] == sep);
    lemma_run_is(s, 0, a, CharClass::Alpha);
    assert forall|k: int| a + 1 <= k < a + 1 + d implies crate::text::in_class(
        CharClass::UniDigit,
        #[trigger] s[k],
    ) by {
        assert(s[k] == digits[k - a - 1]);
    }
    lemma_run_is(s, a + 1, a + 1 + d, CharClass::UniDigit);
    assert(s.len() == a + 1 + d);
    assert(!sony_canonical(s));
    assert(s.subrange(0, a) =~= letters);
    assert(s.subrange(a + 1, a + 1 + d) =~= digits);
    assert(sony_rewritten(s) == Some(letters + seq!['-'] + digits));
}

/// The six Sony platforms normalize every serial alike.
pub proof fn law_sony_platforms_agree(r1: Seq<char>, r2: Seq<char>, s: Seq<char>)
    requires
        r1 == "SONY_PSX"@ || r1 == "SONY_PS2"@ || r1 == "SONY_PS3"@ || r1 == "SONY_PS4"@ || r1
            == "SONY_PSP"@ || r1 == "SONY_PSV"@,
        r2 == "SONY_PSX"@ || r2 == "SONY_PS2"@ || r2 == "SONY_PS3"@ || r2 == "SONY_PS4"@ || r2
            == "SONY_PSP"@ || r2 == "SONY_PSV"@,
    ensures
        normalized(r1, s) == normalized(r2, s),
{
}

/// A ROM whose MD5 hash is that of one of the platform's BIOS dumps has the
/// platform's BIOS mimetype, whatever its file name and extension.
pub proof fn law_bios_hash_gives_bios_mimetype(rom: RomEntry, platform: PlatformInfo, i: int, j: int)
    requires
        rom.md5 is Some,
        platform.bios_files matches Some(v) && 0 <= i < v@.len() && 0 <= j < v@[i].1@.len()
            && v@[i].1@[j]@ == rom.md5.unwrap()@,
    ensures
        rom_mimetype(rom, platform) == lookup(pair_views(platform.file_types@), "BIOS"@),
{
    let v = platform.bios_files.unwrap();
    assert(v@[i].1@[j]@ == rom.md5.unwrap()@);
    assert(has_bios_md5(platform.bios_files, rom.md5.unwrap()@));
}

/// A ROM whose MD5 hash is no BIOS dump's, or that has no MD5 hash, has the
/// mimetype of its extension where the platform has one, and otherwise the
/// mimetype of resources.
pub proof fn law_other_roms_by_extension(rom: RomEntry, platform: PlatformInfo)
    requires
        !(rom.md5 matches Some(h) && platform.bios_files matches Some(v) && exists|i: int, j: int|
            0 <= i < v@.len() && 0 <= j < v@[i].1@.len() && (#[trigger] v@[i].1@[j])@ == h@),
    ensures
        rom_mimetype(rom, platform) == match extension_of(rom.file_name@) {
            Some(ext) => if lookup(pair_views(platform.file_types@), ext) is Some {
                lookup(pair_views(platform.file_types@), ext)
            } else {
                lookup(pair_views(platform.file_types@), "RSRC"@)
            },
            None => lookup(pair_views(platform.file_types@), "RSRC"@),
        },
{
}

/// Normalizing a serial a second time changes nothing.
pub proof fn law_normalized_idempotent(ruleset: Seq<char>, s: Seq<char>)
    requires
        normalization_defined(ruleset, s),
    ensures
        normalized(ruleset, normalized(ruleset, s)) == normalized(ruleset, s),
{
    if is_sony(ruleset) {
        if !sony_canonical(s) && sony_rewritten(s) is Some {
            lemma_sony_rewritten_canonical(s);
        }
    } else {
        match nintendo_prefix(ruleset) {
            Some(prefix) => {
                if nintendo_form(s, prefix) {
                    let a = char_at_byte_from(s, 7, 0).unwrap();
                    let b = char_at_byte_from(s, 11, 0).unwrap();
                    lemma_char_at_byte_from(s, 7, 0);
                    lemma_char_at_byte_from(s, 11, 0);
                    if b < a {
                        lemma_byte_len_grows(s, b, a);
                    }
                    lemma_byte_len_grows(s, a, b);
                    let r = s.subrange(a, b);
                    assert(r.len() <= 4);
                    reveal_strlit("DL-DOL-");
                    reveal_strlit("RVL-");
                    reveal_strlit("WUP-P-");
                    reveal_strlit("CTR-P-");
                    assert(!nintendo_form(r, prefix));
                }
            },
            None => {},
        }
    }
}


/// A single entry that describes a game, which may hold several ROM entries.
#[derive(Debug)]
pub struct GameEntry {
    /// The name of the game entry, as is.
    pub entry_name: String,
    /// The ROM entries that are part of this game entry.
    pub rom_entries: Vec<RomEntry>,
    /// The serials this game was released under.
    pub serials: Vec<Serial>,
    /// The source of the game.
    pub source: &'static str,
    /// What the name of the entry says, where its convention is known.
    pub info: Option<NameInfo>,
}

impl GameEntry {
    /// The name of the game entry, as is.
    pub fn entry_name(&self) -> (res: &str)
        ensures
            res@ == self.entry_name@,
    {
        self.entry_name.as_str()
    }

    /// The ROM entries that are part of this game entry.
    pub fn rom_entries(&self) -> (res: &[RomEntry])
        ensures
            res@ == self.rom_entries@,
    {
        self.rom_entries.as_slice()
    }

    /// The serials this game was released under.
    pub fn serials(&self) -> (res: &[Serial])
        ensures
            res@ == self.serials@,
    {
        self.serials.as_slice()
    }

    /// The source of the game.
    pub fn source(&self) -> (res: &str)
        ensures
            res@ == self.source@,
    {
        self.source
    }

    /// What the name of the entry says, if its convention is known.
    pub fn info(&self) -> (res: Option<&NameInfo>)
        ensures
            match res {
                Some(i) => self.info == Some(*i),
                None => self.info is None,
            },
    {
        match &self.info {
            Some(i) => Some(i),
            None => None,
        }
    }
}

/// A ROM as a DAT file describes it.
#[derive(Debug)]
pub struct DatRom {
    pub name: String,
    pub size: i64,
    pub crc: String,
    pub md5: String,
    pub sha1: String,
    /// The serials of the ROM, separated by commas, where the DAT gives them.
    pub serial: Option<String>,
}

/// Whitespace removed at both ends, as `str::trim` does.
pub open spec fn trim(s: Seq<char>) -> Seq<char> {
    trimmed(s, 0, s.len() as int)
}

/// Spaces replaced by `-`.
pub open spec fn dash_spaces(s: Seq<char>) -> Seq<char> {
    s.map_values(|c: char| if c == ' ' { '-' } else { c })
}

/// A piece of a serial field, trimmed, and with spaces replaced by `-` when `dashed`.
pub open spec fn serial_piece(q: Seq<char>, dashed: bool) -> Seq<char> {
    if dashed {
        dash_spaces(trim(q))
    } else {
        trim(q)
    }
}

/// The comma-separated pieces of `s` from position `p` on, each made a serial.
pub open spec fn serial_pieces_from(s: Seq<char>, p: int, dashed: bool) -> Seq<Seq<char>>
    decreases s.len() - p,
{
    if p < 0 || p > s.len() {
        seq![]
    } else {
        match find_from(s, p, seq![',']) {
            Some(q) => {
                proof {
                    lemma_find_from(s, p, seq![',']);
                }
                seq![serial_piece(s.subrange(p, q), dashed)] + serial_pieces_from(s, q + 1, dashed)
            },
            None => seq![serial_piece(s.subrange(p, s.len() as int), dashed)],
        }
    }
}

/// The serials that the No-Intro DAT gives in a serial field: each
/// comma-separated piece, trimmed.
pub open spec fn nointro_serial_pieces(s: Seq<char>) -> Seq<Seq<char>> {
    serial_pieces_from(s, 0, false)
}

/// The serials that the redump.org DAT gives in a serial field: each
/// comma-separated piece, trimmed, with spaces replaced by `-`.
pub open spec fn redump_serial_pieces(s: Seq<char>) -> Seq<Seq<char>> {
    serial_pieces_from(s, 0, true)
}

/// The serials of the ROMs, in order: each serial field's pieces.
pub open spec fn rom_serials(roms: Seq<DatRom>) -> Seq<Seq<char>>
    decreases roms.len(),
{
    if roms.len() == 0 {
        seq![]
    } else {
        rom_serials(roms.drop_last()) + match roms.last().serial {
            Some(x) => nointro_serial_pieces(x@),
            None => seq![],
        }
    }
}

pub open spec fn serial_views(v: Seq<Serial>) -> Seq<Seq<char>> {
    v.map_values(|x: Serial| x.0@)
}

fn push_serial(v: &mut Vec<Serial>, x: String)
    ensures
        serial_views(final(v)@) == serial_views(old(v)@).push(x@),
{
    let ghost xv = x@;
    v.push(Serial(x));
    assert(serial_views(v@) =~= serial_views(old(v)@).push(xv));
}

fn trim_str(s: &str) -> (res: String)
    ensures
        res@ == trim(s@),
{
    let cs = chars_of(s);
    let (a, b) = trim_range(&cs, 0, cs.len());
    substr(s, a, b)
}

fn dash_for_spaces(s: &str) -> (res: String)
    ensures
        res@ == dash_spaces(s@),
{
    let cs = chars_of(s);
    let mut res = String::new();
    let mut i: usize = 0;
    proof {
        reveal_strlit("-");
    }
    while i < cs.len()
        invariant
            cs@ == s@,
            i <= cs@.len(),
            res@ == dash_spaces(s@.subrange(0, i as int)),
        decreases cs@.len() - i,
    {
        proof {
            reveal_strlit("-");
            assert("-"@ =~= seq!['-']);
            assert(dash_spaces(s@.subrange(0, i + 1)) =~= dash_spaces(s@.subrange(0, i as int))
                + dash_spaces(s@.subrange(i as int, i + 1)));
            assert(dash_spaces(s@.subrange(i as int, i + 1)) =~= seq![
                if cs@[i as int] == ' ' {
                    '-'
                } else {
                    cs@[i as int]
                },
            ]);
        }
        if cs[i] == ' ' {
            res.append("-");
        } else {
            let c = substr(s, i, i + 1);
            assert(c@ =~= seq![cs@[i as int]]);
            res.append(c.as_str());
        }
        i = i + 1;
    }
    assert(s@.subrange(0, s@.len() as int) =~= s@);
    res
}

/// Adds the serials of a serial field to `acc`, each trimmed and, for
/// redump.org, with spaces replaced by `-`.
fn add_serial_pieces(field: &str, dashed: bool, acc: &mut Vec<Serial>)
    ensures
        serial_views(final(acc)@) == serial_views(old(acc)@) + serial_pieces_from(
            field@,
            0,
            dashed,
        ),
{
    let cs = chars_of(field);
    let len = cs.len();
    let ghost start = serial_views(acc@);
    let mut p: usize = 0;
    loop
        invariant
            cs@ == field@,
            len == cs@.len(),
            p <= len,
            start == serial_views(old(acc)@),
            start + serial_pieces_from(cs@, 0, dashed) == serial_views(acc@) + serial_pieces_from(
                cs@,
                p as int,
                dashed,
            ),
        decreases len - p,
    {
        proof {
            reveal_strlit(",");
            assert(","@ =~= seq![',']);
            lemma_find_from(cs@, p as int, seq![',']);
        }
        let (q, last) = match find_tag(&cs, p, ",") {
            Some(q) => (q, false),
            None => (len, true),
        };
        let piece = substr(field, p, q);
        let t = trim_str(piece.as_str());
        let v = if dashed {
            dash_for_spaces(t.as_str())
        } else {
            t
        };
        assert(v@ == serial_piece(cs@.subrange(p as int, q as int), dashed));
        let ghost rest = serial_pieces_from(cs@, p as int, dashed);
        let ghost before = serial_views(acc@);
        let ghost vv = v@;
        push_serial(acc, v);
        if last {
            proof {
                assert(rest =~= seq![vv]);
                assert(before + rest =~= before.push(vv));
            }
            return;
        }
        proof {
            assert(rest =~= seq![vv] + serial_pieces_from(cs@, q + 1, dashed));
            assert(before + rest =~= before.push(vv) + serial_pieces_from(cs@, q + 1, dashed));
        }
        p = q + 1;
    }
}

fn rom_entry(rom: &DatRom, lowercase: bool) -> (res: RomEntry)
    ensures
        res@ == rom_model(*rom, lowercase),
{
    let (md5, sha1, crc) = if lowercase {
        (
            to_ascii_lowercase(rom.md5.as_str()),
            to_ascii_lowercase(rom.sha1.as_str()),
            to_ascii_lowercase(rom.crc.as_str()),
        )
    } else {
        (rom.md5.clone(), rom.sha1.clone(), rom.crc.clone())
    };
    RomEntry {
        md5: Some(md5),
        sha1: Some(sha1),
        crc: Some(crc),
        file_name: rom.name.clone(),
        size: rom.size,
    }
}

/// The abstract content of a ROM entry.
pub struct RomModel {
    pub md5: Option<Seq<char>>,
    pub sha1: Option<Seq<char>>,
    pub crc: Option<Seq<char>>,
    pub file_name: Seq<char>,
    pub size: i64,
}

impl View for RomEntry {
    type V = RomModel;

    open spec fn view(&self) -> RomModel {
        RomModel {
            md5: opt_view(self.md5),
            sha1: opt_view(self.sha1),
            crc: opt_view(self.crc),
            file_name: self.file_name@,
            size: self.size,
        }
    }
}

/// The ROM entry of a DAT's ROM: all three hashes, lower-cased where the
/// source writes them in either case.
pub open spec fn rom_model(rom: DatRom, lowercase: bool) -> RomModel {
    let f = |h: Seq<char>| if lowercase { ascii_lower(h) } else { h };
    RomModel {
        md5: Some(f(rom.md5@)),
        sha1: Some(f(rom.sha1@)),
        crc: Some(f(rom.crc@)),
        file_name: rom.name@,
        size: rom.size,
    }
}

pub open spec fn rom_models(v: Seq<RomEntry>) -> Seq<RomModel> {
    v.map_values(|r: RomEntry| r@)
}

fn rom_entries(roms: &Vec<DatRom>, lowercase: bool) -> (res: Vec<RomEntry>)
    ensures
        rom_models(res@) == roms@.map_values(|r: DatRom| rom_model(r, lowercase)),
{
    let mut res: Vec<RomEntry> = Vec::new();
    let mut i: usize = 0;
    while i < roms.len()
        invariant
            i <= roms@.len(),
            rom_models(res@) == roms@.subrange(0, i as int).map_values(
                |r: DatRom| rom_model(r, lowercase),
            ),
        decreases roms@.len() - i,
    {
        let e = rom_entry(&roms[i], lowercase);
        proof {
            assert(rom_models(res@.push(e)) =~= rom_models(res@).push(e@));
            assert(roms@.subrange(0, i + 1).map_values(|r: DatRom| rom_model(r, lowercase))
                =~= roms@.subrange(0, i as int).map_values(|r: DatRom| rom_model(r, lowercase)).push(
                rom_model(roms@[i as int], lowercase),
            ));
        }
        res.push(e);
        i = i + 1;
    }
    assert(roms@.subrange(0, roms@.len() as int) =~= roms@);
    res
}

fn nointro_serials(roms: &Vec<DatRom>) -> (res: Vec<Serial>)
    ensures
        serial_views(res@) == rom_serials(roms@),
{
    let mut res: Vec<Serial> = Vec::new();
    assert(serial_views(res@) =~= Seq::<Seq<char>>::empty());
    let mut i: usize = 0;
    while i < roms.len()
        invariant
            i <= roms@.len(),
            serial_views(res@) == rom_serials(roms@.subrange(0, i as int)),
        decreases roms@.len() - i,
    {
        proof {
            assert(roms@.subrange(0, i + 1).drop_last() =~= roms@.subrange(0, i as int));
        }
        match &roms[i].serial {
            Some(x) => {
                add_serial_pieces(x.as_str(), false, &mut res);
            },
            None => {},
        }
        i = i + 1;
    }
    assert(roms@.subrange(0, roms@.len() as int) =~= roms@);
    res
}

/// The abstract content of a game entry.
pub struct GameModel {
    pub entry_name: Seq<char>,
    pub rom_entries: Seq<RomModel>,
    pub serials: Seq<Seq<char>>,
    pub source: Seq<char>,
    pub info: Option<NameInfoModel>,
}

impl View for GameEntry {
    type V = GameModel;

    open spec fn view(&self) -> GameModel {
        GameModel {
            entry_name: self.entry_name@,
            rom_entries: rom_models(self.rom_entries@),
            serials: serial_views(self.serials@),
            source: self.source@,
            info: match self.info {
                Some(i) => Some(i@),
                None => None,
            },
        }
    }
}

/// The error of a name that does not follow its convention.
pub open spec fn bad_name(e: ParseError, c: crate::naming::common::NamingConvention, name: Seq<char>) -> bool {
    e matches ParseError::BadFileNameError(cc, n) && cc == c && n@ == name
}

impl GameEntry {
    /// The entry of a game of a No-Intro DAT: its name read in the No-Intro
    /// convention, its ROMs with lower-cased hashes, and the serials of its ROMs.
    pub fn try_from_nointro_game(name: &str, roms: &Vec<DatRom>) -> (res: Result<GameEntry, ParseError>)
        ensures
            match res {
                Ok(g) => nointro_tokens(name@) matches Some(t) && g@ == (GameModel {
                    entry_name: name@,
                    rom_entries: roms@.map_values(|r: DatRom| rom_model(r, true)),
                    serials: rom_serials(roms@),
                    source: "No-Intro"@,
                    info: Some(nointro_name_info(t)),
                }),
                Err(e) => nointro_tokens(name@) is None && bad_name(
                    e,
                    crate::naming::common::NamingConvention::NoIntro,
                    name@,
                ),
            },
    {
        let info = match NameInfo::try_from_nointro(name) {
            Ok(i) => i,
            Err(e) => {
                return Err(e);
            },
        };
        Ok(
            GameEntry {
                entry_name: owned(name),
                rom_entries: rom_entries(roms, true),
                serials: nointro_serials(roms),
                source: "No-Intro",
                info: Some(info),
            },
        )
    }

    /// The entry of a game of a redump.org DAT: its name read in the No-Intro
    /// convention, its ROMs as they are, and the serials of the game's serial
    /// field, trimmed and with spaces replaced by `-`.
    pub fn try_from_redump_game(name: &str, roms: &Vec<DatRom>, serial: Option<&str>) -> (res: Result<
        GameEntry,
        ParseError,
    >)
        ensures
            match res {
                Ok(g) => nointro_tokens(name@) matches Some(t) && g@ == (GameModel {
                    entry_name: name@,
                    rom_entries: roms@.map_values(|r: DatRom| rom_model(r, false)),
                    serials: match serial {
                        Some(x) => redump_serial_pieces(x@),
                        None => seq![],
                    },
                    source: "redump.org"@,
                    info: Some(nointro_name_info(t)),
                }),
                Err(e) => nointro_tokens(name@) is None && bad_name(
                    e,
                    crate::naming::common::NamingConvention::NoIntro,
                    name@,
                ),
            },
    {
        let info = match NameInfo::try_from_nointro(name) {
            Ok(i) => i,
            Err(e) => {
                return Err(e);
            },
        };
        let mut serials: Vec<Serial> = Vec::new();
        assert(serial_views(serials@) =~= Seq::<Seq<char>>::empty());
        match serial {
            Some(x) => {
                add_serial_pieces(x, true, &mut serials);
            },
            None => {},
        }
        Ok(
            GameEntry {
                entry_name: owned(name),
                rom_entries: rom_entries(roms, false),
                serials,
                source: "redump.org",
                info: Some(info),
            },
        )
    }

    /// The entry of a game of a TOSEC DAT: its name read in the TOSEC
    /// convention, its ROMs as they are, and no serials.
    pub fn try_from_tosec_game(name: &str, roms: &Vec<DatRom>) -> (res: Result<GameEntry, ParseError>)
        requires
            tosec_title_defined(name@),
        ensures
            match res {
                Ok(g) => tosec_title_info(name@) matches Some(i) && g@ == (GameModel {
                    entry_name: name@,
                    rom_entries: roms@.map_values(|r: DatRom| rom_model(r, false)),
                    serials: seq![],
                    source: "TOSEC"@,
                    info: Some(i),
                }),
                Err(e) => tosec_title_info(name@) is None && bad_name(
                    e,
                    crate::naming::common::NamingConvention::TOSEC,
                    name@,
                ),
            },
    {
        let info = match NameInfo::try_from_tosec(name) {
            Ok(i) => i,
            Err(e) => {
                return Err(e);
            },
        };
        let serials: Vec<Serial> = Vec::new();
        assert(serial_views(serials@) =~= Seq::<Seq<char>>::empty());
        Ok(
            GameEntry {
                entry_name: owned(name),
                rom_entries: rom_entries(roms, false),
                serials,
                source: "TOSEC",
                info: Some(info),
            },
        )
    }

    /// The entry of a game of a dats.site DAT: its ROMs with lower-cased
    /// hashes; its name is not read, and it has no serials.
    pub fn from_dats_site_game(name: &str, roms: &Vec<DatRom>) -> (res: GameEntry)
        ensures
            res@ == (GameModel {
                entry_name: name@,
                rom_entries: roms@.map_values(|r: DatRom| rom_model(r, true)),
                serials: seq![],
                source: "dats.site"@,
                info: None,
            }),
    {
        let serials: Vec<Serial> = Vec::new();
        assert(serial_views(serials@) =~= Seq::<Seq<char>>::empty());
        GameEntry {
            entry_name: owned(name),
            rom_entries: rom_entries(roms, true),
            serials,
            source: "dats.site",
            info: None,
        }
    }
}

/// Checks the homepage of a DAT's header against the one that its source
/// writes there; a missing header or homepage does not match.
pub fn check_header(expected: &'static str, homepage: Option<&str>) -> (res: Result<(), ParseError>)
    ensures
        match res {
            Ok(()) => homepage matches Some(h) && h@ == expected@,
            Err(e) => {
                &&& !(homepage matches Some(h) && h@ == expected@)
                &&& e matches ParseError::HeaderMismatchError(x, found) && x@ == expected@
                    && opt_view(found) == match homepage {
                    Some(h) => Some(h@),
                    None => None,
                }
            },
        },
{
    match homepage {
        Some(h) => {
            if str_eq(h, expected) {
                Ok(())
            } else {
                Err(ParseError::HeaderMismatchError(expected, Some(owned(h))))
            }
        },
        None => Err(ParseError::HeaderMismatchError(expected, None)),
    }
}

/// The file name of a path: what follows its last `/`, unless that is empty,
/// `.` or `..`.
pub open spec fn file_name_of(path: Seq<char>) -> Option<Seq<char>> {
    let seg = match last_index(path, '/', path.len() as int) {
        Some(i) => path.subrange(i + 1, path.len() as int),
        None => path,
    };
    if seg.len() == 0 || seg == "."@ || seg == ".."@ {
        None
    } else {
        Some(seg)
    }
}

/// The last position before `end` where `c` stands.
pub open spec fn last_index(s: Seq<char>, c: char, end: int) -> Option<int>
    decreases end,
{
    if end <= 0 || end > s.len() {
        None
    } else if s[end - 1] == c {
        Some(end - 1)
    } else {
        last_index(s, c, end - 1)
    }
}

/// The extension of a path, as `Path::extension` gives it: what follows the
/// last `.` of the file name, unless the name has no `.` other than a first one.
pub open spec fn extension_of(path: Seq<char>) -> Option<Seq<char>> {
    match file_name_of(path) {
        Some(name) => match last_index(name, '.', name.len() as int) {
            Some(q) => if q == 0 {
                None
            } else {
                Some(name.subrange(q + 1, name.len() as int))
            },
            None => None,
        },
        None => None,
    }
}

pub proof fn lemma_last_index(s: Seq<char>, c: char, end: int)
    ensures
        last_index(s, c, end) matches Some(i) ==> 0 <= i < end && s[i] == c,
    decreases end,
{
    if end <= 0 || end > s.len() {
    } else if s[end - 1] == c {
    } else {
        lemma_last_index(s, c, end - 1);
    }
}

fn find_last(cs: &Vec<char>, c: char) -> (res: Option<usize>)
    ensures
        match res {
            Some(i) => last_index(cs@, c, cs@.len() as int) == Some(i as int) && i < cs@.len(),
            None => last_index(cs@, c, cs@.len() as int) is None,
        },
{
    let mut end = cs.len();
    while end > 0
        invariant
            end <= cs@.len(),
            last_index(cs@, c, cs@.len() as int) == last_index(cs@, c, end as int),
        decreases end,
    {
        if cs[end - 1] == c {
            return Some(end - 1);
        }
        end = end - 1;
    }
    None
}

/// The extension of a file name, as `Path::extension` gives it.
pub fn extension(path: &str) -> (res: Option<String>)
    ensures
        opt_view(res) == extension_of(path@),
{
    let cs = chars_of(path);
    let len = cs.len();
    let start = match find_last(&cs, '/') {
        Some(i) => i + 1,
        None => 0,
    };
    let seg = substr(path, start, len);
    assert(seg@ == (match last_index(path@, '/', path@.len() as int) {
        Some(i) => path@.subrange(i + 1, path@.len() as int),
        None => path@,
    })) by {
        assert(path@.subrange(0, path@.len() as int) =~= path@);
    }
    if seg.as_str().unicode_len() == 0 || str_eq(seg.as_str(), ".") || str_eq(seg.as_str(), "..") {
        return None;
    }
    let scs = chars_of(seg.as_str());
    match find_last(&scs, '.') {
        Some(q) => {
            if q == 0 {
                None
            } else {
                Some(substr(seg.as_str(), q + 1, scs.len()))
            }
        },
        None => None,
    }
}

/// Finds the mimetype of a ROM on a platform.
pub trait FindRomMimetype {
    fn find_mimetype<'a>(&self, platform: &'a PlatformInfo) -> Option<&'a str>;
}

/// The mimetype of a ROM on a platform: the mimetype of BIOS files for a ROM
/// whose MD5 hash is that of a BIOS dump; otherwise that of its extension, or
/// that of resources where the extension has none.
pub open spec fn rom_mimetype(rom: RomEntry, platform: PlatformInfo) -> Option<Seq<char>> {
    let types = pair_views(platform.file_types@);
    if rom.md5 is Some && has_bios_md5(platform.bios_files, rom.md5.unwrap()@) {
        lookup(types, "BIOS"@)
    } else {
        match extension_of(rom.file_name@) {
            Some(ext) => match lookup(types, ext) {
                Some(m) => Some(m),
                None => lookup(types, "RSRC"@),
            },
            None => lookup(types, "RSRC"@),
        }
    }
}

impl FindRomMimetype for RomEntry {
    fn find_mimetype<'a>(&self, platform: &'a PlatformInfo) -> (res: Option<&'a str>)
        ensures
            match res {
                Some(m) => rom_mimetype(*self, *platform) == Some(m@),
                None => rom_mimetype(*self, *platform) is None,
            },
    {
        if let Some(md5) = &self.md5 {
            if platform.is_bios_md5(md5.as_str()) {
                return platform.get_mimetype_for_ext("BIOS");
            }
        }
        match extension(self.file_name.as_str()) {
            Some(ext) => match platform.get_mimetype_for_ext(ext.as_str()) {
                Some(m) => Some(m),
                None => platform.get_mimetype_for_ext("RSRC"),
            },
            None => platform.get_mimetype_for_ext("RSRC"),
        }
    }
}

} // verus!
