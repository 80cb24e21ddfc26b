//! Regions of release, and the three ways the naming conventions write them:
//! No-Intro spells out names (`USA, Europe`), TOSEC uses ISO 3166 codes joined
//! by hyphens (`US-ZZ`), and GoodTools uses its own short codes (`U`, `JUE`, `W`).

use vstd::prelude::*;
use crate::text::{range_is, find_tag, substr, find_from, lemma_find_from, chars_of, views, lemma_views_push};

verus! {

/// A region of release.
#[derive(Debug, Clone, Copy, PartialEq, Eq, Structural, Hash)]
pub enum Region {
    Unknown,
    UnitedArabEmirates,
    Albania,
    Asia,
    Austria,
    Australia,
    BosniaHerzegovina,
    Belgium,
    Bulgaria,
    Brazil,
    Canada,
    Switzerland,
    Chile,
    China,
    SerbiaMontenegro,
    Cyprus,
    Czechia,
    Germany,
    Denmark,
    Estonia,
    Egypt,
    Spain,
    Europe,
    Finland,
    France,
    UnitedKingdom,
    Greece,
    HongKong,
    Croatia,
    Hungary,
    Indonesia,
    Ireland,
    Israel,
    India,
    Iran,
    Iceland,
    Italy,
    Jordan,
    Japan,
    Korea,
    Lithuania,
    Luxembourg,
    Latvia,
    Mongolia,
    Mexico,
    Malaysia,
    Netherlands,
    Norway,
    Nepal,
    NewZealand,
    Oman,
    Peru,
    Philippines,
    Poland,
    Portugal,
    Qatar,
    Romania,
    Russia,
    Sweden,
    Singapore,
    Slovenia,
    Slovakia,
    Thailand,
    Turkey,
    Taiwan,
    UnitedStates,
    Vietnam,
    Yugoslavia,
    SouthAfrica,
}

/// The way a region list is written.
#[derive(Debug, Clone, Copy, PartialEq, Eq, Structural)]
pub enum RegionFormat {
    /// Region names separated by `, `, as in `(USA, Europe)`.
    NoIntro,
    /// Two-letter ISO codes separated by `-`, as in `(US-ZZ)`.
    TOSEC,
    /// GoodTools region codes, separated by `, ` when there are several.
    GoodTools,
}

/// The reasons a region list does not parse.
#[derive(Debug, Clone, PartialEq, Eq)]
pub enum RegionError {
    /// The code (first field) is not a region in the format (second field);
    /// it starts at the character index given by the third field.
    BadRegionCode(String, RegionFormat, usize),
}

/// The ISO 3166 code of each region, and `ZZ` for an unknown one; these are
/// the region codes of the TOSEC naming convention.
pub open spec fn tosec_code_region(a: char, b: char) -> Option<Region> {
    match (a, b) {
        ('Z', 'Z') => Some(Region::Unknown),
        ('A', 'E') => Some(Region::UnitedArabEmirates),
        ('A', 'L') => Some(Region::Albania),
        ('A', 'S') => Some(Region::Asia),
        ('A', 'T') => Some(Region::Austria),
        ('A', 'U') => Some(Region::Australia),
        ('B', 'A') => Some(Region::BosniaHerzegovina),
        ('B', 'E') => Some(Region::Belgium),
        ('B', 'G') => Some(Region::Bulgaria),
        ('B', 'R') => Some(Region::Brazil),
        ('C', 'A') => Some(Region::Canada),
        ('C', 'H') => Some(Region::Switzerland),
        ('C', 'L') => Some(Region::Chile),
        ('C', 'N') => Some(Region::China),
        ('C', 'S') => Some(Region::SerbiaMontenegro),
        ('C', 'Y') => Some(Region::Cyprus),
        ('C', 'Z') => Some(Region::Czechia),
        ('D', 'E') => Some(Region::Germany),
        ('D', 'K') => Some(Region::Denmark),
        ('E', 'E') => Some(Region::Estonia),
        ('E', 'G') => Some(Region::Egypt),
        ('E', 'S') => Some(Region::Spain),
        ('E', 'U') => Some(Region::Europe),
        ('F', 'I') => Some(Region::Finland),
        ('F', 'R') => Some(Region::France),
        ('G', 'B') => Some(Region::UnitedKingdom),
        ('G', 'R') => Some(Region::Greece),
        ('H', 'K') => Some(Region::HongKong),
        ('H', 'R') => Some(Region::Croatia),
        ('H', 'U') => Some(Region::Hungary),
        ('I', 'D') => Some(Region::Indonesia),
        ('I', 'E') => Some(Region::Ireland),
        ('I', 'L') => Some(Region::Israel),
        ('I', 'N') => Some(Region::India),
        ('I', 'R') => Some(Region::Iran),
        ('I', 'S') => Some(Region::Iceland),
        ('I', 'T') => Some(Region::Italy),
        ('J', 'O') => Some(Region::Jordan),
        ('J', 'P') => Some(Region::Japan),
        ('K', 'R') => Some(Region::Korea),
        ('L', 'T') => Some(Region::Lithuania),
        ('L', 'U') => Some(Region::Luxembourg),
        ('L', 'V') => Some(Region::Latvia),
        ('M', 'N') => Some(Region::Mongolia),
        ('M', 'X') => Some(Region::Mexico),
        ('M', 'Y') => Some(Region::Malaysia),
        ('N', 'L') => Some(Region::Netherlands),
        ('N', 'O') => Some(Region::Norway),
        ('N', 'P') => Some(Region::Nepal),
        ('N', 'Z') => Some(Region::NewZealand),
        ('O', 'M') => Some(Region::Oman),
        ('P', 'E') => Some(Region::Peru),
        ('P', 'H') => Some(Region::Philippines),
        ('P', 'L') => Some(Region::Poland),
        ('P', 'T') => Some(Region::Portugal),
        ('Q', 'A') => Some(Region::Qatar),
        ('R', 'O') => Some(Region::Romania),
        ('R', 'U') => Some(Region::Russia),
        ('S', 'E') => Some(Region::Sweden),
        ('S', 'G') => Some(Region::Singapore),
        ('S', 'I') => Some(Region::Slovenia),
        ('S', 'K') => Some(Region::Slovakia),
        ('T', 'H') => Some(Region::Thailand),
        ('T', 'R') => Some(Region::Turkey),
        ('T', 'W') => Some(Region::Taiwan),
        ('U', 'S') => Some(Region::UnitedStates),
        ('V', 'N') => Some(Region::Vietnam),
        ('Y', 'U') => Some(Region::Yugoslavia),
        ('Z', 'A') => Some(Region::SouthAfrica),
        _ => None,
    }
}

fn tosec_code(a: char, b: char) -> (res: Option<Region>)
    ensures
        res == tosec_code_region(a, b),
{
    match (a, b) {
        ('Z', 'Z') => Some(Region::Unknown),
        ('A', 'E') => Some(Region::UnitedArabEmirates),
        ('A', 'L') => Some(Region::Albania),
        ('A', 'S') => Some(Region::Asia),
        ('A', 'T') => Some(Region::Austria),
        ('A', 'U') => Some(Region::Australia),
        ('B', 'A') => Some(Region::BosniaHerzegovina),
        ('B', 'E') => Some(Region::Belgium),
        ('B', 'G') => Some(Region::Bulgaria),
        ('B', 'R') => Some(Region::Brazil),
        ('C', 'A') => Some(Region::Canada),
        ('C', 'H') => Some(Region::Switzerland),
        ('C', 'L') => Some(Region::Chile),
        ('C', 'N') => Some(Region::China),
        ('C', 'S') => Some(Region::SerbiaMontenegro),
        ('C', 'Y') => Some(Region::Cyprus),
        ('C', 'Z') => Some(Region::Czechia),
        ('D', 'E') => Some(Region::Germany),
        ('D', 'K') => Some(Region::Denmark),
        ('E', 'E') => Some(Region::Estonia),
        ('E', 'G') => Some(Region::Egypt),
        ('E', 'S') => Some(Region::Spain),
        ('E', 'U') => Some(Region::Europe),
        ('F', 'I') => Some(Region::Finland),
        ('F', 'R') => Some(Region::France),
        ('G', 'B') => Some(Region::UnitedKingdom),
        ('G', 'R') => Some(Region::Greece),
        ('H', 'K') => Some(Region::HongKong),
        ('H', 'R') => Some(Region::Croatia),
        ('H', 'U') => Some(Region::Hungary),
        ('I', 'D') => Some(Region::Indonesia),
        ('I', 'E') => Some(Region::Ireland),
        ('I', 'L') => Some(Region::Israel),
        ('I', 'N') => Some(Region::India),
        ('I', 'R') => Some(Region::Iran),
        ('I', 'S') => Some(Region::Iceland),
        ('I', 'T') => Some(Region::Italy),
        ('J', 'O') => Some(Region::Jordan),
        ('J', 'P') => Some(Region::Japan),
        ('K', 'R') => Some(Region::Korea),
        ('L', 'T') => Some(Region::Lithuania),
        ('L', 'U') => Some(Region::Luxembourg),
        ('L', 'V') => Some(Region::Latvia),
        ('M', 'N') => Some(Region::Mongolia),
        ('M', 'X') => Some(Region::Mexico),
        ('M', 'Y') => Some(Region::Malaysia),
        ('N', 'L') => Some(Region::Netherlands),
        ('N', 'O') => Some(Region::Norway),
        ('N', 'P') => Some(Region::Nepal),
        ('N', 'Z') => Some(Region::NewZealand),
        ('O', 'M') => Some(Region::Oman),
        ('P', 'E') => Some(Region::Peru),
        ('P', 'H') => Some(Region::Philippines),
        ('P', 'L') => Some(Region::Poland),
        ('P', 'T') => Some(Region::Portugal),
        ('Q', 'A') => Some(Region::Qatar),
        ('R', 'O') => Some(Region::Romania),
        ('R', 'U') => Some(Region::Russia),
        ('S', 'E') => Some(Region::Sweden),
        ('S', 'G') => Some(Region::Singapore),
        ('S', 'I') => Some(Region::Slovenia),
        ('S', 'K') => Some(Region::Slovakia),
        ('T', 'H') => Some(Region::Thailand),
        ('T', 'R') => Some(Region::Turkey),
        ('T', 'W') => Some(Region::Taiwan),
        ('U', 'S') => Some(Region::UnitedStates),
        ('V', 'N') => Some(Region::Vietnam),
        ('Y', 'U') => Some(Region::Yugoslavia),
        ('Z', 'A') => Some(Region::SouthAfrica),
        _ => None,
    }
}

/// The regions that a No-Intro region name stands for.
pub open spec fn nointro_regions(code: Seq<char>) -> Option<Seq<Region>> {
    if code == "World"@ {
        Some(seq![Region::Japan, Region::UnitedStates, Region::Europe])
    } else if code == "Europe"@ {
        Some(seq![Region::Europe])
    } else if code == "Asia"@ {
        Some(seq![Region::Asia])
    } else if code == "Australia"@ {
        Some(seq![Region::Australia])
    } else if code == "Brazil"@ {
        Some(seq![Region::Brazil])
    } else if code == "Canada"@ {
        Some(seq![Region::Canada])
    } else if code == "China"@ {
        Some(seq![Region::China])
    } else if code == "France"@ {
        Some(seq![Region::France])
    } else if code == "Germany"@ {
        Some(seq![Region::Germany])
    } else if code == "Hong Kong"@ {
        Some(seq![Region::HongKong])
    } else if code == "Italy"@ {
        Some(seq![Region::Italy])
    } else if code == "Japan"@ {
        Some(seq![Region::Japan])
    } else if code == "Korea"@ {
        Some(seq![Region::Korea])
    } else if code == "Netherlands"@ {
        Some(seq![Region::Netherlands])
    } else if code == "Spain"@ {
        Some(seq![Region::Spain])
    } else if code == "Sweden"@ {
        Some(seq![Region::Sweden])
    } else if code == "USA"@ {
        Some(seq![Region::UnitedStates])
    } else if code == "Austria"@ {
        Some(seq![Region::Austria])
    } else if code == "Belgium"@ {
        Some(seq![Region::Belgium])
    } else if code == "Croatia"@ {
        Some(seq![Region::Croatia])
    } else if code == "Czech"@ {
        Some(seq![Region::Czechia])
    } else if code == "Denmark"@ {
        Some(seq![Region::Denmark])
    } else if code == "Finland"@ {
        Some(seq![Region::Finland])
    } else if code == "Greece"@ {
        Some(seq![Region::Greece])
    } else if code == "India"@ {
        Some(seq![Region::India])
    } else if code == "Ireland"@ {
        Some(seq![Region::Ireland])
    } else if code == "Israel"@ {
        Some(seq![Region::Israel])
    } else if code == "Mexico"@ {
        Some(seq![Region::Mexico])
    } else if code == "New Zealand"@ {
        Some(seq![Region::NewZealand])
    } else if code == "Norway"@ {
        Some(seq![Region::Norway])
    } else if code == "Poland"@ {
        Some(seq![Region::Poland])
    } else if code == "Portugal"@ {
        Some(seq![Region::Portugal])
    } else if code == "Russia"@ {
        Some(seq![Region::Russia])
    } else if code == "Scandinavia"@ {
        Some(seq![Region::Denmark, Region::Norway, Region::Sweden])
    } else if code == "Singapore"@ {
        Some(seq![Region::Singapore])
    } else if code == "Slovakia"@ {
        Some(seq![Region::Slovakia])
    } else if code == "South Africa"@ {
        Some(seq![Region::SouthAfrica])
    } else if code == "Switzerland"@ {
        Some(seq![Region::Switzerland])
    } else if code == "Taiwan"@ {
        Some(seq![Region::Taiwan])
    } else if code == "Turkey"@ {
        Some(seq![Region::Turkey])
    } else if code == "UK"@ {
        Some(seq![Region::UnitedKingdom])
    } else if code == "United Kingdom"@ {
        Some(seq![Region::UnitedKingdom])
    } else if code == "Unknown"@ {
        Some(seq![Region::Unknown])
    } else {
        None
    }
}

fn nointro_code(cs: &Vec<char>, from: usize, to: usize) -> (res: Option<Vec<Region>>)
    requires
        from <= to <= cs@.len(),
    ensures
        match res {
            Some(v) => nointro_regions(cs@.subrange(from as int, to as int)) == Some(v@),
            None => nointro_regions(cs@.subrange(from as int, to as int)) is None,
        },
{
    if range_is(cs, from, to, "World") {
        let v = vec![Region::Japan, Region::UnitedStates, Region::Europe];
        assert(v@ =~= seq![Region::Japan, Region::UnitedStates, Region::Europe]);
        Some(v)
    } else if range_is(cs, from, to, "Europe") {
        let v = vec![Region::Europe];
        assert(v@ =~= seq![Region::Europe]);
        Some(v)
    } else if range_is(cs, from, to, "Asia") {
        let v = vec![Region::Asia];
        assert(v@ =~= seq![Region::Asia]);
        Some(v)
    } else if range_is(cs, from, to, "Australia") {
        let v = vec![Region::Australia];
        assert(v@ =~= seq![Region::Australia]);
        Some(v)
    } else if range_is(cs, from, to, "Brazil") {
        let v = vec![Region::Brazil];
        assert(v@ =~= seq![Region::Brazil]);
        Some(v)
    } else if range_is(cs, from, to, "Canada") {
        let v = vec![Region::Canada];
        assert(v@ =~= seq![Region::Canada]);
        Some(v)
    } else if range_is(cs, from, to, "China") {
        let v = vec![Region::China];
        assert(v@ =~= seq![Region::China]);
        Some(v)
    } else if range_is(cs, from, to, "France") {
        let v = vec![Region::France];
        assert(v@ =~= seq![Region::France]);
        Some(v)
    } else if range_is(cs, from, to, "Germany") {
        let v = vec![Region::Germany];
        assert(v@ =~= seq![Region::Germany]);
        Some(v)
    } else if range_is(cs, from, to, "Hong Kong") {
        let v = vec![Region::HongKong];
        assert(v@ =~= seq![Region::HongKong]);
        Some(v)
    } else if range_is(cs, from, to, "Italy") {
        let v = vec![Region::Italy];
        assert(v@ =~= seq![Region::Italy]);
        Some(v)
    } else if range_is(cs, from, to, "Japan") {
        let v = vec![Region::Japan];
        assert(v@ =~= seq![Region::Japan]);
        Some(v)
    } else if range_is(cs, from, to, "Korea") {
        let v = vec![Region::Korea];
        assert(v@ =~= seq![Region::Korea]);
        Some(v)
    } else if range_is(cs, from, to, "Netherlands") {
        let v = vec![Region::Netherlands];
        assert(v@ =~= seq![Region::Netherlands]);
        Some(v)
    } else if range_is(cs, from, to, "Spain") {
        let v = vec![Region::Spain];
        assert(v@ =~= seq![Region::Spain]);
        Some(v)
    } else if range_is(cs, from, to, "Sweden") {
        let v = vec![Region::Sweden];
        assert(v@ =~= seq![Region::Sweden]);
        Some(v)
    } else if range_is(cs, from, to, "USA") {
        let v = vec![Region::UnitedStates];
        assert(v@ =~= seq![Region::UnitedStates]);
        Some(v)
    } else if range_is(cs, from, to, "Austria") {
        let v = vec![Region::Austria];
        assert(v@ =~= seq![Region::Austria]);
        Some(v)
    } else if range_is(cs, from, to, "Belgium") {
        let v = vec![Region::Belgium];
        assert(v@ =~= seq![Region::Belgium]);
        Some(v)
    } else if range_is(cs, from, to, "Croatia") {
        let v = vec![Region::Croatia];
        assert(v@ =~= seq![Region::Croatia]);
        Some(v)
    } else if range_is(cs, from, to, "Czech") {
        let v = vec![Region::Czechia];
        assert(v@ =~= seq![Region::Czechia]);
        Some(v)
    } else if range_is(cs, from, to, "Denmark") {
        let v = vec![Region::Denmark];
        assert(v@ =~= seq![Region::Denmark]);
        Some(v)
    } else if range_is(cs, from, to, "Finland") {
        let v = vec![Region::Finland];
        assert(v@ =~= seq![Region::Finland]);
        Some(v)
    } else if range_is(cs, from, to, "Greece") {
        let v = vec![Region::Greece];
        assert(v@ =~= seq![Region::Greece]);
        Some(v)
    } else if range_is(cs, from, to, "India") {
        let v = vec![Region::India];
        assert(v@ =~= seq![Region::India]);
        Some(v)
    } else if range_is(cs, from, to, "Ireland") {
        let v = vec![Region::Ireland];
        assert(v@ =~= seq![Region::Ireland]);
        Some(v)
    } else if range_is(cs, from, to, "Israel") {
        let v = vec![Region::Israel];
        assert(v@ =~= seq![Region::Israel]);
        Some(v)
    } else if range_is(cs, from, to, "Mexico") {
        let v = vec![Region::Mexico];
        assert(v@ =~= seq![Region::Mexico]);
        Some(v)
    } else if range_is(cs, from, to, "New Zealand") {
        let v = vec![Region::NewZealand];
        assert(v@ =~= seq![Region::NewZealand]);
        Some(v)
    } else if range_is(cs, from, to, "Norway") {
        let v = vec![Region::Norway];
        assert(v@ =~= seq![Region::Norway]);
        Some(v)
    } else if range_is(cs, from, to, "Poland") {
        let v = vec![Region::Poland];
        assert(v@ =~= seq![Region::Poland]);
        Some(v)
    } else if range_is(cs, from, to, "Portugal") {
        let v = vec![Region::Portugal];
        assert(v@ =~= seq![Region::Portugal]);
        Some(v)
    } else if range_is(cs, from, to, "Russia") {
        let v = vec![Region::Russia];
        assert(v@ =~= seq![Region::Russia]);
        Some(v)
    } else if range_is(cs, from, to, "Scandinavia") {
        let v = vec![Region::Denmark, Region::Norway, Region::Sweden];
        assert(v@ =~= seq![Region::Denmark, Region::Norway, Region::Sweden]);
        Some(v)
    } else if range_is(cs, from, to, "Singapore") {
        let v = vec![Region::Singapore];
        assert(v@ =~= seq![Region::Singapore]);
        Some(v)
    } else if range_is(cs, from, to, "Slovakia") {
        let v = vec![Region::Slovakia];
        assert(v@ =~= seq![Region::Slovakia]);
        Some(v)
    } else if range_is(cs, from, to, "South Africa") {
        let v = vec![Region::SouthAfrica];
        assert(v@ =~= seq![Region::SouthAfrica]);
        Some(v)
    } else if range_is(cs, from, to, "Switzerland") {
        let v = vec![Region::Switzerland];
        assert(v@ =~= seq![Region::Switzerland]);
        Some(v)
    } else if range_is(cs, from, to, "Taiwan") {
        let v = vec![Region::Taiwan];
        assert(v@ =~= seq![Region::Taiwan]);
        Some(v)
    } else if range_is(cs, from, to, "Turkey") {
        let v = vec![Region::Turkey];
        assert(v@ =~= seq![Region::Turkey]);
        Some(v)
    } else if range_is(cs, from, to, "UK") {
        let v = vec![Region::UnitedKingdom];
        assert(v@ =~= seq![Region::UnitedKingdom]);
        Some(v)
    } else if range_is(cs, from, to, "United Kingdom") {
        let v = vec![Region::UnitedKingdom];
        assert(v@ =~= seq![Region::UnitedKingdom]);
        Some(v)
    } else if range_is(cs, from, to, "Unknown") {
        let v = vec![Region::Unknown];
        assert(v@ =~= seq![Region::Unknown]);
        Some(v)
    } else {
        None
    }
}

/// The regions that a GoodTools region code stands for.
pub open spec fn goodtools_regions(code: Seq<char>) -> Option<Seq<Region>> {
    if code == "W"@ {
        Some(seq![Region::Japan, Region::UnitedStates, Region::Europe])
    } else if code == "JUE"@ {
        Some(seq![Region::Japan, Region::UnitedStates, Region::Europe])
    } else if code == "JU"@ {
        Some(seq![Region::Japan, Region::UnitedStates])
    } else if code == "UE"@ {
        Some(seq![Region::UnitedStates, Region::Europe])
    } else if code == "JE"@ {
        Some(seq![Region::Japan, Region::Europe])
    } else if code == "1"@ {
        Some(seq![Region::Japan, Region::Korea])
    } else if code == "4"@ {
        Some(seq![Region::UnitedStates, Region::Brazil])
    } else if code == "U"@ {
        Some(seq![Region::UnitedStates])
    } else if code == "J"@ {
        Some(seq![Region::Japan])
    } else if code == "E"@ {
        Some(seq![Region::Europe])
    } else if code == "A"@ {
        Some(seq![Region::Australia])
    } else if code == "B"@ {
        Some(seq![Region::Brazil])
    } else if code == "C"@ {
        Some(seq![Region::China])
    } else if code == "F"@ {
        Some(seq![Region::France])
    } else if code == "G"@ {
        Some(seq![Region::Germany])
    } else if code == "I"@ {
        Some(seq![Region::Italy])
    } else if code == "K"@ {
        Some(seq![Region::Korea])
    } else if code == "S"@ {
        Some(seq![Region::Spain])
    } else if code == "H"@ {
        Some(seq![Region::Netherlands])
    } else if code == "NL"@ {
        Some(seq![Region::Netherlands])
    } else if code == "GR"@ {
        Some(seq![Region::Greece])
    } else if code == "HK"@ {
        Some(seq![Region::HongKong])
    } else if code == "UK"@ {
        Some(seq![Region::UnitedKingdom])
    } else if code == "Sw"@ {
        Some(seq![Region::Sweden])
    } else if code == "SW"@ {
        Some(seq![Region::Sweden])
    } else if code == "FN"@ {
        Some(seq![Region::Finland])
    } else if code == "FC"@ {
        Some(seq![Region::Canada])
    } else if code == "Unk"@ {
        Some(seq![Region::Unknown])
    } else {
        None
    }
}

fn goodtools_code(cs: &Vec<char>, from: usize, to: usize) -> (res: Option<Vec<Region>>)
    requires
        from <= to <= cs@.len(),
    ensures
        match res {
            Some(v) => goodtools_regions(cs@.subrange(from as int, to as int)) == Some(v@),
            None => goodtools_regions(cs@.subrange(from as int, to as int)) is None,
        },
{
    if range_is(cs, from, to, "W") {
        let v = vec![Region::Japan, Region::UnitedStates, Region::Europe];
        assert(v@ =~= seq![Region::Japan, Region::UnitedStates, Region::Europe]);
        Some(v)
    } else if range_is(cs, from, to, "JUE") {
        let v = vec![Region::Japan, Region::UnitedStates, Region::Europe];
        assert(v@ =~= seq![Region::Japan, Region::UnitedStates, Region::Europe]);
        Some(v)
    } else if range_is(cs, from, to, "JU") {
        let v = vec![Region::Japan, Region::UnitedStates];
        assert(v@ =~= seq![Region::Japan, Region::UnitedStates]);
        Some(v)
    } else if range_is(cs, from, to, "UE") {
        let v = vec![Region::UnitedStates, Region::Europe];
        assert(v@ =~= seq![Region::UnitedStates, Region::Europe]);
        Some(v)
    } else if range_is(cs, from, to, "JE") {
        let v = vec![Region::Japan, Region::Europe];
        assert(v@ =~= seq![Region::Japan, Region::Europe]);
        Some(v)
    } else if range_is(cs, from, to, "1") {
        let v = vec![Region::Japan, Region::Korea];
        assert(v@ =~= seq![Region::Japan, Region::Korea]);
        Some(v)
    } else if range_is(cs, from, to, "4") {
        let v = vec![Region::UnitedStates, Region::Brazil];
        assert(v@ =~= seq![Region::UnitedStates, Region::Brazil]);
        Some(v)
    } else if range_is(cs, from, to, "U") {
        let v = vec![Region::UnitedStates];
        assert(v@ =~= seq![Region::UnitedStates]);
        Some(v)
    } else if range_is(cs, from, to, "J") {
        let v = vec![Region::Japan];
        assert(v@ =~= seq![Region::Japan]);
        Some(v)
    } else if range_is(cs, from, to, "E") {
        let v = vec![Region::Europe];
        assert(v@ =~= seq![Region::Europe]);
        Some(v)
    } else if range_is(cs, from, to, "A") {
        let v = vec![Region::Australia];
        assert(v@ =~= seq![Region::Australia]);
        Some(v)
    } else if range_is(cs, from, to, "B") {
        let v = vec![Region::Brazil];
        assert(v@ =~= seq![Region::Brazil]);
        Some(v)
    } else if range_is(cs, from, to, "C") {
        let v = vec![Region::China];
        assert(v@ =~= seq![Region::China]);
        Some(v)
    } else if range_is(cs, from, to, "F") {
        let v = vec![Region::France];
        assert(v@ =~= seq![Region::France]);
        Some(v)
    } else if range_is(cs, from, to, "G") {
        let v = vec![Region::Germany];
        assert(v@ =~= seq![Region::Germany]);
        Some(v)
    } else if range_is(cs, from, to, "I") {
        let v = vec![Region::Italy];
        assert(v@ =~= seq![Region::Italy]);
        Some(v)
    } else if range_is(cs, from, to, "K") {
        let v = vec![Region::Korea];
        assert(v@ =~= seq![Region::Korea]);
        Some(v)
    } else if range_is(cs, from, to, "S") {
        let v = vec![Region::Spain];
        assert(v@ =~= seq![Region::Spain]);
        Some(v)
    } else if range_is(cs, from, to, "H") {
        let v = vec![Region::Netherlands];
        assert(v@ =~= seq![Region::Netherlands]);
        Some(v)
    } else if range_is(cs, from, to, "NL") {
        let v = vec![Region::Netherlands];
        assert(v@ =~= seq![Region::Netherlands]);
        Some(v)
    } else if range_is(cs, from, to, "GR") {
        let v = vec![Region::Greece];
        assert(v@ =~= seq![Region::Greece]);
        Some(v)
    } else if range_is(cs, from, to, "HK") {
        let v = vec![Region::HongKong];
        assert(v@ =~= seq![Region::HongKong]);
        Some(v)
    } else if range_is(cs, from, to, "UK") {
        let v = vec![Region::UnitedKingdom];
        assert(v@ =~= seq![Region::UnitedKingdom]);
        Some(v)
    } else if range_is(cs, from, to, "Sw") {
        let v = vec![Region::Sweden];
        assert(v@ =~= seq![Region::Sweden]);
        Some(v)
    } else if range_is(cs, from, to, "SW") {
        let v = vec![Region::Sweden];
        assert(v@ =~= seq![Region::Sweden]);
        Some(v)
    } else if range_is(cs, from, to, "FN") {
        let v = vec![Region::Finland];
        assert(v@ =~= seq![Region::Finland]);
        Some(v)
    } else if range_is(cs, from, to, "FC") {
        let v = vec![Region::Canada];
        assert(v@ =~= seq![Region::Canada]);
        Some(v)
    } else if range_is(cs, from, to, "Unk") {
        let v = vec![Region::Unknown];
        assert(v@ =~= seq![Region::Unknown]);
        Some(v)
    } else {
        None
    }
}


/// The regions that one code of a region list in `fmt` stands for.
pub open spec fn code_regions(fmt: RegionFormat, code: Seq<char>) -> Option<Seq<Region>> {
    match fmt {
        RegionFormat::NoIntro => nointro_regions(code),
        RegionFormat::TOSEC => if code.len() == 2 {
            match tosec_code_region(code[0], code[1]) {
                Some(r) => Some(seq![r]),
                None => None,
            }
        } else {
            None
        },
        RegionFormat::GoodTools => goodtools_regions(code),
    }
}

/// What separates the codes of a region list in `fmt`.
pub open spec fn separator(fmt: RegionFormat) -> Seq<char> {
    match fmt {
        RegionFormat::TOSEC => seq!['-'],
        _ => seq![',', ' '],
    }
}

/// Where the code that starts at `p` ends: at the next separator, or at the end.
pub open spec fn code_end(fmt: RegionFormat, s: Seq<char>, p: int) -> int {
    match find_from(s, p, separator(fmt)) {
        Some(q) => q,
        None => s.len() as int,
    }
}

pub proof fn lemma_code_end(fmt: RegionFormat, s: Seq<char>, p: int)
    requires
        0 <= p <= s.len(),
    ensures
        p <= code_end(fmt, s, p) <= s.len(),
{
    lemma_find_from(s, p, separator(fmt));
}

/// Reads the codes of a region list in `fmt` from position `p` on, after the
/// codes `strs` that stood for the regions `regs`. Every code must stand for
/// regions; the error is the position of the first one that does not.
pub open spec fn region_list_from(
    fmt: RegionFormat,
    s: Seq<char>,
    p: int,
    strs: Seq<Seq<char>>,
    regs: Seq<Region>,
) -> Result<(Seq<Seq<char>>, Seq<Region>), int>
    decreases s.len() - p,
{
    if p < 0 || p > s.len() {
        Err(p)
    } else {
        let e = code_end(fmt, s, p);
        let code = s.subrange(p, e);
        match code_regions(fmt, code) {
            None => Err(p),
            Some(rs) => if e >= s.len() {
                Ok((strs.push(code), regs + rs))
            } else {
                proof {
                    lemma_code_end(fmt, s, p);
                    lemma_find_from(s, p, separator(fmt));
                }
                region_list_from(fmt, s, e + separator(fmt).len(), strs.push(code), regs + rs)
            },
        }
    }
}

/// A whole region list in `fmt`: the codes and the regions they stand for,
/// or the position of the first code that stands for none.
pub open spec fn region_list(fmt: RegionFormat, s: Seq<char>) -> Result<
    (Seq<Seq<char>>, Seq<Region>),
    int,
> {
    region_list_from(fmt, s, 0, seq![], seq![])
}

fn find_separator(cs: &Vec<char>, p: usize, fmt: RegionFormat) -> (res: usize)
    requires
        p <= cs@.len(),
    ensures
        res == code_end(fmt, cs@, p as int),
        p <= res <= cs@.len(),
{
    proof {
        lemma_code_end(fmt, cs@, p as int);
    }
    let found = match fmt {
        RegionFormat::TOSEC => {
            proof {
                reveal_strlit("-");
                assert("-"@ =~= separator(fmt));
            }
            find_tag(cs, p, "-")
        },
        _ => {
            proof {
                reveal_strlit(", ");
                assert(", "@ =~= separator(fmt));
            }
            find_tag(cs, p, ", ")
        },
    };
    match found {
        Some(q) => q,
        None => cs.len(),
    }
}

fn code_lookup(cs: &Vec<char>, from: usize, to: usize, fmt: RegionFormat) -> (res: Option<Vec<Region>>)
    requires
        from <= to <= cs@.len(),
    ensures
        match res {
            Some(v) => code_regions(fmt, cs@.subrange(from as int, to as int)) == Some(v@),
            None => code_regions(fmt, cs@.subrange(from as int, to as int)) is None,
        },
{
    match fmt {
        RegionFormat::NoIntro => nointro_code(cs, from, to),
        RegionFormat::TOSEC => {
            if to - from != 2 {
                return None;
            }
            let ghost code = cs@.subrange(from as int, to as int);
            assert(code[0] == cs@[from as int] && code[1] == cs@[from + 1]);
            match tosec_code(cs[from], cs[from + 1]) {
                Some(r) => {
                    let v = vec![r];
                    assert(v@ =~= seq![r]);
                    Some(v)
                },
                None => None,
            }
        },
        RegionFormat::GoodTools => goodtools_code(cs, from, to),
    }
}

/// Reads a region list written in `fmt`, keeping each code beside the regions.
fn parse_region_list(s: &str, fmt: RegionFormat) -> (res: Result<
    (Vec<String>, Vec<Region>),
    RegionError,
>)
    ensures
        match res {
            Ok((strs, regs)) => region_list(fmt, s@) == Ok::<_, int>((views(strs@), regs@)),
            Err(RegionError::BadRegionCode(code, f, idx)) => {
                &&& region_list(fmt, s@) == Err::<(Seq<Seq<char>>, Seq<Region>), _>(idx as int)
                &&& f == fmt
                &&& code@ == s@.subrange(idx as int, code_end(fmt, s@, idx as int))
            },
        },
{
    let cs = chars_of(s);
    let mut strs: Vec<String> = Vec::new();
    let mut regs: Vec<Region> = Vec::new();
    let mut p: usize = 0;
    proof {
        assert(views(strs@) =~= Seq::<Seq<char>>::empty());
        assert(regs@ =~= Seq::<Region>::empty());
    }
    loop
        invariant
            cs@ == s@,
            p <= cs@.len(),
            region_list(fmt, s@) == region_list_from(fmt, s@, p as int, views(strs@), regs@),
        decreases cs@.len() - p,
    {
        let e = find_separator(&cs, p, fmt);
        match code_lookup(&cs, p, e, fmt) {
            None => {
                return Err(RegionError::BadRegionCode(substr(s, p, e), fmt, p));
            },
            Some(rs) => {
                let code = substr(s, p, e);
                proof {
                    lemma_views_push(strs@, code);
                }
                strs.push(code);
                let mut rs = rs;
                let ghost before = regs@;
                regs.append(&mut rs);
                if e >= cs.len() {
                    return Ok((strs, regs));
                }
                let step: usize = match fmt {
                    RegionFormat::TOSEC => 1,
                    _ => 2,
                };
                assert(step == separator(fmt).len());
                proof {
                    lemma_find_from(cs@, p as int, separator(fmt));
                }
                p = e + step;
            },
        }
    }
}

impl Region {
    /// Parses a No-Intro region list such as `USA, Europe`.
    pub fn try_from_nointro_region(region_str: &str) -> (res: Result<Vec<Region>, RegionError>)
        ensures
            match res {
                Ok(regs) => region_list(RegionFormat::NoIntro, region_str@) matches Ok((_, r))
                    && r == regs@,
                Err(RegionError::BadRegionCode(code, f, idx)) => {
                    &&& region_list(RegionFormat::NoIntro, region_str@) == Err::<
                        (Seq<Seq<char>>, Seq<Region>),
                        _,
                    >(idx as int)
                    &&& f == RegionFormat::NoIntro
                    &&& code@ == region_str@.subrange(
                        idx as int,
                        code_end(RegionFormat::NoIntro, region_str@, idx as int),
                    )
                },
            },
    {
        match parse_region_list(region_str, RegionFormat::NoIntro) {
            Ok((_, regs)) => Ok(regs),
            Err(e) => Err(e),
        }
    }

    /// Parses a No-Intro region list, keeping each region name beside the regions.
    pub fn try_from_nointro_region_with_strs(region_str: &str) -> (res: Result<
        (Vec<String>, Vec<Region>),
        RegionError,
    >)
        ensures
            match res {
                Ok((strs, regs)) => region_list(RegionFormat::NoIntro, region_str@) == Ok::<_, int>(
                    (views(strs@), regs@),
                ),
                Err(RegionError::BadRegionCode(code, f, idx)) => {
                    &&& region_list(RegionFormat::NoIntro, region_str@) == Err::<
                        (Seq<Seq<char>>, Seq<Region>),
                        _,
                    >(idx as int)
                    &&& f == RegionFormat::NoIntro
                    &&& code@ == region_str@.subrange(
                        idx as int,
                        code_end(RegionFormat::NoIntro, region_str@, idx as int),
                    )
                },
            },
    {
        parse_region_list(region_str, RegionFormat::NoIntro)
    }

    /// Parses a TOSEC region list such as `US-ZZ`.
    pub fn try_from_tosec_region(region_str: &str) -> (res: Result<Vec<Region>, RegionError>)
        ensures
            match res {
                Ok(regs) => region_list(RegionFormat::TOSEC, region_str@) matches Ok((_, r)) && r
                    == regs@,
                Err(RegionError::BadRegionCode(code, f, idx)) => {
                    &&& region_list(RegionFormat::TOSEC, region_str@) == Err::<
                        (Seq<Seq<char>>, Seq<Region>),
                        _,
                    >(idx as int)
                    &&& f == RegionFormat::TOSEC
                    &&& code@ == region_str@.subrange(
                        idx as int,
                        code_end(RegionFormat::TOSEC, region_str@, idx as int),
                    )
                },
            },
    {
        match parse_region_list(region_str, RegionFormat::TOSEC) {
            Ok((_, regs)) => Ok(regs),
            Err(e) => Err(e),
        }
    }

    /// Parses a TOSEC region list, keeping each code beside the regions.
    pub fn try_from_tosec_region_with_strs(region_str: &str) -> (res: Result<
        (Vec<String>, Vec<Region>),
        RegionError,
    >)
        ensures
            match res {
                Ok((strs, regs)) => region_list(RegionFormat::TOSEC, region_str@) == Ok::<_, int>(
                    (views(strs@), regs@),
                ),
                Err(RegionError::BadRegionCode(code, f, idx)) => {
                    &&& region_list(RegionFormat::TOSEC, region_str@) == Err::<
                        (Seq<Seq<char>>, Seq<Region>),
                        _,
                    >(idx as int)
                    &&& f == RegionFormat::TOSEC
                    &&& code@ == region_str@.subrange(
                        idx as int,
                        code_end(RegionFormat::TOSEC, region_str@, idx as int),
                    )
                },
            },
    {
        parse_region_list(region_str, RegionFormat::TOSEC)
    }

    /// Parses a GoodTools region list such as `U` or `JUE`.
    pub fn try_from_goodtools_region(region_str: &str) -> (res: Result<Vec<Region>, RegionError>)
        ensures
            match res {
                Ok(regs) => region_list(RegionFormat::GoodTools, region_str@) matches Ok((_, r))
                    && r == regs@,
                Err(RegionError::BadRegionCode(code, f, idx)) => {
                    &&& region_list(RegionFormat::GoodTools, region_str@) == Err::<
                        (Seq<Seq<char>>, Seq<Region>),
                        _,
                    >(idx as int)
                    &&& f == RegionFormat::GoodTools
                    &&& code@ == region_str@.subrange(
                        idx as int,
                        code_end(RegionFormat::GoodTools, region_str@, idx as int),
                    )
                },
            },
    {
        match parse_region_list(region_str, RegionFormat::GoodTools) {
            Ok((_, regs)) => Ok(regs),
            Err(e) => Err(e),
        }
    }

    /// Parses a GoodTools region list, keeping each code beside the regions.
    pub fn try_from_goodtools_region_with_strs(region_str: &str) -> (res: Result<
        (Vec<String>, Vec<Region>),
        RegionError,
    >)
        ensures
            match res {
                Ok((strs, regs)) => region_list(RegionFormat::GoodTools, region_str@) == Ok::<
                    _,
                    int,
                >((views(strs@), regs@)),
                Err(RegionError::BadRegionCode(code, f, idx)) => {
                    &&& region_list(RegionFormat::GoodTools, region_str@) == Err::<
                        (Seq<Seq<char>>, Seq<Region>),
                        _,
                    >(idx as int)
                    &&& f == RegionFormat::GoodTools
                    &&& code@ == region_str@.subrange(
                        idx as int,
                        code_end(RegionFormat::GoodTools, region_str@, idx as int),
                    )
                },
            },
    {
        parse_region_list(region_str, RegionFormat::GoodTools)
    }

    /// Reads a region list in whichever convention it is written: No-Intro,
    /// else TOSEC, else GoodTools; a list that none of them reads stands for
    /// the unknown region.
    pub fn from_region_string(region_str: &str) -> (res: Vec<Region>)
        ensures
            res@ == region_string_regions(region_str@),
    {
        if let Ok((_, regs)) = parse_region_list(region_str, RegionFormat::NoIntro) {
            return regs;
        }
        if let Ok((_, regs)) = parse_region_list(region_str, RegionFormat::TOSEC) {
            return regs;
        }
        if let Ok((_, regs)) = parse_region_list(region_str, RegionFormat::GoodTools) {
            return regs;
        }
        vec![Region::Unknown]
    }
}

/// The regions of a region list written in any of the three conventions.
pub open spec fn region_string_regions(s: Seq<char>) -> Seq<Region> {
    match region_list(RegionFormat::NoIntro, s) {
        Ok((_, r)) => r,
        Err(_) => match region_list(RegionFormat::TOSEC, s) {
            Ok((_, r)) => r,
            Err(_) => match region_list(RegionFormat::GoodTools, s) {
                Ok((_, r)) => r,
                Err(_) => seq![Region::Unknown],
            },
        },
    }
}

/// A copy of a list of regions.
pub fn copy_regions(r: &Vec<Region>) -> (res: Vec<Region>)
    ensures
        res@ == r@,
{
    let mut res: Vec<Region> = Vec::new();
    let mut i: usize = 0;
    while i < r.len()
        invariant
            i <= r@.len(),
            res@ == r@.subrange(0, i as int),
        decreases r@.len() - i,
    {
        res.push(r[i]);
        i = i + 1;
        assert(res@ =~= r@.subrange(0, i as int));
    }
    assert(r@.subrange(0, r@.len() as int) =~= r@);
    res
}

} // verus!
