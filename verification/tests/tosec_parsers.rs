use shiratsu::naming::tosec::{
    parse_date, parse_dumpinfo_tag, parse_language_tag, parse_media, parse_publisher,
    parse_publisher_tag, parse_region_tag, parse_version_string, try_parse, TOSECLanguage,
    TOSECToken, TOSECWarn,
};
use shiratsu::naming::FlagType;
use shiratsu::region::Region;

fn s(x: &str) -> String {
    String::from(x)
}

fn o(x: &str) -> Option<String> {
    Some(String::from(x))
}

fn v(xs: &[&str]) -> Vec<String> {
    xs.iter().map(|x| s(x)).collect()
}

fn tokens(input: &str) -> Vec<TOSECToken> {
    try_parse(input).unwrap().tokens
}

fn title(x: &str) -> TOSECToken {
    TOSECToken::Title(s(x))
}

fn warn(w: TOSECWarn) -> TOSECToken {
    TOSECToken::Warning(w)
}

fn date(y: &str, m: Option<&str>, d: Option<&str>) -> TOSECToken {
    TOSECToken::Date(s(y), m.map(s), d.map(s))
}

fn publisher(xs: &[&str]) -> TOSECToken {
    TOSECToken::Publisher(Some(v(xs)))
}

#[test]
fn test_by_publisher_after_date() {
    println!("{:?}", try_parse("ZZZ-UNK-Tron 6 fun v0.15").unwrap());
    println!("{:?}", try_parse("ZZZ-UNK-Poker Game 512 (2005-06-20)").unwrap());
    println!("{:?}", try_parse("ZZZ-UNK-rapide_racer [lyx]").unwrap());
    let x = try_parse("ZZZ-UNK-Befok#Packraw (20021012) by Jum Hig (PD)");
    println!("{:?}", x.unwrap());
    println!(
        "{:?}",
        try_parse("Air-Sea Battle (1977)(Atari)(PAL)[aka Target Fun (Anti-Aircraft)][CX2602]").unwrap()
    )
}

#[test]
fn test_missing_publish_once() {
    println!("{:?}", try_parse("ZZZ-UNK-ATARI").unwrap());
}

#[test]
fn test_ambiguous_version() {
    assert_eq!(
        tokens("ZZZ-UNK-Alien vs Predator (U) (Beta)"),
        vec![
            warn(TOSECWarn::ZZZUnknown),
            title("Alien vs Predator"),
            warn(TOSECWarn::MissingDate),
            warn(TOSECWarn::MissingPublisher),
            warn(TOSECWarn::GoodToolsRegionCode(s("U"))),
            TOSECToken::Region(v(&["U"]), vec![Region::UnitedStates]),
            warn(TOSECWarn::UnexpectedSpace),
            warn(TOSECWarn::MalformedDevelopmentStatus(s("Beta"))),
            TOSECToken::Development(s("Beta")),
        ]
    )
}

#[test]
fn test_by_publisher() {
    assert_eq!(
        tokens("ZZZ-UNK-Micro Font Dumper by Schick, Bastian (199x) (PD)"),
        vec![
            warn(TOSECWarn::ZZZUnknown),
            title("Micro Font Dumper"),
            warn(TOSECWarn::PublisherBeforeDate),
            warn(TOSECWarn::ByPublisher),
            publisher(&["Schick, Bastian"]),
            date("199x", None, None),
            warn(TOSECWarn::UnexpectedSpace),
            TOSECToken::Copyright(s("PD")),
        ]
    );
    assert_eq!(
        tokens("ZZZ-UNK-Clicks! (test) by Domin, Matthias (2001) (PD)"),
        vec![
            warn(TOSECWarn::ZZZUnknown),
            title("Clicks! (test)"),
            warn(TOSECWarn::PublisherBeforeDate),
            warn(TOSECWarn::ByPublisher),
            publisher(&["Domin, Matthias"]),
            date("2001", None, None),
            warn(TOSECWarn::UnexpectedSpace),
            TOSECToken::Copyright(s("PD")),
        ]
    )
}

#[test]
fn test_undelim_date() {
    assert_eq!(
        tokens("ZZZ-UNK-Befok#Packraw (20021012)(Jum Hig)"),
        vec![
            warn(TOSECWarn::ZZZUnknown),
            title("Befok#Packraw"),
            warn(TOSECWarn::UndelimitedDate(s("20021012"))),
            date("2002", Some("10"), Some("12")),
            publisher(&["Jum Hig"]),
        ]
    )
}

#[test]
fn test_parse_multibyte_char() {
    assert_eq!(
        tokens("Segoin Demo Ikinä! (2015-03-28)(AirZero)(FI)"),
        vec![
            title("Segoin Demo Ikinä!"),
            date("2015", Some("03"), Some("28")),
            publisher(&["AirZero"]),
            TOSECToken::Region(v(&["FI"]), vec![Region::Finland]),
        ]
    )
}

#[test]
fn test_parse_spaces() {
    assert_eq!(
        tokens("ZZZ-UNK-Show King Tut (1996) (Schick, Bastian) [a]"),
        vec![
            warn(TOSECWarn::ZZZUnknown),
            title("Show King Tut"),
            date("1996", None, None),
            warn(TOSECWarn::UnexpectedSpace),
            publisher(&["Schick, Bastian"]),
            warn(TOSECWarn::UnexpectedSpace),
            TOSECToken::DumpInfo(s("a"), None, None),
        ]
    );
}

#[test]
fn test_parse_zzz() {
    assert_eq!(
        tokens("ZZZ-UNK-UNK But Ok (199x)(-)"),
        vec![
            warn(TOSECWarn::ZZZUnknown),
            title("UNK But Ok"),
            date("199x", None, None),
            TOSECToken::Publisher(None),
        ]
    );
}

#[test]
fn test_parse_full() {
    assert_eq!(
        tokens("Escape from the Mindmaster (1982)(Starpath)(PAL)(Part 3 of 4)[Supercharger Cassette]"),
        vec![
            title("Escape from the Mindmaster"),
            date("1982", None, None),
            publisher(&["Starpath"]),
            TOSECToken::Video(s("PAL")),
            TOSECToken::Media(vec![(s("Part"), s("3"), o("4"))]),
            TOSECToken::Flag(FlagType::Bracketed, s("Supercharger Cassette")),
        ]
    );
    assert_eq!(
        tokens("Dune - The Battle for Arrakis Demo Hack (2009-04-03)(Ti_)[h Dune - The Battle for Arrakis]"),
        vec![
            title("Dune - The Battle for Arrakis Demo Hack"),
            date("2009", Some("04"), Some("03")),
            publisher(&["Ti_"]),
            TOSECToken::DumpInfo(s("h"), None, o("Dune - The Battle for Arrakis")),
        ]
    );
    assert_eq!(
        tokens("2600 Digital Clock - Demo 1 (demo)(1997-10-03)(Cracknell, Chris 'Crackers')(NTSC)(PD)"),
        vec![
            title("2600 Digital Clock - Demo 1"),
            TOSECToken::Demo(None),
            warn(TOSECWarn::MissingSpace),
            date("1997", Some("10"), Some("03")),
            publisher(&["Cracknell, Chris 'Crackers'"]),
            TOSECToken::Video(s("NTSC")),
            TOSECToken::Copyright(s("PD")),
        ]
    );
    assert_eq!(
        tokens("Cube CD 20, The (40) - Testing v1.203 (demo) (2020)(SomePublisher)"),
        vec![
            title("Cube CD 20, The (40) - Testing"),
            TOSECToken::Version((s("v"), s("1"), o("203"), None, None)),
            TOSECToken::Demo(None),
            date("2020", None, None),
            publisher(&["SomePublisher"]),
        ]
    );
    assert_eq!(
        tokens("Motocross & Pole Position Rev 1 (Starsoft - JVP)(PAL)[b1][possible unknown mode]"),
        vec![
            title("Motocross & Pole Position"),
            TOSECToken::Version((s("Rev"), s("1"), None, None, None)),
            warn(TOSECWarn::MissingDate),
            publisher(&["Starsoft", "JVP"]),
            TOSECToken::Video(s("PAL")),
            TOSECToken::DumpInfo(s("b"), o("1"), None),
            TOSECToken::Flag(FlagType::Bracketed, s("possible unknown mode")),
        ]
    );
    assert_eq!(
        tokens("Motocross & Pole Position (Starsoft - JVP)(PAL)[b1][possible unknown mode]"),
        vec![
            title("Motocross & Pole Position"),
            warn(TOSECWarn::MissingDate),
            publisher(&["Starsoft", "JVP"]),
            TOSECToken::Video(s("PAL")),
            TOSECToken::DumpInfo(s("b"), o("1"), None),
            TOSECToken::Flag(FlagType::Bracketed, s("possible unknown mode")),
        ]
    );
    assert_eq!(
        tokens("Bombsawa (Jumpman Selected levels)(19XX)(-)(JP)(ja)(PD)[cr3 +test][h][test flag]"),
        vec![
            title("Bombsawa (Jumpman Selected levels)"),
            warn(TOSECWarn::MissingSpace),
            warn(TOSECWarn::MalformedDatePlaceholder(s("19XX"))),
            date("19XX", None, None),
            TOSECToken::Publisher(None),
            TOSECToken::Region(v(&["JP"]), vec![Region::Japan]),
            TOSECToken::Languages(TOSECLanguage::Single(s("ja"))),
            TOSECToken::Copyright(s("PD")),
            TOSECToken::DumpInfo(s("cr"), o("3"), o("+test")),
            TOSECToken::DumpInfo(s("h"), None, None),
            TOSECToken::Flag(FlagType::Bracketed, s("test flag")),
        ]
    );
    assert_eq!(
        tokens("Xevious (1983)(CCE)(NTSC)(BR)"),
        vec![
            title("Xevious"),
            date("1983", None, None),
            publisher(&["CCE"]),
            TOSECToken::Video(s("NTSC")),
            TOSECToken::Region(v(&["BR"]), vec![Region::Brazil]),
        ]
    );
    assert_eq!(
        tokens("Mega Man III - Sample version (1992)(Capcom)(US)"),
        vec![
            title("Mega Man III - Sample version"),
            date("1992", None, None),
            publisher(&["Capcom"]),
            TOSECToken::Region(v(&["US"]), vec![Region::UnitedStates]),
        ]
    );
}

#[test]
fn test_parse_dumpinfo() {
    assert_eq!(parse_dumpinfo_tag("cr", "[cr]"), Some((s(""), TOSECToken::DumpInfo(s("cr"), None, None))));
    assert_eq!(parse_dumpinfo_tag("cr", "[cr2]"), Some((s(""), TOSECToken::DumpInfo(s("cr"), o("2"), None))));
    assert_eq!(
        parse_dumpinfo_tag("cr", "[cr2 Crack]"),
        Some((s(""), TOSECToken::DumpInfo(s("cr"), o("2"), o("Crack"))))
    );
    assert_eq!(parse_dumpinfo_tag("cr", "[cr2Crack]"), None);
    assert_eq!(
        parse_dumpinfo_tag("cr", "[cr2 PDX - TRSi]"),
        Some((s(""), TOSECToken::DumpInfo(s("cr"), o("2"), o("PDX - TRSi"))))
    );
}

#[test]
fn test_parse_parts() {
    assert_eq!(parse_media("Disc 2 of 2"), Some((s(""), TOSECToken::Media(vec![(s("Disc"), s("2"), o("2"))]))));
    assert_eq!(parse_media("Side B"), Some((s(""), TOSECToken::Media(vec![(s("Side"), s("B"), None)]))));
    assert_eq!(
        parse_media("Disc 2 of 2 Side C"),
        Some((s(""), TOSECToken::Media(vec![(s("Disc"), s("2"), o("2")), (s("Side"), s("C"), None)])))
    );
    assert_eq!(
        parse_media("Side 2 of 2 Side C"),
        Some((s(""), TOSECToken::Media(vec![(s("Side"), s("2"), o("2")), (s("Side"), s("C"), None)])))
    );
}

#[test]
fn test_parse_version() {
    assert_eq!(
        parse_version_string("v1.0a"),
        Some((s(""), TOSECToken::Version((s("v"), s("1"), o("0a"), None, None))))
    );
    assert_eq!(
        parse_version_string("Rev 1b"),
        Some((s(""), TOSECToken::Version((s("Rev"), s("1b"), None, None, None))))
    );
    assert_eq!(
        parse_version_string("v20000101"),
        Some((s(""), TOSECToken::Version((s("v"), s("20000101"), None, None, None))))
    );
}

fn check_parse_lang() {
    assert_eq!(parse_language_tag("(M6)"), Some((s(""), TOSECToken::Languages(TOSECLanguage::Count(s("6"))))));
    assert_eq!(parse_language_tag("(M16)"), Some((s(""), TOSECToken::Languages(TOSECLanguage::Count(s("16"))))));
    assert_eq!(parse_language_tag("(en)"), Some((s(""), TOSECToken::Languages(TOSECLanguage::Single(s("en"))))));
    assert_eq!(
        parse_language_tag("(en-ja)"),
        Some((s(""), TOSECToken::Languages(TOSECLanguage::Double(s("en"), s("ja")))))
    );
}

#[test]
fn test_parse_lang() {
    check_parse_lang();
}

#[test]
fn parsers_test_parse_lang() {
    check_parse_lang();
}

#[test]
fn test_parse_date() {
    assert_eq!(parse_date("1999"), Some((s(""), vec![date("1999", None, None)])));
    assert_eq!(parse_date("199x"), Some((s(""), vec![date("199x", None, None)])));
    assert_eq!(parse_date("199x-2x"), Some((s(""), vec![date("199x", Some("2x"), None)])));
    assert_eq!(parse_date("199x-2x-10"), Some((s(""), vec![date("199x", Some("2x"), Some("10"))])));
}

#[test]
fn test_parse_region() {
    assert_eq!(Region::try_from_tosec_region_with_strs("US"), Ok((v(&["US"]), vec![Region::UnitedStates])));
    assert_eq!(
        Region::try_from_tosec_region_with_strs("US-ZZ"),
        Ok((v(&["US", "ZZ"]), vec![Region::UnitedStates, Region::Unknown]))
    );
}

#[test]
fn test_parse_region_tag() {
    assert_eq!(
        parse_region_tag("(US)"),
        Some((s(""), TOSECToken::Region(v(&["US"]), vec![Region::UnitedStates])))
    );
    assert_eq!(
        parse_region_tag("(US-ZZ)"),
        Some((s(""), TOSECToken::Region(v(&["US", "ZZ"]), vec![Region::UnitedStates, Region::Unknown])))
    );
}

#[test]
fn test_parse_publisher() {
    assert_eq!(parse_publisher_tag("(-)"), Some((s(""), TOSECToken::Publisher(None))));
    assert_eq!(parse_publisher_tag("(Devstudio)"), Some((s(""), publisher(&["Devstudio"]))));
    assert_eq!(parse_publisher_tag("(Ultrafast Software)"), Some((s(""), publisher(&["Ultrafast Software"]))));
    assert_eq!(
        parse_publisher_tag("(Smith, R. - White, P.S.)"),
        Some((s(""), publisher(&["Smith, R.", "White, P.S."])))
    );
    assert_eq!(parse_publisher("Smith, R. - White, P.S."), Some((s(""), publisher(&["Smith, R.", "White, P.S."]))));
}

fn warning_leads(w: &TOSECWarn, next: Option<&TOSECToken>) -> bool {
    match w {
        TOSECWarn::ZZZUnknown => matches!(next, Some(TOSECToken::Title(_))),
        TOSECWarn::GoodToolsRegionCode(x) => {
            matches!(next, Some(TOSECToken::Region(c, _)) if *c == vec![x.clone()])
        }
        TOSECWarn::MalformedDevelopmentStatus(x) => {
            matches!(next, Some(TOSECToken::Development(y)) if y == x)
        }
        TOSECWarn::UndelimitedDate(x) => matches!(
            next,
            Some(TOSECToken::Date(y, Some(m), Some(d))) if format!("{}{}{}", y, m, d) == *x
        ),
        TOSECWarn::MalformedDatePlaceholder(_) => matches!(
            next,
            Some(TOSECToken::Date(_, _, _))
                | Some(TOSECToken::Warning(TOSECWarn::MalformedDatePlaceholder(_)))
        ),
        TOSECWarn::VersionInFlag => matches!(next, Some(TOSECToken::Version(_))),
        TOSECWarn::PublisherBeforeDate => {
            matches!(next, Some(TOSECToken::Warning(TOSECWarn::ByPublisher)))
        }
        TOSECWarn::ByPublisher => matches!(next, Some(TOSECToken::Publisher(_))),
        TOSECWarn::MissingSpace => matches!(
            next,
            Some(TOSECToken::Date(_, _, _))
                | Some(TOSECToken::Warning(TOSECWarn::UndelimitedDate(_)))
                | Some(TOSECToken::Warning(TOSECWarn::MalformedDatePlaceholder(_)))
        ),
        _ => true,
    }
}

#[test]
fn tosec_warnings_come_before_their_tokens() {
    let names = [
        "ZZZ-UNK-Alien vs Predator (U) (Beta)",
        "ZZZ-UNK-Micro Font Dumper by Schick, Bastian (199x) (PD)",
        "ZZZ-UNK-Befok#Packraw (20021012)(Jum Hig)",
        "Game(19XX-XX-XX)(Publisher)",
        "Game v1.0 (1990)(Publisher)(Disk 1 of 2)[a]",
    ];
    for name in names.iter() {
        let ts = tokens(name);
        for (i, t) in ts.iter().enumerate() {
            if let TOSECToken::Warning(w) = t {
                assert!(warning_leads(w, ts.get(i + 1)), "{}: {:?}", name, ts);
            }
        }
    }
    assert_eq!(
        tokens("Game(19XX-XX-XX)(Publisher)"),
        vec![
            title("Game"),
            warn(TOSECWarn::MissingSpace),
            warn(TOSECWarn::MalformedDatePlaceholder(s("19XX"))),
            warn(TOSECWarn::MalformedDatePlaceholder(s("XX"))),
            warn(TOSECWarn::MalformedDatePlaceholder(s("XX"))),
            date("19XX", Some("XX"), Some("XX")),
            publisher(&["Publisher"]),
        ]
    );
}

fn fits_part(t: &TOSECToken, part: usize) -> bool {
    match t {
        TOSECToken::Warning(_) => true,
        TOSECToken::Version(_) => part == 0 || part == 2,
        TOSECToken::Demo(_) | TOSECToken::Date(_, _, _) => part == 0,
        TOSECToken::Publisher(_) => part == 0 || part == 1,
        TOSECToken::Region(_, _)
        | TOSECToken::Languages(_)
        | TOSECToken::Video(_)
        | TOSECToken::Copyright(_)
        | TOSECToken::Media(_)
        | TOSECToken::Development(_) => part == 2,
        TOSECToken::Flag(FlagType::Parenthesized, _) => part == 2,
        TOSECToken::DumpInfo(_, _, _) => part == 3,
        TOSECToken::Flag(FlagType::Bracketed, _) => part == 4,
        TOSECToken::Title(_) => false,
    }
}

fn in_order_of_parts(ts: &[TOSECToken]) -> bool {
    let start = match ts {
        [TOSECToken::Title(_), ..] => 1,
        [TOSECToken::Warning(TOSECWarn::ZZZUnknown), TOSECToken::Title(_), ..] => 2,
        _ => return false,
    };
    let mut part = 0;
    for t in &ts[start..] {
        while part <= 4 && !fits_part(t, part) {
            part += 1;
        }
        if part > 4 {
            return false;
        }
    }
    true
}

#[test]
fn tosec_tokens_follow_the_parts_of_the_name() {
    let names = [
        "ZZZ-UNK-Alien vs Predator (U) (Beta)",
        "ZZZ-UNK-Micro Font Dumper by Schick, Bastian (199x) (PD)",
        "Legend, The v1.1 (demo) (1990)(Publisher)(PAL)(Disk 2 of 3)(beta)[cr Group][a]",
        "Game (1990)(Pub)(v1.2)(US)[!]",
        "Game (1990)(Pub)[b]left over",
    ];
    for name in names.iter() {
        let ts = tokens(name);
        assert!(in_order_of_parts(&ts), "{}: {:?}", name, ts);
    }
    assert!(!in_order_of_parts(&[
        title("Game"),
        TOSECToken::Flag(FlagType::Bracketed, s("a")),
        TOSECToken::Region(v(&["US"]), vec![Region::UnitedStates]),
    ]));
}
