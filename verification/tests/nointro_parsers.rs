use shiratsu::naming::nointro::{
    parse_additional_tag, parse_beta_tag, parse_disc_tag, parse_language_tag, parse_region_tag,
    parse_scene_number, parse_version_tag, try_parse, NoIntroToken,
};
use shiratsu::naming::FlagType;
use shiratsu::region::{Region, RegionError, RegionFormat};

fn s(x: &str) -> String {
    String::from(x)
}

fn ver(
    prefix: &str,
    major: &str,
    minor: Option<&str>,
    pre: Option<&str>,
    suffix: Option<Vec<&str>>,
) -> (String, String, Option<String>, Option<String>, Option<Vec<String>>) {
    (
        s(prefix),
        s(major),
        minor.map(s),
        pre.map(s),
        suffix.map(|v| v.into_iter().map(s).collect()),
    )
}

#[test]
fn parse_weird_beta() {
    //Isle of Minno (Europe) (0.01) (Beta)
}

#[test]
fn parse_scene_tags() {
    assert_eq!(Some((s(""), NoIntroToken::Scene(s("1234"), None))), parse_scene_number("1234"));
    assert_eq!(Some((s(""), NoIntroToken::Scene(s("234"), Some(s("z"))))), parse_scene_number("z234"));
    assert_eq!(Some((s(""), NoIntroToken::Scene(s("234"), Some(s("x"))))), parse_scene_number("x234"));
    assert_eq!(Some((s(""), NoIntroToken::Scene(s("34"), Some(s("xB"))))), parse_scene_number("xB34"));
}

#[test]
fn scene_numbers_after_xb_take_every_digit() {
    assert_eq!(Some((s(""), NoIntroToken::Scene(s("123"), Some(s("xB"))))), parse_scene_number("xB123"));
    assert_eq!(Some((s("a"), NoIntroToken::Scene(s("123"), Some(s("x"))))), parse_scene_number("x123a"));
}

#[test]
fn parse_language_test() {
    let langs = parse_language_tag("(En,Fr,Es,Zh-Hant)");
    assert_eq!(
        Some((
            s(""),
            NoIntroToken::Languages(vec![
                (s("En"), None),
                (s("Fr"), None),
                (s("Es"), None),
                (s("Zh"), Some(s("Hant")))
            ])
        )),
        langs
    );
}

#[test]
fn parse_odekake() {
    let stuff = try_parse("Odekake Lester - Lelele no Le (^^; (Japan) (Unl) (Rev 1)").unwrap();
    assert_eq!(Some(&NoIntroToken::Title(s("Odekake Lester - Lelele no Le (^^;"))), stuff.first())
}

#[test]
fn parse_additional() {
    let stuff = parse_additional_tag("()");
    assert_eq!(stuff, None);
}

#[test]
fn parse_no_region_fail() {
    let err = try_parse("void tRrLM(); Void Terrarium");
    assert!(err.is_err());
}

#[test]
fn parse_void() {
    let stuff = try_parse("void tRrLM(); Void Terrarium (Japan)").unwrap();
    assert_eq!(Some(&NoIntroToken::Title(s("void tRrLM(); Void Terrarium"))), stuff.first())
}

#[test]
fn parse_disc_test() {
    assert_eq!(parse_disc_tag("(Disc 5)"), Some((s(""), NoIntroToken::Part(s("Disc"), s("5")))));
}

#[test]
fn parse_beta_test() {
    assert_eq!(parse_beta_tag("(Beta)"), Some((s(""), NoIntroToken::Beta(None))));
    assert_eq!(parse_beta_tag("(Beta 3)"), Some((s(""), NoIntroToken::Beta(Some(s("3"))))));
    assert_eq!(parse_beta_tag("(Beta 55)"), Some((s(""), NoIntroToken::Beta(Some(s("55"))))));
    assert_eq!(parse_beta_tag("(Beta Phase 2)"), Some((s(""), NoIntroToken::Beta(Some(s("Phase 2"))))));
}

#[test]
fn parse_redump_ver_test() {
    assert_eq!(
        parse_version_tag("(Version 5.0 04/15/10 E)"),
        Some((
            s(""),
            NoIntroToken::Version(
                vec![ver("Version", "5", Some("0"), None, Some(vec!["04/15/10", "E"]))],
                vec![s("")]
            )
        ))
    );
    assert_eq!(
        parse_version_tag("(Version 4.5 05/25/00 A)"),
        Some((
            s(""),
            NoIntroToken::Version(
                vec![ver("Version", "4", Some("5"), None, Some(vec!["05/25/00", "A"]))],
                vec![s("")]
            )
        ))
    );
}

#[test]
fn parse_ver_test() {
    let one = |t: &str, v: Vec<(String, String, Option<String>, Option<String>, Option<Vec<String>>)>, seps: &[&str]| {
        let seps: Vec<String> = seps.iter().map(|x| s(x)).collect();
        assert_eq!(parse_version_tag(t), Some((s(""), NoIntroToken::Version(v, seps))), "{}", t);
    };
    one("(v10.XX)", vec![ver("v", "10", Some("XX"), None, None)], &[""]);
    one("(Version 10.5.6-10)", vec![ver("Version", "10", Some("5.6-10"), None, None)], &[""]);
    one("(Version 9)", vec![ver("Version", "9", None, None, None)], &[""]);
    one("(v1.0.0, v12342)", vec![ver("v", "1", Some("0.0"), None, None), ver("v", "12342", None, None, None)], &[", ", ""]);
    one("(Rev 10)", vec![ver("Rev", "10", None, None, None)], &[""]);
    one("(Rev 10.08)", vec![ver("Rev", "10", Some("08"), None, None)], &[""]);
    one("(Rev 5C21)", vec![ver("Rev", "5C21", None, None, None)], &[""]);
    one("(0.01)", vec![ver("", "0", Some("01"), None, None)], &[""]);
    one("(v1.07 Rev 1)", vec![ver("v", "1", Some("07"), None, None), ver("Rev", "1", None, None, None)], &[" ", ""]);
    one("(v1.07 1023)", vec![ver("v", "1", Some("07"), None, None), ver("", "1023", None, None, None)], &[" ", ""]);
    one("(v1.07, 1023)", vec![ver("v", "1", Some("07"), None, None), ver("", "1023", None, None, None)], &[", ", ""]);
    one("(v1.07, v1023)", vec![ver("v", "1", Some("07"), None, None), ver("v", "1023", None, None, None)], &[", ", ""]);
    one("(v1.07b, v1023)", vec![ver("v", "1", Some("07b"), None, None), ver("v", "1023", None, None, None)], &[", ", ""]);
    assert_eq!(parse_version_tag("(1984)"), None);
    one(
        "(v1.07, v1023, PS3 v1.70, PSP v5.51, v60 Alt)",
        vec![
            ver("v", "1", Some("07"), None, None),
            ver("v", "1023", None, None, None),
            ver("v", "1", Some("70"), Some("PS3"), None),
            ver("v", "5", Some("51"), Some("PSP"), None),
            ver("v", "60", None, None, Some(vec!["Alt"])),
        ],
        &[", ", ", ", ", ", ", ", ""],
    );
    one("(Version 5.0 04/15/10 E)", vec![ver("Version", "5", Some("0"), None, Some(vec!["04/15/10", "E"]))], &[""]);
    one("(Version 4.5 05/25/00 A)", vec![ver("Version", "4", Some("5"), None, Some(vec!["05/25/00", "A"]))], &[""]);
}

#[test]
fn parse_region_test() {
    assert_eq!(
        Region::try_from_nointro_region("Japan, Europe, Australia, New Zealand"),
        Ok(vec![Region::Japan, Region::Europe, Region::Australia, Region::NewZealand])
    );
}

#[test]
fn parse_region_tag_test() {
    assert_eq!(
        parse_region_tag("(Japan, Europe, Australia, New Zealand)"),
        Some((
            s(""),
            NoIntroToken::Region(
                vec![s("Japan"), s("Europe"), s("Australia"), s("New Zealand")],
                vec![Region::Japan, Region::Europe, Region::Australia, Region::NewZealand]
            )
        ))
    );
}

#[test]
fn parse_region_test_fail() {
    match Region::try_from_nointro_region("Japan, Europe, Apustralia, New Zealand") {
        Err(RegionError::BadRegionCode(code, format, at)) => {
            assert_eq!(code, s("Apustralia"));
            assert_eq!(format, RegionFormat::NoIntro);
            assert_eq!(at, 15);
        }
        other => panic!("unexpected {:?}", other),
    }
}

#[test]
fn parse_brazil() {
    let stuff =
        try_parse("FIFA 20 - Portuguese (Brazil) In-Game Commentary (World) (Pt-BR) (DLC) (eShop)").unwrap();
    assert_eq!(Some(&NoIntroToken::Title(s("FIFA 20 - Portuguese (Brazil) In-Game Commentary"))), stuff.first())
}

#[test]
fn parse_unl() {
    assert_eq!(
        parse_additional_tag("(Unl)"),
        Some((s(""), NoIntroToken::Flag(FlagType::Parenthesized, s("Unl"))))
    )
}

#[test]
fn version_minor_takes_unicode_letters() {
    assert_eq!(
        parse_version_tag("(v1.0ä)"),
        Some((s(""), NoIntroToken::Version(vec![ver("v", "1", Some("0ä"), None, None)], vec![s("")])))
    );
}

#[test]
fn spaces_around_the_title_are_tokens() {
    let toks = try_parse("  Game  (USA) (Unl) [b]").unwrap();
    assert_eq!(
        toks,
        vec![
            NoIntroToken::Space(s("  ")),
            NoIntroToken::Title(s("Game")),
            NoIntroToken::Space(s("  ")),
            NoIntroToken::Region(vec![s("USA")], vec![Region::UnitedStates]),
            NoIntroToken::Space(s(" ")),
            NoIntroToken::Flag(FlagType::Parenthesized, s("Unl")),
            NoIntroToken::Space(s(" ")),
            NoIntroToken::Flag(FlagType::Bracketed, s("b")),
        ]
    );
    assert_ne!(try_parse("Game (USA)").unwrap(), try_parse(" Game (USA)").unwrap());
}

#[test]
fn version_separators_are_kept() {
    assert_ne!(parse_version_tag("(v1.07,v1023)"), parse_version_tag("(v1.07, v1023)"));
    assert_eq!(
        parse_version_tag("(v1.07 )"),
        Some((s(""), NoIntroToken::Version(vec![ver("v", "1", Some("07"), None, None)], vec![s(" ")])))
    );
    assert_eq!(
        parse_version_tag("(Rev 10.)"),
        Some((s(""), NoIntroToken::Version(vec![ver("Rev", "10", Some(""), None, None)], vec![s("")])))
    );
    assert_eq!(
        parse_version_tag("(PS3 v1.70 Alt)"),
        Some((s(""), NoIntroToken::Version(vec![ver("v", "1", Some("70"), Some("PS3"), Some(vec!["Alt"]))], vec![s("")])))
    );
}
