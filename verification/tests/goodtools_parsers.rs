use shiratsu::naming::goodtools::{
    parse_dump_tag, parse_game_hack_tag, parse_region_tag, parse_translation_tag,
    parse_version_tag, parse_version_with_space_tag, parse_version_with_underscore_tag,
    parse_vol_tag, parse_year_tag, try_parse, GoodTool, GoodToolsToken, TranslationStatus,
};
use shiratsu::region::Region;

fn s(x: &str) -> String {
    String::from(x)
}

fn o(x: &str) -> Option<String> {
    Some(String::from(x))
}

fn dump(
    code: &str,
    n: Option<&str>,
    ty: Option<&str>,
    sign: Option<&str>,
    argn: Option<&str>,
    args: Option<&str>,
) -> Option<(String, GoodToolsToken)> {
    Some((
        s(""),
        GoodToolsToken::DumpCode(s(code), n.map(s), ty.map(s), sign.map(s), argn.map(s), args.map(s)),
    ))
}

fn version(tag: &str, major: &str, minor: Option<&str>) -> Option<(String, GoodToolsToken)> {
    Some((s(""), GoodToolsToken::Version(s(tag), s(major), minor.map(s))))
}

#[test]
fn test_parse() {
    println!("{:?}", try_parse("(core) by wAMMA (2007) (PD)").unwrap());
    println!(
        "{:?}",
        try_parse("2 Pak Special (Magenta) - Cavern Blaster, City War (1992) (HES) (PAL) [!]").unwrap()
    );
    println!("{:?}", try_parse("Fire Emblem - Ankoku Ryuu to Hikari no Tsurugi (J) [hM04][b1]").unwrap());
}

#[test]
fn test_game_hack_tag() {
    assert_eq!(parse_game_hack_tag("(SMB1 Hack)"), Some((s(""), GoodToolsToken::GameHack(o("SMB1")))))
}

#[test]
fn test_vol_tag() {
    assert_eq!(parse_vol_tag("(Vol 6)"), Some((s(""), GoodToolsToken::Volume(s("6")))))
}

#[test]
fn test_dump_tag() {
    assert_eq!(parse_dump_tag("p", "[p]"), dump("p", None, None, None, None, None));
    assert_eq!(parse_dump_tag("!", "[!]"), dump("!", None, None, None, None, None));
    assert_eq!(parse_dump_tag("!p", "[!p]"), dump("!p", None, None, None, None, None));
    assert_eq!(parse_dump_tag("a", "[a1]"), dump("a", Some("1"), None, None, None, None));
    assert_eq!(
        parse_dump_tag("b", "[b02-Unknown Song 2]"),
        dump("b", Some("02"), None, Some("-"), None, Some("Unknown Song 2"))
    );
    assert_eq!(parse_dump_tag("h", "[h]"), dump("h", None, None, None, None, None));
    assert_eq!(parse_dump_tag("h", "[h1]"), dump("h", Some("1"), None, None, None, None));
    assert_eq!(parse_dump_tag("h", "[h2IR]"), dump("h", Some("2"), Some("IR"), None, None, None));
    assert_eq!(parse_dump_tag("h", "[h2IR00]"), dump("h", Some("2"), Some("IR"), None, None, Some("00")));
    assert_eq!(parse_dump_tag("h", "[h2IRff]"), dump("h", Some("2"), Some("IR"), None, None, Some("ff")));
    assert_eq!(parse_dump_tag("h", "[hMF6]"), dump("h", None, Some("MF"), None, None, Some("6")));
    assert_eq!(parse_dump_tag("h", "[h1+2C]"), dump("h", Some("1"), None, Some("+"), Some("2"), Some("C")));
}

#[test]
fn test_ver_underscore() {
    assert_eq!(parse_version_with_underscore_tag("(V_unfinished)"), version("V_", "unfinished", None));
}

#[test]
fn test_ver() {
    assert_eq!(parse_version_tag("(Vx.xx)"), version("V", "x", Some("xx")));
    assert_eq!(parse_version_tag("(Vx.x)"), version("V", "x", Some("x")));
    assert_eq!(parse_version_tag("(Vxxxx)"), version("V", "xxxx", None));
    assert_eq!(parse_version_tag("(V1.1)"), version("V", "1", Some("1")));
    assert_eq!(parse_version_tag("(V1.1.0.1)"), version("V", "1", Some("1.0.1")));
    assert_eq!(parse_version_tag("(V1.15)"), version("V", "1", Some("15")));
    assert_eq!(parse_version_tag("(V20150731)"), version("V", "20150731", None));
    assert_eq!(parse_version_tag("(V1.27_20090723)"), version("V", "1", Some("27_20090723")));
    assert_eq!(parse_version_tag("(V20050108-Rev33)"), version("V", "20050108-Rev33", None));
    assert_eq!(parse_version_tag("(VFinal)"), version("V", "Final", None));
    assert_eq!(parse_version_tag("(VFinal_20070204_for EZ4)"), version("V", "Final", Some("20070204_for EZ4")));
    assert_eq!(parse_version_tag("(V20120924PAL)"), version("V", "20120924PAL", None));
    assert_eq!(parse_version_tag("(VWIP8)"), version("V", "WIP", Some("8")));
    assert_eq!(parse_version_tag("(Vector)"), None);
}

#[test]
fn test_space_ver() {
    assert_eq!(parse_version_with_space_tag("(V b1)"), version("V ", "b1", None));
    assert_eq!(parse_version_with_space_tag("(V b2)"), version("V ", "b2", None));
    assert_eq!(parse_version_with_space_tag("(V x.xx)"), version("V ", "x", Some("xx")));
    assert_eq!(parse_version_with_space_tag("(V 1502)"), version("V ", "1502", None));
    assert_eq!(parse_version_with_space_tag("(V 15)"), version("V ", "15", None));
}

#[test]
fn test_translation() {
    assert_eq!(
        parse_translation_tag("[T+Eng10%]"),
        Some((s(""), GoodToolsToken::Translation(TranslationStatus::Recent, s("Eng10%"))))
    );
}

#[test]
fn test_region() {
    assert_eq!(
        parse_region_tag("(U)"),
        Some((s(""), GoodToolsToken::Region(vec![s("U")], vec![Region::UnitedStates])))
    );
    assert_eq!(
        parse_region_tag("(W)"),
        Some((
            s(""),
            GoodToolsToken::Region(vec![s("W")], vec![Region::Japan, Region::UnitedStates, Region::Europe])
        ))
    )
}

#[test]
fn test_year() {
    assert_eq!(parse_year_tag("(1999)"), Some((s(""), GoodToolsToken::Year(s("1999")))));
    assert_eq!(parse_year_tag("(19xx)"), Some((s(""), GoodToolsToken::Year(s("19xx")))));
    assert_eq!(parse_year_tag("(20xx)"), Some((s(""), GoodToolsToken::Year(s("20xx")))));
}

#[test]
fn goodtool_names() {
    assert_eq!(GoodTool::from("GoodNES"), GoodTool::GoodNES);
    assert_eq!(GoodTool::from("NES"), GoodTool::GoodNES);
    assert_eq!(GoodTool::from("Nothing Like It"), GoodTool::Generic);
    assert_eq!(GoodTool::default(), GoodTool::Generic);
}

#[test]
fn goodtools_name_without_tags_is_all_title() {
    let n = try_parse("Plain Title").unwrap();
    assert_eq!(n.tokens, vec![GoodToolsToken::Title(s("Plain Title"))]);
}

#[test]
fn final_version_takes_unicode_letters() {
    assert_eq!(parse_version_tag("(VFinal_Überarbeitet)"), version("V", "Final", Some("Überarbeitet")));
}
