use shiratsu::dat::{check_header, extension, DatRom, FindRomMimetype, GameEntry, RomEntry, Serial};
use shiratsu::error::ParseError;
use shiratsu::naming::tosec::{try_parse as tosec_parse, TOSECToken};
use shiratsu::naming::NamingConvention;
use shiratsu::region::Region;
use shiratsu::sortrules::{is_dat_file_name, rooted_globs};
use shiratsu::stone::{expand_file_types, PlatformId, PlatformInfo, StoneError, StonePlatforms};

fn s(x: &str) -> String {
    String::from(x)
}

fn rom(name: &str, md5: &str, serial: Option<&str>) -> DatRom {
    DatRom {
        name: s(name),
        size: 1024,
        crc: s("ABCD1234"),
        md5: s(md5),
        sha1: s("DA39A3EE5E6B4B0D3255BFEF95601890AFD80709"),
        serial: serial.map(s),
    }
}

fn entry(name: &str, md5: Option<&str>) -> RomEntry {
    RomEntry { md5: md5.map(s), sha1: None, crc: None, file_name: s(name), size: 16 }
}

fn nes_platform() -> PlatformInfo {
    PlatformInfo {
        platform_id: PlatformId::new(s("NINTENDO_NES")),
        file_types: vec![
            (s(".nes"), s("application/vnd.stone-romfile.nintendo.nes")),
            (s("BIOS"), s("application/vnd.stone-romfile.nintendo.nes-bios")),
            (s("RSRC"), s("application/octet-stream")),
        ],
        bios_files: Some(vec![(s("disksys.rom"), vec![s("ca30b50f880eb660a320674ed365ef7a")])]),
    }
}

#[test]
fn nointro_game_lowercases_hashes_and_splits_serials() {
    let roms = vec![rom("Game (USA).nes", "ABCDEF", Some("NES-AB-USA, NES-CD-USA"))];
    let g = GameEntry::try_from_nointro_game("Game (USA)", &roms).unwrap();
    assert_eq!(g.entry_name(), "Game (USA)");
    assert_eq!(g.source(), "No-Intro");
    assert_eq!(g.rom_entries()[0].hash_md5(), Some("abcdef"));
    assert_eq!(g.rom_entries()[0].hash_crc(), Some("abcd1234"));
    assert_eq!(g.rom_entries()[0].file_name(), "Game (USA).nes");
    assert_eq!(g.rom_entries()[0].size(), 1024);
    assert_eq!(g.serials(), &[Serial::new(s("NES-AB-USA")), Serial::new(s("NES-CD-USA"))]);
    assert_eq!(g.info().unwrap().region(), &[Region::UnitedStates]);
}

#[test]
fn nointro_game_with_bad_name_fails() {
    let roms = vec![rom("x.nes", "ab", None)];
    match GameEntry::try_from_nointro_game("No Region Here", &roms) {
        Err(ParseError::BadFileNameError(NamingConvention::NoIntro, n)) => assert_eq!(n, s("No Region Here")),
        other => panic!("unexpected {:?}", other),
    }
}

#[test]
fn redump_game_dashes_serial_spaces() {
    let roms = vec![rom("Game (Japan).cue", "ABCDEF", None)];
    let g = GameEntry::try_from_redump_game("Game (Japan)", &roms, Some(" SLPS 01234 , SLPS 01235")).unwrap();
    assert_eq!(g.source(), "redump.org");
    assert_eq!(g.rom_entries()[0].hash_md5(), Some("ABCDEF"));
    assert_eq!(g.serials(), &[Serial::new(s("SLPS-01234")), Serial::new(s("SLPS-01235"))]);
}

#[test]
fn tosec_game_has_no_serials() {
    let roms = vec![rom("Xevious (1983)(CCE)(NTSC)(BR).a26", "ABC", Some("X-1"))];
    let g = GameEntry::try_from_tosec_game("Xevious (1983)(CCE)(NTSC)(BR)", &roms).unwrap();
    assert_eq!(g.source(), "TOSEC");
    assert!(g.serials().is_empty());
    assert_eq!(g.info().unwrap().region(), &[Region::Brazil]);
}

#[test]
fn dats_site_game_has_no_info() {
    let roms = vec![rom("a.bin", "ABC", None)];
    let g = GameEntry::from_dats_site_game("anything at all", &roms);
    assert_eq!(g.source(), "dats.site");
    assert!(g.info().is_none());
    assert_eq!(g.rom_entries()[0].hash_md5(), Some("abc"));
}

#[test]
fn header_check() {
    assert_eq!(check_header("No-Intro", Some("No-Intro")), Ok(()));
    assert_eq!(
        check_header("No-Intro", Some("redump.org")),
        Err(ParseError::HeaderMismatchError("No-Intro", Some(s("redump.org"))))
    );
    assert_eq!(check_header("TOSEC", None), Err(ParseError::HeaderMismatchError("TOSEC", None)));
}

#[test]
fn rom_equality_is_by_hashes() {
    let a = RomEntry { md5: Some(s("aa")), sha1: Some(s("bb")), crc: Some(s("cc")), file_name: s("x"), size: 1 };
    let b = RomEntry { md5: Some(s("aa")), sha1: Some(s("bb")), crc: Some(s("cc")), file_name: s("y"), size: 2 };
    let c = RomEntry { md5: Some(s("aa")), sha1: Some(s("dd")), crc: Some(s("cc")), file_name: s("x"), size: 1 };
    let partial = RomEntry { md5: Some(s("aa")), sha1: Some(s("bb")), crc: None, file_name: s("x"), size: 1 };
    assert!(a == b);
    assert!(b == a);
    assert!(a == a);
    assert!(a != c);
    assert!(partial != partial);
}

#[test]
fn extensions_follow_path_rules() {
    assert_eq!(extension("Game (USA).nes"), Some(s("nes")));
    assert_eq!(extension("dir.d/archive.tar.gz"), Some(s("gz")));
    assert_eq!(extension(".hidden"), None);
    assert_eq!(extension("noext"), None);
    assert_eq!(extension("dir/.."), None);
    assert_eq!(extension("trailing."), Some(s("")));
}

#[test]
fn mimetype_of_rom() {
    let base = nes_platform();
    let p = PlatformInfo {
        platform_id: PlatformId::new(s("NINTENDO_NES")),
        file_types: expand_file_types(&base.file_types),
        bios_files: base.bios_files,
    };
    assert_eq!(entry("Game.nes", None).find_mimetype(&p), Some("application/vnd.stone-romfile.nintendo.nes"));
    assert_eq!(entry("Game.txt", None).find_mimetype(&p), Some("application/octet-stream"));
    assert_eq!(
        entry("disksys.rom", Some("ca30b50f880eb660a320674ed365ef7a")).find_mimetype(&p),
        Some("application/vnd.stone-romfile.nintendo.nes-bios")
    );
}

#[test]
fn expanded_file_types() {
    let expanded = expand_file_types(&nes_platform().file_types);
    let p = PlatformInfo {
        platform_id: PlatformId::new(s("NINTENDO_NES")),
        file_types: expanded,
        bios_files: None,
    };
    let nes = Some("application/vnd.stone-romfile.nintendo.nes");
    assert_eq!(p.get_mimetype_for_ext(".nes"), nes);
    assert_eq!(p.get_mimetype_for_ext("nes"), nes);
    assert_eq!(p.get_mimetype_for_ext("NES"), nes);
    assert_eq!(p.get_mimetype_for_ext(".NES"), nes);
    assert_eq!(p.get_mimetype_for_ext("IOS"), None);
    assert_eq!(p.file_exts().len(), 6);
    assert_eq!(p.mimetypes().len(), 6);
    assert_eq!(p.friendly_name(), p.mimetypes());
}

#[test]
fn bios_hashes() {
    let p = nes_platform();
    assert!(p.is_bios_md5("ca30b50f880eb660a320674ed365ef7a"));
    assert!(!p.is_bios_md5("00"));
}

#[test]
fn stone_lookups() {
    let stone = StonePlatforms::new(vec![nes_platform()], s("1.0.0"));
    assert_eq!(stone.version(), "1.0.0");
    assert_eq!(stone.ids(), vec![PlatformId::new(s("NINTENDO_NES"))]);
    assert_eq!(stone.get_platform_id_ref("NINTENDO_NES").map(|p| p.as_ref()), Some("NINTENDO_NES"));
    assert!(stone.get_platform_id_ref("SEGA_GEN").is_none());
    assert_eq!(stone.platform(&PlatformId::new(s("NINTENDO_NES"))).unwrap().platform_id().as_ref(), "NINTENDO_NES");
    assert_eq!(
        stone.platform(&PlatformId::new(s("SEGA_GEN"))).err(),
        Some(StoneError::NoSuchPlatform(PlatformId::new(s("SEGA_GEN"))))
    );
    assert_eq!(stone.try_platform_id("NINTENDO_NES"), Ok(PlatformId::new(s("NINTENDO_NES"))));
    assert_eq!(stone.try_platform_id("NOPE"), Err(StoneError::InvalidPlatformId(s("NOPE"))));
}

#[test]
fn sony_serials_normalize() {
    let psx = PlatformId::new(s("SONY_PSX"));
    assert_eq!(Serial::new(s("SLUS-00594")).as_normalized(&psx), Serial::new(s("SLUS-00594")));
    assert_eq!(Serial::new(s("SLUS_00594")).as_normalized(&psx), Serial::new(s("SLUS-00594")));
    assert_eq!(Serial::new(s("SLUS 00594 GH")).as_normalized(&psx), Serial::new(s("SLUS-00594")));
    assert_eq!(Serial::new(s("SLUS-00594/V2")).as_normalized(&psx), Serial::new(s("SLUS-00594/V2")));
    assert_eq!(Serial::new(s("weird")).as_normalized(&psx), Serial::new(s("weird")));
    let once = Serial::new(s("SLUS_00594")).as_normalized(&psx);
    assert_eq!(once.as_normalized(&psx), once);
}

#[test]
fn nintendo_serials_normalize() {
    let gcn = PlatformId::new(s("NINTENDO_GCN"));
    assert_eq!(Serial::new(s("DL-DOL-GALE-USA")).as_normalized(&gcn), Serial::new(s("GALE")));
    assert_eq!(Serial::new(s("GALE")).as_normalized(&gcn), Serial::new(s("GALE")));
    let nes = PlatformId::new(s("NINTENDO_NES"));
    assert_eq!(Serial::new(s("NES-XY-USA")).as_normalized(&nes), Serial::new(s("NES-XY-USA")));
    assert_eq!(Serial::new(s("NES-XY-USA")).as_ref(), "NES-XY-USA");
}

#[test]
fn sort_rule_globs() {
    assert_eq!(rooted_globs(&vec![s("Nintendo - *.dat")]), vec![s("unsorted/**/Nintendo - *.dat")]);
    assert!(is_dat_file_name("Nintendo - NES.dat"));
    assert!(!is_dat_file_name("Nintendo - NES.xml"));
    assert!(!is_dat_file_name("dat"));
}

#[test]
fn tosec_warnings() {
    let n = tosec_parse("ZZZ-UNK-UNK But Ok (199x)(-)").unwrap();
    assert!(n.has_warnings());
    assert_eq!(n.warnings().len(), 1);
    let clean = tosec_parse("Xevious (1983)(CCE)(NTSC)(BR)").unwrap();
    assert!(!clean.has_warnings());
    assert!(clean.warnings().is_empty());
    assert!(matches!(n.warnings()[0], TOSECToken::Warning(_)));
}

#[test]
fn platform_ids_from_any_case() {
    assert_eq!(PlatformId::from("nintendo_nes"), PlatformId::new(s("NINTENDO_NES")));
    assert_eq!(PlatformId::from("Sony_Psx").as_ref(), "SONY_PSX");
}

#[test]
fn nintendo_serials_with_unicode_letters() {
    let gcn = PlatformId::new(s("NINTENDO_GCN"));
    assert_eq!(Serial::new(s("DL-DOL-GÅLE-USA")).as_normalized(&gcn), Serial::new(s("GÅL")));
    assert_eq!(Serial::new(s("DL-DOL-ÄBCD-X")).as_normalized(&gcn), Serial::new(s("ÄBC")));
}

#[test]
fn expanded_forms_keep_their_mimetype() {
    let types = vec![(s(".gb"), s("gb")), (s(".gbc"), s("gbc")), (s("BIOS"), s("bios"))];
    let p = PlatformInfo {
        platform_id: PlatformId::new(s("NINTENDO_GB")),
        file_types: expand_file_types(&types),
        bios_files: None,
    };
    assert_eq!(p.get_mimetype_for_ext("GBC"), Some("gbc"));
    assert_eq!(p.get_mimetype_for_ext("gb"), Some("gb"));
    assert_eq!(p.get_mimetype_for_ext(".GB"), Some("gb"));
    assert_eq!(p.get_mimetype_for_ext("BIOS"), Some("bios"));
    assert_eq!(p.get_mimetype_for_ext("IOS"), None);
}

#[test]
fn leftover_tosec_text_is_a_final_warning() {
    let n = tosec_parse("Xevious (1983)(CCE)(NTSC)(BR) extra").unwrap();
    assert_eq!(n.tokens.last(), Some(&TOSECToken::Warning(shiratsu::naming::tosec::TOSECWarn::NotEof(s("extra")))));
}

#[test]
fn sony_serials_with_unicode_digits() {
    let psx = PlatformId::new(s("SONY_PSX"));
    assert_eq!(
        Serial::new(s("SLUS_\u{661}\u{662}\u{663}")).as_normalized(&psx),
        Serial::new(s("SLUS-\u{661}\u{662}\u{663}"))
    );
    assert_eq!(
        Serial::new(s("SLUS-\u{661}\u{662}\u{663}")).as_normalized(&psx),
        Serial::new(s("SLUS-\u{661}\u{662}\u{663}"))
    );
    assert_eq!(
        Serial::new(s("SLUS 00594 \u{203f}x")).as_normalized(&psx),
        Serial::new(s("SLUS-00594"))
    );
    assert_eq!(Serial::new(s("SLUS_00594 \u{b2}")).as_normalized(&psx), Serial::new(s("SLUS_00594 \u{b2}")));
}

#[test]
fn nintendo_serials_with_combining_marks() {
    let gcn = PlatformId::new(s("NINTENDO_GCN"));
    assert_eq!(
        Serial::new(s("DL-DOL-GA\u{301}L-USA")).as_normalized(&gcn),
        Serial::new(s("GA\u{301}"))
    );
}
