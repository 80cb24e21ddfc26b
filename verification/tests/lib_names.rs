use shiratsu::naming::nointro::NoIntroNameable;
use shiratsu::naming::tosec::TOSECNameable;
use shiratsu::naming::{DevelopmentStatus, NameInfo, NamingConvention};
use shiratsu::region::Region;

#[test]
fn nointro_region_parses() {
    assert_eq!(Region::from_region_string("USA, Europe"), vec![Region::UnitedStates, Region::Europe]);
}

#[test]
fn tosec_region_parses() {
    assert_eq!(Region::from_region_string("US"), vec![Region::UnitedStates]);
    assert_eq!(Region::from_region_string("US-ZZ"), vec![Region::UnitedStates, Region::Unknown]);
}

#[test]
fn nointro_filename_parses() {
    let parsed = NameInfo::try_from_nointro("Cube CD 20, The (40) - Testing (Europe) (Unl)").unwrap();
    assert_eq!("Cube CD 20, The (40) - Testing", parsed.entry_title());
    assert_eq!("The Cube CD 20 (40): Testing", parsed.release_title());
}

#[test]
fn nointro_filename_parses_end() {
    let parsed = NameInfo::try_from_nointro("Cube CD 20, The (40) - Testing (Europe) (Rev 10)").unwrap();
    assert_eq!("Cube CD 20, The (40) - Testing", parsed.entry_title());
    assert_eq!("The Cube CD 20 (40): Testing", parsed.release_title());
    assert_eq!(Some("10"), parsed.version());
}

#[test]
#[should_panic]
fn nointro_no_hang() {
    NameInfo::try_from_nointro("Cube CD 20, The (40) - Testing (demo) (2020)(SomePublisher)").unwrap();
}

#[test]
fn tosec_filename_parses() {
    let parsed =
        NameInfo::try_from_tosec("Cube CD 20, The (40) - Testing (demo) (2020)(SomePublisher)(US)").unwrap();
    assert_eq!("Cube CD 20, The (40) - Testing", parsed.entry_title());
    assert_eq!("The Cube CD 20 (40): Testing", parsed.release_title());
    assert_eq!(&[Region::UnitedStates], parsed.region());
}

#[test]
fn tosec_filename_parses_end() {
    let parsed =
        NameInfo::try_from_tosec("Cube CD 20, The (40) - Testing (demo) (2020)(SomePublisher)(v1.203)").unwrap();
    assert_eq!("Cube CD 20, The (40) - Testing", parsed.entry_title());
    assert_eq!("The Cube CD 20 (40): Testing", parsed.release_title());
    assert_eq!(&[Region::Unknown], parsed.region());
    assert_eq!(Some("1.203"), parsed.version());
}

#[test]
fn tosec_filename_parses_end_rev() {
    let parsed =
        NameInfo::try_from_tosec("Cube CD 20, The (40) - Testing Rev 1 (demo) (2020)(SomePublisher)").unwrap();
    assert_eq!("Cube CD 20, The (40) - Testing", parsed.entry_title());
    assert_eq!("The Cube CD 20 (40): Testing", parsed.release_title());
    assert_eq!(&[Region::Unknown], parsed.region());
    assert_eq!(Some("1"), parsed.version());
}

#[test]
fn it_works() {
    assert_eq!(2 + 2, 4);
}

#[test]
fn nointro_flags_fill_name_info() {
    let parsed = NameInfo::try_from_nointro("Legend, The - Part Two (Europe) (Disc 2) (Beta) (Demo) (Unl)").unwrap();
    assert_eq!(parsed.entry_title(), "Legend, The - Part Two");
    assert_eq!(parsed.release_title(), "The Legend: Part Two");
    assert_eq!(parsed.region(), &[Region::Europe]);
    assert_eq!(parsed.part_number(), Some(2));
    assert_eq!(parsed.development_status(), DevelopmentStatus::Prerelease);
    assert!(parsed.is_demo());
    assert!(parsed.is_unlicensed());
    assert!(!parsed.is_system());
    assert_eq!(parsed.naming_convention(), NamingConvention::NoIntro);
    assert_eq!(parsed.version(), None);
}

#[test]
fn nointro_bios_and_proto() {
    let bios = NameInfo::try_from_nointro("[BIOS] Game Boy (World) (Rev 1)").unwrap();
    assert!(bios.is_system());
    assert_eq!(bios.version(), Some("1"));
    let proto = NameInfo::try_from_nointro("Thing (USA) (v1.2) (Proto)").unwrap();
    assert_eq!(proto.development_status(), DevelopmentStatus::Prototype);
    assert_eq!(proto.version(), Some("1.2"));
}

#[test]
fn tosec_name_info_fields() {
    let parsed = NameInfo::try_from_tosec("Legend, The (1990)(Publisher)(PAL)(Disk 2 of 3)(beta)[p]").unwrap();
    assert_eq!(parsed.entry_title(), "Legend, The");
    assert_eq!(parsed.release_title(), "The Legend");
    assert_eq!(parsed.naming_convention(), NamingConvention::TOSEC);
    assert_eq!(parsed.part_number(), Some(2));
    assert_eq!(parsed.development_status(), DevelopmentStatus::Prerelease);
    assert!(!parsed.is_demo());
}

#[test]
fn tosec_name_needs_a_publisher() {
    assert!(NameInfo::try_from_tosec("Game").is_err());
    assert!(NameInfo::try_from_tosec("Game (1999)").is_err());
    let parsed = NameInfo::try_from_tosec("Game v1.2 (demo-kiosk)(1999)(Pub)(US)(proto)").unwrap();
    assert_eq!(parsed.entry_title(), "Game");
    assert_eq!(parsed.version(), Some("1.2"));
    assert!(parsed.is_demo());
    assert_eq!(parsed.development_status(), DevelopmentStatus::Prototype);
    assert_eq!(parsed.region(), &[Region::UnitedStates]);
    assert!(!parsed.is_system());
}

#[test]
fn tosec_name_digits_are_unicode_where_the_grammar_says_so() {
    let parsed = NameInfo::try_from_tosec("Game(19\u{661}\u{662})(Pub)").unwrap();
    assert_eq!(parsed.entry_title(), "Game");
    assert!(NameInfo::try_from_tosec("Game(19\u{661}\u{662}-01)(Pub)").is_err());
    let parsed = NameInfo::try_from_tosec("Game (1990)(Pub)(Disk 1\u{661} of 2)").unwrap();
    assert_eq!(parsed.part_number(), None);
    let parsed = NameInfo::try_from_tosec("Game (1990)(Pub)(Disk 12 of 20)").unwrap();
    assert_eq!(parsed.part_number(), Some(12));
}
