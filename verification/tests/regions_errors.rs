use shiratsu::error::{DatError, ParseError, ShiratsuError};
use shiratsu::naming::nointro::NoIntroNameable;
use shiratsu::naming::NameInfo;
use shiratsu::region::{copy_regions, Region, RegionError, RegionFormat};
use shiratsu::stone::StoneError;

fn s(x: &str) -> String {
    String::from(x)
}

#[test]
fn tosec_region_error_points_at_the_code() {
    assert_eq!(
        Region::try_from_tosec_region("US-XY"),
        Err(RegionError::BadRegionCode(s("XY"), RegionFormat::TOSEC, 3))
    );
}

#[test]
fn goodtools_regions() {
    assert_eq!(Region::try_from_goodtools_region("U"), Ok(vec![Region::UnitedStates]));
    assert!(Region::try_from_goodtools_region("Nowhere").is_err());
}

#[test]
fn region_string_falls_back_to_unknown() {
    assert_eq!(Region::from_region_string("Atlantis"), vec![Region::Unknown]);
    assert_eq!(Region::from_region_string("JP"), vec![Region::Japan]);
}

#[test]
fn region_copies() {
    let r = vec![Region::Japan, Region::Europe];
    assert_eq!(copy_regions(&r), r);
}

#[test]
fn error_conversions() {
    let re = RegionError::BadRegionCode(s("XY"), RegionFormat::TOSEC, 0);
    assert_eq!(ParseError::from_region_error(re.clone()), ParseError::RegionError(re.clone()));
    assert_eq!(DatError::from_region_error(re.clone()), DatError::RegionError(re));
    let pe = ParseError::ParseError(s("bad"));
    assert_eq!(ShiratsuError::from_parse_error(pe), ShiratsuError::ParseError(ParseError::ParseError(s("bad"))));
    assert_eq!(
        ShiratsuError::from_stone_error(StoneError::InvalidStoneFile),
        ShiratsuError::StoneError(StoneError::InvalidStoneFile)
    );
}

#[test]
fn huge_disc_number_has_no_part_number() {
    let parsed = NameInfo::try_from_nointro("Game (USA) (Disc 99999999999)").unwrap();
    assert_eq!(parsed.part_number(), None);
}
