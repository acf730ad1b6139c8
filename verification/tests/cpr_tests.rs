use dump1090_rs::cpr::{cpr_mod_int, cpr_nl, decode_cpr_airborne, decode_cpr_relative};

#[test]
fn positive_mod_is_always_non_negative() {
    // -0.1 degrees mod 360 degrees, in tenths: 359.9 degrees
    assert_eq!(cpr_mod_int(-1, 3600), 3599);
    assert_eq!(cpr_mod_int(-1, 60), 59);
    assert_eq!(cpr_mod_int(7, 5), 2);
    assert_eq!(cpr_mod_int(0, 59), 0);
    assert_eq!(cpr_mod_int(-120, 60), 0);
}

#[test]
fn zone_table_boundaries() {
    // NL at the poles is 1, NL at the equator is 59
    assert_eq!(cpr_nl(90, 1), 1);
    assert_eq!(cpr_nl(-90, 1), 1);
    assert_eq!(cpr_nl(0, 1), 59);
    // at 52.257 degrees there are 36 longitude zones
    assert_eq!(cpr_nl(52_257_000_000, 1_000_000_000), 36);
    // symmetric in sign
    assert_eq!(cpr_nl(-52_257_000_000, 1_000_000_000), 36);
    // just below the first transition
    assert_eq!(cpr_nl(10_470_471_299, 1_000_000_000), 59);
    assert_eq!(cpr_nl(10_470_471_300, 1_000_000_000), 58);
}

#[test]
fn global_airborne_pair_decodes_when_zones_agree() {
    // even fragment (0x1b256, 0x10394), odd fragment (0x1d256, 0x12394)
    let r = decode_cpr_airborne(0x1b256, 0x10394, 0x1d256, 0x12394, false);
    let (lat, lon) = r.unwrap();
    assert_eq!(lat, -24_910_125_732);
    assert_eq!(lon, -23_286_743_164);
    assert!(-90_000_000_000 <= lat && lat <= 90_000_000_000);
    assert!(-180_000_000_000 <= lon && lon <= 180_000_000_000);
    // both fragments sit in the same 54-zone latitude band
    assert_eq!(cpr_nl(lat, 1_000_000_000), 54);
}

#[test]
fn relative_decode_reproduces_the_global_fix() {
    // decode the odd fragment against the global fix as reference
    let (lat0, lon0) = decode_cpr_airborne(0x1b256, 0x10394, 0x1d256, 0x12394, false).unwrap();
    let (lat1, lon1) = decode_cpr_relative(lat0, lon0, 0x1d256, 0x12394, true, false).unwrap();
    // the relative fix lands within a fraction of a zone of the reference
    assert!((lat1 - lat0).abs() < 3_100_000_000);
    assert!((lon1 - lon0).abs() < 3_400_000_000);
}

#[test]
fn relative_decode_stays_within_half_a_zone_of_its_reference() {
    // whatever reference is used, an accepted fix lies within half a
    // latitude zone (360/59/2 degrees) of it
    let r = decode_cpr_relative(60_000_000_000, 120_000_000_000, 0x1d256, 0x12394, true, false);
    let (lat, _lon) = r.unwrap();
    assert!((lat - 60_000_000_000).abs() <= 3_051_000_000);
}
