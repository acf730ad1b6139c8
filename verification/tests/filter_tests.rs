use dump1090_rs::icao_filter::{
    icao_filter_add, icao_filter_test, icao_flush, icao_hash, IcaoFilter,
};
use dump1090_rs::mode_s::{score_modes_message, MsgLen};

fn hex_to_bytes(s: &str) -> Vec<u8> {
    let b = s.as_bytes();
    let mut out = Vec::new();
    let mut i = 0;
    while i < b.len() {
        let hi = (b[i] as char).to_digit(16).unwrap() as u8;
        let lo = (b[i + 1] as char).to_digit(16).unwrap() as u8;
        out.push((hi << 4) | lo);
        i += 2;
    }
    out
}

#[test]
fn hash_is_a_pure_function_of_the_address() {
    for a in [1u32, 0x4840d6, 0xad9293, 0xffffff] {
        let h1 = icao_hash(a);
        let h2 = icao_hash(a);
        assert_eq!(h1, h2);
        assert!(h1 < 4096);
    }
}

#[test]
fn add_then_test_then_flush_round_trip() {
    let mut f = IcaoFilter::default();
    for a in [1u32, 0x4840d6, 0xad9293, 0xffffff, 0x00ffff] {
        assert!(!icao_filter_test(&f, a));
    }
    for a in [1u32, 0x4840d6, 0xad9293, 0xffffff, 0x00ffff] {
        icao_filter_add(&mut f, a);
        assert!(icao_filter_test(&f, a));
    }
    icao_flush(&mut f);
    for a in [1u32, 0x4840d6, 0xad9293, 0xffffff, 0x00ffff] {
        assert!(!icao_filter_test(&f, a));
    }
}

#[test]
fn add_also_registers_the_data_parity_alias() {
    let mut f = IcaoFilter::default();
    icao_filter_add(&mut f, 0x4840d6);
    // the low 16 bits alone must also match, for DF20/21 Data Parity
    assert!(icao_filter_test(&f, 0x40d6));
}

#[test]
fn all_zero_frame_scores_invalid() {
    let mut f = IcaoFilter::default();
    assert_eq!(score_modes_message(&mut f, &[0u8; 7]), None);
    assert_eq!(score_modes_message(&mut f, &[0u8; 14]), None);
}

#[test]
fn too_short_frame_scores_invalid() {
    let mut f = IcaoFilter::default();
    assert_eq!(score_modes_message(&mut f, &[0x8du8; 6]), None);
    // a long format needs 14 bytes
    assert_eq!(score_modes_message(&mut f, &[0x8du8; 7]), None);
}

#[test]
fn fresh_df17_with_zero_crc_scores_at_least_1400() {
    let mut f = IcaoFilter::default();
    let msg = hex_to_bytes("8dad929358b9c6273f002169c02e");
    let (len, score) = score_modes_message(&mut f, &msg).unwrap();
    assert_eq!(len, MsgLen::Long);
    assert_eq!(score, 1400);
    assert!(score >= 1400);

    // the address was learned, so the same frame now scores higher
    let (_, score2) = score_modes_message(&mut f, &msg).unwrap();
    assert_eq!(score2, 1800);
}

#[test]
fn short_frame_from_known_aircraft_scores_1000() {
    let mut f = IcaoFilter::default();
    // this short frame's syndrome is the sender's address
    let msg = hex_to_bytes("02e1971ce17c84");
    let (len, score) = score_modes_message(&mut f, &msg).unwrap();
    assert_eq!(len, MsgLen::Short);
    assert_eq!(score, -1);

    icao_filter_add(&mut f, 0xad9293);
    let (_, score2) = score_modes_message(&mut f, &msg).unwrap();
    assert_eq!(score2, 1000);
}
