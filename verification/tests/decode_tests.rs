use dump1090_rs::decode::{
    decode, decode_ac12_field, decode_ac13_field, decode_id13_field, decode_movement_field,
};
use dump1090_rs::icao_filter::IcaoFilter;
use dump1090_rs::mode_ac::mode_a_to_mode_c;
use dump1090_rs::mode_s::{getbit, getbits, MsgLen};
use dump1090_rs::types::{
    AltitudeSource, AltitudeUnit, CprType, DataSource, ModeSMessage, SpeedSource,
};

fn hex_to_bytes(s: &str) -> Vec<u8> {
    let b = s.as_bytes();
    let mut out = Vec::new();
    let mut i = 0;
    while i < b.len() {
        let hi = (b[i] as char).to_digit(16).unwrap() as u8;
        let lo = (b[i + 1] as char).to_digit(16).unwrap() as u8;
        out.push((hi << 4) | lo);
        i += 2;
    }
    out
}

#[test]
fn getbits_follows_msb_first_one_based_numbering() {
    let d = [0xa5u8, 0xff];
    assert_eq!(getbits(&d, 1, 8), 0xa5);
    assert_eq!(getbits(&d, 1, 5), 0x14);
    assert_eq!(getbits(&d, 5, 12), 0x5f);
    assert_eq!(getbit(&d, 1), 1);
    assert_eq!(getbit(&d, 2), 0);
    assert_eq!(getbit(&d, 8), 1);
}

#[test]
fn gillham_decode_accepts_and_rejects_known_codes() {
    // all A/B/D bits clear, one C bit set: lowest altitudes
    assert_eq!(mode_a_to_mode_c(0x0040), Ok(-12));
    // D1 set is illegal
    assert!(mode_a_to_mode_c(0x0001).is_err());
    // C bits all clear is illegal
    assert!(mode_a_to_mode_c(0x1200).is_err());
    // C1+C2+C4 gives an invalid hundreds code
    assert!(mode_a_to_mode_c(0x0070).is_err());
}

#[test]
fn altitude_code_13_decodes_q_bit_steps() {
    // Q set, N = 0: -1000 ft
    assert_eq!(decode_ac13_field(0x0010), Ok((-1000, AltitudeUnit::Feet)));
    // the M bit selects meters, which are not decoded
    assert!(decode_ac13_field(0x0040).is_err());
}

#[test]
fn altitude_code_12_decodes_q_bit_steps() {
    // Q set, N = 16: -600 ft
    assert_eq!(decode_ac12_field(0x0030), Ok(-600));
}

#[test]
fn movement_field_decodes_piecewise() {
    assert_eq!(decode_movement_field(1), 0);
    assert_eq!(decode_movement_field(9), 1);
    assert_eq!(decode_movement_field(13), 3);
    assert_eq!(decode_movement_field(50), 27);
    assert_eq!(decode_movement_field(100), 84);
    assert_eq!(decode_movement_field(120), 160);
    assert_eq!(decode_movement_field(124), 199);
}

#[test]
fn squawk_remap_moves_each_bit_to_its_gillham_slot() {
    assert_eq!(decode_id13_field(0x1000), 0x0010);
    assert_eq!(decode_id13_field(0x0001), 0x0004);
    assert_eq!(decode_id13_field(0x0040), 0);
}

#[test]
fn decode_airborne_position_frame() {
    let mut filter = IcaoFilter::default();
    let msg = hex_to_bytes("8dad929358b9c6273f002169c02e");
    let mut mm = ModeSMessage::from_raw(MsgLen::Long, msg);
    assert!(decode(&mut mm, &mut filter).is_ok());
    assert_eq!(mm.msgtype, 17);
    assert_eq!(mm.crc, 0);
    assert_eq!(mm.addr, 0xad9293);
    assert_eq!(mm.source, DataSource::ADSB);
    assert_eq!(mm.metype, 11);
    assert_eq!(mm.raw_cpr, Some((70559, 65569, true, 7, CprType::Airborne)));
    assert_eq!(mm.altitude, Some((36100, AltitudeUnit::Feet, AltitudeSource::Baro)));
}

#[test]
fn decode_airborne_velocity_frame() {
    let mut filter = IcaoFilter::default();
    let msg = hex_to_bytes("8da79de99909932f780c9e2f2f8f");
    let mut mm = ModeSMessage::from_raw(MsgLen::Long, msg);
    assert!(decode(&mut mm, &mut filter).is_ok());
    assert_eq!(mm.msgtype, 17);
    assert_eq!(mm.metype, 19);
    assert_eq!(mm.mesub, 1);
    assert_eq!(mm.velocity_ew_ns, Some((402, 378)));
    assert_eq!(mm.speed, Some((551, SpeedSource::GroundSpeed)));
    assert_eq!(mm.vert_rate, Some((-128, AltitudeSource::GNSS)));
    assert_eq!(mm.gnss_delta, Some(-725));
}

#[test]
fn decode_rejects_bad_crc_extended_squitter() {
    let mut filter = IcaoFilter::default();
    let mut msg = hex_to_bytes("8dad929358b9c6273f002169c02e");
    msg[5] ^= 0x40;
    let mut mm = ModeSMessage::from_raw(MsgLen::Long, msg);
    assert!(decode(&mut mm, &mut filter).is_err());
}

#[test]
fn decode_rejects_all_zero_frames() {
    let mut filter = IcaoFilter::default();
    let mut mm = ModeSMessage::from_raw(MsgLen::Short, vec![0u8; 7]);
    assert!(decode(&mut mm, &mut filter).is_err());
}

#[test]
fn decode_rejects_unknown_address_parity_frames() {
    let mut filter = IcaoFilter::default();
    let msg = hex_to_bytes("02e1971ce17c84");
    let mut mm = ModeSMessage::from_raw(MsgLen::Short, msg.clone());
    assert!(decode(&mut mm, &mut filter).is_err());

    // once the aircraft has been seen, the same frame is accepted
    dump1090_rs::icao_filter::icao_filter_add(&mut filter, 0xad9293);
    let mut mm2 = ModeSMessage::from_raw(MsgLen::Short, msg);
    assert!(decode(&mut mm2, &mut filter).is_ok());
    assert_eq!(mm2.addr, 0xad9293);
    assert_eq!(mm2.source, DataSource::ModeS);
}
