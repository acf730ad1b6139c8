use dump1090_rs::aircraft::{Aircraft, PositionOutcome, Tracker};
use dump1090_rs::mode_s::MsgLen;
use dump1090_rs::track::DataValidityBox;
use dump1090_rs::types::{AddrType, CprType, DataSource, ModeSMessage};

#[test]
fn update_sets_the_validity_envelope_in_order() {
    let mut b: DataValidityBox<u32> = DataValidityBox::new();
    assert!(b.update(DataSource::ModeS, 1000, 5));
    assert_eq!(b.updated, 1000);
    assert_eq!(b.stale, 61000);
    assert_eq!(b.expires, 71000);
    assert!(b.updated <= b.stale && b.stale <= b.expires);
    assert_eq!(b.get_if_valid(), Some(&5));
}

#[test]
fn lower_tier_data_cannot_overwrite_fresh_data() {
    let mut b: DataValidityBox<u32> = DataValidityBox::new();
    assert!(b.update(DataSource::ADSB, 1000, 5));
    // a less trusted source is refused while the field is fresh
    assert!(!b.update(DataSource::ModeS, 2000, 7));
    assert_eq!(b.get_opt(), Some(&5));
    // once the field is stale, anything may overwrite
    assert!(b.update(DataSource::ModeS, 61_500, 7));
    assert_eq!(b.get_opt(), Some(&7));
}

#[test]
fn combine_takes_worst_source_latest_update_earliest_deadlines() {
    let mut from1: DataValidityBox<u32> = DataValidityBox::new();
    let mut from2: DataValidityBox<u32> = DataValidityBox::new();
    from1.update(DataSource::ADSB, 1000, 1);
    from2.update(DataSource::ModeS, 2000, 2);
    let mut out: DataValidityBox<u32> = DataValidityBox::new();
    out.combine_validity(&from1, &from2);
    assert_eq!(out.source, DataSource::ModeS);
    assert_eq!(out.updated, 2000);
    assert_eq!(out.stale, 61000);
    assert_eq!(out.expires, 71000);
    assert!(out.updated <= out.stale && out.stale <= out.expires);
}

fn blank_message() -> ModeSMessage {
    ModeSMessage::from_raw(MsgLen::Long, vec![0x8du8; 14])
}

#[test]
fn tracker_creates_a_track_on_first_contact() {
    let mut t = Tracker::new();
    let mut mm = blank_message();
    mm.addr = 0x4840d6;
    mm.source = DataSource::ADSB;
    mm.timestamp_msg = 12_000_000;
    mm.squawk = Some(0o7700);
    assert!(t.update_from_message(&mm).is_none());
    assert_eq!(t.aircraft.len(), 1);
    assert_eq!(t.aircraft[0].addr, 0x4840d6);
    assert_eq!(t.aircraft[0].messages, 1);
    assert_eq!(t.aircraft[0].squawk.get_if_valid(), Some(&0o7700));

    // a second message reuses the same track
    assert!(t.update_from_message(&mm).is_none());
    assert_eq!(t.aircraft.len(), 1);
    assert_eq!(t.aircraft[0].messages, 2);
}

#[test]
fn address_kind_only_moves_toward_more_direct_kinds() {
    let mut t = Tracker::new();
    let mut mm = blank_message();
    mm.addr = 0x123456;
    mm.source = DataSource::ADSB;
    mm.addrtype = Some(AddrType::TISB_ICAO);
    t.update_from_message(&mm);
    assert_eq!(t.aircraft[0].addr_type, AddrType::TISB_ICAO);

    mm.addrtype = Some(AddrType::ADSB_ICAO);
    t.update_from_message(&mm);
    assert_eq!(t.aircraft[0].addr_type, AddrType::ADSB_ICAO);

    mm.addrtype = Some(AddrType::TISB_Other);
    t.update_from_message(&mm);
    assert_eq!(t.aircraft[0].addr_type, AddrType::ADSB_ICAO);
}

/// Set up an aircraft that already has a known position and a fresh
/// even/odd fragment pair, then feed it the odd fragment again.
fn aircraft_with_pending_global() -> (Aircraft, ModeSMessage) {
    let mut a = Aircraft::new(0xa0b1c2, AddrType::ADSB_ICAO);
    a.cpr_even.update(DataSource::ADSB, 1000, (CprType::Airborne, 0x1b256, 0x10394, 7));
    a.cpr_odd.update(DataSource::ADSB, 2000, (CprType::Airborne, 0x1d256, 0x12394, 7));
    // last known position, with an accuracy at least as good as the pair
    a.position.update(DataSource::ADSB, 1000, (-24_910_125_732, -23_286_743_164, 7));

    let mut mm = blank_message();
    mm.addr = 0xa0b1c2;
    mm.source = DataSource::ADSB;
    mm.raw_cpr = Some((0x1d256, 0x12394, true, 7, CprType::Airborne));
    mm.timestamp_msg = 10_000 * 12_000;  // ten seconds in
    (a, mm)
}

#[test]
fn implausible_travel_poisons_the_pair_and_the_position() {
    let (mut a, mm) = aircraft_with_pending_global();
    let pending = match a.update_position(&mm, 10_000) {
        PositionOutcome::NeedsDistance(p) => p,
        _ => panic!("expected a distance gate"),
    };
    assert!(pending.global);
    // ten seconds of travel cannot plausibly cover 1000 km
    assert!(pending.range_m < 1_000_000);
    a.apply_position_check(pending, 1_000_000);
    assert_eq!(a.position.source, DataSource::Invalid);
    assert_eq!(a.cpr_even.source, DataSource::Invalid);
    assert_eq!(a.cpr_odd.source, DataSource::Invalid);
}

#[test]
fn plausible_travel_applies_the_position() {
    let (mut a, mm) = aircraft_with_pending_global();
    let pending = match a.update_position(&mm, 10_000) {
        PositionOutcome::NeedsDistance(p) => p,
        _ => panic!("expected a distance gate"),
    };
    a.apply_position_check(pending, 1_000);
    assert_eq!(a.position.source, DataSource::ADSB);
    // the message carried the odd fragment, so the odd-based fix applies
    let pos = a.position.get_if_valid().unwrap();
    assert_eq!(pos.0, -24_950_975_321);
    assert_eq!(pos.1, -23_301_587_375);
    assert!(a.position.updated <= a.position.stale && a.position.stale <= a.position.expires);
}
