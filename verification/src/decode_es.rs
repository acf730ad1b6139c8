use vstd::prelude::*;
use vstd::arithmetic::power2::lemma2_to64;

use crate::decode::{
    ais_char, decode_ac12_field, decode_movement_field, set_imf, spec_ac12_altitude,
    spec_ac12_invalid, spec_ais_seq, spec_decode_id13, spec_decode_movement, spec_imf_remap,
    decode_id13_field,
};
use crate::mode_s::{getbit, getbits, lemma_getbits_bound, spec_getbit, spec_getbits};
use crate::numeric::{is_isqrt, isqrt64};
use crate::types::{
    AddrType, AirGround, AltitudeSource, AltitudeUnit, AngleType, CprType, DataSource,
    HeadingSource, ModeSMessage, OperationalStatus, SilType, SpeedSource, TargetStateStatus,
    TssAltitudeType, MODES_NON_ICAO_ADDRESS,
};

verus! {

/// The effect of the DF18 Control Field on address classification, applied
/// before the ME payload is examined. Returns the adjusted message and
/// whether the payload carries an ICAO/Mode A flag bit to check.
pub open spec fn spec_es_cf(pre: ModeSMessage) -> (ModeSMessage, bool) {
    if pre.msgtype != 18 {
        (pre, false)
    } else if pre.cf == 0 {
        // ADS-B message from a non-transponder device
        (ModeSMessage { addrtype: Some(AddrType::ADSB_ICAO_NT), ..pre }, false)
    } else if pre.cf == 1 {
        // Anonymous address or ground vehicle / fixed obstruction address
        (ModeSMessage {
            addrtype: Some(AddrType::ADSB_Other),
            addr: pre.addr | MODES_NON_ICAO_ADDRESS,
            ..pre
        }, false)
    } else if pre.cf == 2 {
        // Fine TIS-B message
        (ModeSMessage {
            source: DataSource::TISB,
            addrtype: Some(AddrType::TISB_ICAO),
            ..pre
        }, true)
    } else if pre.cf == 3 {
        // Coarse TIS-B airborne position and velocity: only the flag bit is
        // honoured; the coarse payload itself is not decoded.
        if spec_getbit(pre.me@, 0) {
            (ModeSMessage {
                source: DataSource::TISB,
                addrtype: Some(AddrType::TISB_Trackfile),
                addr: pre.addr | MODES_NON_ICAO_ADDRESS,
                ..pre
            }, false)
        } else {
            (ModeSMessage {
                source: DataSource::TISB,
                addrtype: Some(AddrType::TISB_ICAO),
                ..pre
            }, false)
        }
    } else if pre.cf == 5 {
        // Fine TIS-B message with a non-ICAO 24-bit address
        (ModeSMessage {
            source: DataSource::TISB,
            addrtype: Some(AddrType::TISB_Other),
            addr: pre.addr | MODES_NON_ICAO_ADDRESS,
            ..pre
        }, false)
    } else if pre.cf == 6 {
        // Rebroadcast of an ADS-B message from an alternate data link
        (ModeSMessage { addrtype: Some(AddrType::ADSR_ICAO), ..pre }, true)
    } else {
        // Unknown format: assume a non-ICAO address
        (ModeSMessage {
            addrtype: Some(AddrType::Unknown),
            addr: pre.addr | MODES_NON_ICAO_ADDRESS,
            ..pre
        }, false)
    }
}

/// The address adjustment for one ICAO/Mode A flag bit: when the check is
/// armed and the bit is set, the address is marked non-ICAO and its type
/// demoted.
pub open spec fn spec_es_imf(m: ModeSMessage, check_imf: bool, bit: bool) -> ModeSMessage {
    if check_imf && bit {
        ModeSMessage {
            addr: m.addr | MODES_NON_ICAO_ADDRESS,
            addrtype: spec_imf_remap(m.addrtype),
            ..m
        }
    } else {
        m
    }
}

/// Target state and status fields (type 29, subtype 1), each read straight
/// from its ME bit field.
pub open spec fn spec_tss(me: Seq<u8>) -> TargetStateStatus {
    TargetStateStatus {
        sil_type: if !spec_getbit(me, 7) { SilType::SilPerSample } else { SilType::SilPerHour },
        altitude: if spec_getbits(me, 9, 19) == 0 {
            None
        } else {
            Some((((spec_getbits(me, 9, 19) - 1) * 32) as u32,
                if spec_getbit(me, 8) { TssAltitudeType::FMS } else { TssAltitudeType::MCP }))
        },
        baro_raw: spec_getbits(me, 20, 28) as u32,
        heading: if spec_getbit(me, 29) {
            Some(((spec_getbits(me, 30, 38) * 180) / 256) as u32)
        } else {
            None
        },
        nac_p: spec_getbits(me, 39, 42) as u8,
        nic_baro: spec_getbit(me, 43),
        sil: spec_getbits(me, 44, 45) as u8,
        mode_valid: spec_getbit(me, 46),
        mode_autopilot: spec_getbit(me, 47),
        mode_vnav: spec_getbit(me, 48),
        mode_alt_hold: spec_getbit(me, 49),
        mode_approach: spec_getbit(me, 51),
        acas_operational: spec_getbit(me, 52),
    }
}

/// Operational status fields (type 31, subtypes 0 and 1), version-dependent,
/// each read straight from its ME bit field.
pub open spec fn spec_opstatus(me: Seq<u8>, mesub: u8) -> OperationalStatus {
    let version = spec_getbits(me, 40, 42) as u8;
    let d = OperationalStatus::spec_default();
    if version == 0 {
        OperationalStatus { version, ..d }
    } else if version == 1 {
        let om = if spec_getbits(me, 24, 25) == 0 {
            OperationalStatus {
                om_acas_ra: spec_getbit(me, 26),
                om_ident: spec_getbit(me, 27),
                om_atc: spec_getbit(me, 28),
                ..d
            }
        } else {
            d
        };
        let cc = if mesub == 0 && spec_getbits(me, 8, 9) == 0 && spec_getbits(me, 12, 13) == 0 {
            OperationalStatus {
                cc_acas: !spec_getbit(me, 10),
                cc_cdti: spec_getbit(me, 11),
                cc_arv: spec_getbit(me, 14),
                cc_ts: spec_getbit(me, 15),
                cc_tc: spec_getbits(me, 16, 17) as u8,
                ..om
            }
        } else if mesub == 1 && spec_getbits(me, 8, 9) == 0 && spec_getbits(me, 12, 13) == 0 {
            OperationalStatus {
                cc_poa: spec_getbit(me, 10),
                cc_cdti: spec_getbit(me, 11),
                cc_b2_low: spec_getbit(me, 14),
                cc_lw_valid: true,
                cc_lw: spec_getbits(me, 20, 23) as u32,
                ..om
            }
        } else {
            om
        };
        let angle = if mesub == 0 {
            OperationalStatus { nic_baro: spec_getbit(me, 52), ..cc }
        } else {
            OperationalStatus {
                track_angle: if spec_getbit(me, 52) { AngleType::Track } else { AngleType::Heading },
                ..cc
            }
        };
        OperationalStatus {
            version,
            nic_supp_a: spec_getbit(me, 43),
            nac_p: spec_getbits(me, 44, 47) as u8,
            sil: spec_getbits(me, 50, 51) as u8,
            hrd: if spec_getbit(me, 53) { HeadingSource::Magnetic } else { HeadingSource::True },
            ..angle
        }
    } else {
        let om = if spec_getbits(me, 24, 25) == 0 {
            OperationalStatus {
                om_acas_ra: spec_getbit(me, 26),
                om_ident: spec_getbit(me, 27),
                om_atc: spec_getbit(me, 28),
                om_saf: spec_getbit(me, 29),
                om_sda: spec_getbits(me, 30, 31) as u8,
                ..d
            }
        } else {
            d
        };
        let cc = if mesub == 0 && spec_getbits(me, 8, 9) == 0 && spec_getbits(me, 12, 13) == 0 {
            OperationalStatus {
                cc_acas: spec_getbit(me, 10),
                cc_1090_in: spec_getbit(me, 11),
                cc_arv: spec_getbit(me, 14),
                cc_ts: spec_getbit(me, 15),
                cc_tc: spec_getbits(me, 16, 17) as u8,
                cc_uat_in: spec_getbit(me, 18),
                ..om
            }
        } else if mesub == 1 && spec_getbits(me, 8, 9) == 0 && spec_getbits(me, 12, 13) == 0 {
            OperationalStatus {
                cc_poa: spec_getbit(me, 10),
                cc_1090_in: spec_getbit(me, 11),
                cc_b2_low: spec_getbit(me, 14),
                cc_uat_in: spec_getbit(me, 15),
                cc_nac_v: spec_getbits(me, 16, 18) as u8,
                cc_nic_supp_c: spec_getbit(me, 19),
                cc_lw_valid: true,
                cc_lw: spec_getbits(me, 20, 23) as u32,
                cc_antenna_offset: spec_getbits(me, 32, 39) as u32,
                ..om
            }
        } else {
            om
        };
        let angle = if mesub == 0 {
            OperationalStatus {
                gva: spec_getbits(me, 48, 49) as u8,
                nic_baro: spec_getbit(me, 52),
                ..cc
            }
        } else {
            OperationalStatus {
                track_angle: if spec_getbit(me, 52) { AngleType::Track } else { AngleType::Heading },
                ..cc
            }
        };
        OperationalStatus {
            version,
            nic_supp_a: spec_getbit(me, 43),
            nac_p: spec_getbits(me, 44, 47) as u8,
            sil: spec_getbits(me, 50, 51) as u8,
            hrd: if spec_getbit(me, 53) { HeadingSource::Magnetic } else { HeadingSource::True },
            sil_type: if spec_getbit(me, 54) { SilType::SilPerSample } else { SilType::SilPerHour },
            ..angle
        }
    }
}

/// The NUCp accuracy hint carried by an airborne position type code.
pub open spec fn spec_airborne_nucp(metype: nat) -> u32 {
    if metype == 18 || metype == 22 {
        0u32
    } else if metype < 18 {
        (18 - metype) as u32
    } else {
        (29 - metype) as u32
    }
}

/// Whether an airborne position report matches the known corrupted-encoder
/// pattern that must not be used for positioning: zero altitude, zero
/// longitude, zeros in the latitude low bits, and type code 15.
pub open spec fn spec_cpr_junk(metype: nat, ac12: nat, lat: nat, lon: nat) -> bool {
    ac12 == 0 && lon == 0 && ((lat as u32) & 0x0fff) == 0 && metype == 15
}



/// Extended squitter decoding never touches the frame itself, the scoring
/// and signal bookkeeping, or the fields of other formats.
pub open spec fn spec_es_frame_unchanged(pre: ModeSMessage, post: ModeSMessage) -> bool {
    &&& post.msglen == pre.msglen
    &&& post.msg == pre.msg
    &&& post.signal_power_scaled == pre.signal_power_scaled
    &&& post.signal_len == pre.signal_len
    &&& post.score == pre.score
    &&& post.timestamp_msg == pre.timestamp_msg
    &&& post.remote == pre.remote
    &&& post.msgtype == pre.msgtype
    &&& post.msgbits == pre.msgbits
    &&& post.crc == pre.crc
    &&& post.iid == pre.iid
    &&& post.aa == pre.aa
    &&& post.ac == pre.ac
    &&& post.ca == pre.ca
    &&& post.cc == pre.cc
    &&& post.cf == pre.cf
    &&& post.dr == pre.dr
    &&& post.fs == pre.fs
    &&& post.id == pre.id
    &&& post.ke == pre.ke
    &&& post.nd == pre.nd
    &&& post.ri == pre.ri
    &&& post.sl == pre.sl
    &&& post.um == pre.um
    &&& post.vs == pre.vs
    &&& post.mb == pre.mb
    &&& post.md == pre.md
    &&& post.me == pre.me
    &&& post.mv == pre.mv
    &&& post.decoded_cpr == pre.decoded_cpr
}

/// The complete effect of extended squitter decoding on a message: the
/// DF18 Control Field reclassification followed by the type-code dispatch.
pub open spec fn spec_es_effect(pre: ModeSMessage, post: ModeSMessage) -> bool {
    let me = pre.me@;
    let cfd = spec_es_cf(pre);
    let mid = ModeSMessage { metype: (spec_getbits(me, 0, 4) as u8), ..cfd.0 };
    let imf = cfd.1;
    let metype = spec_getbits(me, 0, 4);
    &&& post.metype == metype
    &&& (1 <= metype <= 4) ==> spec_es_ident_post(mid, post)
    &&& (5 <= metype <= 8) ==> spec_es_surface_post(mid, imf, post)
    &&& (metype == 0 || (9 <= metype <= 18) || (20 <= metype <= 22))
        ==> spec_es_airborne_post(mid, imf, post)
    &&& metype == 19 ==> spec_es_velocity_post(mid, imf, post)
    &&& metype == 28 ==> spec_es_status_post(mid, imf, post)
    &&& metype == 29 ==> spec_es_target_state_post(mid, imf, post)
    &&& metype == 31 ==> spec_es_opstatus_post(mid, imf, post)
    &&& (metype == 23 || metype == 24 || (25 <= metype <= 27) || metype == 30)
        ==> post == mid
}

/// Decode the 56-bit extended squitter payload of a DF17/18 message into
/// its typed fields. For DF18 the Control Field first reclassifies the
/// address. Type codes whose decoding is not defined here (test messages,
/// coarse TIS-B payloads, airspeed velocity subtypes, reserved codes)
/// update no field beyond the type and subtype codes.
#[verifier::rlimit(100)]
#[verifier::spinoff_prover]
pub fn decode_extended_squitter(mm: &mut ModeSMessage)
    requires
        old(mm).wf(),
        old(mm).msgtype == 17 || old(mm).msgtype == 18,
    ensures
        final(mm).wf(),
        spec_es_effect(*old(mm), *final(mm)),
        spec_es_frame_unchanged(*old(mm), *final(mm)),
        final(mm).source == spec_es_cf(*old(mm)).0.source,
        old(mm).msgtype == 17 ==> final(mm).addr == old(mm).addr,
        final(mm).addr == old(mm).addr
            || final(mm).addr == old(mm).addr | MODES_NON_ICAO_ADDRESS,
{
    proof {
        lemma_getbits_bound(old(mm).me@, 0, 4);
        lemma2_to64();
    }
    mm.metype = getbits(mm.me.as_slice(), 1, 5) as u8;
    let mut check_imf: bool = false;

    // Check CF on DF18 to work out the format of the ES and whether an
    // ICAO/Mode A flag bit must be honoured.
    if mm.msgtype == 18 {
        if mm.cf == 0 {
            mm.addrtype = Some(AddrType::ADSB_ICAO_NT);
        } else if mm.cf == 1 {
            mm.addrtype = Some(AddrType::ADSB_Other);
            mm.addr = mm.addr | MODES_NON_ICAO_ADDRESS;
        } else if mm.cf == 2 {
            mm.source = DataSource::TISB;
            mm.addrtype = Some(AddrType::TISB_ICAO);
            check_imf = true;
        } else if mm.cf == 3 {
            mm.source = DataSource::TISB;
            mm.addrtype = Some(AddrType::TISB_ICAO);
            if getbit(mm.me.as_slice(), 1) != 0 {
                set_imf(&mut mm.addr, &mut mm.addrtype);
            }
        } else if mm.cf == 5 {
            mm.addrtype = Some(AddrType::TISB_Other);
            mm.source = DataSource::TISB;
            mm.addr = mm.addr | MODES_NON_ICAO_ADDRESS;
        } else if mm.cf == 6 {
            mm.addrtype = Some(AddrType::ADSR_ICAO);
            check_imf = true;
        } else {
            mm.addrtype = Some(AddrType::Unknown);
            mm.addr = mm.addr | MODES_NON_ICAO_ADDRESS;
        }
    }

    proof {
        let cfd = spec_es_cf(*old(mm));
        assert(*mm == ModeSMessage {
            metype: (spec_getbits(old(mm).me@, 0, 4) as u8),
            ..cfd.0
        });
        assert(check_imf == cfd.1);
    }

    let metype: u8 = mm.metype;

    if 1 <= metype && metype <= 4 {
        es_ident(mm);
    } else if 5 <= metype && metype <= 8 {
        es_surface(mm, check_imf);
    } else if metype == 0 || (9 <= metype && metype <= 18) || (20 <= metype && metype <= 22) {
        es_airborne(mm, check_imf);
    } else if metype == 19 {
        es_velocity(mm, check_imf);
    } else if metype == 28 {
        es_status(mm, check_imf);
    } else if metype == 29 {
        es_target_state(mm, check_imf);
    } else if metype == 31 {
        es_opstatus(mm, check_imf);
    }
}

/// What decoding an identification and category payload (types 1 to 4)
/// leaves behind: subtype, category byte, and the callsign unless it is the
/// all-`@` failure pattern.
pub open spec fn spec_es_ident_post(mid: ModeSMessage, post: ModeSMessage) -> bool {
    let me = mid.me@;
    let metype = spec_getbits(me, 0, 4);
    let cs = spec_ais_seq(me, 8);
    &&& post == ModeSMessage {
        mesub: post.mesub,
        callsign: post.callsign,
        category: post.category,
        ..mid
    }
    &&& post.mesub == spec_getbits(me, 5, 7)
    &&& post.category == Some((((14 - metype) * 16 + spec_getbits(me, 5, 7)) as u8))
    &&& (cs != seq![64u8, 64u8, 64u8, 64u8, 64u8, 64u8, 64u8, 64u8]
        ==> post.callsign is Some && post.callsign.unwrap()@ == cs)
    &&& (cs == seq![64u8, 64u8, 64u8, 64u8, 64u8, 64u8, 64u8, 64u8]
        ==> post.callsign == mid.callsign)
}

/// Aircraft identification and category (types 1 to 4).
fn es_ident(mm: &mut ModeSMessage)
    requires
        old(mm).wf(),
        old(mm).metype == spec_getbits(old(mm).me@, 0, 4),
        1 <= old(mm).metype <= 4,
    ensures
        final(mm).wf(),
        spec_es_ident_post(*old(mm), *final(mm)),
{
    proof {
        lemma_getbits_bound(old(mm).me@, 5, 7);
        lemma2_to64();
    }
    let metype: u8 = mm.metype;
    mm.mesub = getbits(mm.me.as_slice(), 6, 8) as u8;

    let mut callsign: Vec<u8> = Vec::new();
    let mut k: usize = 0;
    while k < 8
        invariant
            k <= 8,
            mm.me@.len() == 7,
            callsign@.len() == k,
            forall|i: int| 0 <= i < k ==> callsign@[i] == spec_ais_seq(mm.me@, 8)[i],
        decreases 8 - k,
    {
        let first: usize = 9 + 6 * k;
        proof {
            lemma_getbits_bound(mm.me@, first - 1, first + 4);
            lemma2_to64();
        }
        let code: u8 = getbits(mm.me.as_slice(), first, first + 5) as u8;
        callsign.push(ais_char(code));
        k += 1;
    }
    assert(callsign@ =~= spec_ais_seq(mm.me@, 8));

    // A common failure mode is to intermittently send all zeros
    // (an all-`@` callsign); catch that here.
    let mut all_at: bool = true;
    let mut i: usize = 0;
    while i < 8
        invariant
            i <= 8,
            callsign@.len() == 8,
            all_at <==> (forall|j: int| 0 <= j < i ==> callsign@[j] == 64u8),
        decreases 8 - i,
    {
        if callsign[i] != 64 {
            all_at = false;
        }
        i += 1;
    }
    proof {
        let blank = seq![64u8, 64u8, 64u8, 64u8, 64u8, 64u8, 64u8, 64u8];
        if all_at {
            assert(callsign@ =~= blank);
        } else {
            let j = choose|j: int| 0 <= j < 8 && callsign@[j] != 64u8;
            assert(blank[j] == 64u8);
            assert(callsign@ != blank);
        }
    }
    if !all_at {
        mm.callsign = Some(callsign);
    }

    let cat: u8 = ((14 - metype) * 16) + mm.mesub;
    mm.category = Some(cat);
}

/// What decoding a surface position payload (types 5 to 8) leaves behind:
/// ground state, the raw CPR fragment, and movement and heading when valid.
pub open spec fn spec_es_surface_post(mid: ModeSMessage, imf: bool, post: ModeSMessage) -> bool {
    let me = mid.me@;
    let metype = spec_getbits(me, 0, 4);
    let m2 = spec_es_imf(mid, imf, spec_getbit(me, 20));
    let movement = spec_getbits(me, 5, 11);
    &&& post == ModeSMessage {
        addr: post.addr,
        addrtype: post.addrtype,
        airground: post.airground,
        raw_cpr: post.raw_cpr,
        speed: post.speed,
        heading: post.heading,
        ..mid
    }
    &&& post.addr == m2.addr && post.addrtype == m2.addrtype
    &&& post.airground == Some(AirGround::Ground)
    &&& post.raw_cpr == Some((
        (spec_getbits(me, 22, 38) as u32),
        (spec_getbits(me, 39, 55) as u32),
        spec_getbit(me, 21),
        ((14 - metype) as u32),
        CprType::Surface,
    ))
    &&& (0 < movement < 125 ==> post.speed
        == Some((spec_decode_movement(movement as u32), SpeedSource::GroundSpeed)))
    &&& (!(0 < movement < 125) ==> post.speed == mid.speed)
    &&& (spec_getbit(me, 12) ==> post.heading
        == Some((((spec_getbits(me, 13, 19) * 360) / 128) as i32, HeadingSource::True)))
    &&& (!spec_getbit(me, 12) ==> post.heading == mid.heading)
}

/// Surface position and movement (types 5 to 8).
fn es_surface(mm: &mut ModeSMessage, check_imf: bool)
    requires
        old(mm).wf(),
        old(mm).metype == spec_getbits(old(mm).me@, 0, 4),
        5 <= old(mm).metype <= 8,
    ensures
        final(mm).wf(),
        spec_es_surface_post(*old(mm), check_imf, *final(mm)),
{
    let metype: u8 = mm.metype;
    if check_imf && getbit(mm.me.as_slice(), 21) != 0 {
        set_imf(&mut mm.addr, &mut mm.addrtype);
    }

    mm.airground = Some(AirGround::Ground);
    proof {
        lemma_getbits_bound(mm.me@, 22, 38);
        lemma_getbits_bound(mm.me@, 39, 55);
        lemma_getbits_bound(mm.me@, 5, 11);
        lemma_getbits_bound(mm.me@, 13, 19);
        lemma2_to64();
    }
    let lat: u32 = getbits(mm.me.as_slice(), 23, 39) as u32;
    let lon: u32 = getbits(mm.me.as_slice(), 40, 56) as u32;
    let odd: bool = getbit(mm.me.as_slice(), 22) != 0;
    let nucp: u32 = (14 - metype) as u32;
    mm.raw_cpr = Some((lat, lon, odd, nucp, CprType::Surface));

    let movement: u32 = getbits(mm.me.as_slice(), 6, 12) as u32;
    if movement > 0 && movement < 125 {
        mm.speed = Some((decode_movement_field(movement), SpeedSource::GroundSpeed));
    }

    if getbit(mm.me.as_slice(), 13) != 0 {
        let hdg: i32 = ((getbits(mm.me.as_slice(), 14, 20) * 360) / 128) as i32;
        mm.heading = Some((hdg, HeadingSource::True));
    }
}

/// What decoding an airborne position payload (types 0, 9 to 18, 20 to 22)
/// leaves behind: the raw CPR fragment unless the report matches a known
/// corrupted pattern, and the decoded altitude when present and valid.
pub open spec fn spec_es_airborne_post(mid: ModeSMessage, imf: bool, post: ModeSMessage) -> bool {
    let me = mid.me@;
    let metype = spec_getbits(me, 0, 4);
    let m2 = spec_es_imf(mid, imf, spec_getbit(me, 7));
    let ac12 = spec_getbits(me, 8, 19);
    let lat = spec_getbits(me, 22, 38);
    let lon = spec_getbits(me, 39, 55);
    &&& post == ModeSMessage {
        addr: post.addr,
        addrtype: post.addrtype,
        raw_cpr: post.raw_cpr,
        altitude: post.altitude,
        ..mid
    }
    &&& post.addr == m2.addr && post.addrtype == m2.addrtype
    &&& (metype == 0 ==> post.raw_cpr is None)
    &&& (metype != 0 && spec_cpr_junk(metype, ac12, lat, lon) ==> post.raw_cpr is None)
    &&& (metype != 0 && !spec_cpr_junk(metype, ac12, lat, lon) ==> post.raw_cpr == Some((
        (lat as u32),
        (lon as u32),
        spec_getbit(me, 21),
        spec_airborne_nucp(metype),
        CprType::Airborne,
    )))
    &&& (ac12 != 0 && !spec_ac12_invalid(ac12 as u32) ==> post.altitude == Some((
        (spec_ac12_altitude(ac12 as u32) as i32),
        AltitudeUnit::Feet,
        if 20 <= metype <= 22 { AltitudeSource::GNSS } else { AltitudeSource::Baro },
    )))
    &&& (!(ac12 != 0 && !spec_ac12_invalid(ac12 as u32)) ==> post.altitude == mid.altitude)
}

/// Airborne position and altitude (types 0, 9 to 18, 20 to 22).
fn es_airborne(mm: &mut ModeSMessage, check_imf: bool)
    requires
        old(mm).wf(),
        old(mm).metype == spec_getbits(old(mm).me@, 0, 4),
        old(mm).metype == 0 || 9 <= old(mm).metype <= 18 || 20 <= old(mm).metype <= 22,
    ensures
        final(mm).wf(),
        spec_es_airborne_post(*old(mm), check_imf, *final(mm)),
{
    let metype: u8 = mm.metype;
    if check_imf && getbit(mm.me.as_slice(), 8) != 0 {
        set_imf(&mut mm.addr, &mut mm.addrtype);
    }

    proof {
        lemma_getbits_bound(mm.me@, 8, 19);
        lemma_getbits_bound(mm.me@, 22, 38);
        lemma_getbits_bound(mm.me@, 39, 55);
        lemma2_to64();
    }
    let ac12_field: u32 = getbits(mm.me.as_slice(), 9, 20) as u32;

    if metype == 0 {
        mm.raw_cpr = None;
    } else {
        // Catch some common failure modes and don't mark them as valid
        // (so they won't be used for positioning).
        let cpr_lat: u32 = getbits(mm.me.as_slice(), 23, 39) as u32;
        let cpr_lon: u32 = getbits(mm.me.as_slice(), 40, 56) as u32;

        let junk: bool = ac12_field == 0 && cpr_lon == 0 && (cpr_lat & 0x0fff) == 0
            && metype == 15;
        if junk {
            mm.raw_cpr = None;
        } else {
            let odd: bool = getbit(mm.me.as_slice(), 22) != 0;
            let nucp: u32 = if metype == 18 || metype == 22 {
                0
            } else if metype < 18 {
                (18 - metype) as u32
            } else {
                (29 - metype) as u32
            };
            mm.raw_cpr = Some((cpr_lat, cpr_lon, odd, nucp, CprType::Airborne));
        }
    }

    if ac12_field != 0 {
        // Only attempt to decode if a valid (non zero) altitude is present
        if let Ok(altitude) = decode_ac12_field(ac12_field) {
            let src = if 20 <= metype && metype <= 22 {
                AltitudeSource::GNSS
            } else {
                AltitudeSource::Baro
            };
            mm.altitude = Some((altitude, AltitudeUnit::Feet, src));
        }
    }
}

/// What decoding an airborne velocity payload (type 19) leaves behind:
/// subtype, vertical rate, GNSS/baro difference, and for the ground-speed
/// subtypes the raw velocity components and the speed, whose square brackets
/// the squared component sum. The heading angle between the components is
/// derived outside the decoder. Airspeed subtypes update no further field.
pub open spec fn spec_es_velocity_post(mid: ModeSMessage, imf: bool, post: ModeSMessage) -> bool {
    let me = mid.me@;
    let m2 = spec_es_imf(mid, imf, spec_getbit(me, 8));
    let mesub = spec_getbits(me, 5, 7);
    let vr_raw = spec_getbits(me, 37, 45);
    let gd_raw = spec_getbits(me, 49, 55);
    let ew_raw = spec_getbits(me, 14, 23);
    let ns_raw = spec_getbits(me, 25, 34);
    &&& post == ModeSMessage {
        mesub: post.mesub,
        addr: post.addr,
        addrtype: post.addrtype,
        vert_rate: post.vert_rate,
        velocity_ew_ns: post.velocity_ew_ns,
        speed: post.speed,
        gnss_delta: post.gnss_delta,
        ..mid
    }
    &&& post.mesub == mesub
    &&& post.addr == m2.addr && post.addrtype == m2.addrtype
    &&& (mesub < 1 || mesub > 4) ==> post == ModeSMessage {
        mesub: post.mesub,
        addr: post.addr,
        addrtype: post.addrtype,
        ..mid
    }
    &&& (1 <= mesub <= 4) ==> {
        &&& (vr_raw == 0 ==> post.vert_rate == mid.vert_rate)
        &&& (vr_raw != 0 ==> post.vert_rate == Some((
            ((if spec_getbit(me, 36) { -((vr_raw - 1) * 64) } else { (vr_raw - 1) * 64 }) as i32),
            if spec_getbit(me, 35) { AltitudeSource::GNSS } else { AltitudeSource::Baro },
        )))
        &&& (gd_raw == 0 ==> post.gnss_delta == mid.gnss_delta)
        &&& (gd_raw != 0 ==> post.gnss_delta == Some(
            ((if spec_getbit(me, 48) { -((gd_raw - 1) * 25) } else { (gd_raw - 1) * 25 }) as i32),
        ))
    }
    &&& (mesub == 1 || mesub == 2) && ew_raw != 0 && ns_raw != 0 ==> {
        let ew_mag = if mesub == 2 { (ew_raw - 1) * 4 } else { (ew_raw - 1) as int };
        let ns_mag = if mesub == 2 { (ns_raw - 1) * 4 } else { (ns_raw - 1) as int };
        let ew = if spec_getbit(me, 13) { -ew_mag } else { ew_mag };
        let ns = if spec_getbit(me, 24) { -ns_mag } else { ns_mag };
        &&& post.velocity_ew_ns == Some(((ew as i32), (ns as i32)))
        &&& post.speed matches Some((s, src)) && src == SpeedSource::GroundSpeed
            && is_isqrt(ew * ew + ns * ns, s as int)
    }
    &&& !((mesub == 1 || mesub == 2) && ew_raw != 0 && ns_raw != 0) ==> {
        &&& post.velocity_ew_ns == mid.velocity_ew_ns
        &&& post.speed == mid.speed
    }
}

/// Airborne velocity (type 19).
#[verifier::rlimit(60)]
#[verifier::spinoff_prover]
fn es_velocity(mm: &mut ModeSMessage, check_imf: bool)
    requires
        old(mm).wf(),
        old(mm).metype == spec_getbits(old(mm).me@, 0, 4),
        old(mm).metype == 19,
    ensures
        final(mm).wf(),
        spec_es_velocity_post(*old(mm), check_imf, *final(mm)),
{
    proof {
        lemma_getbits_bound(old(mm).me@, 5, 7);
        lemma2_to64();
    }
    mm.mesub = getbits(mm.me.as_slice(), 6, 8) as u8;

    if check_imf && getbit(mm.me.as_slice(), 9) != 0 {
        set_imf(&mut mm.addr, &mut mm.addrtype);
    }

    if 1 <= mm.mesub && mm.mesub <= 4 {
        proof {
            lemma_getbits_bound(mm.me@, 37, 45);
            lemma_getbits_bound(mm.me@, 49, 55);
            lemma_getbits_bound(mm.me@, 14, 23);
            lemma_getbits_bound(mm.me@, 25, 34);
            lemma2_to64();
        }
        let vr_raw: u32 = getbits(mm.me.as_slice(), 38, 46) as u32;
        if vr_raw != 0 {
            let magnitude: i32 = ((vr_raw as i32) - 1) * 64;
            let vr: i32 = if getbit(mm.me.as_slice(), 37) != 0 {
                -magnitude
            } else {
                magnitude
            };
            let source = if getbit(mm.me.as_slice(), 36) != 0 {
                AltitudeSource::GNSS
            } else {
                AltitudeSource::Baro
            };
            mm.vert_rate = Some((vr, source));
        }

        if mm.mesub == 1 || mm.mesub == 2 {
            let ew_raw: u32 = getbits(mm.me.as_slice(), 15, 24) as u32;
            let ns_raw: u32 = getbits(mm.me.as_slice(), 26, 35) as u32;

            if ew_raw != 0 && ns_raw != 0 {
                let ew_mag: i32 = if mm.mesub == 2 {
                    ((ew_raw as i32) - 1) * 4
                } else {
                    (ew_raw as i32) - 1
                };
                let ns_mag: i32 = if mm.mesub == 2 {
                    ((ns_raw as i32) - 1) * 4
                } else {
                    (ns_raw as i32) - 1
                };
                let ew_vel: i32 = if getbit(mm.me.as_slice(), 14) != 0 {
                    -ew_mag
                } else {
                    ew_mag
                };
                let ns_vel: i32 = if getbit(mm.me.as_slice(), 25) != 0 {
                    -ns_mag
                } else {
                    ns_mag
                };
                mm.velocity_ew_ns = Some((ew_vel, ns_vel));

                // Speed from the two components; the heading angle
                // between them is derived outside the decoder.
                proof {
                    assert((ew_vel as int) * (ew_vel as int) + (ns_vel as int) * (ns_vel as int)
                        <= 2 * 4088 * 4088) by (nonlinear_arith)
                        requires -4088 <= ew_vel <= 4088 && -4088 <= ns_vel <= 4088;
                    assert((ew_vel as int) * (ew_vel as int) >= 0) by (nonlinear_arith);
                    assert((ns_vel as int) * (ns_vel as int) >= 0) by (nonlinear_arith);
                }
                let sq: u64 = ((ew_vel as i64) * (ew_vel as i64)
                    + (ns_vel as i64) * (ns_vel as i64)) as u64;
                let speed: u32 = isqrt64(sq) as u32;
                mm.speed = Some((speed, SpeedSource::GroundSpeed));
            }
        }
        // Airspeed subtypes 3 and 4 are not decoded: no field update.

        let gd_raw: u32 = getbits(mm.me.as_slice(), 50, 56) as u32;
        if gd_raw != 0 {
            let magnitude: i32 = ((gd_raw as i32) - 1) * 25;
            let delta: i32 = if getbit(mm.me.as_slice(), 49) != 0 {
                -magnitude
            } else {
                magnitude
            };
            mm.gnss_delta = Some(delta);
        }
    }
}

/// What decoding an aircraft status payload (type 28) leaves behind:
/// subtype, and for the emergency subtype the squawk code.
pub open spec fn spec_es_status_post(mid: ModeSMessage, imf: bool, post: ModeSMessage) -> bool {
    let me = mid.me@;
    let mesub = spec_getbits(me, 5, 7);
    let id13 = spec_getbits(me, 11, 23);
    let m2 = if mesub == 1 {
        spec_es_imf(mid, imf, spec_getbit(me, 55))
    } else {
        mid
    };
    &&& post == ModeSMessage {
        mesub: post.mesub,
        addr: post.addr,
        addrtype: post.addrtype,
        squawk: post.squawk,
        ..mid
    }
    &&& post.mesub == mesub
    &&& post.addr == m2.addr && post.addrtype == m2.addrtype
    &&& (mesub == 1 && id13 != 0 ==> post.squawk == Some(spec_decode_id13(id13 as u32)))
    &&& (!(mesub == 1 && id13 != 0) ==> post.squawk == mid.squawk)
}

/// Extended squitter aircraft status (type 28).
fn es_status(mm: &mut ModeSMessage, check_imf: bool)
    requires
        old(mm).wf(),
        old(mm).metype == spec_getbits(old(mm).me@, 0, 4),
        old(mm).metype == 28,
    ensures
        final(mm).wf(),
        spec_es_status_post(*old(mm), check_imf, *final(mm)),
{
    proof {
        lemma_getbits_bound(old(mm).me@, 5, 7);
        lemma2_to64();
    }
    mm.mesub = getbits(mm.me.as_slice(), 6, 8) as u8;

    if mm.mesub == 1 {
        // Emergency status squawk field
        proof {
            lemma_getbits_bound(mm.me@, 11, 23);
            lemma2_to64();
        }
        let id13_field: u32 = getbits(mm.me.as_slice(), 12, 24) as u32;
        if id13_field != 0 {
            mm.squawk = Some(decode_id13_field(id13_field));
        }

        if check_imf && getbit(mm.me.as_slice(), 56) != 0 {
            set_imf(&mut mm.addr, &mut mm.addrtype);
        }
    }
}

/// What decoding a target state payload (type 29) leaves behind: the
/// two-bit subtype, and for subtype 1 the full target state block.
pub open spec fn spec_es_target_state_post(mid: ModeSMessage, imf: bool, post: ModeSMessage) -> bool {
    let me = mid.me@;
    let mesub = spec_getbits(me, 5, 6);
    let m2 = spec_es_imf(mid, imf, spec_getbit(me, 50));
    &&& post == ModeSMessage {
        mesub: post.mesub,
        addr: post.addr,
        addrtype: post.addrtype,
        tss: post.tss,
        ..mid
    }
    &&& post.mesub == mesub
    &&& post.addr == m2.addr && post.addrtype == m2.addrtype
    &&& (mesub == 1 ==> post.tss == Some(spec_tss(me)))
    &&& (mesub != 1 ==> post.tss == mid.tss)
}

/// Target state and status (type 29), an unusual message with a two-bit
/// subtype code.
fn es_target_state(mm: &mut ModeSMessage, check_imf: bool)
    requires
        old(mm).wf(),
        old(mm).metype == spec_getbits(old(mm).me@, 0, 4),
        old(mm).metype == 29,
    ensures
        final(mm).wf(),
        spec_es_target_state_post(*old(mm), check_imf, *final(mm)),
{
    proof {
        lemma_getbits_bound(old(mm).me@, 5, 6);
        lemma2_to64();
    }
    mm.mesub = getbits(mm.me.as_slice(), 6, 7) as u8;

    if check_imf && getbit(mm.me.as_slice(), 51) != 0 {
        set_imf(&mut mm.addr, &mut mm.addrtype);
    }

    if mm.mesub == 1 {
        mm.tss = Some(decode_target_state(mm.me.as_slice()));
    }
}

/// What decoding an operational status payload (type 31) leaves behind:
/// subtype, and for subtypes 0 and 1 the full operational status block.
pub open spec fn spec_es_opstatus_post(mid: ModeSMessage, imf: bool, post: ModeSMessage) -> bool {
    let me = mid.me@;
    let mesub = spec_getbits(me, 5, 7);
    let m2 = spec_es_imf(mid, imf, spec_getbit(me, 55));
    &&& post == ModeSMessage {
        mesub: post.mesub,
        addr: post.addr,
        addrtype: post.addrtype,
        opstatus: post.opstatus,
        ..mid
    }
    &&& post.mesub == mesub
    &&& post.addr == m2.addr && post.addrtype == m2.addrtype
    &&& (mesub == 0 || mesub == 1 ==> post.opstatus == Some(spec_opstatus(me, mesub as u8)))
    &&& (!(mesub == 0 || mesub == 1) ==> post.opstatus == mid.opstatus)
}

/// Aircraft operational status (type 31).
fn es_opstatus(mm: &mut ModeSMessage, check_imf: bool)
    requires
        old(mm).wf(),
        old(mm).metype == spec_getbits(old(mm).me@, 0, 4),
        old(mm).metype == 31,
    ensures
        final(mm).wf(),
        spec_es_opstatus_post(*old(mm), check_imf, *final(mm)),
{
    proof {
        lemma_getbits_bound(old(mm).me@, 5, 7);
        lemma2_to64();
    }
    mm.mesub = getbits(mm.me.as_slice(), 6, 8) as u8;

    if check_imf && getbit(mm.me.as_slice(), 56) != 0 {
        set_imf(&mut mm.addr, &mut mm.addrtype);
    }

    if mm.mesub == 0 || mm.mesub == 1 {
        let ops = decode_operational_status(mm.me.as_slice(), mm.mesub);
        mm.opstatus = Some(ops);
    }
}

/// Read the target state and status fields (type 29, subtype 1).
fn decode_target_state(me: &[u8]) -> (r: TargetStateStatus)
    requires
        me@.len() == 7,
    ensures
        r == spec_tss(me@),
{
    proof {
        lemma_getbits_bound(me@, 9, 19);
        lemma_getbits_bound(me@, 20, 28);
        lemma_getbits_bound(me@, 30, 38);
        lemma_getbits_bound(me@, 39, 42);
        lemma_getbits_bound(me@, 44, 45);
        lemma2_to64();
    }
    let sil_type = if getbit(me, 8) == 0 {
        SilType::SilPerSample
    } else {
        SilType::SilPerHour
    };
    let alt_type = if getbit(me, 9) != 0 {
        TssAltitudeType::FMS
    } else {
        TssAltitudeType::MCP
    };

    let alt_bits: u32 = getbits(me, 10, 20) as u32;
    let altitude = if alt_bits == 0 {
        None
    } else {
        Some(((alt_bits - 1) * 32, alt_type))
    };

    let baro_raw: u32 = getbits(me, 21, 29) as u32;

    let heading = if getbit(me, 30) != 0 {
        // two's complement -180..+180, which is conveniently the same
        // as unsigned 0..360
        Some(((getbits(me, 31, 39) as u32) * 180) / 256)
    } else {
        None
    };

    TargetStateStatus {
        mode_valid: getbit(me, 47) != 0,
        mode_autopilot: getbit(me, 48) != 0,
        mode_vnav: getbit(me, 49) != 0,
        mode_alt_hold: getbit(me, 50) != 0,
        mode_approach: getbit(me, 52) != 0,
        acas_operational: getbit(me, 53) != 0,
        nac_p: getbits(me, 40, 43) as u8,
        nic_baro: getbit(me, 44) != 0,
        sil: getbits(me, 45, 46) as u8,
        sil_type,
        altitude,
        baro_raw,
        heading,
    }
}

/// Read the operational status fields (type 31, subtypes 0 and 1).
#[verifier::rlimit(60)]
#[verifier::spinoff_prover]
fn decode_operational_status(me: &[u8], mesub: u8) -> (r: OperationalStatus)
    requires
        me@.len() == 7,
    ensures
        r == spec_opstatus(me@, mesub),
{
    proof {
        lemma_getbits_bound(me@, 40, 42);
        lemma_getbits_bound(me@, 30, 31);
        lemma_getbits_bound(me@, 16, 17);
        lemma_getbits_bound(me@, 16, 18);
        lemma_getbits_bound(me@, 20, 23);
        lemma_getbits_bound(me@, 32, 39);
        lemma_getbits_bound(me@, 44, 47);
        lemma_getbits_bound(me@, 48, 49);
        lemma_getbits_bound(me@, 50, 51);
        lemma2_to64();
    }
    let mut opstatus = OperationalStatus::default();

    opstatus.version = getbits(me, 41, 43) as u8;

    if opstatus.version == 1 {
        if getbits(me, 25, 26) == 0 {
            opstatus.om_acas_ra = getbit(me, 27) != 0;
            opstatus.om_ident = getbit(me, 28) != 0;
            opstatus.om_atc = getbit(me, 29) != 0;
        }

        if mesub == 0 && getbits(me, 9, 10) == 0 && getbits(me, 13, 14) == 0 {
            // airborne
            opstatus.cc_acas = getbit(me, 11) == 0;
            opstatus.cc_cdti = getbit(me, 12) != 0;
            opstatus.cc_arv = getbit(me, 15) != 0;
            opstatus.cc_ts = getbit(me, 16) != 0;
            opstatus.cc_tc = getbits(me, 17, 18) as u8;
        } else if mesub == 1 && getbits(me, 9, 10) == 0 && getbits(me, 13, 14) == 0 {
            // surface
            opstatus.cc_poa = getbit(me, 11) != 0;
            opstatus.cc_cdti = getbit(me, 12) != 0;
            opstatus.cc_b2_low = getbit(me, 15) != 0;
            opstatus.cc_lw_valid = true;
            opstatus.cc_lw = getbits(me, 21, 24) as u32;
        }

        opstatus.nic_supp_a = getbit(me, 44) != 0;
        opstatus.nac_p = getbits(me, 45, 48) as u8;
        opstatus.sil = getbits(me, 51, 52) as u8;

        if mesub == 0 {
            opstatus.nic_baro = getbit(me, 53) != 0;
        } else {
            opstatus.track_angle = if getbit(me, 53) != 0 {
                AngleType::Track
            } else {
                AngleType::Heading
            };
        }
        opstatus.hrd = if getbit(me, 54) != 0 {
            HeadingSource::Magnetic
        } else {
            HeadingSource::True
        };
    } else if opstatus.version != 0 {
        if getbits(me, 25, 26) == 0 {
            opstatus.om_acas_ra = getbit(me, 27) != 0;
            opstatus.om_ident = getbit(me, 28) != 0;
            opstatus.om_atc = getbit(me, 29) != 0;
            opstatus.om_saf = getbit(me, 30) != 0;
            opstatus.om_sda = getbits(me, 31, 32) as u8;
        }

        if mesub == 0 && getbits(me, 9, 10) == 0 && getbits(me, 13, 14) == 0 {
            // airborne
            opstatus.cc_acas = getbit(me, 11) != 0;
            opstatus.cc_1090_in = getbit(me, 12) != 0;
            opstatus.cc_arv = getbit(me, 15) != 0;
            opstatus.cc_ts = getbit(me, 16) != 0;
            opstatus.cc_tc = getbits(me, 17, 18) as u8;
            opstatus.cc_uat_in = getbit(me, 19) != 0;
        } else if mesub == 1 && getbits(me, 9, 10) == 0 && getbits(me, 13, 14) == 0 {
            // surface
            opstatus.cc_poa = getbit(me, 11) != 0;
            opstatus.cc_1090_in = getbit(me, 12) != 0;
            opstatus.cc_b2_low = getbit(me, 15) != 0;
            opstatus.cc_uat_in = getbit(me, 16) != 0;
            opstatus.cc_nac_v = getbits(me, 17, 19) as u8;
            opstatus.cc_nic_supp_c = getbit(me, 20) != 0;
            opstatus.cc_lw_valid = true;
            opstatus.cc_lw = getbits(me, 21, 24) as u32;
            opstatus.cc_antenna_offset = getbits(me, 33, 40) as u32;
        }

        opstatus.nic_supp_a = getbit(me, 44) != 0;
        opstatus.nac_p = getbits(me, 45, 48) as u8;
        opstatus.sil = getbits(me, 51, 52) as u8;

        if mesub == 0 {
            opstatus.gva = getbits(me, 49, 50) as u8;
            opstatus.nic_baro = getbit(me, 53) != 0;
        } else {
            opstatus.track_angle = if getbit(me, 53) != 0 {
                AngleType::Track
            } else {
                AngleType::Heading
            };
        }

        opstatus.hrd = if getbit(me, 54) != 0 {
            HeadingSource::Magnetic
        } else {
            HeadingSource::True
        };
        opstatus.sil_type = if getbit(me, 55) != 0 {
            SilType::SilPerSample
        } else {
            SilType::SilPerHour
        };
    }

    opstatus
}

} // verus!
