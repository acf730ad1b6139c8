use vstd::prelude::*;

use crate::cpr::{
    decode_cpr_airborne, decode_cpr_relative, spec_cpr_airborne, spec_cpr_relative, CprError,
};
use crate::track::{
    spec_combine, spec_compare, spec_envelope_from, spec_opt_update, spec_overwrites, spec_update,
    DataValidityBox,
};
use crate::types::{
    sub_bytes, AddrType, AirGround, AltitudeSource, CprType, DataSource, HeadingSource,
    ModeSMessage, SpeedSource,
};

verus! {

/// The last eight signal power measurements, as scaled squared-magnitude
/// sums, newest overwriting oldest.
pub struct SignalRing {
    pub buffer: Vec<u64>,
    pub idx: usize,
}

impl SignalRing {
    /// Eight slots, with the write index inside them.
    pub open spec fn wf(&self) -> bool {
        self.buffer@.len() == 8 && self.idx < 8
    }

    /// An all-zero ring.
    pub fn new() -> (r: Self)
        ensures
            r.wf(),
            r.idx == 0,
            forall|i: int| 0 <= i < 8 ==> r.buffer@[i] == 0u64,
    {
        let mut buffer: Vec<u64> = Vec::new();
        let mut i: usize = 0;
        while i < 8
            invariant
                i <= 8,
                buffer@.len() == i,
                forall|j: int| 0 <= j < i ==> buffer@[j] == 0u64,
            decreases 8 - i,
        {
            buffer.push(0);
            i += 1;
        }
        SignalRing { buffer, idx: 0 }
    }

    /// Record one measurement in the next slot.
    pub fn push(&mut self, x: u64)
        requires
            old(self).wf(),
        ensures
            final(self).wf(),
            final(self).buffer@ == old(self).buffer@.update(old(self).idx as int, x),
            final(self).idx == (old(self).idx + 1) % 8,
    {
        self.buffer[self.idx] = x;
        self.idx = if self.idx == 7 {
            0
        } else {
            self.idx + 1
        };
    }
}

/// A candidate position that still has to pass the distance plausibility
/// gate: the candidate itself, the reference it must be measured against,
/// the largest plausible travel distance, and for reference-relative
/// candidates the hard limit on distance from the reference.
#[derive(Clone, Copy, Debug)]
pub struct PendingPosition {
    /// Candidate latitude, nanodegrees.
    pub lat: i64,
    /// Candidate longitude, nanodegrees.
    pub lon: i64,
    /// Accuracy category attached to the candidate.
    pub nuc: u32,
    /// Whether this is a surface position.
    pub surface: bool,
    /// Whether the candidate came from a global (even/odd pair) decode; a
    /// failed gate then poisons the fragment pair as well.
    pub global: bool,
    /// Which fragment carried the message (for envelope bookkeeping).
    pub odd: bool,
    /// Reference latitude (the last known position), nanodegrees.
    pub ref_lat: i64,
    /// Reference longitude, nanodegrees.
    pub ref_lon: i64,
    /// Largest plausible distance from the reference, meters.
    pub range_m: u64,
    /// Hard distance limit from the reference, meters, for local decodes.
    pub limit_m: Option<u64>,
}

/// A pending candidate carries angles the decoders can produce: latitude
/// within plus or minus 90 degrees and longitude within one extra wrap.
pub open spec fn pending_wf(p: PendingPosition) -> bool {
    &&& -90_000_000_000 <= p.lat <= 90_000_000_000
    &&& -400_000_000_000 <= p.lon <= 400_000_000_000
    &&& -90_000_000_000 <= p.ref_lat <= 90_000_000_000
    &&& -180_000_000_000 <= p.ref_lon <= 180_000_000_000
}

/// What a position update did: nothing usable, an applied position, a
/// discarded (poisoned) fragment pair, or a candidate that needs the
/// distance to the reference before it can be judged.
pub enum PositionOutcome {
    NoPosition,
    Applied,
    Discarded,
    NeedsDistance(PendingPosition),
}

/// One tracked aircraft: its address, bookkeeping counters, and one
/// validity-enveloped box per tracked field.
pub struct Aircraft {
    /// ICAO address (with the non-ICAO flag bit where applicable).
    pub addr: u32,
    /// Most direct address kind seen so far.
    pub addr_type: AddrType,
    /// Time of the last message, milliseconds.
    pub seen: u128,
    /// Number of messages received for this aircraft.
    pub messages: u64,
    /// Last eight signal power measurements.
    pub signal_level: SignalRing,
    /// Callsign, as eight ASCII bytes.
    pub callsign: DataValidityBox<Vec<u8>>,
    /// Barometric altitude in feet and its Mode C hundreds-of-feet value.
    pub altitude: DataValidityBox<(i32, u32)>,
    /// Geometric altitude in feet.
    pub altitude_gnss: DataValidityBox<i32>,
    /// GNSS minus barometric altitude, feet.
    pub gnss_delta: DataValidityBox<i32>,
    /// Ground speed, knots.
    pub speed: DataValidityBox<u32>,
    /// Indicated airspeed, knots.
    pub speed_ias: DataValidityBox<u32>,
    /// True airspeed, knots.
    pub speed_tas: DataValidityBox<u32>,
    /// True track, degrees.
    pub heading: DataValidityBox<i32>,
    /// Magnetic heading, degrees.
    pub heading_magnetic: DataValidityBox<i32>,
    /// Vertical rate, ft/min, and its altitude reference.
    pub vert_rate: DataValidityBox<(i32, AltitudeSource)>,
    /// Squawk code.
    pub squawk: DataValidityBox<u32>,
    /// Emitter category byte.
    pub category: DataValidityBox<u8>,
    /// Air/ground state.
    pub airground: DataValidityBox<AirGround>,
    /// Last odd CPR fragment: kind, latitude, longitude, accuracy.
    pub cpr_odd: DataValidityBox<(CprType, u32, u32, u32)>,
    /// Last even CPR fragment: kind, latitude, longitude, accuracy.
    pub cpr_even: DataValidityBox<(CprType, u32, u32, u32)>,
    /// Decoded position: latitude, longitude (nanodegrees), accuracy.
    pub position: DataValidityBox<(i64, i64, u32)>,
    /// Mode A hit count (no Mode A/C demodulator feeds it).
    pub mode_a_count: u64,
    /// Mode C hit count (no Mode A/C demodulator feeds it).
    pub mode_c_count: u64,
}


/// The best available speed estimate in knots: ground speed if valid, else
/// indicated airspeed padded by a third, else true airspeed padded by a
/// third, else a guess of 100 kt on the surface or 600 kt airborne.
pub open spec fn spec_best_speed(a: Aircraft, surface: bool) -> int {
    if a.speed.source != DataSource::Invalid && a.speed.opt_contents is Some {
        a.speed.opt_contents.unwrap() as int
    } else if a.speed_ias.source != DataSource::Invalid && a.speed_ias.opt_contents is Some {
        (a.speed_ias.opt_contents.unwrap() as int) * 4 / 3
    } else if a.speed_tas.source != DataSource::Invalid && a.speed_tas.opt_contents is Some {
        (a.speed_tas.opt_contents.unwrap() as int) * 4 / 3
    } else if surface {
        100
    } else {
        600
    }
}

/// The speed bound the plausibility gate reckons with: the best estimate
/// padded by a third, clamped to 20..150 kt on the surface and to at least
/// 200 kt airborne.
pub open spec fn spec_gate_speed(a: Aircraft, surface: bool) -> int {
    let padded = spec_best_speed(a, surface) * 4 / 3;
    if surface {
        if padded < 20 {
            20
        } else if padded > 150 {
            150
        } else {
            padded
        }
    } else {
        if padded < 200 {
            200
        } else {
            padded
        }
    }
}

/// The age of the last position, capped so the range formula cannot
/// overflow: an uncapped age would allow any distance anyway.
pub open spec fn spec_gate_age(a: Aircraft, now_ms: u128) -> int {
    let elapsed = if a.position.source == DataSource::Invalid {
        u128::MAX as int
    } else if a.position.updated > now_ms {
        0int
    } else {
        now_ms - a.position.updated
    };
    if elapsed > 0xFFFF_FFFF {
        0xFFFF_FFFF
    } else {
        elapsed
    }
}

/// The largest distance, in meters, the aircraft could plausibly have
/// moved: the clamped speed bound in knots, over the capped elapsed time
/// plus one second, as meters, plus extra room of 100 m on the surface or
/// 500 m airborne; never more than the result type holds.
pub open spec fn spec_plausible_range(a: Aircraft, now_ms: u128, surface: bool) -> int {
    let slack = if surface { 100int } else { 500int };
    let range = (spec_gate_age(a, now_ms) + 1000) * spec_gate_speed(a, surface) * 1852
        / 3_600_000 + slack;
    if range > 0xFFFF_FFFF_FFFF_FFFF {
        0xFFFF_FFFF_FFFF_FFFF
    } else {
        range
    }
}



/// An empty, invalid validity envelope, as a fresh track holds for every
/// field.
pub open spec fn spec_empty_box<T>() -> DataValidityBox<T> {
    DataValidityBox {
        source: DataSource::Invalid,
        updated: 0,
        stale: 0,
        expires: 0,
        opt_contents: None,
    }
}

/// `t` is a fresh track for `addr`: all counters zero, every field box
/// empty and invalid, and the signal ring zeroed.
pub open spec fn spec_fresh_track(t: Aircraft, addr: u32, addr_type: AddrType) -> bool {
    &&& t.addr == addr
    &&& t.addr_type == addr_type
    &&& t.seen == 0
    &&& t.messages == 0
    &&& t.signal_level.idx == 0
    &&& t.signal_level.buffer@ == Seq::new(8, |i: int| 0u64)
    &&& t.callsign == spec_empty_box::<Vec<u8>>()
    &&& t.altitude == spec_empty_box::<(i32, u32)>()
    &&& t.altitude_gnss == spec_empty_box::<i32>()
    &&& t.gnss_delta == spec_empty_box::<i32>()
    &&& t.speed == spec_empty_box::<u32>()
    &&& t.speed_ias == spec_empty_box::<u32>()
    &&& t.speed_tas == spec_empty_box::<u32>()
    &&& t.heading == spec_empty_box::<i32>()
    &&& t.heading_magnetic == spec_empty_box::<i32>()
    &&& t.vert_rate == spec_empty_box::<(i32, AltitudeSource)>()
    &&& t.squawk == spec_empty_box::<u32>()
    &&& t.category == spec_empty_box::<u8>()
    &&& t.airground == spec_empty_box::<AirGround>()
    &&& t.cpr_odd == spec_empty_box::<(CprType, u32, u32, u32)>()
    &&& t.cpr_even == spec_empty_box::<(CprType, u32, u32, u32)>()
    &&& t.position == spec_empty_box::<(i64, i64, u32)>()
    &&& t.mode_a_count == 0
    &&& t.mode_c_count == 0
}

/// The address kind a track starts with: the kind the first message names,
/// if any.
pub open spec fn spec_initial_addr_type(mm: ModeSMessage) -> AddrType {
    match mm.addrtype {
        Some(t) => t,
        None => AddrType::Unknown,
    }
}

/// The barometric altitude a message carries, if any.
pub open spec fn spec_baro_altitude(mm: ModeSMessage) -> Option<i32> {
    match mm.altitude {
        Some((alt, _, AltitudeSource::Baro)) => Some(alt),
        _ => None,
    }
}

/// The geometric altitude a message carries, if any.
pub open spec fn spec_gnss_altitude(mm: ModeSMessage) -> Option<i32> {
    match mm.altitude {
        Some((alt, _, AltitudeSource::GNSS)) => Some(alt),
        _ => None,
    }
}

/// The Mode C level (hundreds of feet) of a barometric altitude, floored at
/// the lowest code.
pub open spec fn spec_mode_c(alt: i32) -> u32 {
    if alt < -49 {
        0u32
    } else {
        (((alt + 49) as u32) / 100) as u32
    }
}

/// The freshness bound for pairing even and odd fragments, per the message
/// kind: 10 s airborne; on the surface 25 s above 25 kt or with no speed,
/// 50 s otherwise.
pub open spec fn spec_max_elapsed(mm: ModeSMessage) -> int {
    match mm.raw_cpr {
        Some((_, _, _, _, t)) => if t == CprType::Surface {
            match mm.speed {
                Some((spd, _)) => if spd <= 25 {
                    50000int
                } else {
                    25000int
                },
                None => 25000int,
            }
        } else {
            10000int
        },
        None => 10000int,
    }
}

/// A fresh matching fragment pair is on hand: both fragments valid, from
/// the same source and of the same kind, updated within the freshness bound
/// of each other.
pub open spec fn spec_global_ready(a: Aircraft, mm: ModeSMessage) -> bool {
    &&& mm.raw_cpr is Some
    &&& a.cpr_odd.source != DataSource::Invalid
    &&& a.cpr_even.source != DataSource::Invalid
    &&& a.cpr_odd.source == a.cpr_even.source
    &&& a.cpr_odd.opt_contents is Some
    &&& a.cpr_even.opt_contents is Some
    &&& a.cpr_even.opt_contents.unwrap().0 == a.cpr_odd.opt_contents.unwrap().0
    &&& (if a.cpr_odd.updated > a.cpr_even.updated {
        a.cpr_odd.updated - a.cpr_even.updated
    } else {
        a.cpr_even.updated - a.cpr_odd.updated
    }) <= spec_max_elapsed(mm)
}

/// Whether the speed gate applies to a freshly decoded global position:
/// live data with a valid previous position at least as accurate as the
/// candidate.
pub open spec fn spec_gate_applies(a: Aircraft, mm: ModeSMessage, nuc: u32) -> bool {
    &&& mm.source != DataSource::MLAT
    &&& a.position.source != DataSource::Invalid
    &&& a.position.opt_contents is Some
    &&& a.position.opt_contents.unwrap().2 >= nuc
}


/// The reference position is usable for a relative decode: validly set,
/// updated no more than 50 s ago, and holding a value.
pub open spec fn spec_local_ref_ok(a: Aircraft, now_ms: u128) -> bool {
    &&& a.position.source != DataSource::Invalid
    &&& !(a.position.updated < now_ms && now_ms - a.position.updated > 50000)
    &&& a.position.opt_contents is Some
}

/// What a reference-relative decode of the message's fragment yields: the
/// decoded point (nanodegrees) with the worse of the fragment's and the
/// reference's accuracy, or nothing when no usable reference exists or the
/// fragment cannot be resolved against it.
pub open spec fn spec_local_cpr(a: Aircraft, mm: ModeSMessage, now_ms: u128) -> Option<
    (int, int, u32),
>
    recommends
        mm.raw_cpr is Some,
{
    let (clat, clon, fflag, nucp, t) = mm.raw_cpr.unwrap();
    if !spec_local_ref_ok(a, now_ms) {
        None
    } else {
        let p = a.position.opt_contents.unwrap();
        let nuc: u32 = if nucp <= p.2 {
            nucp
        } else {
            p.2
        };
        match spec_cpr_relative(
            p.0 as int,
            p.1 as int,
            clat as int,
            clon as int,
            fflag,
            t == CprType::Surface,
        ) {
            Some(q) => Some((q.0, q.1, nuc)),
            None => None,
        }
    }
}

/// The global path yields nothing for this message: no fresh matching
/// fragment pair is on hand, or the pair is a surface pair (which needs a
/// reference this receiver does not keep), or the airborne pair's fragments
/// disagree on the latitude zone. In each of these the position machinery
/// falls back to a reference-relative decode.
pub open spec fn spec_global_fell_through(a: Aircraft, mm: ModeSMessage) -> bool
    recommends
        mm.raw_cpr is Some,
{
    ||| !spec_global_ready(a, mm)
    ||| mm.raw_cpr.unwrap().4 == CprType::Surface
    ||| (mm.raw_cpr.unwrap().4 == CprType::Airborne && {
        let e = a.cpr_even.opt_contents.unwrap();
        let o = a.cpr_odd.opt_contents.unwrap();
        let s = spec_cpr_airborne(e.1 as int, e.2 as int, o.1 as int, o.2 as int, mm.raw_cpr.unwrap().2);
        s matches Err(err) && err == CprError::ZoneMismatch
    })
}

/// The effect of folding one message's identity and bookkeeping fields into
/// a track: `b` is `a` with the signal ring, last-seen time, message count,
/// address kind, barometric altitude, squawk, and the two Mode A/C
/// correlation counters updated, and nothing else touched. This is exactly
/// the contract of `Aircraft::track_identity`.
pub open spec fn spec_identity_step(
    a: Aircraft,
    b: Aircraft,
    mm: ModeSMessage,
    now_ms: u128,
) -> bool {
    &&& b == (Aircraft {
        signal_level: b.signal_level,
        seen: b.seen,
        messages: b.messages,
        addr_type: b.addr_type,
        altitude: b.altitude,
        squawk: b.squawk,
        mode_a_count: b.mode_a_count,
        mode_c_count: b.mode_c_count,
        ..a
    })
    &&& b.seen == now_ms
    &&& b.messages == (if a.messages < u64::MAX {
        (a.messages + 1) as u64
    } else {
        a.messages
    })
    &&& (mm.signal_power_scaled == 0 ==> b.signal_level == a.signal_level)
    &&& (mm.signal_power_scaled > 0 ==> b.signal_level.buffer@ == a.signal_level.buffer@.update(
        a.signal_level.idx as int,
        mm.signal_power_scaled,
    ) && b.signal_level.idx == (a.signal_level.idx + 1) % 8)
    &&& b.addr_type == (match mm.addrtype {
        Some(t) => if t.spec_rank() < a.addr_type.spec_rank() {
            t
        } else {
            a.addr_type
        },
        None => a.addr_type,
    })
    &&& b.altitude == (match spec_baro_altitude(mm) {
        Some(alt) => spec_update(a.altitude, mm.source, now_ms, (alt, spec_mode_c(alt))),
        None => a.altitude,
    })
    &&& b.squawk == spec_opt_update(a.squawk, mm.source, now_ms, mm.squawk)
    &&& b.mode_c_count == (match spec_baro_altitude(mm) {
        Some(alt) => if spec_overwrites(a.altitude, mm.source, now_ms) && (
        match a.altitude.opt_contents {
            Some(t) => t.1 != spec_mode_c(alt),
            None => false,
        }) {
            0u64
        } else {
            a.mode_c_count
        },
        None => a.mode_c_count,
    })
    &&& b.mode_a_count == (match mm.squawk {
        Some(sq) => if spec_overwrites(a.squawk, mm.source, now_ms) && (
        match a.squawk.opt_contents {
            Some(s) => s != sq,
            None => false,
        }) {
            0u64
        } else {
            a.mode_a_count
        },
        None => a.mode_a_count,
    })
}

/// The effect of folding one message's kinematic fields into a track:
/// geometric altitude, GNSS difference, headings, and speeds, each through
/// the overwrite rule, and nothing else touched. This is exactly the
/// contract of `Aircraft::track_kinematics`.
pub open spec fn spec_kinematics_step(
    a: Aircraft,
    b: Aircraft,
    mm: ModeSMessage,
    now_ms: u128,
) -> bool {
    &&& b == (Aircraft {
        altitude_gnss: b.altitude_gnss,
        gnss_delta: b.gnss_delta,
        heading: b.heading,
        heading_magnetic: b.heading_magnetic,
        speed: b.speed,
        speed_ias: b.speed_ias,
        speed_tas: b.speed_tas,
        ..a
    })
    &&& b.altitude_gnss == (match spec_gnss_altitude(mm) {
        Some(alt) => spec_update(a.altitude_gnss, mm.source, now_ms, alt),
        None => a.altitude_gnss,
    })
    &&& b.gnss_delta == spec_opt_update(a.gnss_delta, mm.source, now_ms, mm.gnss_delta)
    &&& b.heading == (match mm.heading {
        Some((h, HeadingSource::True)) => spec_update(a.heading, mm.source, now_ms, h),
        _ => a.heading,
    })
    &&& b.heading_magnetic == (match mm.heading {
        Some((h, HeadingSource::Magnetic)) => spec_update(a.heading_magnetic, mm.source, now_ms, h),
        _ => a.heading_magnetic,
    })
    &&& b.speed == (match mm.speed {
        Some((v, SpeedSource::GroundSpeed)) => spec_update(a.speed, mm.source, now_ms, v),
        _ => a.speed,
    })
    &&& b.speed_ias == (match mm.speed {
        Some((v, SpeedSource::IAS)) => spec_update(a.speed_ias, mm.source, now_ms, v),
        _ => a.speed_ias,
    })
    &&& b.speed_tas == (match mm.speed {
        Some((v, SpeedSource::TAS)) => spec_update(a.speed_tas, mm.source, now_ms, v),
        _ => a.speed_tas,
    })
}

/// The effect of folding one message's status fields into a track: vertical
/// rate, category, air/ground state, and callsign, each through the
/// overwrite rule, and nothing else touched. This is exactly the contract
/// of `Aircraft::track_status`.
pub open spec fn spec_status_step(
    a: Aircraft,
    b: Aircraft,
    mm: ModeSMessage,
    now_ms: u128,
) -> bool {
    &&& b == (Aircraft {
        vert_rate: b.vert_rate,
        category: b.category,
        airground: b.airground,
        callsign: b.callsign,
        ..a
    })
    &&& b.vert_rate == spec_opt_update(a.vert_rate, mm.source, now_ms, mm.vert_rate)
    &&& b.category == spec_opt_update(a.category, mm.source, now_ms, mm.category)
    &&& b.airground == spec_opt_update(a.airground, mm.source, now_ms, mm.airground)
    &&& (mm.callsign is None ==> b.callsign == a.callsign)
    &&& (mm.callsign matches Some(cs) ==> {
        &&& !spec_overwrites(a.callsign, mm.source, now_ms) ==> b.callsign == a.callsign
        &&& spec_overwrites(a.callsign, mm.source, now_ms) ==> {
            &&& b.callsign.source == mm.source
            &&& b.callsign.updated == now_ms
            &&& b.callsign.stale == now_ms + 60000
            &&& b.callsign.expires == now_ms + 70000
            &&& b.callsign.opt_contents is Some
            &&& b.callsign.opt_contents.unwrap()@ == cs@
        }
    })
}

/// The effect of storing one message's CPR fragment on its side and
/// deriving the geometric altitude when barometric altitude and the GNSS
/// difference are both fresher than it, with nothing else touched. This is
/// exactly the contract of `Aircraft::track_cpr_and_derived`.
pub open spec fn spec_cpr_step(a: Aircraft, b: Aircraft, mm: ModeSMessage, now_ms: u128) -> bool {
    &&& b == (Aircraft {
        cpr_odd: b.cpr_odd,
        cpr_even: b.cpr_even,
        altitude_gnss: b.altitude_gnss,
        ..a
    })
    &&& (mm.raw_cpr is None ==> b.cpr_odd == a.cpr_odd && b.cpr_even == a.cpr_even)
    &&& (mm.raw_cpr matches Some((lat, lon, odd, nucp, t)) ==> {
        &&& odd ==> b.cpr_odd == spec_update(a.cpr_odd, mm.source, now_ms, (t, lat, lon, nucp))
            && b.cpr_even == a.cpr_even
        &&& !odd ==> b.cpr_even == spec_update(a.cpr_even, mm.source, now_ms, (t, lat, lon, nucp))
            && b.cpr_odd == a.cpr_odd
    })
    &&& ({
        let derive = spec_compare(a.altitude, a.altitude_gnss, now_ms) > 0 && spec_compare(
            a.gnss_delta,
            a.altitude_gnss,
            now_ms,
        ) > 0;
        let mid = match (a.altitude.opt_contents, a.gnss_delta.opt_contents) {
            (Some(t), Some(d)) => DataValidityBox {
                opt_contents: Some(((t.0 + d) as i32)),
                ..a.altitude_gnss
            },
            _ => a.altitude_gnss,
        };
        &&& !derive ==> b.altitude_gnss == a.altitude_gnss
        &&& derive ==> b.altitude_gnss == spec_combine(mid, a.altitude, a.gnss_delta)
    })
}

/// The effect of the position machinery on a track whose fragment boxes
/// already hold the message's fragment: a global decode from a fresh
/// matching airborne pair is applied, handed back for the distance gate, or
/// poisons the pair; when the global path yields nothing, a
/// reference-relative decode yields a gated candidate or nothing; a gated
/// candidate leaves the track untouched until the distance is judged. This
/// is exactly the contract of `Aircraft::update_position`.
pub open spec fn spec_position_step(
    a: Aircraft,
    b: Aircraft,
    mm: ModeSMessage,
    now_ms: u128,
    out: PositionOutcome,
) -> bool {
    &&& b == (Aircraft { cpr_even: b.cpr_even, cpr_odd: b.cpr_odd, position: b.position, ..a })
    &&& (mm.raw_cpr is None ==> out is NoPosition)
    &&& (out is NoPosition ==> b == a)
    &&& (out matches PositionOutcome::NeedsDistance(p) ==> pending_wf(p) && b == a)
    &&& (!(out is Discarded) ==> b.cpr_even == a.cpr_even && b.cpr_odd == a.cpr_odd)
    &&& (out is Discarded ==> {
        &&& b.cpr_odd == (DataValidityBox { source: DataSource::Invalid, ..a.cpr_odd })
        &&& b.cpr_even == (DataValidityBox { source: DataSource::Invalid, ..a.cpr_even })
        &&& b.position == (DataValidityBox { source: DataSource::Invalid, ..a.position })
    })
    &&& ((mm.raw_cpr matches Some((_, _, _, _, CprType::Airborne)) && spec_global_ready(a, mm))
        ==> {
        let e = a.cpr_even.opt_contents.unwrap();
        let o = a.cpr_odd.opt_contents.unwrap();
        let fflag = mm.raw_cpr.unwrap().2;
        let s = spec_cpr_airborne(e.1 as int, e.2 as int, o.1 as int, o.2 as int, fflag);
        let nuc = if e.3 <= o.3 {
            e.3
        } else {
            o.3
        };
        &&& ((s matches Err(err) && err == CprError::BadData) ==> out is Discarded)
        &&& (s matches Ok((lat, lon)) ==> {
            &&& !spec_gate_applies(a, mm, nuc) ==> out is Applied && b.position
                == (DataValidityBox {
                opt_contents: Some(
                    ((lat as i64), normalize_lon_spec((lon as i64)), nuc),
                ),
                ..spec_combine(a.position, a.cpr_even, a.cpr_odd)
            })
            &&& spec_gate_applies(a, mm, nuc) ==> (out matches PositionOutcome::NeedsDistance(p)
                && {
                &&& p.global
                &&& !p.surface
                &&& p.odd == mm.raw_cpr.unwrap().2
                &&& p.lat == (lat as i64) && p.lon == (lon as i64) && p.nuc == nuc
                &&& p.range_m == spec_plausible_range(a, now_ms, false)
                &&& p.ref_lat == a.position.opt_contents.unwrap().0
                &&& p.ref_lon == a.position.opt_contents.unwrap().1
                &&& p.limit_m is None
            })
        })
    })
    &&& ((mm.raw_cpr is Some && spec_global_fell_through(a, mm)) ==> {
        let loc = spec_local_cpr(a, mm, now_ms);
        let surf = mm.raw_cpr.unwrap().4 == CprType::Surface;
        &&& (loc is None ==> out is NoPosition)
        &&& (loc matches Some((lat, lon, nuc)) ==> (out matches PositionOutcome::NeedsDistance(p)
            && {
            &&& !p.global
            &&& p.surface == surf
            &&& p.odd == mm.raw_cpr.unwrap().2
            &&& p.lat == lat && p.lon == lon && p.nuc == nuc
            &&& p.range_m == spec_plausible_range(a, now_ms, surf)
            &&& p.ref_lat == a.position.opt_contents.unwrap().0
            &&& p.ref_lon == a.position.opt_contents.unwrap().1
            &&& p.limit_m == Some(50000u64)
        }))
    })
}

/// The effect of judging a pending candidate against the measured distance
/// from its reference: an implausible global candidate poisons the fragment
/// pair and the position; an out-of-range local candidate is dropped with
/// the track untouched; otherwise the candidate becomes the position, under
/// the fragments' combined envelope (global) or the carrying fragment's
/// envelope (local). This is exactly the contract of
/// `Aircraft::apply_position_check`.
pub open spec fn spec_apply_check_step(
    a: Aircraft,
    b: Aircraft,
    p: PendingPosition,
    distance_m: u64,
) -> bool {
    &&& b == (Aircraft { cpr_even: b.cpr_even, cpr_odd: b.cpr_odd, position: b.position, ..a })
    &&& (p.global && distance_m > p.range_m ==> {
        &&& b.cpr_odd == (DataValidityBox { source: DataSource::Invalid, ..a.cpr_odd })
        &&& b.cpr_even == (DataValidityBox { source: DataSource::Invalid, ..a.cpr_even })
        &&& b.position == (DataValidityBox { source: DataSource::Invalid, ..a.position })
    })
    &&& (!(p.global && distance_m > p.range_m) ==> b.cpr_even == a.cpr_even && b.cpr_odd
        == a.cpr_odd)
    &&& (p.global && distance_m <= p.range_m ==> b.position == (DataValidityBox {
        opt_contents: Some((p.lat, normalize_lon_spec(p.lon), p.nuc)),
        ..spec_combine(a.position, a.cpr_even, a.cpr_odd)
    }))
    &&& (!p.global && (distance_m > p.range_m || (p.limit_m matches Some(l) && distance_m > l))
        ==> b == a)
    &&& (!p.global && distance_m <= p.range_m && (p.limit_m matches Some(l) ==> distance_m <= l)
        ==> b.position == (DataValidityBox {
        opt_contents: Some((p.lat, normalize_lon_spec(p.lon), p.nuc)),
        ..spec_envelope_from(
            a.position,
            if p.odd {
                a.cpr_odd
            } else {
                a.cpr_even
            },
        )
    }))
}

/// An implausible jump is always caught: with no recorded speed, an
/// airborne aircraft whose position is at most ten seconds old is allowed
/// well under ten kilometers of travel, so a candidate 1000 km away is
/// rejected when the measured distance is judged.
pub proof fn lemma_position_jump_rejected(a: Aircraft, now_ms: u128)
    requires
        a.position.source != DataSource::Invalid,
        a.position.updated <= now_ms,
        now_ms - a.position.updated <= 10_000,
        a.speed.source == DataSource::Invalid || a.speed.opt_contents is None,
        a.speed_ias.source == DataSource::Invalid || a.speed_ias.opt_contents is None,
        a.speed_tas.source == DataSource::Invalid || a.speed_tas.opt_contents is None,
    ensures
        spec_plausible_range(a, now_ms, false) < 1_000_000,
{
    assert(spec_best_speed(a, false) == 600);
    assert(spec_gate_speed(a, false) == 800);
    assert(spec_gate_age(a, now_ms) <= 10_000);
    assert((spec_gate_age(a, now_ms) + 1000) * 800 * 1852 / 3_600_000 + 500 < 1_000_000)
        by (nonlinear_arith)
        requires
            0 <= spec_gate_age(a, now_ms) <= 10_000,
    ;
}

impl Aircraft {
    /// Envelope order on every field, decoded values within their field
    /// ranges, fragments within 17 bits, and the position within the world.
    pub open spec fn wf(&self) -> bool {
        &&& self.signal_level.wf()
        &&& self.callsign.wf()
        &&& self.altitude.wf()
        &&& self.gnss_delta.wf()
        &&& self.speed.wf()
        &&& self.speed_ias.wf()
        &&& self.speed_tas.wf()
        &&& self.heading.wf()
        &&& self.heading_magnetic.wf()
        &&& self.vert_rate.wf()
        &&& self.squawk.wf()
        &&& self.category.wf()
        &&& self.airground.wf()
        &&& self.cpr_odd.wf()
        &&& self.cpr_even.wf()
        &&& self.position.wf()
        &&& (self.altitude.opt_contents matches Some((alt, _))
            ==> -1200 <= alt <= 126700)
        &&& (self.gnss_delta.opt_contents matches Some(d) ==> -3150 <= d <= 3150)
        &&& (self.cpr_odd.opt_contents matches Some((_, lat, lon, _))
            ==> lat < 131072 && lon < 131072)
        &&& (self.cpr_even.opt_contents matches Some((_, lat, lon, _))
            ==> lat < 131072 && lon < 131072)
        &&& (self.cpr_odd.source != DataSource::Invalid
            ==> self.cpr_odd.stale == self.cpr_odd.updated + 60000
                && self.cpr_odd.expires == self.cpr_odd.updated + 70000)
        &&& (self.cpr_even.source != DataSource::Invalid
            ==> self.cpr_even.stale == self.cpr_even.updated + 60000
                && self.cpr_even.expires == self.cpr_even.updated + 70000)
        &&& (self.position.opt_contents matches Some((lat, lon, _))
            ==> -90_000_000_000 <= lat <= 90_000_000_000
                && -180_000_000_000 <= lon <= 180_000_000_000)
    }

    /// A fresh track for an aircraft first heard now.
    pub fn new(addr: u32, addr_type: AddrType) -> (r: Aircraft)
        ensures
            r.wf(),
            spec_fresh_track(r, addr, addr_type),
            r.addr == addr,
            r.addr_type == addr_type,
            r.messages == 0,
            r.position.source == DataSource::Invalid,
            r.cpr_odd.source == DataSource::Invalid,
            r.cpr_even.source == DataSource::Invalid,
    {
        let r = Aircraft {
            addr,
            addr_type,
            seen: 0,
            messages: 0,
            signal_level: SignalRing::new(),
            callsign: DataValidityBox::new(),
            altitude: DataValidityBox::new(),
            altitude_gnss: DataValidityBox::new(),
            gnss_delta: DataValidityBox::new(),
            speed: DataValidityBox::new(),
            speed_ias: DataValidityBox::new(),
            speed_tas: DataValidityBox::new(),
            heading: DataValidityBox::new(),
            heading_magnetic: DataValidityBox::new(),
            vert_rate: DataValidityBox::new(),
            squawk: DataValidityBox::new(),
            category: DataValidityBox::new(),
            airground: DataValidityBox::new(),
            cpr_odd: DataValidityBox::new(),
            cpr_even: DataValidityBox::new(),
            position: DataValidityBox::new(),
            mode_a_count: 0,
            mode_c_count: 0,
        };
        proof {
            assert(r.signal_level.buffer@ =~= Seq::new(8, |i: int| 0u64));
        }
        r
    }


    /// Fold the bookkeeping and identity fields of one message into this
    /// track: signal ring, last-seen time, message count, address-kind
    /// promotion, barometric altitude with its Mode C correlation reset,
    /// and the squawk with its Mode A correlation reset.
    #[verifier::rlimit(100)]
    #[verifier::spinoff_prover]
    pub fn track_identity(&mut self, mm: &ModeSMessage, now_ms: u128)
        requires
            old(self).wf(),
            now_ms + 70000 <= u128::MAX,
            mm.altitude matches Some((alt, _, _)) ==> -1200 <= alt <= 126700,
        ensures
            final(self).wf(),
            spec_identity_step(*old(self), *final(self), *mm, now_ms),
            final(self).addr_type.spec_rank() <= old(self).addr_type.spec_rank(),
    {
        if mm.signal_power_scaled > 0 {
            self.signal_level.push(mm.signal_power_scaled);
        }

        self.seen = now_ms;
        if self.messages < u64::MAX {
            self.messages = self.messages + 1;
        }

        // The address kind only ever moves toward more direct kinds
        if let Some(new_type) = mm.addrtype {
            if new_type.rank() < self.addr_type.rank() {
                self.addr_type = new_type;
            }
        }

        // Barometric altitude, with its Mode C value; a change of Mode C
        // level restarts the Mode C correlation count
        if let Some((mm_alt, _, AltitudeSource::Baro)) = mm.altitude {
            let mode_c: u32 = if mm_alt < -49 {
                0
            } else {
                ((mm_alt + 49) as u32) / 100
            };
            let changed: bool = match self.altitude.get_opt() {
                Some(t) => t.1 != mode_c,
                None => false,
            };
            let wrote = self.altitude.update(mm.source, now_ms, (mm_alt, mode_c));
            if wrote && changed {
                self.mode_c_count = 0;
            }
        }

        // Squawk; a change restarts the Mode A correlation count
        if let Some(mm_squawk) = mm.squawk {
            let changed: bool = match self.squawk.get_opt() {
                Some(s) => *s != mm_squawk,
                None => false,
            };
            let wrote = self.squawk.update(mm.source, now_ms, mm_squawk);
            if wrote && changed {
                self.mode_a_count = 0;
            }
        }
    }

    /// Fold the kinematic and status fields of one message into this
    /// track: geometric altitude, GNSS difference, headings, speeds,
    /// vertical rate, category, air/ground state, and callsign.
    #[verifier::rlimit(100)]
    #[verifier::spinoff_prover]
    pub fn track_kinematics(&mut self, mm: &ModeSMessage, now_ms: u128)
        requires
            old(self).wf(),
            now_ms + 70000 <= u128::MAX,
            mm.altitude matches Some((alt, _, _)) ==> -1200 <= alt <= 126700,
            mm.gnss_delta matches Some(d) ==> -3150 <= d <= 3150,
        ensures
            final(self).wf(),
            spec_kinematics_step(*old(self), *final(self), *mm, now_ms),
    {
        // Geometric altitude
        if let Some((mm_alt, _, src)) = mm.altitude {
            if src == AltitudeSource::GNSS {
                self.altitude_gnss.update(mm.source, now_ms, mm_alt);
            }
        }

        self.gnss_delta.opt_fn_update(mm.source, now_ms, mm.gnss_delta);

        match mm.heading {
            Some((mm_hdg, HeadingSource::True)) => {
                self.heading.update(mm.source, now_ms, mm_hdg);
            },
            Some((mm_hdg, HeadingSource::Magnetic)) => {
                self.heading_magnetic.update(mm.source, now_ms, mm_hdg);
            },
            None => {},
        }

        match mm.speed {
            Some((mm_spd, SpeedSource::GroundSpeed)) => {
                self.speed.update(mm.source, now_ms, mm_spd);
            },
            Some((mm_spd, SpeedSource::IAS)) => {
                self.speed_ias.update(mm.source, now_ms, mm_spd);
            },
            Some((mm_spd, SpeedSource::TAS)) => {
                self.speed_tas.update(mm.source, now_ms, mm_spd);
            },
            None => {},
        }

    }

    /// Fold the remaining status fields of one message into this track:
    /// vertical rate, category, air/ground state, and callsign.
    #[verifier::rlimit(100)]
    #[verifier::spinoff_prover]
    pub fn track_status(&mut self, mm: &ModeSMessage, now_ms: u128)
        requires
            old(self).wf(),
            now_ms + 70000 <= u128::MAX,
        ensures
            final(self).wf(),
            spec_status_step(*old(self), *final(self), *mm, now_ms),
    {
        self.vert_rate.opt_fn_update(mm.source, now_ms, mm.vert_rate);
        self.category.opt_fn_update(mm.source, now_ms, mm.category);
        self.airground.opt_fn_update(mm.source, now_ms, mm.airground);
        if let Some(cs) = &mm.callsign {
            let copy: Vec<u8> = sub_bytes(cs, 0, cs.len());
            self.callsign.update(mm.source, now_ms, copy);
        }
        proof {
            if mm.callsign is Some && spec_overwrites(old(self).callsign, mm.source, now_ms) {
                assert(self.callsign.opt_contents.unwrap()@ == mm.callsign.unwrap()@);
            }
        }
    }

    /// Store the carried CPR fragment on its side and derive the geometric
    /// altitude when barometric altitude and the GNSS difference are both
    /// fresher than it.
    #[verifier::rlimit(100)]
    #[verifier::spinoff_prover]
    pub fn track_cpr_and_derived(&mut self, mm: &ModeSMessage, now_ms: u128)
        requires
            old(self).wf(),
            now_ms + 70000 <= u128::MAX,
            mm.raw_cpr matches Some((lat, lon, _, _, _)) ==> lat < 131072 && lon < 131072,
        ensures
            final(self).wf(),
            spec_cpr_step(*old(self), *final(self), *mm, now_ms),
    {
        // Store the carried CPR fragment on its side
        if let Some((cpr_lat, cpr_lon, cpr_odd, cpr_nucp, cpr_type)) = mm.raw_cpr {
            if cpr_odd {
                self.cpr_odd.update(mm.source, now_ms, (cpr_type, cpr_lat, cpr_lon, cpr_nucp));
            } else {
                self.cpr_even.update(mm.source, now_ms, (cpr_type, cpr_lat, cpr_lon, cpr_nucp));
            }
        }

        // Derive the geometric altitude when barometric altitude and the
        // GNSS difference are both fresher than it
        if self.altitude.compare_validity(&self.altitude_gnss, now_ms) > 0
            && self.gnss_delta.compare_validity(&self.altitude_gnss, now_ms) > 0 {
            let baro: Option<i32> = match self.altitude.get_opt() {
                Some(t) => Some(t.0),
                None => None,
            };
            let delta: Option<i32> = match self.gnss_delta.get_opt() {
                Some(d) => Some(*d),
                None => None,
            };
            if let (Some(b), Some(d)) = (baro, delta) {
                self.altitude_gnss.direct_set(b + d);
            }
            self.altitude_gnss.combine_validity(&self.altitude, &self.gnss_delta);
        }
    }

    /// The largest plausible distance the aircraft can have travelled since
    /// its last known position, in meters: the best speed estimate padded by
    /// a third and clamped (20 to 150 kt on the surface, at least 200 kt
    /// airborne), over the elapsed time plus one second, plus a base slack
    /// of 100 m on the surface or 500 m airborne.
    pub fn plausible_range_m(&self, now_ms: u128, surface: bool) -> (r: u64)
        requires
            self.wf(),
        ensures
            r == spec_plausible_range(*self, now_ms, surface),
            r >= (if surface { 100u64 } else { 500u64 }),
    {
        let elapsed: u128 = self.position.data_age(now_ms);
        let e: u128 = if elapsed > 0xFFFF_FFFF {
            0xFFFF_FFFF
        } else {
            elapsed
        };

        let base: u64 = match self.speed.get_if_valid() {
            Some(s) => *s as u64,
            None => match self.speed_ias.get_if_valid() {
                Some(s) => (*s as u64) * 4 / 3,
                None => match self.speed_tas.get_if_valid() {
                    Some(s) => (*s as u64) * 4 / 3,
                    None => if surface {
                        100
                    } else {
                        600
                    },
                },
            },
        };

        // current speed estimate plus a third, then clamped
        let mut speed: u64 = base * 4 / 3;
        if surface {
            if speed < 20 {
                speed = 20;
            }
            if speed > 150 {
                speed = 150;
            }
        } else {
            if speed < 200 {
                speed = 200;
            }
        }

        proof {
            assert((e as int + 1000) * (speed as int) * 1852
                < 0x1_0000_0000_0000_0000_0000_0000) by (nonlinear_arith)
                requires
                    0 <= e <= 0xFFFF_FFFFu128,
                    0 < speed <= 0x2_0000_0000_0000u64,
            ;
        }
        let slack: u128 = if surface {
            100
        } else {
            500
        };
        let range: u128 = (e + 1000) * (speed as u128) * 1852 / 3_600_000 + slack;
        if range > 0xFFFF_FFFF_FFFF_FFFF {
            u64::MAX
        } else {
            range as u64
        }
    }

    /// Attempt a global decode from the stored even/odd fragment pair.
    /// Surface pairs need a reference position, which this receiver does not
    /// keep, so they wait for a reference-relative decode instead.
    fn do_global_cpr(&self, mm: &ModeSMessage, now_ms: u128) -> (r: GlobalOutcome)
        requires
            self.wf(),
            mm.raw_cpr is Some,
        ensures
            r matches GlobalOutcome::Gate(lat, lon, _) ==> -90_000_000_000 <= lat
                <= 90_000_000_000 && -180_000_000_000 <= lon <= 180_000_000_000
                && self.position.opt_contents is Some,
            r matches GlobalOutcome::Accept(lat, lon, _) ==> -90_000_000_000 <= lat
                <= 90_000_000_000 && -180_000_000_000 <= lon <= 180_000_000_000,
            mm.raw_cpr matches Some((_, _, _, _, CprType::Surface)) ==> r is TryLater,
            ({
                let a = *self;
                (mm.raw_cpr matches Some((_, _, _, _, CprType::Airborne))
                    && a.cpr_odd.opt_contents is Some && a.cpr_even.opt_contents is Some) ==> {
                    let e = a.cpr_even.opt_contents.unwrap();
                    let o = a.cpr_odd.opt_contents.unwrap();
                    let fflag = mm.raw_cpr.unwrap().2;
                    let s = spec_cpr_airborne(e.1 as int, e.2 as int, o.1 as int, o.2 as int, fflag);
                    let nuc = if e.3 <= o.3 { e.3 } else { o.3 };
                    &&& (s matches Err(err) ==> (err == CprError::BadData
                        ==> r is BadData) && (err == CprError::ZoneMismatch ==> r is TryLater))
                    &&& (s matches Ok((lat, lon)) ==> {
                        &&& !spec_gate_applies(a, *mm, nuc) ==> r == GlobalOutcome::Accept(
                            (lat as i64),
                            (lon as i64),
                            nuc,
                        )
                        &&& spec_gate_applies(a, *mm, nuc) ==> r == GlobalOutcome::Gate(
                            (lat as i64),
                            (lon as i64),
                            nuc,
                        )
                    })
                }
            }),
    {
        let (_, _, fflag, _, mm_type) = match mm.raw_cpr {
            Some(t) => t,
            None => {
                return GlobalOutcome::TryLater;
            },
        };
        let surface: bool = mm_type == CprType::Surface;

        let (odd_lat, odd_lon, odd_nuc): (u32, u32, u32) = match self.cpr_odd.get_opt() {
            Some(t) => (t.1, t.2, t.3),
            None => {
                return GlobalOutcome::TryLater;
            },
        };
        let (even_lat, even_lon, even_nuc): (u32, u32, u32) = match self.cpr_even.get_opt() {
            Some(t) => (t.1, t.2, t.3),
            None => {
                return GlobalOutcome::TryLater;
            },
        };

        // the worse of the two positions
        let nuc: u32 = if even_nuc <= odd_nuc {
            even_nuc
        } else {
            odd_nuc
        };

        if surface {
            // A surface global decode needs a reference location; none is
            // kept here, so wait for a relative decode.
            return GlobalOutcome::TryLater;
        }

        match decode_cpr_airborne(even_lat, even_lon, odd_lat, odd_lon, fflag) {
            Err(CprError::BadData) => GlobalOutcome::BadData,
            Err(CprError::ZoneMismatch) => GlobalOutcome::TryLater,
            Ok((lat, lon)) => {
                // multilateration results skip the plausibility gate
                if mm.source == DataSource::MLAT {
                    return GlobalOutcome::Accept(lat, lon, nuc);
                }
                let gate: bool = self.position.is_valid() && (match self.position.get_opt() {
                    Some(p) => p.2 >= nuc,
                    None => false,
                });
                if gate {
                    GlobalOutcome::Gate(lat, lon, nuc)
                } else {
                    GlobalOutcome::Accept(lat, lon, nuc)
                }
            },
        }
    }

    /// Attempt a reference-relative decode of the fragment carried by this
    /// message, against the current position if it is fresh enough.
    fn do_local_cpr(&self, mm: &ModeSMessage, now_ms: u128) -> (r: Option<(i64, i64, u32)>)
        requires
            self.wf(),
            mm.raw_cpr matches Some((lat, lon, _, _, _)) ==> lat < 131072 && lon < 131072,
            mm.raw_cpr is Some,
        ensures
            ({
                let loc = spec_local_cpr(*self, *mm, now_ms);
                &&& (r is Some <==> loc is Some)
                &&& (r matches Some((lat, lon, nuc)) ==> loc == Some((lat as int, lon as int, nuc)))
            }),
            r matches Some((lat, lon, _)) ==> -90_000_000_000 <= lat <= 90_000_000_000
                && -400_000_000_000 <= lon <= 400_000_000_000
                && self.position.opt_contents is Some,
    {
        let (cpr_lat, cpr_lon, fflag, cpr_nucp, mm_type) = match mm.raw_cpr {
            Some(t) => t,
            None => {
                return None;
            },
        };
        let surface: bool = mm_type == CprType::Surface;

        if !self.position.is_valid_with_constraints(now_ms, 50000, DataSource::Invalid) {
            // No local reference, give up
            return None;
        }
        let (ref_lat, ref_lon, pos_nuc): (i64, i64, u32) = match self.position.get_opt() {
            Some(t) => (t.0, t.1, t.2),
            None => {
                return None;
            },
        };
        let nuc: u32 = if cpr_nucp <= pos_nuc {
            cpr_nucp
        } else {
            pos_nuc
        };

        match decode_cpr_relative(ref_lat, ref_lon, cpr_lat, cpr_lon, fflag, surface) {
            Ok((rlat, rlon)) => Some((rlat, rlon, nuc)),
            Err(_) => None,
        }
    }

    /// Digest the CPR fragment carried by a message: store nothing here (the
    /// fragments were stored by the caller), but try a global decode when a
    /// fresh matching pair exists, fall back to a reference-relative decode,
    /// and either apply the result, poison an implausible pair, or hand back
    /// a candidate that still needs the distance plausibility gate.
    #[verifier::rlimit(100)]
    #[verifier::spinoff_prover]
    pub fn update_position(&mut self, mm: &ModeSMessage, now_ms: u128) -> (r: PositionOutcome)
        requires
            old(self).wf(),
            mm.raw_cpr matches Some((lat, lon, _, _, _)) ==> lat < 131072 && lon < 131072,
        ensures
            final(self).wf(),
            spec_position_step(*old(self), *final(self), *mm, now_ms, r),
    {
        let (mm_lat, mm_lon, mm_odd, mm_nucp, mm_type) = match mm.raw_cpr {
            Some(t) => t,
            None => {
                return PositionOutcome::NoPosition;
            },
        };
        let surface: bool = mm_type == CprType::Surface;

        // Surface: 25 seconds if over 25 kt or speed unknown, 50 otherwise
        let max_elapsed: u128 = if surface {
            match mm.speed {
                Some((spd, _)) => if spd <= 25 {
                    50000
                } else {
                    25000
                },
                None => 25000,
            }
        } else {
            10000
        };

        let cpr_same_type: bool = match (self.cpr_even.get_opt(), self.cpr_odd.get_opt()) {
            (Some(e), Some(o)) => e.0 == o.0,
            _ => false,
        };

        if self.cpr_odd.is_valid() && self.cpr_even.is_valid()
            && self.cpr_odd.same_source(&self.cpr_even) && cpr_same_type
            && self.cpr_odd.time_between(&self.cpr_even) <= max_elapsed {
            match self.do_global_cpr(mm, now_ms) {
                GlobalOutcome::BadData => {
                    // Implausible results: discard both fragments and
                    // disable relative decodes until a fresh pair arrives.
                    self.cpr_even.direct_set_source(DataSource::Invalid);
                    self.cpr_odd.direct_set_source(DataSource::Invalid);
                    self.position.direct_set_source(DataSource::Invalid);
                    return PositionOutcome::Discarded;
                },
                GlobalOutcome::Accept(lat, lon, nuc) => {
                    proof {
                        crate::track::lemma_validity_envelope_ordered(
                            DataValidityBox {
                                source: if self.cpr_even.source.spec_rank()
                                    <= self.cpr_odd.source.spec_rank() {
                                    self.cpr_even.source
                                } else {
                                    self.cpr_odd.source
                                },
                                updated: if self.cpr_even.updated >= self.cpr_odd.updated {
                                    self.cpr_even.updated
                                } else {
                                    self.cpr_odd.updated
                                },
                                stale: if self.cpr_even.stale <= self.cpr_odd.stale {
                                    self.cpr_even.stale
                                } else {
                                    self.cpr_odd.stale
                                },
                                expires: if self.cpr_even.expires <= self.cpr_odd.expires {
                                    self.cpr_even.expires
                                } else {
                                    self.cpr_odd.expires
                                },
                                opt_contents: self.position.opt_contents,
                            },
                            self.cpr_even,
                            self.cpr_odd,
                        );
                    }
                    self.position.combine_validity(&self.cpr_even, &self.cpr_odd);
                    self.position.direct_set((lat, normalize_lon(lon), nuc));
                    return PositionOutcome::Applied;
                },
                GlobalOutcome::Gate(lat, lon, nuc) => {
                    let (ref_lat, ref_lon): (i64, i64) = match self.position.get_opt() {
                        Some(t) => (t.0, t.1),
                        None => (0, 0),
                    };
                    let range_m: u64 = self.plausible_range_m(now_ms, surface);
                    return PositionOutcome::NeedsDistance(PendingPosition {
                        lat,
                        lon,
                        nuc,
                        surface,
                        global: true,
                        odd: mm_odd,
                        ref_lat,
                        ref_lon,
                        range_m,
                        limit_m: None,
                    });
                },
                GlobalOutcome::TryLater => {},
            }
        }

        if let Some((lat, lon, nuc)) = self.do_local_cpr(mm, now_ms) {
            let (ref_lat, ref_lon, pos_nuc): (i64, i64, u32) = match self.position.get_opt() {
                Some(t) => (t.0, t.1, t.2),
                None => (0, 0, 0),
            };
            // The speed gate applies only when the reference is at least as
            // accurate as the candidate.
            let range_m: u64 = if self.position.is_valid() && pos_nuc >= nuc {
                self.plausible_range_m(now_ms, surface)
            } else {
                u64::MAX
            };
            return PositionOutcome::NeedsDistance(PendingPosition {
                lat,
                lon,
                nuc,
                surface,
                global: false,
                odd: mm_odd,
                ref_lat,
                ref_lon,
                range_m,
                limit_m: Some(50000),
            });
        }

        PositionOutcome::NoPosition
    }

    /// Judge a pending candidate against the measured distance from its
    /// reference. A global candidate farther than the plausible range
    /// poisons the fragment pair and the position; a local candidate
    /// farther than its limits is simply dropped; otherwise the position is
    /// applied with the fragments' combined envelope.
    pub fn apply_position_check(&mut self, p: PendingPosition, distance_m: u64)
        requires
            old(self).wf(),
            pending_wf(p),
            old(self).cpr_odd.updated <= old(self).cpr_even.stale,
            old(self).cpr_even.updated <= old(self).cpr_odd.stale,
        ensures
            final(self).wf(),
            spec_apply_check_step(*old(self), *final(self), p, distance_m),
    {
        if p.global {
            if distance_m > p.range_m {
                // Implausible: this is bad data. Discard both fragments and
                // the position so they cannot seed later relative decodes.
                self.cpr_even.direct_set_source(DataSource::Invalid);
                self.cpr_odd.direct_set_source(DataSource::Invalid);
                self.position.direct_set_source(DataSource::Invalid);
                return;
            }
            proof {
                crate::track::lemma_validity_envelope_ordered(
                    DataValidityBox {
                        source: if old(self).cpr_even.source.spec_rank()
                            <= old(self).cpr_odd.source.spec_rank() {
                            old(self).cpr_even.source
                        } else {
                            old(self).cpr_odd.source
                        },
                        updated: if old(self).cpr_even.updated >= old(self).cpr_odd.updated {
                            old(self).cpr_even.updated
                        } else {
                            old(self).cpr_odd.updated
                        },
                        stale: if old(self).cpr_even.stale <= old(self).cpr_odd.stale {
                            old(self).cpr_even.stale
                        } else {
                            old(self).cpr_odd.stale
                        },
                        expires: if old(self).cpr_even.expires <= old(self).cpr_odd.expires {
                            old(self).cpr_even.expires
                        } else {
                            old(self).cpr_odd.expires
                        },
                        opt_contents: old(self).position.opt_contents,
                    },
                    old(self).cpr_even,
                    old(self).cpr_odd,
                );
            }
            self.position.combine_validity(&self.cpr_even, &self.cpr_odd);
            self.position.direct_set((p.lat, normalize_lon(p.lon), p.nuc));
            return;
        }

        // Reference-relative candidate: hard distance limit first
        if let Some(limit) = p.limit_m {
            if distance_m > limit {
                return;
            }
        }
        if distance_m > p.range_m {
            return;
        }
        if p.odd {
            self.position.copy_validity_from(&self.cpr_odd);
        } else {
            self.position.copy_validity_from(&self.cpr_even);
        }
        self.position.direct_set((p.lat, normalize_lon(p.lon), p.nuc));
    }
}

/// Possible outcomes of a global decode attempt: an accepted position, a
/// position that still needs the distance gate, an impossible pair, or
/// nothing usable yet.
enum GlobalOutcome {
    Accept(i64, i64, u32),
    Gate(i64, i64, u32),
    BadData,
    TryLater,
}

/// A longitude within one extra wrap, folded into [-180, 180] degrees
/// (nanodegrees).
pub open spec fn normalize_lon_spec(lon: i64) -> i64 {
    if lon > 180_000_000_000 {
        (lon - 360_000_000_000) as i64
    } else if lon < -180_000_000_000 {
        (lon + 360_000_000_000) as i64
    } else {
        lon
    }
}

/// Fold a longitude within one extra wrap into [-180, 180] degrees.
pub fn normalize_lon(lon: i64) -> (r: i64)
    requires
        -400_000_000_000 <= lon <= 400_000_000_000,
    ensures
        r == normalize_lon_spec(lon),
        -180_000_000_000 <= r <= 180_000_000_000,
{
    if lon > 180_000_000_000 {
        lon - 360_000_000_000
    } else if lon < -180_000_000_000 {
        lon + 360_000_000_000
    } else {
        lon
    }
}

/// The full fold of one message into a track: starting from `start`, the
/// identity, kinematic, status, and fragment-storage steps in order, then,
/// when the message carries a fragment, the position step. `pending` is the
/// candidate the position step left for the distance gate, or nothing. Each
/// step relation is the exact contract of the corresponding `Aircraft`
/// method, so this pins `post` to the composition of all of them.
pub open spec fn spec_track_pipeline(
    start: Aircraft,
    post: Aircraft,
    mm: ModeSMessage,
    now_ms: u128,
    pending: Option<PendingPosition>,
) -> bool {
    exists|a1: Aircraft, a2: Aircraft, a3: Aircraft|
        #![trigger spec_identity_step(start, a1, mm, now_ms), spec_kinematics_step(a1, a2, mm, now_ms), spec_status_step(a2, a3, mm, now_ms)]
        {
            &&& spec_identity_step(start, a1, mm, now_ms)
            &&& spec_kinematics_step(a1, a2, mm, now_ms)
            &&& spec_status_step(a2, a3, mm, now_ms)
            &&& (exists|a4: Aircraft|
                #![trigger spec_cpr_step(a3, a4, mm, now_ms)]
                {
                    &&& spec_cpr_step(a3, a4, mm, now_ms)
                    &&& (mm.raw_cpr is Some ==> exists|out: PositionOutcome|
                        #![trigger spec_position_step(a4, post, mm, now_ms, out)]
                        spec_position_step(a4, post, mm, now_ms, out) && pending == (match out {
                            PositionOutcome::NeedsDistance(p) => Some(p),
                            _ => None::<PendingPosition>,
                        }))
                    &&& (mm.raw_cpr is None ==> post == a4 && pending is None)
                })
        }
}

/// The pipeline relation as `Tracker::update_from_message` reports it: a
/// pending candidate is handed back together with the index of the track it
/// belongs to.
pub open spec fn spec_pipeline_result(
    start: Aircraft,
    post: Aircraft,
    mm: ModeSMessage,
    now_ms: u128,
    r: Option<(usize, PendingPosition)>,
    i: int,
) -> bool {
    match r {
        Some(pr) => pr.0 as int == i && spec_track_pipeline(start, post, mm, now_ms, Some(pr.1)),
        None => spec_track_pipeline(start, post, mm, now_ms, None::<PendingPosition>),
    }
}

/// The registry of aircraft tracks, keyed by address, and the entry point
/// that folds one decoded message into it.
pub struct Tracker {
    pub aircraft: Vec<Aircraft>,
}

impl Tracker {
    /// Every track is well formed.
    pub open spec fn wf(&self) -> bool {
        forall|i: int| 0 <= i < self.aircraft@.len() ==> (#[trigger] self.aircraft@[i]).wf()
    }

    /// An empty registry.
    pub fn new() -> (r: Tracker)
        ensures
            r.wf(),
            r.aircraft@.len() == 0,
    {
        Tracker { aircraft: Vec::new() }
    }

    /// The index of the track with the given address.
    fn find(&self, addr: u32) -> (r: Option<usize>)
        ensures
            r matches Some(i) ==> i < self.aircraft@.len() && self.aircraft@[i as int].addr
                == addr,
            r is None ==> forall|i: int| 0 <= i < self.aircraft@.len()
                ==> (#[trigger] self.aircraft@[i]).addr != addr,
    {
        let mut i: usize = 0;
        while i < self.aircraft.len()
            invariant
                i <= self.aircraft@.len(),
                forall|j: int| 0 <= j < i ==> (#[trigger] self.aircraft@[j]).addr != addr,
            decreases self.aircraft@.len() - i,
        {
            if self.aircraft[i].addr == addr {
                return Some(i);
            }
            i += 1;
        }
        None
    }

    /// Fold one decoded message into the track for its address, creating
    /// the track on first contact. Every carried field updates its
    /// validity-enveloped box under the overwrite rule; the address kind
    /// only ever moves toward more direct kinds; and a carried CPR fragment
    /// drives the position machinery, whose distance gate, if one is still
    /// owed, is handed back with the index of the track it belongs to.
    #[verifier::rlimit(100)]
    #[verifier::spinoff_prover]
    pub fn update_from_message(&mut self, mm: &ModeSMessage) -> (r: Option<(
        usize,
        PendingPosition,
    )>)
        requires
            old(self).wf(),
            mm.wf(),
            mm.altitude matches Some((alt, _, _)) ==> -1200 <= alt <= 126700,
            mm.gnss_delta matches Some(d) ==> -3150 <= d <= 3150,
            mm.raw_cpr matches Some((lat, lon, _, _, _)) ==> lat < 131072 && lon < 131072,
            old(self).aircraft@.len() < usize::MAX,
        ensures
            final(self).wf(),
            old(self).aircraft@.len() <= final(self).aircraft@.len()
                <= old(self).aircraft@.len() + 1,
            r matches Some((i, p)) ==> i < final(self).aircraft@.len() && pending_wf(p),
            ({
                let pre = old(self).aircraft@;
                let post = final(self).aircraft@;
                let now = mm.timestamp_msg / 12000;
                exists|i: int| {
                    &&& 0 <= i < post.len()
                    &&& (#[trigger] post[i]).addr == mm.addr
                    &&& post[i].seen == now
                    &&& (i < pre.len() ==> pre[i].addr == mm.addr
                        && (pre[i].messages < u64::MAX ==> post[i].messages == pre[i].messages
                        + 1)
                        && post[i].addr_type.spec_rank() <= pre[i].addr_type.spec_rank()
                        && spec_pipeline_result(pre[i], post[i], *mm, now as u128, r, i))
                    &&& (i >= pre.len() ==> post.len() == pre.len() + 1 && post[i].messages == 1
                        && (exists|t: Aircraft| #[trigger] spec_fresh_track(
                            t,
                            mm.addr,
                            spec_initial_addr_type(*mm),
                        ) && spec_pipeline_result(t, post[i], *mm, now as u128, r, i)))
                    &&& (forall|j: int| 0 <= j < pre.len() && j != i ==> post[j] == pre[j])
                }
            }),
    {
        // Milliseconds of the canonical sample clock
        let now_ms: u128 = (mm.timestamp_msg / 12_000) as u128;

        // Look up the track, or create one on first contact
        let idx: usize = match self.find(mm.addr) {
            Some(i) => i,
            None => {
                let addr_type = match mm.addrtype {
                    Some(t) => t,
                    None => AddrType::Unknown,
                };
                let fresh = Aircraft::new(mm.addr, addr_type);
                self.aircraft.push(fresh);
                self.aircraft.len() - 1
            },
        };
        let ghost start = self.aircraft@[idx as int];

        self.aircraft[idx].track_identity(mm, now_ms);
        let ghost s1 = self.aircraft@[idx as int];
        self.aircraft[idx].track_kinematics(mm, now_ms);
        let ghost s2 = self.aircraft@[idx as int];
        self.aircraft[idx].track_status(mm, now_ms);
        let ghost s3 = self.aircraft@[idx as int];
        self.aircraft[idx].track_cpr_and_derived(mm, now_ms);
        let ghost s4 = self.aircraft@[idx as int];

        // A carried CPR fragment drives the position machinery
        if mm.raw_cpr.is_some() {
            let outcome = self.aircraft[idx].update_position(mm, now_ms);
            proof {
                let post = self.aircraft@[idx as int];
                assert(spec_identity_step(start, s1, *mm, now_ms));
                assert(spec_kinematics_step(s1, s2, *mm, now_ms));
                assert(spec_status_step(s2, s3, *mm, now_ms));
                assert(spec_cpr_step(s3, s4, *mm, now_ms));
                assert(spec_position_step(s4, post, *mm, now_ms, outcome));
                assert(spec_track_pipeline(start, post, *mm, now_ms, (match outcome {
                    PositionOutcome::NeedsDistance(p) => Some(p),
                    _ => None::<PendingPosition>,
                })));
            }
            match outcome {
                PositionOutcome::NeedsDistance(p) => {
                    return Some((idx, p));
                },
                _ => {
                    return None;
                },
            }
        }

        proof {
            assert(spec_identity_step(start, s1, *mm, now_ms));
            assert(spec_kinematics_step(s1, s2, *mm, now_ms));
            assert(spec_status_step(s2, s3, *mm, now_ms));
            assert(spec_cpr_step(s3, s4, *mm, now_ms));
            assert(spec_track_pipeline(start, s4, *mm, now_ms, None::<PendingPosition>));
        }
        None
    }

    /// Judge a pending candidate for the given track against the measured
    /// distance from its reference.
    pub fn apply_position_check(&mut self, idx: usize, p: PendingPosition, distance_m: u64)
        requires
            old(self).wf(),
            idx < old(self).aircraft@.len(),
            pending_wf(p),
            old(self).aircraft@[idx as int].cpr_odd.updated
                <= old(self).aircraft@[idx as int].cpr_even.stale,
            old(self).aircraft@[idx as int].cpr_even.updated
                <= old(self).aircraft@[idx as int].cpr_odd.stale,
        ensures
            final(self).wf(),
            final(self).aircraft@.len() == old(self).aircraft@.len(),
            spec_apply_check_step(
                old(self).aircraft@[idx as int],
                final(self).aircraft@[idx as int],
                p,
                distance_m,
            ),
            forall|j: int| 0 <= j < old(self).aircraft@.len() && j != idx
                ==> final(self).aircraft@[j] == old(self).aircraft@[j],
    {
        let a = &mut self.aircraft[idx];
        a.apply_position_check(p, distance_m);
    }
}

} // verus!
