use vstd::prelude::*;

use crate::mode_s::MsgLen;

verus! {

/// Flag bit marking an address that is not a 24-bit ICAO identity.
pub const MODES_NON_ICAO_ADDRESS: u32 = 0x0100_0000;

/// Where a piece of track data came from, ordered from least to most
/// trusted: Invalid < MLAT < ModeS < ModeSChecked < TISB < ADSB.
#[derive(Clone, Copy, Debug, PartialEq, Eq, Structural)]
pub enum DataSource {
    Invalid,
    MLAT,
    ModeS,
    ModeSChecked,
    TISB,
    ADSB,
}

impl DataSource {
    /// Position of this source in the trust order.
    pub open spec fn spec_rank(self) -> int {
        match self {
            DataSource::Invalid => 0,
            DataSource::MLAT => 1,
            DataSource::ModeS => 2,
            DataSource::ModeSChecked => 3,
            DataSource::TISB => 4,
            DataSource::ADSB => 5,
        }
    }

    /// Position of this source in the trust order, for comparisons.
    pub fn rank(&self) -> (r: u8)
        ensures
            r == self.spec_rank(),
    {
        match self {
            DataSource::Invalid => 0,
            DataSource::MLAT => 1,
            DataSource::ModeS => 2,
            DataSource::ModeSChecked => 3,
            DataSource::TISB => 4,
            DataSource::ADSB => 5,
        }
    }
}

impl Default for DataSource {
    fn default() -> (r: Self)
        ensures
            r == DataSource::Invalid,
    {
        DataSource::Invalid
    }
}

/// How an aircraft's address was conveyed, ordered from most to least
/// direct; a track's address type only ever moves toward more direct kinds.
#[allow(non_camel_case_types)]
#[derive(Clone, Copy, Debug, PartialEq, Eq, Structural)]
pub enum AddrType {
    ADSB_ICAO,
    ADSB_ICAO_NT,
    ADSR_ICAO,
    TISB_ICAO,
    ADSB_Other,
    ADSR_Other,
    TISB_Trackfile,
    TISB_Other,
    Unknown,
}

impl AddrType {
    /// Position of this kind in the directness order (smaller is better).
    pub open spec fn spec_rank(self) -> int {
        match self {
            AddrType::ADSB_ICAO => 0,
            AddrType::ADSB_ICAO_NT => 1,
            AddrType::ADSR_ICAO => 2,
            AddrType::TISB_ICAO => 3,
            AddrType::ADSB_Other => 4,
            AddrType::ADSR_Other => 5,
            AddrType::TISB_Trackfile => 6,
            AddrType::TISB_Other => 7,
            AddrType::Unknown => 8,
        }
    }

    /// Position of this kind in the directness order, for comparisons.
    pub fn rank(&self) -> (r: u8)
        ensures
            r == self.spec_rank(),
    {
        match self {
            AddrType::ADSB_ICAO => 0,
            AddrType::ADSB_ICAO_NT => 1,
            AddrType::ADSR_ICAO => 2,
            AddrType::TISB_ICAO => 3,
            AddrType::ADSB_Other => 4,
            AddrType::ADSR_Other => 5,
            AddrType::TISB_Trackfile => 6,
            AddrType::TISB_Other => 7,
            AddrType::Unknown => 8,
        }
    }
}

impl Default for AddrType {
    fn default() -> (r: Self)
        ensures
            r == AddrType::Unknown,
    {
        AddrType::Unknown
    }
}

/// Whether an altitude is barometric or geometric.
#[derive(Clone, Copy, Debug, PartialEq, Eq, Structural)]
pub enum AltitudeSource {
    Baro,
    GNSS,
}

/// Unit of a decoded altitude. Meters are signalled but not decoded.
#[derive(Clone, Copy, Debug, PartialEq, Eq, Structural)]
pub enum AltitudeUnit {
    Feet,
    Meters,
}

/// Air/ground state reported by a message.
#[derive(Clone, Copy, Debug, PartialEq, Eq, Structural)]
pub enum AirGround {
    Uncertain,
    Ground,
    Airborne,
}

impl Default for AirGround {
    fn default() -> (r: Self)
        ensures
            r == AirGround::Uncertain,
    {
        AirGround::Uncertain
    }
}

/// Whether a heading is relative to true or magnetic north.
#[derive(Clone, Copy, Debug, PartialEq, Eq, Structural)]
pub enum HeadingSource {
    True,
    Magnetic,
}

/// Which speed a message reports.
#[derive(Clone, Copy, Debug, PartialEq, Eq, Structural)]
pub enum SpeedSource {
    GroundSpeed,
    IAS,
    TAS,
}

/// Whether a CPR fragment encodes a surface or an airborne position.
#[derive(Clone, Copy, Debug, PartialEq, Eq, Structural)]
pub enum CprType {
    Surface,
    Airborne,
}

/// Interpretation of the Source Integrity Level.
#[derive(Clone, Copy, Debug, PartialEq, Eq, Structural)]
pub enum SilType {
    SilPerSample,
    SilPerHour,
}

/// Which altitude a target state altitude refers to.
#[derive(Clone, Copy, Debug, PartialEq, Eq, Structural)]
pub enum TssAltitudeType {
    MCP,
    FMS,
}

/// Whether the reported angle is a track angle or a heading.
#[derive(Clone, Copy, Debug, PartialEq, Eq, Structural)]
pub enum AngleType {
    Track,
    Heading,
}

/// Target state and status (DF17/18, type 29, subtype 1). The barometric
/// setting is kept as its raw 9-bit field (0 means absent); consumers scale
/// it to millibars.
#[derive(Clone, Copy, Debug, PartialEq, Eq)]
pub struct TargetStateStatus {
    pub mode_valid: bool,
    pub mode_autopilot: bool,
    pub mode_vnav: bool,
    pub mode_alt_hold: bool,
    pub mode_approach: bool,
    pub acas_operational: bool,
    pub nac_p: u8,
    pub nic_baro: bool,
    pub sil: u8,
    pub sil_type: SilType,
    pub altitude: Option<(u32, TssAltitudeType)>,
    pub baro_raw: u32,
    pub heading: Option<u32>,
}

/// Aircraft operational status (DF17/18, type 31).
#[derive(Clone, Copy, Debug, PartialEq, Eq, Structural)]
pub struct OperationalStatus {
    pub version: u8,
    pub om_acas_ra: bool,
    pub om_ident: bool,
    pub om_atc: bool,
    pub om_saf: bool,
    pub om_sda: u8,
    pub cc_acas: bool,
    pub cc_cdti: bool,
    pub cc_1090_in: bool,
    pub cc_arv: bool,
    pub cc_ts: bool,
    pub cc_tc: u8,
    pub cc_uat_in: bool,
    pub cc_poa: bool,
    pub cc_b2_low: bool,
    pub cc_nac_v: u8,
    pub cc_nic_supp_c: bool,
    pub cc_lw_valid: bool,
    pub cc_lw: u32,
    pub cc_antenna_offset: u32,
    pub nic_supp_a: bool,
    pub nac_p: u8,
    pub gva: u8,
    pub sil: u8,
    pub nic_baro: bool,
    pub track_angle: AngleType,
    pub hrd: HeadingSource,
    pub sil_type: SilType,
}

impl Default for OperationalStatus {
    fn default() -> (r: Self)
        ensures
            r == OperationalStatus::spec_default(),
    {
        OperationalStatus {
            version: 0,
            om_acas_ra: false,
            om_ident: false,
            om_atc: false,
            om_saf: false,
            om_sda: 0,
            cc_acas: false,
            cc_cdti: false,
            cc_1090_in: false,
            cc_arv: false,
            cc_ts: false,
            cc_tc: 0,
            cc_uat_in: false,
            cc_poa: false,
            cc_b2_low: false,
            cc_nac_v: 0,
            cc_nic_supp_c: false,
            cc_lw_valid: false,
            cc_lw: 0,
            cc_antenna_offset: 0,
            nic_supp_a: false,
            nac_p: 0,
            gva: 0,
            sil: 0,
            nic_baro: false,
            track_angle: AngleType::Heading,
            hrd: HeadingSource::True,
            sil_type: SilType::SilPerHour,
        }
    }
}

impl OperationalStatus {
    /// The all-clear operational status that decoding starts from.
    pub open spec fn spec_default() -> OperationalStatus {
        OperationalStatus {
            version: 0,
            om_acas_ra: false,
            om_ident: false,
            om_atc: false,
            om_saf: false,
            om_sda: 0,
            cc_acas: false,
            cc_cdti: false,
            cc_1090_in: false,
            cc_arv: false,
            cc_ts: false,
            cc_tc: 0,
            cc_uat_in: false,
            cc_poa: false,
            cc_b2_low: false,
            cc_nac_v: 0,
            cc_nic_supp_c: false,
            cc_lw_valid: false,
            cc_lw: 0,
            cc_antenna_offset: 0,
            nic_supp_a: false,
            nac_p: 0,
            gva: 0,
            sil: 0,
            nic_baro: false,
            track_angle: AngleType::Heading,
            hrd: HeadingSource::True,
            sil_type: SilType::SilPerHour,
        }
    }
}

/// One demodulated Mode S message with everything decoded from it. Signal
/// strength is kept as the scaled sum of squared magnitudes over
/// `signal_len` samples; full-scale power corresponds to
/// `65535 * 65535 * signal_len`.
pub struct ModeSMessage {
    /// Short (7-byte) or long (14-byte) frame.
    pub msglen: MsgLen,
    /// The raw frame, exactly 7 or 14 bytes.
    pub msg: Vec<u8>,
    /// Sum of squared magnitude samples over the frame body.
    pub signal_power_scaled: u64,
    /// Number of samples the power sum ranges over.
    pub signal_len: usize,
    /// Score from `score_modes_message`.
    pub score: i32,
    /// Sample timestamp of the frame start, in 12 MHz ticks.
    pub timestamp_msg: u64,
    /// Whether the message came from a remote receiver.
    pub remote: bool,
    /// Downlink Format (bits 1..=5).
    pub msgtype: u8,
    /// Message length in bits.
    pub msgbits: usize,
    /// CRC syndrome of the frame (zero when CRC-valid).
    pub crc: u32,
    /// Interrogator code, for all-call replies.
    pub iid: u32,
    /// Trust tier of this message.
    pub source: DataSource,
    /// Best-known sender address.
    pub addr: u32,
    /// Kind of the sender address, when known.
    pub addrtype: Option<AddrType>,
    /// Address announced field.
    pub aa: u32,
    /// Altitude code field.
    pub ac: u32,
    /// Capability field.
    pub ca: u32,
    /// Cross-link capability bit.
    pub cc: u32,
    /// Control field (DF18).
    pub cf: u32,
    /// Downlink request field.
    pub dr: u32,
    /// Flight status field.
    pub fs: u32,
    /// Identity (squawk) code field.
    pub id: u32,
    /// Control, ELM bit.
    pub ke: u32,
    /// Number of D-segment field.
    pub nd: u32,
    /// Reply information field.
    pub ri: u32,
    /// Sensitivity level field.
    pub sl: u32,
    /// Utility message field.
    pub um: u32,
    /// Vertical status bit.
    pub vs: u32,
    /// Comm-B message payload.
    pub mb: Vec<u8>,
    /// Comm-D message payload.
    pub md: Vec<u8>,
    /// Extended squitter payload.
    pub me: Vec<u8>,
    /// ACAS message payload.
    pub mv: Vec<u8>,
    /// Extended squitter type code.
    pub metype: u8,
    /// Extended squitter subtype code.
    pub mesub: u8,
    /// Decoded altitude, unit, and whether barometric or geometric.
    pub altitude: Option<(i32, AltitudeUnit, AltitudeSource)>,
    /// Air/ground state.
    pub airground: Option<AirGround>,
    /// Decoded squawk code.
    pub squawk: Option<u32>,
    /// Eight AIS characters of callsign, as ASCII bytes.
    pub callsign: Option<Vec<u8>>,
    /// Emitter category byte.
    pub category: Option<u8>,
    /// Decoded heading in degrees and its reference.
    pub heading: Option<(i32, HeadingSource)>,
    /// Raw east and north ground-speed components in knots, signed; the
    /// heading angle between them is derived outside the decoder.
    pub velocity_ew_ns: Option<(i32, i32)>,
    /// Decoded speed in knots and which speed it is.
    pub speed: Option<(u32, SpeedSource)>,
    /// Vertical rate in ft/min and its altitude reference.
    pub vert_rate: Option<(i32, AltitudeSource)>,
    /// GNSS minus barometric altitude, in feet.
    pub gnss_delta: Option<i32>,
    /// Raw CPR fragment: latitude, longitude, odd flag, NUCp, kind.
    pub raw_cpr: Option<(u32, u32, bool, u32, CprType)>,
    /// Decoded position in nanodegrees, and whether it came from a
    /// reference-relative decode.
    pub decoded_cpr: Option<(i64, i64, bool)>,
    /// Target state and status.
    pub tss: Option<TargetStateStatus>,
    /// Operational status.
    pub opstatus: Option<OperationalStatus>,
}

impl ModeSMessage {
    /// Structural invariant: the frame length matches its kind and the
    /// payload copies are their fixed sizes.
    pub open spec fn wf(&self) -> bool {
        &&& self.msg@.len() == (if self.msglen == MsgLen::Long { 14int } else { 7int })
        &&& self.mb@.len() == 7
        &&& self.md@.len() == 10
        &&& self.me@.len() == 7
        &&& self.mv@.len() == 7
    }

    /// The raw frame bytes.
    pub fn buffer(&self) -> (r: &Vec<u8>)
        ensures
            r@ == self.msg@,
    {
        &self.msg
    }

    /// A blank message around a raw frame, everything still undecoded.
    pub fn from_raw(msglen: MsgLen, msg: Vec<u8>) -> (r: ModeSMessage)
        requires
            msg@.len() == (if msglen == MsgLen::Long { 14int } else { 7int }),
        ensures
            r.wf(),
            r.undecoded(),
            r.msglen == msglen,
            r.msg@ == msg@,
            r.score == -2,
            r.signal_power_scaled == 0,
            r.signal_len == 0,
            r.timestamp_msg == 0,
            r.remote == false,
            r.altitude is None,
            r.airground is None,
            r.squawk is None,
            r.callsign is None,
            r.category is None,
            r.heading is None,
            r.velocity_ew_ns is None,
            r.speed is None,
            r.vert_rate is None,
            r.gnss_delta is None,
            r.raw_cpr is None,
            r.decoded_cpr is None,
            r.addrtype is None,
            r.tss is None,
            r.opstatus is None,
            r.source == DataSource::Invalid,
    {
        ModeSMessage {
            msglen,
            msg,
            signal_power_scaled: 0,
            signal_len: 0,
            score: -2,
            timestamp_msg: 0,
            remote: false,
            msgtype: 0,
            msgbits: 0,
            crc: 0,
            iid: 0,
            source: DataSource::Invalid,
            addr: 0,
            addrtype: None,
            aa: 0,
            ac: 0,
            ca: 0,
            cc: 0,
            cf: 0,
            dr: 0,
            fs: 0,
            id: 0,
            ke: 0,
            nd: 0,
            ri: 0,
            sl: 0,
            um: 0,
            vs: 0,
            mb: zero_bytes(7),
            md: zero_bytes(10),
            me: zero_bytes(7),
            mv: zero_bytes(7),
            metype: 0,
            mesub: 0,
            altitude: None,
            airground: None,
            squawk: None,
            callsign: None,
            category: None,
            heading: None,
            velocity_ew_ns: None,
            speed: None,
            vert_rate: None,
            gnss_delta: None,
            raw_cpr: None,
            decoded_cpr: None,
            tss: None,
            opstatus: None,
        }
    }
}

/// A vector of `n` zero bytes.
pub fn zero_bytes(n: usize) -> (r: Vec<u8>)
    ensures
        r@.len() == n,
        forall|i: int| 0 <= i < n ==> r@[i] == 0u8,
{
    let mut v: Vec<u8> = Vec::new();
    let mut i: usize = 0;
    while i < n
        invariant
            i <= n,
            v@.len() == i,
            forall|j: int| 0 <= j < i ==> v@[j] == 0u8,
        decreases n - i,
    {
        v.push(0);
        i += 1;
    }
    v
}

/// Copy `count` bytes of `src` starting at `from`.
pub fn sub_bytes(src: &Vec<u8>, from: usize, count: usize) -> (r: Vec<u8>)
    requires
        from + count <= src@.len(),
    ensures
        r@ == src@.subrange(from as int, (from + count) as int),
{
    let srclen: usize = src.len();
    let mut v: Vec<u8> = Vec::new();
    let mut i: usize = 0;
    while i < count
        invariant
            i <= count,
            from + count <= srclen,
            srclen == src@.len(),
            v@.len() == i,
            forall|j: int| 0 <= j < i ==> v@[j] == src@[from + j],
        decreases count - i,
    {
        let b: u8 = src[from + i];
        v.push(b);
        i += 1;
    }
    assert(v@ =~= src@.subrange(from as int, (from + count) as int));
    v
}

impl ModeSMessage {
    /// No decoded field has been filled in yet: the state a message is in
    /// when it leaves the demodulator.
    pub open spec fn undecoded(&self) -> bool {
        &&& self.altitude is None
        &&& self.airground is None
        &&& self.squawk is None
        &&& self.callsign is None
        &&& self.category is None
        &&& self.heading is None
        &&& self.velocity_ew_ns is None
        &&& self.speed is None
        &&& self.vert_rate is None
        &&& self.gnss_delta is None
        &&& self.raw_cpr is None
        &&& self.decoded_cpr is None
        &&& self.addrtype is None
        &&& self.tss is None
        &&& self.opstatus is None
        &&& self.source == DataSource::Invalid
        &&& self.metype == 0
        &&& self.mesub == 0
        &&& self.iid == 0
        &&& self.addr == 0
        &&& self.aa == 0
        &&& self.ac == 0
        &&& self.ca == 0
        &&& self.cc == 0
        &&& self.cf == 0
        &&& self.dr == 0
        &&& self.fs == 0
        &&& self.id == 0
        &&& self.ke == 0
        &&& self.nd == 0
        &&& self.ri == 0
        &&& self.sl == 0
        &&& self.um == 0
        &&& self.vs == 0
    }
}

} // verus!
