use vstd::prelude::*;
use vstd::arithmetic::power2::lemma2_to64;

use crate::crc::{modes_checksum, spec_checksum};
use crate::decode_es::{decode_extended_squitter, spec_es_cf, spec_es_effect};
use crate::icao_filter::{
    icao_filter_add, icao_filter_test, is_full, seq_contains, spec_filter_sees, IcaoFilter,
};
use crate::mode_ac::{mode_a_to_mode_c, spec_mode_a_invalid, spec_mode_a_to_mode_c};
use crate::mode_s::{
    getbit, getbits, lemma_getbits_bound, spec_aa, spec_all_zero, spec_df, spec_getbit,
    spec_getbits, spec_msg_bits, MsgLen, MAGIC_MLAT_TIMESTAMP,
};
use crate::types::{
    sub_bytes, AddrType, AirGround, AltitudeSource, AltitudeUnit, DataSource, ModeSMessage,
    MODES_NON_ICAO_ADDRESS,
};

verus! {

/// Remap of a 13-bit identity field to the Gillham bit layout that the Mode
/// A/C decoder expects: each transponder bit moves to its Gray-code slot.
pub open spec fn spec_decode_id13(id13_field: u32) -> u32 {
    (((((((((((if id13_field & 0x1000 != 0 { 0x0010u32 } else { 0u32 })  // C1
        | (if id13_field & 0x0800 != 0 { 0x1000u32 } else { 0u32 }))  // A1
        | (if id13_field & 0x0400 != 0 { 0x0020u32 } else { 0u32 }))  // C2
        | (if id13_field & 0x0200 != 0 { 0x2000u32 } else { 0u32 }))  // A2
        | (if id13_field & 0x0100 != 0 { 0x0040u32 } else { 0u32 }))  // C4
        | (if id13_field & 0x0080 != 0 { 0x4000u32 } else { 0u32 }))  // A4
        | (if id13_field & 0x0020 != 0 { 0x0100u32 } else { 0u32 }))  // B1
        | (if id13_field & 0x0010 != 0 { 0x0001u32 } else { 0u32 }))  // D1 or Q
        | (if id13_field & 0x0008 != 0 { 0x0200u32 } else { 0u32 }))  // B2
        | (if id13_field & 0x0004 != 0 { 0x0002u32 } else { 0u32 }))  // D2
        | (if id13_field & 0x0002 != 0 { 0x0400u32 } else { 0u32 }))  // B4
        | (if id13_field & 0x0001 != 0 { 0x0004u32 } else { 0u32 })  // D4
}

/// Convert a 13-bit identity field (squawk) to its Gillham layout. Bit 6
/// (the X or M bit) is deliberately dropped.
pub fn decode_id13_field(id13_field: u32) -> (r: u32)
    ensures
        r == spec_decode_id13(id13_field),
{
    (if id13_field & 0x1000 != 0 { 0x0010u32 } else { 0u32 })  // Bit 12 = C1
        | (if id13_field & 0x0800 != 0 { 0x1000u32 } else { 0u32 })  // Bit 11 = A1
        | (if id13_field & 0x0400 != 0 { 0x0020u32 } else { 0u32 })  // Bit 10 = C2
        | (if id13_field & 0x0200 != 0 { 0x2000u32 } else { 0u32 })  // Bit  9 = A2
        | (if id13_field & 0x0100 != 0 { 0x0040u32 } else { 0u32 })  // Bit  8 = C4
        | (if id13_field & 0x0080 != 0 { 0x4000u32 } else { 0u32 })  // Bit  7 = A4
        | (if id13_field & 0x0020 != 0 { 0x0100u32 } else { 0u32 })  // Bit  5 = B1
        | (if id13_field & 0x0010 != 0 { 0x0001u32 } else { 0u32 })  // Bit  4 = D1 or Q
        | (if id13_field & 0x0008 != 0 { 0x0200u32 } else { 0u32 })  // Bit  3 = B2
        | (if id13_field & 0x0004 != 0 { 0x0002u32 } else { 0u32 })  // Bit  2 = D2
        | (if id13_field & 0x0002 != 0 { 0x0400u32 } else { 0u32 })  // Bit  1 = B4
        | (if id13_field & 0x0001 != 0 { 0x0004u32 } else { 0u32 })  // Bit  0 = D4
}

/// The 11-bit altitude count left after removing the Q and M bits from a
/// 13-bit altitude code.
pub open spec fn spec_ac13_qbit_n(ac13_field: u32) -> u32 {
    (((ac13_field & 0x1F80) >> 2) | ((ac13_field & 0x0020) >> 1)) | (ac13_field & 0x000F)
}

/// Whether a 13-bit altitude code fails to decode: the M bit selects meters
/// (not decoded), and with Q clear the Gillham decode may reject the code.
pub open spec fn spec_ac13_invalid(ac13_field: u32) -> bool {
    if ac13_field & 0x0040 != 0 {
        true
    } else if ac13_field & 0x0010 != 0 {
        false
    } else {
        spec_mode_a_invalid(spec_decode_id13(ac13_field))
    }
}

/// The altitude in feet decoded from a 13-bit altitude code, for codes that
/// decode: 25-ft steps above -1000 ft with the Q bit, else Gillham Mode C
/// hundreds of feet.
pub open spec fn spec_ac13_altitude(ac13_field: u32) -> int {
    if ac13_field & 0x0010 != 0 {
        spec_ac13_qbit_n(ac13_field) * 25 - 1000
    } else {
        100 * spec_mode_a_to_mode_c(spec_decode_id13(ac13_field))
    }
}

/// Decode a 13-bit altitude code to feet. Codes with the M (meters) bit and
/// invalid Gillham codes are rejected.
pub fn decode_ac13_field(ac13_field: u32) -> (r: Result<(i32, AltitudeUnit), &'static str>)
    ensures
        r is Err <==> spec_ac13_invalid(ac13_field),
        r matches Ok((alt, unit)) ==> alt == spec_ac13_altitude(ac13_field)
            && unit == AltitudeUnit::Feet && -1200 <= alt <= 126700,
{
    let m_bit: u32 = ac13_field & 0x0040;  // set = meters, clear = feet
    let q_bit: u32 = ac13_field & 0x0010;  // set = 25 ft encoding, clear = Gillham Mode C

    if m_bit != 0 {
        // Metric altitudes are signalled but not decoded.
        return Err("Invalid altitude");
    }

    if q_bit != 0 {
        // N is the 11 bit integer resulting from the removal of bits Q and M
        let n: u32 = ((ac13_field & 0x1F80) >> 2) | ((ac13_field & 0x0020) >> 1)
            | (ac13_field & 0x000F);
        assert(n < 2048) by (bit_vector)
            requires n == spec_ac13_qbit_n(ac13_field);

        // The final altitude is the resulting number multiplied by 25, minus 1000.
        Ok(((n as i32) * 25 - 1000, AltitudeUnit::Feet))
    } else {
        // N is an 11 bit Gillham coded altitude
        let id13 = decode_id13_field(ac13_field);
        match mode_a_to_mode_c(id13) {
            Ok(n) => Ok((100 * n, AltitudeUnit::Feet)),
            Err(e) => Err(e),
        }
    }
}

/// The 11-bit altitude count left after removing the Q bit from a 12-bit
/// altitude code.
pub open spec fn spec_ac12_qbit_n(ac12_field: u32) -> u32 {
    ((ac12_field & 0x0FE0) >> 1) | (ac12_field & 0x000F)
}

/// The 13-bit Gillham code formed by inserting M=0 at bit 6 of a 12-bit
/// altitude code.
pub open spec fn spec_ac12_gillham(ac12_field: u32) -> u32 {
    ((ac12_field & 0x0FC0) << 1) | (ac12_field & 0x003F)
}

/// Whether a 12-bit altitude code fails to decode.
pub open spec fn spec_ac12_invalid(ac12_field: u32) -> bool {
    if ac12_field & 0x10 != 0 {
        false
    } else {
        spec_mode_a_invalid(spec_decode_id13(spec_ac12_gillham(ac12_field)))
    }
}

/// The altitude in feet decoded from a 12-bit altitude code.
pub open spec fn spec_ac12_altitude(ac12_field: u32) -> int {
    if ac12_field & 0x10 != 0 {
        spec_ac12_qbit_n(ac12_field) * 25 - 1000
    } else {
        100 * spec_mode_a_to_mode_c(spec_decode_id13(spec_ac12_gillham(ac12_field)))
    }
}

/// Decode a 12-bit extended squitter altitude code to feet.
pub fn decode_ac12_field(ac12_field: u32) -> (r: Result<i32, &'static str>)
    ensures
        r is Err <==> spec_ac12_invalid(ac12_field),
        r matches Ok(alt) ==> alt == spec_ac12_altitude(ac12_field) && -1200 <= alt <= 126700,
{
    let q_bit: u32 = ac12_field & 0x10;  // Bit 48 = Q

    if q_bit != 0 {
        // N is the 11 bit integer resulting from the removal of bit Q at bit 4
        let n: u32 = ((ac12_field & 0x0FE0) >> 1) | (ac12_field & 0x000F);
        assert(n < 2048) by (bit_vector)
            requires n == spec_ac12_qbit_n(ac12_field);

        // The final altitude is the resulting number multiplied by 25, minus 1000.
        Ok((n as i32) * 25 - 1000)
    } else {
        // Make N a 13 bit Gillham coded altitude by inserting M=0 at bit 6
        let n: u32 = ((ac12_field & 0x0FC0) << 1) | (ac12_field & 0x003F);
        let id13 = decode_id13_field(n);
        match mode_a_to_mode_c(id13) {
            Ok(v) => Ok(100 * v),
            Err(e) => Err(e),
        }
    }
}

/// The piecewise ground-speed decode of a surface movement field, in knots.
/// Codes 0, 125, 126, 127 are invalid and trapped before this is applied.
pub open spec fn spec_decode_movement(movement: u32) -> u32 {
    if movement > 123 {
        199u32  // > 175 kt
    } else if movement > 108 {
        (((movement - 108) * 5) + 100) as u32
    } else if movement > 93 {
        (((movement - 93) * 2) + 70) as u32
    } else if movement > 38 {
        ((movement - 38) + 15) as u32
    } else if movement > 12 {
        ((((movement - 11) as u32) >> 1) + 2) as u32
    } else if movement > 8 {
        ((((movement - 6) as u32) >> 2) + 1) as u32
    } else {
        0u32
    }
}

/// Decode a surface movement field to a ground speed in knots.
pub fn decode_movement_field(movement: u32) -> (r: u32)
    ensures
        r == spec_decode_movement(movement),
        r <= 199,
{
    if movement > 123 {
        199
    } else if movement > 108 {
        ((movement - 108) * 5) + 100
    } else if movement > 93 {
        ((movement - 93) * 2) + 70
    } else if movement > 38 {
        (movement - 38) + 15
    } else if movement > 12 {
        let shifted: u32 = (movement - 11) >> 1;
        assert(shifted <= 13) by (bit_vector)
            requires shifted == ((movement - 11) as u32) >> 1u32, movement <= 38u32, movement > 12u32;
        shifted + 2
    } else if movement > 8 {
        let shifted: u32 = (movement - 6) >> 2;
        assert(shifted <= 1) by (bit_vector)
            requires shifted == ((movement - 6) as u32) >> 2u32, movement <= 12u32, movement > 8u32;
        shifted + 1
    } else {
        0
    }
}

/// The address-type remap applied when the ICAO/Mode A flag marks an
/// address as not a real ICAO identity.
pub open spec fn spec_imf_remap(opt: Option<AddrType>) -> Option<AddrType> {
    match opt {
        Some(AddrType::ADSB_ICAO) => Some(AddrType::ADSB_Other),
        Some(AddrType::ADSB_ICAO_NT) => Some(AddrType::ADSB_Other),
        Some(AddrType::TISB_ICAO) => Some(AddrType::TISB_Trackfile),
        Some(AddrType::ADSR_ICAO) => Some(AddrType::ADSR_Other),
        other => other,
    }
}

/// Mark a message's address as non-ICAO: set the flag bit in the address
/// and demote the address type accordingly.
pub fn set_imf(addr: &mut u32, opt_addrtype: &mut Option<AddrType>)
    ensures
        *final(addr) == *old(addr) | MODES_NON_ICAO_ADDRESS,
        *final(opt_addrtype) == spec_imf_remap(*old(opt_addrtype)),
{
    *addr = *addr | MODES_NON_ICAO_ADDRESS;

    let opt_new_addrtype: Option<AddrType> = match opt_addrtype {
        Some(AddrType::ADSB_ICAO) | Some(AddrType::ADSB_ICAO_NT) => Some(AddrType::ADSB_Other),
        Some(AddrType::TISB_ICAO) => Some(AddrType::TISB_Trackfile),
        Some(AddrType::ADSR_ICAO) => Some(AddrType::ADSR_Other),
        _ => None,
    };

    if let Some(x) = opt_new_addrtype {
        *opt_addrtype = Some(x);
    }
}

/// The AIS six-bit character set as ASCII: codes below 32 are the letters
/// block starting at `@`, codes 32 and up are ASCII space through `?`.
pub open spec fn spec_ais_char(code: u8) -> u8
    recommends
        code < 64,
{
    if code < 32 {
        (code + 64) as u8
    } else {
        code
    }
}

/// Map a six-bit AIS character code to its ASCII byte.
pub fn ais_char(code: u8) -> (r: u8)
    requires
        code < 64,
    ensures
        r == spec_ais_char(code),
{
    if code < 32 {
        code + 64
    } else {
        code
    }
}

/// The eight AIS characters packed in six-bit fields starting at 0-based
/// bit `first0` of `data`, as ASCII bytes.
pub open spec fn spec_ais_seq(data: Seq<u8>, first0: int) -> Seq<u8> {
    Seq::new(8, |k: int| spec_ais_char(spec_getbits(data, first0 + 6 * k, first0 + 6 * k + 5) as u8))
}

/// Whether a callsign byte is acceptable for a Comm-B identification:
/// ASCII alphanumeric or whitespace.
pub open spec fn spec_bds20_char_ok(b: u8) -> bool {
    (48 <= b <= 57) || (65 <= b <= 90) || (97 <= b <= 122)
        || b == 32 || b == 9 || b == 10 || b == 12 || b == 13
}

/// Every byte of a candidate callsign is acceptable.
pub open spec fn spec_bds20_ok(cs: Seq<u8>) -> bool {
    forall|i: int| 0 <= i < cs.len() ==> spec_bds20_char_ok(cs[i])
}

/// Read the eight AIS characters packed in six-bit fields starting at
/// 1-based bit `firstbit_1idx` of `data`.
fn read_ais_callsign(data: &[u8], firstbit_1idx: usize) -> (r: Vec<u8>)
    requires
        1 <= firstbit_1idx,
        firstbit_1idx + 47 <= data@.len() * 8,
        data@.len() <= usize::MAX / 8,
    ensures
        r@ == spec_ais_seq(data@, firstbit_1idx - 1),
{
    let mut cs: Vec<u8> = Vec::new();
    let mut k: usize = 0;
    while k < 8
        invariant
            k <= 8,
            1 <= firstbit_1idx,
            firstbit_1idx + 47 <= data@.len() * 8,
            data@.len() <= usize::MAX / 8,
            cs@.len() == k,
            forall|i: int| 0 <= i < k ==> cs@[i] == spec_ais_seq(data@, firstbit_1idx - 1)[i],
        decreases 8 - k,
    {
        let first = firstbit_1idx + 6 * k;
        proof {
            lemma_getbits_bound(data@, first - 1, first + 4);
            lemma2_to64();
        }
        let code: u8 = getbits(data, first, first + 5) as u8;
        cs.push(ais_char(code));
        k += 1;
    }
    assert(cs@ =~= spec_ais_seq(data@, firstbit_1idx - 1));
    cs
}

/// Decode a Comm-B reply payload: when the first payload byte announces
/// BDS 2,0 (aircraft identification), extract the callsign; it is kept only
/// if every character is alphanumeric or whitespace, since BDS 2,0 cannot
/// be recognized reliably.
pub fn decode_comm_b(mm: &mut ModeSMessage)
    requires
        old(mm).wf(),
        old(mm).msglen == MsgLen::Long,
    ensures
        final(mm).wf(),
        ({
            let pre = *old(mm);
            let post = *final(mm);
            let cs = spec_ais_seq(pre.msg@, 40);
            &&& post == ModeSMessage { callsign: post.callsign, ..pre }
            &&& spec_getbits(pre.msg@, 32, 39) == 0x20 && spec_bds20_ok(cs)
                ==> post.callsign is Some && post.callsign.unwrap()@ == cs
            &&& spec_getbits(pre.msg@, 32, 39) == 0x20 && !spec_bds20_ok(cs)
                ==> post.callsign is None
            &&& spec_getbits(pre.msg@, 32, 39) != 0x20 ==> post.callsign == pre.callsign
        }),
{
    if getbits(mm.msg.as_slice(), 33, 40) == 0x20 {
        let cs = read_ais_callsign(mm.msg.as_slice(), 41);
        let mut all_ok: bool = true;
        let mut i: usize = 0;
        while i < cs.len()
            invariant
                i <= cs@.len(),
                all_ok <==> (forall|j: int| 0 <= j < i ==> spec_bds20_char_ok(cs@[j])),
            decreases cs@.len() - i,
        {
            let b = cs[i];
            let ok = (48 <= b && b <= 57) || (65 <= b && b <= 90) || (97 <= b && b <= 122)
                || b == 32 || b == 9 || b == 10 || b == 12 || b == 13;
            if !ok {
                all_ok = false;
            }
            i += 1;
        }
        if all_ok {
            mm.callsign = Some(cs);
        } else {
            mm.callsign = None;
        }
    }
}

/// The air/ground state announced by a Capability field value.
pub open spec fn spec_ca_airground(ca: nat) -> Option<AirGround> {
    if ca == 0 || ca == 6 || ca == 7 {
        Some(AirGround::Uncertain)
    } else if ca == 4 {
        Some(AirGround::Ground)
    } else if ca == 5 {
        Some(AirGround::Airborne)
    } else {
        None
    }
}

/// The air/ground state announced by a Flight Status field value.
pub open spec fn spec_fs_airground(fs: nat) -> Option<AirGround> {
    if fs == 0 || fs == 2 || fs == 4 || fs == 5 {
        Some(AirGround::Uncertain)
    } else if fs == 1 || fs == 3 {
        Some(AirGround::Ground)
    } else {
        None
    }
}

/// Exactly the messages `decode` rejects, judged against the filter state
/// before the call: all-zero frames; Downlink Formats whose CRC handling is
/// unknown; Address/Parity formats whose syndrome is not a recently seen
/// address; all-call replies with errors outside the interrogator bits; and
/// extended squitters with a nonzero checksum.
pub open spec fn spec_decode_rejects(msg: Seq<u8>, f: IcaoFilter) -> bool {
    let df = spec_df(msg);
    let crc = spec_checksum(msg, spec_msg_bits(df) / 8);
    ||| spec_all_zero(msg)
    ||| (df == 0 || df == 4 || df == 5 || df == 16 || (24 <= df <= 31))
        && !spec_filter_sees(f, crc)
    ||| df == 11 && crc & 0x00ff_ff80 != 0
    ||| (df == 17 || df == 18) && crc != 0
    ||| (df == 20 || df == 21) && !spec_filter_sees(f, crc)
    ||| df == 1 || df == 2 || df == 3 || (6 <= df <= 10) || (12 <= df <= 15) || df == 19
        || df == 22 || df == 23
}

/// The trust tier a message earns from its Downlink Format alone, before
/// any DF18 Control Field reclassification or multilateration override.
pub open spec fn spec_df_source(df: nat) -> DataSource {
    if df == 11 {
        DataSource::ModeSChecked
    } else if df == 17 || df == 18 {
        DataSource::ADSB
    } else {
        DataSource::ModeS
    }
}

/// Decode an accepted frame into its typed fields: Downlink Format
/// dispatch, CRC classification against the filter, per-format field
/// extraction, Comm-B and extended squitter payload decoding, and learning
/// of addresses proven by a zero CRC. Exactly the frames described by
/// `spec_decode_rejects` are refused; a refusal leaves every decoded field
/// empty.
#[verifier::rlimit(100)]
#[verifier::spinoff_prover]
pub fn decode(mm: &mut ModeSMessage, filter: &mut IcaoFilter) -> (r: Result<(), &'static str>)
    requires
        old(mm).wf(),
        old(mm).undecoded(),
        old(filter).wf(),
        (spec_df(old(mm).msg@) >= 16) <==> (old(mm).msglen == MsgLen::Long),
    ensures
        final(mm).wf(),
        final(filter).wf(),
        final(filter).b@ == old(filter).b@,
        forall|v: u32| v != 0 && seq_contains(old(filter).a@, v)
            ==> seq_contains(final(filter).a@, v),
        r is Err ==> *final(filter) == *old(filter),
        !(spec_df(old(mm).msg@) == 17 || spec_df(old(mm).msg@) == 18 || (spec_df(old(mm).msg@)
            == 11 && spec_checksum(old(mm).msg@, 7) & 0x7f == 0)) ==> *final(filter)
            == *old(filter),
        r is Err <==> spec_decode_rejects(old(mm).msg@, *old(filter)),
        r is Err ==> *final(mm) == (ModeSMessage {
            msgtype: final(mm).msgtype,
            msgbits: final(mm).msgbits,
            crc: final(mm).crc,
            iid: final(mm).iid,
            ..*old(mm)
        }),
        ({
            let pre = *old(mm);
            let post = *final(mm);
            let msg = pre.msg@;
            let df = spec_df(msg);
            let bits = spec_msg_bits(df);
            let crc = spec_checksum(msg, bits / 8);
            let aa = spec_aa(msg) as u32;
            let mlat = pre.remote && pre.timestamp_msg == MAGIC_MLAT_TIMESTAMP;
            r is Ok ==> {
                &&& post.msg@ == msg && post.msglen == pre.msglen
                &&& post.signal_power_scaled == pre.signal_power_scaled
                &&& post.signal_len == pre.signal_len
                &&& post.score == pre.score
                &&& post.timestamp_msg == pre.timestamp_msg
                &&& post.remote == pre.remote
                &&& post.msgtype == df && post.msgbits == bits && post.crc == crc
                &&& post.iid == (if df == 11 { crc & 0x7f } else { 0u32 })
                &&& (df == 11 || df == 17 || df == 18) ==> post.aa == aa
                &&& (df == 0 || df == 4 || df == 5 || df == 16 || df == 20 || df == 21
                    || (24 <= df <= 31)) ==> post.addr == crc
                &&& (df == 11 || df == 17) ==> post.addr == aa
                &&& df == 18 ==> (post.addr == aa || post.addr == aa | MODES_NON_ICAO_ADDRESS)
                &&& (mlat ==> post.source == DataSource::MLAT)
                &&& (!mlat && df != 18 ==> post.source == spec_df_source(df))
                &&& (!mlat && df == 18 ==> post.source == spec_es_cf(
                    spec_pre_es(pre, post),
                ).0.source)
                &&& (df == 0 || df == 4 || df == 16 || df == 20) ==> {
                    let ac = spec_getbits(msg, 19, 31);
                    &&& post.ac == ac
                    &&& (ac != 0 && !spec_ac13_invalid(ac as u32) ==> post.altitude == Some((
                        (spec_ac13_altitude(ac as u32) as i32),
                        AltitudeUnit::Feet,
                        AltitudeSource::Baro,
                    )))
                    &&& (!(ac != 0 && !spec_ac13_invalid(ac as u32)) ==> post.altitude is None)
                }
                &&& (df == 11 || df == 17) ==> post.ca == spec_getbits(msg, 5, 7)
                &&& df == 11 ==> post.airground == spec_ca_airground(spec_getbits(msg, 5, 7))
                &&& df == 0 ==> post.cc == (if spec_getbit(msg, 6) { 1u32 } else { 0u32 })
                &&& df == 18 ==> post.cf == spec_getbits(msg, 4, 7)
                &&& (df == 4 || df == 5 || df == 20 || df == 21) ==> {
                    &&& post.dr == spec_getbits(msg, 8, 12)
                    &&& post.fs == spec_getbits(msg, 5, 7)
                    &&& post.airground == spec_fs_airground(spec_getbits(msg, 5, 7))
                    &&& post.um == spec_getbits(msg, 13, 18)
                }
                &&& (df == 5 || df == 21) ==> {
                    let id = spec_getbits(msg, 19, 31);
                    &&& post.id == id
                    &&& (id != 0 ==> post.squawk == Some(spec_decode_id13(id as u32)))
                    &&& (id == 0 ==> post.squawk is None)
                }
                &&& (24 <= df <= 31) ==> {
                    &&& post.ke == (if spec_getbit(msg, 3) { 1u32 } else { 0u32 })
                    &&& post.md@ == msg.subrange(1, 11)
                    &&& post.nd == spec_getbits(msg, 4, 7)
                }
                &&& (df == 20 || df == 21) ==> {
                    let cs = spec_ais_seq(msg, 40);
                    &&& post.mb@ == msg.subrange(4, 11)
                    &&& (spec_getbits(msg, 32, 39) == 0x20 && spec_bds20_ok(cs)
                        ==> post.callsign is Some && post.callsign.unwrap()@ == cs)
                    &&& (!(spec_getbits(msg, 32, 39) == 0x20 && spec_bds20_ok(cs))
                        ==> post.callsign is None)
                }
                &&& df == 16 ==> post.mv@ == msg.subrange(4, 11)
                &&& (df == 0 || df == 16) ==> {
                    &&& post.ri == spec_getbits(msg, 13, 16)
                    &&& post.sl == spec_getbits(msg, 8, 10)
                    &&& post.vs == (if spec_getbit(msg, 5) { 1u32 } else { 0u32 })
                    &&& post.airground == Some(
                        if spec_getbit(msg, 5) { AirGround::Ground } else { AirGround::Uncertain },
                    )
                }
                &&& (df == 17 || df == 18) ==> {
                    &&& post.me@ == msg.subrange(4, 11)
                    &&& spec_es_effect(
                        spec_pre_es(pre, post),
                        ModeSMessage {
                            source: spec_es_cf(spec_pre_es(pre, post)).0.source,
                            ..post
                        },
                    )
                }
                &&& (df == 17 || df == 18 || (df == 11 && crc & 0x7f == 0)) ==> {
                    (post.addr != 0 && !is_full(final(filter).a@))
                        ==> seq_contains(final(filter).a@, post.addr)
                }
            }
        }),
{
    let ghost pre = *old(mm);

    let mut all_zero: bool = true;
    let mut zi: usize = 0;
    while zi < mm.msg.len()
        invariant
            zi <= mm.msg@.len(),
            all_zero <==> (forall|j: int| 0 <= j < zi ==> mm.msg@[j] == 0),
        decreases mm.msg@.len() - zi,
    {
        if mm.msg[zi] != 0 {
            all_zero = false;
        }
        zi += 1;
    }
    if all_zero {
        return Err("All zeros");
    }

    proof {
        lemma_getbits_bound(mm.msg@, 0, 4);
        lemma_getbits_bound(mm.msg@, 8, 31);
        lemma2_to64();
    }
    let msgtype: u8 = getbits(mm.msg.as_slice(), 1, 5) as u8;
    mm.msgtype = msgtype;
    let long: bool = (msgtype & 0x10) != 0;
    assert(long <==> msgtype >= 16) by (bit_vector)
        requires
            long == ((msgtype & 0x10u8) != 0),
            msgtype < 32u8,
    ;
    mm.msgbits = if long {
        112
    } else {
        56
    };
    mm.crc = modes_checksum(mm.msg.as_slice(), mm.msgbits);

    if msgtype == 0 || msgtype == 4 || msgtype == 5 || msgtype == 16 || msgtype >= 24 {
        // Address/Parity formats: the syndrome is the sender's address, so
        // accept the message only if it appears to come from a recently
        // seen aircraft.
        if !icao_filter_test(filter, mm.crc) {
            return Err("Failed ICAO filter test");
        }
        mm.source = DataSource::ModeS;
        mm.addr = mm.crc;
    } else if msgtype == 11 {
        // All-call reply: the interrogator code occupies the low 7 CRC
        // bits, so errors can only be detected outside them.
        mm.iid = mm.crc & 0x7f;
        if mm.crc & 0x00ff_ff80 != 0 {
            return Err("Failed CRC check for all-call reply");
        }
        mm.source = DataSource::ModeSChecked;
    } else if msgtype == 17 || msgtype == 18 {
        // Extended squitter: specified to carry a zero interrogator code.
        if mm.crc != 0 {
            return Err("Failed CRC check for extended squitter");
        }
        mm.source = DataSource::ADSB;
    } else if msgtype == 20 || msgtype == 21 {
        // Comm-B replies use Address/Parity or Data Parity; try an exact
        // address match.
        if !icao_filter_test(filter, mm.crc) {
            return Err("Failed CRC check for Comm-B altitude or identity reply");
        }
        mm.source = DataSource::ModeS;
        mm.addr = mm.crc;
    } else {
        // All other message types: their CRC handling is unknown; give up.
        return Err("Message type whose CRC we don't know how to handle");
    }

    // AA (Address announced)
    if msgtype == 11 || msgtype == 17 || msgtype == 18 {
        let bits = getbits(mm.msg.as_slice(), 9, 32) as u32;
        mm.aa = bits;
        mm.addr = bits;
    }

    // AC (Altitude Code)
    if msgtype == 0 || msgtype == 4 || msgtype == 16 || msgtype == 20 {
        proof {
            lemma_getbits_bound(mm.msg@, 19, 31);
            lemma2_to64();
        }
        mm.ac = getbits(mm.msg.as_slice(), 20, 32) as u32;

        if mm.ac != 0 {
            if let Ok((altitude, altitude_unit)) = decode_ac13_field(mm.ac) {
                mm.altitude = Some((altitude, altitude_unit, AltitudeSource::Baro));
            }
        }
    }

    // CA (Capability)
    if msgtype == 11 || msgtype == 17 {
        proof {
            lemma_getbits_bound(mm.msg@, 5, 7);
            lemma2_to64();
        }
        mm.ca = getbits(mm.msg.as_slice(), 6, 8) as u32;
        mm.airground = if mm.ca == 0 || mm.ca == 6 || mm.ca == 7 {
            Some(AirGround::Uncertain)
        } else if mm.ca == 4 {
            Some(AirGround::Ground)
        } else if mm.ca == 5 {
            Some(AirGround::Airborne)
        } else {
            None
        };
    }

    // CC (Cross-link capability)
    if msgtype == 0 {
        mm.cc = getbit(mm.msg.as_slice(), 7);
    }

    // CF (Control field)
    if msgtype == 18 {
        proof {
            lemma_getbits_bound(mm.msg@, 4, 7);
            lemma2_to64();
        }
        mm.cf = getbits(mm.msg.as_slice(), 5, 8) as u32;
    }

    // DR (Downlink Request), FS (Flight Status)
    if msgtype == 4 || msgtype == 5 || msgtype == 20 || msgtype == 21 {
        proof {
            lemma_getbits_bound(mm.msg@, 8, 12);
            lemma_getbits_bound(mm.msg@, 5, 7);
            lemma2_to64();
        }
        mm.dr = getbits(mm.msg.as_slice(), 9, 13) as u32;
        mm.fs = getbits(mm.msg.as_slice(), 6, 8) as u32;

        mm.airground = if mm.fs == 0 || mm.fs == 2 || mm.fs == 4 || mm.fs == 5 {
            Some(AirGround::Uncertain)
        } else if mm.fs == 1 || mm.fs == 3 {
            Some(AirGround::Ground)
        } else {
            None
        };
    }

    // ID (Identity)
    if msgtype == 5 || msgtype == 21 {
        // Gillham encoded squawk
        proof {
            lemma_getbits_bound(mm.msg@, 19, 31);
            lemma2_to64();
        }
        mm.id = getbits(mm.msg.as_slice(), 20, 32) as u32;
        if mm.id != 0 {
            mm.squawk = Some(decode_id13_field(mm.id));
        }
    }

    // KE (Control, ELM)
    if msgtype >= 24 {
        mm.ke = getbit(mm.msg.as_slice(), 4);
    }

    // MB (message, Comm-B)
    if msgtype == 20 || msgtype == 21 {
        mm.mb = sub_bytes(&mm.msg, 4, 7);
        decode_comm_b(mm);
    }

    // MD (message, Comm-D)
    if msgtype >= 24 {
        mm.md = sub_bytes(&mm.msg, 1, 10);
    }

    // ME (message, extended squitter)
    if msgtype == 17 || msgtype == 18 {
        mm.me = sub_bytes(&mm.msg, 4, 7);
        proof {
            assert(*mm == spec_pre_es(pre, *mm));
        }
        decode_extended_squitter(mm);
    }

    // MV (message, ACAS)
    if msgtype == 16 {
        mm.mv = sub_bytes(&mm.msg, 4, 7);
    }

    // ND (number of D-segment, Comm-D)
    if msgtype >= 24 {
        proof {
            lemma_getbits_bound(mm.msg@, 4, 7);
            lemma2_to64();
        }
        mm.nd = getbits(mm.msg.as_slice(), 5, 8) as u32;
    }

    // RI (Reply information, ACAS)
    if msgtype == 0 || msgtype == 16 {
        proof {
            lemma_getbits_bound(mm.msg@, 13, 16);
            lemma2_to64();
        }
        mm.ri = getbits(mm.msg.as_slice(), 14, 17) as u32;
    }

    // SL (Sensitivity level, ACAS)
    if msgtype == 0 || msgtype == 16 {
        proof {
            lemma_getbits_bound(mm.msg@, 8, 10);
            lemma2_to64();
        }
        mm.sl = getbits(mm.msg.as_slice(), 9, 11) as u32;
    }

    // UM (Utility Message)
    if msgtype == 4 || msgtype == 5 || msgtype == 20 || msgtype == 21 {
        proof {
            lemma_getbits_bound(mm.msg@, 13, 18);
            lemma2_to64();
        }
        mm.um = getbits(mm.msg.as_slice(), 14, 19) as u32;
    }

    // VS (Vertical Status)
    if msgtype == 0 || msgtype == 16 {
        mm.vs = getbit(mm.msg.as_slice(), 6);
        mm.airground = if mm.vs != 0 {
            Some(AirGround::Ground)
        } else {
            Some(AirGround::Uncertain)
        };
    }

    if msgtype == 17 || msgtype == 18 || (msgtype == 11 && mm.iid == 0) {
        // No CRC errors seen, and either an extended squitter or a DF11
        // acquisition squitter with II = 0: the address is probably right.
        // This is the only place that learns addresses.
        icao_filter_add(filter, mm.addr);
    }

    // A multilateration result overrides all other sources
    if mm.remote && mm.timestamp_msg == MAGIC_MLAT_TIMESTAMP {
        mm.source = DataSource::MLAT;
    }

    Ok(())
}

/// The message state just before the extended squitter payload is decoded,
/// reconstructed from the final state: every field the payload decoding can
/// touch is reset to its undecoded value.
pub open spec fn spec_pre_es(pre: ModeSMessage, post: ModeSMessage) -> ModeSMessage {
    ModeSMessage {
        metype: 0,
        mesub: 0,
        addr: (spec_aa(pre.msg@) as u32),
        addrtype: None,
        source: DataSource::ADSB,
        callsign: None,
        category: None,
        vert_rate: None,
        velocity_ew_ns: None,
        speed: None,
        heading: None,
        gnss_delta: None,
        airground: if spec_df(pre.msg@) == 17 {
            spec_ca_airground(spec_getbits(pre.msg@, 5, 7))
        } else {
            None
        },
        raw_cpr: None,
        altitude: None,
        squawk: None,
        tss: None,
        opstatus: None,
        ..post
    }
}

} // verus!
