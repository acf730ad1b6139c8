use vstd::prelude::*;
use vstd::arithmetic::power2::{pow2, lemma_pow2_unfold, lemma_pow2_strictly_increases, lemma2_to64};

use crate::crc::{modes_checksum, spec_checksum};
use crate::icao_filter::{
    icao_filter_add, icao_filter_test, is_full, seq_contains, spec_filter_sees, IcaoFilter,
    ICAO_FILTER_ADSB_NT,
};
use crate::{MODES_LONG_MSG_BYTES, MODES_SHORT_MSG_BYTES};

verus! {

/// Timestamp value that marks a message as a multilateration result rather
/// than a live reception.
pub const MAGIC_MLAT_TIMESTAMP: u64 = 0xFF00_4D4C_4154;

/// Whether a message is 7 or 14 bytes long.
#[derive(Clone, Copy, Debug, PartialEq, Eq, Structural)]
pub enum MsgLen {
    Short,
    Long,
}

/// Bit `bit0` of `data`, counting from 0, MSB-first within each byte.
pub open spec fn spec_getbit(data: Seq<u8>, bit0: int) -> bool
    recommends
        0 <= bit0 < data.len() * 8,
{
    data[bit0 / 8] & (1u8 << ((7 - (bit0 % 8)) as u32)) != 0
}

/// The unsigned value of bits `first0 ..= last0` of `data` (0-based,
/// MSB-first): the field's leftmost bit is its most significant.
pub open spec fn spec_getbits(data: Seq<u8>, first0: int, last0: int) -> nat
    recommends
        0 <= first0,
        last0 < data.len() * 8,
    decreases last0 - first0 + 1,
{
    if first0 > last0 {
        0
    } else {
        2 * spec_getbits(data, first0, last0 - 1) + (if spec_getbit(data, last0) {
            1nat
        } else {
            0nat
        })
    }
}

/// A bit field of `w` bits is smaller than `pow2(w)`.
pub proof fn lemma_getbits_bound(data: Seq<u8>, first0: int, last0: int)
    requires
        first0 <= last0 + 1,
    ensures
        spec_getbits(data, first0, last0) < pow2((last0 + 1 - first0) as nat),
    decreases last0 - first0 + 1,
{
    if first0 > last0 {
        assert(pow2(0) == 1) by {
            lemma2_to64();
        }
    } else {
        lemma_getbits_bound(data, first0, last0 - 1);
        lemma_pow2_unfold((last0 + 1 - first0) as nat);
    }
}


/// A bit field depends only on the bytes that carry it: two messages equal
/// on those bytes yield the same field.
pub proof fn lemma_getbits_prefix(s1: Seq<u8>, s2: Seq<u8>, first0: int, last0: int)
    requires
        0 <= first0,
        last0 < s1.len() * 8,
        last0 < s2.len() * 8,
        forall|i: int| 0 <= i <= last0 / 8 ==> s1[i] == s2[i],
    ensures
        spec_getbits(s1, first0, last0) == spec_getbits(s2, first0, last0),
    decreases last0 - first0 + 1,
{
    if first0 <= last0 {
        lemma_getbits_prefix(s1, s2, first0, last0 - 1);
        assert(s1[last0 / 8] == s2[last0 / 8]);
    }
}


/// Every bit field of an all-zero message is zero.
pub proof fn lemma_zero_bits(c: Seq<u8>, first0: int, last0: int)
    requires
        0 <= first0,
        last0 < c.len() * 8,
        forall|i: int| 0 <= i < c.len() ==> c[i] == 0,
    ensures
        spec_getbits(c, first0, last0) == 0,
    decreases last0 - first0 + 1,
{
    if first0 <= last0 {
        lemma_zero_bits(c, first0, last0 - 1);
        let sh = ((7 - (last0 % 8)) as u32);
        assert(c[last0 / 8] == 0);
        assert(0u8 & (1u8 << sh) == 0) by (bit_vector);
    }
}

/// The Downlink Format: the five leading bits of byte 0.
pub open spec fn spec_df(msg: Seq<u8>) -> nat {
    spec_getbits(msg, 0, 4)
}

/// The announced address field AA at bits 9..=32 (1-based).
pub open spec fn spec_aa(msg: Seq<u8>) -> nat {
    spec_getbits(msg, 8, 31)
}

/// Every byte of the message is zero.
pub open spec fn spec_all_zero(msg: Seq<u8>) -> bool {
    forall|i: int| 0 <= i < msg.len() ==> msg[i] == 0
}

/// Message length in bits for a Downlink Format: formats 16 and up are long.
pub open spec fn spec_msg_bits(df: nat) -> nat {
    if df >= 16 {
        112
    } else {
        56
    }
}

/// Read bit `bit_1idx` (1-based, MSB-first) of `data`, as 0 or 1.
pub fn getbit(data: &[u8], bit_1idx: usize) -> (r: u32)
    requires
        1 <= bit_1idx,
        bit_1idx <= data@.len() * 8,
    ensures
        r == (if spec_getbit(data@, bit_1idx - 1) { 1u32 } else { 0u32 }),
{
    let bit0: usize = bit_1idx - 1;
    let byte_idx: usize = bit0 / 8;
    let shift: u32 = (7 - (bit0 % 8)) as u32;
    let mask: u8 = 1u8 << shift;
    if (data[byte_idx] & mask) != 0 {
        1
    } else {
        0
    }
}

/// Read bits `firstbit_1idx ..= lastbit_1idx` of `data` as an unsigned
/// value, using the ICAO 1090 MOPS numbering: 1-based, MSB-first, so bit 1
/// is the top bit of byte 0.
pub fn getbits(data: &[u8], firstbit_1idx: usize, lastbit_1idx: usize) -> (r: usize)
    requires
        1 <= firstbit_1idx,
        firstbit_1idx <= lastbit_1idx,
        lastbit_1idx <= data@.len() * 8,
        lastbit_1idx - firstbit_1idx < 32,
    ensures
        r == spec_getbits(data@, firstbit_1idx - 1, lastbit_1idx - 1),
        r < pow2((lastbit_1idx + 1 - firstbit_1idx) as nat),
{
    let first0: usize = firstbit_1idx - 1;
    let last0: usize = lastbit_1idx - 1;

    proof {
        lemma2_to64();
    }
    let mut ans: usize = 0;
    let mut bit: usize = first0;
    while bit <= last0
        invariant
            first0 <= bit <= last0 + 1,
            last0 < data@.len() * 8,
            last0 < usize::MAX,
            last0 - first0 < 32,
            ans == spec_getbits(data@, first0 as int, bit - 1),
            ans < pow2((bit - first0) as nat),
        decreases last0 + 1 - bit,
    {
        let byte_idx: usize = bit / 8;
        let shift: u32 = (7 - (bit % 8)) as u32;
        let mask: u8 = 1u8 << shift;
        let b: usize = if (data[byte_idx] & mask) != 0 {
            1
        } else {
            0
        };
        proof {
            lemma_pow2_unfold((bit + 1 - first0) as nat);
            lemma2_to64();
            if (bit + 1 - first0) < 32 {
                lemma_pow2_strictly_increases((bit + 1 - first0) as nat, 32);
            }
        }
        ans = ans * 2 + b;
        bit += 1;
    }
    ans
}


/// Whether scoring this message teaches the filter a new address: a fresh
/// all-call reply with a zero interrogator code, or a fresh extended
/// squitter, each with a zero checksum. On every other message the filter
/// is left exactly as it was.
pub open spec fn spec_scorer_learns(msg: Seq<u8>, f: IcaoFilter) -> bool {
    let df = spec_df(msg);
    let crc = spec_checksum(msg, spec_msg_bits(df) / 8);
    let aa = spec_aa(msg) as u32;
    ||| (df == 11 && crc == 0 && !spec_filter_sees(f, aa))
    ||| ((df == 17 || df == 18) && crc == 0 && !spec_filter_sees(f, aa))
}

/// Score a candidate message. The score reflects how certain the receiver is
/// that the frame is genuine, judged from its Downlink Format, its CRC, and
/// whether its address (or its address-parity syndrome) has been seen
/// recently. New addresses proven by a zero CRC are learned into the filter.
/// Every accepted (non-negative) score of a DF17/18 frame certifies a zero
/// checksum, and of a DF11 frame a checksum that is zero outside the
/// interrogator bits.
pub fn score_modes_message(filter: &mut IcaoFilter, msg: &[u8]) -> (r: Option<(MsgLen, i32)>)
    requires
        old(filter).wf(),
        msg@.len() <= usize::MAX / 8,
    ensures
        final(filter).wf(),
        final(filter).b@ == old(filter).b@,
        forall|v: u32| v != 0 && seq_contains(old(filter).a@, v)
            ==> seq_contains(final(filter).a@, v),
        r is None ==> *final(filter) == *old(filter),
        r is Some && !spec_scorer_learns(msg@, *old(filter)) ==> *final(filter) == *old(filter),
        ({
            let df = spec_df(msg@);
            let bits = spec_msg_bits(df);
            let crc = spec_checksum(msg@, bits / 8);
            let aa = spec_aa(msg@) as u32;
            &&& (msg@.len() * 8 < 56 || (df >= 16 && msg@.len() * 8 < 112) || spec_all_zero(msg@))
                <==> r is None
            &&& r matches Some((len, score)) ==> {
                &&& len == (if df >= 16 { MsgLen::Long } else { MsgLen::Short })
                &&& (df == 0 || df == 4 || df == 5)
                    ==> score == (if spec_filter_sees(*old(filter), crc) { 1000int } else { -1int })
                &&& df == 11 ==> {
                    let iid = crc & 0x7f;
                    let crc_hi = crc & 0x00ff_ff80;
                    &&& (crc_hi == 0 && iid == 0 && spec_filter_sees(*old(filter), aa))
                        ==> score == 1600
                    &&& (crc_hi == 0 && iid == 0 && !spec_filter_sees(*old(filter), aa))
                        ==> score == 750
                    &&& (crc_hi == 0 && iid != 0 && spec_filter_sees(*old(filter), aa))
                        ==> score == 1000
                    &&& (crc_hi == 0 && iid != 0 && !spec_filter_sees(*old(filter), aa))
                        ==> score == -1
                    &&& crc_hi != 0 ==> score == -2
                }
                &&& (df == 17 || df == 18) ==> {
                    &&& (crc == 0 && spec_filter_sees(*old(filter), aa)) ==> score == 1800
                    &&& (crc == 0 && !spec_filter_sees(*old(filter), aa)) ==> score == 1400
                    &&& crc != 0 ==> score == -2
                }
                &&& (df == 16 || df == 20 || df == 21 || (24 <= df && df <= 31))
                    ==> score == (if spec_filter_sees(*old(filter), crc) { 1000int } else { -2int })
                &&& (df == 1 || df == 2 || df == 3 || (6 <= df && df <= 10)
                    || (12 <= df && df <= 15) || df == 19 || (22 <= df && df <= 23))
                    ==> score == -2
                &&& score >= 0 ==> {
                    &&& (df == 17 || df == 18) ==> crc == 0
                    &&& df == 11 ==> crc & 0x00ff_ff80 == 0
                }
                &&& (0 <= score < 1000) ==> df == 11 && crc == 0
            }
        }),
{
    let validbits: usize = msg.len() * 8;

    if validbits < MODES_SHORT_MSG_BYTES * 8 {
        return None;
    }

    proof {
        lemma_getbits_bound(msg@, 0, 4);
        lemma2_to64();
    }
    let df: usize = getbits(msg, 1, 5);
    assert(df < 32);
    let long: bool = (df & 0x10) != 0;
    assert(long <==> df >= 16) by (bit_vector)
        requires
            long == ((df & 0x10usize) != 0),
            df < 32usize,
    ;
    let msgbits: usize = if long {
        MODES_LONG_MSG_BYTES * 8
    } else {
        MODES_SHORT_MSG_BYTES * 8
    };
    let msglen: MsgLen = if long {
        MsgLen::Long
    } else {
        MsgLen::Short
    };

    if validbits < msgbits {
        return None;
    }

    let mut zero_so_far: bool = true;
    let mut i: usize = 0;
    while i < msg.len()
        invariant
            i <= msg@.len(),
            zero_so_far <==> (forall|j: int| 0 <= j < i ==> msg@[j] == 0),
        decreases msg@.len() - i,
    {
        if msg[i] != 0 {
            zero_so_far = false;
        }
        i += 1;
    }
    if zero_so_far {
        return None;
    }

    let res: i32 = if df == 0 || df == 4 || df == 5 {
        // 0: short air-air surveillance; 4, 5: surveillance replies.
        // Address/Parity: the syndrome is the sender's address.
        let crc = modes_checksum(msg, msgbits);
        if icao_filter_test(filter, crc) {
            1000
        } else {
            -1
        }
    } else if df == 11 {
        // All-call reply: the interrogator code occupies the low 7 CRC bits.
        let crc = modes_checksum(msg, msgbits);
        let iid = crc & 0x7f;
        let crc_hi = crc & 0x00ff_ff80;
        proof {
            lemma_getbits_bound(msg@, 8, 31);
            lemma2_to64();
        }
        let addr = getbits(msg, 9, 32) as u32;

        if crc_hi == 0 {
            if iid == 0 {
                if icao_filter_test(filter, addr) {
                    1600
                } else {
                    assert(crc == 0) by (bit_vector)
                        requires
                            crc <= 0x00ff_ffffu32,
                            crc & 0x7fu32 == 0,
                            crc & 0x00ff_ff80u32 == 0,
                    ;
                    icao_filter_add(filter, addr);
                    750
                }
            } else {
                if icao_filter_test(filter, addr) {
                    1000
                } else {
                    -1
                }
            }
        } else {
            -2
        }
    } else if df == 17 || df == 18 {
        // Extended squitter: specified to carry a zero interrogator code.
        proof {
            lemma_getbits_bound(msg@, 8, 31);
            lemma2_to64();
        }
        let addr = getbits(msg, 9, 32) as u32;
        let crc = modes_checksum(msg, msgbits);
        if crc == 0 {
            if icao_filter_test(filter, addr) {
                1800
            } else {
                if df == 17 {
                    icao_filter_add(filter, addr);
                } else {
                    icao_filter_add(filter, addr | ICAO_FILTER_ADSB_NT);
                }
                1400
            }
        } else {
            -2
        }
    } else if df == 16 || df == 20 || df == 21 {
        // Long air-air surveillance and Comm-B replies: Address/Parity.
        let crc = modes_checksum(msg, MODES_LONG_MSG_BYTES * 8);
        if icao_filter_test(filter, crc) {
            1000
        } else {
            -2
        }
    } else if df >= 24 {
        // Comm-D (ELM): Address/Parity.
        let crc = modes_checksum(msg, MODES_LONG_MSG_BYTES * 8);
        if icao_filter_test(filter, crc) {
            1000
        } else {
            -2
        }
    } else {
        -2
    };

    Some((msglen, res))
}

} // verus!
