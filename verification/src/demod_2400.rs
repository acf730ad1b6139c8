use vstd::prelude::*;
use vstd::slice::slice_subrange;

use crate::crc::{bit_flipped, fix_single_bit_error, lemma_checksum_prefix, spec_checksum};
use crate::icao_filter::{seq_contains, IcaoFilter};
use crate::mode_s::{
    lemma_getbits_prefix, lemma_zero_bits, score_modes_message, spec_all_zero, spec_df,
    spec_msg_bits, MsgLen,
};
use crate::types::{sub_bytes, ModeSMessage};
use crate::MagnitudeBuffer;

verus! {

/// The sub-sample timing phase of the PPM bit slicer. Each bit consumes two
/// or three magnitude samples depending on the phase, and the phase advances
/// by two (mod five) per bit.
#[derive(Clone, Copy, Debug, PartialEq, Eq, Structural)]
pub enum Phase {
    Zero,
    One,
    Two,
    Three,
    Four,
}

impl Phase {
    /// The phase as a number 0 to 4.
    pub open spec fn spec_index(self) -> int {
        match self {
            Phase::Zero => 0,
            Phase::One => 1,
            Phase::Two => 2,
            Phase::Three => 3,
            Phase::Four => 4,
        }
    }

    /// The phase with number `num` (mod 5).
    pub open spec fn spec_from_index(num: int) -> Phase {
        if num % 5 == 0 {
            Phase::Zero
        } else if num % 5 == 1 {
            Phase::One
        } else if num % 5 == 2 {
            Phase::Two
        } else if num % 5 == 3 {
            Phase::Three
        } else {
            Phase::Four
        }
    }

    /// Increment by one (mod five): the starting phase of the next byte.
    pub open spec fn spec_next_start(self) -> Phase {
        match self {
            Phase::Zero => Phase::One,
            Phase::One => Phase::Two,
            Phase::Two => Phase::Three,
            Phase::Three => Phase::Four,
            Phase::Four => Phase::Zero,
        }
    }

    /// Advance by two (mod five): the phase of the next bit.
    pub open spec fn spec_next(self) -> Phase {
        match self {
            Phase::Zero => Phase::Two,
            Phase::Two => Phase::Four,
            Phase::Four => Phase::One,
            Phase::One => Phase::Three,
            Phase::Three => Phase::Zero,
        }
    }

    /// How many magnitude samples a bit in this phase consumes.
    pub open spec fn spec_increment(self) -> int {
        if self == Phase::Three || self == Phase::Four {
            3
        } else {
            2
        }
    }

    /// Increment by one (mod five): the starting phase of the next byte.
    pub fn next_start(self) -> (r: Self)
        ensures
            r == self.spec_next_start(),
            r.spec_index() == (self.spec_index() + 1) % 5,
    {
        match self {
            Phase::Zero => Phase::One,
            Phase::One => Phase::Two,
            Phase::Two => Phase::Three,
            Phase::Three => Phase::Four,
            Phase::Four => Phase::Zero,
        }
    }

    /// Advance by two (mod five): the phase of the next bit.
    pub fn next(self) -> (r: Self)
        ensures
            r == self.spec_next(),
            r.spec_index() == (self.spec_index() + 2) % 5,
    {
        match self {
            Phase::Zero => Phase::Two,
            Phase::Two => Phase::Four,
            Phase::Four => Phase::One,
            Phase::One => Phase::Three,
            Phase::Three => Phase::Zero,
        }
    }

    /// How many magnitude samples this bit consumes, added to the running
    /// sample index: two for the early phases, three for the late ones.
    pub fn increment_index(self, index: usize) -> (r: usize)
        requires
            index + 3 <= usize::MAX,
        ensures
            r == index + self.spec_increment(),
    {
        index + (match self {
            Phase::Zero | Phase::Two | Phase::One => 2,
            Phase::Four | Phase::Three => 3,
        })
    }

    /// The weighted difference that decides one PPM bit: positive means the
    /// pulse sits in the first half of the symbol (a one bit). Coefficients
    /// are hand-tuned per phase for weak-signal performance.
    pub fn calculate_bit(self, m: &[u16]) -> (r: i32)
        requires
            m@.len() >= 4,
        ensures
            r == self.spec_calculate_bit(m@),
    {
        let m0 = m[0] as i32;
        let m1 = m[1] as i32;
        let m2 = m[2] as i32;
        match self {
            Phase::Zero => 18 * m0 - 15 * m1 - 3 * m2,
            Phase::One => 14 * m0 - 5 * m1 - 9 * m2,
            Phase::Two => 16 * m0 + 5 * m1 - 20 * m2,
            Phase::Three => 7 * m0 + 11 * m1 - 18 * m2,
            Phase::Four => 4 * m0 + 15 * m1 - 20 * m2 + (m[3] as i32),
        }
    }

    /// The weighted difference for this phase over the next samples.
    pub open spec fn spec_calculate_bit(self, m: Seq<u16>) -> int {
        let m0 = m[0] as int;
        let m1 = m[1] as int;
        let m2 = m[2] as int;
        match self {
            Phase::Zero => 18 * m0 - 15 * m1 - 3 * m2,
            Phase::One => 14 * m0 - 5 * m1 - 9 * m2,
            Phase::Two => 16 * m0 + 5 * m1 - 20 * m2,
            Phase::Three => 7 * m0 + 11 * m1 - 18 * m2,
            Phase::Four => 4 * m0 + 15 * m1 - 20 * m2 + (m[3] as int),
        }
    }
}

impl From<usize> for Phase {
    /// The phase with number `num` (mod 5).
    fn from(num: usize) -> (r: Self)
        ensures
            r == Phase::spec_from_index(num as int),
    {
        let rem: usize = num % 5;
        if rem == 0 {
            Phase::Zero
        } else if rem == 1 {
            Phase::One
        } else if rem == 2 {
            Phase::Two
        } else if rem == 3 {
            Phase::Three
        } else {
            Phase::Four
        }
    }
}

impl vstd::std_specs::convert::FromSpecImpl<usize> for Phase {
    open spec fn obeys_from_spec() -> bool {
        true
    }

    open spec fn from_spec(num: usize) -> Phase {
        Phase::spec_from_index(num as int)
    }
}

/// What a preamble window matches: the detected phase's mean peak level and
/// the signal and noise sums used for the SNR gate, or nothing.
pub open spec fn spec_check_preamble(p: Seq<u16>) -> Option<(i32, u32, u32)> {
    if !(p[0] < p[1] && p[12] > p[13]) {
        None
    } else if p[1] > p[2] && p[2] < p[3] && p[3] > p[4] && p[8] < p[9] && p[9] > p[10] && p[10]
        < p[11] {
        // peaks at 1, 3, 9, 11-12: phase 3
        Some(
            (
                (((p[1] + p[3] + p[9] + p[11] + p[12]) / 4) as i32),
                ((p[1] + p[3] + p[9]) as u32),
                ((p[5] + p[6] + p[7]) as u32),
            ),
        )
    } else if p[1] > p[2] && p[2] < p[3] && p[3] > p[4] && p[8] < p[9] && p[9] > p[10] && p[11]
        < p[12] {
        // peaks at 1, 3, 9, 12: phase 4
        Some(
            (
                (((p[1] + p[3] + p[9] + p[12]) / 4) as i32),
                ((p[1] + p[3] + p[9] + p[12]) as u32),
                ((p[5] + p[6] + p[7] + p[8]) as u32),
            ),
        )
    } else if p[1] > p[2] && p[2] < p[3] && p[4] > p[5] && p[8] < p[9] && p[10] > p[11] && p[11]
        < p[12] {
        // peaks at 1, 3-4, 9-10, 12: phase 5
        Some(
            (
                (((p[1] + p[3] + p[4] + p[9] + p[10] + p[12]) / 4) as i32),
                ((p[1] + p[12]) as u32),
                ((p[6] + p[7]) as u32),
            ),
        )
    } else if p[1] > p[2] && p[3] < p[4] && p[4] > p[5] && p[9] < p[10] && p[10] > p[11] && p[11]
        < p[12] {
        // peaks at 1, 4, 10, 12: phase 6
        Some(
            (
                (((p[1] + p[4] + p[10] + p[12]) / 4) as i32),
                ((p[1] + p[4] + p[10] + p[12]) as u32),
                ((p[5] + p[6] + p[7] + p[8]) as u32),
            ),
        )
    } else if p[2] > p[3] && p[3] < p[4] && p[4] > p[5] && p[9] < p[10] && p[10] > p[11] && p[11]
        < p[12] {
        // peaks at 1-2, 4, 10, 12: phase 7
        Some(
            (
                (((p[1] + p[2] + p[4] + p[10] + p[12]) / 4) as i32),
                ((p[4] + p[10] + p[12]) as u32),
                ((p[6] + p[7] + p[8]) as u32),
            ),
        )
    } else {
        None
    }
}

/// Test a 14-sample window against the five Mode S preamble peak patterns:
/// a rising edge into sample 1, a falling edge out of sample 12, and one
/// phase-specific set of strict local maxima. On a match, return the mean
/// peak level and the signal and noise sums for the SNR gate.
pub fn check_preamble(preamble: &[u16]) -> (r: Option<(i32, u32, u32)>)
    requires
        preamble@.len() == 14,
    ensures
        r == spec_check_preamble(preamble@),
{
    // quick check: we must have a rising edge 0->1 and a falling edge 12->13
    if !(preamble[0] < preamble[1] && preamble[12] > preamble[13]) {
        return None;
    }

    // check the rising and falling edges of the signal
    if preamble[1] > preamble[2] && preamble[2] < preamble[3] && preamble[3] > preamble[4]
        && preamble[8] < preamble[9] && preamble[9] > preamble[10] && preamble[10] < preamble[11] {
        // peaks at 1, 3, 9, 11-12: phase 3
        let high = ((preamble[1] as u32) + (preamble[3] as u32) + (preamble[9] as u32)
            + (preamble[11] as u32) + (preamble[12] as u32)) / 4;
        let base_signal = (preamble[1] as u32) + (preamble[3] as u32) + (preamble[9] as u32);
        let base_noise = (preamble[5] as u32) + (preamble[6] as u32) + (preamble[7] as u32);
        Some(((high as i32), base_signal, base_noise))
    } else if preamble[1] > preamble[2] && preamble[2] < preamble[3] && preamble[3] > preamble[4]
        && preamble[8] < preamble[9] && preamble[9] > preamble[10] && preamble[11] < preamble[12] {
        // peaks at 1, 3, 9, 12: phase 4
        let high = ((preamble[1] as u32) + (preamble[3] as u32) + (preamble[9] as u32)
            + (preamble[12] as u32)) / 4;
        let base_signal = (preamble[1] as u32) + (preamble[3] as u32) + (preamble[9] as u32)
            + (preamble[12] as u32);
        let base_noise = (preamble[5] as u32) + (preamble[6] as u32) + (preamble[7] as u32)
            + (preamble[8] as u32);
        Some(((high as i32), base_signal, base_noise))
    } else if preamble[1] > preamble[2] && preamble[2] < preamble[3] && preamble[4] > preamble[5]
        && preamble[8] < preamble[9] && preamble[10] > preamble[11] && preamble[11] < preamble[12] {
        // peaks at 1, 3-4, 9-10, 12: phase 5
        let high = ((preamble[1] as u32) + (preamble[3] as u32) + (preamble[4] as u32)
            + (preamble[9] as u32) + (preamble[10] as u32) + (preamble[12] as u32)) / 4;
        let base_signal = (preamble[1] as u32) + (preamble[12] as u32);
        let base_noise = (preamble[6] as u32) + (preamble[7] as u32);
        Some(((high as i32), base_signal, base_noise))
    } else if preamble[1] > preamble[2] && preamble[3] < preamble[4] && preamble[4] > preamble[5]
        && preamble[9] < preamble[10] && preamble[10] > preamble[11] && preamble[11] < preamble[12]
    {
        // peaks at 1, 4, 10, 12: phase 6
        let high = ((preamble[1] as u32) + (preamble[4] as u32) + (preamble[10] as u32)
            + (preamble[12] as u32)) / 4;
        let base_signal = (preamble[1] as u32) + (preamble[4] as u32) + (preamble[10] as u32)
            + (preamble[12] as u32);
        let base_noise = (preamble[5] as u32) + (preamble[6] as u32) + (preamble[7] as u32)
            + (preamble[8] as u32);
        Some(((high as i32), base_signal, base_noise))
    } else if preamble[2] > preamble[3] && preamble[3] < preamble[4] && preamble[4] > preamble[5]
        && preamble[9] < preamble[10] && preamble[10] > preamble[11] && preamble[11] < preamble[12]
    {
        // peaks at 1-2, 4, 10, 12: phase 7
        let high = ((preamble[1] as u32) + (preamble[2] as u32) + (preamble[4] as u32)
            + (preamble[10] as u32) + (preamble[12] as u32)) / 4;
        let base_signal = (preamble[4] as u32) + (preamble[10] as u32) + (preamble[12] as u32);
        let base_noise = (preamble[6] as u32) + (preamble[7] as u32) + (preamble[8] as u32);
        Some(((high as i32), base_signal, base_noise))
    } else {
        None
    }
}


/// One PPM byte as the slicer reads it: eight bits folded in most
/// significant first, each decided by the weighted difference at the
/// current sample position and phase. Returns the byte, the next sample
/// position, and the next phase.
pub open spec fn spec_slice_byte(
    data: Seq<u16>,
    pos: int,
    phase: Phase,
    nbits: nat,
    acc: u8,
) -> (u8, int, Phase)
    decreases nbits,
{
    if nbits == 0 {
        (acc, pos, phase)
    } else {
        let bit: u8 = if phase.spec_calculate_bit(data.subrange(pos, pos + 4)) > 0 {
            1u8
        } else {
            0u8
        };
        spec_slice_byte(
            data,
            pos + phase.spec_increment(),
            phase.spec_next(),
            (nbits - 1) as nat,
            ((acc * 2 + bit) as u8),
        )
    }
}

/// A run of sliced bytes: each byte starts one `next_start` phase after the
/// previous byte's starting phase. Returns the bytes, the end position, and
/// the next byte's starting phase.
pub open spec fn spec_slice_run(data: Seq<u16>, pos: int, start_phase: Phase, nbytes: nat) -> (
    Seq<u8>,
    int,
    Phase,
)
    decreases nbytes,
{
    if nbytes == 0 {
        (Seq::empty(), pos, start_phase)
    } else {
        let b = spec_slice_byte(data, pos, start_phase, 8, 0);
        let rest = spec_slice_run(data, b.1, start_phase.spec_next_start(), (nbytes - 1) as nat);
        (seq![b.0] + rest.0, rest.1, rest.2)
    }
}

/// Extending a run by one byte appends the byte sliced at the run's end
/// state.
pub proof fn lemma_slice_run_snoc(data: Seq<u16>, pos: int, ph: Phase, n: nat)
    ensures
        ({
            let run = spec_slice_run(data, pos, ph, n);
            let b = spec_slice_byte(data, run.1, run.2, 8, 0);
            let ext = spec_slice_run(data, pos, ph, (n + 1) as nat);
            &&& ext.0 == run.0 + seq![b.0]
            &&& ext.1 == b.1
            &&& ext.2 == run.2.spec_next_start()
        }),
    decreases n,
{
    reveal_with_fuel(spec_slice_run, 3);
    let b0 = spec_slice_byte(data, pos, ph, 8, 0);
    if n == 0 {
        assert(spec_slice_run(data, pos, ph, 1).0 =~= spec_slice_run(data, pos, ph, 0).0
            + seq![b0.0]);
    } else {
        lemma_slice_run_snoc(data, b0.1, ph.spec_next_start(), (n - 1) as nat);
        let run = spec_slice_run(data, pos, ph, n);
        let inner = spec_slice_run(data, b0.1, ph.spec_next_start(), (n - 1) as nat);
        let b = spec_slice_byte(data, run.1, run.2, 8, 0);
        assert(spec_slice_run(data, pos, ph, (n + 1) as nat).0 =~= run.0 + seq![b.0]);
    }
}

/// The 14-byte candidate frame sliced at window `j` with starting phase
/// `try_phase`.
pub open spec fn spec_candidate(data: Seq<u16>, j: int, try_phase: int) -> Seq<u8> {
    spec_slice_run(data, j + 19 + try_phase / 5, Phase::spec_from_index(try_phase), 14).0
}

/// Some slicing phase of window `j` yields a fresh extended squitter with a
/// zero checksum: such a candidate scores at least 1400 whatever the filter
/// holds.
pub open spec fn spec_df17_candidate(data: Seq<u16>, j: int, tp: int) -> bool {
    let c = spec_candidate(data, j, tp);
    spec_df(c) == 17 && spec_checksum(c, 14) == 0
}

/// Window `j` must produce a frame: its preamble matches, it passes the SNR
/// and quiet gates, and at least one slicing phase yields an extended
/// squitter with a zero checksum.
pub open spec fn spec_df17_window(mag: MagnitudeBuffer, j: int) -> bool {
    let d = mag.data@;
    let pre = spec_check_preamble(d.subrange(j, j + 14));
    &&& pre is Some
    &&& ({
        let t = pre.unwrap();
        &&& t.1 * 2 >= 3 * t.2
        &&& (d[j + 5] as int) < t.0 && (d[j + 6] as int) < t.0 && (d[j + 7] as int) < t.0
        &&& (d[j + 8] as int) < t.0 && (d[j + 14] as int) < t.0 && (d[j + 15] as int) < t.0
        &&& (d[j + 16] as int) < t.0 && (d[j + 17] as int) < t.0 && (d[j + 18] as int) < t.0
    })
    &&& exists|tp: int| 4 <= tp < 9 && #[trigger] spec_df17_candidate(d, j, tp)
}


/// Slice one PPM bit and fold it into the running byte.
fn slice_bit(data: &Vec<u16>, pos: usize, phase: Phase, acc: u8) -> (r: (u8, usize, Phase))
    requires
        pos + 4 <= data@.len(),
        data@.len() <= usize::MAX,
        acc < 128,
    ensures
        r.0 == acc * 2 + (if phase.spec_calculate_bit(
            data@.subrange(pos as int, pos as int + 4),
        ) > 0 {
            1u8
        } else {
            0u8
        }),
        r.1 == pos + phase.spec_increment(),
        r.2 == phase.spec_next(),
{
    let b = phase.calculate_bit(slice_subrange(data.as_slice(), pos, pos + 4));
    let bit: u8 = if b > 0 {
        1
    } else {
        0
    };
    (acc * 2 + bit, phase.increment_index(pos), phase.next())
}

/// Slice one byte out of the magnitude stream: eight PPM bits starting at
/// sample `pos0` in phase `phase0`. Returns the byte, the next sample
/// position (at most 20 samples on), and the next phase.
#[verifier::rlimit(100)]
#[verifier::spinoff_prover]
fn slice_byte(data: &Vec<u16>, pos0: usize, phase0: Phase) -> (r: (u8, usize, Phase))
    requires
        pos0 + 24 <= data@.len(),
        data@.len() <= usize::MAX,
    ensures
        pos0 + 16 <= r.1 <= pos0 + 20,
        ({
            let s = spec_slice_byte(data@, pos0 as int, phase0, 8, 0);
            r.0 == s.0 && r.1 == s.1 && r.2 == s.2
        }),
{
    let mut the_byte: u8 = 0;
    let mut pos: usize = pos0;
    let mut phase: Phase = phase0;

    let s0 = slice_bit(data, pos, phase, the_byte);
    the_byte = s0.0;
    pos = s0.1;
    phase = s0.2;
    proof {
        assert(the_byte <= 1);
        assert(spec_slice_byte(data@, pos0 as int, phase0, 8, 0) == spec_slice_byte(
            data@,
            pos as int,
            phase,
            7 as nat,
            the_byte,
        ));
    }

    let s1 = slice_bit(data, pos, phase, the_byte);
    the_byte = s1.0;
    pos = s1.1;
    phase = s1.2;
    proof {
        assert(the_byte <= 3);
        assert(spec_slice_byte(data@, pos0 as int, phase0, 8, 0) == spec_slice_byte(
            data@,
            pos as int,
            phase,
            6 as nat,
            the_byte,
        ));
    }

    let s2 = slice_bit(data, pos, phase, the_byte);
    the_byte = s2.0;
    pos = s2.1;
    phase = s2.2;
    proof {
        assert(the_byte <= 7);
        assert(spec_slice_byte(data@, pos0 as int, phase0, 8, 0) == spec_slice_byte(
            data@,
            pos as int,
            phase,
            5 as nat,
            the_byte,
        ));
    }

    let s3 = slice_bit(data, pos, phase, the_byte);
    the_byte = s3.0;
    pos = s3.1;
    phase = s3.2;
    proof {
        assert(the_byte <= 15);
        assert(spec_slice_byte(data@, pos0 as int, phase0, 8, 0) == spec_slice_byte(
            data@,
            pos as int,
            phase,
            4 as nat,
            the_byte,
        ));
    }

    let s4 = slice_bit(data, pos, phase, the_byte);
    the_byte = s4.0;
    pos = s4.1;
    phase = s4.2;
    proof {
        assert(the_byte <= 31);
        assert(spec_slice_byte(data@, pos0 as int, phase0, 8, 0) == spec_slice_byte(
            data@,
            pos as int,
            phase,
            3 as nat,
            the_byte,
        ));
    }

    let s5 = slice_bit(data, pos, phase, the_byte);
    the_byte = s5.0;
    pos = s5.1;
    phase = s5.2;
    proof {
        assert(the_byte <= 63);
        assert(spec_slice_byte(data@, pos0 as int, phase0, 8, 0) == spec_slice_byte(
            data@,
            pos as int,
            phase,
            2 as nat,
            the_byte,
        ));
    }

    let s6 = slice_bit(data, pos, phase, the_byte);
    the_byte = s6.0;
    pos = s6.1;
    phase = s6.2;
    proof {
        assert(the_byte <= 127);
        assert(spec_slice_byte(data@, pos0 as int, phase0, 8, 0) == spec_slice_byte(
            data@,
            pos as int,
            phase,
            1 as nat,
            the_byte,
        ));
    }

    let s7 = slice_bit(data, pos, phase, the_byte);
    the_byte = s7.0;
    pos = s7.1;
    phase = s7.2;
    proof {
        assert(the_byte <= 255);
        assert(spec_slice_byte(data@, pos0 as int, phase0, 8, 0) == spec_slice_byte(
            data@,
            pos as int,
            phase,
            0 as nat,
            the_byte,
        ));
    }

    (the_byte, pos, phase)
}

/// Every frame the demodulator hands out was accepted by the scorer: it is
/// well formed, still undecoded, non-negatively scored, its length matches
/// its Downlink Format, extended squitters carry a zero checksum, and
/// all-call replies a checksum that is zero outside the interrogator bits.
pub open spec fn spec_demod_frame_ok(m: ModeSMessage) -> bool {
    &&& m.wf()
    &&& m.undecoded()
    &&& m.score >= 0
    &&& (spec_df(m.msg@) >= 16 <==> m.msglen == MsgLen::Long)
    &&& (spec_df(m.msg@) == 17 || spec_df(m.msg@) == 18) ==> spec_checksum(m.msg@, 14) == 0
    &&& spec_df(m.msg@) == 11 ==> spec_checksum(m.msg@, 7) & 0x00ff_ff80 == 0
}


/// An emitted frame's bytes come from the signal: they are the prefix of
/// the candidate sliced at the frame's own window at one of the five
/// phases, possibly with one bit repaired, and the frame's timestamp names
/// that window.
pub open spec fn spec_frame_from_signal(m: ModeSMessage, mag: MagnitudeBuffer) -> bool {
    exists|jj: int, tp: int|
        #![trigger spec_candidate(mag.data@, jj, tp)]
        {
            &&& 0 <= jj < mag.length
            &&& 4 <= tp < 9
            &&& m.timestamp_msg == mag.first_sample_timestamp_12mhz + 5 * jj
            &&& ({
                let c = spec_candidate(mag.data@, jj, tp).take(m.msg@.len() as int);
                m.msg@ == c || (exists|k: nat|
                    #![trigger bit_flipped(c, k)]
                    k < m.msg@.len() * 8 && m.msg@ == bit_flipped(c, k))
            })
        }
}

/// An emitted Address/Parity frame names an aircraft the filter knows: its
/// nonzero checksum syndrome, which is the sender's address, is stored in
/// one of the filter's generations.
pub open spec fn spec_ap_frame_known(m: ModeSMessage, f: IcaoFilter) -> bool {
    let df = spec_df(m.msg@);
    let crc = spec_checksum(m.msg@, spec_msg_bits(df) / 8);
    (df == 0 || df == 4 || df == 5 || df == 16 || df == 20 || df == 21 || (24 <= df && df <= 31))
        && crc != 0 ==> seq_contains(f.a@, crc) || seq_contains(f.b@, crc)
}

/// Demodulate one magnitude buffer: detect preambles, slice candidate
/// frames at five sub-sample phases, keep the best-scoring candidate at
/// each position, attempt single-bit repair on weak acceptances, and return
/// the accepted frames in sample order with monotone timestamps. The scan
/// covers windows starting at cells `0 .. length`: the tail carried over
/// from the previous buffer and every new sample whose window fits in the
/// oversized storage; the remaining tail is scanned in the next buffer.
#[verifier::rlimit(100)]
#[verifier::spinoff_prover]
pub fn demodulate2400(filter: &mut IcaoFilter, mag: &MagnitudeBuffer) -> (r: Result<
    Vec<ModeSMessage>,
    &'static str,
>)
    requires
        old(filter).wf(),
        mag.wf(),
        mag.first_sample_timestamp_12mhz + 5 * (mag.length as int) <= u64::MAX,
    ensures
        final(filter).wf(),
        final(filter).b@ == old(filter).b@,
        forall|v: u32| v != 0 && seq_contains(old(filter).a@, v)
            ==> seq_contains(final(filter).a@, v),
        r is Ok,
        ({
            let msgs = r.unwrap()@;
            &&& forall|i: int| 0 <= i < msgs.len() ==> spec_demod_frame_ok(#[trigger] msgs[i])
            &&& forall|i: int| 0 <= i < msgs.len() ==> spec_frame_from_signal(
                #[trigger] msgs[i],
                *mag,
            )
            &&& forall|i: int, k: int| 0 <= i <= k < msgs.len()
                ==> #[trigger] msgs[i].timestamp_msg <= #[trigger] msgs[k].timestamp_msg
            &&& forall|i: int| 0 <= i < msgs.len() ==> spec_ap_frame_known(
                #[trigger] msgs[i],
                *final(filter),
            )
            &&& forall|jj: int| 0 <= jj < mag.length && #[trigger] spec_df17_window(*mag, jj)
                ==> exists|i: int| 0 <= i < msgs.len() && (#[trigger] msgs[i]).timestamp_msg
                    == mag.first_sample_timestamp_12mhz + 5 * jj
        }),
{
    let mut results: Vec<ModeSMessage> = Vec::new();

    let data: &Vec<u16> = &mag.data;

    let mut j: usize = 0;
    while j < mag.length
        invariant
            filter.wf(),
            filter.b@ == old(filter).b@,
            forall|v: u32| v != 0 && seq_contains(old(filter).a@, v)
                ==> seq_contains(filter.a@, v),
            mag.wf(),
            mag.first_sample_timestamp_12mhz + 5 * (mag.length as int) <= u64::MAX,
            data == &mag.data,
            j <= mag.length,
            forall|i: int| 0 <= i < results@.len() ==> spec_demod_frame_ok(#[trigger] results@[i]),
            forall|i: int| 0 <= i < results@.len() ==> spec_frame_from_signal(
                #[trigger] results@[i],
                *mag,
            ),
            forall|i: int| 0 <= i < results@.len()
                ==> #[trigger] results@[i].timestamp_msg
                    <= mag.first_sample_timestamp_12mhz + 5 * j,
            forall|i: int, k: int| 0 <= i <= k < results@.len()
                ==> #[trigger] results@[i].timestamp_msg
                    <= #[trigger] results@[k].timestamp_msg,
            forall|i: int| 0 <= i < results@.len() ==> spec_ap_frame_known(
                #[trigger] results@[i],
                *filter,
            ),
            forall|jj: int| 0 <= jj < j && #[trigger] spec_df17_window(*mag, jj)
                ==> exists|i: int| 0 <= i < results@.len() && (#[trigger] results@[i]).timestamp_msg
                    == mag.first_sample_timestamp_12mhz + 5 * jj,
        decreases mag.length - j,
    {
        let window = slice_subrange(data.as_slice(), j, j + 14);
        if let Some((high, base_signal, base_noise)) = check_preamble(window) {
            // Check for enough signal: about 3.5 dB SNR
            let enough = base_signal * 2 >= 3 * base_noise;

            // Check that the "quiet" bit positions really are quiet
            let quiet = enough && (data[j + 5] as i32) < high && (data[j + 6] as i32) < high
                && (data[j + 7] as i32) < high && (data[j + 8] as i32) < high
                && (data[j + 14] as i32) < high && (data[j + 15] as i32) < high
                && (data[j + 16] as i32) < high && (data[j + 17] as i32) < high
                && (data[j + 18] as i32) < high;

            if quiet {
                // Try all five phases, keeping the best-scoring candidate
                let mut best_score: i32 = -2;
                let mut best_len: MsgLen = MsgLen::Short;
                let mut best_msg: Vec<u8> = crate::types::zero_bytes(14);
                let mut best_power: u64 = 0;

                let mut try_phase: usize = 4;
                while try_phase < 9
                    invariant
                        filter.wf(),
                        filter.b@ == old(filter).b@,
                        forall|v: u32| v != 0 && seq_contains(old(filter).a@, v)
                            ==> seq_contains(filter.a@, v),
                        mag.wf(),
                        data == &mag.data,
                        j < mag.length,
                        4 <= try_phase <= 9,
                        best_msg@.len() == 14,
                        best_score >= 0 ==> (exists|tp: int|
                            #![trigger spec_candidate(mag.data@, j as int, tp)]
                            4 <= tp < 9 && best_msg@ == spec_candidate(mag.data@, j as int, tp)),
                        best_score >= 0 ==> {
                            &&& (spec_df(best_msg@) >= 16 <==> best_len == MsgLen::Long)
                            &&& (spec_df(best_msg@) == 17 || spec_df(best_msg@) == 18)
                                ==> spec_checksum(best_msg@, 14) == 0
                            &&& spec_df(best_msg@) == 11
                                ==> spec_checksum(best_msg@, 7) & 0x00ff_ff80 == 0
                            &&& best_score < 1000 ==> spec_df(best_msg@) == 11
                                && spec_checksum(best_msg@, 7) == 0
                            &&& ({
                                let df = spec_df(best_msg@);
                                let crc = spec_checksum(best_msg@, spec_msg_bits(df) / 8);
                                (df == 0 || df == 4 || df == 5 || df == 16 || df == 20 || df == 21
                                    || (24 <= df && df <= 31)) && crc != 0 ==> seq_contains(
                                    filter.a@,
                                    crc,
                                ) || seq_contains(filter.b@, crc)
                            })
                        },
                        (exists|tp: int| 4 <= tp < try_phase && #[trigger] spec_df17_candidate(
                            mag.data@,
                            j as int,
                            tp,
                        )) ==> best_score >= 1400,
                        forall|i: int| 0 <= i < results@.len() ==> spec_ap_frame_known(
                            #[trigger] results@[i],
                            *filter,
                        ),
                    decreases 9 - try_phase,
                {
                    let mut slice_loc: usize = j + 19 + (try_phase / 5);
                    let mut phase: Phase = Phase::from(try_phase);
                    let ghost run_pos0 = slice_loc as int;
                    let ghost run_ph0 = phase;

                    let mut msg: Vec<u8> = Vec::new();
                    let mut byte_i: usize = 0;
                    while byte_i < 14
                        invariant
                            mag.wf(),
                            data == &mag.data,
                            j < mag.length,
                            byte_i <= 14,
                            msg@.len() == byte_i,
                            slice_loc <= j + 21 + 20 * byte_i,
                            run_pos0 == j + 19 + (try_phase / 5),
                            ({
                                let run = spec_slice_run(data@, run_pos0, run_ph0, byte_i as nat);
                                &&& msg@ == run.0
                                &&& slice_loc == run.1
                                &&& phase == run.2
                            }),
                        decreases 14 - byte_i,
                    {
                        proof {
                            lemma_slice_run_snoc(data@, run_pos0, run_ph0, byte_i as nat);
                        }
                        let starting_phase = phase;
                        let (the_byte, new_pos, _end_phase) = slice_byte(data, slice_loc, phase);
                        msg.push(the_byte);
                        slice_loc = new_pos;
                        phase = starting_phase.next_start();
                        byte_i += 1;
                    }
                    proof {
                        assert(msg@ == spec_candidate(data@, j as int, try_phase as int));
                    }
                    let ghost cand = msg@;

                    let scored = score_modes_message(filter, msg.as_slice());
                    if let Some((msglen, score)) = scored {
                        if score > best_score {
                            best_len = msglen;
                            best_score = score;
                            best_msg = msg;
                            proof {
                                assert(best_msg@ == spec_candidate(
                                    mag.data@,
                                    j as int,
                                    try_phase as int,
                                ));
                            }

                            // Scaled signal power over the frame body
                            let mut scaled_signal_power: u64 = 0;
                            let mut k: usize = 0;
                            while k < 33
                                invariant
                                    mag.wf(),
                                    data == &mag.data,
                                    j < mag.length,
                                    k <= 33,
                                    scaled_signal_power <= (k as u64) * 0xffff_ffff,
                                decreases 33 - k,
                            {
                                let s: u64 = data[j + 19 + k] as u64;
                                proof {
                                    assert(s * s <= 0xffff_ffff) by (nonlinear_arith)
                                        requires s <= 0xffff;
                                }
                                scaled_signal_power = scaled_signal_power + s * s;
                                k += 1;
                            }
                            best_power = scaled_signal_power;
                        }
                    }
                    proof {
                        if spec_df17_candidate(mag.data@, j as int, try_phase as int) {
                            // an all-zero candidate would carry Downlink Format 0
                            assert(!spec_all_zero(cand)) by {
                                if spec_all_zero(cand) {
                                    lemma_zero_bits(cand, 0, 4);
                                }
                            }
                            assert(best_score >= 1400);
                        }
                    }
                    try_phase += 1;
                }

                // Do we have a candidate?
                if best_score >= 0 {
                    let ghost tp0 = choose|tp: int|
                        #![trigger spec_candidate(mag.data@, j as int, tp)]
                        4 <= tp < 9 && best_msg@ == spec_candidate(mag.data@, j as int, tp);
                    let nbytes: usize = if best_len == MsgLen::Long {
                        14
                    } else {
                        7
                    };
                    let mut mvec: Vec<u8> = sub_bytes(&best_msg, 0, nbytes);
                    proof {
                        lemma_getbits_prefix(mvec@, best_msg@, 0, 4);
                        if nbytes == 14 {
                            assert(mvec@ =~= best_msg@);
                        }
                        lemma_checksum_prefix(mvec@, best_msg@, 7);
                        assert(mvec@ =~= spec_candidate(mag.data@, j as int, tp0).take(
                            nbytes as int,
                        ));
                    }
                    let ghost pre_fix = mvec@;

                    // Try to recover messages with single-bit errors if the
                    // CRC is not yet proven
                    if best_score < 1000 {
                        let msgbits: usize = if best_len == MsgLen::Long {
                            112
                        } else {
                            56
                        };
                        // A weak acceptance can only be a fresh all-call
                        // reply, whose checksum is already zero, so the
                        // repair never rewrites the frame.
                        let repaired = fix_single_bit_error(&mut mvec, msgbits);
                        if repaired.is_some() {
                            if let Some((_, new_score)) = score_modes_message(
                                filter,
                                mvec.as_slice(),
                            ) {
                                if new_score > best_score {
                                    best_score = new_score;
                                }
                            }
                        }
                        proof {
                            if let Some(kf) = repaired {
                                assert(mvec@ == bit_flipped(pre_fix, kf as nat)
                                    && kf < 8 * nbytes);
                            }
                        }
                    }

                    let ghost results_pre = results@;
                    let mut out = ModeSMessage::from_raw(best_len, mvec);
                    out.score = best_score;
                    out.signal_power_scaled = best_power;
                    out.signal_len = 33;
                    out.timestamp_msg = mag.first_sample_timestamp_12mhz + 5 * (j as u64);
                    proof {
                        let c = spec_candidate(mag.data@, j as int, tp0).take(out.msg@.len() as int);
                        assert(c == pre_fix);
                        assert(out.msg@ == c || (exists|k: nat|
                            #![trigger bit_flipped(c, k)]
                            k < out.msg@.len() * 8 && out.msg@ == bit_flipped(c, k)));
                        assert(spec_frame_from_signal(out, *mag));
                    }
                    results.push(out);
                    proof {
                        assert(results@[results@.len() - 1].timestamp_msg
                            == mag.first_sample_timestamp_12mhz + 5 * (j as int));
                        assert forall|jj: int| 0 <= jj < j && #[trigger] spec_df17_window(
                            *mag,
                            jj,
                        ) implies exists|i: int| 0 <= i < results@.len()
                            && (#[trigger] results@[i]).timestamp_msg
                            == mag.first_sample_timestamp_12mhz + 5 * jj by {
                            let i0 = choose|i: int| 0 <= i < results_pre.len()
                                && (#[trigger] results_pre[i]).timestamp_msg
                                == mag.first_sample_timestamp_12mhz + 5 * jj;
                            assert(results@[i0] == results_pre[i0]);
                            assert(results@[i0].timestamp_msg == mag.first_sample_timestamp_12mhz
                                + 5 * jj);
                        }
                    }
                }
            }
        }
        proof {
            assert forall|jj: int| 0 <= jj < j + 1 && #[trigger] spec_df17_window(*mag, jj)
                implies exists|i: int| 0 <= i < results@.len()
                && (#[trigger] results@[i]).timestamp_msg == mag.first_sample_timestamp_12mhz + 5
                * jj by {
                if jj == j && spec_df17_window(*mag, jj) {
                    assert(results@[results@.len() - 1].timestamp_msg
                        == mag.first_sample_timestamp_12mhz + 5 * jj);
                }
            }
        }
        j += 1;
    }

    Ok(results)
}

} // verus!
