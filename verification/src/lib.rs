//! Mode S / ADS-B receiver core: magnitude buffers, preamble detection and
//! PPM demodulation, CRC checking with single-bit repair, message scoring,
//! frame decoding, compact position reporting, and per-aircraft tracking.

use vstd::prelude::*;

pub mod cpr;
pub mod crc;
pub mod icao_filter;
pub mod mode_ac;
pub mod decode;
pub mod decode_es;
pub mod demod_2400;
pub mod magnitude;
pub mod mode_s;
pub mod numeric;
pub mod aircraft;
pub mod avr;
pub mod track;
pub mod types;

verus! {

/// Number of new magnitude samples a buffer holds.
pub const MODES_MAG_BUF_SAMPLES: usize = 131072;

/// Samples carried over from the previous buffer so that a frame straddling
/// the boundary stays fully visible to the demodulator.
pub const TRAILING_SAMPLES: usize = 326;

pub const MODES_LONG_MSG_BYTES: usize = 14;

pub const MODES_SHORT_MSG_BYTES: usize = 7;

/// Ticks of the canonical 12 MHz Mode S clock per second.
pub const MODE_S_CLOCK_HZ: u64 = 12_000_000;

/// A buffer of 16-bit magnitude samples, oversized by `TRAILING_SAMPLES`.
/// Cells `0 .. TRAILING_SAMPLES` hold the tail carried over from the
/// previous buffer; new samples are appended from `TRAILING_SAMPLES` on, and
/// `length` counts them. The demodulator scans windows starting at
/// `0 .. length`, so it covers the carried tail and stops `TRAILING_SAMPLES`
/// short of the newest sample; the uncovered tail is carried into the next
/// buffer and scanned there, so a frame straddling the boundary is seen
/// whole, exactly once.
pub struct MagnitudeBuffer {
    pub data: Vec<u16>,
    pub length: usize,
    /// Timestamp of the sample in cell 0 (the first carried sample), in
    /// ticks of the 12 MHz clock.
    pub first_sample_timestamp_12mhz: u64,
}

impl MagnitudeBuffer {
    /// The buffer's structural invariant: full backing storage, and no more
    /// than `MODES_MAG_BUF_SAMPLES` samples counted as live.
    pub open spec fn wf(&self) -> bool {
        &&& self.data@.len() == TRAILING_SAMPLES + MODES_MAG_BUF_SAMPLES
        &&& self.length <= MODES_MAG_BUF_SAMPLES
    }
}

impl Default for MagnitudeBuffer {
    /// An empty buffer with zeroed storage and a zero timestamp.
    fn default() -> (r: Self)
        ensures
            r.wf(),
            r.length == 0,
            r.first_sample_timestamp_12mhz == 0,
            forall|i: int| 0 <= i < r.data@.len() ==> r.data@[i] == 0u16,
    {
        let mut data: Vec<u16> = Vec::new();
        let mut i: usize = 0;
        while i < TRAILING_SAMPLES + MODES_MAG_BUF_SAMPLES
            invariant
                i <= TRAILING_SAMPLES + MODES_MAG_BUF_SAMPLES,
                data@.len() == i,
                forall|j: int| 0 <= j < i ==> data@[j] == 0u16,
            decreases TRAILING_SAMPLES + MODES_MAG_BUF_SAMPLES - i,
        {
            data.push(0);
            i += 1;
        }
        MagnitudeBuffer { data, length: 0, first_sample_timestamp_12mhz: 0 }
    }
}

impl MagnitudeBuffer {
    /// Append one magnitude sample after the carried tail: the `length`-th
    /// new sample lands in cell `TRAILING_SAMPLES + length`, so the carried
    /// tail in the leading cells is never overwritten. The timestamp does
    /// not move.
    pub fn push(&mut self, x: u16)
        requires
            old(self).wf(),
            old(self).length < MODES_MAG_BUF_SAMPLES,
        ensures
            final(self).wf(),
            final(self).length == old(self).length + 1,
            final(self).data@ == old(self).data@.update(
                TRAILING_SAMPLES + old(self).length as int,
                x,
            ),
            final(self).first_sample_timestamp_12mhz == old(self).first_sample_timestamp_12mhz,
    {
        self.data[TRAILING_SAMPLES + self.length] = x;
        self.length += 1;
    }

    /// Start the successor buffer. Its timestamp advances by the time span
    /// of the `length` windows this buffer's scan covered, and the last
    /// `TRAILING_SAMPLES` live samples, cells `length .. length +
    /// TRAILING_SAMPLES`, exactly the ones that scan stopped short of, are
    /// copied into its leading cells. Cell `i` of the successor thus holds
    /// the sample of cell `length + i` here, and the successor's timestamp
    /// names its cell 0, so a frame that straddles the boundary is scanned
    /// once, in the successor, with a consistent timestamp. The timestamp
    /// never moves backwards across a swap.
    pub fn next_buffer(&self, fs: u64) -> (r: MagnitudeBuffer)
        requires
            self.wf(),
            1 <= fs,
            self.first_sample_timestamp_12mhz
                + (self.length as int) * (MODE_S_CLOCK_HZ as int) / (fs as int) <= u64::MAX,
        ensures
            r.wf(),
            r.length == 0,
            r.first_sample_timestamp_12mhz == self.first_sample_timestamp_12mhz
                + (self.length as int) * (MODE_S_CLOCK_HZ as int) / (fs as int),
            r.first_sample_timestamp_12mhz >= self.first_sample_timestamp_12mhz,
            forall|i: int| 0 <= i < TRAILING_SAMPLES
                ==> r.data@[i] == self.data@[self.length + i],
    {
        let mut next = MagnitudeBuffer::default();
        let base: usize = self.length;
        let mut i: usize = 0;
        while i < TRAILING_SAMPLES
            invariant
                i <= TRAILING_SAMPLES,
                self.wf(),
                next.wf(),
                next.length == 0,
                next.first_sample_timestamp_12mhz == 0,
                base == self.length,
                forall|j: int| 0 <= j < i ==> next.data@[j] == self.data@[base + j],
            decreases TRAILING_SAMPLES - i,
        {
            let v: u16 = self.data[base + i];
            next.data[i] = v;
            i += 1;
        }
        proof {
            assert((self.length as u64) * MODE_S_CLOCK_HZ <= 131072u64 * 12_000_000u64)
                by (nonlinear_arith)
                requires self.length <= 131072;
        }
        next.first_sample_timestamp_12mhz = self.first_sample_timestamp_12mhz
            + (self.length as u64) * MODE_S_CLOCK_HZ / fs;
        next
    }
}

} // verus!
