use vstd::prelude::*;

use crate::numeric::isqrt64;
use crate::{MagnitudeBuffer, MODES_MAG_BUF_SAMPLES, TRAILING_SAMPLES};

verus! {

/// `r` is `num * sqrt(s) / den` rounded half up: the squared bracketing of
/// the real value, stated without square roots.
pub open spec fn rounded_scaled_sqrt(s: int, num: int, den: int, r: int) -> bool {
    &&& r >= 0
    &&& (r == 0 ==> 4 * num * num * s < den * den)
    &&& (r >= 1 ==> (2 * r - 1) * (2 * r - 1) * (den * den) <= 4 * (num * num) * s
        && 4 * (num * num) * s < (2 * r + 1) * (2 * r + 1) * (den * den))
}

/// The magnitude of one signed 16-bit IQ sample pair: the squared sum
/// normalized to full scale, clamped at 1, square-rooted, and scaled to 16
/// bits with rounding. Saturated inputs clamp to full scale exactly.
pub fn magnitude_from_iq(i: i16, q: i16) -> (r: u16)
    ensures
        ({
            let s = (i as int) * (i as int) + (q as int) * (q as int);
            &&& s >= 32768 * 32768 ==> r == 65535
            &&& s < 32768 * 32768 ==> rounded_scaled_sqrt(s, 65535, 32768, r as int)
        }),
{
    proof {
        assert((i as int) * (i as int) + (q as int) * (q as int) <= 2 * 32768 * 32768
            && (i as int) * (i as int) >= 0 && (q as int) * (q as int) >= 0)
            by (nonlinear_arith)
            requires
                -32768 <= i <= 32767,
                -32768 <= q <= 32767,
        ;
    }
    let s: u64 = ((i as i64) * (i as i64) + (q as i64) * (q as i64)) as u64;
    if s >= 32768 * 32768 {
        // Clamp the squared magnitude at full scale
        return 65535;
    }
    scaled_sqrt_rounded(s, 65535, 32768)
}

/// The magnitude of one unsigned byte IQ sample pair, each byte centered on
/// 127.5: the squared sum normalized to full scale, clamped at 1,
/// square-rooted, and scaled to 16 bits with rounding. This is the value an
/// entry of a byte-indexed lookup table holds.
pub fn magnitude_from_bytes(i: u8, q: u8) -> (r: u16)
    ensures
        ({
            // (i - 127.5) / 127.5 doubled to stay integral: (2i - 255) / 255
            let bi = 2 * (i as int) - 255;
            let bq = 2 * (q as int) - 255;
            let s = bi * bi + bq * bq;
            &&& s >= 255 * 255 ==> r == 65535
            &&& s < 255 * 255 ==> rounded_scaled_sqrt(s, 65535, 255, r as int)
        }),
{
    let bi: i64 = 2 * (i as i64) - 255;
    let bq: i64 = 2 * (q as i64) - 255;
    proof {
        assert((bi as int) * (bi as int) + (bq as int) * (bq as int) <= 2 * 255 * 255
            && (bi as int) * (bi as int) >= 0 && (bq as int) * (bq as int) >= 0)
            by (nonlinear_arith)
            requires
                -255 <= bi <= 255,
                -255 <= bq <= 255,
        ;
    }
    let s: u64 = (bi * bi + bq * bq) as u64;
    if s >= 255 * 255 {
        return 65535;
    }
    scaled_sqrt_rounded(s, 65535, 255)
}

/// Compute `num * sqrt(s) / den` rounded half up, for `s < den * den` (so
/// the result stays below `num`).
fn scaled_sqrt_rounded(s: u64, num: u64, den: u64) -> (r: u16)
    requires
        0 < den <= 32768,
        num == 65535,
        s < den * den,
    ensures
        rounded_scaled_sqrt(s as int, num as int, den as int, r as int),
        r <= 65535,
{
    proof {
        assert(4 * ((num * num) as int) * (s as int) < 0x1_0000_0000_0000_0000)
            by (nonlinear_arith)
            requires
                num == 65535u64,
                s < (den as int) * (den as int),
                0 < den <= 32768u64,
        ;
        assert((num * num) as int == (num as int) * (num as int)) by (nonlinear_arith);
    }
    let t: u64 = isqrt64(4 * (num * num) * s);
    let r64: u64 = (t + den) / (2 * den);
    proof {
        let ti = t as int;
        let di = den as int;
        let ri = r64 as int;
        vstd::arithmetic::div_mod::lemma_fundamental_div_mod((ti + di) as int, 2 * di);
        vstd::arithmetic::div_mod::lemma_mod_bound((ti + di) as int, 2 * di);
        // (2r - 1) * den <= t  and  t < (2r + 1) * den
        assert((2 * ri - 1) * di <= ti && ti < (2 * ri + 1) * di) by (nonlinear_arith)
            requires
                ti + di == 2 * di * ri + ((ti + di) % (2 * di)),
                0 <= (ti + di) % (2 * di) < 2 * di,
                di > 0,
        ;
        // square both brackets
        assert(ri >= 1 ==> (2 * ri - 1) * (2 * ri - 1) * (di * di) <= ti * ti)
            by (nonlinear_arith)
            requires
                (2 * ri - 1) * di <= ti,
                ti >= 0,
                di > 0,
                ri >= 0,
        ;
        assert((ti + 1) * (ti + 1) <= (2 * ri + 1) * (2 * ri + 1) * (di * di))
            by (nonlinear_arith)
            requires
                ti < (2 * ri + 1) * di,
                ti >= 0,
                di > 0,
                ri >= 0,
        ;
        assert(ri == 0 ==> ti < di) by (nonlinear_arith)
            requires
                ti < (2 * ri + 1) * di,
                ri >= 0,
                di > 0,
        ;
        assert(ri == 0 ==> 4 * ((num as int) * (num as int)) * (s as int) < di * di)
            by (nonlinear_arith)
            requires
                ri == 0 ==> ti < di,
                (ti as int) * (ti as int) <= 4 * ((num as int) * (num as int)) * (s as int),
                4 * ((num as int) * (num as int)) * (s as int) < (ti + 1) * (ti + 1),
                ti >= 0,
                di > 0,
        ;
        // the result is below full scale because s < den * den
        assert((ti as int) * (ti as int) < 4 * ((num as int) * (num as int)) * ((den as int) * (
        den as int))) by (nonlinear_arith)
            requires
                (ti as int) * (ti as int) <= 4 * ((num as int) * (num as int)) * (s as int),
                s < (den as int) * (den as int),
                num > 0u64,
                den > 0u64,
        ;
        assert(ri <= 65535) by (nonlinear_arith)
            requires
                (2 * ri - 1) * di <= ti,
                (ti as int) * (ti as int) < 4 * ((num as int) * (num as int)) * ((den as int)
                    * (den as int)),
                4 * ((num as int) * (num as int)) * (s as int) < (ti + 1) * (ti + 1),
                (ti as int) * (ti as int) <= 4 * ((num as int) * (num as int)) * (s as int),
                s < (den as int) * (den as int),
                num == 65535u64,
                den == di,
                di > 0,
                ti >= 0,
                ri >= 0,
        ;
    }
    r64 as u16
}

/// Convert a batch of signed 16-bit IQ sample pairs (imaginary part first,
/// as delivered by the stream) into a fresh magnitude buffer: sample `k`
/// lands in the cell after the (here all-zero) carried-tail region.
pub fn to_mag(data: &Vec<(i16, i16)>) -> (r: MagnitudeBuffer)
    requires
        data@.len() <= MODES_MAG_BUF_SAMPLES,
    ensures
        r.wf(),
        r.length == data@.len(),
        r.first_sample_timestamp_12mhz == 0,
        forall|k: int| 0 <= k < data@.len() ==> {
            let s = (#[trigger] data@[k]).0 * data@[k].0 + data@[k].1 * data@[k].1;
            &&& s >= 32768 * 32768 ==> r.data@[TRAILING_SAMPLES + k] == 65535
            &&& s < 32768 * 32768 ==> rounded_scaled_sqrt(
                s,
                65535,
                32768,
                r.data@[TRAILING_SAMPLES + k] as int,
            )
        },
{
    let mut outbuf = MagnitudeBuffer::default();
    let mut k: usize = 0;
    while k < data.len()
        invariant
            data@.len() <= MODES_MAG_BUF_SAMPLES,
            k <= data@.len(),
            outbuf.wf(),
            outbuf.length == k,
            outbuf.first_sample_timestamp_12mhz == 0,
            forall|j: int| 0 <= j < k ==> {
                let s = (#[trigger] data@[j]).0 * data@[j].0 + data@[j].1 * data@[j].1;
                &&& s >= 32768 * 32768 ==> outbuf.data@[TRAILING_SAMPLES + j] == 65535
                &&& s < 32768 * 32768 ==> rounded_scaled_sqrt(
                    s,
                    65535,
                    32768,
                    outbuf.data@[TRAILING_SAMPLES + j] as int,
                )
            },
        decreases data@.len() - k,
    {
        let (im, re) = data[k];
        let mag = magnitude_from_iq(im, re);
        outbuf.push(mag);
        k += 1;
    }
    outbuf
}

} // verus!
