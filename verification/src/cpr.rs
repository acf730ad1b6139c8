use vstd::prelude::*;
use vstd::arithmetic::div_mod::{
    lemma_fundamental_div_mod, lemma_fundamental_div_mod_converse, lemma_mod_bound,
};

verus! {

/// Why a global position decode was refused: the pair produced an
/// impossible latitude (bad data), or the two fragments straddle a
/// longitude zone boundary (retry with a fresh pair).
#[derive(Clone, Copy, Debug, PartialEq, Eq, Structural)]
pub enum CprError {
    BadData,
    ZoneMismatch,
}

/// The always-non-negative remainder of `a` by `b`.
pub fn cpr_mod_int(a: i32, b: i32) -> (r: i32)
    requires
        b > 0,
    ensures
        r == (a as int) % (b as int),
        0 <= r < b,
{
    if a >= 0 {
        let r: u32 = (a as u32) % (b as u32);
        proof {
            lemma_fundamental_div_mod(a as int, b as int);
        }
        r as i32
    } else {
        let na: u32 = (-(a as i64)) as u32;
        let q: u32 = na / (b as u32);
        let rem: u32 = na % (b as u32);
        proof {
            lemma_fundamental_div_mod(na as int, b as int);
            if rem == 0 {
                assert((a as int) == (-(q as int)) * (b as int) + 0) by (nonlinear_arith)
                    requires
                        (na as int) == (b as int) * (q as int) + (rem as int),
                        rem == 0,
                        (a as int) == -(na as int),
                ;
                lemma_fundamental_div_mod_converse(a as int, b as int, -(q as int), 0);
            } else {
                assert((a as int) == (-(q as int) - 1) * (b as int) + ((b as int) - (rem as int)))
                    by (nonlinear_arith)
                    requires
                        (na as int) == (b as int) * (q as int) + (rem as int),
                        (a as int) == -(na as int),
                ;
                lemma_fundamental_div_mod_converse(
                    a as int,
                    b as int,
                    -(q as int) - 1,
                    b - rem,
                );
            }
        }
        if rem == 0 {
            0
        } else {
            b - (rem as i32)
        }
    }
}

/// The number of longitude zones at latitude `num / den` degrees, from the
/// fixed table of 59 transition latitudes. Symmetric in the sign of the
/// latitude.
pub open spec fn spec_cpr_nl(num: int, den: int) -> int
    recommends
        den > 0,
{
    let a = if num < 0 { -num } else { num };
        if a * 100_000_000 < 1047047130 * den {
            59
        } else if a * 100_000_000 < 1482817437 * den {
            58
        } else if a * 100_000_000 < 1818626357 * den {
            57
        } else if a * 100_000_000 < 2102939493 * den {
            56
        } else if a * 100_000_000 < 2354504487 * den {
            55
        } else if a * 100_000_000 < 2582924707 * den {
            54
        } else if a * 100_000_000 < 2793898710 * den {
            53
        } else if a * 100_000_000 < 2991135686 * den {
            52
        } else if a * 100_000_000 < 3177209708 * den {
            51
        } else if a * 100_000_000 < 3353993436 * den {
            50
        } else if a * 100_000_000 < 3522899598 * den {
            49
        } else if a * 100_000_000 < 3685025108 * den {
            48
        } else if a * 100_000_000 < 3841241892 * den {
            47
        } else if a * 100_000_000 < 3992256684 * den {
            46
        } else if a * 100_000_000 < 4138651832 * den {
            45
        } else if a * 100_000_000 < 4280914012 * den {
            44
        } else if a * 100_000_000 < 4419454951 * den {
            43
        } else if a * 100_000_000 < 4554626723 * den {
            42
        } else if a * 100_000_000 < 4686733252 * den {
            41
        } else if a * 100_000_000 < 4816039128 * den {
            40
        } else if a * 100_000_000 < 4942776439 * den {
            39
        } else if a * 100_000_000 < 5067150166 * den {
            38
        } else if a * 100_000_000 < 5189342469 * den {
            37
        } else if a * 100_000_000 < 5309516153 * den {
            36
        } else if a * 100_000_000 < 5427817472 * den {
            35
        } else if a * 100_000_000 < 5544378444 * den {
            34
        } else if a * 100_000_000 < 5659318756 * den {
            33
        } else if a * 100_000_000 < 5772747354 * den {
            32
        } else if a * 100_000_000 < 5884763776 * den {
            31
        } else if a * 100_000_000 < 5995459277 * den {
            30
        } else if a * 100_000_000 < 6104917774 * den {
            29
        } else if a * 100_000_000 < 6213216659 * den {
            28
        } else if a * 100_000_000 < 6320427479 * den {
            27
        } else if a * 100_000_000 < 6426616523 * den {
            26
        } else if a * 100_000_000 < 6531845310 * den {
            25
        } else if a * 100_000_000 < 6636171008 * den {
            24
        } else if a * 100_000_000 < 6739646774 * den {
            23
        } else if a * 100_000_000 < 6842322022 * den {
            22
        } else if a * 100_000_000 < 6944242631 * den {
            21
        } else if a * 100_000_000 < 7045451075 * den {
            20
        } else if a * 100_000_000 < 7145986473 * den {
            19
        } else if a * 100_000_000 < 7245884545 * den {
            18
        } else if a * 100_000_000 < 7345177442 * den {
            17
        } else if a * 100_000_000 < 7443893416 * den {
            16
        } else if a * 100_000_000 < 7542056257 * den {
            15
        } else if a * 100_000_000 < 7639684391 * den {
            14
        } else if a * 100_000_000 < 7736789461 * den {
            13
        } else if a * 100_000_000 < 7833374083 * den {
            12
        } else if a * 100_000_000 < 7929428225 * den {
            11
        } else if a * 100_000_000 < 8024923213 * den {
            10
        } else if a * 100_000_000 < 8119801349 * den {
            9
        } else if a * 100_000_000 < 8213956981 * den {
            8
        } else if a * 100_000_000 < 8307199445 * den {
            7
        } else if a * 100_000_000 < 8399173563 * den {
            6
        } else if a * 100_000_000 < 8489166191 * den {
            5
        } else if a * 100_000_000 < 8575541621 * den {
            4
        } else if a * 100_000_000 < 8653536998 * den {
            3
        } else if a * 100_000_000 < 8700000000 * den {
            2
        } else {
            1
        }
}

/// Number of longitude zones at latitude `num / den` degrees.
pub fn cpr_nl(num: i64, den: i64) -> (r: u32)
    requires
        1 <= den <= 0x1_0000_0000,
        -0x7000_0000_0000 <= num <= 0x7000_0000_0000,
    ensures
        r == spec_cpr_nl(num as int, den as int),
        1 <= r <= 59,
{
    let a: i64 = if num < 0 {
        -num
    } else {
        num
    };
    let a_scaled: i128 = (a as i128) * 100_000_000;
        if a_scaled < 1047047130 * (den as i128) {
            59
        } else if a_scaled < 1482817437 * (den as i128) {
            58
        } else if a_scaled < 1818626357 * (den as i128) {
            57
        } else if a_scaled < 2102939493 * (den as i128) {
            56
        } else if a_scaled < 2354504487 * (den as i128) {
            55
        } else if a_scaled < 2582924707 * (den as i128) {
            54
        } else if a_scaled < 2793898710 * (den as i128) {
            53
        } else if a_scaled < 2991135686 * (den as i128) {
            52
        } else if a_scaled < 3177209708 * (den as i128) {
            51
        } else if a_scaled < 3353993436 * (den as i128) {
            50
        } else if a_scaled < 3522899598 * (den as i128) {
            49
        } else if a_scaled < 3685025108 * (den as i128) {
            48
        } else if a_scaled < 3841241892 * (den as i128) {
            47
        } else if a_scaled < 3992256684 * (den as i128) {
            46
        } else if a_scaled < 4138651832 * (den as i128) {
            45
        } else if a_scaled < 4280914012 * (den as i128) {
            44
        } else if a_scaled < 4419454951 * (den as i128) {
            43
        } else if a_scaled < 4554626723 * (den as i128) {
            42
        } else if a_scaled < 4686733252 * (den as i128) {
            41
        } else if a_scaled < 4816039128 * (den as i128) {
            40
        } else if a_scaled < 4942776439 * (den as i128) {
            39
        } else if a_scaled < 5067150166 * (den as i128) {
            38
        } else if a_scaled < 5189342469 * (den as i128) {
            37
        } else if a_scaled < 5309516153 * (den as i128) {
            36
        } else if a_scaled < 5427817472 * (den as i128) {
            35
        } else if a_scaled < 5544378444 * (den as i128) {
            34
        } else if a_scaled < 5659318756 * (den as i128) {
            33
        } else if a_scaled < 5772747354 * (den as i128) {
            32
        } else if a_scaled < 5884763776 * (den as i128) {
            31
        } else if a_scaled < 5995459277 * (den as i128) {
            30
        } else if a_scaled < 6104917774 * (den as i128) {
            29
        } else if a_scaled < 6213216659 * (den as i128) {
            28
        } else if a_scaled < 6320427479 * (den as i128) {
            27
        } else if a_scaled < 6426616523 * (den as i128) {
            26
        } else if a_scaled < 6531845310 * (den as i128) {
            25
        } else if a_scaled < 6636171008 * (den as i128) {
            24
        } else if a_scaled < 6739646774 * (den as i128) {
            23
        } else if a_scaled < 6842322022 * (den as i128) {
            22
        } else if a_scaled < 6944242631 * (den as i128) {
            21
        } else if a_scaled < 7045451075 * (den as i128) {
            20
        } else if a_scaled < 7145986473 * (den as i128) {
            19
        } else if a_scaled < 7245884545 * (den as i128) {
            18
        } else if a_scaled < 7345177442 * (den as i128) {
            17
        } else if a_scaled < 7443893416 * (den as i128) {
            16
        } else if a_scaled < 7542056257 * (den as i128) {
            15
        } else if a_scaled < 7639684391 * (den as i128) {
            14
        } else if a_scaled < 7736789461 * (den as i128) {
            13
        } else if a_scaled < 7833374083 * (den as i128) {
            12
        } else if a_scaled < 7929428225 * (den as i128) {
            11
        } else if a_scaled < 8024923213 * (den as i128) {
            10
        } else if a_scaled < 8119801349 * (den as i128) {
            9
        } else if a_scaled < 8213956981 * (den as i128) {
            8
        } else if a_scaled < 8307199445 * (den as i128) {
            7
        } else if a_scaled < 8399173563 * (den as i128) {
            6
        } else if a_scaled < 8489166191 * (den as i128) {
            5
        } else if a_scaled < 8575541621 * (den as i128) {
            4
        } else if a_scaled < 8653536998 * (den as i128) {
            3
        } else if a_scaled < 8700000000 * (den as i128) {
            2
        } else {
            1
        }
}

/// Division rounding toward negative infinity, for a positive divisor.
pub fn floor_div_i128(a: i128, b: i128) -> (r: i128)
    requires
        b > 0,
        -0x4000_0000_0000_0000_0000_0000 <= a <= 0x4000_0000_0000_0000_0000_0000,
        b <= 0x4000_0000_0000_0000_0000_0000,
    ensures
        r == (a as int) / (b as int),
{
    if a >= 0 {
        let q: u128 = (a as u128) / (b as u128);
        proof {
            lemma_fundamental_div_mod(a as int, b as int);
        }
        q as i128
    } else {
        let na: u128 = (-a) as u128;
        let q: u128 = na / (b as u128);
        let rem: u128 = na % (b as u128);
        proof {
            lemma_fundamental_div_mod(na as int, b as int);
            if rem == 0 {
                assert((a as int) == (-(q as int)) * (b as int) + 0) by (nonlinear_arith)
                    requires
                        (na as int) == (b as int) * (q as int) + (rem as int),
                        rem == 0,
                        (a as int) == -(na as int),
                ;
                lemma_fundamental_div_mod_converse(a as int, b as int, -(q as int), 0);
            } else {
                assert((a as int) == (-(q as int) - 1) * (b as int) + ((b as int) - (rem as int)))
                    by (nonlinear_arith)
                    requires
                        (na as int) == (b as int) * (q as int) + (rem as int),
                        (a as int) == -(na as int),
                ;
                lemma_fundamental_div_mod_converse(
                    a as int,
                    b as int,
                    -(q as int) - 1,
                    b - rem,
                );
            }
        }
        if rem == 0 {
            -(q as i128)
        } else {
            -(q as i128) - 1
        }
    }
}

/// The always-non-negative remainder, for wide intermediates.
pub fn pos_mod_i128(a: i128, b: i128) -> (r: i128)
    requires
        b > 0,
        -0x4000_0000_0000_0000_0000_0000 <= a <= 0x4000_0000_0000_0000_0000_0000,
        b <= 0x4000_0000_0000_0000_0000_0000,
    ensures
        r == (a as int) % (b as int),
        0 <= r < b,
{
    if a >= 0 {
        let r: u128 = (a as u128) % (b as u128);
        proof {
            lemma_fundamental_div_mod(a as int, b as int);
        }
        r as i128
    } else {
        let na: u128 = (-a) as u128;
        let q: u128 = na / (b as u128);
        let rem: u128 = na % (b as u128);
        proof {
            lemma_fundamental_div_mod(na as int, b as int);
            if rem == 0 {
                assert((a as int) == (-(q as int)) * (b as int) + 0) by (nonlinear_arith)
                    requires
                        (na as int) == (b as int) * (q as int) + (rem as int),
                        rem == 0,
                        (a as int) == -(na as int),
                ;
                lemma_fundamental_div_mod_converse(a as int, b as int, -(q as int), 0);
            } else {
                assert((a as int) == (-(q as int) - 1) * (b as int) + ((b as int) - (rem as int)))
                    by (nonlinear_arith)
                    requires
                        (na as int) == (b as int) * (q as int) + (rem as int),
                        (a as int) == -(na as int),
                ;
                lemma_fundamental_div_mod_converse(
                    a as int,
                    b as int,
                    -(q as int) - 1,
                    b - rem,
                );
            }
        }
        if rem == 0 {
            0
        } else {
            b - (rem as i128)
        }
    }
}

/// An angle held as an exact rational `num / den` degrees, rounded half-up
/// to nanodegrees.
pub open spec fn spec_round_nano(num: int, den: int) -> int
    recommends
        den > 0,
{
    (2 * num * 1_000_000_000 + den) / (2 * den)
}

/// Rounding an angle that lies between two whole degrees keeps it between
/// the corresponding nanodegree marks.
pub proof fn lemma_round_nano_bounds(num: int, den: int, lo: int, hi: int)
    requires
        den >= 1,
        lo * den <= num <= hi * den,
    ensures
        lo * 1_000_000_000 <= spec_round_nano(num, den) <= hi * 1_000_000_000,
{
    let q = spec_round_nano(num, den);
    let x = 2 * num * 1_000_000_000 + den;
    lemma_fundamental_div_mod(x, 2 * den);
    lemma_mod_bound(x, 2 * den);
    assert(lo * 1_000_000_000 <= q <= hi * 1_000_000_000) by (nonlinear_arith)
        requires
            den >= 1,
            lo * den <= num <= hi * den,
            x == 2 * num * 1_000_000_000 + den,
            x == 2 * den * q + (x % (2 * den)),
            0 <= x % (2 * den) < 2 * den,
    ;
}

/// Round an exact rational angle to nanodegrees, half away from the lower
/// mark.
fn round_nano(num: i64, den: i64) -> (r: i64)
    requires
        1 <= den <= 0x1_0000_0000,
        -400 * den <= num <= 400 * den,
    ensures
        r == spec_round_nano(num as int, den as int),
        -400_000_000_000 <= r <= 400_000_000_000,
{
    proof {
        lemma_round_nano_bounds(num as int, den as int, -400, 400);
    }
    let wide: i128 = 2 * (num as i128) * 1_000_000_000 + (den as i128);
    let q: i128 = floor_div_i128(wide, 2 * (den as i128));
    q as i64
}

/// The global airborne position decode over exact rationals: latitude zone
/// index from the two fragments, candidate latitudes for the even and odd
/// frames, rejection of impossible latitudes and of pairs whose fragments
/// disagree on the zone count, then the longitude from the fragment the
/// flag selects. Angles are returned in nanodegrees; the latitude lies in
/// [-90, 90] and the longitude in (-180, 180], up to rounding.
pub open spec fn spec_cpr_airborne(el: int, eo: int, ol: int, oo: int, fflag: bool) -> Result<
    (int, int),
    CprError,
> {
    let j = (59 * el - 60 * ol + 65536) / 131072;
    let num0_raw = 6 * ((j % 60) * 131072 + el);
    let num0 = if num0_raw >= 270 * 131072 {
        num0_raw - 360 * 131072
    } else {
        num0_raw
    };
    let den1 = 59 * 131072int;
    let num1_raw = 360 * ((j % 59) * 131072 + ol);
    let num1 = if num1_raw >= 270 * den1 {
        num1_raw - 360 * den1
    } else {
        num1_raw
    };
    if num0 < -90 * 131072 || num0 > 90 * 131072 || num1 < -90 * den1 || num1 > 90 * den1 {
        Err(CprError::BadData)
    } else if spec_cpr_nl(num0, 131072) != spec_cpr_nl(num1, den1) {
        Err(CprError::ZoneMismatch)
    } else {
        let nl = spec_cpr_nl(num0, 131072);
        let ni = if fflag {
            if nl - 1 < 1 { 1int } else { nl - 1 }
        } else {
            nl
        };
        let m = (eo * (nl - 1) - oo * nl + 65536) / 131072;
        let lon_frag = if fflag { oo } else { eo };
        let lon_den = ni * 131072;
        let lon_raw = 360 * ((m % ni) * 131072 + lon_frag);
        let lon_num = if lon_raw > 180 * lon_den {
            lon_raw - 360 * lon_den
        } else {
            lon_raw
        };
        let lat_num = if fflag { num1 } else { num0 };
        let lat_den = if fflag { den1 } else { 131072int };
        Ok((spec_round_nano(lat_num, lat_den), spec_round_nano(lon_num, lon_den)))
    }
}

/// Decode a global airborne position from an even and an odd CPR fragment.
/// Latitude and longitude come back in nanodegrees; the latitude lies in
/// [-90, 90] degrees and the longitude in (-180, 180] degrees, up to
/// nanodegree rounding.
#[verifier::rlimit(60)]
#[verifier::spinoff_prover]
pub fn decode_cpr_airborne(
    even_cprlat: u32,
    even_cprlon: u32,
    odd_cprlat: u32,
    odd_cprlon: u32,
    fflag: bool,
) -> (r: Result<(i64, i64), CprError>)
    requires
        even_cprlat < 131072,
        even_cprlon < 131072,
        odd_cprlat < 131072,
        odd_cprlon < 131072,
    ensures
        ({
            let s = spec_cpr_airborne(
                even_cprlat as int,
                even_cprlon as int,
                odd_cprlat as int,
                odd_cprlon as int,
                fflag,
            );
            &&& (r is Ok <==> s is Ok)
            &&& r matches Ok((lat, lon)) ==> lat == s.unwrap().0 && lon == s.unwrap().1
            &&& r matches Err(e) ==> s matches Err(se) && e == se
        }),
        r matches Ok((lat, lon)) ==> {
            &&& -90_000_000_000 <= lat <= 90_000_000_000
            &&& -180_000_000_000 <= lon <= 180_000_000_000
        },
{
    let lat0: i64 = even_cprlat as i64;
    let lat1: i64 = odd_cprlat as i64;
    let lon0: i64 = even_cprlon as i64;
    let lon1: i64 = odd_cprlon as i64;

    // Latitude index
    let j: i64 = floor_div_i128((59 * (lat0 as i128) - 60 * (lat1 as i128) + 65536), 131072)
        as i64;
    assert(-61 <= j <= 60);

    let m60: i64 = cpr_mod_int(j as i32, 60) as i64;
    let num0_raw: i64 = 6 * (m60 * 131072 + lat0);
    let num0: i64 = if num0_raw >= 270 * 131072 {
        num0_raw - 360 * 131072
    } else {
        num0_raw
    };

    let den1: i64 = 59 * 131072;
    let m59: i64 = cpr_mod_int(j as i32, 59) as i64;
    let num1_raw: i64 = 360 * (m59 * 131072 + lat1);
    let num1: i64 = if num1_raw >= 270 * den1 {
        num1_raw - 360 * den1
    } else {
        num1_raw
    };

    // Check that the latitude is in range: -90 .. +90
    if num0 < (-90) * 131072 || num0 > 90 * 131072 || num1 < (-90) * den1 || num1 > 90 * den1 {
        return Err(CprError::BadData);
    }

    // Check that both are in the same latitude zone, or abort
    let nl0: u32 = cpr_nl(num0, 131072);
    let nl1: u32 = cpr_nl(num1, den1);
    if nl0 != nl1 {
        return Err(CprError::ZoneMismatch);
    }

    let nl: i64 = nl0 as i64;
    let ni: i64 = if fflag {
        if nl - 1 < 1 {
            1
        } else {
            nl - 1
        }
    } else {
        nl
    };

    // Longitude index
    proof {
        assert((even_cprlon as int) * ((nl as int) - 1) <= 131071 * 58 && (odd_cprlon as int) * (
        nl as int) <= 131071 * 59) by (nonlinear_arith)
            requires
                even_cprlon < 131072,
                odd_cprlon < 131072,
                1 <= nl <= 59,
        ;
    }
    let m: i64 = floor_div_i128(
        ((lon0 as i128) * ((nl as i128) - 1) - (lon1 as i128) * (nl as i128) + 65536),
        131072,
    ) as i64;

    let m_mod: i64 = pos_mod_i128(m as i128, ni as i128) as i64;
    let lon_frag: i64 = if fflag {
        lon1
    } else {
        lon0
    };
    let lon_den: i64 = ni * 131072;
    let lon_raw: i64 = 360 * (m_mod * 131072 + lon_frag);
    proof {
        assert(0 <= (m_mod as int) * 131072 <= 58 * 131072) by (nonlinear_arith)
            requires
                0 <= m_mod < ni,
                ni <= 59,
        ;
        assert(0 <= (lon_raw as int) < 360 * (lon_den as int)
            && 131072 <= lon_den <= 59 * 131072) by (nonlinear_arith)
            requires
                lon_raw == 360 * ((m_mod as int) * 131072 + lon_frag),
                lon_den == ni * 131072,
                0 <= m_mod < ni,
                1 <= ni <= 59,
                0 <= lon_frag < 131072,
        ;
    }
    let lon_num: i64 = if lon_raw > 180 * lon_den {
        lon_raw - 360 * lon_den
    } else {
        lon_raw
    };

    let lat_num: i64 = if fflag {
        num1
    } else {
        num0
    };
    let lat_den: i64 = if fflag {
        den1
    } else {
        131072
    };

    let lat_nano: i64 = round_nano(lat_num, lat_den);
    let lon_nano: i64 = round_nano(lon_num, lon_den);
    proof {
        lemma_round_nano_bounds(lat_num as int, lat_den as int, -90, 90);
        lemma_round_nano_bounds(lon_num as int, lon_den as int, -180, 180);
    }
    Ok((lat_nano, lon_nano))
}

/// The reference-relative position decode over exact rationals: the zone
/// index nearest the reference, the candidate latitude, then the same for
/// longitude, rejecting candidates more than half a zone away from the
/// reference. `None` means the fragment cannot be resolved against this
/// reference. Inputs and outputs are nanodegrees.
pub open spec fn spec_cpr_relative(
    reflat: int,
    reflon: int,
    clat: int,
    clon: int,
    fflag: bool,
    surface: bool,
) -> Option<(int, int)> {
    let dnum = if surface { 90int } else { 360int };
    let dden = if fflag { 59int } else { 60int };
    let b1 = dnum * 1_000_000_000;
    let f1 = (reflat * dden) / b1;
    let t1 = (reflat * dden) % b1;
    let f2 = (b1 * 131072 + 2 * 131072 * t1 - 2 * b1 * clat) / (2 * b1 * 131072);
    let j = f1 + f2;
    let lat_den = dden * 131072;
    let lat_raw = dnum * (j * 131072 + clat);
    let lat_num = if lat_raw >= 270 * lat_den {
        lat_raw - 360 * lat_den
    } else {
        lat_raw
    };
    if lat_num < -90 * lat_den || lat_num > 90 * lat_den {
        None
    } else if abs_int(lat_num * 1_000_000_000 - reflat * lat_den) * 2 * dden
        > dnum * lat_den * 1_000_000_000 {
        None
    } else {
        let nl = spec_cpr_nl(lat_num, lat_den);
        let ni_raw = if fflag { nl - 1 } else { nl };
        let ni = if ni_raw < 1 { 1int } else { ni_raw };
        let g1 = (reflon * ni) / b1;
        let t2 = (reflon * ni) % b1;
        let g2 = (b1 * 131072 + 2 * 131072 * t2 - 2 * b1 * clon) / (2 * b1 * 131072);
        let m = g1 + g2;
        let lon_den = ni * 131072;
        let lon_raw = dnum * (m * 131072 + clon);
        let lon_num = if lon_raw > 180 * lon_den {
            lon_raw - 360 * lon_den
        } else {
            lon_raw
        };
        if abs_int(lon_num * 1_000_000_000 - reflon * lon_den) * 2 * ni
            > dnum * lon_den * 1_000_000_000 {
            None
        } else {
            Some((spec_round_nano(lat_num, lat_den), spec_round_nano(lon_num, lon_den)))
        }
    }
}

/// Absolute value over the unbounded integers.
pub open spec fn abs_int(x: int) -> int {
    if x < 0 {
        -x
    } else {
        x
    }
}

/// Decode a single CPR fragment against a recent reference position no more
/// than half a zone away. Inputs and outputs are in nanodegrees; a rejected
/// candidate names which coordinate was out of reach.
#[verifier::rlimit(100)]
#[verifier::spinoff_prover]
pub fn decode_cpr_relative(
    reflat: i64,
    reflon: i64,
    cprlat: u32,
    cprlon: u32,
    fflag: bool,
    surface: bool,
) -> (r: Result<(i64, i64), &'static str>)
    requires
        -90_000_000_000 <= reflat <= 90_000_000_000,
        -180_000_000_000 <= reflon <= 180_000_000_000,
        cprlat < 131072,
        cprlon < 131072,
    ensures
        ({
            let s = spec_cpr_relative(
                reflat as int,
                reflon as int,
                cprlat as int,
                cprlon as int,
                fflag,
                surface,
            );
            &&& (r is Ok <==> s is Some)
            &&& r matches Ok((lat, lon)) ==> lat == s.unwrap().0 && lon == s.unwrap().1
        }),
        r matches Ok((lat, lon)) ==> {
            &&& -90_000_000_000 <= lat <= 90_000_000_000
            &&& -400_000_000_000 <= lon <= 400_000_000_000
        },
{
    let dnum: i128 = if surface {
        90
    } else {
        360
    };
    let dden: i128 = if fflag {
        59
    } else {
        60
    };
    let b1: i128 = dnum * 1_000_000_000;

    proof {
        assert((reflat as int) * (dden as int) <= 90_000_000_000 * 60
            && (reflat as int) * (dden as int) >= -90_000_000_000 * 60) by (nonlinear_arith)
            requires
                -90_000_000_000 <= reflat <= 90_000_000_000,
                0 < dden <= 60,
        ;
    }
    let a1: i128 = (reflat as i128) * dden;
    let f1: i128 = floor_div_i128(a1, b1);
    let t1: i128 = pos_mod_i128(a1, b1);
    proof {
        lemma_fundamental_div_mod(a1 as int, b1 as int);
        assert(-61 <= f1 <= 61 && 2 * 131072 * t1 <= 2 * 131072 * b1) by (nonlinear_arith)
            requires
                (a1 as int) == (b1 as int) * (f1 as int) + (t1 as int),
                0 <= t1 < b1,
                -5_400_000_000_000 <= a1 <= 5_400_000_000_000,
                90_000_000_000 <= b1 <= 360_000_000_000,
        ;
        assert(2 * (b1 as int) * (cprlat as int) <= 2 * (b1 as int) * 131072) by (nonlinear_arith)
            requires
                0 <= cprlat < 131072,
                b1 > 0,
        ;
    }
    let f2: i128 = floor_div_i128(
        b1 * 131072 + 2 * 131072 * t1 - 2 * b1 * (cprlat as i128),
        2 * b1 * 131072,
    );
    proof {
        let num = (b1 as int) * 131072 + 2 * 131072 * (t1 as int) - 2 * (b1 as int) * (
        cprlat as int);
        let den = 2 * (b1 as int) * 131072;
        lemma_fundamental_div_mod(num, den);
        lemma_mod_bound(num, den);
        assert(-1 <= (f2 as int) <= 1) by (nonlinear_arith)
            requires
                num == den * (f2 as int) + (num % den),
                0 <= num % den < den,
                den == 2 * (b1 as int) * 131072,
                num == (b1 as int) * 131072 + 2 * 131072 * (t1 as int) - 2 * (b1 as int) * (
                cprlat as int),
                0 <= t1 < b1,
                0 <= cprlat < 131072,
                b1 > 0,
        ;
    }
    let j: i128 = f1 + f2;

    let lat_den: i128 = dden * 131072;
    let lat_raw: i128 = dnum * (j * 131072 + (cprlat as i128));
    let lat_num: i128 = if lat_raw >= 270 * lat_den {
        lat_raw - 360 * lat_den
    } else {
        lat_raw
    };

    if lat_num < (-90) * lat_den || lat_num > 90 * lat_den {
        return Err("Invalid latitude in reference-relative decode (out of range)");
    }

    proof {
        assert(-90 * 60 * 131072 <= lat_num <= 90 * 60 * 131072
            && abs_int((lat_num as int) * 1_000_000_000 - (reflat as int) * (lat_den as int))
            <= 0x1_0000_0000_0000_0000_0000) by (nonlinear_arith)
            requires
                -90 * (lat_den as int) <= lat_num <= 90 * (lat_den as int),
                0 < lat_den <= 60 * 131072,
                -90_000_000_000 <= reflat <= 90_000_000_000,
        ;
    }
    let dlat_gap: i128 = lat_num * 1_000_000_000 - (reflat as i128) * lat_den;
    let dlat_abs: i128 = if dlat_gap < 0 {
        -dlat_gap
    } else {
        dlat_gap
    };
    proof {
        assert((dlat_abs as int) * 2 * (dden as int) < 0x1000_0000_0000_0000_0000_0000_0000
            && 0 <= (dnum as int) * (lat_den as int) * 1_000_000_000
                < 0x1000_0000_0000_0000_0000_0000_0000) by (nonlinear_arith)
            requires
                0 <= dlat_abs <= 0x1_0000_0000_0000_0000_0000,
                0 < dden <= 60,
                0 < dnum <= 360,
                0 < lat_den <= 60 * 131072,
        ;
    }
    if dlat_abs * 2 * dden > dnum * lat_den * 1_000_000_000 {
        return Err("Invalid latitude in reference-relative decode (more than half a cell away)");
    }

    let nl: i128 = cpr_nl((lat_num as i64), (lat_den as i64)) as i128;
    let ni_raw: i128 = if fflag {
        nl - 1
    } else {
        nl
    };
    let ni: i128 = if ni_raw < 1 {
        1
    } else {
        ni_raw
    };

    proof {
        assert(-180_000_000_000 * 59 <= (reflon as int) * (ni as int) <= 180_000_000_000 * 59)
            by (nonlinear_arith)
            requires
                -180_000_000_000 <= reflon <= 180_000_000_000,
                0 < ni <= 59,
        ;
    }
    let a2: i128 = (reflon as i128) * ni;
    let g1: i128 = floor_div_i128(a2, b1);
    let t2: i128 = pos_mod_i128(a2, b1);
    proof {
        lemma_fundamental_div_mod(a2 as int, b1 as int);
        assert(-121 <= g1 <= 120 && 2 * 131072 * t2 <= 2 * 131072 * b1) by (nonlinear_arith)
            requires
                (a2 as int) == (b1 as int) * (g1 as int) + (t2 as int),
                0 <= t2 < b1,
                -10_620_000_000_000 <= a2 <= 10_620_000_000_000,
                90_000_000_000 <= b1 <= 360_000_000_000,
        ;
        assert(2 * (b1 as int) * (cprlon as int) <= 2 * (b1 as int) * 131072) by (nonlinear_arith)
            requires
                0 <= cprlon < 131072,
                b1 > 0,
        ;
    }
    let g2: i128 = floor_div_i128(
        b1 * 131072 + 2 * 131072 * t2 - 2 * b1 * (cprlon as i128),
        2 * b1 * 131072,
    );
    proof {
        let num = (b1 as int) * 131072 + 2 * 131072 * (t2 as int) - 2 * (b1 as int) * (
        cprlon as int);
        let den = 2 * (b1 as int) * 131072;
        lemma_fundamental_div_mod(num, den);
        lemma_mod_bound(num, den);
        assert(-1 <= (g2 as int) <= 1) by (nonlinear_arith)
            requires
                num == den * (g2 as int) + (num % den),
                0 <= num % den < den,
                den == 2 * (b1 as int) * 131072,
                num == (b1 as int) * 131072 + 2 * 131072 * (t2 as int) - 2 * (b1 as int) * (
                cprlon as int),
                0 <= t2 < b1,
                0 <= cprlon < 131072,
                b1 > 0,
        ;
    }
    let m: i128 = g1 + g2;

    let lon_den: i128 = ni * 131072;
    proof {
        assert(-122 * 131072 <= (m as int) * 131072 <= 121 * 131072
            && (dnum as int) * ((m as int) * 131072 + (cprlon as int)) <= 360 * 122 * 131072
            && (dnum as int) * ((m as int) * 131072 + (cprlon as int)) >= -360 * 122 * 131072
            && 0 < (ni as int) * 131072 <= 59 * 131072) by (nonlinear_arith)
            requires
                -121 <= m <= 121,
                0 <= cprlon < 131072,
                0 < dnum <= 360,
                0 < ni <= 59,
        ;
    }
    let lon_raw: i128 = dnum * (m * 131072 + (cprlon as i128));
    let lon_num: i128 = if lon_raw > 180 * lon_den {
        lon_raw - 360 * lon_den
    } else {
        lon_raw
    };

    proof {
        assert(abs_int((lon_num as int) * 1_000_000_000 - (reflon as int) * (lon_den as int))
            <= 0x1_0000_0000_0000_0000_0000) by (nonlinear_arith)
            requires
                -360 * 122 * 131072 - 360 * 59 * 131072 <= lon_num <= 360 * 122 * 131072,
                0 < lon_den <= 59 * 131072,
                -180_000_000_000 <= reflon <= 180_000_000_000,
        ;
    }
    let dlon_gap: i128 = lon_num * 1_000_000_000 - (reflon as i128) * lon_den;
    let dlon_abs: i128 = if dlon_gap < 0 {
        -dlon_gap
    } else {
        dlon_gap
    };
    proof {
        assert((dlon_abs as int) * 2 * (ni as int) < 0x1000_0000_0000_0000_0000_0000_0000
            && 0 <= (dnum as int) * (lon_den as int) * 1_000_000_000
                < 0x1000_0000_0000_0000_0000_0000_0000) by (nonlinear_arith)
            requires
                0 <= dlon_abs <= 0x1_0000_0000_0000_0000_0000,
                0 < ni <= 59,
                0 < dnum <= 360,
                0 < lon_den <= 59 * 131072,
        ;
    }
    if dlon_abs * 2 * ni > dnum * lon_den * 1_000_000_000 {
        return Err("Invalid longitude in reference-relative decode (more than half a cell away)");
    }

    proof {
        assert(-90 * (lat_den as int) <= lat_num <= 90 * (lat_den as int));
        assert(-400 * (lon_den as int) <= lon_num <= 400 * (lon_den as int)) by (nonlinear_arith)
            requires
                (dlon_abs as int) * 2 * (ni as int) <= (dnum as int) * (lon_den as int)
                    * 1_000_000_000,
                dlon_abs == abs_int((lon_num as int) * 1_000_000_000 - (reflon as int) * (
                lon_den as int)),
                dlon_abs >= 0,
                (lon_den as int) == (ni as int) * 131072,
                0 < ni <= 59,
                0 < dnum <= 360,
                -180_000_000_000 <= reflon <= 180_000_000_000,
                (dlon_gap as int) == (lon_num as int) * 1_000_000_000 - (reflon as int) * (
                lon_den as int),
                dlon_abs == abs_int(dlon_gap as int),
        ;
        lemma_round_nano_bounds(lat_num as int, lat_den as int, -90, 90);
    }
    let lat_nano: i64 = round_nano((lat_num as i64), (lat_den as i64));
    let lon_nano: i64 = round_nano((lon_num as i64), (lon_den as i64));
    proof {
        lemma_round_nano_bounds(lon_num as int, lon_den as int, -400, 400);
    }

    Ok((lat_nano, lon_nano))
}

} // verus!
