use vstd::prelude::*;

verus! {

/// A Mode A code is rejected when a bit outside the altitude fields is set
/// (D1 set is illegal) or all of C1, C2, C4 are clear.
pub open spec fn spec_mode_a_field_invalid(mode_a: u32) -> bool {
    (mode_a & 0xFFFF8889) != 0 || (mode_a & 0x000000F0) == 0
}

/// The C-bit (hundreds) Gray decode before the 7-to-5 remap.
pub open spec fn spec_one_hundreds_raw(mode_a: u32) -> u32 {
    ((if mode_a & 0x0010 != 0 { 0x007u32 } else { 0u32 })
        ^ (if mode_a & 0x0020 != 0 { 0x003u32 } else { 0u32 }))
        ^ (if mode_a & 0x0040 != 0 { 0x001u32 } else { 0u32 })
}

/// The C-bit decode with 7 remapped to 5: codes above 5 are invalid.
pub open spec fn spec_one_hundreds(mode_a: u32) -> u32 {
    let raw = spec_one_hundreds_raw(mode_a);
    if (raw & 5) == 5 {
        raw ^ 2
    } else {
        raw
    }
}

/// The D/A/B-bit (five-hundreds) Gray decode. D1 is never used for altitude.
pub open spec fn spec_five_hundreds(mode_a: u32) -> u32 {
    (((((((if mode_a & 0x0002 != 0 { 0x0FFu32 } else { 0u32 })
        ^ (if mode_a & 0x0004 != 0 { 0x07Fu32 } else { 0u32 }))
        ^ (if mode_a & 0x1000 != 0 { 0x03Fu32 } else { 0u32 }))
        ^ (if mode_a & 0x2000 != 0 { 0x01Fu32 } else { 0u32 }))
        ^ (if mode_a & 0x4000 != 0 { 0x00Fu32 } else { 0u32 }))
        ^ (if mode_a & 0x0100 != 0 { 0x007u32 } else { 0u32 }))
        ^ (if mode_a & 0x0200 != 0 { 0x003u32 } else { 0u32 }))
        ^ (if mode_a & 0x0400 != 0 { 0x001u32 } else { 0u32 })
}

/// A Mode A code fails to decode when its field layout is invalid or the
/// C-bit decode lands outside 1..=5.
pub open spec fn spec_mode_a_invalid(mode_a: u32) -> bool {
    spec_mode_a_field_invalid(mode_a) || spec_one_hundreds(mode_a) > 5
}

/// The decoded Mode C altitude, in hundreds of feet: five-hundreds count
/// times five, plus the hundreds digit (direction-corrected), rebased so
/// that the lowest code means -1200 ft.
pub open spec fn spec_mode_a_to_mode_c(mode_a: u32) -> int {
    let five_hundreds = spec_five_hundreds(mode_a);
    let one_hundreds = if five_hundreds & 1 != 0 {
        6 - spec_one_hundreds(mode_a)
    } else {
        spec_one_hundreds(mode_a) as int
    };
    five_hundreds * 5 + one_hundreds - 13
}

/// Decode a Gillham (Gray) coded Mode A value into a Mode C altitude in
/// hundreds of feet. Exactly the invalid codes are rejected; a valid code
/// decodes to a value in -12..=1267.
pub fn mode_a_to_mode_c(mode_a: u32) -> (r: Result<i32, &'static str>)
    ensures
        r is Err <==> spec_mode_a_invalid(mode_a),
        r matches Ok(v) ==> v == spec_mode_a_to_mode_c(mode_a) && -12 <= v <= 1267,
{
    // check zero bits are zero, D1 set is illegal; C1..C4 cannot all be zero
    if (mode_a & 0xFFFF8889) != 0 || (mode_a & 0x000000F0) == 0 {
        return Err("Invalid altitude");
    }

    // C1, C2, C4
    let raw: u32 = (if mode_a & 0x0010 != 0 { 0x007u32 } else { 0u32 })
        ^ (if mode_a & 0x0020 != 0 { 0x003u32 } else { 0u32 })
        ^ (if mode_a & 0x0040 != 0 { 0x001u32 } else { 0u32 });

    // Remove 7s from one_hundreds (make 7 -> 5, and 5 -> 7).
    let one_hundreds: u32 = if (raw & 5) == 5 {
        raw ^ 2
    } else {
        raw
    };

    // Check for invalid codes: only 1 to 5 are valid
    if one_hundreds > 5 {
        return Err("Invalid altitude");
    }

    assert(one_hundreds >= 1) by (bit_vector)
        requires
            mode_a & 0xFFFF8889u32 == 0,
            mode_a & 0x000000F0u32 != 0,
            one_hundreds == spec_one_hundreds(mode_a),
            one_hundreds <= 5,
    ;

    // D2, D4, A1, A2, A4, B1, B2, B4 (D1 is never used for altitude)
    let five_hundreds: u32 = (if mode_a & 0x0002 != 0 { 0x0FFu32 } else { 0u32 })
        ^ (if mode_a & 0x0004 != 0 { 0x07Fu32 } else { 0u32 })
        ^ (if mode_a & 0x1000 != 0 { 0x03Fu32 } else { 0u32 })
        ^ (if mode_a & 0x2000 != 0 { 0x01Fu32 } else { 0u32 })
        ^ (if mode_a & 0x4000 != 0 { 0x00Fu32 } else { 0u32 })
        ^ (if mode_a & 0x0100 != 0 { 0x007u32 } else { 0u32 })
        ^ (if mode_a & 0x0200 != 0 { 0x003u32 } else { 0u32 })
        ^ (if mode_a & 0x0400 != 0 { 0x001u32 } else { 0u32 });

    assert(five_hundreds <= 0x0FF) by (bit_vector)
        requires five_hundreds == spec_five_hundreds(mode_a);

    // Correct order of one_hundreds
    let corrected: u32 = if five_hundreds & 1 != 0 {
        6 - one_hundreds
    } else {
        one_hundreds
    };

    Ok((five_hundreds * 5 + corrected) as i32 - 13)
}

} // verus!
