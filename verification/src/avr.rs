use vstd::prelude::*;

verus! {

/// The lowercase hex digit for a nibble, as an ASCII byte.
pub open spec fn spec_hex_digit(n: u8) -> u8
    recommends
        n < 16,
{
    if n < 10 {
        (0x30 + n) as u8
    } else {
        (0x61 + (n - 10)) as u8
    }
}

/// The lowercase hex encoding of a byte string: two digits per byte, high
/// nibble first.
pub open spec fn spec_hex_of(s: Seq<u8>) -> Seq<u8> {
    Seq::new(
        s.len() * 2,
        |i: int|
            if i % 2 == 0 {
                spec_hex_digit(s[i / 2] >> 4)
            } else {
                spec_hex_digit((s[i / 2] & 0x0f) as u8)
            },
    )
}

/// Relies on hex::encode: every input byte becomes exactly two lowercase
/// hex digits, high nibble first, in input order.
#[verifier::external_body]
fn hex_encode_bytes(b: &Vec<u8>) -> (r: Vec<u8>)
    ensures
        r@ == spec_hex_of(b@),
{
    hex::encode(b.as_slice()).into_bytes()
}

/// Frame one raw message as an ASCII record for downstream consumers: a
/// star, the lowercase hex of the message bytes, a semicolon, and a
/// newline.
pub fn to_avr_record(msg: &Vec<u8>) -> (r: Vec<u8>)
    ensures
        r@ == seq![0x2au8] + spec_hex_of(msg@) + seq![0x3bu8, 0x0au8],
{
    let hex_digits = hex_encode_bytes(msg);
    let mut out: Vec<u8> = Vec::new();
    out.push(0x2a);  // '*'
    let mut i: usize = 0;
    while i < hex_digits.len()
        invariant
            i <= hex_digits@.len(),
            out@.len() == i + 1,
            out@[0] == 0x2au8,
            forall|j: int| 0 <= j < i ==> out@[j + 1] == hex_digits@[j],
        decreases hex_digits@.len() - i,
    {
        let d = hex_digits[i];
        out.push(d);
        i += 1;
    }
    out.push(0x3b);  // ';'
    out.push(0x0a);  // newline
    proof {
        assert(out@ =~= seq![0x2au8] + spec_hex_of(msg@) + seq![0x3bu8, 0x0au8]);
    }
    out
}

} // verus!
