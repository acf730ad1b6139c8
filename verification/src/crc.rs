use vstd::prelude::*;

verus! {

/// Byte-wise expansion of the Mode S 24-bit CRC generator polynomial
/// `0x1FFF409` (implicit leading 1): entry `i` is the 24-bit remainder
/// contribution of a message byte with value `i`.
pub const CRC_TABLE: [u32; 256] = [
    0x0000_0000, 0x00ff_f409, 0x0000_1c1b, 0x00ff_e812, 0x0000_3836, 0x00ff_cc3f, 0x0000_242d, 0x00ff_d024,
    0x0000_706c, 0x00ff_8465, 0x0000_6c77, 0x00ff_987e, 0x0000_485a, 0x00ff_bc53, 0x0000_5441, 0x00ff_a048,
    0x0000_e0d8, 0x00ff_14d1, 0x0000_fcc3, 0x00ff_08ca, 0x0000_d8ee, 0x00ff_2ce7, 0x0000_c4f5, 0x00ff_30fc,
    0x0000_90b4, 0x00ff_64bd, 0x0000_8caf, 0x00ff_78a6, 0x0000_a882, 0x00ff_5c8b, 0x0000_b499, 0x00ff_4090,
    0x0001_c1b0, 0x00fe_35b9, 0x0001_ddab, 0x00fe_29a2, 0x0001_f986, 0x00fe_0d8f, 0x0001_e59d, 0x00fe_1194,
    0x0001_b1dc, 0x00fe_45d5, 0x0001_adc7, 0x00fe_59ce, 0x0001_89ea, 0x00fe_7de3, 0x0001_95f1, 0x00fe_61f8,
    0x0001_2168, 0x00fe_d561, 0x0001_3d73, 0x00fe_c97a, 0x0001_195e, 0x00fe_ed57, 0x0001_0545, 0x00fe_f14c,
    0x0001_5104, 0x00fe_a50d, 0x0001_4d1f, 0x00fe_b916, 0x0001_6932, 0x00fe_9d3b, 0x0001_7529, 0x00fe_8120,
    0x0003_8360, 0x00fc_7769, 0x0003_9f7b, 0x00fc_6b72, 0x0003_bb56, 0x00fc_4f5f, 0x0003_a74d, 0x00fc_5344,
    0x0003_f30c, 0x00fc_0705, 0x0003_ef17, 0x00fc_1b1e, 0x0003_cb3a, 0x00fc_3f33, 0x0003_d721, 0x00fc_2328,
    0x0003_63b8, 0x00fc_97b1, 0x0003_7fa3, 0x00fc_8baa, 0x0003_5b8e, 0x00fc_af87, 0x0003_4795, 0x00fc_b39c,
    0x0003_13d4, 0x00fc_e7dd, 0x0003_0fcf, 0x00fc_fbc6, 0x0003_2be2, 0x00fc_dfeb, 0x0003_37f9, 0x00fc_c3f0,
    0x0002_42d0, 0x00fd_b6d9, 0x0002_5ecb, 0x00fd_aac2, 0x0002_7ae6, 0x00fd_8eef, 0x0002_66fd, 0x00fd_92f4,
    0x0002_32bc, 0x00fd_c6b5, 0x0002_2ea7, 0x00fd_daae, 0x0002_0a8a, 0x00fd_fe83, 0x0002_1691, 0x00fd_e298,
    0x0002_a208, 0x00fd_5601, 0x0002_be13, 0x00fd_4a1a, 0x0002_9a3e, 0x00fd_6e37, 0x0002_8625, 0x00fd_722c,
    0x0002_d264, 0x00fd_266d, 0x0002_ce7f, 0x00fd_3a76, 0x0002_ea52, 0x00fd_1e5b, 0x0002_f649, 0x00fd_0240,
    0x0007_06c0, 0x00f8_f2c9, 0x0007_1adb, 0x00f8_eed2, 0x0007_3ef6, 0x00f8_caff, 0x0007_22ed, 0x00f8_d6e4,
    0x0007_76ac, 0x00f8_82a5, 0x0007_6ab7, 0x00f8_9ebe, 0x0007_4e9a, 0x00f8_ba93, 0x0007_5281, 0x00f8_a688,
    0x0007_e618, 0x00f8_1211, 0x0007_fa03, 0x00f8_0e0a, 0x0007_de2e, 0x00f8_2a27, 0x0007_c235, 0x00f8_363c,
    0x0007_9674, 0x00f8_627d, 0x0007_8a6f, 0x00f8_7e66, 0x0007_ae42, 0x00f8_5a4b, 0x0007_b259, 0x00f8_4650,
    0x0006_c770, 0x00f9_3379, 0x0006_db6b, 0x00f9_2f62, 0x0006_ff46, 0x00f9_0b4f, 0x0006_e35d, 0x00f9_1754,
    0x0006_b71c, 0x00f9_4315, 0x0006_ab07, 0x00f9_5f0e, 0x0006_8f2a, 0x00f9_7b23, 0x0006_9331, 0x00f9_6738,
    0x0006_27a8, 0x00f9_d3a1, 0x0006_3bb3, 0x00f9_cfba, 0x0006_1f9e, 0x00f9_eb97, 0x0006_0385, 0x00f9_f78c,
    0x0006_57c4, 0x00f9_a3cd, 0x0006_4bdf, 0x00f9_bfd6, 0x0006_6ff2, 0x00f9_9bfb, 0x0006_73e9, 0x00f9_87e0,
    0x0004_85a0, 0x00fb_71a9, 0x0004_99bb, 0x00fb_6db2, 0x0004_bd96, 0x00fb_499f, 0x0004_a18d, 0x00fb_5584,
    0x0004_f5cc, 0x00fb_01c5, 0x0004_e9d7, 0x00fb_1dde, 0x0004_cdfa, 0x00fb_39f3, 0x0004_d1e1, 0x00fb_25e8,
    0x0004_6578, 0x00fb_9171, 0x0004_7963, 0x00fb_8d6a, 0x0004_5d4e, 0x00fb_a947, 0x0004_4155, 0x00fb_b55c,
    0x0004_1514, 0x00fb_e11d, 0x0004_090f, 0x00fb_fd06, 0x0004_2d22, 0x00fb_d92b, 0x0004_3139, 0x00fb_c530,
    0x0005_4410, 0x00fa_b019, 0x0005_580b, 0x00fa_ac02, 0x0005_7c26, 0x00fa_882f, 0x0005_603d, 0x00fa_9434,
    0x0005_347c, 0x00fa_c075, 0x0005_2867, 0x00fa_dc6e, 0x0005_0c4a, 0x00fa_f843, 0x0005_1051, 0x00fa_e458,
    0x0005_a4c8, 0x00fa_50c1, 0x0005_b8d3, 0x00fa_4cda, 0x0005_9cfe, 0x00fa_68f7, 0x0005_80e5, 0x00fa_74ec,
    0x0005_d4a4, 0x00fa_20ad, 0x0005_c8bf, 0x00fa_3cb6, 0x0005_ec92, 0x00fa_189b, 0x0005_f089, 0x00fa_0480,
];

/// One byte-wise CRC round: shift the running remainder left by one byte,
/// fold in the table entry selected by the incoming byte and the remainder's
/// top byte, and mask back to 24 bits.
pub open spec fn spec_crc_round(rem: u32, byte: u8) -> u32 {
    (((rem << 8) ^ CRC_TABLE@[((byte as u32) ^ ((rem & 0x00ff_0000) >> 16)) as int]) & 0x00ff_ffff) as u32
}

/// Remainder after folding the first `k` bytes of `msg`, starting from zero.
pub open spec fn spec_crc_rem(msg: Seq<u8>, k: nat) -> u32
    decreases k,
{
    if k == 0 {
        0u32
    } else {
        spec_crc_round(spec_crc_rem(msg, (k - 1) as nat), msg[k - 1])
    }
}

/// The Mode S checksum of an `n`-byte message: the remainder over the first
/// `n - 3` bytes, xor'd with the 24-bit parity field stored in the last three
/// bytes. Zero means the message is CRC-valid; otherwise the value is the
/// error syndrome.
pub open spec fn spec_checksum(msg: Seq<u8>, n: nat) -> u32
    recommends
        3 <= n <= msg.len(),
{
    (spec_crc_rem(msg, (n - 3) as nat)
        ^ ((((msg[n - 3] as u32) << 16) ^ ((msg[n - 2] as u32) << 8)) ^ (msg[n - 1] as u32))) as u32
}

/// Compute the Mode S checksum of the first `bits / 8` bytes of `message`.
pub fn modes_checksum(message: &[u8], bits: usize) -> (r: u32)
    requires
        24 <= bits,
        bits / 8 <= message@.len(),
    ensures
        r == spec_checksum(message@, (bits / 8) as nat),
        r <= 0x00ff_ffff,
{
    let mut rem: u32 = 0;
    let n: usize = bits / 8;

    let mut i: usize = 0;
    while i < n - 3
        invariant
            i <= n - 3,
            3 <= n <= message@.len(),
            rem == spec_crc_rem(message@, i as nat),
            rem <= 0x00ff_ffff,
        decreases n - 3 - i,
    {
        let b: u8 = message[i];
        let top: u32 = (rem & 0x00ff_0000) >> 16;
        assert(((b as u32) ^ top) < 256 && top < 256) by (bit_vector)
            requires top == (rem & 0x00ff_0000u32) >> 16u32;
        let idx: usize = ((b as u32) ^ top) as usize;
        let folded: u32 = (rem << 8) ^ CRC_TABLE[idx];
        rem = folded & 0x00ff_ffff;
        assert(rem <= 0x00ff_ffff) by (bit_vector)
            requires rem == folded & 0x00ff_ffffu32;
        i += 1;
    }

    let b0: u8 = message[n - 3];
    let b1: u8 = message[n - 2];
    let b2: u8 = message[n - 1];
    let xor_term: u32 = (((b0 as u32) << 16) ^ ((b1 as u32) << 8)) ^ (b2 as u32);
    assert((rem ^ xor_term) <= 0x00ff_ffff) by (bit_vector)
        requires
            rem <= 0x00ff_ffffu32,
            xor_term == (((b0 as u32) << 16u32) ^ ((b1 as u32) << 8u32)) ^ (b2 as u32),
    ;
    rem ^ xor_term
}


/// The running remainder depends only on the bytes it has folded: two
/// messages equal on their first `k` bytes share it.
pub proof fn lemma_crc_rem_prefix(s1: Seq<u8>, s2: Seq<u8>, k: nat)
    requires
        k <= s1.len(),
        k <= s2.len(),
        forall|i: int| 0 <= i < k ==> s1[i] == s2[i],
    ensures
        spec_crc_rem(s1, k) == spec_crc_rem(s2, k),
    decreases k,
{
    if k > 0 {
        lemma_crc_rem_prefix(s1, s2, (k - 1) as nat);
    }
}

/// The checksum of an `n`-byte message depends only on its first `n`
/// bytes.
pub proof fn lemma_checksum_prefix(s1: Seq<u8>, s2: Seq<u8>, n: nat)
    requires
        3 <= n,
        n <= s1.len(),
        n <= s2.len(),
        forall|i: int| 0 <= i < n ==> s1[i] == s2[i],
    ensures
        spec_checksum(s1, n) == spec_checksum(s2, n),
{
    lemma_crc_rem_prefix(s1, s2, (n - 3) as nat);
}

/// The all-zero message of `n` bytes.
pub open spec fn zero_msg(n: nat) -> Seq<u8> {
    Seq::new(n, |i: int| 0u8)
}

/// The single-bit mask for bit `k`, MSB-first within each byte.
pub open spec fn flip_mask(k: nat) -> u8 {
    (1u8 << ((7 - (k % 8)) as u32)) as u8
}

/// `msg` with bit `k` (MSB-first within each byte) flipped.
pub open spec fn bit_flipped(msg: Seq<u8>, k: nat) -> Seq<u8>
    recommends
        k < msg.len() * 8,
{
    msg.update((k / 8) as int, (msg[(k / 8) as int] ^ flip_mask(k)) as u8)
}

/// The checksum syndrome produced by flipping bit `k` of an otherwise
/// all-zero message of `bits / 8` bytes.
pub open spec fn spec_syndrome(bits: nat, k: nat) -> u32
    recommends
        k < bits,
{
    spec_checksum(bit_flipped(zero_msg(bits / 8), k), bits / 8)
}

/// The smallest bit position at or after `from` whose syndrome equals `s`.
pub open spec fn first_syndrome_match(bits: nat, s: u32, from: nat) -> Option<nat>
    decreases bits - from,
{
    if from >= bits {
        None
    } else if spec_syndrome(bits, from) == s {
        Some(from)
    } else {
        first_syndrome_match(bits, s, from + 1)
    }
}

/// Build the table of single-bit syndromes for a `bits`-bit message:
/// entry `k` is the checksum of the all-zero message with bit `k` flipped.
fn build_syndromes(bits: usize) -> (r: Vec<u32>)
    requires
        bits == 56 || bits == 112,
    ensures
        r@.len() == bits,
        forall|j: int| 0 <= j < bits ==> r@[j] == spec_syndrome(bits as nat, j as nat),
{
    let n: usize = bits / 8;
    let mut msg: Vec<u8> = Vec::new();
    let mut i: usize = 0;
    while i < n
        invariant
            i <= n,
            msg@.len() == i,
            forall|j: int| 0 <= j < i ==> msg@[j] == 0u8,
        decreases n - i,
    {
        msg.push(0);
        i += 1;
    }
    assert(msg@ =~= zero_msg(n as nat));

    let mut out: Vec<u32> = Vec::new();
    let mut k: usize = 0;
    while k < bits
        invariant
            k <= bits,
            bits == 56 || bits == 112,
            n == bits / 8,
            msg@.len() == n,
            msg@ =~= zero_msg(n as nat),
            out@.len() == k,
            forall|j: int| 0 <= j < k ==> out@[j] == spec_syndrome(bits as nat, j as nat),
        decreases bits - k,
    {
        let byte_idx: usize = k / 8;
        let shift: u32 = (7 - (k % 8)) as u32;
        let mask: u8 = 1u8 << shift;
        let b: u8 = msg[byte_idx];
        msg[byte_idx] = b ^ mask;
        assert(msg@ =~= bit_flipped(zero_msg(n as nat), k as nat));
        let s: u32 = modes_checksum(msg.as_slice(), bits);
        out.push(s);
        let b2: u8 = msg[byte_idx];
        msg[byte_idx] = b2 ^ mask;
        assert(b2 == b ^ mask);
        assert((b ^ mask) ^ mask == b) by (bit_vector);
        assert(msg@ =~= zero_msg(n as nat));
        k += 1;
    }
    out
}

/// Tables of single-bit syndromes for short (56-bit) and long (112-bit)
/// messages, in that order.
pub fn init_single_bit_syndromes() -> (r: (Vec<u32>, Vec<u32>))
    ensures
        r.0@.len() == 56,
        forall|j: int| 0 <= j < 56 ==> r.0@[j] == spec_syndrome(56, j as nat),
        r.1@.len() == 112,
        forall|j: int| 0 <= j < 112 ==> r.1@[j] == spec_syndrome(112, j as nat),
{
    let short_syndromes: Vec<u32> = build_syndromes(56);
    let long_syndromes: Vec<u32> = build_syndromes(112);
    (short_syndromes, long_syndromes)
}

/// Attempt to repair a single-bit error: find the lowest bit position whose
/// syndrome matches the message's checksum, flip that bit, and keep the flip
/// only if the repaired message is CRC-valid. Returns the flipped bit
/// position, or `None` (leaving the message unchanged) when the checksum is
/// already zero, the length is unsupported, or no single-bit pattern repairs
/// the message.
pub fn fix_single_bit_error(message: &mut Vec<u8>, bits: usize) -> (r: Option<usize>)
    requires
        24 <= bits,
        old(message)@.len() >= bits / 8,
    ensures
        r is None ==> final(message)@ == old(message)@,
        r matches Some(k) ==> {
            &&& k < bits
            &&& final(message)@ == bit_flipped(old(message)@, k as nat)
            &&& spec_checksum(final(message)@, (bits / 8) as nat) == 0
            &&& spec_checksum(old(message)@, (bits / 8) as nat) == spec_syndrome(bits as nat, k as nat)
            &&& spec_checksum(old(message)@, (bits / 8) as nat) != 0
        },
        spec_checksum(old(message)@, (bits / 8) as nat) == 0 ==> r is None,
        !(bits == 56 || bits == 112) ==> r is None,
        ({
            let s = spec_checksum(old(message)@, (bits / 8) as nat);
            let m = first_syndrome_match(bits as nat, s, 0);
            &&& (s != 0 && (bits == 56 || bits == 112) && m is Some
                && spec_checksum(bit_flipped(old(message)@, m.unwrap()), (bits / 8) as nat) == 0)
                ==> r == Some(m.unwrap() as usize)
            &&& (s != 0 && (bits == 56 || bits == 112) && m is Some
                && spec_checksum(bit_flipped(old(message)@, m.unwrap()), (bits / 8) as nat) != 0)
                ==> r is None
            &&& (s != 0 && (bits == 56 || bits == 112) && m is None) ==> r is None
        }),
{
    let n: usize = bits / 8;
    let syndrome: u32 = modes_checksum(message.as_slice(), bits);

    if syndrome == 0 {
        return None;
    }
    if !(bits == 56 || bits == 112) {
        return None;
    }

    let syndromes: Vec<u32> = build_syndromes(bits);

    let mut k: usize = 0;
    while k < bits
        invariant
            k <= bits,
            bits == 56 || bits == 112,
            n == bits / 8,
            message@.len() >= n,
            message@ == old(message)@,
            syndrome == spec_checksum(message@, n as nat),
            syndrome != 0,
            syndromes@.len() == bits,
            forall|j: int| 0 <= j < bits ==> syndromes@[j] == spec_syndrome(bits as nat, j as nat),
            first_syndrome_match(bits as nat, syndrome, 0)
                == first_syndrome_match(bits as nat, syndrome, k as nat),
        decreases bits - k,
    {
        if syndromes[k] == syndrome {
            let byte_idx: usize = k / 8;
            let shift: u32 = (7 - (k % 8)) as u32;
            let mask: u8 = 1u8 << shift;
            let b: u8 = message[byte_idx];
            message[byte_idx] = b ^ mask;
            assert(message@ =~= bit_flipped(old(message)@, k as nat));
            let after: u32 = modes_checksum(message.as_slice(), bits);
            if after == 0 {
                return Some(k);
            }
            let b2: u8 = message[byte_idx];
            message[byte_idx] = b2 ^ mask;
            assert((b ^ mask) ^ mask == b) by (bit_vector);
            assert(message@ =~= old(message)@);
            return None;
        }
        k += 1;
    }
    None
}

} // verus!
