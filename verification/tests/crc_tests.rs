use dump1090_rs::crc::{fix_single_bit_error, init_single_bit_syndromes, modes_checksum};

fn hex_to_bytes(s: &str) -> Vec<u8> {
    let b = s.as_bytes();
    let mut out = Vec::new();
    let mut i = 0;
    while i < b.len() {
        let hi = (b[i] as char).to_digit(16).unwrap() as u8;
        let lo = (b[i + 1] as char).to_digit(16).unwrap() as u8;
        out.push((hi << 4) | lo);
        i += 2;
    }
    out
}

#[test]
fn checksum_of_valid_df17_frame_is_zero() {
    let msg = hex_to_bytes("8dad929358b9c6273f002169c02e");
    assert_eq!(modes_checksum(&msg, 112), 0);
}

#[test]
fn checksum_of_short_frame_is_address_syndrome() {
    let msg = hex_to_bytes("02e1971ce17c84");
    assert_eq!(modes_checksum(&msg, 56), 0xad9293);
}

#[test]
fn checksum_of_all_zero_frame_is_zero() {
    assert_eq!(modes_checksum(&[0u8; 7], 56), 0);
    assert_eq!(modes_checksum(&[0u8; 14], 112), 0);
}

#[test]
fn syndrome_tables_have_expected_sizes() {
    let (short, long) = init_single_bit_syndromes();
    assert_eq!(short.len(), 56);
    assert_eq!(long.len(), 112);
}

#[test]
fn single_bit_error_repair_restores_long_frames() {
    // Flip each bit of an otherwise-zero 14-byte frame in turn: the repair
    // must find the flipped bit and restore the all-zero frame.
    for k in 0..112usize {
        let mut msg = vec![0u8; 14];
        msg[k / 8] ^= 1u8 << (7 - (k % 8));
        assert_ne!(modes_checksum(&msg, 112), 0);
        let fixed = fix_single_bit_error(&mut msg, 112);
        assert_eq!(fixed, Some(k));
        assert!(msg.iter().all(|b| *b == 0));
        assert_eq!(modes_checksum(&msg, 112), 0);
    }
}

#[test]
fn single_bit_error_repair_restores_short_frames() {
    for k in 0..56usize {
        let mut msg = vec![0u8; 7];
        msg[k / 8] ^= 1u8 << (7 - (k % 8));
        let fixed = fix_single_bit_error(&mut msg, 56);
        assert_eq!(fixed, Some(k));
        assert!(msg.iter().all(|b| *b == 0));
    }
}

#[test]
fn repair_leaves_valid_frames_alone() {
    let mut msg = hex_to_bytes("8dad929358b9c6273f002169c02e");
    let before = msg.clone();
    assert_eq!(fix_single_bit_error(&mut msg, 112), None);
    assert_eq!(msg, before);
}
