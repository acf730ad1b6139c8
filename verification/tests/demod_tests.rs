use dump1090_rs::avr::to_avr_record;
use dump1090_rs::demod_2400::{check_preamble, demodulate2400, Phase};
use dump1090_rs::icao_filter::IcaoFilter;
use dump1090_rs::magnitude::{magnitude_from_bytes, magnitude_from_iq, to_mag};
use dump1090_rs::numeric::isqrt64;
use dump1090_rs::MagnitudeBuffer;

#[test]
fn integer_square_root_brackets_its_input() {
    assert_eq!(isqrt64(0), 0);
    assert_eq!(isqrt64(1), 1);
    assert_eq!(isqrt64(15), 3);
    assert_eq!(isqrt64(16), 4);
    assert_eq!(isqrt64(u64::MAX), 0xffff_ffff);
}

#[test]
fn preamble_detector_accepts_a_clean_pattern() {
    // peaks at samples 1, 3, 9, 11, quiet elsewhere
    let p: [u16; 14] = [0, 100, 10, 100, 10, 5, 5, 5, 5, 100, 10, 20, 100, 0];
    let r = check_preamble(&p).unwrap();
    assert_eq!(r, (105, 300, 15));
}

#[test]
fn preamble_detector_rejects_flat_noise() {
    let p: [u16; 14] = [7; 14];
    assert_eq!(check_preamble(&p), None);
    let rising: [u16; 14] = [0, 1, 2, 3, 4, 5, 6, 7, 8, 9, 10, 11, 12, 13];
    assert_eq!(check_preamble(&rising), None);
}

#[test]
fn phase_stepping_cycles_as_specified() {
    assert_eq!(Phase::from(4usize), Phase::Four);
    assert_eq!(Phase::from(9usize), Phase::Four);
    assert_eq!(Phase::Zero.next(), Phase::Two);
    assert_eq!(Phase::Two.next(), Phase::Four);
    assert_eq!(Phase::Four.next(), Phase::One);
    assert_eq!(Phase::One.next(), Phase::Three);
    assert_eq!(Phase::Three.next(), Phase::Zero);
    assert_eq!(Phase::Zero.next_start(), Phase::One);
    assert_eq!(Phase::Four.next_start(), Phase::Zero);
    assert_eq!(Phase::Zero.increment_index(10), 12);
    assert_eq!(Phase::Three.increment_index(10), 13);
    assert_eq!(Phase::Four.increment_index(10), 13);
}

#[test]
fn bit_slicer_weights_match_the_specified_coefficients() {
    let m: [u16; 4] = [100, 50, 25, 10];
    assert_eq!(Phase::Zero.calculate_bit(&m), 18 * 100 - 15 * 50 - 3 * 25);
    assert_eq!(Phase::One.calculate_bit(&m), 14 * 100 - 5 * 50 - 9 * 25);
    assert_eq!(Phase::Two.calculate_bit(&m), 16 * 100 + 5 * 50 - 20 * 25);
    assert_eq!(Phase::Three.calculate_bit(&m), 7 * 100 + 11 * 50 - 18 * 25);
    assert_eq!(Phase::Four.calculate_bit(&m), 4 * 100 + 15 * 50 - 20 * 25 + 10);
}

#[test]
fn demodulating_silence_yields_no_frames() {
    let mut filter = IcaoFilter::default();
    let mut buf = MagnitudeBuffer::default();
    let mut i = 0;
    while i < 1000 {
        buf.push(0);
        i += 1;
    }
    let frames = demodulate2400(&mut filter, &buf).unwrap();
    assert!(frames.is_empty());
}

#[test]
fn buffer_swap_advances_the_timestamp_monotonically() {
    let mut buf = MagnitudeBuffer::default();
    let mut i: u16 = 0;
    while i < 1000 {
        buf.push(i);
        i += 1;
    }
    // new samples land after the 326-cell carried-tail region
    assert_eq!(buf.data[326], 0);
    assert_eq!(buf.data[326 + 999], 999);
    let next = buf.next_buffer(2_400_000);
    // 1000 samples at 2.4 MS/s are 5000 ticks of the 12 MHz clock
    assert_eq!(next.first_sample_timestamp_12mhz, 5000);
    assert!(next.first_sample_timestamp_12mhz >= buf.first_sample_timestamp_12mhz);
    assert_eq!(next.length, 0);
    // the last 326 live samples, exactly the ones this buffer's scan
    // stopped short of (cells 1000..1326, samples 674..=999), were carried
    // into the leading cells of the successor
    assert_eq!(next.data[0], buf.data[1000]);
    assert_eq!(next.data[0], 674);
    assert_eq!(next.data[325], buf.data[1325]);
    assert_eq!(next.data[325], 999);

    // fill the successor and swap again: pushes never clobber the carried
    // tail, and timestamps keep growing
    let mut next2 = next;
    let mut k = 0;
    while k < 400 {
        next2.push(7);
        k += 1;
    }
    assert_eq!(next2.data[0], 674);
    assert_eq!(next2.data[325], 999);
    assert_eq!(next2.data[326], 7);
    let third = next2.next_buffer(2_400_000);
    assert!(third.first_sample_timestamp_12mhz >= next2.first_sample_timestamp_12mhz);
    assert_eq!(third.first_sample_timestamp_12mhz, 5000 + 2000);
    // the second swap carries cells 400..726, all holding pushed samples
    assert_eq!(third.data[0], next2.data[400]);
    assert_eq!(third.data[0], 7);
    assert_eq!(third.data[325], next2.data[725]);
    assert_eq!(third.data[325], 7);
}

#[test]
fn magnitude_matches_the_real_valued_conversion() {
    for (i, q) in [
        (0i16, 0i16),
        (1, 0),
        (127, -127),
        (1000, 2000),
        (-12345, 23456),
        (32767, 0),
        (0, -32768),
        (-32768, -32768),
        (23170, 23170),
    ] {
        let exact = magnitude_from_iq(i, q);
        let fi = f64::from(i) / 32768.0;
        let fq = f64::from(q) / 32768.0;
        let mag_sqr = (fi * fi + fq * fq).min(1.0);
        let expected = (mag_sqr.sqrt() * 65535.0 + 0.5).floor() as u16;
        assert_eq!(exact, expected);
    }
}

#[test]
fn byte_magnitude_matches_the_real_valued_conversion() {
    for (i, q) in [(0u8, 0u8), (127, 128), (255, 0), (200, 55), (128, 127)] {
        let exact = magnitude_from_bytes(i, q);
        let fi = (f64::from(i) - 127.5) / 127.5;
        let fq = (f64::from(q) - 127.5) / 127.5;
        let mag_sqr = (fi * fi + fq * fq).min(1.0);
        let expected = (mag_sqr.sqrt() * 65535.0 + 0.5).floor() as u16;
        assert_eq!(exact, expected);
    }
}

#[test]
fn batch_conversion_fills_the_buffer_in_order() {
    let data = vec![(0i16, 0i16), (1000, 2000), (-32768, -32768)];
    let buf = to_mag(&data);
    assert_eq!(buf.length, 3);
    assert_eq!(buf.data[326], magnitude_from_iq(0, 0));
    assert_eq!(buf.data[327], magnitude_from_iq(1000, 2000));
    assert_eq!(buf.data[328], 65535);
}

#[test]
fn avr_record_frames_the_hex_of_the_message() {
    let rec = to_avr_record(&vec![0x8d, 0xad, 0x92, 0x93]);
    assert_eq!(rec, b"*8dad9293;\n".to_vec());
    let rec2 = to_avr_record(&vec![0x02, 0xe1]);
    assert_eq!(rec2, b"*02e1;\n".to_vec());
}
