use jlfine::dsf::{reverse_bits, DsfReader, Error};

fn build_dsf(
    channels: u32,
    sampling_frequency: u32,
    sample_count: u64,
    block_size: u32,
    bits_per_sample: u32,
    payload: &[u8],
) -> Vec<u8> {
    let mut buf = Vec::new();
    buf.extend_from_slice(b"DSD ");
    buf.extend_from_slice(&28u64.to_le_bytes());
    let total = 28u64 + 52 + 12 + payload.len() as u64;
    buf.extend_from_slice(&total.to_le_bytes());
    buf.extend_from_slice(&0u64.to_le_bytes());
    buf.extend_from_slice(b"fmt ");
    buf.extend_from_slice(&52u64.to_le_bytes());
    buf.extend_from_slice(&1u32.to_le_bytes());
    buf.extend_from_slice(&0u32.to_le_bytes());
    buf.extend_from_slice(&2u32.to_le_bytes());
    buf.extend_from_slice(&channels.to_le_bytes());
    buf.extend_from_slice(&sampling_frequency.to_le_bytes());
    buf.extend_from_slice(&bits_per_sample.to_le_bytes());
    buf.extend_from_slice(&sample_count.to_le_bytes());
    buf.extend_from_slice(&block_size.to_le_bytes());
    buf.extend_from_slice(&0u32.to_le_bytes());
    buf.extend_from_slice(b"data");
    let data_size = 12u64 + payload.len() as u64;
    buf.extend_from_slice(&data_size.to_le_bytes());
    buf.extend_from_slice(payload);
    buf
}

fn error_of(buf: &[u8]) -> Error {
    match DsfReader::new(buf) {
        Ok(_) => panic!("expected an error"),
        Err(e) => e,
    }
}

#[test]
fn rejects_non_dsf_magic() {
    let buf = b"RIFF....".to_vec();
    match DsfReader::new(&buf[..]) {
        Err(Error::BadMagic(_)) => {}
        other => panic!("expected BadMagic, got {:?}", other.err()),
    }
}

#[test]
fn parses_header_fields() {
    let payload = vec![0xAA, 0x00, 0x00, 0x00, 0x55, 0x00, 0x00, 0x00];
    let buf = build_dsf(2, 2_822_400, 8, 4, 8, &payload);
    let r = DsfReader::new(&buf[..]).unwrap();
    let h = r.header();
    assert_eq!(h.channels, 2);
    assert_eq!(h.sampling_frequency, 2_822_400);
    assert_eq!(h.sample_count, 8);
    assert_eq!(h.block_size, 4);
    assert_eq!(h.bytes_per_channel(), 1);
}

#[test]
fn yields_bytes_in_channel_order_msb_first_when_bit_per_sample_is_8() {
    let payload = vec![0xA1, 0xA2, 0xB1, 0xB2];
    let buf = build_dsf(2, 2_822_400, 16, 2, 8, &payload);
    let mut r = DsfReader::new(&buf[..]).unwrap();
    let mut out = [0u8; 2];

    assert!(r.next_byte_per_channel(&mut out).unwrap());
    assert_eq!(out, [0xA1, 0xB1]);
    assert!(r.next_byte_per_channel(&mut out).unwrap());
    assert_eq!(out, [0xA2, 0xB2]);
    assert!(!r.next_byte_per_channel(&mut out).unwrap());
}

#[test]
fn reverses_bits_when_bit_per_sample_is_1() {
    let payload = vec![0b1010_0000, 0x00, 0b0000_1111, 0x00];
    let buf = build_dsf(2, 2_822_400, 8, 2, 1, &payload);
    let mut r = DsfReader::new(&buf[..]).unwrap();
    let mut out = [0u8; 2];

    assert!(r.next_byte_per_channel(&mut out).unwrap());
    assert_eq!(out, [0b0000_0101, 0b1111_0000]);
    assert!(!r.next_byte_per_channel(&mut out).unwrap());
}

#[test]
fn refills_multiple_blocks() {
    let payload = vec![0xA1, 0xB1, 0xA2, 0xB2, 0xA3, 0xB3];
    let buf = build_dsf(2, 2_822_400, 24, 1, 8, &payload);
    let mut r = DsfReader::new(&buf[..]).unwrap();
    let mut out = [0u8; 2];
    let mut got = Vec::new();
    while r.next_byte_per_channel(&mut out).unwrap() {
        got.extend_from_slice(&out);
    }
    assert_eq!(got, vec![0xA1, 0xB1, 0xA2, 0xB2, 0xA3, 0xB3]);
}

#[test]
fn truncates_padded_last_block() {
    let payload = vec![0xA1, 0xA2, 0x00, 0x00, 0xB1, 0xB2, 0x00, 0x00];
    let buf = build_dsf(2, 2_822_400, 12, 4, 8, &payload);
    let mut r = DsfReader::new(&buf[..]).unwrap();
    let mut out = [0u8; 2];
    let mut count = 0;
    while r.next_byte_per_channel(&mut out).unwrap() {
        count += 1;
    }
    assert_eq!(count, 2);
}

#[test]
fn rejects_unsupported_sampling_frequency() {
    let payload = vec![0u8; 4];
    let buf = build_dsf(2, 1_234_567, 8, 2, 8, &payload);
    match DsfReader::new(&buf[..]) {
        Err(Error::Unsupported(_)) => {}
        other => panic!("expected Unsupported, got {:?}", other.err()),
    }
}

#[test]
fn header_errors_come_in_the_order_of_the_fields() {
    let good = build_dsf(2, 2_822_400, 8, 2, 8, &[0; 4]);
    for len in [0usize, 3, 4, 27, 28, 31, 39, 43, 47, 55, 59, 63, 75, 79, 83, 91] {
        assert!(matches!(error_of(&good[..len]), Error::UnexpectedEof), "{}", len);
    }
    assert!(DsfReader::new(&good[..92]).is_ok());

    let mut bad = good.clone();
    bad[4] = 29;
    assert!(matches!(error_of(&bad), Error::Invalid("DSD chunk size != 28")));
    let mut bad = good.clone();
    bad[28] = b'F';
    assert_eq!(
        error_of(&bad).message(),
        "expected chunk [102, 109, 116, 32], got [70, 109, 116, 32]"
    );
    let mut bad = good.clone();
    bad[32] = 53;
    assert!(matches!(error_of(&bad), Error::Invalid("fmt chunk size != 52")));
    let mut bad = good.clone();
    bad[40] = 2;
    assert!(matches!(error_of(&bad), Error::Unsupported("fmt version != 1")));
    let mut bad = good.clone();
    bad[44] = 1;
    assert!(matches!(error_of(&bad), Error::Unsupported("format id != 0 (DSD raw)")));
    for channels in [0u8, 7] {
        let mut bad = good.clone();
        bad[52] = channels;
        assert!(matches!(error_of(&bad), Error::Invalid("channel count out of range")));
    }
    let mut bad = good.clone();
    bad[60] = 2;
    assert!(matches!(error_of(&bad), Error::Invalid("bits per sample must be 1 or 8")));
    let mut bad = good.clone();
    bad[72] = 0;
    assert_eq!(error_of(&bad).message(), "invalid DSF field: implausible block size");
    let mut bad = good.clone();
    bad[74] = 2;
    assert!(matches!(error_of(&bad), Error::Invalid("implausible block size")));
    let mut bad = good.clone();
    bad[80] = b'D';
    assert!(matches!(
        error_of(&bad),
        Error::UnexpectedChunk { expected: [0x64, 0x61, 0x74, 0x61], got: [0x44, 0x61, 0x74, 0x61] }
    ));
}

#[test]
fn errors_in_words() {
    assert_eq!(error_of(b"RIFF").message(), "not a DSF stream (bad magic [82, 73, 70, 70])");
    assert_eq!(error_of(b"DS").message(), "io: failed to fill whole buffer");
    let odd = build_dsf(2, 44_100, 8, 2, 8, &[]);
    assert_eq!(error_of(&odd).message(), "unsupported DSF: unexpected DSD sampling frequency");
}

#[test]
fn wrong_output_size_is_an_error_and_changes_nothing() {
    let buf = build_dsf(2, 5_644_800, 8, 1, 8, &[0xA1, 0xB1]);
    let mut r = DsfReader::new(&buf).unwrap();
    let mut three = [9u8; 3];
    assert!(matches!(
        r.next_byte_per_channel(&mut three),
        Err(Error::Invalid("output slice size != channel count"))
    ));
    assert_eq!(three, [9; 3]);
    let mut out = [0u8; 2];
    assert!(r.next_byte_per_channel(&mut out).unwrap());
    assert_eq!(out, [0xA1, 0xB1]);
}

#[test]
fn feeding_in_pieces_gives_the_same_bytes() {
    let payload: Vec<u8> = (0..36).collect();
    let whole = build_dsf(3, 11_289_600, 12 * 8, 4, 8, &payload);
    let mut all = DsfReader::new(&whole).unwrap();
    let mut one_by_one = DsfReader::new(&whole[..92]).unwrap();
    let mut fed = 0;
    let mut out = [0u8; 3];
    let mut expected = [0u8; 3];
    let mut n = 0;
    loop {
        while one_by_one.wants_input() && fed < payload.len() {
            one_by_one.feed(&payload[fed..fed + 1]);
            fed += 1;
        }
        let more = all.next_byte_per_channel(&mut expected).unwrap();
        assert_eq!(one_by_one.next_byte_per_channel(&mut out).unwrap(), more);
        if !more {
            break;
        }
        assert_eq!(out, expected);
        n += 1;
    }
    assert_eq!(n, 12);
    assert!(!all.wants_input());
}

#[test]
fn a_short_last_block_ends_the_stream() {
    // The second channel lacks its second byte.
    let buf = build_dsf(2, 2_822_400, 16, 2, 8, &[0xA1, 0xA2, 0xB1]);
    let mut r = DsfReader::new(&buf).unwrap();
    let mut out = [0u8; 2];
    assert!(r.next_byte_per_channel(&mut out).unwrap());
    assert_eq!(out, [0xA1, 0xB1]);
    assert!(r.wants_input());
    assert!(!r.next_byte_per_channel(&mut out).unwrap());
    r.feed(&[0xB2]);
    assert!(r.next_byte_per_channel(&mut out).unwrap());
    assert_eq!(out, [0xA2, 0xB2]);
}

#[test]
fn reversing_bits_agrees_with_the_machine() {
    for b in 0..=255u8 {
        assert_eq!(reverse_bits(b), b.reverse_bits());
        assert_eq!(reverse_bits(reverse_bits(b)), b);
    }
}
