use jlfine::dop::{
    align_high, flip_marker, render_dop, DopPacker, DOP_MARKER_A, DOP_MARKER_B, DOP_SILENCE_HI,
    DOP_SILENCE_LO,
};

fn marker_of(sample: u32) -> u8 {
    ((sample >> 16) & 0xFF) as u8
}

fn dsd_payload(sample: u32) -> u16 {
    (sample & 0xFFFF) as u16
}

#[test]
fn first_frame_uses_marker_05() {
    let mut p = DopPacker::new(2);
    let mut out = [0u32; 2];
    p.pack_frame(&[0xAA, 0xBB, 0xCC, 0xDD], &mut out);
    assert_eq!(marker_of(out[0]), DOP_MARKER_A);
    assert_eq!(marker_of(out[1]), DOP_MARKER_A);
}

#[test]
fn marker_alternates_per_frame_not_per_channel() {
    let mut p = DopPacker::new(2);
    let mut out = [0u32; 2];

    p.pack_frame(&[0, 0, 0, 0], &mut out);
    assert_eq!([marker_of(out[0]), marker_of(out[1])], [DOP_MARKER_A; 2]);

    p.pack_frame(&[0, 0, 0, 0], &mut out);
    assert_eq!([marker_of(out[0]), marker_of(out[1])], [DOP_MARKER_B; 2]);

    p.pack_frame(&[0, 0, 0, 0], &mut out);
    assert_eq!([marker_of(out[0]), marker_of(out[1])], [DOP_MARKER_A; 2]);
}

#[test]
fn dsd_bytes_land_in_low_16_bits_in_time_order() {
    let mut p = DopPacker::new(1);
    let mut out = [0u32; 1];
    p.pack_frame(&[0xAB, 0xCD], &mut out);
    assert_eq!(dsd_payload(out[0]), 0xABCD);
}

#[test]
fn low_byte_of_32_is_always_zero() {
    let mut p = DopPacker::new(2);
    let mut out = [0u32; 2];
    p.pack_frame(&[0xFF, 0xFF, 0xFF, 0xFF], &mut out);
    for v in out {
        assert_eq!(v >> 24, 0, "no bits above the 24-bit payload");
    }
}

#[test]
fn dsd64_pcm_rate_is_176_4khz() {
    assert_eq!(DopPacker::pcm_sample_rate(2_822_400), 176_400);
}

#[test]
fn dsd128_pcm_rate_is_352_8khz() {
    assert_eq!(DopPacker::pcm_sample_rate(5_644_800), 352_800);
}

#[test]
fn packed_sample_is_exact() {
    let mut p = DopPacker::new(2);
    let mut out = [0u32; 2];
    p.pack_frame(&[0x12, 0x34, 0x56, 0x78], &mut out);
    assert_eq!(out, [0x05_12_34, 0x05_56_78]);
    p.pack_frame(&[0x12, 0x34, 0x56, 0x78], &mut out);
    assert_eq!(out, [0xFA_12_34, 0xFA_56_78]);
}

#[test]
fn flipping_twice_gives_the_marker_back() {
    assert_eq!(flip_marker(DOP_MARKER_A), DOP_MARKER_B);
    assert_eq!(flip_marker(DOP_MARKER_B), DOP_MARKER_A);
    assert_eq!(flip_marker(0x77), DOP_MARKER_A);
}

#[test]
fn aligning_high_moves_the_marker_to_the_top() {
    assert_eq!(align_high(0x05_AB_CD), 0x05_AB_CD_00);
    assert_eq!(align_high(0xFF_FA_12_34), 0xFA_12_34_00);
}

#[test]
fn rendering_restamps_markers_and_goes_idle() {
    // Two frames of two channels, then two idle frames.
    let samples = [0x05_11_22, 0x05_33_44, 0x05_55_66, 0x05_77_88];
    let (bytes, next) = render_dop(&samples, 2, 4, DOP_MARKER_B);
    assert_eq!(next, DOP_MARKER_B);
    assert_eq!(
        bytes,
        vec![
            0, 0x22, 0x11, 0xFA, 0, 0x44, 0x33, 0xFA, //
            0, 0x66, 0x55, 0x05, 0, 0x88, 0x77, 0x05, //
            0, DOP_SILENCE_LO, DOP_SILENCE_HI, 0xFA, 0, DOP_SILENCE_LO, DOP_SILENCE_HI, 0xFA, //
            0, DOP_SILENCE_HI, DOP_SILENCE_LO, 0x05, 0, DOP_SILENCE_HI, DOP_SILENCE_LO, 0x05,
        ]
    );
}

#[test]
fn rendering_keeps_the_schedule_across_buffers() {
    let mut marker = DOP_MARKER_A;
    let mut seen = Vec::new();
    for frames in [3usize, 0, 1, 2] {
        let (bytes, next) = render_dop(&[], 1, frames, marker);
        assert_eq!(bytes.len(), 4 * frames);
        seen.extend(bytes.iter().skip(3).step_by(4).copied());
        marker = next;
    }
    assert_eq!(seen, vec![0x05, 0xFA, 0x05, 0xFA, 0x05, 0xFA]);
    assert_eq!(marker, DOP_MARKER_A);
}
