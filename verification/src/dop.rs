//! DSD-over-PCM (DoP) packing.
//!
//! A DoP stream carries 1-bit DSD audio inside 24-bit PCM samples:
//!
//! ```text
//!   bits 23..16  marker byte 0x05 or 0xFA
//!   bits 15..8   the older 8 DSD bits, most significant bit first
//!   bits  7..0   the newer 8 DSD bits, most significant bit first
//! ```
//!
//! All channels of one frame share the marker, and the marker flips exactly
//! once per frame. A converter that sees the alternation break falls back to
//! plain PCM, so the schedule of markers is what this module is about.
use vstd::prelude::*;

verus! {

/// The marker of the first frame a packer emits.
pub const DOP_MARKER_A: u8 = 0x05;

/// The marker of the second frame.
pub const DOP_MARKER_B: u8 = 0xFA;

/// First byte of the DSD idle pattern.
pub const DOP_SILENCE_HI: u8 = 0x69;

/// Second byte of the DSD idle pattern.
pub const DOP_SILENCE_LO: u8 = 0x96;

// ------------------------------------------------------------ the schedule

/// The marker of the frame after one that carries `m`.
pub open spec fn flipped(m: u8) -> u8 {
    if m == DOP_MARKER_A {
        DOP_MARKER_B
    } else {
        DOP_MARKER_A
    }
}

/// The marker of frame `n` of a schedule that starts with `start`.
pub open spec fn marker_at(start: u8, n: nat) -> u8
    decreases n,
{
    if n == 0 {
        start
    } else {
        flipped(marker_at(start, (n - 1) as nat))
    }
}

/// The marker of the frame after one that carries `m`.
pub fn flip_marker(m: u8) -> (r: u8)
    ensures
        r == flipped(m),
{
    if m == DOP_MARKER_A {
        DOP_MARKER_B
    } else {
        DOP_MARKER_A
    }
}

/// Every marker of a schedule that starts with one of the two markers is one
/// of the two, and no two neighbouring frames share it.
pub proof fn law_marker_alternates(start: u8, n: nat)
    requires
        start == DOP_MARKER_A || start == DOP_MARKER_B,
    ensures
        marker_at(start, n) == DOP_MARKER_A || marker_at(start, n) == DOP_MARKER_B,
        marker_at(start, n + 1) != marker_at(start, n),
        marker_at(start, n + 2) == marker_at(start, n),
        n % 2 == 0 ==> marker_at(start, n) == start,
        n % 2 == 1 ==> marker_at(start, n) == flipped(start),
    decreases n,
{
    reveal_with_fuel(marker_at, 3);
    if n > 0 {
        law_marker_alternates(start, (n - 1) as nat);
    }
}

/// A schedule interrupted after `n` frames and resumed with the marker then
/// due is the uninterrupted schedule.
pub proof fn law_marker_schedule_resumes(start: u8, n: nat, k: nat)
    ensures
        marker_at(marker_at(start, n), k) == marker_at(start, n + k),
    decreases k,
{
    if k > 0 {
        law_marker_schedule_resumes(start, n, (k - 1) as nat);
    }
}

// ------------------------------------------------------------ packing

/// The 24-bit sample that carries `older` and `newer` under `marker`.
pub open spec fn packed(marker: u8, older: u8, newer: u8) -> u32 {
    (marker * 65536 + older * 256 + newer) as u32
}

/// One frame: one sample per channel out of two DSD bytes per channel, all
/// under the same marker.
pub open spec fn packed_frame(marker: u8, channels: nat, dsd_bytes: Seq<u8>) -> Seq<u32> {
    Seq::new(channels, |ch: int| packed(marker, dsd_bytes[2 * ch], dsd_bytes[2 * ch + 1]))
}

/// Packs `older` and `newer` under `marker`.
fn pack_sample(marker: u8, older: u8, newer: u8) -> (r: u32)
    ensures
        r == packed(marker, older, newer),
{
    let r: u32 = ((marker as u32) << 16) | ((older as u32) << 8) | (newer as u32);
    assert(((marker as u32) << 16) | ((older as u32) << 8) | (newer as u32)
        == marker as u32 * 65536 + older as u32 * 256 + newer as u32) by (bit_vector);
    r
}

/// A packed sample holds its three bytes in bits 23..0 and nothing above.
pub proof fn law_packed_fields(marker: u8, older: u8, newer: u8)
    ensures
        packed(marker, older, newer) >> 24 == 0,
        (packed(marker, older, newer) >> 16) & 0xFF == marker,
        (packed(marker, older, newer) >> 8) & 0xFF == older,
        packed(marker, older, newer) & 0xFF == newer,
        packed(marker, older, newer) & 0xFFFF == older * 256 + newer,
{
    let p: u32 = packed(marker, older, newer);
    assert(p >> 24 == 0 && (p >> 16) & 0xFF == marker && (p >> 8) & 0xFF == older && p & 0xFF == newer
        && p & 0xFFFF == older * 256 + newer) by (bit_vector)
        requires
            p == marker * 65536 + older * 256 + newer,
    ;
}

/// Packs DSD bytes into PCM frames, flipping the marker after every frame.
pub struct DopPacker {
    channels: usize,
    next_marker: u8,
}

impl DopPacker {
    /// How many channels a frame has.
    pub closed spec fn channel_count(&self) -> nat {
        self.channels as nat
    }

    /// The marker the next frame will carry.
    pub closed spec fn marker(&self) -> u8 {
        self.next_marker
    }

    /// A packer whose first frame carries `DOP_MARKER_A`.
    pub fn new(channels: usize) -> (r: Self)
        ensures
            r.channel_count() == channels,
            r.marker() == DOP_MARKER_A,
    {
        DopPacker { channels, next_marker: DOP_MARKER_A }
    }

    /// The PCM sample rate that carries a DSD stream of `dsd_rate` bits per
    /// second per channel.
    pub fn pcm_sample_rate(dsd_rate: u32) -> (r: u32)
        ensures
            r == dsd_rate / 16,
    {
        dsd_rate / 16
    }

    /// Packs one frame. `dsd_bytes` holds two bytes per channel, older byte
    /// first; `out` receives one sample per channel.
    pub fn pack_frame(&mut self, dsd_bytes: &[u8], out: &mut [u32])
        requires
            dsd_bytes@.len() == 2 * old(self).channel_count(),
            old(out)@.len() == old(self).channel_count(),
        ensures
            final(out)@ == packed_frame(old(self).marker(), old(self).channel_count(), dsd_bytes@),
            final(self).channel_count() == old(self).channel_count(),
            final(self).marker() == flipped(old(self).marker()),
    {
        let m: u8 = self.next_marker;
        let n: usize = self.channels;
        let len: usize = dsd_bytes.len();
        let mut ch: usize = 0;
        while ch < n
            invariant
                ch <= n,
                len == 2 * n,
                dsd_bytes@.len() == len,
                out@.len() == n,
                forall|j: int|
                    0 <= j < ch ==> out@[j] == packed(m, dsd_bytes@[2 * j], dsd_bytes@[2 * j + 1]),
            decreases n - ch,
        {
            out[ch] = pack_sample(m, dsd_bytes[ch * 2], dsd_bytes[ch * 2 + 1]);
            ch = ch + 1;
        }
        self.next_marker = flip_marker(m);
        assert(out@ =~= packed_frame(m, n as nat, dsd_bytes@));
    }
}

// ------------------------------------------------------------ 32-bit containers

/// The sample moved up so that its marker stands in bits 31..24, where a
/// 24-in-32 device with high alignment looks for it.
pub open spec fn high_aligned(sample: u32) -> u32 {
    ((sample % 0x100_0000) * 256) as u32
}

/// Moves the low 24 bits of a sample to the top of its 32-bit container.
pub fn align_high(sample: u32) -> (r: u32)
    ensures
        r == high_aligned(sample),
{
    let r: u32 = sample << 8;
    assert(sample << 8 == (sample % 0x100_0000) * 256) by (bit_vector);
    r
}

/// Aligning high puts the marker in the top byte, the DSD bytes below it, and
/// zero in the lowest byte.
pub proof fn law_high_aligned_fields(marker: u8, older: u8, newer: u8)
    ensures
        high_aligned(packed(marker, older, newer)) >> 24 == marker,
        (high_aligned(packed(marker, older, newer)) >> 16) & 0xFF == older,
        (high_aligned(packed(marker, older, newer)) >> 8) & 0xFF == newer,
        high_aligned(packed(marker, older, newer)) & 0xFF == 0,
{
    let q: u32 = high_aligned(packed(marker, older, newer));
    assert(q >> 24 == marker && (q >> 16) & 0xFF == older && (q >> 8) & 0xFF == newer && q & 0xFF == 0)
        by (bit_vector)
        requires
            q == marker * 0x100_0000 + older * 65536 + newer * 256,
    ;
}

// ------------------------------------------------------------ output with restamped markers

/// The four output bytes of one channel: padding, newer DSD byte, older DSD
/// byte, marker.
pub open spec fn slot_byte(marker: u8, hi: u8, lo: u8, j: int) -> u8 {
    if j == 0 {
        0
    } else if j == 1 {
        lo
    } else if j == 2 {
        hi
    } else {
        marker
    }
}

/// The bytes of a frame that carries `samples`, whose own markers are dropped
/// in favour of `marker`.
pub open spec fn sample_frame_bytes(samples: Seq<u32>, marker: u8) -> Seq<u8> {
    Seq::new(
        (4 * samples.len()) as nat,
        |i: int|
            slot_byte(
                marker,
                ((samples[i / 4] / 256) % 256) as u8,
                (samples[i / 4] % 256) as u8,
                i % 4,
            ),
    )
}

/// The bytes of an idle frame. Frame `i` of a buffer holds the idle pattern
/// one way round when `i` is even and the other way round when it is odd.
pub open spec fn idle_frame_bytes(channels: nat, marker: u8, i: int) -> Seq<u8> {
    Seq::new(
        4 * channels,
        |k: int|
            if i % 2 == 1 {
                slot_byte(marker, DOP_SILENCE_LO, DOP_SILENCE_HI, k % 4)
            } else {
                slot_byte(marker, DOP_SILENCE_HI, DOP_SILENCE_LO, k % 4)
            },
    )
}

/// The bytes of the first `n` frames of a buffer: the frames of `samples` as
/// far as they go, then idle frames, under one unbroken marker schedule.
pub open spec fn rendered(samples: Seq<u32>, channels: nat, start: u8, n: nat) -> Seq<u8>
    decreases n,
{
    if n == 0 {
        Seq::empty()
    } else {
        let i = n - 1;
        let marker = marker_at(start, i as nat);
        rendered(samples, channels, start, i as nat) + if (i + 1) * channels <= samples.len() {
            sample_frame_bytes(samples.subrange(i * channels, (i + 1) * channels), marker)
        } else {
            idle_frame_bytes(channels, marker, i)
        }
    }
}

/// Restamping a packed sample changes its marker and nothing else: the two DSD
/// bytes reach the device as they were packed.
pub proof fn law_restamping_keeps_dsd(packed_with: u8, older: u8, newer: u8, stamped_with: u8)
    ensures
        sample_frame_bytes(seq![packed(packed_with, older, newer)], stamped_with) == Seq::new(
            4,
            |j: int| slot_byte(stamped_with, older, newer, j),
        ),
{
    let p = packed(packed_with, older, newer);
    assert((p / 256) % 256 == older && p % 256 == newer);
    assert(sample_frame_bytes(seq![p], stamped_with) =~= Seq::new(
        4,
        |j: int| slot_byte(stamped_with, older, newer, j),
    ));
}

/// Appends one channel's slot.
fn push_slot(out: &mut Vec<u8>, marker: u8, hi: u8, lo: u8)
    ensures
        final(out)@ == old(out)@ + Seq::new(4, |j: int| slot_byte(marker, hi, lo, j)),
{
    out.push(0);
    out.push(lo);
    out.push(hi);
    out.push(marker);
    assert(out@ =~= old(out)@ + Seq::new(4, |j: int| slot_byte(marker, hi, lo, j)));
}

/// Appends the frame whose samples are `samples[from..from + channels]`,
/// stamped with `marker`.
fn write_dop_frame(out: &mut Vec<u8>, samples: &[u32], from: usize, channels: usize, marker: u8)
    requires
        from + channels <= samples@.len(),
    ensures
        final(out)@ == old(out)@ + sample_frame_bytes(
            samples@.subrange(from as int, from + channels),
            marker,
        ),
{
    let len: usize = samples.len();
    let ghost before = out@;
    let ghost frame = samples@.subrange(from as int, from + channels);
    let mut ch: usize = 0;
    while ch < channels
        invariant
            ch <= channels,
            from + channels <= len,
            samples@.len() == len,
            frame == samples@.subrange(from as int, from + channels),
            out@ == before + sample_frame_bytes(frame, marker).take(4 * ch),
        decreases channels - ch,
    {
        let s: u32 = samples[from + ch];
        let lo: u8 = (s % 256) as u8;
        let hi: u8 = ((s / 256) % 256) as u8;
        let ghost prior = out@;
        push_slot(out, marker, hi, lo);
        proof {
            let whole = sample_frame_bytes(frame, marker);
            let slot = Seq::new(4, |j: int| slot_byte(marker, hi, lo, j));
            assert forall|j: int| 0 <= j < 4 implies whole[4 * ch + j] == #[trigger] slot[j] by {
                assert((4 * ch + j) / 4 == ch && (4 * ch + j) % 4 == j);
                assert(frame[ch as int] == s);
            }
            assert(whole.take(4 * (ch + 1)) =~= whole.take(4 * ch) + slot) by {
                assert forall|k: int| 0 <= k < 4 * (ch + 1) implies whole.take(4 * (ch + 1))[k] == #[trigger] (
                whole.take(4 * ch) + slot)[k] by {
                    if k >= 4 * ch {
                        assert(whole[4 * ch + (k - 4 * ch)] == slot[k - 4 * ch]);
                    }
                }
            }
            assert(out@ =~= before + whole.take(4 * (ch + 1)));
        }
        ch = ch + 1;
    }
    assert(sample_frame_bytes(frame, marker).take(4 * channels) =~= sample_frame_bytes(frame, marker));
}

/// Appends an idle frame, stamped with `marker`.
fn write_dop_silence_frame(out: &mut Vec<u8>, channels: usize, marker: u8, hi: u8, lo: u8)
    ensures
        final(out)@ == old(out)@ + Seq::new(
            4 * channels as nat,
            |k: int| slot_byte(marker, hi, lo, k % 4),
        ),
{
    let ghost before = out@;
    let ghost whole = Seq::new(4 * channels as nat, |k: int| slot_byte(marker, hi, lo, k % 4));
    let mut ch: usize = 0;
    while ch < channels
        invariant
            ch <= channels,
            whole == Seq::new(4 * channels as nat, |k: int| slot_byte(marker, hi, lo, k % 4)),
            out@ == before + whole.take(4 * ch),
        decreases channels - ch,
    {
        push_slot(out, marker, hi, lo);
        assert(out@ =~= before + whole.take(4 * (ch + 1)));
        ch = ch + 1;
    }
    assert(whole.take(4 * channels) =~= whole);
}

/// Renders one device buffer of `frames` frames: every whole frame that
/// `samples` holds, then idle frames. Returns the bytes and the marker that
/// the next buffer starts with.
pub fn render_dop(samples: &[u32], channels: usize, frames: usize, start: u8) -> (r: (Vec<u8>, u8))
    requires
        channels > 0,
        samples@.len() % (channels as nat) == 0,
        samples@.len() <= frames * channels,
    ensures
        r.0@ == rendered(samples@, channels as nat, start, frames as nat),
        r.1 == marker_at(start, frames as nat),
{
    let mut out: Vec<u8> = Vec::new();
    let mut marker: u8 = start;
    let len: usize = samples.len();
    let take_frames: usize = len / channels;
    proof {
        vstd::arithmetic::div_mod::lemma_fundamental_div_mod(samples@.len() as int, channels as int);
        vstd::arithmetic::mul::lemma_mul_is_commutative(take_frames as int, channels as int);
        if take_frames > frames {
            vstd::arithmetic::mul::lemma_mul_strict_inequality(
                frames as int,
                take_frames as int,
                channels as int,
            );
        }
    }
    let mut i: usize = 0;
    while i < frames
        invariant
            i <= frames,
            channels > 0,
            take_frames <= frames,
            samples@.len() == len,
            len == take_frames * channels,
            out@ == rendered(samples@, channels as nat, start, i as nat),
            marker == marker_at(start, i as nat),
        decreases frames - i,
    {
        if i < take_frames {
            proof {
                vstd::arithmetic::mul::lemma_mul_inequality(i + 1, take_frames as int, channels as int);
                vstd::arithmetic::mul::lemma_mul_is_distributive_add_other_way(
                    channels as int,
                    i as int,
                    1,
                );
                assert(i * channels >= 0) by (nonlinear_arith);
            }
            let from: usize = i * channels;
            write_dop_frame(&mut out, samples, from, channels, marker);
        } else {
            assert((i + 1) * channels > samples@.len()) by {
                vstd::arithmetic::mul::lemma_mul_strict_inequality(
                    take_frames as int,
                    i + 1,
                    channels as int,
                );
            }
            if i % 2 == 1 {
                write_dop_silence_frame(&mut out, channels, marker, DOP_SILENCE_LO, DOP_SILENCE_HI);
            } else {
                write_dop_silence_frame(&mut out, channels, marker, DOP_SILENCE_HI, DOP_SILENCE_LO);
            }
            assert(out@ =~= rendered(samples@, channels as nat, start, i as nat) + idle_frame_bytes(
                channels as nat,
                marker,
                i as int,
            ));
        }
        marker = flip_marker(marker);
        i = i + 1;
    }
    (out, marker)
}

/// A rendered buffer of `n` frames has `4 * channels` bytes per frame, and
/// every slot of frame `f` ends in the marker that the schedule gives to `f`,
/// whether the frame holds samples or is idle.
pub proof fn law_rendered_keeps_schedule(
    samples: Seq<u32>,
    channels: nat,
    start: u8,
    n: nat,
    f: nat,
    ch: nat,
)
    requires
        f < n,
        ch < channels,
    ensures
        rendered(samples, channels, start, n).len() == n * (4 * channels),
        rendered(samples, channels, start, n)[(f * (4 * channels) + 4 * ch + 3) as int] == marker_at(start, f),
    decreases n,
{
    let i = (n - 1) as nat;
    lemma_rendered_len(samples, channels, start, i);
    lemma_rendered_len(samples, channels, start, n);
    let at = f * (4 * channels) + 4 * ch + 3;
    if f < i {
        law_rendered_keeps_schedule(samples, channels, start, i, f, ch);
        assert(at < i * (4 * channels)) by (nonlinear_arith)
            requires
                f + 1 <= i,
                ch < channels,
                at == f * (4 * channels) + 4 * ch + 3,
        ;
        assert(0 <= f * (4 * channels)) by (nonlinear_arith);
    } else {
        let k = 4 * ch + 3;
        assert(k / 4 == ch && k % 4 == 3);
        if (i + 1) * channels <= samples.len() {
            lemma_frame_len(samples, channels, i);
        }
    }
}

/// Frame `i` of the samples has one sample per channel.
proof fn lemma_frame_len(samples: Seq<u32>, channels: nat, i: nat)
    requires
        (i + 1) * channels <= samples.len(),
    ensures
        0 <= i * channels <= (i + 1) * channels,
        samples.subrange((i * channels) as int, ((i + 1) * channels) as int).len() == channels,
{
    vstd::arithmetic::mul::lemma_mul_is_distributive_add_other_way(channels as int, i as int, 1);
    assert(0 <= i * channels) by (nonlinear_arith);
}

/// How long a rendered buffer is.
proof fn lemma_rendered_len(samples: Seq<u32>, channels: nat, start: u8, n: nat)
    ensures
        rendered(samples, channels, start, n).len() == n * (4 * channels),
    decreases n,
{
    if n == 0 {
        assert(n * (4 * channels) == 0) by (nonlinear_arith)
            requires
                n == 0,
        ;
    } else {
        let i = (n - 1) as nat;
        lemma_rendered_len(samples, channels, start, i);
        if (i + 1) * channels <= samples.len() {
            lemma_frame_len(samples, channels, i);
        }
        assert(n * (4 * channels) == i * (4 * channels) + 4 * channels) by (nonlinear_arith)
            requires
                n == i + 1,
        ;
    }
}

/// Every sample reaches the device once, at its own frame and channel: under a
/// zero byte stand its low DSD byte, its high DSD byte and the marker that the
/// schedule gives to the frame.
#[verifier::rlimit(50)]
pub proof fn law_rendered_places_each_sample(
    samples: Seq<u32>,
    channels: nat,
    start: u8,
    n: nat,
    f: nat,
    ch: nat,
)
    requires
        f < n,
        ch < channels,
        (f + 1) * channels <= samples.len(),
    ensures
        ({
            let bytes = rendered(samples, channels, start, n);
            let sample = samples[(f * channels + ch) as int];
            let at = (f * (4 * channels) + 4 * ch) as int;
            &&& 0 <= f * channels + ch < samples.len()
            &&& at + 4 <= bytes.len()
            &&& bytes[at] == 0
            &&& bytes[at + 1] == sample % 256
            &&& bytes[at + 2] == (sample / 256) % 256
            &&& bytes[at + 3] == marker_at(start, f)
        }),
    decreases n,
{
    let i = (n - 1) as nat;
    lemma_rendered_len(samples, channels, start, i);
    lemma_rendered_len(samples, channels, start, n);
    lemma_frame_len(samples, channels, f);
    let at = (f * (4 * channels) + 4 * ch) as int;
    assert(f * channels + ch < (f + 1) * channels) by (nonlinear_arith)
        requires
            ch < channels,
    ;
    assert(0 <= f * (4 * channels)) by (nonlinear_arith);
    assert(at + 4 <= n * (4 * channels)) by (nonlinear_arith)
        requires
            f + 1 <= n,
            ch + 1 <= channels,
            at == f * (4 * channels) + 4 * ch,
    ;
    if f < i {
        law_rendered_places_each_sample(samples, channels, start, i, f, ch);
        assert(at + 4 <= i * (4 * channels)) by (nonlinear_arith)
            requires
                f + 1 <= i,
                ch + 1 <= channels,
                at == f * (4 * channels) + 4 * ch,
        ;
    } else {
        let frame = samples.subrange((f * channels) as int, ((f + 1) * channels) as int);
        let tail = sample_frame_bytes(frame, marker_at(start, f));
        assert(frame[ch as int] == samples[(f * channels + ch) as int]);
        assert forall|j: int| 0 <= j < 4 implies rendered(samples, channels, start, n)[at + j]
            == #[trigger] tail[4 * (ch as int) + j] by {}
        assert forall|j: int| 0 <= j < 4 implies (4 * ch + j) / 4 == ch && #[trigger] ((4 * ch + j) % 4) == j by {}
        assert(tail[4 * (ch as int)] == 0);
        assert(tail[4 * (ch as int) + 1] == frame[ch as int] % 256) by {
            assert((4 * ch + 1) / 4 == ch && (4 * ch + 1) % 4 == 1);
        }
        assert(tail[4 * (ch as int) + 2] == (frame[ch as int] / 256) % 256) by {
            assert((4 * ch + 2) / 4 == ch && (4 * ch + 2) % 4 == 2);
        }
        assert(tail[4 * (ch as int) + 3] == marker_at(start, f)) by {
            assert((4 * ch + 3) / 4 == ch && (4 * ch + 3) % 4 == 3);
        }
    }
}

/// A frame that the samples do not reach is idle on every channel: the pattern
/// of silence, turned round from one frame of the buffer to the next, under the
/// marker that the schedule gives to the frame.
#[verifier::rlimit(50)]
pub proof fn law_rendered_is_idle_behind_the_samples(
    samples: Seq<u32>,
    channels: nat,
    start: u8,
    n: nat,
    f: nat,
    ch: nat,
)
    requires
        f < n,
        ch < channels,
        (f + 1) * channels > samples.len(),
    ensures
        ({
            let bytes = rendered(samples, channels, start, n);
            let at = (f * (4 * channels) + 4 * ch) as int;
            &&& at + 4 <= bytes.len()
            &&& bytes[at] == 0
            &&& f % 2 == 0 ==> bytes[at + 1] == 0x96 && bytes[at + 2] == 0x69
            &&& f % 2 == 1 ==> bytes[at + 1] == 0x69 && bytes[at + 2] == 0x96
            &&& bytes[at + 3] == marker_at(start, f)
        }),
    decreases n,
{
    let i = (n - 1) as nat;
    lemma_rendered_len(samples, channels, start, i);
    lemma_rendered_len(samples, channels, start, n);
    let at = (f * (4 * channels) + 4 * ch) as int;
    assert(0 <= f * (4 * channels)) by (nonlinear_arith);
    assert(at + 4 <= n * (4 * channels)) by (nonlinear_arith)
        requires
            f + 1 <= n,
            ch + 1 <= channels,
            at == f * (4 * channels) + 4 * ch,
    ;
    if f < i {
        law_rendered_is_idle_behind_the_samples(samples, channels, start, i, f, ch);
        assert(at + 4 <= i * (4 * channels)) by (nonlinear_arith)
            requires
                f + 1 <= i,
                ch + 1 <= channels,
                at == f * (4 * channels) + 4 * ch,
        ;
    } else {
        let tail = idle_frame_bytes(channels, marker_at(start, f), f as int);
        assert((4 * ch) % 4 == 0 && (4 * ch + 1) % 4 == 1 && (4 * ch + 2) % 4 == 2 && (4 * ch + 3) % 4 == 3);
        assert(rendered(samples, channels, start, n)[at] == tail[4 * (ch as int)]);
        assert(rendered(samples, channels, start, n)[at + 1] == tail[4 * (ch as int) + 1]);
        assert(rendered(samples, channels, start, n)[at + 2] == tail[4 * (ch as int) + 2]);
        assert(rendered(samples, channels, start, n)[at + 3] == tail[4 * (ch as int) + 3]);
    }
}

/// The markers are those that converters look for, and they alternate from the
/// first frame of a stream on.
pub proof fn law_marker_values(n: nat)
    ensures
        marker_at(DOP_MARKER_A, n) == (if n % 2 == 0 {
            0x05u8
        } else {
            0xFAu8
        }),
        marker_at(DOP_MARKER_B, n) == (if n % 2 == 0 {
            0xFAu8
        } else {
            0x05u8
        }),
{
    law_marker_alternates(DOP_MARKER_A, n);
    law_marker_alternates(DOP_MARKER_B, n);
}

/// A packed frame has one sample per channel, which holds the marker and below
/// it the two bytes of that channel, older byte first.
pub proof fn law_packed_frame_fields(marker: u8, channels: nat, dsd_bytes: Seq<u8>, ch: int)
    requires
        dsd_bytes.len() == 2 * channels,
        0 <= ch < channels,
    ensures
        ({
            let frame = packed_frame(marker, channels, dsd_bytes);
            &&& frame.len() == channels
            &&& frame[ch] / 0x1_0000 == marker
            &&& (frame[ch] / 256) % 256 == dsd_bytes[2 * ch]
            &&& frame[ch] % 256 == dsd_bytes[2 * ch + 1]
        }),
{
}

/// Aligning a sample high moves its low 24 bits up by one byte and leaves zero
/// below them.
pub proof fn law_high_aligned_keeps_24_bits(sample: u32)
    ensures
        high_aligned(sample) / 256 == sample % 0x100_0000,
        high_aligned(sample) % 256 == 0,
        high_aligned(sample) == sample << 8,
{
    assert(sample << 8 == (sample % 0x100_0000) * 256) by (bit_vector);
}

} // verus!
