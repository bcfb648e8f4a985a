//! Playback through the CoreAudio hardware layer.
//!
//! An exclusive playback takes the device over, sets its rate or its physical
//! format, and gives everything back afterwards. A playback is a machine that
//! says which call to make next and is told how the call went; the session
//! remembers what has to be undone.
use crate::dop;
use crate::engine;
use crate::engine::Prefill;
use crate::ring;
use crate::text;
use vstd::prelude::*;

verus! {

/// Why a playback through the hardware layer failed. Numbers are status codes
/// of the system, or for `HogBusy` the process that holds the device.
#[derive(Debug, Clone, Copy, PartialEq, Eq, Structural)]
pub enum HalError {
    NoDefaultDevice(i32),
    EnumerateDevices(i32),
    HogBusy(i32),
    SampleRate(i32),
    CreateIoProc(i32),
    StartDevice(i32),
    EnumerateStreams(i32),
    NoOutputStream,
    EnumeratePhysicalFormats(i32),
    PhysicalFormatUnsupported,
    SetPhysicalFormat(i32),
    GetPhysicalFormat(i32),
    DopRequiresExclusive,
}

// ------------------------------------------------------------ choosing a device

/// The device UID that a stored id asks for, if it asks for one.
pub open spec fn asked_uid(audio_device: Option<String>) -> Option<Seq<char>> {
    match audio_device {
        None => None,
        Some(id) => match text::stripped(id@, "coreaudio/"@) {
            Some(uid) => if uid.len() > 0 {
                Some(uid)
            } else {
                None
            },
            None => None,
        },
    }
}

/// The device UID that a stored id asks for, if it asks for one.
pub fn wanted_uid(audio_device: &Option<String>) -> (r: Option<String>)
    ensures
        text::opt_view(r) == asked_uid(*audio_device),
{
    match audio_device {
        None => None,
        Some(id) => match text::strip_prefix(id.as_str(), "coreaudio/") {
            Some(uid) => {
                if uid.as_str().is_empty() {
                    None
                } else {
                    Some(uid)
                }
            },
            None => None,
        },
    }
}

/// A device of the system: its number, and its UID where that could be read.
#[derive(Debug, Clone)]
pub struct HalDevice {
    pub id: u32,
    pub uid: Option<String>,
}

/// The first device with the UID, if there is one.
pub open spec fn device_with_uid(devices: Seq<HalDevice>, uid: Seq<char>) -> Option<u32>
    decreases devices.len(),
{
    if devices.len() == 0 {
        None
    } else if text::opt_view(devices[0].uid) == Some(uid) {
        Some(devices[0].id)
    } else {
        device_with_uid(devices.skip(1), uid)
    }
}

/// The first device with the UID that was asked for. With none, or if no UID
/// was asked for, the caller uses the default output.
pub fn resolve_device(uid: &Option<String>, devices: &Vec<HalDevice>) -> (r: Option<u32>)
    ensures
        r == (match *uid {
            Some(u) => device_with_uid(devices@, u@),
            None => None,
        }),
{
    let want = match uid {
        None => {
            return None;
        },
        Some(u) => u,
    };
    let mut i: usize = 0;
    assert(devices@.skip(0) =~= devices@);
    while i < devices.len()
        invariant
            i <= devices@.len(),
            *uid == Some(*want),
            device_with_uid(devices@, want@) == device_with_uid(devices@.skip(i as int), want@),
        decreases devices@.len() - i,
    {
        assert(devices@.skip(i as int)[0] == devices@[i as int]);
        match &devices[i].uid {
            Some(have) => {
                if text::same_text(have.as_str(), want.as_str()) {
                    assert(text::opt_view(devices@[i as int].uid) == Some(want@));
                    return Some(devices[i].id);
                }
            },
            None => {},
        }
        assert(devices@.skip(i as int).skip(1) =~= devices@.skip(i + 1));
        i = i + 1;
    }
    assert(devices@.skip(i as int).len() == 0);
    None
}

/// A device of the system: its number, and its name where that could be read.
#[derive(Debug, Clone)]
pub struct NamedDevice {
    pub id: u32,
    pub name: Option<String>,
}

/// Whether a name holds a text, upper and lower case being alike.
pub open spec fn name_holds(name: Seq<char>, part: Seq<char>) -> bool {
    text::holds(text::lower_text(name), text::lower_text(part))
}

/// The first device whose name holds a text, upper and lower case being alike.
pub open spec fn device_named(devices: Seq<NamedDevice>, part: Seq<char>) -> Option<u32>
    decreases devices.len(),
{
    if devices.len() == 0 {
        None
    } else if devices[0].name is Some && name_holds(devices[0].name->0@, part) {
        Some(devices[0].id)
    } else {
        device_named(devices.skip(1), part)
    }
}

/// The first device whose name holds a text, upper and lower case being alike.
/// With none the caller uses the default output.
pub fn select_device(devices: &Vec<NamedDevice>, part: &str) -> (r: Option<u32>)
    ensures
        r == device_named(devices@, part@),
{
    let wanted = text::to_lower(part);
    let mut i: usize = 0;
    assert(devices@.skip(0) =~= devices@);
    while i < devices.len()
        invariant
            i <= devices@.len(),
            wanted@ == text::lower_text(part@),
            device_named(devices@, part@) == device_named(devices@.skip(i as int), part@),
        decreases devices@.len() - i,
    {
        assert(devices@.skip(i as int)[0] == devices@[i as int]);
        assert(devices@.skip(i as int).skip(1) =~= devices@.skip(i + 1));
        if let Some(name) = &devices[i].name {
            if name_matches(name.as_str(), wanted.as_str()) {
                return Some(devices[i].id);
            }
        }
        i = i + 1;
    }
    assert(devices@.skip(i as int).len() == 0);
    None
}

/// Whether a name, in lower case, holds a text.
fn name_matches(name: &str, wanted: &str) -> (r: bool)
    ensures
        r == text::holds(text::lower_text(name@), wanted@),
{
    text::contains(text::to_lower(name).as_str(), wanted)
}

// ------------------------------------------------------------ physical formats

/// `lpcm`.
pub const FORMAT_LINEAR_PCM: u32 = 0x6C70_636D;

pub const FLAG_IS_FLOAT: u32 = 1;

pub const FLAG_IS_SIGNED_INTEGER: u32 = 4;

pub const FLAG_IS_ALIGNED_HIGH: u32 = 16;

pub const FLAG_IS_NON_MIXABLE: u32 = 64;

/// A stream format, all but its rate.
#[derive(Debug, Clone, Copy, PartialEq, Eq, Structural)]
pub struct StreamFormat {
    pub format_id: u32,
    pub flags: u32,
    pub bytes_per_packet: u32,
    pub frames_per_packet: u32,
    pub bytes_per_frame: u32,
    pub channels: u32,
    pub bits_per_channel: u32,
}

/// The format that DoP is sent in: 24-bit signed integers at the top of 32-bit
/// containers, never mixed.
pub fn dop_format(channels: u32) -> (r: StreamFormat)
    requires
        4 * channels <= u32::MAX,
    ensures
        r == (StreamFormat {
            format_id: FORMAT_LINEAR_PCM,
            flags: 84,
            bytes_per_packet: (4 * channels) as u32,
            frames_per_packet: 1,
            bytes_per_frame: (4 * channels) as u32,
            channels,
            bits_per_channel: 24,
        }),
        r.flags == FLAG_IS_SIGNED_INTEGER | FLAG_IS_ALIGNED_HIGH | FLAG_IS_NON_MIXABLE,
{
    assert(4u32 | 16 | 64 == 84) by (bit_vector);
    StreamFormat {
        format_id: FORMAT_LINEAR_PCM,
        flags: FLAG_IS_SIGNED_INTEGER | FLAG_IS_ALIGNED_HIGH | FLAG_IS_NON_MIXABLE,
        bytes_per_packet: 4 * channels,
        frames_per_packet: 1,
        bytes_per_frame: 4 * channels,
        channels,
        bits_per_channel: 24,
    }
}

/// Whether a stream already has the target format, so that setting it again
/// can be skipped. `same_rate` says whether the rates are within half a hertz.
pub fn asbd_matches_target(current: &StreamFormat, target: &StreamFormat, same_rate: bool) -> (r: bool)
    ensures
        r == (current.format_id == target.format_id && current.flags == target.flags
            && current.bits_per_channel == target.bits_per_channel && current.bytes_per_frame
            == target.bytes_per_frame && current.channels == target.channels && same_rate),
{
    current.format_id == target.format_id && current.flags == target.flags && current.bits_per_channel
        == target.bits_per_channel && current.bytes_per_frame == target.bytes_per_frame
        && current.channels == target.channels && same_rate
}

/// Whether a format that a device offers shows that it can do the wanted one:
/// signed integers of the same width on as many channels, at a rate in range.
pub open spec fn compatible(have: StreamFormat, want: StreamFormat, rate_in_range: bool) -> bool {
    &&& have.format_id == want.format_id
    &&& have.bits_per_channel == want.bits_per_channel
    &&& have.channels == want.channels
    &&& have.flags & FLAG_IS_SIGNED_INTEGER != 0
    &&& have.flags & FLAG_IS_FLOAT == 0
    &&& rate_in_range
}

/// Whether a format that a device offers shows that it can do the wanted one.
pub fn asbd_compatible(have: &StreamFormat, want: &StreamFormat, rate_in_range: bool) -> (r: bool)
    ensures
        r == compatible(*have, *want, rate_in_range),
{
    have.format_id == want.format_id && have.bits_per_channel == want.bits_per_channel && have.channels
        == want.channels && (have.flags & FLAG_IS_SIGNED_INTEGER) != 0 && (have.flags & FLAG_IS_FLOAT) == 0
        && rate_in_range
}

/// Whether any of the formats that a device offers shows that it can do the
/// wanted one. Each comes with whether the wanted rate is in its range.
pub fn physical_format_supported(offered: &Vec<(StreamFormat, bool)>, want: &StreamFormat) -> (r: bool)
    ensures
        r == exists|i: int|
            0 <= i < offered@.len() && compatible(#[trigger] offered@[i].0, *want, offered@[i].1),
{
    let mut i: usize = 0;
    while i < offered.len()
        invariant
            i <= offered@.len(),
            forall|j: int|
                0 <= j < i ==> !compatible(#[trigger] offered@[j].0, *want, offered@[j].1),
        decreases offered@.len() - i,
    {
        if asbd_compatible(&offered[i].0, want, offered[i].1) {
            return true;
        }
        i = i + 1;
    }
    false
}

// ------------------------------------------------------------ filling device buffers

/// The samples of one device buffer: those that came out of the ring, then
/// silence.
pub open spec fn padded(raw: Seq<u32>, n: nat) -> Seq<u32> {
    Seq::new(
        n,
        |i: int|
            if i < raw.len() {
                raw[i]
            } else {
                0u32
            },
    )
}

/// Fills up a device buffer with silence.
pub fn pad(raw: Vec<u32>, n: usize) -> (r: Vec<u32>)
    requires
        raw@.len() <= n,
    ensures
        r@ == padded(raw@, n as nat),
{
    let mut out = raw;
    while out.len() < n
        invariant
            raw@.len() <= out@.len() <= n,
            out@ == padded(raw@, out@.len()),
        decreases n - out@.len(),
    {
        out.push(0);
        assert(out@ =~= padded(raw@, out@.len()));
    }
    out
}

/// One PCM device buffer.
pub struct PcmFill {
    pub samples: Vec<u32>,
    /// How many frames of the track it holds.
    pub frames: usize,
}

/// Fills one PCM device buffer of `n` samples from the ring. While the device
/// settles (`pre_roll`) it gets silence and the ring is left alone; when the
/// ring runs dry the rest is silence.
pub fn fill_pcm(consumer: &mut rtrb::Consumer<u32>, n: usize, channels: u32, pre_roll: bool) -> (r: PcmFill)
    requires
        channels > 0,
    ensures
        r.samples@.len() == n,
        pre_roll ==> r.samples@ == padded(Seq::empty(), n as nat) && r.frames == 0 && ring::taken(
            *final(consumer),
        ) == ring::taken(*old(consumer)),
        exists|raw: Seq<u32>| #![trigger padded(raw, n as nat)]
            {
                &&& raw.len() <= n
                &&& r.samples@ == padded(raw, n as nat)
                &&& r.frames == raw.len() as int / channels as int
                &&& ring::taken(*final(consumer)) == ring::taken(*old(consumer)) + raw
                &&& !pre_roll && raw.len() < n ==> ring::at_hand(*final(consumer)).len() == 0
                &&& ring::none_lost(*old(consumer), raw, *final(consumer))
            },
{
    let raw = if pre_roll {
        Vec::new()
    } else {
        take_up_to(consumer, n)
    };
    let len: usize = raw.len();
    let ghost got = raw@;
    let samples = pad(raw, n);
    assert(samples@ == padded(got, n as nat));
    assert(pre_roll ==> got =~= Seq::empty());
    assert(pre_roll ==> got + ring::at_hand(*consumer) =~= ring::at_hand(*old(consumer)));
    PcmFill { samples, frames: len / (channels as usize) }
}

/// Looks how many samples wait and takes them out of the ring, at most `n`:
/// fewer come out only where the look found no more.
fn take_up_to(consumer: &mut rtrb::Consumer<u32>, n: usize) -> (r: Vec<u32>)
    ensures
        r@.len() <= n,
        r@.len() < n ==> ring::at_hand(*final(consumer)).len() == 0,
        ring::none_lost(*old(consumer), r@, *final(consumer)),
        ring::taken(*final(consumer)) == ring::taken(*old(consumer)) + r@,
{
    let avail: usize = ring::waiting(consumer);
    let take: usize = if avail < n {
        avail
    } else {
        n
    };
    let ghost all = ring::at_hand(*consumer);
    assert(all.take(take as int) + all.skip(take as int) =~= all);
    match ring::take_chunk(consumer, take) {
        Some(v) => v,
        // Never comes: what the look found is still there.
        None => Vec::new(),
    }
}

/// What is left to do after a file's frames were read straight into a device
/// buffer.
#[derive(Debug, Clone, Copy, PartialEq, Eq, Structural)]
pub struct DirectRead {
    /// From this byte on the buffer is to be silent.
    pub silent_from: u32,
    /// How many frames of the file it holds.
    pub frames: u32,
    /// Whether the file is over.
    pub finished: bool,
}

/// Judges a read of `frames_read` frames into a buffer of `bytes` bytes: a
/// failed or empty read leaves silence and ends the file, a short one leaves
/// silence behind what was read and ends it too.
pub fn on_direct_read(bytes: u32, channels: u32, status: i32, frames_read: u32) -> (r: DirectRead)
    requires
        0 < channels,
        4 * channels <= u32::MAX,
        frames_read <= bytes / (4 * channels) as u32,
    ensures
        ({
            let per_frame = 4 * channels;
            let requested = bytes as int / per_frame;
            if status == 0 && frames_read > 0 {
                if frames_read < requested {
                    r == (DirectRead {
                        silent_from: (frames_read * per_frame) as u32,
                        frames: frames_read,
                        finished: true,
                    })
                } else {
                    r == (DirectRead { silent_from: bytes, frames: frames_read, finished: false })
                }
            } else {
                r == (DirectRead { silent_from: 0, frames: 0, finished: true })
            }
        }),
        r.silent_from <= bytes,
{
    let per_frame: u32 = 4 * channels;
    let requested: u32 = bytes / per_frame;
    proof {
        vstd::arithmetic::div_mod::lemma_fundamental_div_mod(bytes as int, per_frame as int);
        vstd::arithmetic::div_mod::lemma_mod_bound(bytes as int, per_frame as int);
        vstd::arithmetic::mul::lemma_mul_inequality(
            frames_read as int,
            requested as int,
            per_frame as int,
        );
        vstd::arithmetic::mul::lemma_mul_is_commutative(requested as int, per_frame as int);
    }
    if status == 0 && frames_read > 0 {
        if frames_read < requested {
            DirectRead { silent_from: frames_read * per_frame, frames: frames_read, finished: true }
        } else {
            DirectRead { silent_from: bytes, frames: frames_read, finished: false }
        }
    } else {
        DirectRead { silent_from: 0, frames: 0, finished: true }
    }
}

/// Whether a playback has reached its natural end: the decoder is done and no
/// samples wait.
pub fn is_over(ended: bool, buffered: usize) -> (r: bool)
    ensures
        r == (ended && buffered == 0),
{
    ended && buffered == 0
}

/// The same question for a ring: looks how many samples wait in it, and takes
/// none.
pub fn is_finished(consumer: &mut rtrb::Consumer<u32>, ended: bool) -> (r: bool)
    ensures
        r == (ended && ring::at_hand(*final(consumer)).len() == 0),
        ring::at_hand(*old(consumer)).is_prefix_of(ring::at_hand(*final(consumer))),
        ring::taken(*final(consumer)) == ring::taken(*old(consumer)),
{
    is_over(ended, ring::waiting(consumer))
}

/// The side of a DoP playback that feeds the device. It stamps the markers
/// itself, so that a ring that runs dry cannot break their alternation.
pub struct DopPlayer {
    pub channels: u32,
    pub next_marker: u8,
}

impl DopPlayer {
    /// A player whose first frame carries the first marker.
    pub fn new(channels: u32) -> (r: Self)
        ensures
            r.channels == channels,
            r.next_marker == dop::DOP_MARKER_A,
    {
        DopPlayer { channels, next_marker: dop::DOP_MARKER_A }
    }

    /// Fills one device buffer of `bytes` bytes: whole frames from the ring,
    /// then idle frames, all under one unbroken schedule of markers.
    pub fn fill(&mut self, consumer: &mut rtrb::Consumer<u32>, bytes: usize) -> (r: Vec<u8>)
        requires
            0 < old(self).channels,
            4 * old(self).channels <= usize::MAX,
        ensures
            final(self).channels == old(self).channels,
            ({
                let c = old(self).channels as int;
                let frames = (bytes as int / (4 * c)) as nat;
                &&& final(self).next_marker == dop::marker_at(old(self).next_marker, frames)
                &&& exists|raw: Seq<u32>|
                    #![trigger dop::rendered(raw, c as nat, old(self).next_marker, frames)]
                    {
                        &&& raw.len() as int % c == 0
                        &&& raw.len() <= frames * c
                        &&& raw.len() < frames * c ==> ring::at_hand(*final(consumer)).len() < c
                        &&& ring::none_lost(*old(consumer), raw, *final(consumer))
                        &&& r@ == dop::rendered(raw, c as nat, old(self).next_marker, frames)
                        &&& ring::taken(*final(consumer)) == ring::taken(*old(consumer)) + raw
                    }
            }),
    {
        let channels: usize = self.channels as usize;
        let frames: usize = bytes / (4 * channels);
        proof {
            assert(frames * channels <= bytes) by (nonlinear_arith)
                requires
                    frames == bytes as int / (4 * channels as int),
                    channels > 0,
            ;
            assert(0 <= frames * channels) by (nonlinear_arith);
        }
        let limit: usize = frames * channels;
        let avail: usize = ring::waiting(consumer);
        let take_samples: usize = if avail < limit {
            avail
        } else {
            limit
        };
        let take_frames: usize = take_samples / channels;
        proof {
            vstd::arithmetic::div_mod::lemma_fundamental_div_mod(take_samples as int, channels as int);
            vstd::arithmetic::mul::lemma_mul_is_commutative(take_frames as int, channels as int);
            vstd::arithmetic::div_mod::lemma_mod_multiples_basic(take_frames as int, channels as int);
            assert(0 <= take_frames * channels) by (nonlinear_arith);
            vstd::arithmetic::div_mod::lemma_mod_bound(take_samples as int, channels as int);
        }
        let whole: usize = take_frames * channels;
        let ghost all = ring::at_hand(*consumer);
        assert(all.take(whole as int) + all.skip(whole as int) =~= all);
        let samples = match ring::take_chunk(consumer, whole) {
            Some(v) => v,
            // Never comes: what the look found is still there.
            None => Vec::new(),
        };
        let (out, marker) = dop::render_dop(samples.as_slice(), channels, frames, self.next_marker);
        proof {
            let c = old(self).channels as int;
            let n = (bytes as int / (4 * c)) as nat;
            assert(out@ == dop::rendered(samples@, c as nat, old(self).next_marker, n));
            assert(samples@.len() as int % c == 0);
            assert(samples@.len() <= n * c);
            assert(ring::taken(*consumer) == ring::taken(*old(consumer)) + samples@);
            if avail >= limit {
                vstd::arithmetic::div_mod::lemma_div_by_multiple(frames as int, channels as int);
            }
        }
        self.next_marker = marker;
        out
    }
}

// ------------------------------------------------------------ a playback

/// What a playback sends to the device.
#[derive(Debug, Clone, Copy, PartialEq, Eq, Structural)]
pub enum HalKind {
    Pcm,
    Dop,
}

/// How far a playback has come: each stage waits for one call to be made.
#[derive(Debug, Clone, Copy, PartialEq, Eq, Structural)]
pub enum HalStage {
    /// The ring is filling up.
    Prefill,
    /// Which process holds the device is to be read.
    ReadHog,
    /// The device is to be taken over.
    TakeHog,
    /// The nominal rate is to be read before it is changed.
    ReadRate,
    /// The nominal rate is to be set to the track's.
    SetRate,
    /// The nominal rate is to be read back.
    CheckRate,
    /// The first output stream is to be found.
    FindStream,
    /// The formats the stream offers are to be looked through.
    ProbeFormats,
    /// The format the stream has is to be read.
    ReadFormat,
    /// The stream is to be switched to the DoP format.
    SetFormat,
    /// The device is to be given time to lock on.
    Settle,
    /// The callback is to be registered.
    CreateProc,
    /// The device is to be started.
    StartDevice,
    /// The device plays.
    Playing,
    /// The playback is over; with an error if it failed.
    Ended(Option<HalError>),
}

/// How a call went.
#[derive(Debug, Clone, Copy, PartialEq, Eq, Structural)]
pub enum HalEvent {
    Done,
    /// The call failed with this status.
    Failed(i32),
    /// What a look at the ring came to.
    Looked(Prefill),
    /// The process that holds the device; -1 for none.
    HogOwner(i32),
    /// The device has no output stream.
    NoStream,
    /// Whether one of the offered formats shows that DoP is possible.
    Supported(bool),
    /// Whether the stream has the DoP format already.
    AlreadySet(bool),
    /// The track is over, or the playback was cancelled.
    Over,
}

/// Milliseconds a device gets to lock on to a new physical format.
pub const SETTLE_MS: u64 = 200;

/// Milliseconds of silence at the start of a PCM playback.
pub const PRE_ROLL_MS: u64 = 500;

/// Milliseconds between two looks at whether a playback is over.
pub const PLAYING_POLL_MS: u64 = 100;

/// A playback and what it has done to the device so far.
#[derive(Debug, Clone, Copy)]
pub struct HalSession {
    pub kind: HalKind,
    pub exclusive: bool,
    /// The process id of this program.
    pub me: i32,
    pub stage: HalStage,
    pub took_hog: bool,
    pub format_changed: bool,
    pub proc_created: bool,
    pub running: bool,
}

impl HalSession {
    /// What holds of every session: the device runs only with a callback, only a DoP playback changes the
    /// format, and only an exclusive one takes the device over.
    pub open spec fn wf(&self) -> bool {
        &&& self.running ==> self.proc_created
        &&& self.format_changed ==> self.kind == HalKind::Dop
        &&& self.took_hog ==> self.exclusive
        &&& self.kind == HalKind::Dop ==> self.exclusive
        &&& match self.stage {
            HalStage::Prefill => self.kind == HalKind::Pcm,
            HalStage::ReadHog | HalStage::TakeHog => self.exclusive,
            HalStage::ReadRate | HalStage::SetRate | HalStage::CheckRate => self.exclusive && self.kind
                == HalKind::Pcm,
            HalStage::FindStream | HalStage::ProbeFormats | HalStage::ReadFormat | HalStage::SetFormat
            | HalStage::Settle => self.kind == HalKind::Dop,
            HalStage::CreateProc => true,
            HalStage::StartDevice => self.proc_created,
            HalStage::Playing => self.running,
            HalStage::Ended(_) => true,
        }
    }

    /// The stage once the device is held, or its owner could not be changed.
    pub open spec fn after_hog(kind: HalKind) -> HalStage {
        if kind == HalKind::Pcm {
            HalStage::ReadRate
        } else {
            HalStage::FindStream
        }
    }

    /// The session after an event. An event that the stage does not wait for
    /// changes nothing.
    pub open spec fn after(&self, event: HalEvent) -> HalSession {
        match (self.stage, event) {
            (HalStage::Prefill, HalEvent::Looked(p)) => match p {
                Prefill::Abort => self.at(HalStage::Ended(None)),
                Prefill::Ready => if self.exclusive {
                    self.at(HalStage::ReadHog)
                } else {
                    self.at(HalStage::CreateProc)
                },
                Prefill::Wait => *self,
            },
            (HalStage::ReadHog, HalEvent::HogOwner(owner)) => if owner == self.me {
                HalSession { took_hog: true, ..self.at(HalSession::after_hog(self.kind)) }
            } else if owner != -1 {
                self.at(HalStage::Ended(Some(HalError::HogBusy(owner))))
            } else {
                self.at(HalStage::TakeHog)
            },
            (HalStage::TakeHog, HalEvent::Done) => HalSession {
                took_hog: true,
                ..self.at(HalSession::after_hog(self.kind))
            },
            (HalStage::TakeHog, HalEvent::Failed(_)) => self.at(HalSession::after_hog(self.kind)),
            (HalStage::ReadRate, HalEvent::Done) => self.at(HalStage::SetRate),
            (HalStage::SetRate, HalEvent::Done) => self.at(HalStage::CheckRate),
            (HalStage::CheckRate, HalEvent::Done) => self.at(HalStage::CreateProc),
            (HalStage::ReadRate, HalEvent::Failed(s)) => self.failed(HalError::SampleRate(s)),
            (HalStage::SetRate, HalEvent::Failed(s)) => self.failed(HalError::SampleRate(s)),
            (HalStage::CheckRate, HalEvent::Failed(s)) => self.failed(HalError::SampleRate(s)),
            (HalStage::FindStream, HalEvent::Done) => self.at(HalStage::ProbeFormats),
            (HalStage::FindStream, HalEvent::NoStream) => self.failed(HalError::NoOutputStream),
            (HalStage::FindStream, HalEvent::Failed(s)) => self.failed(HalError::EnumerateStreams(s)),
            (HalStage::ProbeFormats, HalEvent::Supported(yes)) => if yes {
                self.at(HalStage::ReadFormat)
            } else {
                self.failed(HalError::PhysicalFormatUnsupported)
            },
            (HalStage::ProbeFormats, HalEvent::Failed(s)) => self.failed(
                HalError::EnumeratePhysicalFormats(s),
            ),
            (HalStage::ReadFormat, HalEvent::AlreadySet(yes)) => if yes {
                self.at(HalStage::Settle)
            } else {
                self.at(HalStage::SetFormat)
            },
            (HalStage::ReadFormat, HalEvent::Failed(s)) => self.failed(HalError::GetPhysicalFormat(s)),
            (HalStage::SetFormat, HalEvent::Done) => HalSession {
                format_changed: true,
                ..self.at(HalStage::Settle)
            },
            (HalStage::SetFormat, HalEvent::Failed(s)) => self.failed(HalError::SetPhysicalFormat(s)),
            (HalStage::Settle, HalEvent::Done) => self.at(HalStage::CreateProc),
            (HalStage::CreateProc, HalEvent::Done) => HalSession {
                proc_created: true,
                ..self.at(HalStage::StartDevice)
            },
            (HalStage::CreateProc, HalEvent::Failed(s)) => self.failed(HalError::CreateIoProc(s)),
            (HalStage::StartDevice, HalEvent::Done) => HalSession {
                running: true,
                ..self.at(HalStage::Playing)
            },
            (HalStage::StartDevice, HalEvent::Failed(s)) => self.failed(HalError::StartDevice(s)),
            (HalStage::Playing, HalEvent::Over) => self.at(HalStage::Ended(None)),
            _ => *self,
        }
    }

    pub open spec fn at(&self, stage: HalStage) -> HalSession {
        HalSession { stage, ..*self }
    }

    pub open spec fn failed(&self, e: HalError) -> HalSession {
        self.at(HalStage::Ended(Some(e)))
    }

    /// A playback on a device that has been chosen. DoP is refused unless the
    /// device is taken exclusively: without that its format cannot be changed.
    pub fn start(kind: HalKind, exclusive: bool, me: i32) -> (r: Result<Self, HalError>)
        ensures
            kind == HalKind::Dop && !exclusive ==> r == Err::<HalSession, HalError>(
                HalError::DopRequiresExclusive,
            ),
            kind == HalKind::Pcm || exclusive ==> r == Ok::<HalSession, HalError>(
                HalSession {
                    kind,
                    exclusive,
                    me,
                    stage: if kind == HalKind::Pcm {
                        HalStage::Prefill
                    } else {
                        HalStage::ReadHog
                    },
                    took_hog: false,
                    format_changed: false,
                    proc_created: false,
                    running: false,
                },
            ),
            r matches Ok(s) ==> s.wf(),
    {
        if kind == HalKind::Dop && !exclusive {
            return Err(HalError::DopRequiresExclusive);
        }
        let stage = if kind == HalKind::Pcm {
            HalStage::Prefill
        } else {
            HalStage::ReadHog
        };
        Ok(
            HalSession {
                kind,
                exclusive,
                me,
                stage,
                took_hog: false,
                format_changed: false,
                proc_created: false,
                running: false,
            },
        )
    }

    /// Takes note of how the call that the stage waits for went.
    pub fn on_event(&mut self, event: HalEvent)
        ensures
            *final(self) == old(self).after(event),
            old(self).wf() ==> final(self).wf(),
    {
        match (self.stage, event) {
            (HalStage::Prefill, HalEvent::Looked(p)) => match p {
                Prefill::Abort => {
                    self.stage = HalStage::Ended(None);
                },
                Prefill::Ready => {
                    if self.exclusive {
                        self.stage = HalStage::ReadHog;
                    } else {
                        self.stage = HalStage::CreateProc;
                    }
                },
                Prefill::Wait => {},
            },
            (HalStage::ReadHog, HalEvent::HogOwner(owner)) => {
                if owner == self.me {
                    self.hog_settled(true);
                } else if owner != -1 {
                    self.stage = HalStage::Ended(Some(HalError::HogBusy(owner)));
                } else {
                    self.stage = HalStage::TakeHog;
                }
            },
            (HalStage::TakeHog, HalEvent::Done) => self.hog_settled(true),
            (HalStage::TakeHog, HalEvent::Failed(_)) => self.hog_settled(self.took_hog),
            (HalStage::ReadRate, HalEvent::Done) => self.stage = HalStage::SetRate,
            (HalStage::SetRate, HalEvent::Done) => self.stage = HalStage::CheckRate,
            (HalStage::CheckRate, HalEvent::Done) => self.stage = HalStage::CreateProc,
            (HalStage::ReadRate, HalEvent::Failed(s)) => self.fail(HalError::SampleRate(s)),
            (HalStage::SetRate, HalEvent::Failed(s)) => self.fail(HalError::SampleRate(s)),
            (HalStage::CheckRate, HalEvent::Failed(s)) => self.fail(HalError::SampleRate(s)),
            (HalStage::FindStream, HalEvent::Done) => self.stage = HalStage::ProbeFormats,
            (HalStage::FindStream, HalEvent::NoStream) => self.fail(HalError::NoOutputStream),
            (HalStage::FindStream, HalEvent::Failed(s)) => self.fail(HalError::EnumerateStreams(s)),
            (HalStage::ProbeFormats, HalEvent::Supported(yes)) => {
                if yes {
                    self.stage = HalStage::ReadFormat;
                } else {
                    self.fail(HalError::PhysicalFormatUnsupported);
                }
            },
            (HalStage::ProbeFormats, HalEvent::Failed(s)) => self.fail(
                HalError::EnumeratePhysicalFormats(s),
            ),
            (HalStage::ReadFormat, HalEvent::AlreadySet(yes)) => {
                if yes {
                    self.stage = HalStage::Settle;
                } else {
                    self.stage = HalStage::SetFormat;
                }
            },
            (HalStage::ReadFormat, HalEvent::Failed(s)) => self.fail(HalError::GetPhysicalFormat(s)),
            (HalStage::SetFormat, HalEvent::Done) => {
                self.format_changed = true;
                self.stage = HalStage::Settle;
            },
            (HalStage::SetFormat, HalEvent::Failed(s)) => self.fail(HalError::SetPhysicalFormat(s)),
            (HalStage::Settle, HalEvent::Done) => self.stage = HalStage::CreateProc,
            (HalStage::CreateProc, HalEvent::Done) => {
                self.proc_created = true;
                self.stage = HalStage::StartDevice;
            },
            (HalStage::CreateProc, HalEvent::Failed(s)) => self.fail(HalError::CreateIoProc(s)),
            (HalStage::StartDevice, HalEvent::Done) => {
                self.running = true;
                self.stage = HalStage::Playing;
            },
            (HalStage::StartDevice, HalEvent::Failed(s)) => self.fail(HalError::StartDevice(s)),
            (HalStage::Playing, HalEvent::Over) => self.stage = HalStage::Ended(None),
            _ => {},
        }
    }

    fn hog_settled(&mut self, took: bool)
        ensures
            *final(self) == (HalSession {
                took_hog: took,
                ..old(self).at(HalSession::after_hog(old(self).kind))
            }),
    {
        self.took_hog = took;
        self.stage = if self.kind == HalKind::Pcm {
            HalStage::ReadRate
        } else {
            HalStage::FindStream
        };
    }

    fn fail(&mut self, e: HalError)
        ensures
            *final(self) == old(self).failed(e),
    {
        self.stage = HalStage::Ended(Some(e));
    }

    /// The calls that undo what the playback did, in this order: stop the
    /// device, remove the callback, restore the format, release the device.
    /// The format is left alone when the next track is DSD too.
    pub open spec fn undo(&self, next_is_dsd: bool) -> Seq<Teardown> {
        (if self.proc_created && self.running {
            seq![Teardown::StopDevice]
        } else {
            Seq::empty()
        }) + (if self.proc_created {
            seq![Teardown::DestroyProc]
        } else {
            Seq::empty()
        }) + (if self.format_changed && !next_is_dsd {
            seq![Teardown::RestoreFormat]
        } else {
            Seq::empty()
        }) + (if self.took_hog {
            seq![Teardown::ReleaseHog]
        } else {
            Seq::empty()
        })
    }

    /// The calls that undo what the playback did.
    pub fn teardown(&self, next_is_dsd: bool) -> (r: Vec<Teardown>)
        ensures
            r@ == self.undo(next_is_dsd),
    {
        let mut out: Vec<Teardown> = Vec::new();
        if self.proc_created {
            if self.running {
                out.push(Teardown::StopDevice);
            }
            out.push(Teardown::DestroyProc);
        }
        if self.format_changed && !next_is_dsd {
            out.push(Teardown::RestoreFormat);
        }
        if self.took_hog {
            out.push(Teardown::ReleaseHog);
        }
        assert(out@ =~= self.undo(next_is_dsd));
        out
    }
}

/// A call that undoes part of a playback.
#[derive(Debug, Clone, Copy, PartialEq, Eq, Structural)]
pub enum Teardown {
    StopDevice,
    DestroyProc,
    RestoreFormat,
    ReleaseHog,
}

/// A playback that is not exclusive leaves nothing behind on the device: it
/// neither takes it over nor changes its format, whatever happens.
pub proof fn law_shared_playback_is_harmless(session: HalSession, event: HalEvent, next_is_dsd: bool)
    requires
        session.wf(),
        !session.exclusive,
    ensures
        session.after(event).wf(),
        !session.after(event).exclusive,
        !session.undo(next_is_dsd).contains(Teardown::ReleaseHog),
        !session.undo(next_is_dsd).contains(Teardown::RestoreFormat),
{
}

/// Everything a playback did is undone, and nothing else is: each call is there
/// exactly when it is called for, and once.
pub proof fn law_teardown_is_exact(session: HalSession, next_is_dsd: bool)
    requires
        session.wf(),
    ensures
        ({
            let undo = session.undo(next_is_dsd);
            &&& undo.no_duplicates()
            &&& undo.contains(Teardown::ReleaseHog) <==> session.took_hog
            &&& undo.contains(Teardown::RestoreFormat) <==> session.format_changed && !next_is_dsd
            &&& undo.contains(Teardown::DestroyProc) <==> session.proc_created
            &&& undo.contains(Teardown::StopDevice) <==> session.running
            &&& session.took_hog ==> undo.last() == Teardown::ReleaseHog
        }),
{
    let undo = session.undo(next_is_dsd);
    let a = if session.running { 1int } else { 0 };
    let b = if session.proc_created { 1int } else { 0 };
    let c = if session.format_changed && !next_is_dsd { 1int } else { 0 };
    if session.running {
        assert(undo[0] == Teardown::StopDevice);
    }
    if session.proc_created {
        assert(undo[a] == Teardown::DestroyProc);
    }
    if session.format_changed && !next_is_dsd {
        assert(undo[a + b] == Teardown::RestoreFormat);
    }
    if session.took_hog {
        assert(undo[a + b + c] == Teardown::ReleaseHog);
    }
}

/// Nothing that was done is forgotten: what a playback has taken or changed it
/// still knows about after every event, to the end.
pub proof fn law_nothing_is_forgotten(session: HalSession, event: HalEvent)
    ensures
        session.took_hog ==> session.after(event).took_hog,
        session.format_changed ==> session.after(event).format_changed,
        session.proc_created ==> session.after(event).proc_created,
        session.running ==> session.after(event).running,
        session.stage is Ended ==> session.after(event) == session,
{
}

/// A device buffer holds what came out of the ring at its start, sample by
/// sample, and silence behind it.
pub proof fn law_buffer_is_samples_then_silence(raw: Seq<u32>, n: nat)
    requires
        raw.len() <= n,
    ensures
        padded(raw, n).len() == n,
        padded(raw, n).take(raw.len() as int) == raw,
        forall|i: int| raw.len() <= i < n ==> #[trigger] padded(raw, n)[i] == 0,
{
    assert(padded(raw, n).take(raw.len() as int) =~= raw);
}

/// A stored id asks for the device whose UID stands behind `coreaudio/`, and no
/// other id asks for one.
pub proof fn law_asked_uid(id: String, uid: Seq<char>)
    ensures
        asked_uid(Some(id)) == Some(uid) <==> id@ == "coreaudio/"@ + uid && uid.len() > 0,
        asked_uid(None) is None,
{
    text::law_prefix(id@, "coreaudio/"@, uid);
}

/// The device that is found has the UID, and none before it has; if none is
/// found, none has.
pub proof fn law_device_with_uid(devices: Seq<HalDevice>, uid: Seq<char>)
    ensures
        match device_with_uid(devices, uid) {
            Some(id) => exists|i: int|
                {
                    &&& 0 <= i < devices.len()
                    &&& (#[trigger] devices[i]).id == id
                    &&& text::opt_view(devices[i].uid) == Some(uid)
                    &&& forall|j: int| 0 <= j < i ==> text::opt_view((#[trigger] devices[j]).uid) != Some(uid)
                },
            None => forall|j: int|
                0 <= j < devices.len() ==> text::opt_view((#[trigger] devices[j]).uid) != Some(uid),
        },
    decreases devices.len(),
{
    if devices.len() > 0 && text::opt_view(devices[0].uid) != Some(uid) {
        let rest = devices.skip(1);
        law_device_with_uid(rest, uid);
        assert forall|j: int| 1 <= j < devices.len() implies #[trigger] devices[j] == rest[j - 1] by {}
        match device_with_uid(rest, uid) {
            Some(id) => {
                let k = choose|i: int|
                    {
                        &&& 0 <= i < rest.len()
                        &&& (#[trigger] rest[i]).id == id
                        &&& text::opt_view(rest[i].uid) == Some(uid)
                        &&& forall|j: int| 0 <= j < i ==> text::opt_view((#[trigger] rest[j]).uid) != Some(uid)
                    };
                assert(devices[k + 1] == rest[k]);
            },
            None => {},
        }
    } else if devices.len() > 0 {
        assert(devices[0].id == device_with_uid(devices, uid)->0);
    }
}

/// The device that is found has a name that holds the text, and none before it
/// has; if none is found, none has. Case does not matter.
pub proof fn law_device_named(devices: Seq<NamedDevice>, part: Seq<char>)
    ensures
        match device_named(devices, part) {
            Some(id) => exists|i: int|
                {
                    &&& 0 <= i < devices.len()
                    &&& (#[trigger] devices[i]).id == id
                    &&& devices[i].name is Some
                    &&& text::holds(text::lower_text(devices[i].name->0@), text::lower_text(part))
                    &&& forall|j: int|
                        0 <= j < i && (#[trigger] devices[j]).name is Some ==> !text::holds(
                            text::lower_text(devices[j].name->0@),
                            text::lower_text(part),
                        )
                },
            None => forall|j: int|
                0 <= j < devices.len() && (#[trigger] devices[j]).name is Some ==> !text::holds(
                    text::lower_text(devices[j].name->0@),
                    text::lower_text(part),
                ),
        },
    decreases devices.len(),
{
    if devices.len() > 0 {
        if devices[0].name is Some && name_holds(devices[0].name->0@, part) {
            assert(devices[0].id == device_named(devices, part)->0);
        } else {
            let rest = devices.skip(1);
            law_device_named(rest, part);
            assert forall|j: int| 1 <= j < devices.len() implies #[trigger] devices[j] == rest[j - 1] by {}
            match device_named(rest, part) {
                Some(id) => {
                    let k = choose|i: int|
                        {
                            &&& 0 <= i < rest.len()
                            &&& (#[trigger] rest[i]).id == id
                            &&& rest[i].name is Some
                            &&& text::holds(text::lower_text(rest[i].name->0@), text::lower_text(part))
                            &&& forall|j: int|
                                0 <= j < i && (#[trigger] rest[j]).name is Some ==> !text::holds(
                                    text::lower_text(rest[j].name->0@),
                                    text::lower_text(part),
                                )
                        };
                    assert(devices[k + 1] == rest[k]);
                },
                None => {},
            }
        }
    }
}

/// A format that shows that a device can do the wanted one is of signed
/// integers, as wide and of as many channels, at a rate in range.
pub proof fn law_compatible_formats(have: StreamFormat, want: StreamFormat, rate_in_range: bool)
    ensures
        compatible(have, want, rate_in_range) <==> {
            &&& rate_in_range
            &&& have.format_id == want.format_id
            &&& have.bits_per_channel == want.bits_per_channel
            &&& have.channels == want.channels
            &&& have.flags & 4 == 4
            &&& have.flags & 1 == 0
        },
{
    let f = have.flags;
    assert((f & 4 == 4) == (f & 4 != 0)) by (bit_vector);
}

/// The place of a stage in the life of a playback.
pub open spec fn stage_rank(stage: HalStage) -> int {
    match stage {
        HalStage::Prefill => 0,
        HalStage::ReadHog => 1,
        HalStage::TakeHog => 2,
        HalStage::ReadRate => 3,
        HalStage::SetRate => 4,
        HalStage::CheckRate => 5,
        HalStage::FindStream => 3,
        HalStage::ProbeFormats => 4,
        HalStage::ReadFormat => 5,
        HalStage::SetFormat => 6,
        HalStage::Settle => 7,
        HalStage::CreateProc => 8,
        HalStage::StartDevice => 9,
        HalStage::Playing => 10,
        HalStage::Ended(_) => 11,
    }
}

/// A playback never goes back. It plays only once the device has been started,
/// starts it only with the callback in place, and puts the callback in place only
/// behind what comes before: for DoP the settling of its format, for exclusive
/// PCM the check of its rate, for shared PCM the filling of the ring.
#[verifier::rlimit(50)]
pub proof fn law_hal_stages_in_order(session: HalSession, event: HalEvent)
    requires
        session.wf(),
    ensures
        ({
            let next = session.after(event);
            &&& stage_rank(session.stage) <= stage_rank(next.stage)
            &&& next.stage != session.stage ==> {
                &&& next.stage is Playing ==> session.stage is StartDevice && event is Done && next.running
                &&& next.stage is StartDevice ==> session.stage is CreateProc && event is Done
                    && next.proc_created
                &&& next.stage is CreateProc ==> if session.kind == HalKind::Dop {
                    session.stage is Settle
                } else if session.exclusive {
                    session.stage is CheckRate && event is Done
                } else {
                    session.stage is Prefill && event == HalEvent::Looked(Prefill::Ready)
                }
                &&& next.stage is Settle ==> event == HalEvent::AlreadySet(true) || (session.stage is SetFormat
                    && event is Done && next.format_changed)
                &&& next.stage is ReadFormat ==> event == HalEvent::Supported(true)
                &&& next.stage is SetRate ==> session.stage is ReadRate && event is Done
                &&& next.stage is CheckRate ==> session.stage is SetRate && event is Done
            }
            &&& next.kind == session.kind
            &&& next.exclusive == session.exclusive
            &&& next.me == session.me
        }),
{
}

/// A device is taken over only when nobody else holds it, a playback that finds
/// it held ends and says by whom, and a failed call ends the playback with its
/// own error and status, except that a device which cannot be taken over is
/// played on as it is.
#[verifier::rlimit(50)]
pub proof fn law_failures_are_reported(session: HalSession, status: i32, owner: i32)
    ensures
        session.stage is ReadHog && owner != -1 && owner != session.me ==> session.after(
            HalEvent::HogOwner(owner),
        ).stage == HalStage::Ended(Some(HalError::HogBusy(owner))),
        session.stage is ReadHog && owner == -1 && owner != session.me ==> session.after(
            HalEvent::HogOwner(owner),
        ).stage is TakeHog,
        session.stage is ReadHog && owner == session.me ==> session.after(HalEvent::HogOwner(owner)).took_hog,
        session.stage is TakeHog ==> session.after(HalEvent::Done).took_hog && session.after(
            HalEvent::Failed(status),
        ).took_hog == session.took_hog && !(session.after(HalEvent::Failed(status)).stage is Ended),
        session.stage is ReadRate || session.stage is SetRate || session.stage is CheckRate ==> session.after(
            HalEvent::Failed(status),
        ).stage == HalStage::Ended(Some(HalError::SampleRate(status))),
        session.stage is FindStream ==> session.after(HalEvent::Failed(status)).stage == HalStage::Ended(
            Some(HalError::EnumerateStreams(status)),
        ) && session.after(HalEvent::NoStream).stage == HalStage::Ended(Some(HalError::NoOutputStream)),
        session.stage is ProbeFormats ==> session.after(HalEvent::Failed(status)).stage == HalStage::Ended(
            Some(HalError::EnumeratePhysicalFormats(status)),
        ) && session.after(HalEvent::Supported(false)).stage == HalStage::Ended(
            Some(HalError::PhysicalFormatUnsupported),
        ),
        session.stage is ReadFormat ==> session.after(HalEvent::Failed(status)).stage == HalStage::Ended(
            Some(HalError::GetPhysicalFormat(status)),
        ),
        session.stage is SetFormat ==> session.after(HalEvent::Failed(status)).stage == HalStage::Ended(
            Some(HalError::SetPhysicalFormat(status)),
        ),
        session.stage is CreateProc ==> session.after(HalEvent::Failed(status)).stage == HalStage::Ended(
            Some(HalError::CreateIoProc(status)),
        ),
        session.stage is StartDevice ==> session.after(HalEvent::Failed(status)).stage == HalStage::Ended(
            Some(HalError::StartDevice(status)),
        ),
        session.stage is Prefill ==> session.after(HalEvent::Looked(Prefill::Abort)).stage == HalStage::Ended(
            None,
        ) && session.after(HalEvent::Looked(Prefill::Wait)) == session,
        session.stage is Playing ==> session.after(HalEvent::Over).stage == HalStage::Ended(None),
{
}

/// What was done last is undone first: the device stops before its callback
/// goes, the callback goes before the format is restored, and the device is
/// released at the very end.
pub proof fn law_teardown_order(session: HalSession, next_is_dsd: bool, i: int, j: int)
    requires
        session.wf(),
        0 <= i < j < session.undo(next_is_dsd).len(),
    ensures
        ({
            let undo = session.undo(next_is_dsd);
            &&& !(undo[j] is StopDevice)
            &&& undo[j] is DestroyProc ==> undo[i] is StopDevice
            &&& undo[j] is RestoreFormat ==> undo[i] is StopDevice || undo[i] is DestroyProc
            &&& !(undo[i] is ReleaseHog)
        }),
{
}

/// What goes well leads on, by what is played: an exclusive playback takes the
/// device over first; PCM then sets and checks the rate, DoP finds the stream,
/// sees whether its format is possible, sets it unless it is set, and lets the
/// device settle.
pub proof fn law_hal_goes_on(session: HalSession)
    ensures
        session.stage is Prefill && session.exclusive ==> session.after(HalEvent::Looked(Prefill::Ready)).stage
            is ReadHog,
        session.stage is Prefill && !session.exclusive ==> session.after(HalEvent::Looked(Prefill::Ready)).stage
            is CreateProc,
        session.stage is TakeHog && session.kind == HalKind::Pcm ==> session.after(HalEvent::Done).stage
            is ReadRate,
        session.stage is TakeHog && session.kind == HalKind::Dop ==> session.after(HalEvent::Done).stage
            is FindStream,
        session.stage is ReadHog && session.kind == HalKind::Pcm ==> session.after(
            HalEvent::HogOwner(session.me),
        ).stage is ReadRate,
        session.stage is ReadHog && session.kind == HalKind::Dop ==> session.after(
            HalEvent::HogOwner(session.me),
        ).stage is FindStream,
        session.stage is ReadRate ==> session.after(HalEvent::Done).stage is SetRate,
        session.stage is SetRate ==> session.after(HalEvent::Done).stage is CheckRate,
        session.stage is CheckRate ==> session.after(HalEvent::Done).stage is CreateProc,
        session.stage is FindStream ==> session.after(HalEvent::Done).stage is ProbeFormats,
        session.stage is ProbeFormats ==> session.after(HalEvent::Supported(true)).stage is ReadFormat,
        session.stage is ReadFormat ==> session.after(HalEvent::AlreadySet(true)).stage is Settle
            && session.after(HalEvent::AlreadySet(true)).format_changed == session.format_changed,
        session.stage is ReadFormat ==> session.after(HalEvent::AlreadySet(false)).stage is SetFormat,
        session.stage is SetFormat ==> session.after(HalEvent::Done).stage is Settle && session.after(
            HalEvent::Done,
        ).format_changed,
        session.stage is Settle ==> session.after(HalEvent::Done).stage is CreateProc,
        session.stage is CreateProc ==> session.after(HalEvent::Done).stage is StartDevice && session.after(
            HalEvent::Done,
        ).proc_created,
        session.stage is StartDevice ==> session.after(HalEvent::Done).stage is Playing && session.after(
            HalEvent::Done,
        ).running,
        SETTLE_MS == 200 && PRE_ROLL_MS == 500,
{
}

/// A playback remembers only what it did: the device counts as taken, its format as
/// changed, its callback as registered and the device as running only after the
/// call that did so succeeded.
pub proof fn law_only_what_was_done_is_undone(session: HalSession, event: HalEvent)
    ensures
        ({
            let next = session.after(event);
            &&& next.took_hog && !session.took_hog ==> (session.stage is TakeHog && event is Done) || (
            session.stage is ReadHog && event == HalEvent::HogOwner(session.me))
            &&& next.format_changed && !session.format_changed ==> session.stage is SetFormat && event is Done
            &&& next.proc_created && !session.proc_created ==> session.stage is CreateProc && event is Done
            &&& next.running && !session.running ==> session.stage is StartDevice && event is Done
        }),
{
}

} // verus!
