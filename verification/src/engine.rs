//! The audio engine: which command runs next, which path a track takes, and how
//! decoded samples get from a stream into the ring that the device drains.
use crate::dop;
use crate::dop::DopPacker;
use crate::dsf;
use crate::dsf::{DsfHeader, DsfReader};
use crate::ring;
use crate::text;
use vstd::prelude::*;

verus! {

/// Why a playback ended early.
#[derive(Debug, Clone)]
pub enum Error {
    Download(String),
    Io(String),
    Decode(String),
    Backend(String),
    Unsupported,
}

impl Error {
    /// The error in words.
    pub open spec fn words(&self) -> Seq<char> {
        match *self {
            Error::Download(why) => "download failed: "@ + why@,
            Error::Io(why) => "io: "@ + why@,
            Error::Decode(why) => "decode: "@ + why@,
            Error::Backend(why) => "audio backend: "@ + why@,
            Error::Unsupported => "audio playback is unsupported on this platform"@,
        }
    }

    /// The error in words.
    pub fn message(&self) -> (r: String)
        ensures
            r@ == self.words(),
    {
        match self {
            Error::Download(why) => text::joined("download failed: ", why.as_str()),
            Error::Io(why) => text::joined("io: ", why.as_str()),
            Error::Decode(why) => text::joined("decode: ", why.as_str()),
            Error::Backend(why) => text::joined("audio backend: ", why.as_str()),
            Error::Unsupported => "audio playback is unsupported on this platform".to_owned(),
        }
    }
}

// ------------------------------------------------------------ commands

/// What to play, and how.
#[derive(Debug, Clone)]
pub struct PlayRequest {
    pub url: String,
    /// A hint for the format probe, such as `flac`.
    pub container: Option<String>,
    /// `coreaudio/<UID>` or `alsa/hw:CARD,DEV`; the default output if absent.
    pub audio_device: Option<String>,
    /// Whether to take the device over so that nothing resamples.
    pub exclusive: bool,
}

/// A command to the playback worker.
#[derive(Debug, Clone)]
pub enum Cmd {
    Play(PlayRequest),
    Stop,
}

/// The commands that wait for the playback worker, oldest first.
pub struct AudioEngine {
    queue: Vec<Cmd>,
}

impl AudioEngine {
    /// The commands that wait, oldest first.
    pub closed spec fn pending(&self) -> Seq<Cmd> {
        self.queue@
    }

    /// An engine with nothing to do.
    pub fn new() -> (r: Self)
        ensures
            r.pending() == Seq::<Cmd>::empty(),
    {
        AudioEngine { queue: Vec::new() }
    }

    /// Asks for the current playback to be replaced by another.
    pub fn play_track(
        &mut self,
        url: String,
        container: Option<String>,
        audio_device: Option<String>,
        exclusive: bool,
    )
        ensures
            final(self).pending() == old(self).pending().push(
                Cmd::Play(PlayRequest { url, container, audio_device, exclusive }),
            ),
    {
        self.queue.push(Cmd::Play(PlayRequest { url, container, audio_device, exclusive }));
    }

    /// Asks for the current playback to end.
    pub fn stop(&mut self)
        ensures
            final(self).pending() == old(self).pending().push(Cmd::Stop),
    {
        self.queue.push(Cmd::Stop);
    }

    /// Takes the oldest command out.
    pub fn next_command(&mut self) -> (r: Option<Cmd>)
        ensures
            old(self).pending().len() == 0 ==> r is None && final(self).pending() == old(self).pending(),
            old(self).pending().len() > 0 ==> r == Some(old(self).pending()[0]) && final(self).pending()
                == old(self).pending().skip(1),
    {
        if self.queue.len() == 0 {
            None
        } else {
            let c = self.queue.remove(0);
            assert(self.queue@ =~= old(self).queue@.skip(1));
            Some(c)
        }
    }
}

impl Default for AudioEngine {
    fn default() -> (r: Self)
        ensures
            r.pending() == Seq::<Cmd>::empty(),
    {
        AudioEngine::new()
    }
}

/// What the worker does about one command, in this order: tell the running
/// playback to stop, wait until it is gone, start the next one.
#[derive(Debug, Clone)]
pub struct WorkerPlan {
    pub cancel: bool,
    pub join: bool,
    pub start: Option<PlayRequest>,
}

/// The worker that runs at most one playback at a time.
pub struct Worker {
    playing: bool,
}

impl Worker {
    /// Whether a playback has been started and not yet waited for.
    pub closed spec fn is_playing(&self) -> bool {
        self.playing
    }

    /// A worker with nothing running.
    pub fn new() -> (r: Self)
        ensures
            !r.is_playing(),
    {
        Worker { playing: false }
    }

    /// Decides what to do about a command. A running playback is always
    /// cancelled and waited for first, so the device is free when the next
    /// playback opens it.
    pub fn on_command(&mut self, cmd: Cmd) -> (r: WorkerPlan)
        ensures
            r.cancel == old(self).is_playing(),
            r.join == old(self).is_playing(),
            r.start == (match cmd {
                Cmd::Play(req) => Some(req),
                Cmd::Stop => None,
            }),
            final(self).is_playing() == (cmd is Play),
    {
        let was: bool = self.playing;
        match cmd {
            Cmd::Play(req) => {
                self.playing = true;
                WorkerPlan { cancel: was, join: was, start: Some(req) }
            },
            Cmd::Stop => {
                self.playing = false;
                WorkerPlan { cancel: was, join: was, start: None }
            },
        }
    }
}

/// How many playbacks run after a worker with `running` of them has carried
/// out a plan.
pub open spec fn running_after(running: int, plan: WorkerPlan) -> int {
    (if plan.join {
        running - 1
    } else {
        running
    }) + (if plan.start is Some {
        1int
    } else {
        0
    })
}

/// Whatever commands come in, at most one playback runs: if the worker's own
/// record is right before a command, it is right after it.
pub proof fn law_one_playback_at_a_time(playing: bool, cmd: Cmd, plan: WorkerPlan, after: bool)
    requires
        plan.cancel == playing,
        plan.join == playing,
        plan.start == (match cmd {
            Cmd::Play(req) => Some(req),
            Cmd::Stop => None,
        }),
        after == (cmd is Play),
    ensures
        running_after(
            if playing {
                1
            } else {
                0
            },
            plan,
        ) == (if after {
            1int
        } else {
            0
        }),
        plan.start is Some && playing ==> plan.cancel && plan.join,
{
}

/// Commands are taken in the order in which they were given: a command comes out
/// after exactly those that were waiting when it was given.
pub proof fn law_first_in_first_out(pending: Seq<Cmd>, cmd: Cmd, later: Seq<Cmd>)
    ensures
        (pending.push(cmd) + later).skip(pending.len() as int)[0] == cmd,
        (pending.push(cmd) + later).take(pending.len() as int) == pending,
        (pending.push(cmd) + later).skip(pending.len() as int + 1) == later,
{
    assert((pending.push(cmd) + later).take(pending.len() as int) =~= pending);
    assert((pending.push(cmd) + later).skip(pending.len() as int + 1) =~= later);
}

// ------------------------------------------------------------ choosing a path

/// The systems that playback knows about.
#[derive(Debug, Clone, Copy, PartialEq, Eq, Structural)]
pub enum Platform {
    MacOs,
    Linux,
    Other,
}

/// How a track is played.
#[derive(Debug, Clone)]
pub enum Route {
    /// Decode to PCM.
    Pcm,
    /// Unpack a DSF stream and send it as DoP.
    Dop,
    /// Not at all.
    Fail(Error),
}

/// Whether a container, in lower case, holds DSD audio.
pub open spec fn is_dsd_container(ext: Seq<char>) -> bool {
    ext == "dsf"@ || ext == "dff"@
}

/// The container hint in lower case; empty if there is none.
pub open spec fn container_ext(container: Option<String>) -> Seq<char> {
    match container {
        Some(c) => text::lowered(c@),
        None => Seq::empty(),
    }
}

/// Whether `route` is right for a container on a platform.
pub open spec fn is_route(ext: Seq<char>, platform: Platform, route: Route) -> bool {
    if is_dsd_container(ext) {
        if platform != Platform::MacOs {
            route matches Route::Fail(Error::Backend(why)) && why@
                == "DSD playback not yet implemented on this platform"@
        } else if ext != "dsf"@ {
            route matches Route::Fail(Error::Backend(why)) && why@ == "unsupported DSD container: "@ + ext
        } else {
            route is Dop
        }
    } else if platform == Platform::Other {
        route matches Route::Fail(e) && e is Unsupported
    } else {
        route is Pcm
    }
}

/// Chooses how to play a track with the given container hint.
pub fn play_blocking(container: &Option<String>, platform: Platform) -> (r: Route)
    ensures
        is_route(container_ext(*container), platform, r),
{
    let ext = match container {
        Some(c) => text::lower_ascii(c.as_str()),
        None => String::new(),
    };
    let dsf: bool = text::same_text(ext.as_str(), "dsf");
    if dsf || text::same_text(ext.as_str(), "dff") {
        play_dsd_blocking(ext, platform)
    } else {
        play_pcm_blocking(platform)
    }
}

/// Whether PCM can be played.
fn play_pcm_blocking(platform: Platform) -> (r: Route)
    ensures
        platform == Platform::Other ==> r == Route::Fail(Error::Unsupported),
        platform != Platform::Other ==> r == Route::Pcm,
{
    match platform {
        Platform::Other => Route::Fail(Error::Unsupported),
        _ => Route::Pcm,
    }
}

/// Whether a DSD container can be played.
fn play_dsd_blocking(ext: String, platform: Platform) -> (r: Route)
    requires
        is_dsd_container(ext@),
    ensures
        is_route(ext@, platform, r),
{
    match platform {
        Platform::MacOs => {
            if !text::same_text(ext.as_str(), "dsf") {
                return Route::Fail(
                    Error::Backend(text::joined("unsupported DSD container: ", ext.as_str())),
                );
            }
            Route::Dop
        },
        _ => Route::Fail(Error::Backend("DSD playback not yet implemented on this platform".to_owned())),
    }
}

// ------------------------------------------------------------ DSF to DoP

/// Two bytes per channel, older byte first, channel by channel.
pub open spec fn interleaved(older: Seq<u8>, newer: Seq<u8>) -> Seq<u8> {
    Seq::new(
        2 * older.len(),
        |i: int|
            if i % 2 == 0 {
                older[i / 2]
            } else {
                newer[i / 2]
            },
    )
}

/// Whether byte `k` of every channel is at hand and belongs to the stream.
pub open spec fn has_byte(header: DsfHeader, payload: Seq<u8>, k: int) -> bool {
    k < header.total_bytes() && dsf::reaches(header, payload, k)
}

/// Frame `n` of the DoP stream that a DSF stream turns into: bytes `2n` and
/// `2n + 1` of every channel under the marker that is due.
pub open spec fn dop_frame(header: DsfHeader, lsb_first: bool, payload: Seq<u8>, n: nat) -> Seq<u32> {
    dop::packed_frame(
        dop::marker_at(dop::DOP_MARKER_A, n),
        header.channels as nat,
        interleaved(
            dsf::byte_per_channel(header, lsb_first, payload, 2 * n as int),
            dsf::byte_per_channel(header, lsb_first, payload, 2 * n as int + 1),
        ),
    )
}

/// Every sample of frame `n` of a DoP stream carries the marker that is due,
/// which differs from that of the next frame, and below it the two DSD bytes of
/// its channel, older byte first.
pub proof fn law_dop_stream(header: DsfHeader, lsb_first: bool, payload: Seq<u8>, n: nat, ch: int)
    requires
        0 <= ch < header.channels,
    ensures
        ({
            let sample = dop_frame(header, lsb_first, payload, n)[ch];
            let marker = dop::marker_at(dop::DOP_MARKER_A, n);
            let older = dsf::channel_byte(header, lsb_first, payload, 2 * n as int, ch);
            let newer = dsf::channel_byte(header, lsb_first, payload, 2 * n as int + 1, ch);
            &&& sample >> 24 == 0
            &&& (sample >> 16) & 0xFF == marker
            &&& (sample >> 8) & 0xFF == older
            &&& sample & 0xFF == newer
            &&& marker == dop::DOP_MARKER_A || marker == dop::DOP_MARKER_B
            &&& marker != dop::marker_at(dop::DOP_MARKER_A, n + 1)
        }),
{
    let marker = dop::marker_at(dop::DOP_MARKER_A, n);
    let older = dsf::channel_byte(header, lsb_first, payload, 2 * n as int, ch);
    let newer = dsf::channel_byte(header, lsb_first, payload, 2 * n as int + 1, ch);
    let pair = interleaved(
        dsf::byte_per_channel(header, lsb_first, payload, 2 * n as int),
        dsf::byte_per_channel(header, lsb_first, payload, 2 * n as int + 1),
    );
    assert(pair[2 * ch] == older) by {
        assert((2 * ch) % 2 == 0 && (2 * ch) / 2 == ch);
    }
    assert(pair[2 * ch + 1] == newer) by {
        assert((2 * ch + 1) % 2 == 1 && (2 * ch + 1) / 2 == ch);
    }
    dop::law_packed_fields(marker, older, newer);
    dop::law_marker_alternates(dop::DOP_MARKER_A, n);
}

/// What one step of the pump came to.
#[derive(Debug)]
pub enum PumpStep {
    /// The stream has to be fed, or declared to be over, first.
    NeedInput,
    /// There are no two further bytes per channel.
    End,
    /// The next DoP frame, one sample per channel.
    Frame(Vec<u32>),
}

/// Turns a DSF stream into DoP frames.
pub struct DsdPump {
    reader: DsfReader,
    packer: DopPacker,
    /// The older byte of each channel of the next frame.
    older: Vec<u8>,
    has_older: bool,
    frames: Ghost<nat>,
}

impl DsdPump {
    pub closed spec fn head(&self) -> DsfHeader {
        self.reader.head()
    }

    pub closed spec fn is_lsb_first(&self) -> bool {
        self.reader.is_lsb_first()
    }

    /// All audio data that has come in.
    pub closed spec fn audio(&self) -> Seq<u8> {
        self.reader.audio()
    }

    /// How many frames have been handed out.
    pub closed spec fn frames_done(&self) -> nat {
        self.frames@
    }

    pub closed spec fn wf(&self) -> bool {
        let n = self.frames@;
        &&& self.reader.wf()
        &&& self.reader.head().wf()
        &&& self.packer.channel_count() == self.reader.head().channels
        &&& self.packer.marker() == dop::marker_at(dop::DOP_MARKER_A, n)
        &&& self.older@.len() == self.reader.head().channels
        &&& self.reader.yielded() == 2 * n + if self.has_older {
            1int
        } else {
            0
        }
        &&& self.has_older ==> has_byte(self.head(), self.audio(), 2 * n as int) && self.older@
            == dsf::byte_per_channel(self.head(), self.is_lsb_first(), self.audio(), 2 * n as int)
    }

    /// A pump at the start of a stream.
    pub fn new(reader: DsfReader) -> (r: Self)
        requires
            reader.wf(),
            reader.yielded() == 0,
        ensures
            r.wf(),
            r.head() == reader.head(),
            r.is_lsb_first() == reader.is_lsb_first(),
            r.audio() == reader.audio(),
            r.frames_done() == 0,
    {
        proof {
            dsf::law_reader_header_is_valid(reader);
        }
        let n: usize = reader.header().channels as usize;
        let older = zeros(n);
        DsdPump { reader, packer: DopPacker::new(n), older, has_older: false, frames: Ghost(0nat) }
    }

    /// Takes more of the stream in.
    pub fn feed(&mut self, bytes: &[u8])
        requires
            old(self).wf(),
        ensures
            final(self).wf(),
            final(self).head() == old(self).head(),
            final(self).is_lsb_first() == old(self).is_lsb_first(),
            final(self).audio() == old(self).audio() + bytes@,
            final(self).frames_done() == old(self).frames_done(),
    {
        proof {
            if self.has_older {
                dsf::law_feeding_keeps_bytes(
                    self.head(),
                    self.is_lsb_first(),
                    self.audio(),
                    bytes@,
                    2 * self.frames@ as int,
                );
            }
        }
        self.reader.feed(bytes);
    }
}

impl DsdPump {
    /// Makes the next frame. `ended` says that no more of the stream will come.
    pub fn step(&mut self, ended: bool) -> (r: PumpStep)
        requires
            old(self).wf(),
        ensures
            final(self).wf(),
            final(self).head() == old(self).head(),
            final(self).is_lsb_first() == old(self).is_lsb_first(),
            final(self).audio() == old(self).audio(),
            ({
                let header = old(self).head();
                let n = old(self).frames_done();
                let first = has_byte(header, old(self).audio(), 2 * n as int);
                let second = has_byte(header, old(self).audio(), 2 * n as int + 1);
                let missing = if first {
                    2 * n as int + 1
                } else {
                    2 * n as int
                };
                if first && second {
                    &&& r matches PumpStep::Frame(v)
                    &&& v@ == dop_frame(header, old(self).is_lsb_first(), old(self).audio(), n)
                    &&& final(self).frames_done() == n + 1
                } else {
                    &&& final(self).frames_done() == n
                    &&& if missing < header.total_bytes() && !ended {
                        r is NeedInput
                    } else {
                        r is End
                    }
                }
            }),
    {
        let n: usize = self.reader.header().channels as usize;
        if !self.has_older {
            if self.reader.wants_input() && !ended {
                return PumpStep::NeedInput;
            }
            let mut first = zeros(n);
            match self.reader.next_byte_per_channel(first.as_mut_slice()) {
                Ok(true) => {
                    self.older = first;
                    self.has_older = true;
                },
                _ => {
                    return PumpStep::End;
                },
            }
        }
        if self.reader.wants_input() && !ended {
            return PumpStep::NeedInput;
        }
        let mut newer = zeros(n);
        match self.reader.next_byte_per_channel(newer.as_mut_slice()) {
            Ok(true) => {},
            _ => {
                return PumpStep::End;
            },
        }
        let pair = interleave(&self.older, &newer);
        let mut out: Vec<u32> = Vec::new();
        let mut i: usize = 0;
        while i < n
            invariant
                i <= n,
                out@.len() == i,
            decreases n - i,
        {
            out.push(0);
            i = i + 1;
        }
        self.packer.pack_frame(pair.as_slice(), out.as_mut_slice());
        self.has_older = false;
        proof {
            self.frames@ = self.frames@ + 1;
        }
        PumpStep::Frame(out)
    }
}

/// Two bytes per channel, older byte first, channel by channel.
fn interleave(older: &Vec<u8>, newer: &Vec<u8>) -> (r: Vec<u8>)
    requires
        older@.len() == newer@.len(),
    ensures
        r@ == interleaved(older@, newer@),
{
    let mut out: Vec<u8> = Vec::new();
    let mut i: usize = 0;
    while i < older.len()
        invariant
            i <= older@.len(),
            older@.len() == newer@.len(),
            out@ == interleaved(older@, newer@).take(2 * i),
        decreases older@.len() - i,
    {
        out.push(older[i]);
        out.push(newer[i]);
        proof {
            let whole = interleaved(older@, newer@);
            assert(whole[2 * i] == older@[i as int] && whole[2 * i + 1] == newer@[i as int]) by {
                assert((2 * i) % 2 == 0 && (2 * i) / 2 == i && (2 * i + 1) % 2 == 1 && (2 * i + 1) / 2 == i);
            }
            assert(whole.take(2 * (i + 1)) =~= whole.take(2 * i).push(whole[2 * i]).push(whole[2 * i + 1]));
        }
        i = i + 1;
    }
    assert(interleaved(older@, newer@).take(2 * older@.len() as int) =~= interleaved(older@, newer@));
    out
}

/// A list of `n` zero bytes.
fn zeros(n: usize) -> (r: Vec<u8>)
    ensures
        r@.len() == n,
{
    let mut out: Vec<u8> = Vec::new();
    let mut i: usize = 0;
    while i < n
        invariant
            i <= n,
            out@.len() == i,
        decreases n - i,
    {
        out.push(0);
        i = i + 1;
    }
    out
}

// ------------------------------------------------------------ opening a stream

/// What a format probe found out about a stream's default track.
#[derive(Debug, Clone, Copy)]
pub struct ProbedTrack {
    pub id: u32,
    pub sample_rate: Option<u32>,
    pub channels: Option<u32>,
}

/// A PCM stream that is ready to be decoded, and its ring.
pub struct PcmStream {
    pub track_id: u32,
    pub sample_rate: u32,
    pub channels: u32,
    pub producer: rtrb::Producer<u32>,
    pub consumer: rtrb::Consumer<u32>,
}

/// The samples in two seconds of audio.
pub open spec fn two_seconds(rate: u32, channels: u32) -> int {
    rate * channels * 2
}

/// What keeps a probed stream from being played, if anything.
pub open spec fn probe_error(track: Option<ProbedTrack>) -> Option<Seq<char>> {
    match track {
        None => Some("no default track"@),
        Some(t) => if t.sample_rate is None {
            Some("missing sample rate"@)
        } else if t.channels is None {
            Some("missing channels"@)
        } else {
            None
        },
    }
}

/// Takes the rate and the channels of the default track and sets up a ring of
/// two seconds between the decoder and the device.
pub fn prepare_pcm(track: Option<ProbedTrack>) -> (r: Result<PcmStream, Error>)
    requires
        probe_error(track) is None ==> ring::fits_in_memory(
            two_seconds(track->0.sample_rate->0, track->0.channels->0),
        ),
    ensures
        match probe_error(track) {
            Some(why) => r matches Err(Error::Decode(w)) && w@ == why,
            None => r matches Ok(s) && {
                &&& s.track_id == track->0.id
                &&& s.sample_rate == track->0.sample_rate->0
                &&& s.channels == track->0.channels->0
                &&& ring::sent(s.producer) == Seq::<u32>::empty()
                &&& ring::room(s.producer) == two_seconds(s.sample_rate, s.channels)
                &&& ring::taken(s.consumer) == Seq::<u32>::empty()
                &&& ring::at_hand(s.consumer) == Seq::<u32>::empty()
            },
        },
{
    let t = match track {
        Some(t) => t,
        None => {
            return Err(Error::Decode("no default track".to_owned()));
        },
    };
    let sample_rate: u32 = match t.sample_rate {
        Some(rate) => rate,
        None => {
            return Err(Error::Decode("missing sample rate".to_owned()));
        },
    };
    let channels: u32 = match t.channels {
        Some(n) => n,
        None => {
            return Err(Error::Decode("missing channels".to_owned()));
        },
    };
    let capacity: usize = ring_capacity(sample_rate, channels);
    let (producer, consumer) = ring::new_ring(capacity);
    Ok(PcmStream { track_id: t.id, sample_rate, channels, producer, consumer })
}

/// The room that two seconds of audio take.
pub fn ring_capacity(rate: u32, channels: u32) -> (r: usize)
    requires
        ring::fits_in_memory(two_seconds(rate, channels)),
    ensures
        r == two_seconds(rate, channels),
{
    assert(0 <= rate * channels <= rate * channels * 2) by (nonlinear_arith)
        requires
            rate >= 0,
            channels >= 0,
    ;
    (rate as usize) * (channels as usize) * 2
}

/// A DSF stream that is ready to be packed, and its ring.
pub struct DopStream {
    pub pump: DsdPump,
    pub pcm_rate: u32,
    pub channels: u32,
    pub producer: rtrb::Producer<u32>,
    pub consumer: rtrb::Consumer<u32>,
}

/// Reads the headers of a DSF stream that starts with `bytes` and sets up a
/// ring of two seconds between the packer and the device.
pub fn prepare_dop(bytes: &[u8]) -> (r: Result<DopStream, Error>)
    ensures
        match dsf::header_error(bytes@) {
            Some(e) => r matches Err(Error::Decode(w)) && w@ == "dsf header: "@ + e.words(),
            None => r matches Ok(s) && {
                let header = dsf::declared_header(bytes@);
                &&& s.pump.wf()
                &&& s.pump.head() == header
                &&& s.pump.is_lsb_first() == dsf::declared_lsb_first(bytes@)
                &&& s.pump.audio() == bytes@.skip(dsf::PAYLOAD_OFFSET as int)
                &&& s.pump.frames_done() == 0
                &&& s.pcm_rate == header.sampling_frequency / 16
                &&& s.channels == header.channels
                &&& ring::sent(s.producer) == Seq::<u32>::empty()
                &&& ring::room(s.producer) == two_seconds(s.pcm_rate, s.channels)
                &&& ring::taken(s.consumer) == Seq::<u32>::empty()
                &&& ring::at_hand(s.consumer) == Seq::<u32>::empty()
            },
        },
{
    let reader = match DsfReader::new(bytes) {
        Ok(reader) => reader,
        Err(e) => {
            return Err(Error::Decode(text::joined("dsf header: ", e.message().as_str())));
        },
    };
    proof {
        dsf::law_reader_header_is_valid(reader);
    }
    let dsd_rate: u32 = reader.header().sampling_frequency;
    let channels: u32 = reader.header().channels;
    let pcm_rate: u32 = DopPacker::pcm_sample_rate(dsd_rate);
    assert(two_seconds(pcm_rate, channels) <= 1_411_200 * 6 * 2) by (nonlinear_arith)
        requires
            pcm_rate <= 1_411_200,
            channels <= 6,
            two_seconds(pcm_rate, channels) == pcm_rate * channels * 2,
    ;
    let capacity: usize = ring_capacity(pcm_rate, channels);
    let (producer, consumer) = ring::new_ring(capacity);
    Ok(DopStream { pump: DsdPump::new(reader), pcm_rate, channels, producer, consumer })
}

// ------------------------------------------------------------ filling the ring

/// What one attempt to write samples came to.
#[derive(Debug, Clone, Copy, PartialEq, Eq, Structural)]
pub enum PushStep {
    /// Everything has been written.
    Done,
    /// The playback was cancelled.
    Cancelled,
    /// Some samples were written and some are left.
    Again,
    /// There was no room: wait a moment.
    Wait,
}

/// Says what an attempt came to, given how many samples were left to write and
/// how many of them were written.
pub fn push_step(cancelled: bool, left: usize, written: usize) -> (r: PushStep)
    ensures
        r == (if left == 0 {
            PushStep::Done
        } else if cancelled {
            PushStep::Cancelled
        } else if written == 0 {
            PushStep::Wait
        } else if written == left {
            PushStep::Done
        } else {
            PushStep::Again
        }),
{
    if left == 0 {
        PushStep::Done
    } else if cancelled {
        PushStep::Cancelled
    } else if written == 0 {
        PushStep::Wait
    } else if written == left {
        PushStep::Done
    } else {
        PushStep::Again
    }
}

/// Whether an attempt wrote `samples[from..to]`.
pub open spec fn pushed(
    before: rtrb::Producer<u32>,
    after: rtrb::Producer<u32>,
    samples: Seq<u32>,
    from: int,
    to: int,
) -> bool {
    &&& from <= to <= samples.len()
    &&& ring::sent(after) == ring::sent(before) + samples.subrange(from, to)
}

/// Writes as many of `samples[*done..]` as there is room for, and counts them
/// in `done`. Nothing is written once the playback is cancelled.
pub fn push_all(
    producer: &mut rtrb::Producer<u32>,
    samples: &Vec<u32>,
    done: &mut usize,
    cancelled: bool,
) -> (r: PushStep)
    requires
        *old(done) <= samples@.len(),
    ensures
        *old(done) <= *final(done) <= samples@.len(),
        pushed(*old(producer), *final(producer), samples@, *old(done) as int, *final(done) as int),
        cancelled ==> *final(producer) == *old(producer),
        !cancelled && *final(done) < samples@.len() ==> ring::room(*final(producer)) == 0,
        ring::room(*old(producer)) <= *final(done) - *old(done) + ring::room(*final(producer)),
        *old(done) == samples@.len() ==> r == PushStep::Done,
        *old(done) < samples@.len() && cancelled ==> r == PushStep::Cancelled && *final(done) == *old(done),
        *old(done) < samples@.len() && !cancelled ==> r == (if *final(done) == *old(done) {
            PushStep::Wait
        } else if *final(done) == samples@.len() {
            PushStep::Done
        } else {
            PushStep::Again
        }),
{
    let from: usize = *done;
    if from == samples.len() {
        assert(samples@.subrange(from as int, from as int) =~= Seq::empty());
        return push_step(cancelled, 0, 0);
    }
    if cancelled {
        assert(samples@.subrange(from as int, from as int) =~= Seq::empty());
        return push_step(cancelled, samples.len() - from, 0);
    }
    let rest = vstd::slice::slice_subrange(samples.as_slice(), from, samples.len());
    let n: usize = ring::push_some(producer, rest);
    assert(rest@.take(n as int) =~= samples@.subrange(from as int, from + n));
    *done = from + n;
    push_step(cancelled, samples.len() - from, n)
}

// ------------------------------------------------------------ draining the ring

/// The samples that should wait in the ring before a device is started: a
/// fifth of a second.
pub open spec fn prefill_goal(rate: u32, channels: u32) -> int {
    (rate * channels) / 5
}

/// The samples that should wait in the ring before a device is started.
pub fn prefill_target(rate: u32, channels: u32) -> (r: usize)
    requires
        rate * channels <= usize::MAX,
    ensures
        r == prefill_goal(rate, channels),
{
    (rate as usize) * (channels as usize) / 5
}

/// How the wait for the first samples goes on.
#[derive(Debug, Clone, Copy, PartialEq, Eq, Structural)]
pub enum Prefill {
    /// The playback was cancelled before it began.
    Abort,
    /// Start the device.
    Ready,
    /// Wait a moment and look again.
    Wait,
}

/// The longest wait for the first samples, in milliseconds.
pub const PREFILL_LIMIT_MS: u64 = 5000;

/// Decides whether to start the device, given how many samples wait and how
/// long the wait has been.
pub fn prefill_step(
    cancelled: bool,
    ended: bool,
    buffered: usize,
    target: usize,
    waited_ms: u64,
) -> (r: Prefill)
    ensures
        r == (if cancelled {
            Prefill::Abort
        } else if ended || buffered >= target || waited_ms > PREFILL_LIMIT_MS {
            Prefill::Ready
        } else {
            Prefill::Wait
        }),
{
    if cancelled {
        Prefill::Abort
    } else if ended || buffered >= target || waited_ms > PREFILL_LIMIT_MS {
        Prefill::Ready
    } else {
        Prefill::Wait
    }
}

/// The same decision for a ring: looks how many samples wait in it, and takes
/// none.
pub fn prefill(
    consumer: &mut rtrb::Consumer<u32>,
    cancelled: bool,
    ended: bool,
    target: usize,
    waited_ms: u64,
) -> (r: Prefill)
    ensures
        r == (if cancelled {
            Prefill::Abort
        } else if ended || ring::at_hand(*final(consumer)).len() >= target || waited_ms > PREFILL_LIMIT_MS {
            Prefill::Ready
        } else {
            Prefill::Wait
        }),
        ring::at_hand(*old(consumer)).is_prefix_of(ring::at_hand(*final(consumer))),
        ring::taken(*final(consumer)) == ring::taken(*old(consumer)),
{
    prefill_step(cancelled, ended, ring::waiting(consumer), target, waited_ms)
}

/// How the device's write loop goes on.
#[derive(Debug, Clone, Copy, PartialEq, Eq, Structural)]
pub enum Drain {
    /// The playback is over.
    Stop,
    /// Nothing to write yet: wait a moment.
    Wait,
    /// Write this many samples.
    Take(usize),
}

/// Decides what the write loop does, given how many samples wait.
pub fn drain_step(cancelled: bool, ended: bool, buffered: usize, chunk: usize) -> (r: Drain)
    ensures
        r == (if cancelled || (buffered == 0 && ended) {
            Drain::Stop
        } else if buffered == 0 {
            Drain::Wait
        } else if buffered < chunk {
            Drain::Take(buffered)
        } else {
            Drain::Take(chunk)
        }),
{
    if cancelled {
        Drain::Stop
    } else if buffered == 0 {
        if ended {
            Drain::Stop
        } else {
            Drain::Wait
        }
    } else if buffered < chunk {
        Drain::Take(buffered)
    } else {
        Drain::Take(chunk)
    }
}

/// How the samples in a ring are laid out for a device.
#[derive(Debug, Clone, Copy, PartialEq, Eq, Structural)]
pub enum Layout {
    /// As they are: PCM bit patterns, or 32 DSD bits per word.
    Plain,
    /// DoP samples, moved to the top of their 32-bit container.
    DopHigh,
}

/// The samples as the device gets them.
pub open spec fn laid_out(layout: Layout, samples: Seq<u32>) -> Seq<u32> {
    match layout {
        Layout::Plain => samples,
        Layout::DopHigh => samples.map_values(|s: u32| dop::high_aligned(s)),
    }
}

/// Lays samples out for a device.
pub fn lay_out(layout: Layout, samples: Vec<u32>) -> (r: Vec<u32>)
    ensures
        r@ == laid_out(layout, samples@),
        layout == Layout::Plain ==> r@ == samples@,
{
    match layout {
        Layout::Plain => samples,
        Layout::DopHigh => {
            let mut out: Vec<u32> = Vec::new();
            let mut i: usize = 0;
            while i < samples.len()
                invariant
                    i <= samples@.len(),
                    out@ == laid_out(Layout::DopHigh, samples@).take(i as int),
                decreases samples@.len() - i,
            {
                out.push(dop::align_high(samples[i]));
                assert(laid_out(Layout::DopHigh, samples@).take(i + 1) =~= laid_out(
                    Layout::DopHigh,
                    samples@,
                ).take(i as int).push(dop::high_aligned(samples@[i as int])));
                i = i + 1;
            }
            assert(laid_out(Layout::DopHigh, samples@).take(samples@.len() as int) =~= laid_out(
                Layout::DopHigh,
                samples@,
            ));
            out
        },
    }
}

/// What one turn of the device's write loop came to.
#[derive(Debug)]
pub enum WriteTurn {
    /// The playback is over.
    Stop,
    /// Nothing to write yet: wait a moment.
    Wait,
    /// Write these samples.
    Write(Vec<u32>),
}

/// Whether a turn of the device's write loop came to `r`. It stops when the
/// playback is cancelled, or when the stream is over and no sample waits; it
/// waits when none does and more may come; otherwise it writes exactly what it
/// takes out of the ring: `chunk` samples, or all that wait.
pub open spec fn turned(
    before: rtrb::Consumer<u32>,
    after: rtrb::Consumer<u32>,
    layout: Layout,
    chunk: usize,
    cancelled: bool,
    ended: bool,
    r: WriteTurn,
) -> bool {
    let left = ring::at_hand(after).len();
    match r {
        WriteTurn::Stop => {
            &&& cancelled || (ended && left == 0)
            &&& ring::none_lost(before, Seq::empty(), after)
            &&& ring::taken(after) == ring::taken(before)
        },
        WriteTurn::Wait => {
            &&& !cancelled && !ended && left == 0
            &&& ring::none_lost(before, Seq::empty(), after)
            &&& ring::taken(after) == ring::taken(before)
        },
        WriteTurn::Write(v) => {
            &&& !cancelled
            &&& exists|raw: Seq<u32>|
                #![trigger laid_out(layout, raw)]
                {
                    &&& v@ == laid_out(layout, raw)
                    &&& raw.len() <= chunk
                    &&& raw.len() < chunk ==> left == 0
                    &&& raw.len() + left > 0
                    &&& ring::none_lost(before, raw, after)
                    &&& ring::taken(after) == ring::taken(before) + raw
                }
        },
    }
}

/// One turn of the device's write loop: takes at most `chunk` samples out of
/// the ring and lays them out. No sample is lost or written twice.
pub fn write_turn(
    consumer: &mut rtrb::Consumer<u32>,
    layout: Layout,
    chunk: usize,
    cancelled: bool,
    ended: bool,
) -> (r: WriteTurn)
    ensures
        turned(*old(consumer), *final(consumer), layout, chunk, cancelled, ended, r),
        r matches WriteTurn::Write(v) ==> (layout == Layout::Plain ==> ring::taken(*final(consumer))
            == ring::taken(*old(consumer)) + v@),
        cancelled ==> r is Stop,
        !cancelled && ring::at_hand(*old(consumer)).len() > 0 ==> r is Write,
        !cancelled && r is Stop ==> ended && ring::at_hand(*final(consumer)).len() == 0,
        !cancelled && r is Wait ==> !ended && ring::at_hand(*final(consumer)).len() == 0,
        r matches WriteTurn::Write(v) ==> (v@.len() < chunk ==> ring::at_hand(*final(consumer)).len()
            == 0),
{
    let found: usize = ring::waiting(consumer);
    let ghost all = ring::at_hand(*consumer);
    assert(Seq::<u32>::empty() + all =~= all);
    match drain_step(cancelled, ended, found, chunk) {
        Drain::Stop => WriteTurn::Stop,
        Drain::Wait => WriteTurn::Wait,
        Drain::Take(n) => match ring::take_chunk(consumer, n) {
            // Never comes: what the look found is still there.
            None => WriteTurn::Wait,
            Some(samples) => {
                let ghost raw = samples@;
                let out = lay_out(layout, samples);
                assert(out@ == laid_out(layout, raw));
                assert(raw + all.skip(n as int) =~= all);
                WriteTurn::Write(out)
            },
        },
    }
}

/// Laying out two runs of samples one after the other is laying out the whole.
proof fn lemma_layout_of_sum(layout: Layout, a: Seq<u32>, b: Seq<u32>)
    ensures
        laid_out(layout, a + b) == laid_out(layout, a) + laid_out(layout, b),
{
    assert(laid_out(layout, a + b) =~= laid_out(layout, a) + laid_out(layout, b));
}

/// What is the start of `b + c` is the start of `b + d` where `c` is the start
/// of `d`.
proof fn lemma_longer_end(a: Seq<u32>, b: Seq<u32>, c: Seq<u32>, d: Seq<u32>)
    requires
        a.is_prefix_of(b + c),
        c.is_prefix_of(d),
    ensures
        a.is_prefix_of(b + d),
{
    assert forall|i: int| 0 <= i < a.len() implies a[i] == #[trigger] (b + d)[i] by {
        assert(a[i] == (b + c).subrange(0, a.len() as int)[i]);
        if i >= b.len() {
            assert(c[i - b.len()] == d.subrange(0, c.len() as int)[i - b.len()]);
        }
    }
    assert(a =~= (b + d).subrange(0, a.len() as int));
}

/// All that a run of turns writes to the device.
pub open spec fn written(turns: Seq<WriteTurn>) -> Seq<u32>
    decreases turns.len(),
{
    if turns.len() == 0 {
        Seq::empty()
    } else {
        written(turns.drop_last()) + match turns.last() {
            WriteTurn::Write(v) => v@,
            _ => Seq::empty(),
        }
    }
}

/// Whether turns that were never cancelled followed one another on a ring:
/// `ends` is its consumer before the first and after each of them, and `ended`
/// says for each whether the stream was over.
pub open spec fn is_run(
    layout: Layout,
    chunk: usize,
    ends: Seq<rtrb::Consumer<u32>>,
    ended: Seq<bool>,
    turns: Seq<WriteTurn>,
) -> bool {
    &&& ends.len() == turns.len() + 1
    &&& ended.len() == turns.len()
    &&& forall|i: int|
        0 <= i < turns.len() ==> turned(
            ends[i],
            ends[i + 1],
            layout,
            chunk,
            false,
            ended[i],
            #[trigger] turns[i],
        )
}

/// The device gets exactly the samples that leave the ring, in order, none
/// dropped and none added. Those that waited at the start are the first of them
/// or wait still, and the loop stops only when the stream is over and none waits:
/// then the device has got them all.
#[verifier::rlimit(50)]
pub proof fn law_what_is_taken_is_written(
    layout: Layout,
    chunk: usize,
    ends: Seq<rtrb::Consumer<u32>>,
    ended: Seq<bool>,
    turns: Seq<WriteTurn>,
)
    requires
        is_run(layout, chunk, ends, ended, turns),
    ensures
        ({
            let before = ring::taken(ends.first());
            let after = ring::taken(ends.last());
            &&& before.len() <= after.len()
            &&& after.take(before.len() as int) == before
            &&& written(turns) == laid_out(layout, after.skip(before.len() as int))
            &&& ring::none_lost(ends.first(), after.skip(before.len() as int), ends.last())
        }),
        turns.len() > 0 && turns.last() is Stop ==> {
            &&& ended.last()
            &&& ring::at_hand(ends.last()).len() == 0
            &&& laid_out(layout, ring::at_hand(ends.first())).is_prefix_of(written(turns))
        },
    decreases turns.len(),
{
    let before = ring::taken(ends.first());
    let after = ring::taken(ends.last());
    if turns.len() == 0 {
        assert(after.skip(before.len() as int) =~= Seq::empty());
        assert(laid_out(layout, Seq::empty()) =~= Seq::empty());
        let waits = ring::at_hand(ends.first());
        assert((after.skip(before.len() as int) + waits).subrange(0, waits.len() as int) =~= waits);
    } else {
        let n = turns.len() - 1;
        assert(turned(ends[n], ends[n + 1], layout, chunk, false, ended[n], turns[n]));
        assert forall|i: int| 0 <= i < n implies turned(
            ends.drop_last()[i],
            ends.drop_last()[i + 1],
            layout,
            chunk,
            false,
            ended.drop_last()[i],
            #[trigger] turns.drop_last()[i],
        ) by {
            assert(turned(ends[i], ends[i + 1], layout, chunk, false, ended[i], turns[i]));
        }
        law_what_is_taken_is_written(
            layout,
            chunk,
            ends.drop_last(),
            ended.drop_last(),
            turns.drop_last(),
        );
        let middle = ring::taken(ends[n]);
        let start = before.len() as int;
        match turns.last() {
            WriteTurn::Write(v) => {
                let raw = choose|raw: Seq<u32>|
                    #![trigger laid_out(layout, raw)]
                    v@ == laid_out(layout, raw) && after == middle + raw && ring::none_lost(
                        ends[n],
                        raw,
                        ends.last(),
                    );
                assert(after.skip(start) =~= middle.skip(start) + raw);
                lemma_layout_of_sum(layout, middle.skip(start), raw);
                lemma_longer_end(
                    ring::at_hand(ends.first()),
                    middle.skip(start),
                    ring::at_hand(ends[n]),
                    raw + ring::at_hand(ends.last()),
                );
                assert(middle.skip(start) + (raw + ring::at_hand(ends.last())) =~= after.skip(start)
                    + ring::at_hand(ends.last()));
            },
            _ => {
                let rest = ring::at_hand(ends.last());
                assert(Seq::<u32>::empty() + rest =~= rest);
                lemma_longer_end(
                    ring::at_hand(ends.first()),
                    middle.skip(start),
                    ring::at_hand(ends[n]),
                    rest,
                );
            },
        }
        assert(after.take(start) =~= middle.take(start));
        if turns.last() is Stop {
            let waited = ring::at_hand(ends.first());
            let played = after.skip(start);
            assert(played + ring::at_hand(ends.last()) =~= played);
            assert(played =~= waited + played.skip(waited.len() as int));
            lemma_layout_of_sum(layout, waited, played.skip(waited.len() as int));
            assert(laid_out(layout, played).subrange(0, waited.len() as int) =~= laid_out(layout, waited));
        }
    }
}

/// Once the stream is over every turn but the last writes something, so the loop
/// empties the ring and stops.
pub proof fn law_ended_turns_make_progress(
    layout: Layout,
    chunk: usize,
    ends: Seq<rtrb::Consumer<u32>>,
    ended: Seq<bool>,
    turns: Seq<WriteTurn>,
)
    requires
        is_run(layout, chunk, ends, ended, turns),
        chunk > 0,
        forall|i: int| 0 <= i < turns.len() ==> ended[i] && !(#[trigger] turns[i] is Stop),
    ensures
        written(turns).len() >= turns.len(),
    decreases turns.len(),
{
    if turns.len() > 0 {
        let n = turns.len() - 1;
        assert(turned(ends[n], ends[n + 1], layout, chunk, false, ended[n], turns[n]));
        assert(ended[n] && !(turns[n] is Stop));
        assert forall|i: int| 0 <= i < n implies turned(
            ends.drop_last()[i],
            ends.drop_last()[i + 1],
            layout,
            chunk,
            false,
            ended.drop_last()[i],
            #[trigger] turns.drop_last()[i],
        ) && ended.drop_last()[i] && !(turns.drop_last()[i] is Stop) by {
            assert(turned(ends[i], ends[i + 1], layout, chunk, false, ended[i], turns[i]));
            assert(ended[i] && !(turns[i] is Stop));
        }
        law_ended_turns_make_progress(
            layout,
            chunk,
            ends.drop_last(),
            ended.drop_last(),
            turns.drop_last(),
        );
    }
}

/// Attempts that follow one another send the samples in order, none dropped and
/// none sent twice: `ends` is the producer and `dones` the count before the
/// first attempt and after each of them.
pub proof fn law_pushes_send_in_order(samples: Seq<u32>, ends: Seq<rtrb::Producer<u32>>, dones: Seq<int>)
    requires
        ends.len() == dones.len(),
        dones.len() > 0,
        0 <= dones.first() <= samples.len(),
        forall|i: int|
            0 < i < ends.len() ==> pushed(ends[i - 1], #[trigger] ends[i], samples, dones[i - 1], dones[i]),
    ensures
        pushed(ends.first(), ends.last(), samples, dones.first(), dones.last()),
    decreases ends.len(),
{
    if ends.len() == 1 {
        assert(samples.subrange(dones.first(), dones.first()) =~= Seq::empty());
        assert(ring::sent(ends.first()) + Seq::<u32>::empty() =~= ring::sent(ends.first()));
    } else {
        let n = ends.len() - 1;
        assert forall|i: int| 0 < i < n implies pushed(
            ends.drop_last()[i - 1],
            #[trigger] ends.drop_last()[i],
            samples,
            dones.drop_last()[i - 1],
            dones.drop_last()[i],
        ) by {
            assert(pushed(ends[i - 1], ends[i], samples, dones[i - 1], dones[i]));
        }
        law_pushes_send_in_order(samples, ends.drop_last(), dones.drop_last());
        assert(pushed(ends[n - 1], ends[n], samples, dones[n - 1], dones[n]));
        assert(samples.subrange(dones.first(), dones[n]) =~= samples.subrange(dones.first(), dones[n - 1])
            + samples.subrange(dones[n - 1], dones[n]));
        assert(ring::sent(ends.last()) =~= ring::sent(ends.first()) + samples.subrange(
            dones.first(),
            dones[n],
        ));
    }
}

// ------------------------------------------------------------ the decoder's loop

/// What reading the next packet of a container came to.
#[derive(Debug, Clone, Copy, PartialEq, Eq, Structural)]
pub enum PacketEvent {
    /// A packet of the track with this id.
    Packet(u32),
    /// The stream is over.
    Eof,
    /// The container wants the decoder to be set up anew.
    ResetRequired,
    /// Reading failed.
    Failed,
}

/// What the decoder's loop does next.
#[derive(Debug, Clone, Copy, PartialEq, Eq, Structural)]
pub enum DecodeAction {
    /// The loop is over.
    End,
    /// On to the next packet.
    Skip,
    /// Go on with this packet.
    Proceed,
}

/// Decides about a packet: only packets of the chosen track are decoded, and
/// anything but a packet ends the loop.
pub fn on_packet(event: PacketEvent, track_id: u32) -> (r: DecodeAction)
    ensures
        r == (match event {
            PacketEvent::Packet(id) => if id == track_id {
                DecodeAction::Proceed
            } else {
                DecodeAction::Skip
            },
            _ => DecodeAction::End,
        }),
{
    match event {
        PacketEvent::Packet(id) => if id != track_id {
            DecodeAction::Skip
        } else {
            DecodeAction::Proceed
        },
        PacketEvent::Eof => DecodeAction::End,
        PacketEvent::ResetRequired => DecodeAction::End,
        PacketEvent::Failed => DecodeAction::End,
    }
}

/// What decoding a packet came to.
#[derive(Debug, Clone, Copy, PartialEq, Eq, Structural)]
pub enum DecodeEvent {
    /// Samples.
    Samples,
    /// The packet is damaged.
    Damaged,
    /// The decoder gave up.
    Fatal,
}

/// Decides about a decoded packet: a damaged packet is skipped, any other
/// failure ends the loop.
pub fn on_decoded(event: DecodeEvent) -> (r: DecodeAction)
    ensures
        r == (match event {
            DecodeEvent::Samples => DecodeAction::Proceed,
            DecodeEvent::Damaged => DecodeAction::Skip,
            DecodeEvent::Fatal => DecodeAction::End,
        }),
{
    match event {
        DecodeEvent::Samples => DecodeAction::Proceed,
        DecodeEvent::Damaged => DecodeAction::Skip,
        DecodeEvent::Fatal => DecodeAction::End,
    }
}

// ------------------------------------------------------------ laws

/// What the device gets in the plain layout is what came out of the ring, word
/// for word; in the other one every word moved up by one byte.
pub proof fn law_layouts(raw: Seq<u32>, i: int)
    requires
        0 <= i < raw.len(),
    ensures
        laid_out(Layout::Plain, raw) == raw,
        laid_out(Layout::DopHigh, raw).len() == raw.len(),
        laid_out(Layout::DopHigh, raw)[i] / 256 == raw[i] % 0x100_0000,
        laid_out(Layout::DopHigh, raw)[i] % 256 == 0,
{
    dop::law_high_aligned_keeps_24_bits(raw[i]);
}

/// In the plain layout a run of turns writes exactly the words that it takes out
/// of the ring, in order.
pub proof fn law_plain_run_is_bit_perfect(
    chunk: usize,
    ends: Seq<rtrb::Consumer<u32>>,
    ended: Seq<bool>,
    turns: Seq<WriteTurn>,
)
    requires
        is_run(Layout::Plain, chunk, ends, ended, turns),
    ensures
        ring::taken(ends.last()) == ring::taken(ends.first()) + written(turns),
{
    law_what_is_taken_is_written(Layout::Plain, chunk, ends, ended, turns);
    let before = ring::taken(ends.first());
    let after = ring::taken(ends.last());
    assert(after =~= after.take(before.len() as int) + after.skip(before.len() as int));
}

/// DSD goes out as DoP exactly where the container is DSF, in capitals or not,
/// and the system is macOS; everything that is not DSD is decoded to PCM on the
/// systems that playback knows.
pub proof fn law_routes(container: Option<String>, platform: Platform, route: Route)
    requires
        is_route(container_ext(container), platform, route),
    ensures
        route is Dop <==> platform == Platform::MacOs && container is Some && text::lowered(container->0@)
            == "dsf"@,
        route is Pcm <==> platform != Platform::Other && !(container is Some && (text::lowered(
            container->0@,
        ) == "dsf"@ || text::lowered(container->0@) == "dff"@)),
{
    reveal_strlit("dsf");
    reveal_strlit("dff");
    assert("dsf"@[1] == 's' && "dff"@[1] == 'f' && "dsf"@.len() == 3 && "dff"@.len() == 3);
}

/// A ring holds two seconds of audio, and a device is started with a fifth of a
/// second at hand.
pub proof fn law_buffer_times(rate: u32, channels: u32)
    ensures
        two_seconds(rate, channels) == 2 * (rate * channels),
        5 * prefill_goal(rate, channels) <= rate * channels < 5 * prefill_goal(rate, channels) + 5,
        PREFILL_LIMIT_MS == 5000,
{
    assert(rate * channels * 2 == 2 * (rate * channels)) by (nonlinear_arith);
}

/// The bytes of a frame alternate between the older and the newer byte of one
/// channel after the other.
pub proof fn law_interleaved(older: Seq<u8>, newer: Seq<u8>, ch: int)
    requires
        0 <= ch < older.len(),
        older.len() == newer.len(),
    ensures
        interleaved(older, newer).len() == older.len() + newer.len(),
        interleaved(older, newer)[2 * ch] == older[ch],
        interleaved(older, newer)[2 * ch + 1] == newer[ch],
{
    assert((2 * ch) % 2 == 0 && (2 * ch) / 2 == ch && (2 * ch + 1) % 2 == 1 && (2 * ch + 1) / 2 == ch);
}

/// From the audio data to the DoP stream no bit changes: frame `n` carries, for
/// every channel, the bytes `2 n` and `2 n + 1` that the stream holds for it.
pub proof fn law_dop_stream_is_bit_perfect(header: DsfHeader, payload: Seq<u8>, n: nat, ch: int)
    requires
        header.wf(),
        0 <= ch < header.channels,
    ensures
        ({
            let frame = dop_frame(header, false, payload, n);
            &&& frame.len() == header.channels
            &&& frame[ch] / 0x1_0000 == (if n % 2 == 0 {
                0x05int
            } else {
                0xFA
            })
            &&& (frame[ch] / 256) % 256 == payload[dsf::place(header, 2 * n as int, ch)]
            &&& frame[ch] % 256 == payload[dsf::place(header, 2 * n as int + 1, ch)]
        }),
{
    let older = dsf::byte_per_channel(header, false, payload, 2 * n as int);
    let newer = dsf::byte_per_channel(header, false, payload, 2 * n as int + 1);
    law_interleaved(older, newer, ch);
    dop::law_marker_values(n);
    dop::law_packed_frame_fields(
        dop::marker_at(dop::DOP_MARKER_A, n),
        header.channels as nat,
        interleaved(older, newer),
        ch,
    );
}

/// A stream can be played exactly when its track, rate and channels are known, and
/// otherwise the first of them that is missing is named.
pub proof fn law_what_keeps_a_stream_from_playing(id: u32, rate: Option<u32>, channels: Option<u32>)
    ensures
        probe_error(None) == Some("no default track"@),
        probe_error(Some(ProbedTrack { id, sample_rate: None, channels })) == Some("missing sample rate"@),
        rate is Some ==> (probe_error(Some(ProbedTrack { id, sample_rate: rate, channels })) == (if channels
            is None {
            Some("missing channels"@)
        } else {
            None
        })),
{
}

/// A frame can be made of two bytes of every channel that belong to the stream and
/// have come in.
pub proof fn law_byte_is_there(header: DsfHeader, payload: Seq<u8>, k: int)
    requires
        header.wf(),
        k >= 0,
    ensures
        has_byte(header, payload, k) <==> 8 * k < header.sample_count && forall|ch: int|
            0 <= ch < header.channels ==> 0 <= #[trigger] dsf::place(header, k, ch) < payload.len(),
{
    dsf::law_reaching_a_byte(header, payload, k);
    dsf::law_bytes_hold_all_bits(header);
}

/// An error says what went wrong in its own words.
pub proof fn law_errors_carry_their_reason(why: String)
    ensures
        Error::Download(why).words() == "download failed: "@ + why@,
        Error::Io(why).words() == "io: "@ + why@,
        Error::Decode(why).words() == "decode: "@ + why@,
        Error::Backend(why).words() == "audio backend: "@ + why@,
{
}

} // verus!
