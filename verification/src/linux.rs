//! Playback through ALSA.
//!
//! With `exclusive` the raw `hw:` device of the chosen card is opened, past any
//! plugin that could convert or mix; a device that cannot be traced to a card
//! is refused. Without it the device is opened as it is named.
//!
//! A playback is a machine that says which call to make next and is told how
//! the call went.
use crate::engine;
use crate::engine::Prefill;
use crate::text;
use vstd::prelude::*;

verus! {

/// Why a playback through ALSA failed.
#[derive(Debug, Clone)]
pub enum AlsaError {
    /// The device cannot be opened as raw hardware.
    NotBitperfect(String),
    Open(String),
    HwParams(String),
    Write(String),
    UnsupportedFormat,
    /// DSD has to bypass the mixer.
    DopRequiresExclusive,
}

// ------------------------------------------------------------ choosing a device

/// What follows `key` in the first of `params` that starts with it.
pub open spec fn param(params: Seq<Seq<char>>, key: Seq<char>) -> Option<Seq<char>>
    decreases params.len(),
{
    if params.len() == 0 {
        None
    } else if text::starts(params[0], key) {
        Some(params[0].skip(key.len() as int))
    } else {
        param(params.skip(1), key)
    }
}

/// The raw hardware form of a device such as `front:CARD=x20,DEV=0`: plugin
/// dropped, card kept, device number 0 unless given. There is none without a
/// `CARD=` parameter.
pub open spec fn hw_form(rest: Seq<char>) -> Option<Seq<char>> {
    match text::cut(rest, ':') {
        None => None,
        Some((_, after)) => {
            let params = text::pieces(after, ',');
            match param(params, "CARD="@) {
                None => None,
                Some(card) => {
                    let dev = match param(params, "DEV="@) {
                        Some(dev) => dev,
                        None => "0"@,
                    };
                    Some("hw:CARD="@ + card + ",DEV="@ + dev)
                },
            }
        },
    }
}

/// What follows `key` in the first of `params` that starts with it.
fn find_param(params: &Vec<String>, key: &str) -> (r: Option<String>)
    ensures
        text::opt_view(r) == param(text::texts(params@), key@),
{
    let ghost all = text::texts(params@);
    let mut i: usize = 0;
    assert(all.skip(0) =~= all);
    while i < params.len()
        invariant
            i <= params@.len(),
            all == text::texts(params@),
            param(all, key@) == param(all.skip(i as int), key@),
        decreases params@.len() - i,
    {
        let found = text::strip_prefix(params[i].as_str(), key);
        assert(all.skip(i as int)[0] == params@[i as int]@);
        if found.is_some() {
            return found;
        }
        assert(all.skip(i as int).skip(1) =~= all.skip(i + 1));
        i = i + 1;
    }
    assert(all.skip(i as int).len() == 0);
    None
}

/// The raw hardware form of a device, if it has one.
pub fn upgrade_to_hw(rest: &str) -> (r: Option<String>)
    ensures
        text::opt_view(r) == hw_form(rest@),
{
    let params = match text::split_once(rest, ':') {
        None => {
            return None;
        },
        Some((_plugin, after)) => text::split_on(after.as_str(), ','),
    };
    let card = match find_param(&params, "CARD=") {
        None => {
            return None;
        },
        Some(card) => card,
    };
    let dev = match find_param(&params, "DEV=") {
        Some(dev) => dev,
        None => "0".to_owned(),
    };
    let mut out = "hw:CARD=".to_owned();
    out.append(card.as_str());
    out.append(",DEV=");
    out.append(dev.as_str());
    Some(out)
}

/// The device that an id names, or `None` where an exclusive playback has to
/// refuse it.
pub open spec fn resolved(raw: Seq<char>, exclusive: bool) -> Option<Seq<char>> {
    let inner = text::stripped(raw, "alsa/"@);
    if exclusive {
        match inner {
            None => None,
            Some(rest) => if text::starts(rest, "hw:"@) {
                Some(rest)
            } else {
                hw_form(rest)
            },
        }
    } else {
        match inner {
            Some(rest) => if rest.len() > 0 {
                Some(rest)
            } else {
                Some("default"@)
            },
            None => Some("default"@),
        }
    }
}

/// The ALSA device to open for a stored device id. An exclusive playback opens
/// raw hardware or nothing.
pub fn resolve_device(audio_device: &Option<String>, exclusive: bool) -> (r: Result<String, AlsaError>)
    ensures
        match resolved(text::or_empty(*audio_device), exclusive) {
            Some(device) => r matches Ok(d) && d@ == device,
            None => r matches Err(AlsaError::NotBitperfect(id)) && id@ == text::or_empty(*audio_device),
        },
{
    let raw = text::text_or_empty(audio_device);
    let inner = text::strip_prefix(raw.as_str(), "alsa/");
    if exclusive {
        let rest = match inner {
            None => {
                return Err(AlsaError::NotBitperfect(raw));
            },
            Some(rest) => rest,
        };
        if text::starts_with(rest.as_str(), "hw:") {
            return Ok(rest);
        }
        match upgrade_to_hw(rest.as_str()) {
            Some(hw) => Ok(hw),
            None => Err(AlsaError::NotBitperfect(raw)),
        }
    } else {
        match inner {
            Some(rest) => {
                if rest.as_str().is_empty() {
                    Ok("default".to_owned())
                } else {
                    Ok(rest)
                }
            },
            None => Ok("default".to_owned()),
        }
    }
}

/// A device that an exclusive playback opens is raw hardware, whatever plugin
/// the stored id named.
pub proof fn law_exclusive_opens_raw_hardware(raw: Seq<char>)
    ensures
        resolved(raw, true) matches Some(device) ==> text::starts(device, "hw:"@),
{
    reveal_strlit("hw:");
    reveal_strlit("hw:CARD=");
    match text::stripped(raw, "alsa/"@) {
        None => {},
        Some(rest) => {
            if !text::starts(rest, "hw:"@) {
                match hw_form(rest) {
                    None => {},
                    Some(device) => {
                        assert(device.take(3) =~= "hw:"@);
                    },
                }
            }
        },
    }
}

// ------------------------------------------------------------ a playback

/// What a playback sends to the device.
#[derive(Debug, Clone, Copy, PartialEq, Eq, Structural)]
pub enum StreamKind {
    Pcm,
    /// DSD inside 24-bit PCM samples.
    Dop,
    /// DSD as it is, 32 bits per word.
    DsdNative,
}

/// The sample formats that are tried.
#[derive(Debug, Clone, Copy, PartialEq, Eq, Structural)]
pub enum SampleFormat {
    FloatLe,
    S32Le,
    DsdU32Be,
}

/// Frames in the device's buffer.
pub const BUFFER_FRAMES: u32 = 4096;

/// Frames per period, and per write.
pub const PERIOD_FRAMES: u32 = 1024;

/// Milliseconds between two looks at a ring that is filling up.
pub const PREFILL_POLL_MS: u64 = 20;

/// Milliseconds between two looks at an empty ring.
pub const DRAIN_POLL_MS: u64 = 2;

/// How far a playback has come.
#[derive(Debug, Clone)]
pub enum AlsaStage {
    /// The device is to be opened.
    Opening,
    /// A format is to be tried; the number says which try it is.
    Probing(u8),
    /// The device is to be set up with a format.
    Configuring(SampleFormat),
    /// The ring is filling up.
    Prefilling(SampleFormat),
    /// The device is to be made ready.
    Preparing(SampleFormat),
    /// Samples go to the device.
    Pumping(SampleFormat),
    /// The device is to be recovered after a failed write.
    Recovering(SampleFormat),
    /// What the device holds is to be played out.
    Draining,
    /// The playback is over; with an error if it failed.
    Finished(Option<AlsaError>),
}

/// What the playback wants done next.
#[derive(Debug, Clone)]
pub enum AlsaAction {
    Open(String),
    /// See whether the device takes this format at the stream's rate and
    /// channel count.
    Probe(SampleFormat),
    /// Set the device up.
    Configure { format: SampleFormat, rate: u32, channels: u32, buffer_frames: u32, period_frames: u32 },
    /// See whether enough samples wait in the ring.
    Prefill,
    Prepare,
    /// Write one turn of samples in this format.
    Pump(SampleFormat),
    Recover,
    Drain,
    Finish(Option<AlsaError>),
}

/// How an action went.
#[derive(Debug, Clone)]
pub enum AlsaEvent {
    /// The action succeeded.
    Done,
    /// The device does not take the format; why, in words.
    Refused(String),
    /// The action failed.
    Failed(String),
    /// What a look at the ring came to.
    Looked(Prefill),
    /// The write loop is over.
    EndOfStream,
    /// A write failed.
    WriteFailed,
}

/// The format that try number `n` of a PCM playback asks for: floating point,
/// then 32-bit integers, then floating point once more for its error.
pub open spec fn probe_format(n: u8) -> SampleFormat {
    if n == 1 {
        SampleFormat::S32Le
    } else {
        SampleFormat::FloatLe
    }
}

/// The format of a playback whose format is not negotiated.
pub open spec fn fixed_format(kind: StreamKind) -> SampleFormat {
    match kind {
        StreamKind::Pcm => SampleFormat::FloatLe,
        StreamKind::Dop => SampleFormat::S32Le,
        StreamKind::DsdNative => SampleFormat::DsdU32Be,
    }
}

/// Where a playback stands after an event. An event that the stage does not
/// wait for changes nothing.
pub open spec fn next_stage(kind: StreamKind, stage: AlsaStage, event: AlsaEvent) -> AlsaStage {
    match (stage, event) {
        (AlsaStage::Opening, AlsaEvent::Done) => if kind == StreamKind::Pcm {
            AlsaStage::Probing(0)
        } else {
            AlsaStage::Configuring(fixed_format(kind))
        },
        (AlsaStage::Opening, AlsaEvent::Failed(why)) => AlsaStage::Finished(Some(AlsaError::Open(why))),
        (AlsaStage::Probing(n), AlsaEvent::Done) => AlsaStage::Configuring(probe_format(n)),
        (AlsaStage::Probing(n), AlsaEvent::Refused(_)) => if n < 2 {
            AlsaStage::Probing((n + 1) as u8)
        } else {
            AlsaStage::Finished(Some(AlsaError::UnsupportedFormat))
        },
        (AlsaStage::Probing(_), AlsaEvent::Failed(_)) => AlsaStage::Finished(
            Some(AlsaError::UnsupportedFormat),
        ),
        (AlsaStage::Configuring(f), AlsaEvent::Done) => AlsaStage::Prefilling(f),
        (AlsaStage::Configuring(_), AlsaEvent::Refused(why)) => AlsaStage::Finished(
            Some(
                if kind == StreamKind::Pcm {
                    AlsaError::HwParams(why)
                } else {
                    AlsaError::UnsupportedFormat
                },
            ),
        ),
        (AlsaStage::Configuring(_), AlsaEvent::Failed(why)) => AlsaStage::Finished(
            Some(AlsaError::HwParams(why)),
        ),
        (AlsaStage::Prefilling(f), AlsaEvent::Looked(p)) => match p {
            Prefill::Abort => AlsaStage::Finished(None),
            Prefill::Ready => AlsaStage::Preparing(f),
            Prefill::Wait => AlsaStage::Prefilling(f),
        },
        (AlsaStage::Preparing(f), AlsaEvent::Done) => AlsaStage::Pumping(f),
        (AlsaStage::Preparing(_), AlsaEvent::Failed(why)) => AlsaStage::Finished(
            Some(AlsaError::Open(why)),
        ),
        (AlsaStage::Pumping(_), AlsaEvent::EndOfStream) => AlsaStage::Draining,
        (AlsaStage::Pumping(f), AlsaEvent::WriteFailed) => AlsaStage::Recovering(f),
        (AlsaStage::Pumping(_), AlsaEvent::Failed(why)) => AlsaStage::Finished(
            Some(AlsaError::Write(why)),
        ),
        (AlsaStage::Recovering(f), AlsaEvent::Done) => AlsaStage::Pumping(f),
        (AlsaStage::Recovering(_), AlsaEvent::Failed(why)) => AlsaStage::Finished(
            Some(AlsaError::Write(why)),
        ),
        (AlsaStage::Draining, AlsaEvent::Done) => AlsaStage::Finished(None),
        (AlsaStage::Draining, AlsaEvent::Failed(_)) => AlsaStage::Finished(None),
        _ => stage,
    }
}

/// A playback through ALSA.
pub struct AlsaPlayback {
    pub kind: StreamKind,
    pub device: String,
    pub rate: u32,
    pub channels: u32,
    pub stage: AlsaStage,
}

impl AlsaPlayback {
    /// The action that a stage asks for.
    pub open spec fn wanted(&self) -> AlsaAction {
        match self.stage {
            AlsaStage::Opening => AlsaAction::Open(self.device),
            AlsaStage::Probing(n) => AlsaAction::Probe(probe_format(n)),
            AlsaStage::Configuring(format) => AlsaAction::Configure {
                format,
                rate: self.rate,
                channels: self.channels,
                buffer_frames: BUFFER_FRAMES,
                period_frames: PERIOD_FRAMES,
            },
            AlsaStage::Prefilling(_) => AlsaAction::Prefill,
            AlsaStage::Preparing(_) => AlsaAction::Prepare,
            AlsaStage::Pumping(f) => AlsaAction::Pump(f),
            AlsaStage::Recovering(_) => AlsaAction::Recover,
            AlsaStage::Draining => AlsaAction::Drain,
            AlsaStage::Finished(e) => AlsaAction::Finish(e),
        }
    }

    /// A playback that is about to open its device. DSD is refused unless the
    /// device is taken exclusively: a mixer would garble it.
    pub fn start(
        kind: StreamKind,
        rate: u32,
        channels: u32,
        audio_device: &Option<String>,
        exclusive: bool,
    ) -> (r: Result<Self, AlsaError>)
        ensures
            kind != StreamKind::Pcm && !exclusive ==> r == Err::<AlsaPlayback, AlsaError>(
                AlsaError::DopRequiresExclusive,
            ),
            kind == StreamKind::Pcm || exclusive ==> match resolved(
                text::or_empty(*audio_device),
                exclusive,
            ) {
                Some(device) => r matches Ok(p) && {
                    &&& p.kind == kind
                    &&& p.device@ == device
                    &&& p.rate == rate
                    &&& p.channels == channels
                    &&& p.stage == AlsaStage::Opening
                },
                None => r matches Err(AlsaError::NotBitperfect(id)) && id@ == text::or_empty(
                    *audio_device,
                ),
            },
    {
        if kind != StreamKind::Pcm && !exclusive {
            return Err(AlsaError::DopRequiresExclusive);
        }
        match resolve_device(audio_device, exclusive) {
            Ok(device) => Ok(AlsaPlayback { kind, device, rate, channels, stage: AlsaStage::Opening }),
            Err(e) => Err(e),
        }
    }

    /// What the playback wants done next.
    pub fn action(&self) -> (r: AlsaAction)
        ensures
            r == self.wanted(),
    {
        match &self.stage {
            AlsaStage::Opening => AlsaAction::Open(self.device.clone()),
            AlsaStage::Probing(n) => AlsaAction::Probe(
                if *n == 1 {
                    SampleFormat::S32Le
                } else {
                    SampleFormat::FloatLe
                },
            ),
            AlsaStage::Configuring(format) => AlsaAction::Configure {
                format: *format,
                rate: self.rate,
                channels: self.channels,
                buffer_frames: BUFFER_FRAMES,
                period_frames: PERIOD_FRAMES,
            },
            AlsaStage::Prefilling(_) => AlsaAction::Prefill,
            AlsaStage::Preparing(_) => AlsaAction::Prepare,
            AlsaStage::Pumping(f) => AlsaAction::Pump(*f),
            AlsaStage::Recovering(_) => AlsaAction::Recover,
            AlsaStage::Draining => AlsaAction::Drain,
            AlsaStage::Finished(e) => AlsaAction::Finish(copy_outcome(e)),
        }
    }

    /// Takes note of how the action went.
    pub fn on_event(&mut self, event: AlsaEvent)
        ensures
            final(self).stage == next_stage(old(self).kind, old(self).stage, event),
            final(self).kind == old(self).kind,
            final(self).device == old(self).device,
            final(self).rate == old(self).rate,
            final(self).channels == old(self).channels,
    {
        let next = match (&self.stage, event) {
            (AlsaStage::Opening, AlsaEvent::Done) => match self.kind {
                StreamKind::Pcm => AlsaStage::Probing(0),
                StreamKind::Dop => AlsaStage::Configuring(SampleFormat::S32Le),
                StreamKind::DsdNative => AlsaStage::Configuring(SampleFormat::DsdU32Be),
            },
            (AlsaStage::Opening, AlsaEvent::Failed(why)) => AlsaStage::Finished(
                Some(AlsaError::Open(why)),
            ),
            (AlsaStage::Probing(n), AlsaEvent::Done) => AlsaStage::Configuring(
                if *n == 1 {
                    SampleFormat::S32Le
                } else {
                    SampleFormat::FloatLe
                },
            ),
            (AlsaStage::Probing(n), AlsaEvent::Refused(_)) => if *n < 2 {
                AlsaStage::Probing(*n + 1)
            } else {
                AlsaStage::Finished(Some(AlsaError::UnsupportedFormat))
            },
            (AlsaStage::Probing(_), AlsaEvent::Failed(_)) => AlsaStage::Finished(
                Some(AlsaError::UnsupportedFormat),
            ),
            (AlsaStage::Configuring(f), AlsaEvent::Done) => AlsaStage::Prefilling(*f),
            (AlsaStage::Configuring(_), AlsaEvent::Refused(why)) => AlsaStage::Finished(
                Some(
                    match self.kind {
                        StreamKind::Pcm => AlsaError::HwParams(why),
                        _ => AlsaError::UnsupportedFormat,
                    },
                ),
            ),
            (AlsaStage::Configuring(_), AlsaEvent::Failed(why)) => AlsaStage::Finished(
                Some(AlsaError::HwParams(why)),
            ),
            (AlsaStage::Prefilling(f), AlsaEvent::Looked(p)) => match p {
                Prefill::Abort => AlsaStage::Finished(None),
                Prefill::Ready => AlsaStage::Preparing(*f),
                Prefill::Wait => AlsaStage::Prefilling(*f),
            },
            (AlsaStage::Preparing(f), AlsaEvent::Done) => AlsaStage::Pumping(*f),
            (AlsaStage::Preparing(_), AlsaEvent::Failed(why)) => AlsaStage::Finished(
                Some(AlsaError::Open(why)),
            ),
            (AlsaStage::Pumping(_), AlsaEvent::EndOfStream) => AlsaStage::Draining,
            (AlsaStage::Pumping(f), AlsaEvent::WriteFailed) => AlsaStage::Recovering(*f),
            (AlsaStage::Pumping(_), AlsaEvent::Failed(why)) => AlsaStage::Finished(
                Some(AlsaError::Write(why)),
            ),
            (AlsaStage::Recovering(f), AlsaEvent::Done) => AlsaStage::Pumping(*f),
            (AlsaStage::Recovering(_), AlsaEvent::Failed(why)) => AlsaStage::Finished(
                Some(AlsaError::Write(why)),
            ),
            (AlsaStage::Draining, AlsaEvent::Done) => AlsaStage::Finished(None),
            (AlsaStage::Draining, AlsaEvent::Failed(_)) => AlsaStage::Finished(None),
            _ => {
                return ;
            },
        };
        self.stage = next;
    }

    /// The samples that should wait in the ring before the device starts.
    pub fn prefill_target(&self) -> (r: usize)
        requires
            self.rate * self.channels <= usize::MAX,
        ensures
            r == engine::prefill_goal(self.rate, self.channels),
    {
        engine::prefill_target(self.rate, self.channels)
    }

    /// The samples in one write.
    pub fn chunk_samples(&self) -> (r: usize)
        requires
            PERIOD_FRAMES * self.channels <= usize::MAX,
        ensures
            r == PERIOD_FRAMES * self.channels,
    {
        (PERIOD_FRAMES as usize) * (self.channels as usize)
    }

    /// How the samples in the ring are laid out for this playback's device.
    pub fn layout(&self) -> (r: engine::Layout)
        ensures
            r == (if self.kind == StreamKind::Dop {
                engine::Layout::DopHigh
            } else {
                engine::Layout::Plain
            }),
    {
        match self.kind {
            StreamKind::Dop => engine::Layout::DopHigh,
            _ => engine::Layout::Plain,
        }
    }
}

/// A copy of an optional error.
fn copy_outcome(e: &Option<AlsaError>) -> (r: Option<AlsaError>)
    ensures
        r == *e,
{
    match e {
        None => None,
        Some(AlsaError::NotBitperfect(s)) => Some(AlsaError::NotBitperfect(s.clone())),
        Some(AlsaError::Open(s)) => Some(AlsaError::Open(s.clone())),
        Some(AlsaError::HwParams(s)) => Some(AlsaError::HwParams(s.clone())),
        Some(AlsaError::Write(s)) => Some(AlsaError::Write(s.clone())),
        Some(AlsaError::UnsupportedFormat) => Some(AlsaError::UnsupportedFormat),
        Some(AlsaError::DopRequiresExclusive) => Some(AlsaError::DopRequiresExclusive),
    }
}

/// The place of a stage in the life of a playback.
pub open spec fn stage_order(stage: AlsaStage) -> int {
    match stage {
        AlsaStage::Opening => 0,
        AlsaStage::Probing(_) => 1,
        AlsaStage::Configuring(_) => 2,
        AlsaStage::Prefilling(_) => 3,
        AlsaStage::Preparing(_) => 4,
        AlsaStage::Pumping(_) => 5,
        AlsaStage::Recovering(_) => 5,
        AlsaStage::Draining => 6,
        AlsaStage::Finished(_) => 7,
    }
}

/// A playback never goes back, never skips a stage except to finish (or past
/// the probes of a format that is fixed), and finishes for good. So nothing is
/// written before the device has been set up, the ring filled and the device
/// made ready.
pub proof fn law_stages_in_order(kind: StreamKind, stage: AlsaStage, event: AlsaEvent)
    ensures
        ({
            let next = next_stage(kind, stage, event);
            &&& stage_order(stage) <= stage_order(next)
            &&& stage_order(next) > stage_order(stage) + 1 ==> next is Finished || (stage is Opening
                && kind != StreamKind::Pcm && next is Configuring)
            &&& stage is Finished ==> next == stage
        }),
{
}

/// The format that was settled is kept until the playback is over.
pub proof fn law_format_is_kept(
    kind: StreamKind,
    stage: AlsaStage,
    event: AlsaEvent,
    f: SampleFormat,
)
    requires
        stage == AlsaStage::Configuring(f) || stage == AlsaStage::Prefilling(f) || stage
            == AlsaStage::Preparing(f) || stage == AlsaStage::Pumping(f) || stage
            == AlsaStage::Recovering(f),
    ensures
        ({
            let next = next_stage(kind, stage, event);
            ||| next == AlsaStage::Configuring(f)
            ||| next == AlsaStage::Prefilling(f)
            ||| next == AlsaStage::Preparing(f)
            ||| next == AlsaStage::Pumping(f)
            ||| next == AlsaStage::Recovering(f)
            ||| next is Draining
            ||| next is Finished
        }),
{
}

/// Cancelling while the ring fills up ends the playback without touching the
/// device any further, and without an error.
pub proof fn law_cancelled_prefill_is_clean(kind: StreamKind, f: SampleFormat)
    ensures
        next_stage(kind, AlsaStage::Prefilling(f), AlsaEvent::Looked(Prefill::Abort))
            == AlsaStage::Finished(None::<AlsaError>),
{
}

/// The parameter that is found starts with the key, and none before it does; if
/// none is found, none does.
pub proof fn law_param(params: Seq<Seq<char>>, key: Seq<char>)
    ensures
        match param(params, key) {
            Some(value) => exists|i: int|
                {
                    &&& 0 <= i < params.len()
                    &&& #[trigger] params[i] == key + value
                    &&& forall|j: int| 0 <= j < i ==> !text::starts(#[trigger] params[j], key)
                },
            None => forall|j: int| 0 <= j < params.len() ==> !text::starts(#[trigger] params[j], key),
        },
    decreases params.len(),
{
    if params.len() > 0 {
        if text::starts(params[0], key) {
            assert(params[0] =~= key + params[0].skip(key.len() as int));
        } else {
            let rest = params.skip(1);
            law_param(rest, key);
            assert forall|j: int| 1 <= j < params.len() implies #[trigger] params[j] == rest[j - 1] by {}
            match param(rest, key) {
                Some(value) => {
                    let k = choose|i: int|
                        {
                            &&& 0 <= i < rest.len()
                            &&& #[trigger] rest[i] == key + value
                            &&& forall|j: int| 0 <= j < i ==> !text::starts(#[trigger] rest[j], key)
                        };
                    assert(params[k + 1] == rest[k]);
                },
                None => {},
            }
        }
    }
}

/// The raw hardware form of a device names its card and its device number: those
/// that stand behind the first `CARD=` and `DEV=` of its parameters, the number
/// being 0 where none is given. A device without a card has none.
pub proof fn law_hardware_form(plugin: Seq<char>, params: Seq<char>)
    requires
        !plugin.contains(':'),
    ensures
        ({
            let list = text::pieces(params, ',');
            match (param(list, "CARD="@), param(list, "DEV="@)) {
                (None, _) => hw_form(plugin + seq![':'] + params) is None,
                (Some(card), None) => hw_form(plugin + seq![':'] + params) == Some(
                    "hw:CARD="@ + card + ",DEV=0"@,
                ),
                (Some(card), Some(dev)) => hw_form(plugin + seq![':'] + params) == Some(
                    "hw:CARD="@ + card + ",DEV="@ + dev,
                ),
            }
        }),
        hw_form(plugin) is None,
{
    let rest = plugin + seq![':'] + params;
    text::law_cut(rest, ':');
    text::law_cut(plugin, ':');
    text::lemma_first_index_is(rest, ':', plugin.len() as int);
    assert forall|j: int| 0 <= j < plugin.len() implies rest[j] != ':' by {
        assert(plugin.contains(plugin[j]));
    }
    text::lemma_first_index_is(rest, ':', plugin.len() as int);
    assert(rest.skip(plugin.len() as int + 1) =~= params);
    reveal_strlit(",DEV=0");
    reveal_strlit(",DEV=");
    reveal_strlit("0");
    assert(",DEV="@ + "0"@ =~= ",DEV=0"@);
    match param(text::pieces(params, ','), "CARD="@) {
        Some(card) => {
            assert("hw:CARD="@ + card + ",DEV="@ + "0"@ =~= "hw:CARD="@ + card + ",DEV=0"@);
        },
        None => {},
    }
    assert(!plugin.contains(':') ==> text::cut(plugin, ':') is None) by {
        match text::cut(plugin, ':') {
            Some((a, b)) => {
                assert(plugin == a + seq![':'] + b);
                assert(plugin[a.len() as int] == ':');
            },
            None => {},
        }
    }
}

/// Without exclusive access the device opens as it is named behind `alsa/`, or as
/// the default if it has no name; with it a device that is named as raw hardware
/// opens as it is, and one that is no ALSA device is refused.
pub proof fn law_resolved_device(name: Seq<char>, raw: Seq<char>)
    ensures
        resolved("alsa/"@ + name, false) == Some(
            if name.len() > 0 {
                name
            } else {
                "default"@
            },
        ),
        resolved("alsa/hw:"@ + name, true) == Some("hw:"@ + name),
        !text::starts(raw, "alsa/"@) ==> resolved(raw, false) == Some("default"@) && resolved(raw, true)
            is None,
        !text::starts(name, "hw:"@) ==> resolved("alsa/"@ + name, true) == hw_form(name),
{
    reveal_strlit("alsa/");
    reveal_strlit("hw:");
    reveal_strlit("alsa/hw:");
    text::law_prefix(raw, "alsa/"@, name);
    text::law_prefix(raw, "alsa/"@, "hw:"@ + name);
    text::law_prefix(raw, "hw:"@, name);
    assert("alsa/hw:"@ + name =~= "alsa/"@ + ("hw:"@ + name));
}

/// PCM is tried as floating point first, then as 32-bit integers, and fails when
/// both are refused; DSD is sent in the one format it has.
pub proof fn law_formats_are_tried_in_turn(why: String)
    ensures
        next_stage(StreamKind::Pcm, AlsaStage::Opening, AlsaEvent::Done) == AlsaStage::Probing(0),
        probe_format(0) == SampleFormat::FloatLe,
        next_stage(StreamKind::Pcm, AlsaStage::Probing(0), AlsaEvent::Refused(why)) == AlsaStage::Probing(1),
        probe_format(1) == SampleFormat::S32Le,
        next_stage(StreamKind::Pcm, AlsaStage::Probing(1), AlsaEvent::Refused(why)) == AlsaStage::Probing(2),
        next_stage(StreamKind::Pcm, AlsaStage::Probing(2), AlsaEvent::Refused(why)) == AlsaStage::Finished(
            Some(AlsaError::UnsupportedFormat),
        ),
        next_stage(StreamKind::Dop, AlsaStage::Opening, AlsaEvent::Done) == AlsaStage::Configuring(
            SampleFormat::S32Le,
        ),
        next_stage(StreamKind::DsdNative, AlsaStage::Opening, AlsaEvent::Done) == AlsaStage::Configuring(
            SampleFormat::DsdU32Be,
        ),
{
}

/// The format that was tried and taken is the one that the device is set up
/// with, at the rate and with the channels of the stream, and the one that is
/// written.
pub proof fn law_device_is_set_up_for_the_stream(p: AlsaPlayback, f: SampleFormat, n: u8)
    ensures
        p.stage == AlsaStage::Probing(n) ==> p.wanted() == AlsaAction::Probe(probe_format(n)) && next_stage(
            p.kind,
            p.stage,
            AlsaEvent::Done,
        ) == AlsaStage::Configuring(probe_format(n)),
        p.stage == AlsaStage::Configuring(f) ==> {
            &&& p.wanted() matches AlsaAction::Configure { format, rate, channels, buffer_frames, period_frames }
            &&& format == f
            &&& rate == p.rate
            &&& channels == p.channels
            &&& period_frames == 1024
            &&& buffer_frames == 4096
        },
        p.stage == AlsaStage::Pumping(f) ==> p.wanted() == AlsaAction::Pump(f),
        p.stage is Opening ==> p.wanted() == AlsaAction::Open(p.device),
        p.stage is Prefilling ==> p.wanted() is Prefill,
        p.stage is Preparing ==> p.wanted() is Prepare,
        p.stage is Recovering ==> p.wanted() is Recover,
        p.stage is Draining ==> p.wanted() is Drain,
        p.stage matches AlsaStage::Finished(e) ==> p.wanted() == AlsaAction::Finish(e),
{
}

/// A failure ends the playback with what the system said, by where it happened;
/// only a failure to play out the rest is let pass.
pub proof fn law_alsa_failures_are_reported(kind: StreamKind, stage: AlsaStage, why: String)
    ensures
        ({
            let next = next_stage(kind, stage, AlsaEvent::Failed(why));
            &&& stage is Opening || stage is Preparing ==> next == AlsaStage::Finished(
                Some(AlsaError::Open(why)),
            )
            &&& stage is Configuring ==> next == AlsaStage::Finished(Some(AlsaError::HwParams(why)))
            &&& stage is Pumping || stage is Recovering ==> next == AlsaStage::Finished(
                Some(AlsaError::Write(why)),
            )
            &&& stage is Draining ==> next == AlsaStage::Finished(None::<AlsaError>)
        }),
        stage is Pumping ==> next_stage(kind, stage, AlsaEvent::EndOfStream) is Draining,
        stage is Draining ==> next_stage(kind, stage, AlsaEvent::Done) == AlsaStage::Finished(
            None::<AlsaError>,
        ),
{
}

/// What goes well leads on: from the set-up to the filling of the ring, from there
/// to making the device ready and to writing, and from a failed write through its
/// recovery back to writing.
pub proof fn law_alsa_goes_on(kind: StreamKind, f: SampleFormat, why: String)
    ensures
        next_stage(kind, AlsaStage::Configuring(f), AlsaEvent::Done) == AlsaStage::Prefilling(f),
        next_stage(kind, AlsaStage::Prefilling(f), AlsaEvent::Looked(Prefill::Wait)) == AlsaStage::Prefilling(f),
        next_stage(kind, AlsaStage::Prefilling(f), AlsaEvent::Looked(Prefill::Ready)) == AlsaStage::Preparing(f),
        next_stage(kind, AlsaStage::Preparing(f), AlsaEvent::Done) == AlsaStage::Pumping(f),
        next_stage(kind, AlsaStage::Pumping(f), AlsaEvent::WriteFailed) == AlsaStage::Recovering(f),
        next_stage(kind, AlsaStage::Recovering(f), AlsaEvent::Done) == AlsaStage::Pumping(f),
        next_stage(kind, AlsaStage::Pumping(f), AlsaEvent::Done) == AlsaStage::Pumping(f),
        kind == StreamKind::Pcm ==> next_stage(kind, AlsaStage::Configuring(f), AlsaEvent::Refused(why))
            == AlsaStage::Finished(Some(AlsaError::HwParams(why))),
        kind != StreamKind::Pcm ==> next_stage(kind, AlsaStage::Configuring(f), AlsaEvent::Refused(why))
            == AlsaStage::Finished(Some(AlsaError::UnsupportedFormat)),
{
}

} // verus!
