//! Video playback through mpv: which outputs there are, how mpv is set up, and
//! which keys do what.
use crate::engine::Platform;
use crate::text;
use crate::urls;
use vstd::prelude::*;

verus! {

/// What mpv could not do.
#[derive(Debug, Clone)]
pub enum Error {
    Mpv(String),
}

impl Error {
    /// The error in words.
    pub fn message(&self) -> (r: String)
        ensures
            r@ == (match *self {
                Error::Mpv(why) => "mpv: "@ + why@,
            }),
    {
        match self {
            Error::Mpv(why) => text::joined("mpv: ", why.as_str()),
        }
    }
}

// ------------------------------------------------------------ audio outputs

/// An audio output. `bitperfect` marks those that no mixer stands before.
#[derive(Debug, Clone)]
pub struct AudioDevice {
    pub id: String,
    pub description: String,
    pub bitperfect: bool,
}

/// An audio output as mpv lists it.
#[derive(Debug, Clone)]
pub struct RawDevice {
    pub name: String,
    pub description: String,
}

/// Whether an id names a piece of hardware: `coreaudio/` with a UID, or
/// `alsa/hw:`. Everything else goes through a mixer.
pub open spec fn names_hardware(id: Seq<char>) -> bool {
    match text::stripped(id, "coreaudio/"@) {
        Some(uid) => uid.len() > 0,
        None => text::starts(id, "alsa/hw:"@),
    }
}

/// Whether an id names a piece of hardware.
pub fn is_bitperfect(id: &str) -> (r: bool)
    ensures
        r == names_hardware(id@),
{
    match text::strip_prefix(id, "coreaudio/") {
        Some(uid) => !uid.as_str().is_empty(),
        None => text::starts_with(id, "alsa/hw:"),
    }
}

/// A raw entry with its mark.
pub open spec fn marked(raw: RawDevice) -> AudioDevice {
    AudioDevice { id: raw.name, description: raw.description, bitperfect: names_hardware(raw.name@) }
}

/// The entries whose mark is `bitperfect`, in order.
pub open spec fn with_mark(raw: Seq<RawDevice>, bitperfect: bool) -> Seq<AudioDevice>
    decreases raw.len(),
{
    if raw.len() == 0 {
        Seq::empty()
    } else {
        let rest = with_mark(raw.drop_last(), bitperfect);
        if names_hardware(raw.last().name@) == bitperfect {
            rest.push(marked(raw.last()))
        } else {
            rest
        }
    }
}

/// A copy of an output.
fn copy_device(d: &AudioDevice) -> (r: AudioDevice)
    ensures
        r == *d,
{
    AudioDevice { id: d.id.clone(), description: d.description.clone(), bitperfect: d.bitperfect }
}

/// The entries whose mark is `bitperfect`, in order.
fn collect_marked(out: &mut Vec<AudioDevice>, raw: &Vec<RawDevice>, bitperfect: bool)
    ensures
        final(out)@ == old(out)@ + with_mark(raw@, bitperfect),
{
    let ghost before = out@;
    let mut i: usize = 0;
    assert(out@ =~= before + with_mark(raw@.take(0), bitperfect));
    while i < raw.len()
        invariant
            i <= raw@.len(),
            out@ == before + with_mark(raw@.take(i as int), bitperfect),
        decreases raw@.len() - i,
    {
        assert(raw@.take(i + 1).drop_last() =~= raw@.take(i as int));
        let ghost done = with_mark(raw@.take(i as int), bitperfect);
        if is_bitperfect(raw[i].name.as_str()) == bitperfect {
            out.push(
                AudioDevice {
                    id: raw[i].name.clone(),
                    description: raw[i].description.clone(),
                    bitperfect,
                },
            );
            assert(out@ =~= before + done.push(marked(raw@[i as int])));
        }
        i = i + 1;
    }
    assert(raw@.take(raw@.len() as int) =~= raw@);
}

/// Marks the outputs that mpv lists and puts those that no mixer stands before
/// first. Within each group the order stays.
pub fn list_audio_devices(raw: &Vec<RawDevice>) -> (r: Vec<AudioDevice>)
    ensures
        r@ == with_mark(raw@, true) + with_mark(raw@, false),
{
    let mut out: Vec<AudioDevice> = Vec::new();
    collect_marked(&mut out, raw, true);
    assert(out@ =~= with_mark(raw@, true));
    collect_marked(&mut out, raw, false);
    out
}

/// Every output is listed exactly once.
pub proof fn law_no_output_is_lost(raw: Seq<RawDevice>)
    ensures
        with_mark(raw, true).len() + with_mark(raw, false).len() == raw.len(),
        (with_mark(raw, true) + with_mark(raw, false)).to_multiset() =~= raw.map_values(
            |d: RawDevice| marked(d),
        ).to_multiset(),
    decreases raw.len(),
{
    broadcast use vstd::seq_lib::group_to_multiset_ensures;

    let all = raw.map_values(|d: RawDevice| marked(d));
    if raw.len() == 0 {
        assert(with_mark(raw, true) + with_mark(raw, false) =~= all);
    } else {
        law_no_output_is_lost(raw.drop_last());
        let front = raw.drop_last().map_values(|d: RawDevice| marked(d));
        let a = with_mark(raw.drop_last(), true);
        let b = with_mark(raw.drop_last(), false);
        let m = marked(raw.last());
        assert(all =~= front.push(m));
        vstd::seq_lib::lemma_multiset_commutative(a, b);
        if names_hardware(raw.last().name@) {
            vstd::seq_lib::lemma_multiset_commutative(a.push(m), b);
            assert(a.push(m).to_multiset().add(b.to_multiset()) =~= a.to_multiset().add(
                b.to_multiset(),
            ).insert(m));
        } else {
            vstd::seq_lib::lemma_multiset_commutative(a, b.push(m));
            assert(a.to_multiset().add(b.push(m).to_multiset()) =~= a.to_multiset().add(
                b.to_multiset(),
            ).insert(m));
        }
    }
}

/// The first output without a mixer, if there is one.
pub open spec fn first_bitperfect(devices: Seq<AudioDevice>) -> Option<AudioDevice>
    decreases devices.len(),
{
    if devices.len() == 0 {
        None
    } else if devices[0].bitperfect {
        Some(devices[0])
    } else {
        first_bitperfect(devices.skip(1))
    }
}

/// The first output without a mixer, if there is one.
pub fn pick_bitperfect(devices: &Vec<AudioDevice>) -> (r: Option<AudioDevice>)
    ensures
        r == first_bitperfect(devices@),
{
    let mut i: usize = 0;
    assert(devices@.skip(0) =~= devices@);
    while i < devices.len()
        invariant
            i <= devices@.len(),
            first_bitperfect(devices@) == first_bitperfect(devices@.skip(i as int)),
        decreases devices@.len() - i,
    {
        assert(devices@.skip(i as int)[0] == devices@[i as int]);
        assert(devices@.skip(i as int).skip(1) =~= devices@.skip(i + 1));
        if devices[i].bitperfect {
            return Some(copy_device(&devices[i]));
        }
        i = i + 1;
    }
    assert(devices@.skip(i as int).len() == 0);
    None
}

/// The description of the first output with an id; the id itself if there is
/// none.
pub open spec fn description_of(devices: Seq<AudioDevice>, id: Seq<char>) -> Seq<char>
    decreases devices.len(),
{
    if devices.len() == 0 {
        id
    } else if devices[0].id@ == id {
        devices[0].description@
    } else {
        description_of(devices.skip(1), id)
    }
}

/// How a selected output is shown.
pub open spec fn label_of(devices: Seq<AudioDevice>, id: Seq<char>) -> Seq<char> {
    if id.len() == 0 {
        "System default"@
    } else {
        description_of(devices, id)
    }
}

/// How a selected output is shown: by its description if it is known, by its id
/// if not, and as the default if none is selected.
pub fn resolve_device_label(devices: &Vec<AudioDevice>, id: &str) -> (r: String)
    ensures
        r@ == label_of(devices@, id@),
{
    if id.is_empty() {
        return "System default".to_owned();
    }
    let mut i: usize = 0;
    assert(devices@.skip(0) =~= devices@);
    while i < devices.len()
        invariant
            i <= devices@.len(),
            id@.len() > 0,
            description_of(devices@, id@) == description_of(devices@.skip(i as int), id@),
        decreases devices@.len() - i,
    {
        assert(devices@.skip(i as int)[0] == devices@[i as int]);
        assert(devices@.skip(i as int).skip(1) =~= devices@.skip(i + 1));
        if text::same_text(devices[i].id.as_str(), id) {
            return devices[i].description.clone();
        }
        i = i + 1;
    }
    assert(devices@.skip(i as int).len() == 0);
    id.to_owned()
}

// ------------------------------------------------------------ setting mpv up

/// A property to be set on mpv before it starts.
#[derive(Debug)]
pub struct MpvProperty {
    pub name: String,
    pub value: String,
    /// Whether mpv has to take it; others are known to some versions only.
    pub required: bool,
}

/// Names, values and whether required, of a list of properties.
pub open spec fn property_texts(v: Seq<MpvProperty>) -> Seq<(Seq<char>, Seq<char>, bool)> {
    v.map_values(|p: MpvProperty| (p.name@, p.value@, p.required))
}

/// The properties of a playback, in order: rendering with high dynamic range,
/// hardware decoding, controls and statistics on screen; a window of its own
/// unless the host gives it a view; and the audio output if one is chosen.
pub open spec fn mpv_setup(
    verbose: bool,
    view: Option<i64>,
    audio_device: Option<Seq<char>>,
) -> Seq<(Seq<char>, Seq<char>, bool)> {
    seq![
        ("terminal"@, "yes"@, true),
        (
            "msg-level"@,
            if verbose {
                "cplayer=info,vo=v,vd=v,placebo=v"@
            } else {
                "all=warn"@
            },
            true,
        ),
        ("vo"@, "gpu-next"@, true),
        ("hwdec"@, "auto-safe"@, true),
        ("target-colorspace-hint"@, "yes"@, true),
        ("keep-open"@, "yes"@, true),
    ] + (if view is None {
        seq![("force-window"@, "yes"@, true)]
    } else {
        Seq::empty()
    }) + seq![
        ("input-builtin-bindings"@, "yes"@, false),
        ("input-default-bindings"@, "yes"@, false),
        ("input-vo-keyboard"@, "yes"@, true),
        ("input-media-keys"@, "yes"@, true),
        ("osc"@, "yes"@, true),
        ("osd-bar"@, "yes"@, true),
        ("load-stats-overlay"@, "yes"@, true),
        ("cursor-autohide"@, "1000"@, true),
        ("border"@, "yes"@, true),
    ] + (match view {
        Some(v) => seq![("wid"@, text::signed_decimal(v as int), true)],
        None => Seq::empty(),
    }) + (match audio_device {
        Some(d) => seq![("audio-device"@, d, true)],
        None => Seq::empty(),
    })
}

fn add_property(out: &mut Vec<MpvProperty>, name: &str, value: &str, required: bool)
    ensures
        property_texts(final(out)@) == property_texts(old(out)@).push((name@, value@, required)),
{
    out.push(MpvProperty { name: name.to_owned(), value: value.to_owned(), required });
    assert(property_texts(out@) =~= property_texts(old(out)@).push((name@, value@, required)));
}

/// The properties of a playback, in order.
pub fn build_mpv(verbose: bool, view: Option<i64>, audio_device: Option<&str>) -> (r: Vec<MpvProperty>)
    ensures
        property_texts(r@) == mpv_setup(
            verbose,
            view,
            match audio_device {
                Some(d) => Some(d@),
                None => None,
            },
        ),
{
    let mut out: Vec<MpvProperty> = Vec::new();
    add_property(&mut out, "terminal", "yes", true);
    if verbose {
        add_property(&mut out, "msg-level", "cplayer=info,vo=v,vd=v,placebo=v", true);
    } else {
        add_property(&mut out, "msg-level", "all=warn", true);
    }
    add_property(&mut out, "vo", "gpu-next", true);
    add_property(&mut out, "hwdec", "auto-safe", true);
    add_property(&mut out, "target-colorspace-hint", "yes", true);
    add_property(&mut out, "keep-open", "yes", true);
    if view.is_none() {
        add_property(&mut out, "force-window", "yes", true);
    }
    add_property(&mut out, "input-builtin-bindings", "yes", false);
    add_property(&mut out, "input-default-bindings", "yes", false);
    add_property(&mut out, "input-vo-keyboard", "yes", true);
    add_property(&mut out, "input-media-keys", "yes", true);
    add_property(&mut out, "osc", "yes", true);
    add_property(&mut out, "osd-bar", "yes", true);
    add_property(&mut out, "load-stats-overlay", "yes", true);
    add_property(&mut out, "cursor-autohide", "1000", true);
    add_property(&mut out, "border", "yes", true);
    if let Some(v) = view {
        add_property(&mut out, "wid", text::signed_decimal_of(v).as_str(), true);
    }
    if let Some(d) = audio_device {
        add_property(&mut out, "audio-device", d, true);
    }
    assert(property_texts(out@) =~= mpv_setup(
        verbose,
        view,
        match audio_device {
            Some(d) => Some(d@),
            None => None,
        },
    ));
    out
}

/// The keys that are bound, with the mpv command each of them runs.
pub open spec fn key_bindings() -> Seq<(Seq<char>, Seq<char>)> {
    seq![
        ("SPACE"@, "cycle pause"@),
        ("LEFT"@, "seek -5"@),
        ("RIGHT"@, "seek 5"@),
        ("UP"@, "seek 60"@),
        ("DOWN"@, "seek -60"@),
        ("f"@, "cycle fullscreen"@),
        ("m"@, "cycle mute"@),
        ("a"@, "cycle audio"@),
        ("s"@, "cycle sub"@),
        ("i"@, "script-binding stats/display-stats"@),
        ("I"@, "script-binding stats/display-stats-toggle"@),
        ("q"@, "quit"@),
        ("ESC"@, "quit"@),
        ("MBTN_LEFT"@, "cycle pause"@),
        ("MBTN_LEFT_DBL"@, "cycle fullscreen"@),
        ("WHEEL_UP"@, "seek 5"@),
        ("WHEEL_DOWN"@, "seek -5"@),
    ]
}

/// The keys that are bound, with the mpv command each of them runs.
pub fn default_keybindings() -> (r: Vec<(String, String)>)
    ensures
        urls::pair_texts(r@) == key_bindings(),
{
    let mut out: Vec<(String, String)> = Vec::new();
    urls::add_pair(&mut out, "SPACE", "cycle pause".to_owned());
    urls::add_pair(&mut out, "LEFT", "seek -5".to_owned());
    urls::add_pair(&mut out, "RIGHT", "seek 5".to_owned());
    urls::add_pair(&mut out, "UP", "seek 60".to_owned());
    urls::add_pair(&mut out, "DOWN", "seek -60".to_owned());
    urls::add_pair(&mut out, "f", "cycle fullscreen".to_owned());
    urls::add_pair(&mut out, "m", "cycle mute".to_owned());
    urls::add_pair(&mut out, "a", "cycle audio".to_owned());
    urls::add_pair(&mut out, "s", "cycle sub".to_owned());
    urls::add_pair(&mut out, "i", "script-binding stats/display-stats".to_owned());
    urls::add_pair(&mut out, "I", "script-binding stats/display-stats-toggle".to_owned());
    urls::add_pair(&mut out, "q", "quit".to_owned());
    urls::add_pair(&mut out, "ESC", "quit".to_owned());
    urls::add_pair(&mut out, "MBTN_LEFT", "cycle pause".to_owned());
    urls::add_pair(&mut out, "MBTN_LEFT_DBL", "cycle fullscreen".to_owned());
    urls::add_pair(&mut out, "WHEEL_UP", "seek 5".to_owned());
    urls::add_pair(&mut out, "WHEEL_DOWN", "seek -5".to_owned());
    assert(urls::pair_texts(out@) =~= key_bindings());
    out
}

// ------------------------------------------------------------ keys on macOS

/// A command to mpv, with at most one argument.
#[derive(Debug, Clone, Copy)]
pub struct KeyCommand {
    pub name: &'static str,
    pub arg: Option<&'static str>,
}

/// The mpv command for a macOS key code.
pub open spec fn command_for(key_code: u16, shift: bool) -> Option<(Seq<char>, Option<Seq<char>>)> {
    if key_code == 49 {
        Some(("cycle"@, Some("pause"@)))
    } else if key_code == 123 {
        Some(("seek"@, Some("-5"@)))
    } else if key_code == 124 {
        Some(("seek"@, Some("5"@)))
    } else if key_code == 125 {
        Some(("seek"@, Some("-60"@)))
    } else if key_code == 126 {
        Some(("seek"@, Some("60"@)))
    } else if key_code == 53 || key_code == 12 {
        Some(("quit"@, None))
    } else if key_code == 3 {
        Some(("cycle"@, Some("fullscreen"@)))
    } else if key_code == 46 {
        Some(("cycle"@, Some("mute"@)))
    } else if key_code == 0 {
        Some(("cycle"@, Some("audio"@)))
    } else if key_code == 1 {
        Some(("cycle"@, Some("sub"@)))
    } else if key_code == 34 {
        Some(
            (
                "script-binding"@,
                Some(
                    if shift {
                        "stats/display-stats-toggle"@
                    } else {
                        "stats/display-stats"@
                    },
                ),
            ),
        )
    } else {
        None
    }
}

impl KeyCommand {
    /// The command as text.
    pub open spec fn shown(self) -> (Seq<char>, Option<Seq<char>>) {
        (
            self.name@,
            match self.arg {
                Some(a) => Some(a@),
                None => None,
            },
        )
    }
}

/// The mpv command for a macOS key code, which stands for the place of a key
/// on the keyboard.
pub fn translate_key(key_code: u16, shift: bool) -> (r: Option<KeyCommand>)
    ensures
        match r {
            Some(c) => command_for(key_code, shift) == Some(c.shown()),
            None => command_for(key_code, shift) is None,
        },
{
    match key_code {
        49 => Some(KeyCommand { name: "cycle", arg: Some("pause") }),
        123 => Some(KeyCommand { name: "seek", arg: Some("-5") }),
        124 => Some(KeyCommand { name: "seek", arg: Some("5") }),
        125 => Some(KeyCommand { name: "seek", arg: Some("-60") }),
        126 => Some(KeyCommand { name: "seek", arg: Some("60") }),
        53 => Some(KeyCommand { name: "quit", arg: None }),
        3 => Some(KeyCommand { name: "cycle", arg: Some("fullscreen") }),
        46 => Some(KeyCommand { name: "cycle", arg: Some("mute") }),
        0 => Some(KeyCommand { name: "cycle", arg: Some("audio") }),
        1 => Some(KeyCommand { name: "cycle", arg: Some("sub") }),
        34 => {
            if shift {
                Some(KeyCommand { name: "script-binding", arg: Some("stats/display-stats-toggle") })
            } else {
                Some(KeyCommand { name: "script-binding", arg: Some("stats/display-stats") })
            }
        },
        12 => Some(KeyCommand { name: "quit", arg: None }),
        _ => None,
    }
}

/// The command that a key press sends to mpv, if any. Keys pressed in a window
/// that was there before mpv opened its own belong to that window; without a
/// running mpv no key is taken.
pub fn key_pressed(
    window: i64,
    earlier_windows: &Vec<i64>,
    running: bool,
    key_code: u16,
    shift: bool,
) -> (r: Option<KeyCommand>)
    ensures
        earlier_windows@.contains(window) || !running ==> r is None,
        !earlier_windows@.contains(window) && running ==> match r {
            Some(c) => command_for(key_code, shift) == Some(c.shown()),
            None => command_for(key_code, shift) is None,
        },
{
    let mut i: usize = 0;
    while i < earlier_windows.len()
        invariant
            i <= earlier_windows@.len(),
            forall|j: int| 0 <= j < i ==> earlier_windows@[j] != window,
        decreases earlier_windows@.len() - i,
    {
        if earlier_windows[i] == window {
            return None;
        }
        i = i + 1;
    }
    if !running {
        return None;
    }
    translate_key(key_code, shift)
}

/// Numbers for key monitors.
pub struct MonitorIds {
    next: u64,
}

impl MonitorIds {
    /// The number that is given out next.
    pub closed spec fn upcoming(&self) -> u64 {
        self.next
    }

    /// Numbers from 1 up.
    pub fn new() -> (r: Self)
        ensures
            r.upcoming() == 1,
    {
        MonitorIds { next: 1 }
    }
}

/// Gives out the next number. After the last one they start again at 0.
pub fn next_monitor_id(ids: &mut MonitorIds) -> (r: u64)
    ensures
        r == old(ids).upcoming(),
        final(ids).upcoming() == (if r == u64::MAX {
            0
        } else {
            r + 1
        }),
{
    let r: u64 = ids.next;
    ids.next = if r == u64::MAX {
        0
    } else {
        r + 1
    };
    r
}

// ------------------------------------------------------------ a playback

/// How far a video playback has come: each stage waits for one call.
#[derive(Debug, Clone, Copy, PartialEq, Eq, Structural)]
pub enum VideoStage {
    /// mpv is to be set up.
    Build,
    /// The keys are to be bound.
    BindKeys,
    /// The file is to be opened.
    Load,
    /// mpv's events are to be followed to the end.
    Pump,
    /// The host's window is to be closed.
    CloseWindow,
    Done,
}

/// The stage after one whose call succeeded or failed. On macOS the window
/// belongs to the host: it is closed at the end, and stays if a file does not
/// open. Elsewhere it belongs to mpv and goes with it.
pub fn next_video_stage(platform: Platform, stage: VideoStage, ok: bool) -> (r: VideoStage)
    ensures
        r == (match stage {
            VideoStage::Build => if ok {
                VideoStage::BindKeys
            } else if platform == Platform::MacOs {
                VideoStage::CloseWindow
            } else {
                VideoStage::Done
            },
            VideoStage::BindKeys => VideoStage::Load,
            VideoStage::Load => if ok || platform == Platform::MacOs {
                VideoStage::Pump
            } else {
                VideoStage::Done
            },
            VideoStage::Pump => if platform == Platform::MacOs {
                VideoStage::CloseWindow
            } else {
                VideoStage::Done
            },
            VideoStage::CloseWindow => VideoStage::Done,
            VideoStage::Done => VideoStage::Done,
        }),
{
    let mac: bool = platform == Platform::MacOs;
    match stage {
        VideoStage::Build => if ok {
            VideoStage::BindKeys
        } else if mac {
            VideoStage::CloseWindow
        } else {
            VideoStage::Done
        },
        VideoStage::BindKeys => VideoStage::Load,
        VideoStage::Load => if ok || mac {
            VideoStage::Pump
        } else {
            VideoStage::Done
        },
        VideoStage::Pump => if mac {
            VideoStage::CloseWindow
        } else {
            VideoStage::Done
        },
        VideoStage::CloseWindow => VideoStage::Done,
        VideoStage::Done => VideoStage::Done,
    }
}

/// What waiting for mpv came to.
#[derive(Debug, Clone, Copy, PartialEq, Eq, Structural)]
pub enum MpvEvent {
    EndFile,
    Shutdown,
    Other,
    Failed,
    /// Nothing happened for a while.
    Quiet,
}

/// Whether the playback is over after an event.
pub fn ends_playback(event: MpvEvent) -> (r: bool)
    ensures
        r == (event == MpvEvent::EndFile || event == MpvEvent::Shutdown),
{
    match event {
        MpvEvent::EndFile => true,
        MpvEvent::Shutdown => true,
        _ => false,
    }
}

// ------------------------------------------------------------ OpenGL on macOS

/// The pixel format attributes that a rendering context is asked for.
#[derive(Debug, Clone, Copy, PartialEq, Eq, Structural)]
pub enum CGLPixelFormatAttribute {
    /// Ends a list of attributes.
    End,
    Accelerated,
    DoubleBuffer,
    ColorSize,
    ColorFloat,
    OpenGLProfile,
    AllowOfflineRenderers,
    SupportsAutomaticGraphicsSwitching,
}

impl CGLPixelFormatAttribute {
    /// The number of the attribute in the system's interface.
    pub fn code(self) -> (r: u32)
        ensures
            r == (match self {
                CGLPixelFormatAttribute::End => 0u32,
                CGLPixelFormatAttribute::Accelerated => 73,
                CGLPixelFormatAttribute::DoubleBuffer => 5,
                CGLPixelFormatAttribute::ColorSize => 8,
                CGLPixelFormatAttribute::ColorFloat => 58,
                CGLPixelFormatAttribute::OpenGLProfile => 99,
                CGLPixelFormatAttribute::AllowOfflineRenderers => 96,
                CGLPixelFormatAttribute::SupportsAutomaticGraphicsSwitching => 101,
            }),
    {
        match self {
            CGLPixelFormatAttribute::End => 0,
            CGLPixelFormatAttribute::Accelerated => 73,
            CGLPixelFormatAttribute::DoubleBuffer => 5,
            CGLPixelFormatAttribute::ColorSize => 8,
            CGLPixelFormatAttribute::ColorFloat => 58,
            CGLPixelFormatAttribute::OpenGLProfile => 99,
            CGLPixelFormatAttribute::AllowOfflineRenderers => 96,
            CGLPixelFormatAttribute::SupportsAutomaticGraphicsSwitching => 101,
        }
    }
}

// ------------------------------------------------------------ laws

/// An id names hardware exactly where a UID stands behind `coreaudio/` or it
/// starts with `alsa/hw:`.
pub proof fn law_hardware_ids(id: Seq<char>, uid: Seq<char>)
    ensures
        uid.len() > 0 ==> names_hardware("coreaudio/"@ + uid),
        !names_hardware("coreaudio/"@),
        names_hardware("alsa/hw:"@ + uid),
        !text::starts(id, "coreaudio/"@) && !text::starts(id, "alsa/hw:"@) ==> !names_hardware(id),
{
    reveal_strlit("coreaudio/");
    reveal_strlit("alsa/hw:");
    text::law_prefix(id, "coreaudio/"@, uid);
    text::law_prefix(id, "coreaudio/"@, Seq::empty());
    text::law_prefix(id, "alsa/hw:"@, uid);
    assert("coreaudio/"@ + Seq::empty() =~= "coreaudio/"@);
    assert("coreaudio/"@[0] == 'c' && "alsa/hw:"@[0] == 'a');
    let a = "alsa/hw:"@ + uid;
    assert(a[0] == 'a');
    if text::starts(a, "coreaudio/"@) {
        assert(a.take(10)[0] == 'c');
    }
}

/// The outputs with a mark are all that have it, in the order in which they are
/// listed, each with its own id and description.
pub proof fn law_marked_outputs(a: Seq<RawDevice>, b: Seq<RawDevice>, d: RawDevice, mark: bool)
    ensures
        with_mark(Seq::empty(), mark) == Seq::<AudioDevice>::empty(),
        with_mark(seq![d], mark) == (if names_hardware(d.name@) == mark {
            seq![AudioDevice { id: d.name, description: d.description, bitperfect: mark }]
        } else {
            Seq::empty()
        }),
        with_mark(a + b, mark) == with_mark(a, mark) + with_mark(b, mark),
    decreases b.len(),
{
    assert(seq![d].drop_last() =~= Seq::empty());
    assert(with_mark(Seq::<RawDevice>::empty(), mark) =~= Seq::empty());
    assert(with_mark(seq![d], mark) =~= (if names_hardware(d.name@) == mark {
        seq![AudioDevice { id: d.name, description: d.description, bitperfect: mark }]
    } else {
        Seq::empty()
    }));
    if b.len() == 0 {
        assert(a + b =~= a);
        assert(with_mark(a + b, mark) =~= with_mark(a, mark) + with_mark(b, mark));
    } else {
        law_marked_outputs(a, b.drop_last(), d, mark);
        assert((a + b).drop_last() =~= a + b.drop_last());
        assert(with_mark(a + b, mark) =~= with_mark(a, mark) + with_mark(b, mark));
    }
}

/// The output that is picked has no mixer before it, and none listed before it is
/// so; if none is picked, there is none.
pub proof fn law_picked_output(devices: Seq<AudioDevice>)
    ensures
        match first_bitperfect(devices) {
            Some(d) => exists|i: int|
                {
                    &&& 0 <= i < devices.len()
                    &&& #[trigger] devices[i] == d
                    &&& d.bitperfect
                    &&& forall|j: int| 0 <= j < i ==> !(#[trigger] devices[j]).bitperfect
                },
            None => forall|j: int| 0 <= j < devices.len() ==> !(#[trigger] devices[j]).bitperfect,
        },
    decreases devices.len(),
{
    if devices.len() > 0 && !devices[0].bitperfect {
        let rest = devices.skip(1);
        law_picked_output(rest);
        assert forall|j: int| 1 <= j < devices.len() implies #[trigger] devices[j] == rest[j - 1] by {}
        match first_bitperfect(rest) {
            Some(d) => {
                let k = choose|i: int|
                    {
                        &&& 0 <= i < rest.len()
                        &&& #[trigger] rest[i] == d
                        &&& d.bitperfect
                        &&& forall|j: int| 0 <= j < i ==> !(#[trigger] rest[j]).bitperfect
                    };
                assert(devices[k + 1] == rest[k]);
            },
            None => {},
        }
    }
}

/// A selected output shows by the description that is listed for its id, by the id
/// where none is, and as the default where nothing is selected.
pub proof fn law_output_labels(devices: Seq<AudioDevice>, id: Seq<char>, i: int)
    ensures
        label_of(devices, Seq::empty()) == "System default"@,
        id.len() > 0 && 0 <= i < devices.len() && devices[i].id@ == id && (forall|j: int|
            0 <= j < i ==> (#[trigger] devices[j]).id@ != id) ==> label_of(devices, id) == devices[i].description@,
        id.len() > 0 && (forall|j: int| 0 <= j < devices.len() ==> (#[trigger] devices[j]).id@ != id) ==> label_of(
            devices,
            id,
        ) == id,
    decreases devices.len(),
{
    if devices.len() > 0 {
        let rest = devices.skip(1);
        law_output_labels(rest, id, i - 1);
        if 0 < i < devices.len() && (forall|j: int| 0 <= j < i ==> (#[trigger] devices[j]).id@ != id) {
            assert(devices[0].id@ != id);
            assert forall|j: int| 0 <= j < i - 1 implies (#[trigger] rest[j]).id@ != id by {
                assert(rest[j] == devices[j + 1]);
            }
            assert(rest[i - 1] == devices[i]);
        }
        if forall|j: int| 0 <= j < devices.len() ==> (#[trigger] devices[j]).id@ != id {
            assert(devices[0].id@ != id);
            assert forall|j: int| 0 <= j < rest.len() implies (#[trigger] rest[j]).id@ != id by {
                assert(rest[j] == devices[j + 1]);
            }
        }
    }
}

/// A playback goes to the output that was chosen and, where the host gives one,
/// into its view; without a view mpv opens a window. High dynamic range and
/// hardware decoding are always asked for.
#[verifier::rlimit(50)]
pub proof fn law_mpv_setup(verbose: bool, view: i64, device: Seq<char>)
    ensures
        ({
            let full = mpv_setup(verbose, Some(view), Some(device));
            let bare = mpv_setup(verbose, None, None);
            &&& full.last() == ("audio-device"@, device, true)
            &&& full[full.len() - 2] == ("wid"@, text::signed_decimal(view as int), true)
            &&& full.len() == bare.len() + 1
            &&& bare.contains(("force-window"@, "yes"@, true))
            &&& full.contains(("vo"@, "gpu-next"@, true)) && bare.contains(("vo"@, "gpu-next"@, true))
            &&& full.contains(("hwdec"@, "auto-safe"@, true)) && bare.contains(("hwdec"@, "auto-safe"@, true))
            &&& full.contains(("target-colorspace-hint"@, "yes"@, true)) && bare.contains(
                ("target-colorspace-hint"@, "yes"@, true),
            )
            &&& mpv_setup(verbose, None, Some(device)) == bare.push(("audio-device"@, device, true))
        }),
{
    let full = mpv_setup(verbose, Some(view), Some(device));
    let bare = mpv_setup(verbose, None, None);
    assert(full[2] == ("vo"@, "gpu-next"@, true) && bare[2] == full[2]);
    assert(full[3] == ("hwdec"@, "auto-safe"@, true) && bare[3] == full[3]);
    assert(full[4] == ("target-colorspace-hint"@, "yes"@, true) && bare[4] == full[4]);
    assert(bare[6] == ("force-window"@, "yes"@, true));
    assert(mpv_setup(verbose, None, Some(device)) =~= bare.push(("audio-device"@, device, true)));
}

/// A command with its argument as mpv reads it from a binding.
pub open spec fn spelled(c: (Seq<char>, Option<Seq<char>>)) -> Seq<char> {
    match c.1 {
        Some(arg) => c.0 + " "@ + arg,
        None => c.0,
    }
}

/// A key does the same on macOS, where it comes as a key code, as where mpv has it
/// bound by its name: the arrows seek by five seconds and by a minute, the space
/// bar pauses, escape and `q` quit, and so on.
#[verifier::rlimit(50)]
pub proof fn law_keys_do_the_same_everywhere(shift: bool)
    ensures
        key_bindings().contains(("SPACE"@, spelled(command_for(49, shift)->0))),
        key_bindings().contains(("LEFT"@, spelled(command_for(123, shift)->0))),
        key_bindings().contains(("RIGHT"@, spelled(command_for(124, shift)->0))),
        key_bindings().contains(("DOWN"@, spelled(command_for(125, shift)->0))),
        key_bindings().contains(("UP"@, spelled(command_for(126, shift)->0))),
        key_bindings().contains(("ESC"@, spelled(command_for(53, shift)->0))),
        key_bindings().contains(("q"@, spelled(command_for(12, shift)->0))),
        key_bindings().contains(("f"@, spelled(command_for(3, shift)->0))),
        key_bindings().contains(("m"@, spelled(command_for(46, shift)->0))),
        key_bindings().contains(("a"@, spelled(command_for(0, shift)->0))),
        key_bindings().contains(("s"@, spelled(command_for(1, shift)->0))),
        key_bindings().contains(("i"@, spelled(command_for(34, false)->0))),
        key_bindings().contains(("I"@, spelled(command_for(34, true)->0))),
        spelled(command_for(123, shift)->0) == "seek -5"@,
        spelled(command_for(124, shift)->0) == "seek 5"@,
        spelled(command_for(125, shift)->0) == "seek -60"@,
        spelled(command_for(126, shift)->0) == "seek 60"@,
        spelled(command_for(49, shift)->0) == "cycle pause"@,
        spelled(command_for(53, shift)->0) == "quit"@ && spelled(command_for(12, shift)->0) == "quit"@,
{
    reveal_strlit(" ");
    reveal_strlit("cycle");
    reveal_strlit("seek");
    reveal_strlit("pause");
    reveal_strlit("fullscreen");
    reveal_strlit("mute");
    reveal_strlit("audio");
    reveal_strlit("sub");
    reveal_strlit("-5");
    reveal_strlit("5");
    reveal_strlit("-60");
    reveal_strlit("60");
    reveal_strlit("script-binding");
    reveal_strlit("stats/display-stats");
    reveal_strlit("stats/display-stats-toggle");
    reveal_strlit("cycle pause");
    reveal_strlit("seek -5");
    reveal_strlit("seek 5");
    reveal_strlit("seek 60");
    reveal_strlit("seek -60");
    reveal_strlit("cycle fullscreen");
    reveal_strlit("cycle mute");
    reveal_strlit("cycle audio");
    reveal_strlit("cycle sub");
    reveal_strlit("script-binding stats/display-stats");
    reveal_strlit("script-binding stats/display-stats-toggle");
    assert("cycle"@ + " "@ + "pause"@ =~= "cycle pause"@);
    assert("seek"@ + " "@ + "-5"@ =~= "seek -5"@);
    assert("seek"@ + " "@ + "5"@ =~= "seek 5"@);
    assert("seek"@ + " "@ + "60"@ =~= "seek 60"@);
    assert("seek"@ + " "@ + "-60"@ =~= "seek -60"@);
    assert("cycle"@ + " "@ + "fullscreen"@ =~= "cycle fullscreen"@);
    assert("cycle"@ + " "@ + "mute"@ =~= "cycle mute"@);
    assert("cycle"@ + " "@ + "audio"@ =~= "cycle audio"@);
    assert("cycle"@ + " "@ + "sub"@ =~= "cycle sub"@);
    assert("script-binding"@ + " "@ + "stats/display-stats"@ =~= "script-binding stats/display-stats"@);
    assert("script-binding"@ + " "@ + "stats/display-stats-toggle"@
        =~= "script-binding stats/display-stats-toggle"@);
    let k = key_bindings();
    assert(k[0] == ("SPACE"@, "cycle pause"@));
    assert(k[1] == ("LEFT"@, "seek -5"@));
    assert(k[2] == ("RIGHT"@, "seek 5"@));
    assert(k[3] == ("UP"@, "seek 60"@));
    assert(k[4] == ("DOWN"@, "seek -60"@));
    assert(k[5] == ("f"@, "cycle fullscreen"@));
    assert(k[6] == ("m"@, "cycle mute"@));
    assert(k[7] == ("a"@, "cycle audio"@));
    assert(k[8] == ("s"@, "cycle sub"@));
    assert(k[9] == ("i"@, "script-binding stats/display-stats"@));
    assert(k[10] == ("I"@, "script-binding stats/display-stats-toggle"@));
    assert(k[11] == ("q"@, "quit"@));
    assert(k[12] == ("ESC"@, "quit"@));
}

/// No other key code is taken.
pub proof fn law_other_keys_are_left_alone(key_code: u16, shift: bool)
    requires
        key_code != 49 && key_code != 123 && key_code != 124 && key_code != 125 && key_code != 126 && key_code
            != 53 && key_code != 12 && key_code != 3 && key_code != 46 && key_code != 0 && key_code != 1
            && key_code != 34,
    ensures
        command_for(key_code, shift) is None,
{
}

} // verus!
