use jlfine::engine::{prepare_pcm, push_all, Layout, Platform, Prefill, ProbedTrack};
use jlfine::hal::{
    self, asbd_compatible, asbd_matches_target, dop_format, fill_pcm, is_finished, is_over, on_direct_read,
    physical_format_supported, select_device, wanted_uid, DirectRead, DopPlayer, HalDevice, HalError,
    HalEvent, HalKind, HalSession, HalStage, NamedDevice, Teardown,
};
use jlfine::linux::{
    self, upgrade_to_hw, AlsaAction, AlsaError, AlsaEvent, AlsaPlayback, AlsaStage, SampleFormat,
    StreamKind,
};
use jlfine::video::{
    build_mpv, default_keybindings, ends_playback, is_bitperfect, key_pressed, list_audio_devices,
    next_monitor_id, next_video_stage, pick_bitperfect, resolve_device_label, translate_key,
    CGLPixelFormatAttribute, Error, MonitorIds, MpvEvent, RawDevice, VideoStage,
};

fn some(s: &str) -> Option<String> {
    Some(s.to_string())
}

// ------------------------------------------------------------ ALSA

#[test]
fn exclusive_devices_are_traced_to_hardware() {
    let ok = |id: &str| linux::resolve_device(&some(id), true).ok();
    assert_eq!(ok("alsa/hw:1,0").as_deref(), Some("hw:1,0"));
    assert_eq!(ok("alsa/front:CARD=x20,DEV=3").as_deref(), Some("hw:CARD=x20,DEV=3"));
    assert_eq!(ok("alsa/sysdefault:CARD=X").as_deref(), Some("hw:CARD=X,DEV=0"));
    for id in ["alsa/pipewire", "alsa/default", "alsa/", "pulse", "coreaudio/x", "alsa/front:DEV=1"] {
        match linux::resolve_device(&some(id), true) {
            Err(AlsaError::NotBitperfect(raw)) => assert_eq!(raw, id),
            other => panic!("{:?}", other),
        }
    }
    assert!(matches!(linux::resolve_device(&None, true), Err(AlsaError::NotBitperfect(s)) if s.is_empty()));
}

#[test]
fn shared_devices_are_opened_as_named() {
    let got = |id: Option<String>| linux::resolve_device(&id, false).ok().unwrap();
    assert_eq!(got(some("alsa/pipewire")), "pipewire");
    assert_eq!(got(some("alsa/front:CARD=x20")), "front:CARD=x20");
    assert_eq!(got(some("alsa/")), "default");
    assert_eq!(got(some("coreaudio/x")), "default");
    assert_eq!(got(None), "default");
}

#[test]
fn upgrading_takes_the_first_of_each_parameter() {
    assert_eq!(upgrade_to_hw("p:A=1,CARD=a,DEV=2,CARD=b").as_deref(), Some("hw:CARD=a,DEV=2"));
    assert_eq!(upgrade_to_hw("p:CARD=").as_deref(), Some("hw:CARD=,DEV=0"));
    assert_eq!(upgrade_to_hw("p:x:CARD=a"), None);
    assert_eq!(upgrade_to_hw("CARD=a"), None);
}

fn alsa(kind: StreamKind) -> AlsaPlayback {
    AlsaPlayback::start(kind, 48_000, 2, &some("alsa/hw:1,0"), true).ok().unwrap()
}

#[test]
fn dsd_refuses_a_shared_device() {
    for kind in [StreamKind::Dop, StreamKind::DsdNative] {
        assert!(matches!(
            AlsaPlayback::start(kind, 176_400, 2, &some("alsa/hw:1,0"), false),
            Err(AlsaError::DopRequiresExclusive)
        ));
    }
    assert!(AlsaPlayback::start(StreamKind::Pcm, 44_100, 2, &None, false).is_ok());
    assert!(matches!(
        AlsaPlayback::start(StreamKind::Pcm, 44_100, 2, &None, true),
        Err(AlsaError::NotBitperfect(_))
    ));
}

#[test]
fn a_pcm_playback_runs_through_its_stages() {
    let mut p = alsa(StreamKind::Pcm);
    assert!(matches!(p.action(), AlsaAction::Open(d) if d == "hw:1,0"));
    p.on_event(AlsaEvent::Done);
    assert!(matches!(p.action(), AlsaAction::Probe(SampleFormat::FloatLe)));
    p.on_event(AlsaEvent::Refused("no".into()));
    assert!(matches!(p.action(), AlsaAction::Probe(SampleFormat::S32Le)));
    p.on_event(AlsaEvent::Done);
    assert!(matches!(
        p.action(),
        AlsaAction::Configure {
            format: SampleFormat::S32Le,
            rate: 48_000,
            channels: 2,
            buffer_frames: 4096,
            period_frames: 1024
        }
    ));
    p.on_event(AlsaEvent::EndOfStream);
    assert!(matches!(p.stage, AlsaStage::Configuring(SampleFormat::S32Le)));
    p.on_event(AlsaEvent::Done);
    p.on_event(AlsaEvent::Looked(Prefill::Wait));
    assert!(matches!(p.action(), AlsaAction::Prefill));
    p.on_event(AlsaEvent::Looked(Prefill::Ready));
    assert!(matches!(p.action(), AlsaAction::Prepare));
    p.on_event(AlsaEvent::Done);
    assert!(matches!(p.action(), AlsaAction::Pump(SampleFormat::S32Le)));
    p.on_event(AlsaEvent::WriteFailed);
    assert!(matches!(p.action(), AlsaAction::Recover));
    p.on_event(AlsaEvent::Done);
    p.on_event(AlsaEvent::EndOfStream);
    assert!(matches!(p.action(), AlsaAction::Drain));
    p.on_event(AlsaEvent::Failed("ignored".into()));
    assert!(matches!(p.action(), AlsaAction::Finish(None)));
    p.on_event(AlsaEvent::Done);
    assert!(matches!(p.stage, AlsaStage::Finished(None)));
    assert_eq!(p.prefill_target(), 19_200);
    assert_eq!(p.chunk_samples(), 2_048);
    assert_eq!(p.layout(), Layout::Plain);
}

fn failure_after(kind: StreamKind, events: Vec<AlsaEvent>) -> Option<AlsaError> {
    let mut p = alsa(kind);
    for e in events {
        p.on_event(e);
    }
    match p.action() {
        AlsaAction::Finish(e) => e,
        other => panic!("{:?}", other),
    }
}

#[test]
fn a_playback_fails_with_the_error_of_its_stage() {
    let failed = || AlsaEvent::Failed("why".into());
    let done = || AlsaEvent::Done;
    let refused = || AlsaEvent::Refused("no".into());
    let pcm = StreamKind::Pcm;
    assert!(matches!(failure_after(pcm, vec![failed()]), Some(AlsaError::Open(w)) if w == "why"));
    assert!(matches!(
        failure_after(pcm, vec![done(), refused(), refused(), refused()]),
        Some(AlsaError::UnsupportedFormat)
    ));
    assert!(matches!(
        failure_after(pcm, vec![done(), failed()]),
        Some(AlsaError::UnsupportedFormat)
    ));
    assert!(matches!(
        failure_after(pcm, vec![done(), done(), failed()]),
        Some(AlsaError::HwParams(_))
    ));
    assert!(matches!(
        failure_after(StreamKind::Dop, vec![done(), refused()]),
        Some(AlsaError::UnsupportedFormat)
    ));
    assert!(matches!(
        failure_after(pcm, vec![done(), done(), refused()]),
        Some(AlsaError::HwParams(w)) if w == "no"
    ));
    assert!(failure_after(pcm, vec![done(), done(), done(), AlsaEvent::Looked(Prefill::Abort)]).is_none());
    let ready = || AlsaEvent::Looked(Prefill::Ready);
    assert!(matches!(
        failure_after(pcm, vec![done(), done(), done(), ready(), failed()]),
        Some(AlsaError::Open(_))
    ));
    assert!(matches!(
        failure_after(
            pcm,
            vec![done(), done(), done(), ready(), done(), AlsaEvent::WriteFailed, failed()]
        ),
        Some(AlsaError::Write(_))
    ));
}

#[test]
fn dsd_playbacks_have_a_fixed_format() {
    let mut p = alsa(StreamKind::Dop);
    p.on_event(AlsaEvent::Done);
    assert!(matches!(p.action(), AlsaAction::Configure { format: SampleFormat::S32Le, .. }));
    assert_eq!(p.layout(), Layout::DopHigh);
    let mut p = alsa(StreamKind::DsdNative);
    p.on_event(AlsaEvent::Done);
    assert!(matches!(p.action(), AlsaAction::Configure { format: SampleFormat::DsdU32Be, .. }));
    assert_eq!(p.layout(), Layout::Plain);
}

// ------------------------------------------------------------ CoreAudio

#[test]
fn a_uid_is_looked_up_among_the_devices() {
    assert_eq!(wanted_uid(&some("coreaudio/abc")).as_deref(), Some("abc"));
    assert_eq!(wanted_uid(&some("coreaudio/")), None);
    assert_eq!(wanted_uid(&some("alsa/hw:1")), None);
    assert_eq!(wanted_uid(&None), None);
    let devices = vec![
        HalDevice { id: 1, uid: None },
        HalDevice { id: 2, uid: some("abc") },
        HalDevice { id: 3, uid: some("abc") },
    ];
    assert_eq!(hal::resolve_device(&some("abc"), &devices), Some(2));
    assert_eq!(hal::resolve_device(&some("x"), &devices), None);
    assert_eq!(hal::resolve_device(&None, &devices), None);
}

#[test]
fn a_device_is_found_by_part_of_its_name() {
    let devices = vec![
        NamedDevice { id: 7, name: None },
        NamedDevice { id: 8, name: some("Built-in Output") },
        NamedDevice { id: 9, name: some("XDUOO USB") },
        NamedDevice { id: 10, name: some("Über") },
    ];
    assert_eq!(select_device(&devices, "xDuoo"), Some(9));
    assert_eq!(select_device(&devices, "ÜBER"), Some(10));
    assert_eq!(select_device(&devices, "in"), Some(8));
    assert_eq!(select_device(&devices, "none"), None);
}

#[test]
fn dop_is_24_bits_high_in_32_and_never_mixed() {
    let f = dop_format(2);
    assert_eq!(f.format_id, u32::from_be_bytes(*b"lpcm"));
    assert_eq!(f.flags, 4 | 16 | 64);
    assert_eq!((f.bytes_per_packet, f.bytes_per_frame), (8, 8));
    assert_eq!((f.frames_per_packet, f.channels, f.bits_per_channel), (1, 2, 24));
    assert!(asbd_matches_target(&f, &f, true));
    assert!(!asbd_matches_target(&f, &f, false));
    let mut other = f;
    other.flags = 4 | 8;
    assert!(!asbd_matches_target(&other, &f, true));
    assert!(asbd_compatible(&other, &f, true));
    assert!(!asbd_compatible(&other, &f, false));
    let mut float = f;
    float.flags |= 1;
    assert!(!asbd_compatible(&float, &f, true));
    let mut narrow = f;
    narrow.bits_per_channel = 16;
    assert!(!physical_format_supported(&vec![(narrow, true), (other, false)], &f));
    assert!(physical_format_supported(&vec![(narrow, true), (other, true)], &f));
    assert!(!physical_format_supported(&vec![], &f));
}

fn ring_with(samples: Vec<u32>) -> jlfine::engine::PcmStream {
    let t = ProbedTrack { id: 0, sample_rate: Some(8), channels: Some(2) };
    let mut s = prepare_pcm(Some(t)).ok().unwrap();
    let mut done = 0;
    push_all(&mut s.producer, &samples, &mut done, false);
    s
}

#[test]
fn pcm_buffers_are_filled_up_with_silence() {
    let mut s = ring_with(vec![1, 2, 3, 4, 5]);
    let f = fill_pcm(&mut s.consumer, 4, 2, true);
    assert_eq!((f.samples, f.frames), (vec![0; 4], 0));
    let f = fill_pcm(&mut s.consumer, 4, 2, false);
    assert_eq!((f.samples, f.frames), (vec![1, 2, 3, 4], 2));
    assert!(!is_finished(&mut s.consumer, true));
    let f = fill_pcm(&mut s.consumer, 4, 2, false);
    assert_eq!((f.samples, f.frames), (vec![5, 0, 0, 0], 0));
    assert!(is_finished(&mut s.consumer, true));
    assert!(!is_finished(&mut s.consumer, false));
    assert!(is_over(true, 0) && !is_over(true, 1) && !is_over(false, 0));
}

#[test]
fn dop_buffers_keep_their_markers_through_an_underrun() {
    // One frame and a half: the half stays in the ring.
    let mut s = ring_with(vec![0xAA_11_22, 0xAA_33_44, 0xAA_55_66]);
    let mut p = DopPlayer::new(2);
    let bytes = p.fill(&mut s.consumer, 17);
    assert_eq!(
        bytes,
        vec![
            0, 0x22, 0x11, 0x05, 0, 0x44, 0x33, 0x05, //
            0, 0x69, 0x96, 0xFA, 0, 0x69, 0x96, 0xFA
        ]
    );
    assert_eq!(p.next_marker, 0x05);
    let mut done = 0;
    push_all(&mut s.producer, &vec![0x77_88], &mut done, false);
    let bytes = p.fill(&mut s.consumer, 8);
    assert_eq!(bytes, vec![0, 0x66, 0x55, 0x05, 0, 0x88, 0x77, 0x05]);
    assert_eq!(p.next_marker, 0xFA);
}

#[test]
fn direct_reads_end_with_silence() {
    let read = |status, frames| on_direct_read(33, 2, status, frames);
    assert_eq!(read(0, 4), DirectRead { silent_from: 33, frames: 4, finished: false });
    assert_eq!(read(0, 3), DirectRead { silent_from: 24, frames: 3, finished: true });
    assert_eq!(read(0, 0), DirectRead { silent_from: 0, frames: 0, finished: true });
    assert_eq!(read(-50, 4), DirectRead { silent_from: 0, frames: 0, finished: true });
}

#[test]
fn a_shared_playback_only_runs_the_device() {
    let mut s = HalSession::start(HalKind::Pcm, false, 42).unwrap();
    assert_eq!(s.stage, HalStage::Prefill);
    s.on_event(HalEvent::Looked(Prefill::Wait));
    s.on_event(HalEvent::Looked(Prefill::Ready));
    assert_eq!(s.stage, HalStage::CreateProc);
    s.on_event(HalEvent::Done);
    assert_eq!(s.teardown(false), vec![Teardown::DestroyProc]);
    s.on_event(HalEvent::Done);
    assert_eq!(s.stage, HalStage::Playing);
    s.on_event(HalEvent::Over);
    assert_eq!(s.stage, HalStage::Ended(None));
    assert_eq!(s.teardown(false), vec![Teardown::StopDevice, Teardown::DestroyProc]);
}

#[test]
fn an_exclusive_playback_takes_the_device_and_gives_it_back() {
    let mut s = HalSession::start(HalKind::Pcm, true, 42).unwrap();
    s.on_event(HalEvent::Looked(Prefill::Ready));
    s.on_event(HalEvent::HogOwner(-1));
    assert_eq!(s.stage, HalStage::TakeHog);
    s.on_event(HalEvent::Done);
    for stage in [HalStage::ReadRate, HalStage::SetRate, HalStage::CheckRate, HalStage::CreateProc] {
        assert_eq!(s.stage, stage);
        s.on_event(HalEvent::Done);
    }
    s.on_event(HalEvent::Failed(-5));
    assert_eq!(s.stage, HalStage::Ended(Some(HalError::StartDevice(-5))));
    assert_eq!(s.teardown(false), vec![Teardown::DestroyProc, Teardown::ReleaseHog]);
}

#[test]
fn a_device_that_is_taken_is_refused() {
    let mut s = HalSession::start(HalKind::Dop, true, 42).unwrap();
    s.on_event(HalEvent::HogOwner(7));
    assert_eq!(s.stage, HalStage::Ended(Some(HalError::HogBusy(7))));
    assert!(s.teardown(false).is_empty());
    let mut s = HalSession::start(HalKind::Dop, true, 42).unwrap();
    s.on_event(HalEvent::HogOwner(42));
    assert_eq!(s.stage, HalStage::FindStream);
    assert_eq!(s.teardown(false), vec![Teardown::ReleaseHog]);
    assert_eq!(
        HalSession::start(HalKind::Dop, false, 42).err(),
        Some(HalError::DopRequiresExclusive)
    );
}

#[test]
fn a_dop_playback_restores_the_format_it_changed() {
    let mut s = HalSession::start(HalKind::Dop, true, 42).unwrap();
    s.on_event(HalEvent::HogOwner(-1));
    s.on_event(HalEvent::Failed(-1)); // goes on without the lock
    assert!(!s.took_hog);
    s.on_event(HalEvent::Done);
    s.on_event(HalEvent::Supported(true));
    s.on_event(HalEvent::AlreadySet(false));
    assert_eq!(s.stage, HalStage::SetFormat);
    s.on_event(HalEvent::Done);
    assert_eq!(s.stage, HalStage::Settle);
    s.on_event(HalEvent::Done);
    s.on_event(HalEvent::Done);
    s.on_event(HalEvent::Done);
    s.on_event(HalEvent::Over);
    assert_eq!(
        s.teardown(false),
        vec![Teardown::StopDevice, Teardown::DestroyProc, Teardown::RestoreFormat]
    );
    assert_eq!(s.teardown(true), vec![Teardown::StopDevice, Teardown::DestroyProc]);
}

#[test]
fn a_dop_playback_fails_with_the_error_of_its_stage() {
    let end = |events: Vec<HalEvent>| {
        let mut s = HalSession::start(HalKind::Dop, true, 42).unwrap();
        s.on_event(HalEvent::HogOwner(42));
        for e in events {
            s.on_event(e);
        }
        s.stage
    };
    let failed = |e| HalStage::Ended(Some(e));
    let done = HalEvent::Done;
    assert_eq!(end(vec![HalEvent::NoStream]), failed(HalError::NoOutputStream));
    assert_eq!(end(vec![HalEvent::Failed(1)]), failed(HalError::EnumerateStreams(1)));
    assert_eq!(
        end(vec![done, HalEvent::Supported(false)]),
        failed(HalError::PhysicalFormatUnsupported)
    );
    assert_eq!(
        end(vec![done, HalEvent::Failed(2)]),
        failed(HalError::EnumeratePhysicalFormats(2))
    );
    let yes = HalEvent::Supported(true);
    assert_eq!(end(vec![done, yes, HalEvent::Failed(3)]), failed(HalError::GetPhysicalFormat(3)));
    assert_eq!(
        end(vec![done, yes, HalEvent::AlreadySet(false), HalEvent::Failed(4)]),
        failed(HalError::SetPhysicalFormat(4))
    );
    let set = HalEvent::AlreadySet(true);
    assert_eq!(
        end(vec![done, yes, set, done, HalEvent::Failed(5)]),
        failed(HalError::CreateIoProc(5))
    );
}

// ------------------------------------------------------------ mpv

fn raw(name: &str) -> RawDevice {
    RawDevice { name: name.to_string(), description: format!("the {}", name) }
}

#[test]
fn hardware_outputs_come_first() {
    assert!(is_bitperfect("coreaudio/uid"));
    assert!(!is_bitperfect("coreaudio/"));
    assert!(is_bitperfect("alsa/hw:1,0"));
    assert!(!is_bitperfect("alsa/plughw:1,0"));
    assert!(!is_bitperfect("pulse"));
    let list = list_audio_devices(&vec![raw("auto"), raw("alsa/hw:1"), raw("pulse"), raw("alsa/hw:0")]);
    let ids: Vec<&str> = list.iter().map(|d| d.id.as_str()).collect();
    assert_eq!(ids, vec!["alsa/hw:1", "alsa/hw:0", "auto", "pulse"]);
    assert_eq!(list[0].description, "the alsa/hw:1");
    assert!(list[1].bitperfect && !list[2].bitperfect);
    assert_eq!(pick_bitperfect(&list).unwrap().id, "alsa/hw:1");
    assert!(pick_bitperfect(&list_audio_devices(&vec![raw("pulse")])).is_none());
    assert_eq!(resolve_device_label(&list, ""), "System default");
    assert_eq!(resolve_device_label(&list, "pulse"), "the pulse");
    assert_eq!(resolve_device_label(&list, "gone"), "gone");
    assert_eq!(Error::Mpv("init: x".into()).message(), "mpv: init: x");
}

#[test]
fn mpv_is_set_up_for_a_window_or_a_view() {
    let own = build_mpv(false, None, Some("alsa/hw:1"));
    let get = |v: &Vec<jlfine::video::MpvProperty>, n: &str| {
        v.iter().find(|p| p.name == n).map(|p| (p.value.clone(), p.required))
    };
    assert_eq!(own.len(), 17);
    assert_eq!(get(&own, "force-window"), Some(("yes".to_string(), true)));
    assert_eq!(get(&own, "msg-level"), Some(("all=warn".to_string(), true)));
    assert_eq!(get(&own, "input-default-bindings"), Some(("yes".to_string(), false)));
    assert_eq!(get(&own, "audio-device"), Some(("alsa/hw:1".to_string(), true)));
    assert_eq!(get(&own, "wid"), None);
    let view = build_mpv(true, Some(-7), None);
    assert_eq!(view.len(), 16);
    assert_eq!(get(&view, "force-window"), None);
    assert_eq!(get(&view, "wid"), Some(("-7".to_string(), true)));
    assert_eq!(get(&view, "msg-level").unwrap().0, "cplayer=info,vo=v,vd=v,placebo=v");
    assert_eq!(view.last().unwrap().name, "wid");
}

#[test]
fn keys_control_mpv() {
    let bindings = default_keybindings();
    assert_eq!(bindings.len(), 17);
    assert_eq!(bindings[0], ("SPACE".to_string(), "cycle pause".to_string()));
    assert_eq!(bindings[16], ("WHEEL_DOWN".to_string(), "seek -5".to_string()));
    let c = translate_key(49, false).unwrap();
    assert_eq!((c.name, c.arg), ("cycle", Some("pause")));
    let c = translate_key(12, true).unwrap();
    assert_eq!((c.name, c.arg), ("quit", None));
    assert_eq!(translate_key(34, true).unwrap().arg, Some("stats/display-stats-toggle"));
    assert_eq!(translate_key(34, false).unwrap().arg, Some("stats/display-stats"));
    assert!(translate_key(2, false).is_none());
    assert!(key_pressed(5, &vec![4, 5], true, 49, false).is_none());
    assert!(key_pressed(6, &vec![4, 5], false, 49, false).is_none());
    assert_eq!(key_pressed(6, &vec![4, 5], true, 126, false).unwrap().arg, Some("60"));
}

#[test]
fn monitor_ids_count_up() {
    let mut ids = MonitorIds::new();
    assert_eq!(next_monitor_id(&mut ids), 1);
    assert_eq!(next_monitor_id(&mut ids), 2);
}

#[test]
fn a_video_playback_closes_the_window_of_the_host() {
    let run = |platform, fails: VideoStage| {
        let mut s = VideoStage::Build;
        let mut seen = vec![s];
        while s != VideoStage::Done {
            s = next_video_stage(platform, s, s != fails);
            seen.push(s);
        }
        seen
    };
    assert_eq!(run(Platform::Linux, VideoStage::Done), vec![VideoStage::Build, VideoStage::BindKeys, VideoStage::Load, VideoStage::Pump, VideoStage::Done]);
    assert_eq!(run(Platform::Linux, VideoStage::Load), vec![VideoStage::Build, VideoStage::BindKeys, VideoStage::Load, VideoStage::Done]);
    assert_eq!(run(Platform::Linux, VideoStage::Build), vec![VideoStage::Build, VideoStage::Done]);
    assert_eq!(run(Platform::MacOs, VideoStage::Load), vec![VideoStage::Build, VideoStage::BindKeys, VideoStage::Load, VideoStage::Pump, VideoStage::CloseWindow, VideoStage::Done]);
    assert_eq!(run(Platform::MacOs, VideoStage::Build), vec![VideoStage::Build, VideoStage::CloseWindow, VideoStage::Done]);
    assert!(ends_playback(MpvEvent::EndFile) && ends_playback(MpvEvent::Shutdown));
    assert!(!ends_playback(MpvEvent::Other) && !ends_playback(MpvEvent::Quiet));
}

#[test]
fn pixel_format_attributes_have_their_numbers() {
    assert_eq!(CGLPixelFormatAttribute::End.code(), 0);
    assert_eq!(CGLPixelFormatAttribute::Accelerated.code(), 73);
    assert_eq!(CGLPixelFormatAttribute::SupportsAutomaticGraphicsSwitching.code(), 101);
}
