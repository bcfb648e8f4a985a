use jlfine::engine::{
    drain_step, lay_out, on_decoded, on_packet, play_blocking, prefill, prefill_step, prefill_target,
    prepare_dop, prepare_pcm, push_all, push_step, ring_capacity, write_turn, AudioEngine, Cmd, DecodeAction,
    DecodeEvent, Drain, DsdPump, Error, Layout, PacketEvent, Platform, Prefill, ProbedTrack, PumpStep,
    PushStep, Route, Worker, WriteTurn,
};
use jlfine::dsf::DsfReader;

fn play(engine: &mut AudioEngine, url: &str) {
    engine.play_track(url.to_string(), Some("flac".to_string()), None, true);
}

#[test]
fn commands_come_out_in_order() {
    let mut e = AudioEngine::default();
    assert!(e.next_command().is_none());
    play(&mut e, "a");
    e.stop();
    play(&mut e, "b");
    match e.next_command() {
        Some(Cmd::Play(r)) => {
            assert_eq!(r.url, "a");
            assert_eq!(r.container.as_deref(), Some("flac"));
            assert_eq!(r.audio_device, None);
            assert!(r.exclusive);
        }
        other => panic!("{:?}", other),
    }
    assert!(matches!(e.next_command(), Some(Cmd::Stop)));
    assert!(matches!(e.next_command(), Some(Cmd::Play(r)) if r.url == "b"));
    assert!(e.next_command().is_none());
}

#[test]
fn the_worker_runs_one_playback_at_a_time() {
    let mut e = AudioEngine::new();
    let mut w = Worker::new();
    play(&mut e, "a");
    play(&mut e, "b");
    e.stop();
    e.stop();
    let mut running = 0;
    let mut seen = Vec::new();
    while let Some(c) = e.next_command() {
        let plan = w.on_command(c);
        assert_eq!(plan.cancel, plan.join);
        if plan.join {
            running -= 1;
        }
        if let Some(r) = plan.start {
            running += 1;
            seen.push(r.url);
        }
        assert!(running == 0 || running == 1);
    }
    assert_eq!(seen, vec!["a", "b"]);
    assert_eq!(running, 0);
}

fn route(container: Option<&str>, platform: Platform) -> Route {
    play_blocking(&container.map(|s| s.to_string()), platform)
}

#[test]
fn containers_choose_the_path() {
    assert!(matches!(route(Some("flac"), Platform::MacOs), Route::Pcm));
    assert!(matches!(route(None, Platform::Linux), Route::Pcm));
    assert!(matches!(route(Some("DSF"), Platform::MacOs), Route::Dop));
    assert!(matches!(route(Some("flac"), Platform::Other), Route::Fail(Error::Unsupported)));
    match route(Some("dFf"), Platform::MacOs) {
        Route::Fail(e) => {
            assert_eq!(e.message(), "audio backend: unsupported DSD container: dff")
        }
        other => panic!("{:?}", other),
    }
    for p in [Platform::Linux, Platform::Other] {
        match route(Some("dsf"), p) {
            Route::Fail(e) => assert_eq!(
                e.message(),
                "audio backend: DSD playback not yet implemented on this platform"
            ),
            other => panic!("{:?}", other),
        }
    }
}

#[test]
fn engine_errors_in_words() {
    assert_eq!(Error::Download("x".into()).message(), "download failed: x");
    assert_eq!(Error::Io("x".into()).message(), "io: x");
    assert_eq!(Error::Decode("x".into()).message(), "decode: x");
    assert_eq!(
        Error::Unsupported.message(),
        "audio playback is unsupported on this platform"
    );
}

#[test]
fn probing_needs_a_track_with_rate_and_channels() {
    let why = |t: Option<ProbedTrack>| match prepare_pcm(t) {
        Err(e) => e.message(),
        Ok(_) => panic!("expected an error"),
    };
    assert_eq!(why(None), "decode: no default track");
    let t = ProbedTrack { id: 3, sample_rate: None, channels: Some(2) };
    assert_eq!(why(Some(t)), "decode: missing sample rate");
    let t = ProbedTrack { id: 3, sample_rate: Some(8), channels: None };
    assert_eq!(why(Some(t)), "decode: missing channels");
    let t = ProbedTrack { id: 3, sample_rate: Some(8), channels: Some(2) };
    let s = prepare_pcm(Some(t)).ok().unwrap();
    assert_eq!((s.track_id, s.sample_rate, s.channels), (3, 8, 2));
    assert_eq!(s.producer.slots(), 32);
    assert_eq!(ring_capacity(176_400, 2), 705_600);
}

fn small_ring() -> jlfine::engine::PcmStream {
    prepare_pcm(Some(ProbedTrack { id: 0, sample_rate: Some(2), channels: Some(1) })).ok().unwrap()
}

#[test]
fn samples_pass_through_the_ring_in_order() {
    // Room for four samples.
    let mut s = small_ring();
    let samples: Vec<u32> = (1..=6).collect();
    let mut done = 0;
    assert_eq!(push_all(&mut s.producer, &samples, &mut done, true), PushStep::Cancelled);
    assert_eq!(done, 0);
    assert_eq!(push_all(&mut s.producer, &samples, &mut done, false), PushStep::Again);
    assert_eq!(done, 4);
    assert_eq!(push_all(&mut s.producer, &samples, &mut done, false), PushStep::Wait);
    assert!(matches!(write_turn(&mut s.consumer, Layout::Plain, 3, true, false), WriteTurn::Stop));
    match write_turn(&mut s.consumer, Layout::Plain, 3, false, false) {
        WriteTurn::Write(v) => assert_eq!(v, vec![1, 2, 3]),
        other => panic!("{:?}", other),
    }
    assert_eq!(push_all(&mut s.producer, &samples, &mut done, false), PushStep::Done);
    assert_eq!(push_all(&mut s.producer, &samples, &mut done, false), PushStep::Done);
    match write_turn(&mut s.consumer, Layout::DopHigh, 9, false, true) {
        WriteTurn::Write(v) => assert_eq!(v, vec![0x400, 0x500, 0x600]),
        other => panic!("{:?}", other),
    }
    assert!(matches!(write_turn(&mut s.consumer, Layout::Plain, 3, false, false), WriteTurn::Wait));
    assert!(matches!(write_turn(&mut s.consumer, Layout::Plain, 3, false, true), WriteTurn::Stop));
}

#[test]
fn an_ended_stream_is_written_to_the_last_sample() {
    for (layout, shift) in [(Layout::Plain, 0), (Layout::DopHigh, 8)] {
        // Room for twenty samples, of which seventeen are used.
        let t = ProbedTrack { id: 0, sample_rate: Some(5), channels: Some(2) };
        let mut s = prepare_pcm(Some(t)).ok().unwrap();
        let samples: Vec<u32> = (100..117).collect();
        let mut done = 0;
        assert_eq!(push_all(&mut s.producer, &samples, &mut done, false), PushStep::Done);
        let mut written: Vec<u32> = Vec::new();
        let mut turns = 0;
        while let WriteTurn::Write(v) = write_turn(&mut s.consumer, layout, 5, false, true) {
            written.extend(v);
            turns += 1;
        }
        assert_eq!(turns, 4);
        assert_eq!(written, samples.iter().map(|x| x << shift).collect::<Vec<u32>>());
        assert_eq!(s.consumer.slots(), 0);
    }
}

#[test]
fn attempts_to_write_are_judged() {
    assert_eq!(push_step(false, 0, 0), PushStep::Done);
    assert_eq!(push_step(true, 0, 0), PushStep::Done);
    assert_eq!(push_step(true, 3, 0), PushStep::Cancelled);
    assert_eq!(push_step(false, 3, 0), PushStep::Wait);
    assert_eq!(push_step(false, 3, 2), PushStep::Again);
    assert_eq!(push_step(false, 3, 3), PushStep::Done);
}

#[test]
fn the_device_starts_when_enough_is_buffered() {
    assert_eq!(prefill_target(44_100, 2), 17_640);
    assert_eq!(prefill_step(true, true, 9, 5, 9_000), Prefill::Abort);
    assert_eq!(prefill_step(false, true, 0, 5, 0), Prefill::Ready);
    assert_eq!(prefill_step(false, false, 5, 5, 0), Prefill::Ready);
    assert_eq!(prefill_step(false, false, 4, 5, 5_000), Prefill::Wait);
    assert_eq!(prefill_step(false, false, 4, 5, 5_001), Prefill::Ready);
    let mut s = small_ring();
    assert_eq!(prefill(&mut s.consumer, false, false, 2, 0), Prefill::Wait);
    let mut done = 0;
    push_all(&mut s.producer, &vec![7, 8], &mut done, false);
    assert_eq!(prefill(&mut s.consumer, false, false, 2, 0), Prefill::Ready);
    assert_eq!(prefill(&mut s.consumer, true, false, 2, 0), Prefill::Abort);
}

#[test]
fn the_write_loop_decides_by_what_waits() {
    assert_eq!(drain_step(true, false, 5, 2), Drain::Stop);
    assert_eq!(drain_step(false, true, 0, 2), Drain::Stop);
    assert_eq!(drain_step(false, false, 0, 2), Drain::Wait);
    assert_eq!(drain_step(false, true, 1, 2), Drain::Take(1));
    assert_eq!(drain_step(false, false, 5, 2), Drain::Take(2));
}

#[test]
fn layouts() {
    assert_eq!(lay_out(Layout::Plain, vec![0x05_AB_CD, 1]), vec![0x05_AB_CD, 1]);
    assert_eq!(lay_out(Layout::DopHigh, vec![0x05_AB_CD, 1]), vec![0x05_AB_CD_00, 0x100]);
}

#[test]
fn decoding_goes_on_or_ends() {
    assert_eq!(on_packet(PacketEvent::Packet(1), 1), DecodeAction::Proceed);
    assert_eq!(on_packet(PacketEvent::Packet(2), 1), DecodeAction::Skip);
    for e in [PacketEvent::Eof, PacketEvent::ResetRequired, PacketEvent::Failed] {
        assert_eq!(on_packet(e, 1), DecodeAction::End);
    }
    assert_eq!(on_decoded(DecodeEvent::Samples), DecodeAction::Proceed);
    assert_eq!(on_decoded(DecodeEvent::Damaged), DecodeAction::Skip);
    assert_eq!(on_decoded(DecodeEvent::Fatal), DecodeAction::End);
}

fn dsf_stream(sample_count: u64, block_size: u32, payload: &[u8]) -> Vec<u8> {
    let mut buf = Vec::new();
    buf.extend_from_slice(b"DSD ");
    buf.extend_from_slice(&28u64.to_le_bytes());
    buf.extend_from_slice(&[0; 16]);
    buf.extend_from_slice(b"fmt ");
    buf.extend_from_slice(&52u64.to_le_bytes());
    for v in [1u32, 0, 2, 2, 2_822_400, 8] {
        buf.extend_from_slice(&v.to_le_bytes());
    }
    buf.extend_from_slice(&sample_count.to_le_bytes());
    buf.extend_from_slice(&block_size.to_le_bytes());
    buf.extend_from_slice(&0u32.to_le_bytes());
    buf.extend_from_slice(b"data");
    buf.extend_from_slice(&0u64.to_le_bytes());
    buf.extend_from_slice(payload);
    buf
}

#[test]
fn a_dsf_stream_turns_into_dop_frames() {
    let buf = dsf_stream(40, 5, &[1, 2, 3, 4, 5, 11, 12, 13, 14, 15]);
    let mut s = prepare_dop(&buf).ok().unwrap();
    assert_eq!((s.pcm_rate, s.channels), (176_400, 2));
    assert_eq!(s.producer.slots(), 705_600);
    let mut frames = Vec::new();
    loop {
        match s.pump.step(false) {
            PumpStep::Frame(f) => frames.push(f),
            PumpStep::End => break,
            PumpStep::NeedInput => panic!("all of it was there"),
        }
    }
    // The fifth byte of each channel has no partner.
    assert_eq!(frames, vec![vec![0x05_01_02, 0x05_0B_0C], vec![0xFA_03_04, 0xFA_0D_0E]]);
}

#[test]
fn the_pump_waits_for_input_in_the_middle_of_a_frame() {
    let buf = dsf_stream(32, 1, &[1, 11, 2]);
    let mut p = DsdPump::new(DsfReader::new(&buf).ok().unwrap());
    assert!(matches!(p.step(false), PumpStep::NeedInput));
    p.feed(&[12, 3]);
    assert!(matches!(p.step(false), PumpStep::Frame(f) if f == vec![0x05_01_02, 0x05_0B_0C]));
    assert!(matches!(p.step(false), PumpStep::NeedInput));
    assert!(matches!(p.step(true), PumpStep::End));
}

#[test]
fn a_broken_dsf_header_is_a_decode_error() {
    match prepare_dop(b"RIFF") {
        Err(e) => assert_eq!(
            e.message(),
            "decode: dsf header: not a DSF stream (bad magic [82, 73, 70, 70])"
        ),
        Ok(_) => panic!("expected an error"),
    }
}
