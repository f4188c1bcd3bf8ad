//! Sessions: decoding, routing, the socket, what is kept.

use larmindon::asr::nemotron::{load_error, NemotronBackend};
use larmindon::asr::soniox::backend::SonioxBackend;
use larmindon::asr::soniox::client::{
    Inbound, Incoming, Outbound, SocketAction, SocketEvent, SocketPhase, SocketSession,
    SonioxClient, SonioxConfig,
};
use larmindon::asr::soniox::protocol::{pcm_s16le, SonioxResponse, SonioxToken};
use larmindon::asr::{
    create_backend, ActivitySource, AsrCapabilities, AsrError, AudioGating, BackendChoice,
    CachedBackend, SegmentIds, TranscriptUpdate,
};
use larmindon::audio_capture::wasapi_process::{
    executable_name, process_id, take_full_frames, SessionList,
};
use larmindon::audio_capture::windows_composite::{combined_devices, routes_to_process};
use larmindon::audio_capture::{session_info, AudioDevice, DeviceType};
use larmindon::audio_engine::{
    command_steps, session_device, speech_active, AudioEngine, CommandKind, EngineStep,
    JoinOutcome, LoopAction, LoopEvent, LoopPhase, SessionLoop,
};
use larmindon::decoder::{ChunkResult, ChunkSource, DecoderAction, Step};
use larmindon::settings::Settings;
use larmindon::vad::{VadDecision, VadState};
use std::collections::VecDeque;

fn settings() -> Settings {
    let mut s = Settings::defaults("/diag".to_string());
    s.chunk_ms = 80;
    s.empty_reset_threshold = 2;
    s
}

fn heard(text: &str) -> ChunkResult {
    ChunkResult { text: Ok(text.to_string()), inference_ms: 7, uptime_ms: 11 }
}

fn summary(step: &Step<i32>) -> Vec<String> {
    step.actions
        .iter()
        .map(|a| match a {
            DecoderAction::LogTranscribe { chunk_num, is_empty, source, .. } => {
                format!("log {chunk_num} {is_empty} {}", *source == ChunkSource::Live)
            }
            DecoderAction::LogError { message, .. } => format!("error {message}"),
            DecoderAction::LogPunctuationReset { chunks_since_reset, .. } => {
                format!("punctuation {chunks_since_reset}")
            }
            DecoderAction::LogMidSpeechReset { replay_chunks, replay_nonempty_chunks, .. } => {
                format!("stuck {replay_chunks} {replay_nonempty_chunks}")
            }
            DecoderAction::LogSpeechEnd { end, .. } => format!("end {}", end.speech_duration_ms),
            DecoderAction::ResetModel => "reset".to_string(),
            DecoderAction::Emit(u) => format!("{}:{}", u.segment_id, u.text),
        })
        .collect()
}

#[test]
fn nemotron_backend_recognizes_chunk_by_chunk() {
    let mut b: NemotronBackend<i32> = NemotronBackend::new();
    let mut ids = SegmentIds::new();
    assert!(b.needs_model());
    match b.process(VadState::Silence) {
        Err(AsrError::Fatal(m)) => assert_eq!(m, "Nemotron model not loaded"),
        _ => panic!("nothing runs without a model"),
    }
    b.begin_session(&settings());
    assert!(!b.needs_model());
    b.mark_speech_start();
    b.push_audio(&vec![1; 3000]);
    let step = b.process(VadState::Speech).unwrap();
    assert_eq!(step.request.as_ref().map(|c| c.len()), Some(1280));
    let step = b.resume(heard("Hello there."), &mut ids);
    assert_eq!(summary(&step), ["log 1 false true", "punctuation 1", "reset", "1:Hello there."]);
    assert!(step.request.is_some());
    let failed = ChunkResult { text: Err("oops".into()), inference_ms: 1, uptime_ms: 1 };
    let step = b.resume(failed, &mut ids);
    assert_eq!(summary(&step), ["error oops"]);
    assert!(step.request.is_none());
    assert!(b.is_idle());
    assert_eq!(b.buffered(), (440, 1280));
    assert_eq!(b.chunks_processed(), 1);
}

#[test]
fn nemotron_backend_recovers_a_stuck_decoder_by_replaying() {
    let mut b: NemotronBackend<i32> = NemotronBackend::new();
    let mut ids = SegmentIds::new();
    b.begin_session(&settings());
    b.mark_speech_start();
    b.push_audio(&(0..2560).collect::<Vec<i32>>());
    let step = b.process(VadState::Speech).unwrap();
    assert!(step.request.is_some());
    let step = b.resume(heard(""), &mut ids);
    assert_eq!(summary(&step), ["log 1 true true"]);
    let step = b.resume(heard(""), &mut ids);
    assert_eq!(summary(&step), ["log 2 true true", "reset"]);
    assert_eq!(step.request.unwrap()[0], 0);
    let step = b.resume(heard("text"), &mut ids);
    assert_eq!(summary(&step), ["log 3 false false", "1:text"]);
    assert_eq!(step.request.unwrap()[0], 1280);
    let step = b.resume(heard(""), &mut ids);
    assert_eq!(summary(&step), ["log 4 true false", "stuck 2 1"]);
    assert!(step.request.is_none());
}

#[test]
fn nemotron_backend_resets_once_the_segment_has_been_run() {
    let mut b: NemotronBackend<i32> = NemotronBackend::new();
    let mut ids = SegmentIds::new();
    b.begin_session(&settings());
    b.push_audio(&[5; 100]);
    b.mark_speech_end(50, 320, 0);
    assert_eq!(b.buffered(), (1280, 1280));
    assert!(b.process(VadState::Silence).unwrap().request.is_some());
    let step = b.resume(heard("tail"), &mut ids);
    assert_eq!(summary(&step), ["log 1 false true", "1:tail", "end 320", "reset"]);
    assert!(b.end_session().is_empty());
    match load_error("no file") {
        AsrError::Fatal(m) => assert_eq!(m, "Failed to load Nemotron model: no file"),
        AsrError::Transient(_) => panic!("a missing model is fatal"),
    }
}

#[test]
fn backends_are_chosen_by_provider() {
    let cached = CachedBackend { id: "nemotron", cacheable: true };
    assert_eq!(create_backend("nemotron", Some(cached)).unwrap(), BackendChoice::Reuse);
    assert_eq!(create_backend("nemotron", None).unwrap(), BackendChoice::NewNemotron);
    let other = CachedBackend { id: "soniox", cacheable: true };
    assert_eq!(create_backend("nemotron", Some(other)).unwrap(), BackendChoice::NewNemotron);
    assert_eq!(create_backend("soniox", Some(other)).unwrap(), BackendChoice::NewSoniox);
    match create_backend("x", None) {
        Err(AsrError::Fatal(m)) => assert_eq!(m, "Unknown transcription provider 'x'"),
        _ => panic!("an unknown provider is fatal"),
    }
}

fn caps(audio_gating: AudioGating) -> AsrCapabilities {
    AsrCapabilities {
        revises_output: false,
        diarization: false,
        audio_gating,
        activity_source: ActivitySource::Vad,
    }
}

fn names(actions: &[LoopAction<i32>]) -> Vec<String> {
    actions
        .iter()
        .map(|a| match a {
            LoopAction::CheckStop => "stop?".to_string(),
            LoopAction::CheckSettings => "settings?".to_string(),
            LoopAction::Drain => "drain".to_string(),
            LoopAction::Poll => "poll".to_string(),
            LoopAction::Sleep => "sleep".to_string(),
            LoopAction::Condition(s) => format!("condition {}", s.len()),
            LoopAction::Judge(s) => format!("judge {}", s[0]),
            LoopAction::MarkSpeechStart => "mark start".to_string(),
            LoopAction::LogSpeechStart { pre_samples, .. } => format!("log start {pre_samples}"),
            LoopAction::PushAudio(s) => format!("push {}", s.len()),
            LoopAction::MarkSpeechEnd { speech_duration_ms, .. } => {
                format!("mark end {speech_duration_ms}")
            }
            LoopAction::ReadClock => "clock".to_string(),
            LoopAction::EmitLevel { speech_active } => format!("level {speech_active}"),
            LoopAction::Process { .. } => "process".to_string(),
            LoopAction::Emit(u) => format!("emit {}", u.len()),
            LoopAction::LogBackendError { fatal, message } => format!("log {fatal} {message}"),
            LoopAction::Warn(m) => format!("warn {m}"),
            LoopAction::Fail(m) => format!("fail {m}"),
            LoopAction::EndSession => "end session".to_string(),
            LoopAction::LogShutdown => "log shutdown".to_string(),
            LoopAction::Return => "return".to_string(),
            LoopAction::Abort(m) => format!("abort {m}"),
        })
        .collect()
}

fn until_judging(l: &mut SessionLoop<i32>, samples: Vec<i32>) {
    l.step(LoopEvent::Began(Ok(())));
    l.step(LoopEvent::Stop(false));
    l.step(LoopEvent::SettingsApplied);
    l.step(LoopEvent::Drained { samples: samples.clone(), resample_chunk: 0 });
    l.step(LoopEvent::Conditioned(samples));
    assert_eq!(l.phase(), LoopPhase::Judging);
}

fn judged(decision: Option<VadDecision<i32>>, uptime_ms: i64) -> LoopEvent<i32> {
    LoopEvent::Judged { decision, uptime_ms }
}

#[test]
fn gated_backend_gets_speech_with_its_onset() {
    let mut l: SessionLoop<i32> = SessionLoop::new(&caps(AudioGating::VadGated), 16000, 0);
    until_judging(&mut l, vec![1; 512 * 5]);
    let mut tell = |e: LoopEvent<i32>| names(&l.step(e));
    assert_eq!(tell(judged(Some(VadDecision::Silence), 1)), ["judge 1"]);
    assert_eq!(tell(judged(None, 2)), ["judge 1"]);
    assert_eq!(
        tell(judged(Some(VadDecision::SpeechStarted { pre_speech_samples: vec![0; 9] }), 3)),
        ["mark start", "log start 9", "push 9", "push 512", "judge 1"]
    );
    assert_eq!(tell(judged(Some(VadDecision::SpeechContinues), 4)), ["push 512", "judge 1"]);
    assert_eq!(
        tell(judged(Some(VadDecision::SpeechEnded), 10)),
        ["push 512", "mark end 7", "clock"]
    );
    assert_eq!(
        tell(LoopEvent::Clock { now_ms: 50, vad_state: VadState::Speech, last_speech_at: None }),
        ["level true", "process"]
    );
}

#[test]
fn continuous_backend_gets_every_frame_once() {
    let mut l: SessionLoop<i32> = SessionLoop::new(&caps(AudioGating::Continuous), 16000, 0);
    until_judging(&mut l, vec![1; 512 * 4]);
    let mut tell = |e: LoopEvent<i32>| names(&l.step(e));
    assert_eq!(tell(judged(Some(VadDecision::Silence), 1)), ["push 512", "judge 1"]);
    assert_eq!(tell(judged(None, 2)), ["push 512", "judge 1"]);
    assert_eq!(
        tell(judged(Some(VadDecision::SpeechStarted { pre_speech_samples: vec![0; 9] }), 3)),
        ["push 512", "mark start", "log start 9", "judge 1"]
    );
    assert_eq!(
        tell(judged(Some(VadDecision::SpeechEnded), 10)),
        ["push 512", "mark end 7", "clock"]
    );
    // The meter is not due yet.
    assert_eq!(
        tell(LoopEvent::Clock { now_ms: 49, vad_state: VadState::Speech, last_speech_at: None }),
        ["process"]
    );
}

#[test]
fn transient_errors_keep_the_session_and_fatal_ones_end_it() {
    let mut l: SessionLoop<i32> = SessionLoop::new(&caps(AudioGating::VadGated), 16000, 0);
    let mut tell = |e: LoopEvent<i32>| names(&l.step(e));
    tell(LoopEvent::Began(Ok(())));
    tell(LoopEvent::Stop(false));
    tell(LoopEvent::SettingsApplied);
    let nothing = || LoopEvent::Drained { samples: Vec::new(), resample_chunk: 0 };
    assert_eq!(tell(nothing()), ["poll"]);
    assert_eq!(
        tell(LoopEvent::Polled(Err(AsrError::Transient("dropped".into())))),
        ["log false dropped", "warn dropped", "sleep"]
    );
    assert_eq!(tell(LoopEvent::Slept), ["stop?"]);
    tell(LoopEvent::Stop(false));
    tell(LoopEvent::SettingsApplied);
    tell(nothing());
    assert_eq!(
        tell(LoopEvent::Polled(Err(AsrError::Fatal("rejected".into())))),
        ["log true rejected", "fail Transcription error: rejected", "end session"]
    );
    assert_eq!(tell(LoopEvent::Ended(Ok(Vec::new()))), ["return"]);
}

#[test]
fn stopping_emits_what_is_left() {
    let mut l: SessionLoop<i32> = SessionLoop::new(&caps(AudioGating::VadGated), 48000, 0);
    let mut tell = |e: LoopEvent<i32>| names(&l.step(e));
    tell(LoopEvent::Began(Ok(())));
    assert_eq!(tell(LoopEvent::Stop(true)), ["end session"]);
    let last = TranscriptUpdate {
        segment_id: 1,
        is_final: true,
        text: "bye".into(),
        speaker: None,
    };
    assert_eq!(
        tell(LoopEvent::Ended(Ok(vec![last]))),
        ["emit 1", "log shutdown", "return"]
    );
    let mut l: SessionLoop<i32> = SessionLoop::new(&caps(AudioGating::VadGated), 48000, 0);
    assert_eq!(
        names(&l.step(LoopEvent::Began(Err(AsrError::Fatal("no model".into()))))),
        ["log true no model", "abort no model"]
    );
}

#[test]
fn commands_have_their_steps() {
    assert_eq!(
        command_steps(CommandKind::Start),
        [EngineStep::StopSession, EngineStep::StartSession]
    );
    assert_eq!(
        command_steps(CommandKind::UpdateSettings),
        [EngineStep::SetDiagnostics, EngineStep::ForwardSettings]
    );
    assert_eq!(command_steps(CommandKind::Reconnect), [EngineStep::SwapStream]);
}

fn device(id: &str, device_type: DeviceType) -> AudioDevice {
    AudioDevice {
        id: id.into(),
        name: id.into(),
        device_type,
        is_default: false,
        application_name: Some("app".into()),
    }
}

#[test]
fn a_session_needs_a_device() {
    assert_eq!(session_device(Some("x".into()), &[]), Ok("x".to_string()));
    assert_eq!(
        session_device(None, &[device("m", DeviceType::Monitor)]),
        Ok("m".to_string())
    );
    assert_eq!(
        session_device(None, &[device("a", DeviceType::Application)]),
        Err("No device available for capture".to_string())
    );
    let info = session_info("m".into(), &[device("m", DeviceType::Monitor)]);
    assert_eq!(info.device_id, Some("m".to_string()));
    assert_eq!(info.application_name, Some("app".to_string()));
    assert_eq!(info.device_type, Some(DeviceType::Monitor));
    assert!(session_info("gone".into(), &[]).device_type.is_none());
}

#[test]
fn models_are_kept_for_the_same_session_only() {
    let mut e = AudioEngine::new();
    e.session_started("/m".into(), (2, 1), "nemotron".into());
    assert!(e.can_reconnect());
    assert!(e.session_joined(JoinOutcome::Models { cacheable: true }).is_none());
    let used = e.take_cached("/m", (2, 1), "nemotron");
    assert!(used.backend && used.vad);
    e.session_started("/m".into(), (2, 1), "nemotron".into());
    e.session_joined(JoinOutcome::Models { cacheable: true });
    let used = e.take_cached("/m", (4, 1), "nemotron");
    assert!(!used.backend && !used.vad);
    e.session_started("/m".into(), (2, 1), "nemotron".into());
    assert_eq!(
        e.session_joined(JoinOutcome::Panicked),
        Some("Transcription thread crashed.".to_string())
    );
    let used = e.take_cached("/m", (2, 1), "nemotron");
    assert!(!used.backend && !used.vad);
}

#[test]
fn processes_are_listed_once_while_they_play() {
    let mut list = SessionList::new();
    assert_eq!(list.accept(Some(1), Some(42)), Some(42));
    list.list(42, Some("player.exe"));
    assert_eq!(list.accept(Some(1), Some(42)), None);
    assert_eq!(list.accept(Some(0), Some(7)), None);
    assert_eq!(list.accept(Some(1), None), None);
    let devices = list.into_devices();
    assert_eq!(devices.len(), 1);
    assert_eq!(devices[0].name, "[app] player.exe (PID 42)");
    assert_eq!(process_id(Some("proc:42")), Ok(42));
    assert_eq!(
        process_id(Some("42")),
        Err("Not a process device ID: 42".to_string())
    );
    assert_eq!(
        process_id(Some("proc:forty")),
        Err("Invalid process ID in device ID: proc:forty".to_string())
    );
    assert_eq!(
        process_id(None),
        Err("WASAPI process backend requires a device ID".to_string())
    );
    assert_eq!(executable_name("C:\\dir\\player.exe"), Some("player.exe".to_string()));
    assert!(routes_to_process(Some("proc:42")));
    assert!(!routes_to_process(Some("input:mic")));
    assert!(!routes_to_process(None));
    let both = combined_devices(vec![device("m", DeviceType::Monitor)], Some(devices));
    assert_eq!(both.len(), 2);
}

#[test]
fn whole_frames_leave_the_queue() {
    let mut queue: VecDeque<u8> = (0..=255u8).cycle().take(64_000).collect();
    let before = queue.len();
    let bytes = take_full_frames(&mut queue);
    assert_eq!(bytes.len() + queue.len(), before);
    assert_eq!(bytes.first().copied().unwrap_or(0), 0);
}

fn config(key: &str) -> SonioxConfig {
    SonioxConfig {
        api_key: key.into(),
        model: "stt-rt-v5".into(),
        language_hints: vec!["en".into()],
        diarization: true,
        endpoint_detection: true,
    }
}

#[test]
fn client_bounds_what_is_queued_and_finishes_once() {
    let mut c = SonioxClient::connect(&config("k")).unwrap_or_else(|_| panic!("a key is there"));
    assert!(matches!(
        c.send_audio(vec![0; 4], 2),
        Ok(Outbound::Audio { samples: 2, .. })
    ));
    assert_eq!(c.queued_samples(), 2);
    c.release(2);
    assert_eq!(c.queued_samples(), 0);
    assert!(c.send_audio(Vec::new(), 480_001).is_err());
    assert!(matches!(c.finish(), Some(Outbound::Finish)));
    assert!(c.finish().is_none());
    let request = config("k").start_request();
    assert_eq!(request.api_key, "k");
    assert_eq!(request.language_hints, ["en"]);
}

fn told(actions: &[SocketAction]) -> Vec<String> {
    actions
        .iter()
        .map(|a| match a {
            SocketAction::Connect => "connect".to_string(),
            SocketAction::SendStart => "start".to_string(),
            SocketAction::SendFrame { pcm } => format!("frame {}", pcm[0]),
            SocketAction::SendEndOfStream => "end".to_string(),
            SocketAction::SendPing => "ping".to_string(),
            SocketAction::Close => "close".to_string(),
            SocketAction::ArmWatchdog => "watchdog".to_string(),
            SocketAction::Release { samples } => format!("release {samples}"),
            SocketAction::Report(Inbound::Fatal(m)) => format!("fatal {m}"),
            SocketAction::Report(Inbound::Reconnecting(m)) => format!("reconnecting {m}"),
            SocketAction::Report(Inbound::Finished) => "finished".to_string(),
            SocketAction::Report(Inbound::Response(_)) => "response".to_string(),
            SocketAction::Wait => "wait".to_string(),
            SocketAction::TakeQueued => "take".to_string(),
            SocketAction::Sleep { ms } => format!("sleep {ms}"),
            SocketAction::KeepSleeping => "keep sleeping".to_string(),
            SocketAction::Stop => "stop".to_string(),
        })
        .collect()
}

fn audio(first: u8) -> SocketEvent {
    SocketEvent::Queued(Some(Outbound::Audio { pcm: vec![first, 0], samples: 1 }))
}

#[test]
fn socket_streams_audio_and_finishes() {
    let mut s = SocketSession::new();
    let mut tell = |e: SocketEvent| told(&s.step(e, 0));
    assert_eq!(tell(SocketEvent::Start), ["connect"]);
    assert_eq!(tell(SocketEvent::Connected), ["start"]);
    assert_eq!(tell(SocketEvent::Sent), ["wait"]);
    assert_eq!(tell(audio(5)), ["release 1", "frame 5"]);
    assert_eq!(tell(SocketEvent::Sent), ["wait"]);
    let words = || SonioxResponse { tokens: vec![SonioxToken::default()], ..Default::default() };
    assert_eq!(
        tell(SocketEvent::Incoming(Incoming::Text(Box::new(words())))),
        ["response", "wait"]
    );
    // Nothing to say is not worth a report.
    assert_eq!(
        tell(SocketEvent::Incoming(Incoming::Text(Box::new(SonioxResponse::default())))),
        ["wait"]
    );
    assert_eq!(tell(SocketEvent::PingDue), ["ping"]);
    assert_eq!(tell(SocketEvent::Sent), ["wait"]);
    // Everything queued goes out before the end of the stream.
    assert_eq!(tell(SocketEvent::Queued(Some(Outbound::Finish))), ["take"]);
    assert_eq!(tell(audio(6)), ["release 1", "frame 6"]);
    assert_eq!(tell(SocketEvent::Sent), ["take"]);
    assert_eq!(tell(SocketEvent::QueueEmpty), ["end"]);
    assert_eq!(tell(SocketEvent::Sent), ["watchdog", "wait"]);
    // Behind it nothing is part of the stream, and it is not ended twice.
    assert_eq!(tell(audio(7)), ["release 1", "wait"]);
    assert_eq!(tell(SocketEvent::Queued(Some(Outbound::Finish))), ["wait"]);
    let last = SonioxResponse { finished: true, ..words() };
    let done = tell(SocketEvent::Incoming(Incoming::Text(Box::new(last))));
    assert_eq!(done, ["response", "close", "finished", "stop"]);
    assert_eq!(s.phase(), SocketPhase::Done);
}

#[test]
fn socket_retries_and_gives_up_after_its_attempts() {
    let mut s = SocketSession::new();
    told(&s.step(SocketEvent::Start, 0));
    let mut attempts = 0;
    loop {
        let todo = told(&s.step(SocketEvent::ConnectTimedOut, 0));
        if todo.iter().any(|a| a == "stop") {
            assert!(todo.iter().any(|a| a.starts_with("fatal ")), "{todo:?}");
            break;
        }
        assert!(todo.iter().any(|a| a.starts_with("reconnecting ")), "{todo:?}");
        assert!(todo.iter().any(|a| a.starts_with("sleep ")), "{todo:?}");
        attempts += 1;
        assert!(attempts <= 5);
        told(&s.step(SocketEvent::BackoffElapsed, 0));
    }
    assert_eq!(attempts, 5);
    assert_eq!(s.phase(), SocketPhase::Done);
}

#[test]
fn soniox_backend_sends_staged_frames() {
    let mut b = SonioxBackend::new();
    b.push_audio(&[1, -1]);
    match b.take_frame() {
        Err(AsrError::Fatal(_)) => {}
        _ => panic!("no connection is open"),
    }
    let config = b.begin_session(&settings());
    assert_eq!(config.language_hints, ["en"]);
    b.connected();
    assert!(b.take_frame().unwrap_or_else(|_| panic!("open")).is_none());
    b.push_audio(&[1, -1]);
    let (pcm, samples) =
        b.take_frame().unwrap_or_else(|_| panic!("open")).expect("audio was staged");
    assert_eq!(samples, 2);
    assert_eq!(pcm, pcm_s16le(&[1, -1]));
    assert_eq!(pcm, [1, 0, 255, 255]);
}

/// Every chunk that a backend runs when its audio comes in the given deliveries.
fn chunks_run(deliveries: &[&[i32]]) -> Vec<Vec<i32>> {
    let mut b: NemotronBackend<i32> = NemotronBackend::new();
    let mut ids = SegmentIds::new();
    b.begin_session(&settings());
    b.mark_speech_start();
    let mut chunks = Vec::new();
    for delivery in deliveries {
        b.push_audio(delivery);
        let mut step = b.process(VadState::Speech).unwrap();
        while let Some(chunk) = step.request {
            chunks.push(chunk);
            step = b.resume(heard("word"), &mut ids);
        }
    }
    chunks
}

#[test]
fn chunks_do_not_depend_on_how_the_audio_was_delivered() {
    let audio: Vec<i32> = (0..4000).collect();
    let at_once = chunks_run(&[&audio]);
    assert_eq!(at_once.len(), 3);
    assert_eq!(at_once[2][0], 2560);
    assert_eq!(chunks_run(&[&audio[..1], &audio[1..1300], &audio[1300..]]), at_once);
    assert_eq!(chunks_run(&[&audio[..3999], &audio[3999..]]), at_once);
}

#[test]
fn captured_samples_wait_for_a_whole_resampler_chunk() {
    let mut l: SessionLoop<i32> = SessionLoop::new(&caps(AudioGating::VadGated), 48000, 0);
    l.step(LoopEvent::Began(Ok(())));
    l.step(LoopEvent::Stop(false));
    l.step(LoopEvent::SettingsApplied);
    let first = l.step(LoopEvent::Drained { samples: (0..7).collect(), resample_chunk: 4 });
    assert!(matches!(&first[..], [LoopAction::Condition(s)] if *s == [0, 1, 2, 3]));
    assert_eq!(names(&l.step(LoopEvent::Conditioned(Vec::new()))), ["clock"]);
    l.step(LoopEvent::Clock { now_ms: 0, vad_state: VadState::Silence, last_speech_at: None });
    l.step(LoopEvent::Processed(Ok(Vec::new())));
    l.step(LoopEvent::Stop(false));
    l.step(LoopEvent::SettingsApplied);
    let second = l.step(LoopEvent::Drained { samples: vec![7, 8], resample_chunk: 4 });
    assert!(matches!(&second[..], [LoopAction::Condition(s)] if *s == [4, 5, 6, 7]));
}

#[test]
fn a_meter_of_backend_evidence_fades() {
    let source = ActivitySource::Backend { hold_ms: 1500 };
    let active = |last, now| speech_active(source, VadState::Speech, last, now);
    assert!(!active(None, 0));
    assert!(active(Some(1000), 1000));
    assert!(active(Some(1000), 2499));
    assert!(!active(Some(1000), 2500));
    assert!(!speech_active(ActivitySource::Vad, VadState::Silence, Some(0), 0));
}

/// Everything that is done to the model and the transcript when audio comes in the
/// given deliveries and the model answers with the given texts.
fn deeds(deliveries: &[&[i32]], answers: &[&str]) -> Vec<String> {
    let mut b: NemotronBackend<i32> = NemotronBackend::new();
    let mut ids = SegmentIds::new();
    b.begin_session(&settings());
    b.mark_speech_start();
    let mut done = Vec::new();
    let mut next = answers.iter();
    for delivery in deliveries {
        b.push_audio(delivery);
        let mut step = b.process(VadState::Speech).unwrap();
        loop {
            for action in &step.actions {
                match action {
                    DecoderAction::ResetModel => done.push("reset".to_string()),
                    DecoderAction::Emit(u) => done.push(format!("{}:{}", u.segment_id, u.text)),
                    _ => {}
                }
            }
            let Some(chunk) = step.request else { break };
            done.push(format!("run {}", chunk[0]));
            step = b.resume(heard(next.next().unwrap()), &mut ids);
        }
    }
    done
}

#[test]
fn drain_boundaries_change_neither_resets_nor_replays_nor_text() {
    let audio: Vec<i32> = (0..6000).collect();
    // Two empty results in speech make the decoder start over and replay both chunks.
    let answers = ["", "", "Re", "played", "So.", "on"];
    let at_once = deeds(&[&audio], &answers);
    assert_eq!(
        at_once,
        [
            "run 0", "run 1280", "reset", "run 0", "1:Re", "run 1280", "2:played", "run 2560",
            "reset", "3:So.", "run 3840", "4:on"
        ]
    );
    assert_eq!(deeds(&[&audio[..1300], &audio[1300..2000], &audio[2000..]], &answers), at_once);
    assert_eq!(deeds(&[&audio[..2560], &audio[2560..]], &answers), at_once);
}
