//! The Soniox backend: protocol, accumulation, sessions.

use larmindon::asr::soniox::accumulator::{ends_sentence, join_fragments, Accumulator};
use larmindon::asr::soniox::backend::{
    parse_language_hints, SonioxBackend, Teardown, SPEECH_HOLD_MS,
};
use larmindon::asr::soniox::client::{
    backoff, Inbound, SonioxClient, SonioxConfig, BACKOFF_CAP_MS,
};
use larmindon::asr::soniox::protocol::{
    pcm_s16le, SonioxResponse, SonioxToken, StartRequest,
};
use larmindon::asr::{ActivitySource, AsrError, AudioGating, SegmentIds};
use larmindon::bits::Double;
use larmindon::report::{Field, FieldValue};
use serde_json::Value;

fn token(text: &str, is_final: bool) -> SonioxToken {
    said(text, is_final, None)
}

fn said(text: &str, is_final: bool, speaker: Option<&str>) -> SonioxToken {
    SonioxToken {
        text: text.to_string(),
        is_final,
        speaker: speaker.map(str::to_string),
        ..Default::default()
    }
}

fn response(tokens: Vec<SonioxToken>) -> SonioxResponse {
    SonioxResponse { tokens, ..Default::default() }
}

fn text_of(v: &Value, key: &str) -> Option<String> {
    v.get(key).and_then(|x| x.as_str()).map(|x| x.to_string())
}

fn count_of(v: &Value, key: &str) -> Option<u64> {
    v.get(key).and_then(|x| x.as_u64())
}

fn flag_of(v: &Value, key: &str) -> bool {
    v.get(key).and_then(|x| x.as_bool()).unwrap_or(false)
}

fn parse_token(v: &Value) -> SonioxToken {
    SonioxToken {
        text: text_of(v, "text").unwrap_or_default(),
        start_ms: count_of(v, "start_ms"),
        end_ms: count_of(v, "end_ms"),
        confidence: v
            .get("confidence")
            .and_then(|x| x.as_f64())
            .map(|x| Double { bits: x.to_bits() }),
        is_final: flag_of(v, "is_final"),
        speaker: text_of(v, "speaker"),
        language: text_of(v, "language"),
        source_language: text_of(v, "source_language"),
        translation_status: text_of(v, "translation_status"),
    }
}

fn parse(s: &str) -> SonioxResponse {
    let v: Value = serde_json::from_str(s).expect("fixture parses");
    SonioxResponse {
        tokens: match v.get("tokens").and_then(|x| x.as_array()) {
            Some(tokens) => tokens.iter().map(parse_token).collect(),
            None => Vec::new(),
        },
        final_audio_proc_ms: count_of(&v, "final_audio_proc_ms").unwrap_or(0),
        total_audio_proc_ms: count_of(&v, "total_audio_proc_ms").unwrap_or(0),
        finished: flag_of(&v, "finished"),
        error_code: count_of(&v, "error_code").map(|x| x as u32),
        error_type: text_of(&v, "error_type"),
        error_message: text_of(&v, "error_message"),
        more_info: text_of(&v, "more_info"),
        request_id: text_of(&v, "request_id"),
    }
}

/// Scales to full range, as the capture side does before it hands samples over.
fn quantized(samples: &[f32]) -> Vec<i16> {
    samples.iter().map(|s| (s.clamp(-1.0, 1.0) * 32767.0) as i16).collect()
}

fn f32_to_pcm_s16le(samples: &[f32]) -> Vec<u8> {
    pcm_s16le(&quantized(samples))
}

fn rendered(fields: &[Field]) -> String {
    let mut out = String::new();
    for field in fields {
        let value = match &field.value {
            FieldValue::Text(t) => format!("{t:?}"),
            FieldValue::List(l) => format!("{l:?}"),
            FieldValue::Count(n) => format!("{n}"),
            FieldValue::Flag(b) => format!("{b}"),
            FieldValue::Number(n) => format!("{}", f32::from_bits(n.bits)),
        };
        out.push_str(&format!("{}: {}, ", field.name, value));
    }
    out
}

const EVOLUTION: [&str; 3] = [
    r#"{"tokens":[{"text":"How","start_ms":0,"end_ms":300,"confidence":0.81,"is_final":false,"speaker":"2","language":"en"}],"final_audio_proc_ms":0,"total_audio_proc_ms":320}"#,
    r#"{"tokens":[{"text":"How","start_ms":0,"end_ms":300,"confidence":0.98,"is_final":true,"speaker":"1","language":"en"},{"text":" are","start_ms":300,"end_ms":620,"confidence":0.87,"is_final":false,"speaker":"1","language":"en"}],"final_audio_proc_ms":300,"total_audio_proc_ms":620}"#,
    r#"{"tokens":[{"text":" are","start_ms":300,"end_ms":620,"confidence":0.96,"is_final":true,"speaker":"1","language":"en"},{"text":" you","start_ms":620,"end_ms":790,"confidence":0.88,"is_final":false,"speaker":"2","language":"en"}],"final_audio_proc_ms":620,"total_audio_proc_ms":790}"#,
];

const FINISHED: &str =
    r#"{"tokens":[],"final_audio_proc_ms":1560,"total_audio_proc_ms":1680,"finished":true}"#;

const SERVICE_UNAVAILABLE: &str = r#"{"tokens":[],"error_code":503,"error_type":"service_unavailable","error_message":"Cannot continue request. Please restart the request.","more_info":"https://soniox.com/docs/api-reference/errors#service-unavailable","request_id":"3d37a3bd-5078-47ee-a369-b204e3bbedda"}"#;

#[test]
fn sentence_splitting_keeps_decimals_intact() {
    assert!(!ends_sentence("3.14"));
    assert!(!ends_sentence("Pi is 3."));
    assert!(ends_sentence("That is all."));
    assert!(ends_sentence("Really?"));
    assert!(ends_sentence("Stop!"));
}

#[test]
fn sentence_splitting_allows_trailing_closers() {
    assert!(ends_sentence("he said \"the end.\""));
    assert!(ends_sentence("(that is all.)"));
    assert!(ends_sentence("done.'"));
}

#[test]
fn sentence_splitting_handles_cjk_terminators() {
    assert!(ends_sentence("这是结束。"));
    assert!(ends_sentence("真的吗？"));
}

#[test]
fn non_terminated_text_does_not_split() {
    assert!(!ends_sentence("unfinished thought"));
    assert!(!ends_sentence(""));
    assert!(!ends_sentence("wait, "));
}

#[test]
fn join_inserts_a_space_only_when_needed() {
    assert_eq!(join_fragments("hello", "world"), "hello world");
    assert_eq!(join_fragments("hello", " world"), "hello world");
    assert_eq!(join_fragments("hello ", "world"), "hello world");
    assert_eq!(join_fragments("hello", ","), "hello,");
    assert_eq!(join_fragments("hello", "!"), "hello!");
    assert_eq!(join_fragments("", "world"), "world");
}

#[test]
fn non_final_tail_is_replaced_wholesale_not_appended() {
    let mut ids = SegmentIds::new();
    let mut acc = Accumulator::new();

    let a = acc.ingest(&response(vec![said("How", false, Some("1"))]), &mut ids);
    let b = acc.ingest(&response(vec![said("How are", false, Some("1"))]), &mut ids);

    assert_eq!(a.len(), 1);
    assert_eq!(a[0].text, "How");
    assert_eq!(b[0].text, "How are");
    // Same open segment revised in place, not a second one.
    assert_eq!(a[0].segment_id, b[0].segment_id);
    assert!(!a[0].is_final && !b[0].is_final);
}

#[test]
fn final_tokens_accumulate_and_flush_on_sentence_end() {
    let mut ids = SegmentIds::new();
    let mut acc = Accumulator::new();

    acc.ingest(&response(vec![said("How", true, Some("1"))]), &mut ids);
    acc.ingest(&response(vec![said(" are", true, Some("1"))]), &mut ids);
    let out = acc.ingest(&response(vec![said(" you?", true, Some("1"))]), &mut ids);

    let finals: Vec<_> = out.iter().filter(|u| u.is_final).collect();
    assert_eq!(finals.len(), 1);
    assert_eq!(finals[0].text, "How are you?");
    assert_eq!(finals[0].speaker.as_ref().unwrap().0, "1");
}

#[test]
fn speaker_change_flushes_the_previous_turn() {
    let mut ids = SegmentIds::new();
    let mut acc = Accumulator::new();

    acc.ingest(&response(vec![said("Hello there", true, Some("1"))]), &mut ids);
    let out = acc.ingest(&response(vec![said(" Hi back", true, Some("2"))]), &mut ids);

    let finals: Vec<_> = out.iter().filter(|u| u.is_final).collect();
    assert_eq!(finals.len(), 1);
    assert_eq!(finals[0].text, "Hello there");
    assert_eq!(finals[0].speaker.as_ref().unwrap().0, "1");
}

#[test]
fn null_speaker_inherits_rather_than_clearing() {
    let mut ids = SegmentIds::new();
    let mut acc = Accumulator::new();

    acc.ingest(&response(vec![said("Hello", true, Some("1"))]), &mut ids);
    // Undiarized token must join the current turn, not split it.
    let out = acc.ingest(&response(vec![said(" there", true, None)]), &mut ids);

    assert!(out.iter().all(|u| !u.is_final), "no flush should occur");
    let finals = acc.finish(&mut ids);
    assert_eq!(finals.len(), 1);
    assert_eq!(finals[0].text, "Hello there");
    assert_eq!(finals[0].speaker.as_ref().unwrap().0, "1");
}

#[test]
fn end_marker_flushes_without_appearing_in_text() {
    let mut ids = SegmentIds::new();
    let mut acc = Accumulator::new();

    acc.ingest(
        &response(vec![said("No punctuation here", true, Some("1"))]),
        &mut ids,
    );
    let out = acc.ingest(&response(vec![said("<end>", true, Some("1"))]), &mut ids);

    let finals: Vec<_> = out.iter().filter(|u| u.is_final).collect();
    assert_eq!(finals.len(), 1);
    assert_eq!(finals[0].text, "No punctuation here");
    assert!(!finals[0].text.contains("<end>"));
}

#[test]
fn fin_marker_is_stripped_from_text() {
    let mut ids = SegmentIds::new();
    let mut acc = Accumulator::new();

    acc.ingest(&response(vec![said("Some words", true, None)]), &mut ids);
    acc.ingest(&response(vec![said("<fin>", true, None)]), &mut ids);
    let finals = acc.finish(&mut ids);

    assert_eq!(finals[0].text, "Some words");
}

#[test]
fn provisional_speaker_mislabel_self_corrects() {
    let mut ids = SegmentIds::new();
    let mut acc = Accumulator::new();

    // "How" arrives non-final attributed to speaker 2 ...
    let a = acc.ingest(&response(vec![said("How", false, Some("2"))]), &mut ids);
    assert!(a[0].speaker.is_none(), "no durable speaker yet");

    // ... then finalizes as speaker 1. The volatile lane is rebuilt each
    // message, so the mislabel never becomes durable.
    acc.ingest(&response(vec![said("How", true, Some("1"))]), &mut ids);
    let finals = acc.finish(&mut ids);
    assert_eq!(finals[0].speaker.as_ref().unwrap().0, "1");
}

#[test]
fn idle_response_with_no_tokens_emits_nothing() {
    let mut ids = SegmentIds::new();
    let mut acc = Accumulator::new();
    assert!(acc.ingest(&response(vec![]), &mut ids).is_empty());
}

#[test]
fn segment_ids_are_never_reused_across_flushes() {
    let mut ids = SegmentIds::new();
    let mut acc = Accumulator::new();

    acc.ingest(&response(vec![said("First one.", true, None)]), &mut ids);
    acc.ingest(&response(vec![said(" Second one.", true, None)]), &mut ids);
    let all = acc.finish(&mut ids);
    let _ = all;

    // Every id handed out is distinct.
    let a = ids.next();
    let b = ids.next();
    assert_ne!(a, b);
}

#[test]
fn speech_token_detection_ignores_control_and_blank_tokens() {
    assert!(Accumulator::is_speech_token(&said(" hello", false, None)));
    assert!(!Accumulator::is_speech_token(&said("<end>", true, None)));
    assert!(!Accumulator::is_speech_token(&said("<fin>", true, None)));
    assert!(!Accumulator::is_speech_token(&said("   ", false, None)));
}

#[test]
fn language_hints_split_and_trim() {
    assert_eq!(parse_language_hints("en"), vec!["en".to_string()]);
    assert_eq!(
        parse_language_hints(" en , es "),
        vec!["en".to_string(), "es".to_string()]
    );
}

#[test]
fn blank_language_hints_mean_no_hints() {
    assert!(parse_language_hints("").is_empty());
    assert!(parse_language_hints("  ").is_empty());
    assert!(parse_language_hints(",,").is_empty());
}

#[test]
fn capabilities_match_what_the_pipeline_needs() {
    let caps = SonioxBackend::new().capabilities();
    assert!(caps.revises_output);
    assert!(caps.diarization);
    assert_eq!(caps.audio_gating, AudioGating::Continuous);
    assert_eq!(
        caps.activity_source,
        ActivitySource::Backend { hold_ms: SPEECH_HOLD_MS }
    );
    // The hold has to outlast the service's ~1 Hz idle chatter, or the
    // meter strobes through silence.
    assert!(SPEECH_HOLD_MS > 1_000);
}

#[test]
fn a_live_socket_is_never_reused_across_sessions() {
    assert!(!SonioxBackend::new().is_cacheable());
}

#[test]
fn push_audio_stages_little_endian_pcm_without_sending() {
    let mut backend = SonioxBackend::new();
    backend.push_audio(&quantized(&[0.0, 1.0]));
    assert_eq!(backend.staged, vec![0x00, 0x00, 0xFF, 0x7F]);
    assert_eq!(backend.staged_samples, 2);
    // No socket was opened, so nothing could have gone out.
    assert!(!backend.open);
}

#[test]
fn a_reconnect_finalizes_the_open_segment_and_owes_a_status() {
    let mut ids = SegmentIds::new();
    let mut backend = SonioxBackend::new();

    let updates = backend.fold(
        vec![
            Inbound::Response(Box::new(SonioxResponse {
                tokens: vec![token("Half a sentence", true)],
                ..Default::default()
            })),
            Inbound::Reconnecting("the connection dropped".to_string()),
        ],
        &mut ids,
        7,
    );

    // The best hypothesis available is finalized rather than lost, because
    // the new stream restarts its timeline from zero.
    let finals: Vec<_> = updates.iter().filter(|u| u.is_final).collect();
    assert_eq!(finals.len(), 1);
    assert_eq!(finals[0].text, "Half a sentence");
    assert!(backend.pending_transient.is_some());
}

#[test]
fn speech_evidence_comes_from_token_content_not_message_arrival() {
    let mut ids = SegmentIds::new();
    let mut backend = SonioxBackend::new();

    // The service answers about once a second through total silence.
    backend.fold(
        vec![Inbound::Response(Box::new(SonioxResponse {
            tokens: vec![token("<end>", true)],
            ..Default::default()
        }))],
        &mut ids,
        7,
    );
    assert!(
        backend.last_speech_at().is_none(),
        "a control token is not speech"
    );

    backend.fold(
        vec![Inbound::Response(Box::new(SonioxResponse {
            tokens: vec![token(" hello", false)],
            ..Default::default()
        }))],
        &mut ids,
        7,
    );
    assert!(backend.last_speech_at().is_some());
}

#[test]
fn text_wins_the_return_slot_and_status_is_owed_next_call() {
    let mut ids = SegmentIds::new();
    let mut backend = SonioxBackend::new();
    backend.pending_transient = Some("Reconnecting to Soniox: dropped".to_string());

    let updates = backend.fold(
        vec![Inbound::Response(Box::new(SonioxResponse {
            tokens: vec![token("Hello there", true)],
            ..Default::default()
        }))],
        &mut ids,
        7,
    );
    assert!(!updates.is_empty());

    let delivered = backend
        .deliver(updates, None)
        .expect("text is delivered first");
    assert_eq!(delivered.len(), 1);
    assert!(
        backend.pending_transient.is_some(),
        "the status is owed, not dropped"
    );

    // With no text left to deliver, the status surfaces.
    match backend.deliver(Vec::new(), None) {
        Err(AsrError::Transient(message)) => assert!(message.contains("Reconnecting")),
        other => panic!("expected the owed transient status, got {other:?}"),
    }
    assert!(backend.pending_transient.is_none());
}

#[test]
fn a_fatal_flushes_its_text_first_and_is_reported_once() {
    let mut ids = SegmentIds::new();
    let mut backend = SonioxBackend::new();

    let updates = backend.fold(
        vec![
            Inbound::Response(Box::new(SonioxResponse {
                tokens: vec![token("Recognized before the failure", true)],
                ..Default::default()
            })),
            Inbound::Fatal("Soniox rejected the session".to_string()),
        ],
        &mut ids,
        7,
    );

    // The engine discards whatever end_session returns on the fatal path,
    // so this flush is the only thing keeping that text.
    let delivered = backend.deliver(updates, None).expect("text first");
    assert!(delivered
        .iter()
        .any(|u| u.is_final && u.text == "Recognized before the failure"));

    match backend.deliver(Vec::new(), None) {
        Err(AsrError::Fatal(message)) => assert!(message.contains("rejected")),
        other => panic!("expected a fatal, got {other:?}"),
    }
    // Taken, not repeated.
    assert!(backend.deliver(Vec::new(), None).is_ok());
}

#[test]
fn the_socket_threads_reason_beats_the_send_failure_it_caused() {
    // Regression: a rejected API key made the socket thread exit, which made
    // the next send fail, and `?` on that send returned "the connection has
    // ended" without ever draining the real reason. An invalid key is the
    // likeliest first-run failure, so it is the one that has to read well.
    let mut ids = SegmentIds::new();
    let mut backend = SonioxBackend::new();
    backend.fold(
        vec![Inbound::Fatal(
            "Soniox rejected the session: bad key (unauthenticated)".to_string(),
        )],
        &mut ids,
        7,
    );

    let generic = Some(AsrError::Fatal(
        "The Soniox connection has ended".to_string(),
    ));
    match backend.deliver(Vec::new(), generic) {
        Err(AsrError::Fatal(message)) => assert!(
            message.contains("unauthenticated"),
            "expected the socket thread's reason, got {message:?}"
        ),
        other => panic!("expected a fatal, got {other:?}"),
    }
}

#[test]
fn the_send_failure_is_still_reported_when_nothing_better_exists() {
    let mut backend = SonioxBackend::new();
    let generic = Some(AsrError::Fatal(
        "The Soniox connection has ended".to_string(),
    ));
    match backend.deliver(Vec::new(), generic) {
        Err(AsrError::Fatal(message)) => assert!(message.contains("connection has ended")),
        other => panic!("expected the fallback fatal, got {other:?}"),
    }
}

#[test]
fn end_session_without_a_client_still_flushes_the_open_segment() {
    let mut ids = SegmentIds::new();
    let mut backend = SonioxBackend::new();
    backend.accumulator.ingest(
        &SonioxResponse {
            tokens: vec![token("An unfinished thought", true)],
            ..Default::default()
        },
        &mut ids,
    );

    let updates = match backend.end_session(&mut ids) {
        Teardown::Flushed { updates } => updates,
        Teardown::Handshake { .. } => panic!("no connection is open"),
    };
    assert_eq!(updates.len(), 1);
    assert!(updates[0].is_final);
    assert_eq!(updates[0].text, "An unfinished thought");
}

#[test]
fn backoff_doubles_and_caps() {
    assert_eq!(backoff(1), 500);
    assert_eq!(backoff(2), 1_000);
    assert_eq!(backoff(3), 2_000);
    assert_eq!(backoff(4), 4_000);
    assert_eq!(backoff(5), 8_000);
    // Never past the cap, however many attempts are asked for.
    assert_eq!(backoff(6), BACKOFF_CAP_MS);
    assert_eq!(backoff(60), BACKOFF_CAP_MS);
}

#[test]
fn config_debug_never_prints_the_key() {
    let config = SonioxConfig {
        api_key: "super-secret".to_string(),
        model: "stt-rt-v5".to_string(),
        language_hints: vec!["en".to_string()],
        diarization: true,
        endpoint_detection: true,
    };
    let shown = rendered(&config.fields());
    assert!(!shown.contains("super-secret"));
    assert!(shown.contains("<redacted>"));

    let unset = SonioxConfig {
        api_key: String::new(),
        ..config
    };
    assert!(rendered(&unset.fields()).contains("<unset>"));
}

#[test]
fn connect_rejects_a_blank_key_without_spawning_a_thread() {
    let config = SonioxConfig {
        api_key: "   ".to_string(),
        model: "stt-rt-v5".to_string(),
        language_hints: vec!["en".to_string()],
        diarization: true,
        endpoint_detection: true,
    };
    match SonioxClient::connect(&config) {
        Err(AsrError::Fatal(message)) => assert!(message.contains("API key")),
        _ => panic!("a blank key must be rejected as fatal"),
    }
}

#[test]
fn parses_token_evolution() {
    let first = parse(EVOLUTION[0]);
    assert_eq!(first.tokens.len(), 1);
    assert_eq!(first.tokens[0].text, "How");
    assert!(!first.tokens[0].is_final);
    assert!(first.error().is_none());

    let second = parse(EVOLUTION[1]);
    assert_eq!(second.tokens.len(), 2);
    assert!(second.tokens[0].is_final);
    assert!(!second.tokens[1].is_final);
}

#[test]
fn provisional_speaker_is_revised_on_finalization() {
    // The whole reason speaker is only trusted on final tokens.
    let provisional = parse(EVOLUTION[0]);
    let finalized = parse(EVOLUTION[1]);
    assert_eq!(
        provisional.tokens[0].normalized_speaker().as_deref(),
        Some("2")
    );
    assert_eq!(
        finalized.tokens[0].normalized_speaker().as_deref(),
        Some("1")
    );
}

#[test]
fn terminal_message_is_recognized_and_is_not_an_error() {
    let r = parse(FINISHED);
    assert!(r.finished);
    assert!(r.tokens.is_empty());
    assert!(r.error().is_none());
}

#[test]
fn service_unavailable_is_retryable() {
    let err = parse(SERVICE_UNAVAILABLE).error().expect("error present");
    assert_eq!(err.error_type, "service_unavailable");
    assert!(err.retryable);
}

#[test]
fn unauthenticated_is_fatal() {
    let r = parse(r#"{"tokens":[],"error_type":"unauthenticated","error_message":"bad key"}"#);
    let err = r.error().expect("error present");
    assert!(!err.retryable);
}

#[test]
fn errors_are_detected_without_an_error_code() {
    // error_code defaults to absent; detection must not depend on it.
    let r = parse(r#"{"tokens":[],"error_type":"internal_error"}"#);
    assert!(r.error().is_some());
    assert!(r.error_code.is_none());
}

#[test]
fn empty_token_list_alone_is_not_an_error() {
    let r = parse(r#"{"tokens":[],"total_audio_proc_ms":900}"#);
    assert!(r.error().is_none());
}

#[test]
fn unknown_fields_and_missing_fields_are_tolerated() {
    let r = parse(r#"{"some_new_field":42}"#);
    assert!(r.tokens.is_empty());
    assert!(!r.finished);
    // What a frame leaves out has these defaults, and they are no error.
    let d = SonioxResponse::default();
    assert!(d.tokens.is_empty() && !d.finished && d.error_code.is_none());
    assert!(d.error().is_none() && r.error().is_none());
    let t = SonioxToken::default();
    assert!(t.text.is_empty() && !t.is_final && t.normalized_speaker().is_none());
}

#[test]
fn special_tokens_are_flagged() {
    let end = SonioxToken {
        text: "<end>".to_string(),
        ..Default::default()
    };
    let fin = SonioxToken {
        text: "<fin>".to_string(),
        ..Default::default()
    };
    let word = SonioxToken {
        text: " hello".to_string(),
        ..Default::default()
    };
    assert!(end.is_special() && end.is_end_marker());
    assert!(fin.is_special() && !fin.is_end_marker());
    assert!(!word.is_special());
}

#[test]
fn blank_speaker_normalizes_to_none() {
    let t = SonioxToken {
        speaker: Some("  ".to_string()),
        ..Default::default()
    };
    assert_eq!(t.normalized_speaker(), None);
    let t2 = SonioxToken {
        speaker: Some(" 3 ".to_string()),
        ..Default::default()
    };
    assert_eq!(t2.normalized_speaker().as_deref(), Some("3"));
}

#[test]
fn pcm_conversion_is_little_endian_and_clamped() {
    assert_eq!(f32_to_pcm_s16le(&[0.0]), vec![0x00, 0x00]);
    assert_eq!(f32_to_pcm_s16le(&[1.0]), vec![0xFF, 0x7F]);
    // Values beyond full scale must not wrap around to the opposite sign.
    assert_eq!(f32_to_pcm_s16le(&[2.0]), vec![0xFF, 0x7F]);
    assert_eq!(f32_to_pcm_s16le(&[-2.0]), vec![0x01, 0x80]);
}

#[test]
fn start_request_uses_the_documented_field_names() {
    let req = StartRequest::new(
        "secret".to_string(),
        "stt-rt-v5".to_string(),
        vec!["en".to_string()],
        true,
        true,
    );
    let json = serde_json::to_string(&req.to_json()).unwrap();
    assert!(json.contains("\"num_channels\":1"));
    assert!(json.contains("\"enable_speaker_diarization\":true"));
    assert!(json.contains("\"audio_format\":\"pcm_s16le\""));
    assert!(json.contains("\"sample_rate\":16000"));
    assert!(!json.contains("\"channels\":"));
    assert!(!json.contains("enable_diarization\""));
}

#[test]
fn teardown_keeps_the_finals_that_come_after_the_end_of_the_stream() {
    let mut b = SonioxBackend::new();
    let mut ids = SegmentIds::new();
    b.connected();
    b.push_audio(&[3]);
    match b.end_session(&mut ids) {
        Teardown::Handshake { last_frame: Some((pcm, 1)) } => assert_eq!(pcm, [3, 0]),
        _ => panic!("the staged audio goes out first"),
    }
    let tail = Inbound::Response(Box::new(response(vec![token("All done.", true)])));
    let (updates, goes_on) = b.fold_tail(&tail, &mut ids);
    assert!(goes_on);
    assert_eq!(updates.len(), 1);
    assert_eq!(updates[0].text, "All done.");
    assert!(updates[0].is_final);
    let open = Inbound::Response(Box::new(response(vec![token("and", true)])));
    b.fold_tail(&open, &mut ids);
    let (updates, goes_on) = b.fold_tail(&Inbound::Finished, &mut ids);
    assert!(updates.is_empty() && !goes_on);
    let last = b.close(&mut ids);
    assert_eq!(last.len(), 1);
    assert_eq!(last[0].text, "and");
    assert!(b.close(&mut ids).is_empty());
}

#[test]
fn a_start_request_goes_out_whole() {
    let req = StartRequest::new(
        "k".to_string(),
        "m".to_string(),
        vec!["en".to_string(), "es".to_string()],
        false,
        true,
    );
    let v = req.to_json();
    assert_eq!(v.as_object().unwrap().len(), 10);
    assert_eq!(text_of(&v, "api_key").as_deref(), Some("k"));
    assert_eq!(text_of(&v, "model").as_deref(), Some("m"));
    let hints = v.get("language_hints").and_then(|h| h.as_array()).unwrap();
    let hints: Vec<_> = hints.iter().filter_map(|h| h.as_str()).collect();
    assert_eq!(hints, ["en", "es"]);
    assert!(!flag_of(&v, "language_hints_strict"));
    assert!(!flag_of(&v, "enable_speaker_diarization"));
    assert!(!flag_of(&v, "enable_language_identification"));
    assert!(flag_of(&v, "enable_endpoint_detection"));
}

#[test]
fn final_tokens_are_delivered_to_the_letter() {
    let mut a = Accumulator::new();
    let mut ids = SegmentIds::new();
    let mut text = String::new();
    let responses = [
        vec![token("Hello", true), token(" wor", false)],
        vec![token("  world.", true), token(" And", true), token(" m", false)],
        vec![token(" more", true), token("<end>", true)],
        vec![token(" Last", true)],
    ];
    for tokens in responses {
        for u in a.ingest(&response(tokens), &mut ids) {
            if u.is_final {
                text.push_str(&u.text);
            }
        }
    }
    for u in a.finish(&mut ids) {
        text.push_str(&u.text);
    }
    assert_eq!(text, "Hello  world. And more Last");
}

#[test]
fn finishing_closes_exactly_what_is_shown() {
    let mut a = Accumulator::new();
    let mut ids = SegmentIds::new();
    assert!(a.finish(&mut ids).is_empty());
    // Only a provisional hypothesis is shown: it is retracted under its own id.
    let shown = a.ingest(&response(vec![token("maybe", false)]), &mut ids);
    a.ingest(&response(Vec::new()), &mut ids);
    let last = a.finish(&mut ids);
    assert_eq!(last.len(), 1);
    assert_eq!(last[0].segment_id, shown[0].segment_id);
    assert!(last[0].is_final && last[0].text.is_empty());
    // Durable text is closed under the id it was shown with.
    let shown = a.ingest(&response(vec![token("yes", true), token(" or", false)]), &mut ids);
    let last = a.finish(&mut ids);
    assert_eq!(last.len(), 1);
    assert_eq!(last[0].segment_id, shown[0].segment_id);
    assert_eq!(last[0].text, "yes");
    // What is closed already is not closed again.
    a.ingest(&response(vec![token("Done.", true)]), &mut ids);
    assert!(a.finish(&mut ids).is_empty());
}
