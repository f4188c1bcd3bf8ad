//! Diagnostics of the main build.

use larmindon::bits::Double;
use larmindon::diag::{
    is_expected_migration_error, to_signed, AsrErrorRow, DiagSink, MidSpeechResetRow,
    PunctuationResetRow, SpeechEndRow, SqlValue, Statement, TranscribeRow,
};

fn bound(s: &Option<Statement>) -> Vec<String> {
    match s {
        Some(s) => s
            .values
            .iter()
            .map(|v| match v {
                SqlValue::Integer(n) => format!("{n}"),
                SqlValue::Real(d) => format!("r{}", f64::from_bits(d.bits)),
                SqlValue::WholeReal(n) => format!("w{n}"),
                SqlValue::Text(t) => t.clone(),
            })
            .collect(),
        None => panic!("a live sink writes"),
    }
}

#[test]
fn disabled_sink_writes_nothing_and_has_no_session() {
    assert!(DiagSink::session_statement(false, true, 48000, 8960, true).is_none());
    let sink = DiagSink::new(false, 0, 560);
    assert_eq!(sink.session_id, 0);
    assert!(!sink.live(true));
    // Must not write without a connection.
    assert!(sink.shutdown(true, 0, 0).is_none());
    assert!(sink.speech_start(true, 0, 0).is_none());
}

#[test]
fn live_gate_follows_the_shared_flag() {
    let opened = DiagSink::session_statement(true, true, 16000, 8960, false);
    assert_eq!(bound(&opened), ["16000", "8960", "0"]);
    let sink = DiagSink::new(true, 1, 560);
    assert!(sink.session_id > 0);
    assert!(sink.live(true));

    // Flipping the shared flag off must suppress writes without closing.
    assert!(!sink.live(false));
    assert!(sink.shutdown(false, 0, 0).is_none());
    assert!(sink.live(true));
}

#[test]
fn rows_are_bound_in_column_order() {
    let sink = DiagSink::new(true, 9, 560);
    let row = TranscribeRow {
        uptime_ms: 1,
        chunk_num: 2,
        inference_ms: 3,
        drain_samples: 4,
        drain_audio_ms: Double { bits: 0.25f64.to_bits() },
        asr_buf_len: 5,
        is_empty: true,
        preview: "p",
        vad_state: "speech",
        vad_ms: 6,
        resample_ms: 7,
        iteration_ms: 8,
        chunk_source: "live",
    };
    assert_eq!(
        bound(&sink.transcribe(true, &row)),
        ["9", "1", "2", "3", "4", "r0.25", "5", "1", "p", "speech", "6", "7", "8", "live"]
    );
    let row = AsrErrorRow {
        uptime_ms: 1,
        chunk_num: 2,
        inference_ms: 3,
        error_msg: "e",
        vad_state: "silence",
        chunk_source: "replay",
    };
    assert_eq!(bound(&sink.asr_error(true, &row)), ["9", "1", "2", "3", "e", "silence", "replay"]);
    assert_eq!(bound(&sink.resample_error(true, 1, "e")), ["9", "1", "e"]);
    assert_eq!(bound(&sink.vad_error(true, 1, "e")), ["9", "1", "e"]);
    assert_eq!(bound(&sink.backend_error(true, 1, "fatal", "e")), ["9", "1", "e", "fatal"]);
    assert_eq!(bound(&sink.shutdown(true, 1, 2)), ["9", "1", "2"]);
    assert_eq!(bound(&sink.speech_start(true, 1, 8000)), ["9", "1", "8000"]);
    let row = PunctuationResetRow {
        uptime_ms: 1,
        consecutive_empty: 2,
        chunks_since_decoder_reset: 3,
    };
    assert_eq!(bound(&sink.punctuation_reset(true, &row)), ["9", "1", "2", "3", "1680"]);
    let row = MidSpeechResetRow {
        uptime_ms: 1,
        consecutive_empty: 2,
        chunks_since_decoder_reset: 3,
        replay_chunks: 4,
        replay_nonempty_chunks: 5,
        replay_inference_ms: 6,
    };
    assert_eq!(
        bound(&sink.mid_speech_reset(true, &row)),
        ["9", "1", "2", "3", "1680", "4", "2240", "5", "6"]
    );
    let row = SpeechEndRow {
        uptime_ms: 1,
        speech_duration_ms: 700,
        consecutive_empty: 2,
        chunks_since_decoder_reset: 3,
    };
    assert_eq!(bound(&sink.speech_end(true, &row)), ["9", "1", "w700", "2", "3", "1680"]);
}

#[test]
fn large_counts_keep_their_bits() {
    assert_eq!(to_signed(5), 5);
    assert_eq!(to_signed(u64::MAX), -1);
    assert_eq!(to_signed(1 << 63), i64::MIN);
}

#[test]
fn only_a_column_that_is_there_already_is_expected() {
    assert!(is_expected_migration_error("duplicate column name: vad_ms in ALTER"));
    assert!(!is_expected_migration_error("no such table: events"));
    assert!(!is_expected_migration_error("duplicate column"));
}
