//! Text rules: sentence ends, previews, padding, replay.

use larmindon::asr::nemotron;
use larmindon::asr::nemotron::NemotronBackend;
use larmindon::asr::{ActivitySource, AudioGating};
use larmindon::decoder::ReplayBuffer;
use larmindon::diag;
use larmindon::engine;

#[test]
fn lib_period_is_sentence_punctuation() {
    assert!(engine::nemotron::ends_with_sentence_punctuation("Hello."));
}

#[test]
fn lib_question_mark_is_sentence_punctuation() {
    assert!(engine::nemotron::ends_with_sentence_punctuation("Hello?"));
}

#[test]
fn lib_exclamation_is_sentence_punctuation() {
    assert!(engine::nemotron::ends_with_sentence_punctuation("Hello!"));
}

#[test]
fn lib_ellipsis_is_not_sentence_punctuation() {
    assert!(!engine::nemotron::ends_with_sentence_punctuation("Hello..."));
}

#[test]
fn lib_digit_before_period_is_not_sentence_punctuation() {
    assert!(!engine::nemotron::ends_with_sentence_punctuation("3."));
    assert!(!engine::nemotron::ends_with_sentence_punctuation("The value is 3.14."));
}

#[test]
fn lib_word_before_period_is_sentence_punctuation() {
    assert!(engine::nemotron::ends_with_sentence_punctuation("end."));
    assert!(engine::nemotron::ends_with_sentence_punctuation("The end."));
}

#[test]
fn lib_empty_string_is_not_sentence_punctuation() {
    assert!(!engine::nemotron::ends_with_sentence_punctuation(""));
}

#[test]
fn lib_whitespace_only_is_not_sentence_punctuation() {
    assert!(!engine::nemotron::ends_with_sentence_punctuation("   "));
}

#[test]
fn lib_trailing_whitespace_is_trimmed() {
    assert!(engine::nemotron::ends_with_sentence_punctuation("Hello.  "));
    assert!(engine::nemotron::ends_with_sentence_punctuation("Hello?  "));
}

#[test]
fn lib_no_punctuation_is_not_sentence_ending() {
    assert!(!engine::nemotron::ends_with_sentence_punctuation("Hello"));
    assert!(!engine::nemotron::ends_with_sentence_punctuation("Hello,"));
    assert!(!engine::nemotron::ends_with_sentence_punctuation("Hello;"));
}

#[test]
fn lib_pad_to_chunk_boundary_pads_partial_chunk() {
    let mut buffer = vec![1.0, 2.0, 3.0, 4.0, 5.0];

    engine::nemotron::pad_to_chunk_boundary(&mut buffer, 4, 0.0f32);

    assert_eq!(buffer, vec![1.0, 2.0, 3.0, 4.0, 5.0, 0.0, 0.0, 0.0]);
}

#[test]
fn lib_pad_to_chunk_boundary_preserves_aligned_buffer() {
    let mut buffer = vec![1.0, 2.0, 3.0, 4.0];

    engine::nemotron::pad_to_chunk_boundary(&mut buffer, 4, 0.0f32);

    assert_eq!(buffer, vec![1.0, 2.0, 3.0, 4.0]);
}

#[test]
fn lib_pad_to_chunk_boundary_preserves_empty_buffer() {
    let mut buffer: Vec<f32> = Vec::new();

    engine::nemotron::pad_to_chunk_boundary(&mut buffer, 4, 0.0f32);

    assert!(buffer.is_empty());
}

#[test]
fn lib_full_text_punctuation_can_differ_from_preview() {
    let long_text = format!("{}.", "word ".repeat(60));
    let preview = engine::diagnostics::text_preview(&long_text, 200);

    assert!(!engine::nemotron::ends_with_sentence_punctuation(&preview));
    assert!(engine::nemotron::ends_with_sentence_punctuation(&long_text));
}

#[test]
fn lib_chunks_to_audio_ms_uses_chunk_duration() {
    assert_eq!(engine::nemotron::chunks_to_audio_ms(6, 560), 3360);
}

#[test]
fn lib_replay_buffer_keeps_latest_chunks() {
    let mut buffer = ReplayBuffer::<f32>::new(2);

    buffer.push(&[1.0]);
    buffer.push(&[2.0]);
    buffer.push(&[3.0]);

    assert_eq!(buffer.snapshot(), vec![vec![2.0], vec![3.0]]);
}

#[test]
fn lib_replay_buffer_capacity_update_truncates_old_chunks() {
    let mut buffer = ReplayBuffer::<f32>::new(3);

    buffer.push(&[1.0]);
    buffer.push(&[2.0]);
    buffer.push(&[3.0]);
    buffer.update_capacity(1);

    assert_eq!(buffer.snapshot(), vec![vec![3.0]]);
}

#[test]
fn lib_replay_buffer_zero_capacity_keeps_no_chunks() {
    let mut buffer = ReplayBuffer::<f32>::new(0);

    buffer.push(&[1.0]);

    assert!(buffer.snapshot().is_empty());
}

#[test]
fn nemotron_period_is_sentence_punctuation() {
    assert!(nemotron::ends_with_sentence_punctuation("Hello."));
}

#[test]
fn nemotron_question_mark_is_sentence_punctuation() {
    assert!(nemotron::ends_with_sentence_punctuation("Hello?"));
}

#[test]
fn nemotron_exclamation_is_sentence_punctuation() {
    assert!(nemotron::ends_with_sentence_punctuation("Hello!"));
}

#[test]
fn nemotron_ellipsis_is_not_sentence_punctuation() {
    assert!(!nemotron::ends_with_sentence_punctuation("Hello..."));
}

#[test]
fn nemotron_digit_before_period_is_not_sentence_punctuation() {
    assert!(!nemotron::ends_with_sentence_punctuation("3."));
    assert!(!nemotron::ends_with_sentence_punctuation("The value is 3.14."));
}

#[test]
fn nemotron_word_before_period_is_sentence_punctuation() {
    assert!(nemotron::ends_with_sentence_punctuation("end."));
    assert!(nemotron::ends_with_sentence_punctuation("The end."));
}

#[test]
fn nemotron_empty_string_is_not_sentence_punctuation() {
    assert!(!nemotron::ends_with_sentence_punctuation(""));
}

#[test]
fn nemotron_whitespace_only_is_not_sentence_punctuation() {
    assert!(!nemotron::ends_with_sentence_punctuation("   "));
}

#[test]
fn nemotron_trailing_whitespace_is_trimmed() {
    assert!(nemotron::ends_with_sentence_punctuation("Hello.  "));
    assert!(nemotron::ends_with_sentence_punctuation("Hello?  "));
}

#[test]
fn nemotron_no_punctuation_is_not_sentence_ending() {
    assert!(!nemotron::ends_with_sentence_punctuation("Hello"));
    assert!(!nemotron::ends_with_sentence_punctuation("Hello,"));
    assert!(!nemotron::ends_with_sentence_punctuation("Hello;"));
}

#[test]
fn nemotron_pad_to_chunk_boundary_pads_partial_chunk() {
    let mut buffer = vec![1.0, 2.0, 3.0, 4.0, 5.0];

    nemotron::pad_to_chunk_boundary(&mut buffer, 4, 0.0f32);

    assert_eq!(buffer, vec![1.0, 2.0, 3.0, 4.0, 5.0, 0.0, 0.0, 0.0]);
}

#[test]
fn nemotron_pad_to_chunk_boundary_preserves_aligned_buffer() {
    let mut buffer = vec![1.0, 2.0, 3.0, 4.0];

    nemotron::pad_to_chunk_boundary(&mut buffer, 4, 0.0f32);

    assert_eq!(buffer, vec![1.0, 2.0, 3.0, 4.0]);
}

#[test]
fn nemotron_pad_to_chunk_boundary_preserves_empty_buffer() {
    let mut buffer: Vec<f32> = Vec::new();

    nemotron::pad_to_chunk_boundary(&mut buffer, 4, 0.0f32);

    assert!(buffer.is_empty());
}

#[test]
fn nemotron_text_preview_does_not_split_utf8() {
    assert_eq!(nemotron::text_preview("abcédef", 4), "abc");
    assert_eq!(nemotron::text_preview("abcédef", 5), "abcé");
}

#[test]
fn nemotron_full_text_punctuation_can_differ_from_preview() {
    let long_text = format!("{}.", "word ".repeat(60));
    let preview = nemotron::text_preview(&long_text, 200);

    assert!(!nemotron::ends_with_sentence_punctuation(&preview));
    assert!(nemotron::ends_with_sentence_punctuation(&long_text));
}

#[test]
fn nemotron_replay_buffer_keeps_latest_chunks() {
    let mut buffer = ReplayBuffer::<f32>::new(2);

    buffer.push(&[1.0]);
    buffer.push(&[2.0]);
    buffer.push(&[3.0]);

    assert_eq!(buffer.snapshot(), vec![vec![2.0], vec![3.0]]);
}

#[test]
fn nemotron_replay_buffer_capacity_update_truncates_old_chunks() {
    let mut buffer = ReplayBuffer::<f32>::new(3);

    buffer.push(&[1.0]);
    buffer.push(&[2.0]);
    buffer.push(&[3.0]);
    buffer.update_capacity(1);

    assert_eq!(buffer.snapshot(), vec![vec![3.0]]);
}

#[test]
fn nemotron_replay_buffer_zero_capacity_keeps_no_chunks() {
    let mut buffer = ReplayBuffer::<f32>::new(0);

    buffer.push(&[1.0]);

    assert!(buffer.snapshot().is_empty());
}

#[test]
fn capabilities_are_append_only_and_vad_gated() {
    let caps = NemotronBackend::<f32>::new().capabilities();
    assert!(!caps.revises_output);
    assert!(!caps.diarization);
    assert_eq!(caps.audio_gating, AudioGating::VadGated);
    assert_eq!(caps.activity_source, ActivitySource::Vad);
}

#[test]
fn diagnostics_text_preview_does_not_split_utf8() {
    assert_eq!(engine::diagnostics::text_preview("abcédef", 4), "abc");
    assert_eq!(engine::diagnostics::text_preview("abcédef", 5), "abcé");
}

#[test]
fn diag_chunks_to_audio_ms_uses_chunk_duration() {
    assert_eq!(diag::chunks_to_audio_ms(6, 560), 3360);
}
