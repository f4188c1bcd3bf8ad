//! Voice activity.

use larmindon::bits::Single;
use larmindon::vad::{PreSpeechRingBuffer, VadDecision, VadState, VadStateMachine};

const VAD_CHUNK_SIZE: usize = 512;

fn single(x: f32) -> Single {
    Single { bits: x.to_bits() }
}

fn dummy_frame() -> Vec<f32> {
    vec![0.0; VAD_CHUNK_SIZE]
}

fn default_state_machine() -> VadStateMachine<f32> {
    VadStateMachine::new(single(0.5), single(0.3), 500, 250, 500)
}

#[test]
fn ring_buffer_empty_drain() {
    let mut buf = PreSpeechRingBuffer::<f32>::new(10);
    assert!(buf.drain_all().is_empty());
}

#[test]
fn ring_buffer_push_fewer_than_capacity() {
    let mut buf = PreSpeechRingBuffer::<f32>::new(10);
    buf.push_slice(&[1.0, 2.0, 3.0]);
    let drained = buf.drain_all();
    assert_eq!(drained, vec![1.0, 2.0, 3.0]);
}

#[test]
fn ring_buffer_push_exactly_capacity() {
    let mut buf = PreSpeechRingBuffer::<f32>::new(4);
    buf.push_slice(&[1.0, 2.0, 3.0, 4.0]);
    let drained = buf.drain_all();
    assert_eq!(drained, vec![1.0, 2.0, 3.0, 4.0]);
}

#[test]
fn ring_buffer_push_overflow_wraparound() {
    let mut buf = PreSpeechRingBuffer::<f32>::new(4);
    buf.push_slice(&[1.0, 2.0, 3.0, 4.0, 5.0, 6.0]);
    let drained = buf.drain_all();
    // Oldest samples (1.0, 2.0) should be evicted
    assert_eq!(drained, vec![3.0, 4.0, 5.0, 6.0]);
}

#[test]
fn ring_buffer_drain_resets_state() {
    let mut buf = PreSpeechRingBuffer::<f32>::new(4);
    buf.push_slice(&[1.0, 2.0]);
    let _ = buf.drain_all();
    // After drain, buffer should be empty
    assert!(buf.drain_all().is_empty());
}

#[test]
fn ring_buffer_push_after_drain() {
    let mut buf = PreSpeechRingBuffer::<f32>::new(4);
    buf.push_slice(&[1.0, 2.0]);
    let _ = buf.drain_all();
    buf.push_slice(&[10.0, 20.0]);
    let drained = buf.drain_all();
    assert_eq!(drained, vec![10.0, 20.0]);
}

#[test]
fn ring_buffer_multiple_pushes_before_drain() {
    let mut buf = PreSpeechRingBuffer::<f32>::new(6);
    buf.push_slice(&[1.0, 2.0]);
    buf.push_slice(&[3.0, 4.0]);
    buf.push_slice(&[5.0, 6.0]);
    let drained = buf.drain_all();
    assert_eq!(drained, vec![1.0, 2.0, 3.0, 4.0, 5.0, 6.0]);
}

#[test]
fn ring_buffer_wraparound_preserves_chronological_order() {
    let mut buf = PreSpeechRingBuffer::<f32>::new(3);
    buf.push_slice(&[1.0, 2.0, 3.0]); // fills exactly
    buf.push_slice(&[4.0]); // wraps: [4.0, 2.0, 3.0], write_pos=1
    let drained = buf.drain_all();
    assert_eq!(drained, vec![2.0, 3.0, 4.0]);
}

#[test]
fn silence_stays_silence_below_threshold() {
    let mut sm = default_state_machine();
    let frame = dummy_frame();
    for _ in 0..20 {
        let decision = sm.process(single(0.1), &frame);
        assert!(matches!(decision, VadDecision::Silence));
    }
    assert_eq!(sm.state(), VadState::Silence);
}

#[test]
fn speech_onset_after_min_speech_frames() {
    let mut sm = default_state_machine();
    let frame = dummy_frame();
    // min_speech_duration_ms=250 at 32ms/frame = 7 frames
    let mut started = false;
    for i in 0..20 {
        let decision = sm.process(single(0.9), &frame);
        match decision {
            VadDecision::SpeechStarted { .. } => {
                started = true;
                // Should happen at frame 7 (0-indexed: i=6)
                assert_eq!(i, 6, "Speech should start at frame 7");
                break;
            }
            VadDecision::Silence => {} // still accumulating
            _ => panic!("Unexpected decision during onset"),
        }
    }
    assert!(started, "Speech should have started");
    assert_eq!(sm.state(), VadState::Speech);
}

#[test]
fn leaky_decrement_tolerates_brief_dip() {
    let mut sm = default_state_machine();
    let frame = dummy_frame();
    // Feed 5 speech frames, then 1 silence, then more speech
    for _ in 0..5 {
        sm.process(single(0.9), &frame);
    }
    assert_eq!(sm.state(), VadState::Silence); // not enough yet (need 7)

    // One sub-threshold frame: leaky decrement reduces counter by 1 (5->4)
    sm.process(single(0.1), &frame);
    assert_eq!(sm.state(), VadState::Silence);

    // Now feed 3 more speech frames (counter: 4+3=7 >= min_speech_frames)
    let mut started = false;
    for _ in 0..3 {
        let decision = sm.process(single(0.9), &frame);
        if matches!(decision, VadDecision::SpeechStarted { .. }) {
            started = true;
        }
    }
    assert!(started, "Speech should start despite brief dip");
}

#[test]
fn leaky_decrement_does_not_go_negative() {
    let mut sm = default_state_machine();
    let frame = dummy_frame();
    // Feed silence frames — counter should stay at 0
    for _ in 0..10 {
        sm.process(single(0.1), &frame);
    }
    // Now feed exactly min_speech_frames of speech
    let mut started = false;
    for _ in 0..7 {
        if matches!(sm.process(single(0.9), &frame), VadDecision::SpeechStarted { .. }) {
            started = true;
        }
    }
    assert!(started);
}

#[test]
fn speech_continues_above_threshold() {
    let mut sm = default_state_machine();
    let frame = dummy_frame();
    // Trigger speech start
    for _ in 0..7 {
        sm.process(single(0.9), &frame);
    }
    assert_eq!(sm.state(), VadState::Speech);

    // Continued speech
    for _ in 0..10 {
        let decision = sm.process(single(0.9), &frame);
        assert!(matches!(decision, VadDecision::SpeechContinues));
    }
}

#[test]
fn brief_pause_during_speech_continues() {
    let mut sm = default_state_machine();
    let frame = dummy_frame();
    // Trigger speech
    for _ in 0..7 {
        sm.process(single(0.9), &frame);
    }
    assert_eq!(sm.state(), VadState::Speech);

    // Brief pause: a few frames below end threshold (need 15 for SpeechEnded)
    for _ in 0..5 {
        let decision = sm.process(single(0.1), &frame);
        assert!(
            matches!(decision, VadDecision::SpeechContinues),
            "Brief pause should not end speech"
        );
    }
    assert_eq!(sm.state(), VadState::Speech);
}

#[test]
fn speech_ends_after_min_silence_frames() {
    let mut sm = default_state_machine();
    let frame = dummy_frame();
    // Trigger speech
    for _ in 0..7 {
        sm.process(single(0.9), &frame);
    }
    assert_eq!(sm.state(), VadState::Speech);

    // min_silence_duration_ms=500 at 32ms/frame = 15 frames
    let mut ended = false;
    for i in 0..20 {
        let decision = sm.process(single(0.1), &frame);
        if matches!(decision, VadDecision::SpeechEnded) {
            ended = true;
            assert_eq!(i, 14, "Speech should end at frame 15 (0-indexed: 14)");
            break;
        }
    }
    assert!(ended, "Speech should have ended");
    assert_eq!(sm.state(), VadState::Silence);
}

#[test]
fn threshold_hysteresis() {
    let mut sm = default_state_machine();
    let frame = dummy_frame();
    // Trigger speech (needs prob >= 0.5)
    for _ in 0..7 {
        sm.process(single(0.9), &frame);
    }
    assert_eq!(sm.state(), VadState::Speech);

    // Prob=0.4: above end threshold (0.3) but below start threshold (0.5)
    // Should continue as speech due to hysteresis
    for _ in 0..20 {
        let decision = sm.process(single(0.4), &frame);
        assert!(
            matches!(decision, VadDecision::SpeechContinues),
            "0.4 is above end threshold (0.3), should continue speech"
        );
    }
    assert_eq!(sm.state(), VadState::Speech);
}

#[test]
fn update_params_changes_behavior() {
    let mut sm = default_state_machine();
    let frame = dummy_frame();
    // With default threshold_start=0.5, prob=0.3 is silence
    sm.process(single(0.3), &frame);
    assert_eq!(sm.state(), VadState::Silence);

    // Lower threshold_start to 0.2
    sm.update_params(single(0.2), single(0.1), 500, 250);

    // Now prob=0.3 should count as speech
    for _ in 0..7 {
        sm.process(single(0.3), &frame);
    }
    assert_eq!(sm.state(), VadState::Speech);
}

#[test]
fn speech_started_includes_pre_speech_samples() {
    let mut sm = VadStateMachine::new(single(0.5), single(0.3), 500, 96, 100);
    // min_speech_duration_ms=96 at 32ms/frame = 3 frames
    // pre_speech_ms=100 at 16kHz = 1600 samples

    let silence_frame = vec![0.1; VAD_CHUNK_SIZE];
    let speech_frame = vec![0.9; VAD_CHUNK_SIZE];

    // Push some silence frames into ring buffer
    sm.process(single(0.1), &silence_frame);
    sm.process(single(0.1), &silence_frame);

    // Now trigger speech
    sm.process(single(0.9), &speech_frame); // frame 1, buffered
    sm.process(single(0.9), &speech_frame); // frame 2, buffered
    let decision = sm.process(single(0.9), &speech_frame); // frame 3 -> SpeechStarted

    match decision {
        VadDecision::SpeechStarted { pre_speech_samples } => {
            // Ring buffer capacity is 1600 samples (100ms at 16kHz).
            // We pushed 2 silence frames (1024 samples) + 2 speech frames
            // that were buffered while accumulating (1024 more) = 2048 total.
            // Since 2048 > capacity 1600, the buffer wraps and we get 1600.
            assert_eq!(pre_speech_samples.len(), 1600);
        }
        _ => panic!("Expected SpeechStarted"),
    }
}

#[test]
fn reset_clears_all_state() {
    let mut sm = default_state_machine();
    let frame = dummy_frame();
    // Get into speech state
    for _ in 0..7 {
        sm.process(single(0.9), &frame);
    }
    assert_eq!(sm.state(), VadState::Speech);

    sm.reset();
    assert_eq!(sm.state(), VadState::Silence);

    // Should need full min_speech_frames again
    let mut count = 0;
    for _ in 0..7 {
        if matches!(sm.process(single(0.9), &frame), VadDecision::SpeechStarted { .. }) {
            break;
        }
        count += 1;
    }
    assert_eq!(count, 6, "After reset, should need 7 frames again");
}


#[test]
fn a_machine_without_a_ring_buffer_accepts_no_audio() {
    let with: VadStateMachine<i32> = VadStateMachine::new(single(0.5), single(0.3), 500, 250, 500);
    let without: VadStateMachine<i32> = VadStateMachine::new(single(0.5), single(0.3), 500, 250, 0);
    assert!(with.accepts(512));
    assert!(!without.accepts(512));
    assert!(without.accepts(0));
}
