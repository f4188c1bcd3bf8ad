//! What holds of every run of a session's processing loop.

use vstd::prelude::*;

use crate::asr::nemotron;
use crate::asr::soniox::backend;
use crate::asr::soniox::client;
use crate::asr::ActivitySource;
use crate::asr::AudioGating;
use crate::audio_capture::wasapi_process;
use crate::audio_engine;
use crate::audio_engine::AudioEngine;
use crate::audio_engine::CommandKind;
use crate::audio_engine::EngineStep;
use crate::audio_engine::LoopActionView;
use crate::audio_engine::LoopEvent;
use crate::audio_engine::LoopPhase;
use crate::audio_engine::LoopView;
use crate::audio_engine::VAD_FRAME_SIZE;
use crate::bits::Single;
use crate::engine::april;
use crate::samples;
use crate::settings::Settings;
use crate::vad;
use crate::vad::DecisionView;
use crate::vad::VadView;

verus! {

/// The audio that `actions` push into the backend, in order.
pub open spec fn pushed_audio<T>(actions: Seq<LoopActionView<T>>) -> Seq<T>
    decreases actions.len(),
{
    if actions.len() == 0 {
        Seq::empty()
    } else {
        match actions.last() {
            LoopActionView::PushAudio(samples) => pushed_audio(actions.drop_last()) + samples,
            _ => pushed_audio(actions.drop_last()),
        }
    }
}

/// A run so far: the loop, all audio captured, all audio handed out for
/// conditioning, all audio conditioned, all audio judged, all audio pushed.
#[verifier::ext_equal]
pub struct SessionRun<T> {
    pub l: LoopView<T>,
    pub captured: Seq<T>,
    pub handed: Seq<T>,
    pub conditioned: Seq<T>,
    pub judged: Seq<T>,
    pub pushed: Seq<T>,
}

pub open spec fn fresh_run<T>(
    gating: AudioGating,
    source: ActivitySource,
    needs_resample: bool,
    now_ms: u64,
) -> SessionRun<T> {
    SessionRun {
        l: LoopView {
            phase: LoopPhase::Starting,
            gating,
            source,
            needs_resample,
            resample_leftover: Seq::empty(),
            vad_leftover: Seq::empty(),
            unjudged: Seq::empty(),
            speech_start: None,
            last_level_ms: now_ms,
        },
        captured: Seq::empty(),
        handed: Seq::empty(),
        conditioned: Seq::empty(),
        judged: Seq::empty(),
        pushed: Seq::empty(),
    }
}

pub open spec fn session_step<T>(r: SessionRun<T>, event: LoopEvent<T>) -> SessionRun<T> {
    let step = audio_engine::loop_step(r.l, event);
    SessionRun {
        l: step.l,
        captured: match event {
            LoopEvent::Drained { samples, .. } if r.l.phase == LoopPhase::Draining => r.captured
                + samples@,
            _ => r.captured,
        },
        handed: if step.actions.len() > 0 && step.actions[0] is Condition {
            r.handed + step.actions[0]->Condition_0
        } else {
            r.handed
        },
        conditioned: match event {
            LoopEvent::Conditioned(samples) if r.l.phase == LoopPhase::Conditioning => {
                r.conditioned + samples@
            },
            _ => r.conditioned,
        },
        judged: match event {
            LoopEvent::Judged { .. } if r.l.phase == LoopPhase::Judging => r.judged
                + r.l.unjudged.take(VAD_FRAME_SIZE as int),
            _ => r.judged,
        },
        pushed: r.pushed + pushed_audio(step.actions),
    }
}

pub open spec fn session_run<T>(r: SessionRun<T>, events: Seq<LoopEvent<T>>) -> SessionRun<T>
    decreases events.len(),
{
    if events.len() == 0 {
        r
    } else {
        session_step(session_run(r, events.drop_last()), events.last())
    }
}

proof fn lemma_pushed_add<T>(a: Seq<LoopActionView<T>>, b: Seq<LoopActionView<T>>)
    ensures
        pushed_audio(a + b) == pushed_audio(a) + pushed_audio(b),
    decreases b.len(),
{
    if b.len() == 0 {
        assert(a + b =~= a);
        assert(pushed_audio(a) + Seq::<T>::empty() =~= pushed_audio(a));
    } else {
        lemma_pushed_add(a, b.drop_last());
        assert((a + b).drop_last() =~= a + b.drop_last());
        assert((a + b).last() == b.last());
        match b.last() {
            LoopActionView::PushAudio(s) => {
                assert(pushed_audio(a) + pushed_audio(b.drop_last()) + s =~= pushed_audio(a) + (
                pushed_audio(b.drop_last()) + s));
            },
            _ => {},
        }
    }
}

spec fn pushless<T>(actions: Seq<LoopActionView<T>>) -> bool {
    forall|i: int| 0 <= i < actions.len() ==> !((#[trigger] actions[i]) is PushAudio)
}

proof fn lemma_pushless<T>(actions: Seq<LoopActionView<T>>)
    requires
        pushless(actions),
    ensures
        pushed_audio(actions) == Seq::<T>::empty(),
    decreases actions.len(),
{
    if actions.len() > 0 {
        assert(!(actions[actions.len() - 1] is PushAudio));
        assert forall|i: int| 0 <= i < actions.drop_last().len() implies !((
        #[trigger] actions.drop_last()[i]) is PushAudio) by {
            assert(actions.drop_last()[i] == actions[i]);
        }
        lemma_pushless(actions.drop_last());
    }
}

/// What a routed frame pushes: a continuous backend gets the frame and nothing
/// else, whatever the decision; a gated one gets it only as speech, behind the
/// audio from before an onset.
pub proof fn law_routing_pushes<T>(
    gating: AudioGating,
    frame: Seq<T>,
    decision: Option<DecisionView<T>>,
    uptime_ms: i64,
    speech_start: Option<i64>,
)
    ensures
        pushed_audio(
            audio_engine::routed(gating, frame, decision, uptime_ms, speech_start),
        ) == match gating {
            AudioGating::Continuous => frame,
            AudioGating::VadGated => match decision {
                None => Seq::empty(),
                Some(DecisionView::Silence) => Seq::empty(),
                Some(DecisionView::SpeechStarted(pre)) => pre + frame,
                Some(DecisionView::SpeechContinues) => frame,
                Some(DecisionView::SpeechEnded) => frame,
            },
        },
{
    let actions = audio_engine::routed(gating, frame, decision, uptime_ms, speech_start);
    reveal_with_fuel(pushed_audio, 5);
    assert(Seq::<T>::empty() + frame =~= frame);
    match decision {
        Some(DecisionView::SpeechStarted(pre)) => {
            assert(Seq::<T>::empty() + pre =~= pre);
            let a0 = actions.drop_last();
            let a1 = a0.drop_last();
            let a2 = a1.drop_last();
            assert(a2.len() <= 1);
            if a2.len() == 1 {
                assert(a2.drop_last() =~= Seq::empty());
            }
        },
        _ => {
            let a0 = actions.drop_last();
            if a0.len() == 1 {
                assert(a0.drop_last() =~= Seq::empty());
            }
        },
    }
}

spec fn on_beat<T>(r: SessionRun<T>) -> bool {
    let n = VAD_FRAME_SIZE as nat;
    &&& r.captured == r.handed + r.l.resample_leftover
    &&& r.conditioned == r.judged + r.l.unjudged + r.l.vad_leftover
    &&& r.l.vad_leftover.len() < n
    &&& !r.l.needs_resample ==> r.l.resample_leftover.len() == 0
    &&& r.l.unjudged.len() % n == 0
    &&& if r.l.phase == LoopPhase::Judging {
        r.l.unjudged.len() >= n
    } else {
        r.l.unjudged.len() == 0
    }
    &&& r.l.gating == AudioGating::Continuous ==> r.pushed == r.judged
}

proof fn lemma_step_on_beat<T>(r: SessionRun<T>, event: LoopEvent<T>)
    requires
        on_beat(r),
        audio_engine::tellable(r.l, event),
    ensures
        on_beat(session_step(r, event)),
        session_step(r, event).l.gating == r.l.gating,
        session_step(r, event).l.needs_resample == r.l.needs_resample,
{
    let step = audio_engine::loop_step(r.l, event);
    let next = session_step(r, event);
    let n = VAD_FRAME_SIZE as int;
    assert(r.pushed + Seq::<T>::empty() =~= r.pushed);
    match event {
        LoopEvent::Drained { samples, resample_chunk } if r.l.phase == LoopPhase::Draining => {
            assert(pushless(step.actions));
            lemma_pushless(step.actions);
            if samples@.len() == 0 {
                assert(next.captured =~= r.captured);
            } else if r.l.needs_resample {
                let chunk = resample_chunk as int;
                let all = r.l.resample_leftover + samples@;
                samples::lemma_cut_bounds(all, chunk);
                assert(next.captured =~= next.handed + next.l.resample_leftover);
            } else {
                assert(next.captured =~= next.handed + next.l.resample_leftover);
            }
        },
        LoopEvent::Conditioned(samples) if r.l.phase == LoopPhase::Conditioning => {
            let all = r.l.vad_leftover + samples@;
            samples::lemma_cut_bounds(all, n);
            let k = all.len() as int / n;
            vstd::arithmetic::div_mod::lemma_mod_multiples_basic(k, n);
            assert(all.take(k * n).len() == k * n);
            assert(pushless(step.actions));
            lemma_pushless(step.actions);
            assert(next.conditioned =~= next.judged + next.l.unjudged + next.l.vad_leftover);
        },
        LoopEvent::Judged { decision, uptime_ms } if r.l.phase == LoopPhase::Judging => {
            let d = audio_engine::decision_view(decision);
            let frame = r.l.unjudged.take(n);
            law_routing_pushes(r.l.gating, frame, d, uptime_ms, r.l.speech_start);
            let routed = audio_engine::routed(
                r.l.gating,
                frame,
                d,
                uptime_ms,
                r.l.speech_start,
            );
            let rest = audio_engine::judging(
                LoopView {
                    unjudged: r.l.unjudged.skip(n),
                    speech_start: audio_engine::speech_start_after(
                        r.l.speech_start,
                        d,
                        uptime_ms,
                    ),
                    ..r.l
                },
            ).actions;
            lemma_pushed_add(routed, rest);
            assert(pushless(rest));
            lemma_pushless(rest);
            assert(frame + Seq::<T>::empty() =~= frame);
            assert(r.l.unjudged =~= frame + r.l.unjudged.skip(n));
            assert(next.conditioned =~= next.judged + next.l.unjudged + next.l.vad_leftover);
            assert((r.l.unjudged.len() - n) % n == r.l.unjudged.len() as int % n);
        },
        _ => {
            assert(pushless(step.actions));
            lemma_pushless(step.actions);
        },
    }
}

/// Every event of the run is one that the loop can be told.
pub open spec fn told<T>(r: SessionRun<T>, events: Seq<LoopEvent<T>>) -> bool
    decreases events.len(),
{
    events.len() == 0 || (told(r, events.drop_last()) && audio_engine::tellable(
        session_run(r, events.drop_last()).l,
        events.last(),
    ))
}

proof fn lemma_run_on_beat<T>(r: SessionRun<T>, events: Seq<LoopEvent<T>>)
    requires
        on_beat(r),
        told(r, events),
    ensures
        on_beat(session_run(r, events)),
        session_run(r, events).l.gating == r.l.gating,
        session_run(r, events).l.needs_resample == r.l.needs_resample,
    decreases events.len(),
{
    if events.len() > 0 {
        lemma_run_on_beat(r, events.drop_last());
        lemma_step_on_beat(session_run(r, events.drop_last()), events.last());
    }
}

/// Every conditioned sample is judged exactly once and in order, however the
/// capture buffer happened to be drained: what was judged, what is still to be
/// judged, and less than a frame left over make up all that was conditioned.
pub proof fn law_every_sample_is_judged_once<T>(
    gating: AudioGating,
    source: ActivitySource,
    needs_resample: bool,
    now_ms: u64,
    events: Seq<LoopEvent<T>>,
)
    requires
        told(fresh_run::<T>(gating, source, needs_resample, now_ms), events),
    ensures
        ({
            let r = session_run(fresh_run::<T>(gating, source, needs_resample, now_ms), events);
            &&& r.conditioned == r.judged + r.l.unjudged + r.l.vad_leftover
            &&& r.l.vad_leftover.len() < VAD_FRAME_SIZE
            &&& r.l.phase != LoopPhase::Judging ==> r.l.unjudged.len() == 0
        }),
{
    let r = fresh_run::<T>(gating, source, needs_resample, now_ms);
    assert(r.captured =~= r.handed + r.l.resample_leftover);
    assert(r.conditioned =~= r.judged + r.l.unjudged + r.l.vad_leftover);
    lemma_run_on_beat(r, events);
}

/// Every captured sample is handed out for conditioning exactly once and in order:
/// what was handed out and what waits for the resampler make up all that was
/// captured, and without resampling nothing waits.
pub proof fn law_every_captured_sample_is_conditioned_once<T>(
    gating: AudioGating,
    source: ActivitySource,
    needs_resample: bool,
    now_ms: u64,
    events: Seq<LoopEvent<T>>,
)
    requires
        told(fresh_run::<T>(gating, source, needs_resample, now_ms), events),
    ensures
        ({
            let r = session_run(fresh_run::<T>(gating, source, needs_resample, now_ms), events);
            &&& r.captured == r.handed + r.l.resample_leftover
            &&& !needs_resample ==> r.captured == r.handed
        }),
{
    let r = fresh_run::<T>(gating, source, needs_resample, now_ms);
    assert(r.captured =~= r.handed + r.l.resample_leftover);
    assert(r.conditioned =~= r.judged + r.l.unjudged + r.l.vad_leftover);
    lemma_run_on_beat(r, events);
    let after = session_run(r, events);
    if !needs_resample {
        assert(after.captured =~= after.handed);
    }
}

/// A continuous backend gets every judged frame, silence included, exactly once
/// and in order, and nothing else.
pub proof fn law_continuous_backend_gets_every_frame_once<T>(
    source: ActivitySource,
    needs_resample: bool,
    now_ms: u64,
    events: Seq<LoopEvent<T>>,
)
    requires
        told(fresh_run::<T>(AudioGating::Continuous, source, needs_resample, now_ms), events),
    ensures
        ({
            let r = session_run(
                fresh_run::<T>(AudioGating::Continuous, source, needs_resample, now_ms),
                events,
            );
            r.pushed == r.judged
        }),
{
    let r = fresh_run::<T>(AudioGating::Continuous, source, needs_resample, now_ms);
    assert(r.captured =~= r.handed + r.l.resample_leftover);
    assert(r.conditioned =~= r.judged + r.l.unjudged + r.l.vad_leftover);
    lemma_run_on_beat(r, events);
}

/// At an onset a gated backend gets the newest audio of the silence before it, up
/// to the ring buffer's capacity, directly followed by the frame that opened the
/// segment: one contiguous stretch, with nothing repeated.
pub proof fn law_onset_audio_is_contiguous<T>(
    v: VadView<T>,
    silence: Seq<(Single, Seq<T>)>,
    prob: Single,
    frame: Seq<T>,
    uptime_ms: i64,
    speech_start: Option<i64>,
)
    requires
        v.ring == Seq::<T>::empty(),
        vad::all_silent(v, silence),
        vad::opens(vad::vad_run(v, silence), prob),
    ensures
        ({
            let decision = vad::vad_step(vad::vad_run(v, silence), prob, frame).1;
            let all = vad::audio_of(silence) + frame;
            let pushed = pushed_audio(
                audio_engine::routed(
                    AudioGating::VadGated,
                    frame,
                    Some(decision),
                    uptime_ms,
                    speech_start,
                ),
            );
            &&& pushed == samples::newest(vad::audio_of(silence), v.ring_capacity as nat) + frame
            &&& pushed == all.skip(all.len() - pushed.len())
        }),
{
    vad::law_onset_hands_out_the_newest_audio(v, silence, prob, frame);
    let decision = vad::vad_step(vad::vad_run(v, silence), prob, frame).1;
    law_routing_pushes(AudioGating::VadGated, frame, Some(decision), uptime_ms, speech_start);
    let kept = samples::newest(vad::audio_of(silence), v.ring_capacity as nat);
    let all = vad::audio_of(silence) + frame;
    assert(kept + frame =~= all.skip(all.len() - (kept + frame).len()));
}

/// A transient error never ends a session: it is noted and the loop goes on.
pub proof fn law_transient_errors_keep_the_session<T>(l: LoopView<T>, event: LoopEvent<T>)
    requires
        match event {
            LoopEvent::Polled(Err(e)) => l.phase == LoopPhase::Polling && e is Transient,
            LoopEvent::Processed(Err(e)) => l.phase == LoopPhase::Processing && e is Transient,
            _ => false,
        },
    ensures
        ({
            let step = audio_engine::loop_step(l, event);
            &&& step.l.phase == LoopPhase::Sleeping || step.l.phase == LoopPhase::Top
            &&& forall|i: int|
                0 <= i < step.actions.len() ==> !((#[trigger] step.actions[i]) is Fail)
                    && !(step.actions[i] is EndSession)
        }),
{
}

/// A fatal error always ends a session: it is reported, the backend ends, and
/// whatever that brings, the loop returns.
pub proof fn law_fatal_errors_end_the_session<T>(
    l: LoopView<T>,
    event: LoopEvent<T>,
    ended: LoopEvent<T>,
)
    requires
        match event {
            LoopEvent::Polled(Err(e)) => l.phase == LoopPhase::Polling && e is Fatal,
            LoopEvent::Processed(Err(e)) => l.phase == LoopPhase::Processing && e is Fatal,
            _ => false,
        },
        ended is Ended,
    ensures
        ({
            let step = audio_engine::loop_step(l, event);
            &&& step.actions.last() is EndSession
            &&& exists|i: int| 0 <= i < step.actions.len() && (#[trigger] step.actions[i]) is Fail
            &&& audio_engine::loop_step(step.l, ended).l.phase == LoopPhase::Done
            &&& audio_engine::loop_step(step.l, ended).actions == seq![
                LoopActionView::<T>::Return,
            ]
        }),
{
    let step = audio_engine::loop_step(l, event);
    assert(step.actions[1] is Fail);
}

/// A stop request ends a session: the backend ends, its last updates go out, and
/// the loop returns.
pub proof fn law_stop_ends_the_session<T>(l: LoopView<T>, ended: LoopEvent<T>)
    requires
        l.phase == LoopPhase::Top,
        ended is Ended,
    ensures
        ({
            let step = audio_engine::loop_step(l, LoopEvent::Stop(true));
            let last = audio_engine::loop_step(step.l, ended);
            &&& step.actions == seq![LoopActionView::<T>::EndSession]
            &&& last.l.phase == LoopPhase::Done
            &&& last.actions.last() is Return
            &&& ended matches LoopEvent::Ended(Ok(updates)) ==> last.actions[0]
                == LoopActionView::<T>::Emit(crate::asr::updates_view(updates@))
        }),
{
}

// ---------------------------------------------------------------------------
// Between sessions
// ---------------------------------------------------------------------------

/// Whether a step belongs to a command.
pub open spec fn part_of(step: EngineStep, command: CommandKind) -> bool {
    match step {
        EngineStep::ListDevices => command == CommandKind::ListDevices,
        EngineStep::StopSession => command == CommandKind::Start || command == CommandKind::Stop,
        EngineStep::StartSession => command == CommandKind::Start,
        EngineStep::SwapStream => command == CommandKind::Reconnect,
        EngineStep::SetDiagnostics => command == CommandKind::UpdateSettings,
        EngineStep::ForwardSettings => command == CommandKind::UpdateSettings,
    }
}

/// A command has the steps that belong to it, each once; whatever starts a session stops
/// the one before, first.
pub proof fn law_a_command_has_its_steps(command: CommandKind, step: EngineStep, i: int, j: int)
    ensures
        ({
            let steps = audio_engine::steps_of(command);
            &&& steps.contains(step) <==> part_of(step, command)
            &&& 0 <= i < j < steps.len() ==> steps[i] != steps[j]
            &&& 0 <= i < steps.len() && steps[i] == EngineStep::StartSession ==> i > 0
                && steps[i - 1] == EngineStep::StopSession
        }),
{
    let steps = audio_engine::steps_of(command);
    if part_of(step, command) {
        assert(steps[0] == step || steps[1] == step);
    }
}

/// Kept models fit one request only: the one with the model path, the thread counts and
/// the provider that they were loaded for.
pub proof fn law_kept_models_fit_one_request(
    engine: AudioEngine,
    path: String,
    threads: (usize, usize),
    provider: String,
    other_path: Seq<char>,
    other_threads: (usize, usize),
    other_provider: Seq<char>,
)
    requires
        engine.cached_model_path == Some(path),
        engine.cached_model_config == Some(threads),
        engine.cached_backend_id == Some(provider),
    ensures
        engine.compatible(other_path, other_threads, other_provider) <==> other_path == path@
            && other_threads == threads && other_provider == provider@,
{
}

/// A session starts with nothing held of the one before, with chunks of the configured
/// duration, at the recognizer's rate, and with room for as many chunks to replay as it
/// takes empty ones to replay them.
pub proof fn law_a_session_starts_afresh<T>(s: Settings)
    requires
        16000 * s.chunk_ms <= usize::MAX,
    ensures
        ({
            let d = nemotron::session_decoder::<T>(s);
            &&& d.chunk_size == 16 * s.chunk_ms
            &&& d.buffer.len() == 0 && d.replay.len() == 0 && d.ends.len() == 0
            &&& d.pass is Idle && d.consumed == 0
            &&& d.chunk_num == 0 && d.consecutive_empty == 0 && d.chunks_since_reset == 0
            &&& d.replay_capacity == s.empty_reset_threshold
            &&& d.empty_reset_threshold == s.empty_reset_threshold
            &&& d.punctuation_reset == s.punctuation_reset
        }),
{
}

// ---------------------------------------------------------------------------
// Time
// ---------------------------------------------------------------------------

/// The pipeline's times fit together: a frame lasts as long as it says, at the one rate
/// that everything runs at; the meter stays lit for longer than the service is silent
/// between two answers, about a second; and the end of a session waits a little longer
/// than the connection does, so that the connection is what gives up first.
pub proof fn law_times_fit_together()
    ensures
        audio_engine::VAD_FRAME_SIZE == vad::VAD_CHUNK_SIZE,
        1000 * vad::VAD_CHUNK_SIZE == vad::VAD_FRAME_MS * vad::VAD_SAMPLE_RATE,
        audio_engine::ASR_SAMPLE_RATE == vad::VAD_SAMPLE_RATE,
        april::ASR_SAMPLE_RATE == audio_engine::ASR_SAMPLE_RATE,
        client::MAX_QUEUED_SAMPLES == 30 * audio_engine::ASR_SAMPLE_RATE,
        1_000 < backend::SPEECH_HOLD_MS <= 2_000,
        client::FINISH_TIMEOUT_MS < backend::FINISH_WAIT_MS < 2 * client::FINISH_TIMEOUT_MS,
        audio_engine::IDLE_SLEEP_MS < audio_engine::AUDIO_LEVEL_EMIT_INTERVAL_MS,
        wasapi_process::BYTES_PER_FRAME == 4 * wasapi_process::CAPTURE_CHANNELS,
        april::END_RESULT_WAIT_MS < april::END_WAIT_MS,
{
}

} // verus!
