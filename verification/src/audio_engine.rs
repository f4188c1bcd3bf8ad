//! The processing loop of a transcription session, and what the engine does
//! between sessions.
//!
//! The loop itself touches the capture buffer, models, sockets and the clock.
//! Whoever owns those performs the actions that a [`SessionLoop`] hands out and
//! reports what came of them; the loop decides what comes next.

use vstd::prelude::*;

use crate::asr;
use crate::asr::ActivitySource;
use crate::asr::AsrCapabilities;
use crate::asr::AsrError;
use crate::asr::AudioGating;
use crate::asr::TranscriptUpdate;
use crate::asr::UpdateView;
use crate::audio_capture;
use crate::audio_capture::AudioDevice;
use crate::samples;
use crate::text;
use crate::vad::DecisionView;
use crate::vad::VadDecision;
use crate::vad::VadState;

verus! {

pub const ASR_SAMPLE_RATE: usize = 16_000;

pub const VAD_FRAME_SIZE: usize = 512;

/// The level meter emits no faster than this.
pub const AUDIO_LEVEL_EMIT_INTERVAL_MS: u64 = 50;

/// How long the loop rests when nothing was captured.
pub const IDLE_SLEEP_MS: u64 = 10;

// ---------------------------------------------------------------------------
// Framing
// ---------------------------------------------------------------------------

/// Joins what was left over with what was drained, hands out the whole frames and
/// leaves the rest over.
pub fn take_complete_frames<T: Copy>(
    leftover: &mut Vec<T>,
    drained: &[T],
    frame_size: usize,
) -> (input: Vec<T>)
    requires
        frame_size > 0,
    ensures
        ({
            let all = old(leftover)@ + drained@;
            let n = all.len() as int / frame_size as int * frame_size as int;
            &&& input@ == all.take(n)
            &&& final(leftover)@ == samples::uncut(all, frame_size as int)
            &&& samples::cut(input@, frame_size as int) == samples::cut(all, frame_size as int)
        }),
{
    let ghost all = leftover@ + drained@;
    let mut input: Vec<T> = Vec::new();
    std::mem::swap(&mut input, leftover);
    samples::extend_copy(&mut input, drained);
    let whole: usize = input.len() / frame_size;
    proof {
        samples::lemma_cut_bounds(all, frame_size as int);
        lemma_cut_prefix(all, frame_size as int);
    }
    let complete_len: usize = whole * frame_size;
    let mut rest = input.split_off(complete_len);
    std::mem::swap(leftover, &mut rest);
    assert(input@ =~= all.take(complete_len as int));
    assert(leftover@ =~= samples::uncut(all, frame_size as int));
    input
}

/// The whole frames alone are cut into the same frames.
proof fn lemma_cut_prefix<T>(all: Seq<T>, n: int)
    requires
        n > 0,
    ensures
        samples::cut(all.take(all.len() as int / n * n), n) == samples::cut(all, n),
{
    samples::lemma_cut_bounds(all, n);
    let k = all.len() as int / n;
    let front = all.take(k * n);
    vstd::arithmetic::div_mod::lemma_div_multiples_vanish(k, n);
    assert(n * k == k * n) by (nonlinear_arith);
    assert(front.len() as int / n == k);
    assert forall|i: int| 0 <= i < k implies #[trigger] samples::cut(front, n)[i] == samples::cut(
        all,
        n,
    )[i] by {
        assert(i * n + n <= k * n && 0 <= i * n) by (nonlinear_arith)
            requires
                0 <= i < k,
                n > 0,
        ;
        assert(samples::cut(front, n)[i] =~= samples::cut(all, n)[i]);
    }
    assert(samples::cut(front, n) =~= samples::cut(all, n));
}

// ---------------------------------------------------------------------------
// What goes in and what comes out
// ---------------------------------------------------------------------------

/// Where the loop is.
#[derive(Clone, Copy, Debug, PartialEq, Eq, Structural)]
pub enum LoopPhase {
    /// The backend is beginning its session.
    Starting,
    /// Waiting for the stop flag.
    Top,
    /// Waiting for hot-reloaded settings to be applied.
    Settings,
    Draining,
    /// Nothing was captured: the backend is polled.
    Polling,
    Sleeping,
    /// Resampling, metering and gain control are at work.
    Conditioning,
    /// A frame is with the voice-activity model.
    Judging,
    /// Waiting for the clock.
    Metering,
    /// The backend is recognizing.
    Processing,
    /// The backend is ending its session on request.
    Ending,
    /// The backend is ending its session after a fatal error.
    Closing,
    Done,
}

/// Something that happened.
pub enum LoopEvent<T> {
    Began(Result<(), AsrError>),
    Stop(bool),
    SettingsApplied,
    /// What the capture buffer held, and how many samples the resampler takes at a
    /// time.
    Drained { samples: Vec<T>, resample_chunk: usize },
    Polled(Result<Vec<TranscriptUpdate>, AsrError>),
    Slept,
    Conditioned(Vec<T>),
    /// The decision on a frame, or `None` if the model failed on it.
    Judged { decision: Option<VadDecision<T>>, uptime_ms: i64 },
    Clock { now_ms: u64, vad_state: VadState, last_speech_at: Option<u64> },
    Processed(Result<Vec<TranscriptUpdate>, AsrError>),
    Ended(Result<Vec<TranscriptUpdate>, AsrError>),
}

/// Something to do, in order.
pub enum LoopAction<T> {
    CheckStop,
    CheckSettings,
    Drain,
    Poll,
    Sleep,
    Condition(Vec<T>),
    Judge(Vec<T>),
    MarkSpeechStart,
    LogSpeechStart { uptime_ms: i64, pre_samples: usize },
    PushAudio(Vec<T>),
    MarkSpeechEnd { uptime_ms: i64, speech_duration_ms: i64 },
    ReadClock,
    EmitLevel { speech_active: bool },
    Process { vad_state: VadState },
    Emit(Vec<TranscriptUpdate>),
    LogBackendError { fatal: bool, message: String },
    /// A notice that leaves the session running.
    Warn(String),
    /// An error that ends the session.
    Fail(String),
    EndSession,
    LogShutdown,
    /// The session is over; its models go back to the engine.
    Return,
    /// The session never ran.
    Abort(String),
}

/// What a [`LoopAction`] says.
#[verifier::ext_equal]
pub enum LoopActionView<T> {
    CheckStop,
    CheckSettings,
    Drain,
    Poll,
    Sleep,
    Condition(Seq<T>),
    Judge(Seq<T>),
    MarkSpeechStart,
    LogSpeechStart { uptime_ms: i64, pre_samples: int },
    PushAudio(Seq<T>),
    MarkSpeechEnd { uptime_ms: i64, speech_duration_ms: i64 },
    ReadClock,
    EmitLevel { speech_active: bool },
    Process { vad_state: VadState },
    Emit(Seq<UpdateView>),
    LogBackendError { fatal: bool, message: Seq<char> },
    Warn(Seq<char>),
    Fail(Seq<char>),
    EndSession,
    LogShutdown,
    Return,
    Abort(Seq<char>),
}

impl<T> View for LoopAction<T> {
    type V = LoopActionView<T>;

    open spec fn view(&self) -> LoopActionView<T> {
        match *self {
            LoopAction::CheckStop => LoopActionView::CheckStop,
            LoopAction::CheckSettings => LoopActionView::CheckSettings,
            LoopAction::Drain => LoopActionView::Drain,
            LoopAction::Poll => LoopActionView::Poll,
            LoopAction::Sleep => LoopActionView::Sleep,
            LoopAction::Condition(s) => LoopActionView::Condition(s@),
            LoopAction::Judge(s) => LoopActionView::Judge(s@),
            LoopAction::MarkSpeechStart => LoopActionView::MarkSpeechStart,
            LoopAction::LogSpeechStart { uptime_ms, pre_samples } => {
                LoopActionView::LogSpeechStart { uptime_ms, pre_samples: pre_samples as int }
            },
            LoopAction::PushAudio(s) => LoopActionView::PushAudio(s@),
            LoopAction::MarkSpeechEnd { uptime_ms, speech_duration_ms } => {
                LoopActionView::MarkSpeechEnd { uptime_ms, speech_duration_ms }
            },
            LoopAction::ReadClock => LoopActionView::ReadClock,
            LoopAction::EmitLevel { speech_active } => LoopActionView::EmitLevel { speech_active },
            LoopAction::Process { vad_state } => LoopActionView::Process { vad_state },
            LoopAction::Emit(u) => LoopActionView::Emit(asr::updates_view(u@)),
            LoopAction::LogBackendError { fatal, message } => LoopActionView::LogBackendError {
                fatal,
                message: message@,
            },
            LoopAction::Warn(m) => LoopActionView::Warn(m@),
            LoopAction::Fail(m) => LoopActionView::Fail(m@),
            LoopAction::EndSession => LoopActionView::EndSession,
            LoopAction::LogShutdown => LoopActionView::LogShutdown,
            LoopAction::Return => LoopActionView::Return,
            LoopAction::Abort(m) => LoopActionView::Abort(m@),
        }
    }
}

pub open spec fn loop_actions_view<T>(v: Seq<LoopAction<T>>) -> Seq<LoopActionView<T>> {
    Seq::new(v.len(), |i: int| v[i]@)
}

// ---------------------------------------------------------------------------
// The machine
// ---------------------------------------------------------------------------

/// What a [`SessionLoop`] holds.
#[verifier::ext_equal]
pub struct LoopView<T> {
    pub phase: LoopPhase,
    pub gating: AudioGating,
    pub source: ActivitySource,
    pub needs_resample: bool,
    /// Captured samples short of a resampler chunk.
    pub resample_leftover: Seq<T>,
    /// Conditioned samples short of a frame.
    pub vad_leftover: Seq<T>,
    /// Whole frames still to judge, the one being judged first.
    pub unjudged: Seq<T>,
    pub speech_start: Option<i64>,
    pub last_level_ms: u64,
}

/// One step: the loop after it, and what to do.
#[verifier::ext_equal]
pub struct LoopStep<T> {
    pub l: LoopView<T>,
    pub actions: Seq<LoopActionView<T>>,
}

/// How long the speech segment lasted that ends now; nothing, if its start is not
/// known.
pub open spec fn speech_duration(speech_start: Option<i64>, uptime_ms: i64) -> int {
    match speech_start {
        Some(start) => uptime_ms - start,
        None => 0,
    }
}

/// How a frame is routed to the backend.
///
/// A gated backend gets speech only: the audio from just before an onset, then
/// each speech frame. A continuous one gets every frame exactly once, whatever
/// the decision on it, and never the audio from before an onset, which it has
/// already.
pub open spec fn routed<T>(
    gating: AudioGating,
    frame: Seq<T>,
    decision: Option<DecisionView<T>>,
    uptime_ms: i64,
    speech_start: Option<i64>,
) -> Seq<LoopActionView<T>> {
    let push = LoopActionView::PushAudio(frame);
    let end = LoopActionView::MarkSpeechEnd {
        uptime_ms,
        speech_duration_ms: speech_duration(speech_start, uptime_ms) as i64,
    };
    match gating {
        AudioGating::VadGated => match decision {
            None => Seq::empty(),
            Some(DecisionView::Silence) => Seq::empty(),
            Some(DecisionView::SpeechStarted(pre)) => seq![
                LoopActionView::MarkSpeechStart,
                LoopActionView::LogSpeechStart { uptime_ms, pre_samples: pre.len() as int },
                LoopActionView::PushAudio(pre),
                push,
            ],
            Some(DecisionView::SpeechContinues) => seq![push],
            Some(DecisionView::SpeechEnded) => seq![push, end],
        },
        AudioGating::Continuous => match decision {
            Some(DecisionView::SpeechStarted(pre)) => seq![
                push,
                LoopActionView::MarkSpeechStart,
                LoopActionView::LogSpeechStart { uptime_ms, pre_samples: pre.len() as int },
            ],
            Some(DecisionView::SpeechEnded) => seq![push, end],
            _ => seq![push],
        },
    }
}

pub open spec fn decision_view<T>(decision: Option<VadDecision<T>>) -> Option<DecisionView<T>> {
    match decision {
        Some(d) => Some(d@),
        None => None,
    }
}

/// When the current speech segment started, after a decision.
pub open spec fn speech_start_after<T>(
    speech_start: Option<i64>,
    decision: Option<DecisionView<T>>,
    uptime_ms: i64,
) -> Option<i64> {
    match decision {
        Some(DecisionView::SpeechStarted(_)) => Some(uptime_ms),
        Some(DecisionView::SpeechEnded) => None,
        _ => speech_start,
    }
}

/// Asks for a decision on the next frame, or, behind the last one, for the clock.
pub open spec fn judging<T>(l: LoopView<T>) -> LoopStep<T> {
    if l.unjudged.len() >= VAD_FRAME_SIZE {
        LoopStep {
            l: LoopView { phase: LoopPhase::Judging, ..l },
            actions: seq![LoopActionView::Judge(l.unjudged.take(VAD_FRAME_SIZE as int))],
        }
    } else {
        LoopStep {
            l: LoopView { phase: LoopPhase::Metering, ..l },
            actions: seq![LoopActionView::ReadClock],
        }
    }
}

/// Whether the meter shows that speech is being heard: by the voice-activity
/// state, or by the backend's own evidence while it is fresh.
pub open spec fn speech_active_of(
    source: ActivitySource,
    vad_state: VadState,
    last_speech_at: Option<u64>,
    now_ms: u64,
) -> bool {
    match source {
        ActivitySource::Vad => vad_state == VadState::Speech,
        ActivitySource::Backend { hold_ms } => match last_speech_at {
            Some(at) => (if at <= now_ms {
                now_ms - at
            } else {
                0
            }) < hold_ms,
            None => false,
        },
    }
}

/// A backend error in the middle of a session. A transient one is noted and the
/// loop goes on with `then`; a fatal one closes the session.
pub open spec fn erred<T>(
    l: LoopView<T>,
    e: AsrError,
    next: LoopPhase,
    then_do: LoopActionView<T>,
) -> LoopStep<T> {
    match e {
        AsrError::Transient(m) => LoopStep {
            l: LoopView { phase: next, ..l },
            actions: seq![
                LoopActionView::LogBackendError { fatal: false, message: m@ },
                LoopActionView::Warn(m@),
                then_do,
            ],
        },
        AsrError::Fatal(m) => LoopStep {
            l: LoopView { phase: LoopPhase::Closing, ..l },
            actions: seq![
                LoopActionView::LogBackendError { fatal: true, message: m@ },
                LoopActionView::Fail("Transcription error: "@ + m@),
                LoopActionView::EndSession,
            ],
        },
    }
}

/// What follows an event. An event that does not belong to the phase changes
/// nothing.
pub open spec fn loop_step<T>(l: LoopView<T>, event: LoopEvent<T>) -> LoopStep<T> {
    let nothing = LoopStep { l, actions: Seq::empty() };
    match l.phase {
        LoopPhase::Starting => match event {
            LoopEvent::Began(Ok(_)) => LoopStep {
                l: LoopView { phase: LoopPhase::Top, ..l },
                actions: seq![LoopActionView::CheckStop],
            },
            LoopEvent::Began(Err(e)) => LoopStep {
                l: LoopView { phase: LoopPhase::Done, ..l },
                actions: seq![
                    LoopActionView::LogBackendError { fatal: true, message: e.text() },
                    LoopActionView::Abort(e.text()),
                ],
            },
            _ => nothing,
        },
        LoopPhase::Top => match event {
            LoopEvent::Stop(true) => LoopStep {
                l: LoopView { phase: LoopPhase::Ending, ..l },
                actions: seq![LoopActionView::EndSession],
            },
            LoopEvent::Stop(false) => LoopStep {
                l: LoopView { phase: LoopPhase::Settings, ..l },
                actions: seq![LoopActionView::CheckSettings],
            },
            _ => nothing,
        },
        LoopPhase::Settings => match event {
            LoopEvent::SettingsApplied => LoopStep {
                l: LoopView { phase: LoopPhase::Draining, ..l },
                actions: seq![LoopActionView::Drain],
            },
            _ => nothing,
        },
        LoopPhase::Draining => match event {
            LoopEvent::Drained { samples, resample_chunk } => drained(
                l,
                samples@,
                resample_chunk as int,
            ),
            _ => nothing,
        },
        LoopPhase::Polling => match event {
            LoopEvent::Polled(Ok(updates)) => LoopStep {
                l: LoopView { phase: LoopPhase::Sleeping, ..l },
                actions: seq![
                    LoopActionView::Emit(asr::updates_view(updates@)),
                    LoopActionView::Sleep,
                ],
            },
            LoopEvent::Polled(Err(e)) => erred(
                l,
                e,
                LoopPhase::Sleeping,
                LoopActionView::Sleep,
            ),
            _ => nothing,
        },
        LoopPhase::Sleeping => match event {
            LoopEvent::Slept => LoopStep {
                l: LoopView { phase: LoopPhase::Top, ..l },
                actions: seq![LoopActionView::CheckStop],
            },
            _ => nothing,
        },
        LoopPhase::Conditioning => match event {
            LoopEvent::Conditioned(samples) => conditioned(l, samples@),
            _ => nothing,
        },
        LoopPhase::Judging => match event {
            LoopEvent::Judged { decision, uptime_ms } => judged(
                l,
                decision_view(decision),
                uptime_ms,
            ),
            _ => nothing,
        },
        LoopPhase::Metering => match event {
            LoopEvent::Clock { now_ms, vad_state, last_speech_at } => metered(
                l,
                now_ms,
                vad_state,
                last_speech_at,
            ),
            _ => nothing,
        },
        LoopPhase::Processing => match event {
            LoopEvent::Processed(Ok(updates)) => LoopStep {
                l: LoopView { phase: LoopPhase::Top, ..l },
                actions: seq![
                    LoopActionView::Emit(asr::updates_view(updates@)),
                    LoopActionView::CheckStop,
                ],
            },
            LoopEvent::Processed(Err(e)) => erred(
                l,
                e,
                LoopPhase::Top,
                LoopActionView::CheckStop,
            ),
            _ => nothing,
        },
        LoopPhase::Ending => match event {
            LoopEvent::Ended(Ok(updates)) => LoopStep {
                l: LoopView { phase: LoopPhase::Done, ..l },
                actions: seq![
                    LoopActionView::Emit(asr::updates_view(updates@)),
                    LoopActionView::LogShutdown,
                    LoopActionView::Return,
                ],
            },
            LoopEvent::Ended(Err(e)) => LoopStep {
                l: LoopView { phase: LoopPhase::Done, ..l },
                actions: seq![
                    LoopActionView::LogBackendError { fatal: true, message: e.text() },
                    LoopActionView::LogShutdown,
                    LoopActionView::Return,
                ],
            },
            _ => nothing,
        },
        LoopPhase::Closing => match event {
            LoopEvent::Ended(_) => LoopStep {
                l: LoopView { phase: LoopPhase::Done, ..l },
                actions: seq![LoopActionView::Return],
            },
            _ => nothing,
        },
        LoopPhase::Done => nothing,
    }
}

/// Nothing captured means a poll; anything else is conditioned, by whole resampler
/// chunks where the rates differ.
pub open spec fn drained<T>(l: LoopView<T>, samples: Seq<T>, chunk: int) -> LoopStep<T> {
    if samples.len() == 0 {
        LoopStep {
            l: LoopView { phase: LoopPhase::Polling, ..l },
            actions: seq![LoopActionView::Poll],
        }
    } else if l.needs_resample {
        let all = l.resample_leftover + samples;
        LoopStep {
            l: LoopView {
                phase: LoopPhase::Conditioning,
                resample_leftover: samples::uncut(all, chunk),
                ..l
            },
            actions: seq![
                LoopActionView::Condition(all.take(all.len() as int / chunk * chunk)),
            ],
        }
    } else {
        LoopStep {
            l: LoopView { phase: LoopPhase::Conditioning, ..l },
            actions: seq![LoopActionView::Condition(samples)],
        }
    }
}

/// Conditioned samples are cut into frames behind what was left over.
pub open spec fn conditioned<T>(l: LoopView<T>, samples: Seq<T>) -> LoopStep<T> {
    let all = l.vad_leftover + samples;
    let n = VAD_FRAME_SIZE as int;
    judging(
        LoopView {
            vad_leftover: samples::uncut(all, n),
            unjudged: all.take(all.len() as int / n * n),
            ..l
        },
    )
}

/// The judged frame is routed, then the next one is judged.
pub open spec fn judged<T>(
    l: LoopView<T>,
    decision: Option<DecisionView<T>>,
    uptime_ms: i64,
) -> LoopStep<T> {
    let frame = l.unjudged.take(VAD_FRAME_SIZE as int);
    let step = judging(
        LoopView {
            unjudged: l.unjudged.skip(VAD_FRAME_SIZE as int),
            speech_start: speech_start_after(l.speech_start, decision, uptime_ms),
            ..l
        },
    );
    LoopStep {
        l: step.l,
        actions: routed(l.gating, frame, decision, uptime_ms, l.speech_start) + step.actions,
    }
}

/// The level goes out if it is due; then the backend recognizes.
pub open spec fn metered<T>(
    l: LoopView<T>,
    now_ms: u64,
    vad_state: VadState,
    last_speech_at: Option<u64>,
) -> LoopStep<T> {
    let process = LoopActionView::Process { vad_state };
    if now_ms - l.last_level_ms >= AUDIO_LEVEL_EMIT_INTERVAL_MS {
        LoopStep {
            l: LoopView { phase: LoopPhase::Processing, last_level_ms: now_ms, ..l },
            actions: seq![
                LoopActionView::EmitLevel {
                    speech_active: speech_active_of(l.source, vad_state, last_speech_at, now_ms),
                },
                process,
            ],
        }
    } else {
        LoopStep { l: LoopView { phase: LoopPhase::Processing, ..l }, actions: seq![process] }
    }
}

pub struct SessionLoop<T> {
    phase: LoopPhase,
    gating: AudioGating,
    source: ActivitySource,
    needs_resample: bool,
    resample_leftover: Vec<T>,
    vad_leftover: Vec<T>,
    frames: Vec<T>,
    at: usize,
    speech_start: Option<i64>,
    last_level_ms: u64,
}

impl<T: Copy> View for SessionLoop<T> {
    type V = LoopView<T>;

    closed spec fn view(&self) -> LoopView<T> {
        LoopView {
            phase: self.phase,
            gating: self.gating,
            source: self.source,
            needs_resample: self.needs_resample,
            resample_leftover: self.resample_leftover@,
            vad_leftover: self.vad_leftover@,
            unjudged: self.frames@.skip(self.at as int),
            speech_start: self.speech_start,
            last_level_ms: self.last_level_ms,
        }
    }
}

/// What the loop can be told: a resampler takes at least one sample at a time, and
/// the length of a speech segment fits its type.
pub open spec fn tellable<T>(l: LoopView<T>, event: LoopEvent<T>) -> bool {
    match event {
        LoopEvent::Drained { resample_chunk, .. } => l.needs_resample ==> resample_chunk > 0,
        LoopEvent::Judged { uptime_ms, .. } => i64::MIN <= speech_duration(
            l.speech_start,
            uptime_ms,
        ) <= i64::MAX,
        _ => true,
    }
}

fn plan<T>(actions: &mut Vec<LoopAction<T>>, action: LoopAction<T>)
    ensures
        loop_actions_view(final(actions)@) == loop_actions_view(old(actions)@).push(action@),
{
    let ghost before = actions@;
    actions.push(action);
    assert(loop_actions_view(actions@) =~= loop_actions_view(before).push(action@));
}

impl<T: Copy> SessionLoop<T> {
    /// While a frame is being judged there is one.
    pub closed spec fn wf(self) -> bool {
        &&& self.at <= self.frames@.len()
        &&& self.phase == LoopPhase::Judging ==> self.at + VAD_FRAME_SIZE <= self.frames@.len()
    }

    pub proof fn lemma_wf(self)
        requires
            self.wf(),
        ensures
            self@.phase == LoopPhase::Judging ==> self@.unjudged.len() >= VAD_FRAME_SIZE,
    {
    }

    /// The loop for a backend with these capabilities, fed at `input_rate`.
    pub fn new(caps: &AsrCapabilities, input_rate: usize, now_ms: u64) -> (r: Self)
        ensures
            r.wf(),
            r@ == (LoopView::<T> {
                phase: LoopPhase::Starting,
                gating: caps.audio_gating,
                source: caps.activity_source,
                needs_resample: input_rate != ASR_SAMPLE_RATE,
                resample_leftover: Seq::empty(),
                vad_leftover: Seq::empty(),
                unjudged: Seq::empty(),
                speech_start: None,
                last_level_ms: now_ms,
            }),
    {
        let r = SessionLoop {
            phase: LoopPhase::Starting,
            gating: caps.audio_gating,
            source: caps.activity_source,
            needs_resample: input_rate != ASR_SAMPLE_RATE,
            resample_leftover: Vec::new(),
            vad_leftover: Vec::new(),
            frames: Vec::new(),
            at: 0,
            speech_start: None,
            last_level_ms: now_ms,
        };
        assert(r@.unjudged =~= Seq::<T>::empty());
        r
    }

    pub fn phase(&self) -> (r: LoopPhase)
        ensures
            r == self@.phase,
    {
        self.phase
    }

    /// When the current speech segment started.
    pub fn speech_start(&self) -> (r: Option<i64>)
        ensures
            r == self@.speech_start,
    {
        self.speech_start
    }

    fn judge(&mut self, actions: &mut Vec<LoopAction<T>>)
        requires
            old(self).at <= old(self).frames@.len(),
        ensures
            final(self).wf(),
            final(self)@ == judging(old(self)@).l,
            loop_actions_view(final(actions)@) == loop_actions_view(old(actions)@) + judging(
                old(self)@,
            ).actions,
    {
        let ghost step = judging(self@);
        let ghost before = loop_actions_view(actions@);
        if self.frames.len() - self.at >= VAD_FRAME_SIZE {
            self.phase = LoopPhase::Judging;
            let frame = samples::copy_range(
                self.frames.as_slice(),
                self.at,
                self.at + VAD_FRAME_SIZE,
            );
            assert(frame@ =~= self@.unjudged.take(VAD_FRAME_SIZE as int));
            plan(actions, LoopAction::Judge(frame));
        } else {
            self.phase = LoopPhase::Metering;
            plan(actions, LoopAction::ReadClock);
        }
        assert(loop_actions_view(actions@) =~= before + step.actions);
    }

    fn drained(&mut self, samples: Vec<T>, chunk: usize, actions: &mut Vec<LoopAction<T>>)
        requires
            old(self).wf(),
            old(self).phase == LoopPhase::Draining,
            old(self).needs_resample ==> chunk > 0,
            old(actions)@.len() == 0,
        ensures
            final(self).wf(),
            final(self)@ == drained(old(self)@, samples@, chunk as int).l,
            loop_actions_view(final(actions)@) == drained(
                old(self)@,
                samples@,
                chunk as int,
            ).actions,
    {
        let ghost step = drained(self@, samples@, chunk as int);
        if samples.len() == 0 {
            self.phase = LoopPhase::Polling;
            plan(actions, LoopAction::Poll);
        } else if self.needs_resample {
            self.phase = LoopPhase::Conditioning;
            let input = take_complete_frames(
                &mut self.resample_leftover,
                samples.as_slice(),
                chunk,
            );
            plan(actions, LoopAction::Condition(input));
        } else {
            self.phase = LoopPhase::Conditioning;
            plan(actions, LoopAction::Condition(samples));
        }
        assert(loop_actions_view(actions@) =~= step.actions);
    }

    fn conditioned(&mut self, samples: Vec<T>, actions: &mut Vec<LoopAction<T>>)
        requires
            old(self).wf(),
            old(self).phase == LoopPhase::Conditioning,
            old(actions)@.len() == 0,
        ensures
            final(self).wf(),
            final(self)@ == conditioned(old(self)@, samples@).l,
            loop_actions_view(final(actions)@) == conditioned(old(self)@, samples@).actions,
    {
        let ghost step = conditioned(self@, samples@);
        let ghost all = self.vad_leftover@ + samples@;
        self.frames = take_complete_frames(
            &mut self.vad_leftover,
            samples.as_slice(),
            VAD_FRAME_SIZE,
        );
        self.at = 0;
        assert(self@.unjudged =~= all.take(
            all.len() as int / VAD_FRAME_SIZE as int * VAD_FRAME_SIZE as int,
        ));
        self.judge(actions);
        assert(loop_actions_view(actions@) =~= step.actions);
    }

    fn route(
        &self,
        frame: Vec<T>,
        decision: Option<VadDecision<T>>,
        uptime_ms: i64,
        actions: &mut Vec<LoopAction<T>>,
    )
        requires
            i64::MIN <= speech_duration(self.speech_start, uptime_ms) <= i64::MAX,
            old(actions)@.len() == 0,
        ensures
            loop_actions_view(final(actions)@) == routed(
                self.gating,
                frame@,
                decision_view(decision),
                uptime_ms,
                self.speech_start,
            ),
    {
        let ghost expected = routed(
            self.gating,
            frame@,
            decision_view(decision),
            uptime_ms,
            self.speech_start,
        );
        let speech_duration_ms: i64 = match self.speech_start {
            Some(start) => uptime_ms - start,
            None => 0,
        };
        match self.gating {
            AudioGating::VadGated => match decision {
                None => {},
                Some(VadDecision::Silence) => {},
                Some(VadDecision::SpeechStarted { pre_speech_samples }) => {
                    plan(actions, LoopAction::MarkSpeechStart);
                    plan(
                        actions,
                        LoopAction::LogSpeechStart {
                            uptime_ms,
                            pre_samples: pre_speech_samples.len(),
                        },
                    );
                    plan(actions, LoopAction::PushAudio(pre_speech_samples));
                    plan(actions, LoopAction::PushAudio(frame));
                },
                Some(VadDecision::SpeechContinues) => {
                    plan(actions, LoopAction::PushAudio(frame));
                },
                Some(VadDecision::SpeechEnded) => {
                    plan(actions, LoopAction::PushAudio(frame));
                    plan(actions, LoopAction::MarkSpeechEnd { uptime_ms, speech_duration_ms });
                },
            },
            AudioGating::Continuous => {
                plan(actions, LoopAction::PushAudio(frame));
                match decision {
                    Some(VadDecision::SpeechStarted { pre_speech_samples }) => {
                        plan(actions, LoopAction::MarkSpeechStart);
                        plan(
                            actions,
                            LoopAction::LogSpeechStart {
                                uptime_ms,
                                pre_samples: pre_speech_samples.len(),
                            },
                        );
                    },
                    Some(VadDecision::SpeechEnded) => {
                        plan(
                            actions,
                            LoopAction::MarkSpeechEnd { uptime_ms, speech_duration_ms },
                        );
                    },
                    _ => {},
                }
            },
        }
        assert(loop_actions_view(actions@) =~= expected);
    }

    fn judged(
        &mut self,
        decision: Option<VadDecision<T>>,
        uptime_ms: i64,
        actions: &mut Vec<LoopAction<T>>,
    )
        requires
            old(self).wf(),
            old(self).phase == LoopPhase::Judging,
            i64::MIN <= speech_duration(old(self).speech_start, uptime_ms) <= i64::MAX,
            old(actions)@.len() == 0,
        ensures
            final(self).wf(),
            ({
                let d = decision_view(decision);
                let step = judged(old(self)@, d, uptime_ms);
                &&& final(self)@ == step.l
                &&& loop_actions_view(final(actions)@) == step.actions
            }),
    {
        let ghost d = decision_view(decision);
        let ghost unjudged = self@.unjudged;
        assert(self.frames.len() == self.frames@.len());
        let frame = samples::copy_range(
            self.frames.as_slice(),
            self.at,
            self.at + VAD_FRAME_SIZE,
        );
        assert(frame@ =~= unjudged.take(VAD_FRAME_SIZE as int));
        let started = match &decision {
            Some(VadDecision::SpeechStarted { .. }) => true,
            _ => false,
        };
        let ended = match &decision {
            Some(VadDecision::SpeechEnded) => true,
            _ => false,
        };
        self.route(frame, decision, uptime_ms, actions);
        if started {
            self.speech_start = Some(uptime_ms);
        } else if ended {
            self.speech_start = None;
        }
        self.at = self.at + VAD_FRAME_SIZE;
        assert(self@.unjudged =~= unjudged.skip(VAD_FRAME_SIZE as int));
        self.judge(actions);
    }

    fn metered(
        &mut self,
        now_ms: u64,
        vad_state: VadState,
        last_speech_at: Option<u64>,
        actions: &mut Vec<LoopAction<T>>,
    )
        requires
            old(self).wf(),
            old(self).phase == LoopPhase::Metering,
            old(actions)@.len() == 0,
        ensures
            final(self).wf(),
            ({
                let step = metered(old(self)@, now_ms, vad_state, last_speech_at);
                &&& final(self)@ == step.l
                &&& loop_actions_view(final(actions)@) == step.actions
            }),
    {
        let ghost step = metered(self@, now_ms, vad_state, last_speech_at);
        self.phase = LoopPhase::Processing;
        if now_ms.saturating_sub(self.last_level_ms) >= AUDIO_LEVEL_EMIT_INTERVAL_MS {
            self.last_level_ms = now_ms;
            let speech_active = speech_active(self.source, vad_state, last_speech_at, now_ms);
            plan(actions, LoopAction::EmitLevel { speech_active });
        }
        plan(actions, LoopAction::Process { vad_state });
        assert(loop_actions_view(actions@) =~= step.actions);
    }

    fn erred(
        &mut self,
        e: AsrError,
        next: LoopPhase,
        then_do: LoopAction<T>,
        actions: &mut Vec<LoopAction<T>>,
    )
        requires
            old(self).wf(),
            next != LoopPhase::Judging,
            old(actions)@.len() == 0,
        ensures
            final(self).wf(),
            ({
                let step = erred(old(self)@, e, next, then_do@);
                &&& final(self)@ == step.l
                &&& loop_actions_view(final(actions)@) == step.actions
            }),
    {
        let ghost step = erred(self@, e, next, then_do@);
        match e {
            AsrError::Transient(m) => {
                self.phase = next;
                plan(actions, LoopAction::LogBackendError { fatal: false, message: m.clone() });
                plan(actions, LoopAction::Warn(m));
                plan(actions, then_do);
            },
            AsrError::Fatal(m) => {
                self.phase = LoopPhase::Closing;
                let shown = text::concat("Transcription error: ", m.as_str());
                plan(actions, LoopAction::LogBackendError { fatal: true, message: m });
                plan(actions, LoopAction::Fail(shown));
                plan(actions, LoopAction::EndSession);
            },
        }
        assert(loop_actions_view(actions@) =~= step.actions);
    }

    /// What to do after `event`.
    pub fn step(&mut self, event: LoopEvent<T>) -> (actions: Vec<LoopAction<T>>)
        requires
            old(self).wf(),
            tellable(old(self)@, event),
        ensures
            final(self).wf(),
            ({
                let step = loop_step(old(self)@, event);
                &&& final(self)@ == step.l
                &&& loop_actions_view(actions@) == step.actions
            }),
    {
        let ghost expected = loop_step(self@, event);
        let mut actions: Vec<LoopAction<T>> = Vec::new();
        assert(loop_actions_view(actions@) =~= Seq::<LoopActionView<T>>::empty());
        match self.phase {
            LoopPhase::Starting => match event {
                LoopEvent::Began(Ok(_)) => {
                    self.phase = LoopPhase::Top;
                    plan(&mut actions, LoopAction::CheckStop);
                },
                LoopEvent::Began(Err(e)) => {
                    self.phase = LoopPhase::Done;
                    plan(
                        &mut actions,
                        LoopAction::LogBackendError { fatal: true, message: e.to_text() },
                    );
                    plan(&mut actions, LoopAction::Abort(e.to_text()));
                },
                _ => {},
            },
            LoopPhase::Top => match event {
                LoopEvent::Stop(true) => {
                    self.phase = LoopPhase::Ending;
                    plan(&mut actions, LoopAction::EndSession);
                },
                LoopEvent::Stop(false) => {
                    self.phase = LoopPhase::Settings;
                    plan(&mut actions, LoopAction::CheckSettings);
                },
                _ => {},
            },
            LoopPhase::Settings => match event {
                LoopEvent::SettingsApplied => {
                    self.phase = LoopPhase::Draining;
                    plan(&mut actions, LoopAction::Drain);
                },
                _ => {},
            },
            LoopPhase::Draining => match event {
                LoopEvent::Drained { samples, resample_chunk } => self.drained(
                    samples,
                    resample_chunk,
                    &mut actions,
                ),
                _ => {},
            },
            LoopPhase::Polling => match event {
                LoopEvent::Polled(Ok(updates)) => {
                    self.phase = LoopPhase::Sleeping;
                    plan(&mut actions, LoopAction::Emit(updates));
                    plan(&mut actions, LoopAction::Sleep);
                },
                LoopEvent::Polled(Err(e)) => self.erred(
                    e,
                    LoopPhase::Sleeping,
                    LoopAction::Sleep,
                    &mut actions,
                ),
                _ => {},
            },
            LoopPhase::Sleeping => match event {
                LoopEvent::Slept => {
                    self.phase = LoopPhase::Top;
                    plan(&mut actions, LoopAction::CheckStop);
                },
                _ => {},
            },
            LoopPhase::Conditioning => match event {
                LoopEvent::Conditioned(samples) => self.conditioned(samples, &mut actions),
                _ => {},
            },
            LoopPhase::Judging => match event {
                LoopEvent::Judged { decision, uptime_ms } => self.judged(
                    decision,
                    uptime_ms,
                    &mut actions,
                ),
                _ => {},
            },
            LoopPhase::Metering => match event {
                LoopEvent::Clock { now_ms, vad_state, last_speech_at } => self.metered(
                    now_ms,
                    vad_state,
                    last_speech_at,
                    &mut actions,
                ),
                _ => {},
            },
            LoopPhase::Processing => match event {
                LoopEvent::Processed(Ok(updates)) => {
                    self.phase = LoopPhase::Top;
                    plan(&mut actions, LoopAction::Emit(updates));
                    plan(&mut actions, LoopAction::CheckStop);
                },
                LoopEvent::Processed(Err(e)) => self.erred(
                    e,
                    LoopPhase::Top,
                    LoopAction::CheckStop,
                    &mut actions,
                ),
                _ => {},
            },
            LoopPhase::Ending => match event {
                LoopEvent::Ended(Ok(updates)) => {
                    self.phase = LoopPhase::Done;
                    plan(&mut actions, LoopAction::Emit(updates));
                    plan(&mut actions, LoopAction::LogShutdown);
                    plan(&mut actions, LoopAction::Return);
                },
                LoopEvent::Ended(Err(e)) => {
                    self.phase = LoopPhase::Done;
                    plan(
                        &mut actions,
                        LoopAction::LogBackendError { fatal: true, message: e.to_text() },
                    );
                    plan(&mut actions, LoopAction::LogShutdown);
                    plan(&mut actions, LoopAction::Return);
                },
                _ => {},
            },
            LoopPhase::Closing => match event {
                LoopEvent::Ended(_) => {
                    self.phase = LoopPhase::Done;
                    plan(&mut actions, LoopAction::Return);
                },
                _ => {},
            },
            LoopPhase::Done => {},
        }
        assert(loop_actions_view(actions@) =~= expected.actions);
        actions
    }
}

/// Whether the meter shows that speech is being heard.
pub fn speech_active(
    source: ActivitySource,
    vad_state: VadState,
    last_speech_at: Option<u64>,
    now_ms: u64,
) -> (r: bool)
    ensures
        r == speech_active_of(source, vad_state, last_speech_at, now_ms),
{
    match source {
        ActivitySource::Vad => match vad_state {
            VadState::Speech => true,
            VadState::Silence => false,
        },
        ActivitySource::Backend { hold_ms } => match last_speech_at {
            Some(at) => now_ms.saturating_sub(at) < hold_ms,
            None => false,
        },
    }
}

// ---------------------------------------------------------------------------
// Between sessions
// ---------------------------------------------------------------------------

/// What the engine can be asked to do.
#[derive(Clone, Copy, Debug, PartialEq, Eq, Structural)]
pub enum CommandKind {
    ListDevices,
    Start,
    Stop,
    /// Swap the audio stream to a new device without restarting the processing
    /// thread.
    Reconnect,
    /// Push updated settings to the active processing thread.
    UpdateSettings,
}

/// A step in carrying out a command.
#[derive(Clone, Copy, Debug, PartialEq, Eq, Structural)]
pub enum EngineStep {
    /// Answer with the devices, by priority.
    ListDevices,
    StopSession,
    StartSession,
    SwapStream,
    /// Set the live diagnostics toggle.
    SetDiagnostics,
    /// Hand the settings to the session, if there is one.
    ForwardSettings,
}

/// The steps of a command, in order: a start always stops what is running first.
pub open spec fn steps_of(command: CommandKind) -> Seq<EngineStep> {
    match command {
        CommandKind::ListDevices => seq![EngineStep::ListDevices],
        CommandKind::Start => seq![EngineStep::StopSession, EngineStep::StartSession],
        CommandKind::Stop => seq![EngineStep::StopSession],
        CommandKind::Reconnect => seq![EngineStep::SwapStream],
        CommandKind::UpdateSettings => seq![
            EngineStep::SetDiagnostics,
            EngineStep::ForwardSettings,
        ],
    }
}

pub fn command_steps(command: CommandKind) -> (r: Vec<EngineStep>)
    ensures
        r@ == steps_of(command),
{
    let mut r: Vec<EngineStep> = Vec::new();
    match command {
        CommandKind::ListDevices => r.push(EngineStep::ListDevices),
        CommandKind::Start => {
            r.push(EngineStep::StopSession);
            r.push(EngineStep::StartSession);
        },
        CommandKind::Stop => r.push(EngineStep::StopSession),
        CommandKind::Reconnect => r.push(EngineStep::SwapStream),
        CommandKind::UpdateSettings => {
            r.push(EngineStep::SetDiagnostics);
            r.push(EngineStep::ForwardSettings);
        },
    }
    assert(r@ =~= steps_of(command));
    r
}

/// The device a session captures from: the one asked for, else the default among
/// `devices`.
pub fn session_device(asked: Option<String>, devices: &[AudioDevice]) -> (r: Result<String, String>)
    ensures
        match asked {
            Some(id) => r == Ok::<String, String>(id),
            None => match audio_capture::default_device(devices@) {
                Some(d) => r == Ok::<String, String>(d.id),
                None => r matches Err(e) && e@ == "No device available for capture"@,
            },
        },
{
    match asked {
        Some(id) => Ok(id),
        None => match audio_capture::select_default_device(devices) {
            Some(id) => Ok(id),
            None => Err("No device available for capture".to_owned()),
        },
    }
}

/// What happened to the processing thread of a session.
#[derive(Clone, Copy, Debug, PartialEq, Eq, Structural)]
pub enum JoinOutcome {
    /// It handed its models back.
    Models { cacheable: bool },
    /// It stopped on an error, without models.
    NoModels,
    Panicked,
}

/// What a session may reuse from the one before.
#[derive(Clone, Copy, Debug, PartialEq, Eq, Structural)]
pub struct CacheUse {
    pub backend: bool,
    pub vad: bool,
}

/// The engine's bookkeeping between sessions: whether one is running, and which
/// models are kept, under which identity.
pub struct AudioEngine {
    pub active: bool,
    pub cached_backend: bool,
    pub cached_backend_id: Option<String>,
    pub cached_vad: bool,
    pub cached_model_path: Option<String>,
    pub cached_model_config: Option<(usize, usize)>,
}

impl AudioEngine {
    /// The kept models are those that a session with this model path, these thread
    /// counts and this provider would load.
    pub open spec fn compatible(
        self,
        model_path: Seq<char>,
        model_config: (usize, usize),
        provider: Seq<char>,
    ) -> bool {
        &&& text::opt_view(self.cached_model_path) == Some(model_path)
        &&& self.cached_model_config == Some(model_config)
        &&& text::opt_view(self.cached_backend_id) == Some(provider)
    }

    pub fn new() -> (r: Self)
        ensures
            r == (AudioEngine {
                active: false,
                cached_backend: false,
                cached_backend_id: None,
                cached_vad: false,
                cached_model_path: None,
                cached_model_config: None,
            }),
    {
        AudioEngine {
            active: false,
            cached_backend: false,
            cached_backend_id: None,
            cached_vad: false,
            cached_model_path: None,
            cached_model_config: None,
        }
    }

    /// Takes the kept models out for a new session. What does not fit it is
    /// dropped.
    pub fn take_cached(
        &mut self,
        model_path: &str,
        model_config: (usize, usize),
        provider: &str,
    ) -> (r: CacheUse)
        ensures
            ({
                let fits = old(self).compatible(model_path@, model_config, provider@);
                &&& r.backend == (fits && old(self).cached_backend)
                &&& r.vad == (fits && old(self).cached_vad)
            }),
            *final(self) == (AudioEngine {
                cached_backend: false,
                cached_vad: false,
                ..*old(self)
            }),
    {
        let same_path = match &self.cached_model_path {
            Some(path) => text::same_text(path.as_str(), model_path),
            None => false,
        };
        let same_config = match self.cached_model_config {
            Some(config) => config.0 == model_config.0 && config.1 == model_config.1,
            None => false,
        };
        let same_provider = match &self.cached_backend_id {
            Some(id) => text::same_text(id.as_str(), provider),
            None => false,
        };
        let fits = same_path && same_config && same_provider;
        let r = CacheUse {
            backend: fits && self.cached_backend,
            vad: fits && self.cached_vad,
        };
        self.cached_backend = false;
        self.cached_vad = false;
        r
    }

    /// A session is running with these models.
    pub fn session_started(
        &mut self,
        model_path: String,
        model_config: (usize, usize),
        provider: String,
    )
        ensures
            *final(self) == (AudioEngine {
                active: true,
                cached_model_path: Some(model_path),
                cached_model_config: Some(model_config),
                cached_backend_id: Some(provider),
                ..*old(self)
            }),
    {
        self.active = true;
        self.cached_model_path = Some(model_path);
        self.cached_model_config = Some(model_config);
        self.cached_backend_id = Some(provider);
    }

    /// The session is over. What its thread handed back is kept; without that, or
    /// with a backend that cannot be kept, nothing is reused later. A crash has a
    /// message.
    pub fn session_joined(&mut self, outcome: JoinOutcome) -> (message: Option<String>)
        ensures
            final(self).active == false,
            match outcome {
                JoinOutcome::Models { cacheable } => {
                    &&& message is None
                    &&& final(self).cached_vad
                    &&& final(self).cached_backend == (cacheable || old(self).cached_backend)
                    &&& final(self).cached_backend_id == if cacheable {
                        old(self).cached_backend_id
                    } else {
                        None
                    }
                },
                JoinOutcome::NoModels => {
                    &&& message is None
                    &&& final(self).cached_vad == old(self).cached_vad
                    &&& final(self).cached_backend == old(self).cached_backend
                    &&& final(self).cached_backend_id is None
                },
                JoinOutcome::Panicked => {
                    &&& message is Some && message->0@ == "Transcription thread crashed."@
                    &&& final(self).cached_vad == old(self).cached_vad
                    &&& final(self).cached_backend == old(self).cached_backend
                    &&& final(self).cached_backend_id is None
                },
            },
            final(self).cached_model_path == old(self).cached_model_path,
            final(self).cached_model_config == old(self).cached_model_config,
    {
        self.active = false;
        match outcome {
            JoinOutcome::Models { cacheable } => {
                if cacheable {
                    self.cached_backend = true;
                } else {
                    self.cached_backend_id = None;
                }
                self.cached_vad = true;
                None
            },
            JoinOutcome::NoModels => {
                self.cached_backend_id = None;
                None
            },
            JoinOutcome::Panicked => {
                self.cached_backend_id = None;
                Some("Transcription thread crashed.".to_owned())
            },
        }
    }

    /// The session ended without a processing thread to join.
    pub fn session_cleared(&mut self)
        ensures
            *final(self) == (AudioEngine { active: false, ..*old(self) }),
    {
        self.active = false;
    }

    /// Only a running session can be moved to another device.
    pub fn can_reconnect(&self) -> (r: bool)
        ensures
            r == self.active,
    {
        self.active
    }
}

/// A session that failed leaves nothing for the next one: whatever that asks for,
/// no kept model fits it.
pub proof fn law_failed_session_is_not_reused(
    engine: AudioEngine,
    model_path: Seq<char>,
    model_config: (usize, usize),
    provider: Seq<char>,
)
    requires
        engine.cached_backend_id is None,
    ensures
        !engine.compatible(model_path, model_config, provider),
{
}

} // verus!
