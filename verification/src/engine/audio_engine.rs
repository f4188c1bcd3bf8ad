//! The processing loop of a session with a pluggable engine, and what is kept
//! between sessions.
//!
//! Whoever owns the capture buffer, the models, the engine and the clock performs
//! the actions that an [`EngineLoop`] hands out, in order. What a call of the engine
//! returned goes through [`EngineLoop::engine_result`] at once, before the next
//! action; what else came of an action is reported as an event.

use vstd::prelude::*;

use crate::asr::SegmentIds;
use crate::audio_engine;
use crate::audio_engine::take_complete_frames;
use crate::audio_engine::ASR_SAMPLE_RATE;
use crate::audio_engine::VAD_FRAME_SIZE;
use crate::bits::Single;
use crate::engine;
use crate::engine::tracker;
use crate::engine::tracker::SegmentTracker;
use crate::engine::EngineError;
use crate::engine::SegmentUpdate;
use crate::engine::SegmentView;
use crate::samples;
use crate::text;
use crate::vad;
use crate::vad::DecisionView;
use crate::vad::VadDecision;
use crate::vad::VadState;
use crate::vad::VadView;

verus! {

// ---------------------------------------------------------------------------
// What goes in and what comes out
// ---------------------------------------------------------------------------

/// Where the loop is.
#[derive(Clone, Copy, Debug, PartialEq, Eq, Structural)]
pub enum EnginePhase {
    /// The engine is beginning its session.
    Starting,
    /// Waiting for the stop flag.
    Top,
    /// Waiting for hot-reloaded settings to be applied.
    Settings,
    Draining,
    /// Nothing was captured: the engine is polled.
    Idle,
    Sleeping,
    /// Resampling and gain control are at work.
    Conditioning,
    /// A frame is with the voice-activity model.
    Judging,
    /// A speech segment has ended: waiting for the clock.
    Timing,
    /// The engine is polled behind the last frame.
    Finishing,
    /// The engine is ending its session.
    Ending,
    Done,
}

/// Something that happened.
pub enum EngineEvent<T> {
    Began(Result<(), EngineError>),
    Stop(bool),
    SettingsApplied,
    /// What the capture buffer held, and how many samples the resampler takes at a
    /// time.
    Drained { samples: Vec<T>, resample_chunk: usize },
    Polled,
    Slept,
    Conditioned(Vec<T>),
    /// The decision on a frame, or `None` if the model failed on it.
    Judged { decision: Option<VadDecision<T>>, uptime_ms: i64 },
    Clock { uptime_ms: i64 },
    Ended,
}

/// Something to do, in order.
pub enum EngineAction<T> {
    CheckStop,
    /// Apply hot-reloaded settings to voice activity, gain and engine, where there
    /// are any.
    CheckSettings,
    Drain,
    Sleep,
    Condition(Vec<T>),
    Judge(Vec<T>),
    LogSpeechStart { pre_samples: usize },
    /// Tell the engine that a segment opened.
    SpeechStart,
    Feed(Vec<T>),
    /// Tell the engine that the segment closed.
    SpeechEnd,
    ReadClock,
    LogSpeechEnd { speech_duration_ms: i64 },
    Poll,
    LogFeed { drain_samples: usize },
    EndSession,
    LogShutdown,
    /// The session is over; engine and voice-activity model go back.
    Return,
    /// The session never ran.
    Fail(String),
}

/// What an [`EngineAction`] says.
#[verifier::ext_equal]
pub enum EngineActionView<T> {
    CheckStop,
    CheckSettings,
    Drain,
    Sleep,
    Condition(Seq<T>),
    Judge(Seq<T>),
    LogSpeechStart { pre_samples: int },
    SpeechStart,
    Feed(Seq<T>),
    SpeechEnd,
    ReadClock,
    LogSpeechEnd { speech_duration_ms: i64 },
    Poll,
    LogFeed { drain_samples: usize },
    EndSession,
    LogShutdown,
    Return,
    Fail(Seq<char>),
}

impl<T> View for EngineAction<T> {
    type V = EngineActionView<T>;

    open spec fn view(&self) -> EngineActionView<T> {
        match *self {
            EngineAction::CheckStop => EngineActionView::CheckStop,
            EngineAction::CheckSettings => EngineActionView::CheckSettings,
            EngineAction::Drain => EngineActionView::Drain,
            EngineAction::Sleep => EngineActionView::Sleep,
            EngineAction::Condition(s) => EngineActionView::Condition(s@),
            EngineAction::Judge(s) => EngineActionView::Judge(s@),
            EngineAction::LogSpeechStart { pre_samples } => EngineActionView::LogSpeechStart {
                pre_samples: pre_samples as int,
            },
            EngineAction::SpeechStart => EngineActionView::SpeechStart,
            EngineAction::Feed(s) => EngineActionView::Feed(s@),
            EngineAction::SpeechEnd => EngineActionView::SpeechEnd,
            EngineAction::ReadClock => EngineActionView::ReadClock,
            EngineAction::LogSpeechEnd { speech_duration_ms } => EngineActionView::LogSpeechEnd {
                speech_duration_ms,
            },
            EngineAction::Poll => EngineActionView::Poll,
            EngineAction::LogFeed { drain_samples } => EngineActionView::LogFeed { drain_samples },
            EngineAction::EndSession => EngineActionView::EndSession,
            EngineAction::LogShutdown => EngineActionView::LogShutdown,
            EngineAction::Return => EngineActionView::Return,
            EngineAction::Fail(m) => EngineActionView::Fail(m@),
        }
    }
}

pub open spec fn engine_actions_view<T>(v: Seq<EngineAction<T>>) -> Seq<EngineActionView<T>> {
    Seq::new(v.len(), |i: int| v[i]@)
}

/// What becomes of what a call of the engine returned.
pub enum EngineReport {
    /// Segments to show, under global ids.
    Segments(Vec<SegmentUpdate>),
    /// An error to log; the session goes on.
    EngineError(String),
}

// ---------------------------------------------------------------------------
// The machine
// ---------------------------------------------------------------------------

/// What an [`EngineLoop`] holds, but for its segment ids.
#[verifier::ext_equal]
pub struct EngineLoopView<T> {
    pub phase: EnginePhase,
    pub needs_resample: bool,
    /// Captured samples short of a resampler chunk.
    pub resample_leftover: Seq<T>,
    /// Conditioned samples short of a frame.
    pub vad_leftover: Seq<T>,
    /// Whole frames still to judge, the one being judged first.
    pub unjudged: Seq<T>,
    pub speech_start: Option<i64>,
    /// How many samples this iteration drained.
    pub drain_samples: usize,
}

/// One step: the loop after it, and what to do.
#[verifier::ext_equal]
pub struct EngineStep<T> {
    pub l: EngineLoopView<T>,
    pub actions: Seq<EngineActionView<T>>,
}

/// What the decision on a frame means to the engine. Speech alone reaches it: at an
/// onset the audio from just before it, then each frame of the segment.
pub open spec fn engine_calls<T>(frame: Seq<T>, decision: Option<DecisionView<T>>) -> Seq<
    EngineActionView<T>,
> {
    match decision {
        None => Seq::empty(),
        Some(DecisionView::Silence) => Seq::empty(),
        Some(DecisionView::SpeechStarted(pre)) => seq![
            EngineActionView::LogSpeechStart { pre_samples: pre.len() as int },
            EngineActionView::SpeechStart,
            EngineActionView::Feed(pre),
            EngineActionView::Feed(frame),
        ],
        Some(DecisionView::SpeechContinues) => seq![EngineActionView::Feed(frame)],
        Some(DecisionView::SpeechEnded) => seq![
            EngineActionView::Feed(frame),
            EngineActionView::SpeechEnd,
        ],
    }
}

/// Asks for a decision on the next frame, or, behind the last one, polls the engine.
pub open spec fn judging<T>(l: EngineLoopView<T>) -> EngineStep<T> {
    if l.unjudged.len() >= VAD_FRAME_SIZE {
        EngineStep {
            l: EngineLoopView { phase: EnginePhase::Judging, ..l },
            actions: seq![EngineActionView::Judge(l.unjudged.take(VAD_FRAME_SIZE as int))],
        }
    } else {
        EngineStep {
            l: EngineLoopView { phase: EnginePhase::Finishing, ..l },
            actions: seq![EngineActionView::Poll],
        }
    }
}

/// Nothing captured means a poll; anything else is conditioned, by whole resampler
/// chunks where the rates differ.
pub open spec fn drained<T>(l: EngineLoopView<T>, samples: Seq<T>, chunk: int) -> EngineStep<T> {
    if samples.len() == 0 {
        EngineStep {
            l: EngineLoopView { phase: EnginePhase::Idle, ..l },
            actions: seq![EngineActionView::Poll],
        }
    } else if l.needs_resample {
        let all = l.resample_leftover + samples;
        EngineStep {
            l: EngineLoopView {
                phase: EnginePhase::Conditioning,
                resample_leftover: samples::uncut(all, chunk),
                drain_samples: samples.len() as usize,
                ..l
            },
            actions: seq![
                EngineActionView::Condition(all.take(all.len() as int / chunk * chunk)),
            ],
        }
    } else {
        EngineStep {
            l: EngineLoopView {
                phase: EnginePhase::Conditioning,
                drain_samples: samples.len() as usize,
                ..l
            },
            actions: seq![EngineActionView::Condition(samples)],
        }
    }
}

/// Conditioned samples are cut into frames behind what was left over.
pub open spec fn conditioned<T>(l: EngineLoopView<T>, samples: Seq<T>) -> EngineStep<T> {
    let all = l.vad_leftover + samples;
    let n = VAD_FRAME_SIZE as int;
    judging(
        EngineLoopView {
            vad_leftover: samples::uncut(all, n),
            unjudged: all.take(all.len() as int / n * n),
            ..l
        },
    )
}

/// The engine is told what the decision means to it; then the next frame is judged.
/// Where a segment ended, the clock is read first.
pub open spec fn judged<T>(
    l: EngineLoopView<T>,
    decision: Option<DecisionView<T>>,
    uptime_ms: i64,
) -> EngineStep<T> {
    let calls = engine_calls(l.unjudged.take(VAD_FRAME_SIZE as int), decision);
    let next = EngineLoopView {
        unjudged: l.unjudged.skip(VAD_FRAME_SIZE as int),
        speech_start: match decision {
            Some(DecisionView::SpeechStarted(_)) => Some(uptime_ms),
            _ => l.speech_start,
        },
        ..l
    };
    match decision {
        Some(DecisionView::SpeechEnded) => EngineStep {
            l: EngineLoopView { phase: EnginePhase::Timing, ..next },
            actions: calls + seq![EngineActionView::ReadClock],
        },
        _ => EngineStep { l: judging(next).l, actions: calls + judging(next).actions },
    }
}

/// The segment's length is logged; then the next frame is judged.
pub open spec fn timed<T>(l: EngineLoopView<T>, uptime_ms: i64) -> EngineStep<T> {
    let step = judging(EngineLoopView { speech_start: None, ..l });
    EngineStep {
        l: step.l,
        actions: seq![
            EngineActionView::LogSpeechEnd {
                speech_duration_ms: audio_engine::speech_duration(l.speech_start, uptime_ms) as i64,
            },
        ] + step.actions,
    }
}

/// What follows an event. An event that does not belong to the phase changes
/// nothing.
pub open spec fn engine_step<T>(l: EngineLoopView<T>, event: EngineEvent<T>) -> EngineStep<T> {
    let nothing = EngineStep { l, actions: Seq::empty() };
    let next = |phase: EnginePhase, action: EngineActionView<T>|
        EngineStep { l: EngineLoopView { phase, ..l }, actions: seq![action] };
    match (l.phase, event) {
        (EnginePhase::Starting, EngineEvent::Began(Ok(_))) => next(
            EnginePhase::Top,
            EngineActionView::CheckStop,
        ),
        (EnginePhase::Starting, EngineEvent::Began(Err(e))) => next(
            EnginePhase::Done,
            EngineActionView::Fail("Error: "@ + e.text()),
        ),
        (EnginePhase::Top, EngineEvent::Stop(true)) => next(
            EnginePhase::Ending,
            EngineActionView::EndSession,
        ),
        (EnginePhase::Top, EngineEvent::Stop(false)) => next(
            EnginePhase::Settings,
            EngineActionView::CheckSettings,
        ),
        (EnginePhase::Settings, EngineEvent::SettingsApplied) => next(
            EnginePhase::Draining,
            EngineActionView::Drain,
        ),
        (EnginePhase::Draining, EngineEvent::Drained { samples, resample_chunk }) => drained(
            l,
            samples@,
            resample_chunk as int,
        ),
        (EnginePhase::Idle, EngineEvent::Polled) => next(
            EnginePhase::Sleeping,
            EngineActionView::Sleep,
        ),
        (EnginePhase::Sleeping, EngineEvent::Slept) => next(
            EnginePhase::Top,
            EngineActionView::CheckStop,
        ),
        (EnginePhase::Conditioning, EngineEvent::Conditioned(samples)) => conditioned(l, samples@),
        (EnginePhase::Judging, EngineEvent::Judged { decision, uptime_ms }) => judged(
            l,
            audio_engine::decision_view(decision),
            uptime_ms,
        ),
        (EnginePhase::Timing, EngineEvent::Clock { uptime_ms }) => timed(l, uptime_ms),
        (EnginePhase::Finishing, EngineEvent::Polled) => EngineStep {
            l: EngineLoopView { phase: EnginePhase::Top, ..l },
            actions: seq![
                EngineActionView::LogFeed { drain_samples: l.drain_samples },
                EngineActionView::CheckStop,
            ],
        },
        (EnginePhase::Ending, EngineEvent::Ended) => EngineStep {
            l: EngineLoopView { phase: EnginePhase::Done, ..l },
            actions: seq![EngineActionView::LogShutdown, EngineActionView::Return],
        },
        _ => nothing,
    }
}

/// What the loop can be told: a resampler takes at least one sample at a time, and
/// the length of a speech segment fits its type.
pub open spec fn tellable<T>(l: EngineLoopView<T>, event: EngineEvent<T>) -> bool {
    match event {
        EngineEvent::Drained { resample_chunk, .. } => l.needs_resample ==> resample_chunk > 0,
        EngineEvent::Clock { uptime_ms } => i64::MIN <= audio_engine::speech_duration(
            l.speech_start,
            uptime_ms,
        ) <= i64::MAX,
        _ => true,
    }
}

/// The open segments and the next global id after any number of updates.
pub open spec fn left_open(open: Map<u64, u64>, next: u64, updates: Seq<SegmentView>) -> (
    Map<u64, u64>,
    u64,
)
    decreases updates.len(),
{
    if updates.len() == 0 {
        (open, next)
    } else {
        let r = tracker::remapped(open, next, updates[0]);
        left_open(r.open, r.next, updates.skip(1))
    }
}

pub struct EngineLoop<T> {
    phase: EnginePhase,
    needs_resample: bool,
    resample_leftover: Vec<T>,
    vad_leftover: Vec<T>,
    frames: Vec<T>,
    at: usize,
    speech_start: Option<i64>,
    drain_samples: usize,
    tracker: SegmentTracker,
}

impl<T: Copy> View for EngineLoop<T> {
    type V = EngineLoopView<T>;

    closed spec fn view(&self) -> EngineLoopView<T> {
        EngineLoopView {
            phase: self.phase,
            needs_resample: self.needs_resample,
            resample_leftover: self.resample_leftover@,
            vad_leftover: self.vad_leftover@,
            unjudged: self.frames@.skip(self.at as int),
            speech_start: self.speech_start,
            drain_samples: self.drain_samples,
        }
    }
}

fn plan<T>(actions: &mut Vec<EngineAction<T>>, action: EngineAction<T>)
    ensures
        engine_actions_view(final(actions)@) == engine_actions_view(old(actions)@).push(action@),
{
    let ghost before = actions@;
    actions.push(action);
    assert(engine_actions_view(actions@) =~= engine_actions_view(before).push(action@));
}

impl<T: Copy> EngineLoop<T> {
    /// While a frame is being judged there is one.
    pub closed spec fn wf(self) -> bool {
        &&& self.at <= self.frames@.len()
        &&& self.phase == EnginePhase::Judging ==> self.at + VAD_FRAME_SIZE <= self.frames@.len()
    }

    /// The global id of each open segment of the engine.
    pub closed spec fn open_segments(self) -> Map<u64, u64> {
        self.tracker@
    }

    /// The loop for a session fed at `input_rate`.
    pub fn new(input_rate: usize) -> (r: Self)
        ensures
            r.wf(),
            r.open_segments() == Map::<u64, u64>::empty(),
            r@ == (EngineLoopView::<T> {
                phase: EnginePhase::Starting,
                needs_resample: input_rate != ASR_SAMPLE_RATE,
                resample_leftover: Seq::empty(),
                vad_leftover: Seq::empty(),
                unjudged: Seq::empty(),
                speech_start: None,
                drain_samples: 0,
            }),
    {
        let r = EngineLoop {
            phase: EnginePhase::Starting,
            needs_resample: input_rate != ASR_SAMPLE_RATE,
            resample_leftover: Vec::new(),
            vad_leftover: Vec::new(),
            frames: Vec::new(),
            at: 0,
            speech_start: None,
            drain_samples: 0,
            tracker: SegmentTracker::new(),
        };
        assert(r@.unjudged =~= Seq::<T>::empty());
        r
    }

    pub fn phase(&self) -> (r: EnginePhase)
        ensures
            r == self@.phase,
    {
        self.phase
    }

    /// When the current speech segment started.
    pub fn speech_start(&self) -> (r: Option<i64>)
        ensures
            r == self@.speech_start,
    {
        self.speech_start
    }

    /// Takes what a call of the engine returned. Segments go out under global ids;
    /// an error is logged, and the session goes on.
    pub fn engine_result(
        &mut self,
        result: Result<Vec<SegmentUpdate>, EngineError>,
        ids: &mut SegmentIds,
    ) -> (r: EngineReport)
        requires
            old(self).wf(),
        ensures
            final(self).wf(),
            final(self)@ == old(self)@,
            match result {
                Ok(updates) => {
                    let u = engine::segments_view(updates@);
                    &&& r is Segments
                    &&& engine::segments_view(r->Segments_0@) == tracker::remapped_all(
                        old(self).open_segments(),
                        old(ids)@,
                        u,
                    )
                    &&& (final(self).open_segments(), final(ids)@) == left_open(
                        old(self).open_segments(),
                        old(ids)@,
                        u,
                    )
                },
                Err(e) => {
                    &&& r is EngineError
                    &&& r->EngineError_0@ == e.text()
                    &&& final(self).open_segments() == old(self).open_segments()
                    &&& final(ids)@ == old(ids)@
                },
            },
    {
        match result {
            Ok(updates) => {
                let ghost all = engine::segments_view(updates@);
                let ghost open = self.open_segments();
                let ghost first = ids@;
                let mut out: Vec<SegmentUpdate> = Vec::new();
                assert(all.skip(0) =~= all);
                assert(engine::segments_view(out@) =~= Seq::<SegmentView>::empty());
                assert(engine::segments_view(out@) + tracker::remapped_all(open, first, all)
                    =~= tracker::remapped_all(open, first, all));
                for update in it: updates
                    invariant
                        all == engine::segments_view(it.seq()),
                        self.wf(),
                        self@ == old(self)@,
                        engine::segments_view(out@) + tracker::remapped_all(
                            self.open_segments(),
                            ids@,
                            all.skip(it.index() as int),
                        ) == tracker::remapped_all(open, first, all),
                        left_open(self.open_segments(), ids@, all.skip(it.index() as int))
                            == left_open(open, first, all),
                {
                    let ghost before = out@;
                    let ghost rest = all.skip(it.index() as int);
                    let ghost r = tracker::remapped(self.open_segments(), ids@, rest[0]);
                    assert(rest[0] == update@);
                    let renamed = self.tracker.remap(update, ids);
                    out.push(renamed);
                    assert(rest.skip(1) =~= all.skip(it.index() as int + 1));
                    assert(engine::segments_view(out@) =~= engine::segments_view(before).push(
                        r.update,
                    ));
                    assert(engine::segments_view(out@) + tracker::remapped_all(
                        r.open,
                        r.next,
                        rest.skip(1),
                    ) =~= engine::segments_view(before) + (seq![r.update] + tracker::remapped_all(
                        r.open,
                        r.next,
                        rest.skip(1),
                    )));
                }
                assert(all.skip(all.len() as int) =~= Seq::<SegmentView>::empty());
                assert(engine::segments_view(out@) =~= tracker::remapped_all(open, first, all));
                EngineReport::Segments(out)
            },
            Err(e) => EngineReport::EngineError(e.to_text()),
        }
    }

    fn judge(&mut self, actions: &mut Vec<EngineAction<T>>)
        requires
            old(self).at <= old(self).frames@.len(),
        ensures
            final(self).wf(),
            final(self).open_segments() == old(self).open_segments(),
            final(self)@ == judging(old(self)@).l,
            engine_actions_view(final(actions)@) == engine_actions_view(old(actions)@) + judging(
                old(self)@,
            ).actions,
    {
        let ghost step = judging(self@);
        let ghost before = engine_actions_view(actions@);
        if self.frames.len() - self.at >= VAD_FRAME_SIZE {
            self.phase = EnginePhase::Judging;
            let frame = samples::copy_range(
                self.frames.as_slice(),
                self.at,
                self.at + VAD_FRAME_SIZE,
            );
            assert(frame@ =~= self@.unjudged.take(VAD_FRAME_SIZE as int));
            plan(actions, EngineAction::Judge(frame));
        } else {
            self.phase = EnginePhase::Finishing;
            plan(actions, EngineAction::Poll);
        }
        assert(engine_actions_view(actions@) =~= before + step.actions);
    }

    fn drained(&mut self, samples: Vec<T>, chunk: usize, actions: &mut Vec<EngineAction<T>>)
        requires
            old(self).wf(),
            old(self).phase == EnginePhase::Draining,
            old(self).needs_resample ==> chunk > 0,
            old(actions)@.len() == 0,
        ensures
            final(self).wf(),
            final(self).open_segments() == old(self).open_segments(),
            final(self)@ == drained(old(self)@, samples@, chunk as int).l,
            engine_actions_view(final(actions)@) == drained(
                old(self)@,
                samples@,
                chunk as int,
            ).actions,
    {
        let ghost step = drained(self@, samples@, chunk as int);
        if samples.len() == 0 {
            self.phase = EnginePhase::Idle;
            plan(actions, EngineAction::Poll);
        } else {
            self.phase = EnginePhase::Conditioning;
            self.drain_samples = samples.len();
            if self.needs_resample {
                let input = take_complete_frames(
                    &mut self.resample_leftover,
                    samples.as_slice(),
                    chunk,
                );
                plan(actions, EngineAction::Condition(input));
            } else {
                plan(actions, EngineAction::Condition(samples));
            }
        }
        assert(engine_actions_view(actions@) =~= step.actions);
    }

    fn conditioned(&mut self, samples: Vec<T>, actions: &mut Vec<EngineAction<T>>)
        requires
            old(self).wf(),
            old(self).phase == EnginePhase::Conditioning,
            old(actions)@.len() == 0,
        ensures
            final(self).wf(),
            final(self).open_segments() == old(self).open_segments(),
            final(self)@ == conditioned(old(self)@, samples@).l,
            engine_actions_view(final(actions)@) == conditioned(old(self)@, samples@).actions,
    {
        let ghost step = conditioned(self@, samples@);
        let ghost all = self.vad_leftover@ + samples@;
        self.frames = take_complete_frames(
            &mut self.vad_leftover,
            samples.as_slice(),
            VAD_FRAME_SIZE,
        );
        self.at = 0;
        assert(self@.unjudged =~= all.take(
            all.len() as int / VAD_FRAME_SIZE as int * VAD_FRAME_SIZE as int,
        ));
        self.judge(actions);
        assert(engine_actions_view(actions@) =~= step.actions);
    }

    fn judged(
        &mut self,
        decision: Option<VadDecision<T>>,
        uptime_ms: i64,
        actions: &mut Vec<EngineAction<T>>,
    )
        requires
            old(self).wf(),
            old(self).phase == EnginePhase::Judging,
            old(actions)@.len() == 0,
        ensures
            final(self).wf(),
            final(self).open_segments() == old(self).open_segments(),
            ({
                let d = audio_engine::decision_view(decision);
                let step = judged(old(self)@, d, uptime_ms);
                &&& final(self)@ == step.l
                &&& engine_actions_view(final(actions)@) == step.actions
            }),
    {
        let ghost step = judged(self@, audio_engine::decision_view(decision), uptime_ms);
        let ghost calls = engine_calls(
            self@.unjudged.take(VAD_FRAME_SIZE as int),
            audio_engine::decision_view(decision),
        );
        let ghost unjudged = self@.unjudged;
        assert(self.frames.len() == self.frames@.len());
        let frame = samples::copy_range(
            self.frames.as_slice(),
            self.at,
            self.at + VAD_FRAME_SIZE,
        );
        assert(frame@ =~= unjudged.take(VAD_FRAME_SIZE as int));
        self.at = self.at + VAD_FRAME_SIZE;
        assert(self@.unjudged =~= unjudged.skip(VAD_FRAME_SIZE as int));
        match decision {
            None | Some(VadDecision::Silence) => {},
            Some(VadDecision::SpeechStarted { pre_speech_samples }) => {
                self.speech_start = Some(uptime_ms);
                plan(
                    actions,
                    EngineAction::LogSpeechStart { pre_samples: pre_speech_samples.len() },
                );
                plan(actions, EngineAction::SpeechStart);
                plan(actions, EngineAction::Feed(pre_speech_samples));
                plan(actions, EngineAction::Feed(frame));
            },
            Some(VadDecision::SpeechContinues) => {
                plan(actions, EngineAction::Feed(frame));
            },
            Some(VadDecision::SpeechEnded) => {
                plan(actions, EngineAction::Feed(frame));
                plan(actions, EngineAction::SpeechEnd);
                assert(engine_actions_view(actions@) =~= calls);
                self.phase = EnginePhase::Timing;
                plan(actions, EngineAction::ReadClock);
                assert(engine_actions_view(actions@) =~= step.actions);
                return;
            },
        }
        assert(engine_actions_view(actions@) =~= calls);
        self.judge(actions);
    }

    fn timed(&mut self, uptime_ms: i64, actions: &mut Vec<EngineAction<T>>)
        requires
            old(self).wf(),
            old(self).phase == EnginePhase::Timing,
            i64::MIN <= audio_engine::speech_duration(old(self).speech_start, uptime_ms)
                <= i64::MAX,
            old(actions)@.len() == 0,
        ensures
            final(self).wf(),
            final(self).open_segments() == old(self).open_segments(),
            final(self)@ == timed(old(self)@, uptime_ms).l,
            engine_actions_view(final(actions)@) == timed(old(self)@, uptime_ms).actions,
    {
        let ghost step = timed(self@, uptime_ms);
        let speech_duration_ms: i64 = match self.speech_start {
            Some(start) => uptime_ms - start,
            None => 0,
        };
        self.speech_start = None;
        plan(actions, EngineAction::LogSpeechEnd { speech_duration_ms });
        self.judge(actions);
        assert(engine_actions_view(actions@) =~= step.actions);
    }

    /// What to do after `event`.
    pub fn step(&mut self, event: EngineEvent<T>) -> (actions: Vec<EngineAction<T>>)
        requires
            old(self).wf(),
            tellable(old(self)@, event),
        ensures
            final(self).wf(),
            final(self).open_segments() == old(self).open_segments(),
            final(self)@ == engine_step(old(self)@, event).l,
            engine_actions_view(actions@) == engine_step(old(self)@, event).actions,
    {
        let ghost expected = engine_step(self@, event);
        let mut actions: Vec<EngineAction<T>> = Vec::new();
        assert(engine_actions_view(actions@) =~= Seq::<EngineActionView<T>>::empty());
        match (self.phase, event) {
            (EnginePhase::Starting, EngineEvent::Began(Ok(_))) => {
                self.phase = EnginePhase::Top;
                plan(&mut actions, EngineAction::CheckStop);
            },
            (EnginePhase::Starting, EngineEvent::Began(Err(e))) => {
                self.phase = EnginePhase::Done;
                plan(
                    &mut actions,
                    EngineAction::Fail(text::concat("Error: ", e.to_text().as_str())),
                );
            },
            (EnginePhase::Top, EngineEvent::Stop(true)) => {
                self.phase = EnginePhase::Ending;
                plan(&mut actions, EngineAction::EndSession);
            },
            (EnginePhase::Top, EngineEvent::Stop(false)) => {
                self.phase = EnginePhase::Settings;
                plan(&mut actions, EngineAction::CheckSettings);
            },
            (EnginePhase::Settings, EngineEvent::SettingsApplied) => {
                self.phase = EnginePhase::Draining;
                plan(&mut actions, EngineAction::Drain);
            },
            (EnginePhase::Draining, EngineEvent::Drained { samples, resample_chunk }) => {
                self.drained(samples, resample_chunk, &mut actions);
            },
            (EnginePhase::Idle, EngineEvent::Polled) => {
                self.phase = EnginePhase::Sleeping;
                plan(&mut actions, EngineAction::Sleep);
            },
            (EnginePhase::Sleeping, EngineEvent::Slept) => {
                self.phase = EnginePhase::Top;
                plan(&mut actions, EngineAction::CheckStop);
            },
            (EnginePhase::Conditioning, EngineEvent::Conditioned(samples)) => {
                self.conditioned(samples, &mut actions);
            },
            (EnginePhase::Judging, EngineEvent::Judged { decision, uptime_ms }) => {
                self.judged(decision, uptime_ms, &mut actions);
            },
            (EnginePhase::Timing, EngineEvent::Clock { uptime_ms }) => {
                self.timed(uptime_ms, &mut actions);
            },
            (EnginePhase::Finishing, EngineEvent::Polled) => {
                self.phase = EnginePhase::Top;
                let drain_samples: usize = self.drain_samples;
                plan(&mut actions, EngineAction::LogFeed { drain_samples });
                plan(&mut actions, EngineAction::CheckStop);
            },
            (EnginePhase::Ending, EngineEvent::Ended) => {
                self.phase = EnginePhase::Done;
                plan(&mut actions, EngineAction::LogShutdown);
                plan(&mut actions, EngineAction::Return);
            },
            _ => {},
        }
        assert(engine_actions_view(actions@) =~= expected.actions);
        actions
    }
}

// ---------------------------------------------------------------------------
// Between sessions
// ---------------------------------------------------------------------------

/// Which engine, created with which config: engines of one identity are
/// interchangeable.
#[derive(Debug)]
pub struct EngineIdentity {
    pub engine_id: String,
    pub cache_key: u64,
}

/// Where a session's engine comes from.
#[derive(Clone, Copy, Debug, PartialEq, Eq, Structural)]
pub enum EngineChoice {
    /// The kept instance goes on, with its loaded model.
    Reuse,
    Create,
}

/// What happened to the processing thread of a session.
#[derive(Clone, Copy, Debug, PartialEq, Eq, Structural)]
pub enum JoinOutcome {
    /// It handed engine and voice-activity model back.
    Models,
    /// It stopped on an error, without them.
    NoModels,
    Panicked,
}

/// The bookkeeping between sessions: whether one is running, and what is kept.
pub struct AudioEngine {
    pub active: bool,
    pub cached_engine: Option<EngineIdentity>,
    pub cached_vad: bool,
    /// Identity of the engine running in the active session.
    pub pending: Option<EngineIdentity>,
}

impl AudioEngine {
    /// An engine of the given identity is kept.
    pub open spec fn keeps(self, engine_id: Seq<char>, cache_key: u64) -> bool {
        match self.cached_engine {
            Some(cached) => cached.engine_id@ == engine_id && cached.cache_key == cache_key,
            None => false,
        }
    }

    pub fn new() -> (r: Self)
        ensures
            r == (AudioEngine {
                active: false,
                cached_engine: None,
                cached_vad: false,
                pending: None,
            }),
    {
        AudioEngine { active: false, cached_engine: None, cached_vad: false, pending: None }
    }

    /// Takes the kept engine out for a new session. One that does not fit is
    /// dropped, and the voice-activity model with it.
    pub fn take_engine(&mut self, engine_id: &str, cache_key: u64) -> (r: EngineChoice)
        ensures
            r == if old(self).keeps(engine_id@, cache_key) {
                EngineChoice::Reuse
            } else {
                EngineChoice::Create
            },
            *final(self) == (AudioEngine {
                cached_engine: None,
                cached_vad: old(self).cached_vad && (old(self).cached_engine is None || old(
                    self,
                ).keeps(engine_id@, cache_key)),
                ..*old(self)
            }),
    {
        let fits = match &self.cached_engine {
            Some(cached) => text::same_text(cached.engine_id.as_str(), engine_id)
                && cached.cache_key == cache_key,
            None => false,
        };
        if self.cached_engine.is_some() && !fits {
            self.cached_vad = false;
        }
        self.cached_engine = None;
        if fits {
            EngineChoice::Reuse
        } else {
            EngineChoice::Create
        }
    }

    /// Takes the kept voice-activity model out, if there is one.
    pub fn take_vad(&mut self) -> (r: bool)
        ensures
            r == old(self).cached_vad,
            *final(self) == (AudioEngine { cached_vad: false, ..*old(self) }),
    {
        let r = self.cached_vad;
        self.cached_vad = false;
        r
    }

    /// A session is running with an engine of this identity.
    pub fn session_started(&mut self, engine_id: String, cache_key: u64)
        ensures
            *final(self) == (AudioEngine {
                active: true,
                cached_engine: None,
                pending: Some(EngineIdentity { engine_id, cache_key }),
                ..*old(self)
            }),
    {
        self.active = true;
        self.cached_engine = None;
        self.pending = Some(EngineIdentity { engine_id, cache_key });
    }

    /// The session is over. What its thread handed back is kept, under the identity
    /// it was started with.
    pub fn session_joined(&mut self, outcome: JoinOutcome)
        ensures
            *final(self) == match outcome {
                JoinOutcome::Models => AudioEngine {
                    active: false,
                    cached_engine: if old(self).pending is Some {
                        old(self).pending
                    } else {
                        old(self).cached_engine
                    },
                    cached_vad: true,
                    pending: None,
                },
                _ => AudioEngine { active: false, ..*old(self) },
            },
    {
        self.active = false;
        match outcome {
            JoinOutcome::Models => {
                if self.pending.is_some() {
                    let mut identity: Option<EngineIdentity> = None;
                    std::mem::swap(&mut identity, &mut self.pending);
                    self.cached_engine = identity;
                }
                self.cached_vad = true;
            },
            _ => {},
        }
    }

    /// The session ended without a processing thread to join.
    pub fn session_cleared(&mut self)
        ensures
            *final(self) == (AudioEngine { active: false, ..*old(self) }),
    {
        self.active = false;
    }

    /// Only a running session can be moved to another device.
    pub fn can_reconnect(&self) -> (r: bool)
        ensures
            r == self.active,
    {
        self.active
    }
}

/// The message where no engine of that id is registered.
pub fn engine_unavailable(engine_id: &str, available: &[&str]) -> (r: String)
    ensures
        r@ == "Speech engine '"@ + engine_id@ + "' is not available in this build (available: "@
            + text::joined_by(", "@, text::strs_view(available@)) + ")"@,
{
    let mut r = text::concat("Speech engine '", engine_id);
    r.append("' is not available in this build (available: ");
    r.append(text::join(", ", available).as_str());
    r.append(")");
    r
}

// ---------------------------------------------------------------------------
// Laws
// ---------------------------------------------------------------------------

/// The calls fit what the engine was told before: audio only inside a segment,
/// segments opened and closed in turn. `in_speech` says whether one is open.
pub open spec fn well_bracketed<T>(in_speech: bool, calls: Seq<EngineActionView<T>>) -> bool
    decreases calls.len(),
{
    if calls.len() == 0 {
        true
    } else {
        let rest = calls.skip(1);
        match calls[0] {
            EngineActionView::SpeechStart => !in_speech && well_bracketed(true, rest),
            EngineActionView::Feed(_) => in_speech && well_bracketed(in_speech, rest),
            EngineActionView::SpeechEnd => in_speech && well_bracketed(false, rest),
            _ => well_bracketed(in_speech, rest),
        }
    }
}

/// Everything the engine is told over a run of frames.
pub open spec fn calls_of_run<T>(v: VadView<T>, frames: Seq<(Single, Seq<T>)>) -> Seq<
    EngineActionView<T>,
>
    decreases frames.len(),
{
    if frames.len() == 0 {
        Seq::empty()
    } else {
        let (after, decision) = vad::vad_step(v, frames[0].0, frames[0].1);
        engine_calls(frames[0].1, Some(decision)) + calls_of_run(after, frames.skip(1))
    }
}

/// The engine hears speech only: over any run of frames it is fed between the
/// opening and the closing of a segment and at no other time.
pub proof fn law_engine_hears_speech_only<T>(v: VadView<T>, frames: Seq<(Single, Seq<T>)>)
    ensures
        well_bracketed(v.state == VadState::Speech, calls_of_run(v, frames)),
    decreases frames.len(),
{
    if frames.len() > 0 {
        let (after, decision) = vad::vad_step(v, frames[0].0, frames[0].1);
        let calls = engine_calls(frames[0].1, Some(decision));
        let rest = calls_of_run(after, frames.skip(1));
        law_engine_hears_speech_only(after, frames.skip(1));
        lemma_step_is_bracketed(v, frames[0].0, frames[0].1, rest);
    }
}

proof fn lemma_step_is_bracketed<T>(
    v: VadView<T>,
    prob: Single,
    frame: Seq<T>,
    rest: Seq<EngineActionView<T>>,
)
    requires
        well_bracketed(vad::vad_step(v, prob, frame).0.state == VadState::Speech, rest),
    ensures
        well_bracketed(
            v.state == VadState::Speech,
            engine_calls(frame, Some(vad::vad_step(v, prob, frame).1)) + rest,
        ),
{
    let (after, decision) = vad::vad_step(v, prob, frame);
    let all = engine_calls(frame, Some(decision)) + rest;
    reveal_with_fuel(well_bracketed, 5);
    match decision {
        DecisionView::Silence => {
            assert(all =~= rest);
        },
        DecisionView::SpeechStarted(pre) => {
            assert(all.skip(1).skip(1).skip(1).skip(1) =~= rest);
        },
        DecisionView::SpeechContinues => {
            assert(all.skip(1) =~= rest);
        },
        DecisionView::SpeechEnded => {
            assert(all.skip(1).skip(1) =~= rest);
        },
    }
}

/// At an onset the engine is told of it first, then gets the audio from before it,
/// then the frame, without anything between.
pub proof fn law_onset_comes_before_its_audio<T>(frame: Seq<T>, pre: Seq<T>)
    ensures
        ({
            let calls = engine_calls(frame, Some(DecisionView::SpeechStarted(pre)));
            &&& calls[1] == EngineActionView::<T>::SpeechStart
            &&& calls[2] == EngineActionView::Feed(pre)
            &&& calls[3] == EngineActionView::Feed(frame)
            &&& calls.len() == 4
        }),
{
}

/// A run so far: the loop, all audio captured, all audio handed out for
/// conditioning, all audio conditioned, all audio judged.
#[verifier::ext_equal]
pub struct EngineRun<T> {
    pub l: EngineLoopView<T>,
    pub captured: Seq<T>,
    pub handed: Seq<T>,
    pub conditioned: Seq<T>,
    pub judged: Seq<T>,
}

pub open spec fn fresh_run<T>(needs_resample: bool) -> EngineRun<T> {
    EngineRun {
        l: EngineLoopView {
            phase: EnginePhase::Starting,
            needs_resample,
            resample_leftover: Seq::empty(),
            vad_leftover: Seq::empty(),
            unjudged: Seq::empty(),
            speech_start: None,
            drain_samples: 0,
        },
        captured: Seq::empty(),
        handed: Seq::empty(),
        conditioned: Seq::empty(),
        judged: Seq::empty(),
    }
}

pub open spec fn run_step<T>(r: EngineRun<T>, event: EngineEvent<T>) -> EngineRun<T> {
    let step = engine_step(r.l, event);
    EngineRun {
        l: step.l,
        captured: match event {
            EngineEvent::Drained { samples, .. } if r.l.phase == EnginePhase::Draining => r.captured
                + samples@,
            _ => r.captured,
        },
        handed: if step.actions.len() > 0 && step.actions[0] is Condition {
            r.handed + step.actions[0]->Condition_0
        } else {
            r.handed
        },
        conditioned: match event {
            EngineEvent::Conditioned(samples) if r.l.phase == EnginePhase::Conditioning => {
                r.conditioned + samples@
            },
            _ => r.conditioned,
        },
        judged: match event {
            EngineEvent::Judged { .. } if r.l.phase == EnginePhase::Judging => r.judged
                + r.l.unjudged.take(VAD_FRAME_SIZE as int),
            _ => r.judged,
        },
    }
}

pub open spec fn engine_run<T>(r: EngineRun<T>, events: Seq<EngineEvent<T>>) -> EngineRun<T>
    decreases events.len(),
{
    if events.len() == 0 {
        r
    } else {
        run_step(engine_run(r, events.drop_last()), events.last())
    }
}

/// Every event of the run is one that the loop can be told.
pub open spec fn told<T>(r: EngineRun<T>, events: Seq<EngineEvent<T>>) -> bool
    decreases events.len(),
{
    events.len() == 0 || (told(r, events.drop_last()) && tellable(
        engine_run(r, events.drop_last()).l,
        events.last(),
    ))
}

spec fn on_beat<T>(r: EngineRun<T>) -> bool {
    let n = VAD_FRAME_SIZE as nat;
    &&& r.captured == r.handed + r.l.resample_leftover
    &&& !r.l.needs_resample ==> r.l.resample_leftover.len() == 0
    &&& r.conditioned == r.judged + r.l.unjudged + r.l.vad_leftover
    &&& r.l.vad_leftover.len() < n
    &&& r.l.unjudged.len() % n == 0
    &&& r.l.phase == EnginePhase::Judging ==> r.l.unjudged.len() >= n
    &&& r.l.phase != EnginePhase::Judging && r.l.phase != EnginePhase::Timing
        ==> r.l.unjudged.len() == 0
}

proof fn lemma_step_on_beat<T>(r: EngineRun<T>, event: EngineEvent<T>)
    requires
        on_beat(r),
        tellable(r.l, event),
    ensures
        on_beat(run_step(r, event)),
        run_step(r, event).l.needs_resample == r.l.needs_resample,
{
    let next = run_step(r, event);
    let n = VAD_FRAME_SIZE as int;
    match event {
        EngineEvent::Drained { samples, resample_chunk } if r.l.phase == EnginePhase::Draining => {
            if samples@.len() == 0 {
                assert(next.captured =~= r.captured);
            } else {
                if r.l.needs_resample {
                    samples::lemma_cut_bounds(
                        r.l.resample_leftover + samples@,
                        resample_chunk as int,
                    );
                    assert(next.captured =~= next.handed + next.l.resample_leftover);
                } else {
                    assert(next.captured =~= next.handed + next.l.resample_leftover);
                }
            }
        },
        EngineEvent::Conditioned(samples) if r.l.phase == EnginePhase::Conditioning => {
            let all = r.l.vad_leftover + samples@;
            samples::lemma_cut_bounds(all, n);
            let k = all.len() as int / n;
            vstd::arithmetic::div_mod::lemma_mod_multiples_basic(k, n);
            assert(all.take(k * n).len() == k * n);
            assert(next.conditioned =~= next.judged + next.l.unjudged + next.l.vad_leftover);
        },
        EngineEvent::Judged { decision, uptime_ms } if r.l.phase == EnginePhase::Judging => {
            let frame = r.l.unjudged.take(n);
            assert(r.l.unjudged =~= frame + r.l.unjudged.skip(n));
            assert(next.conditioned =~= next.judged + next.l.unjudged + next.l.vad_leftover);
            assert((r.l.unjudged.len() - n) % n == r.l.unjudged.len() as int % n);
            let calls = engine_calls(frame, audio_engine::decision_view(decision));
            assert(calls.len() > 0 ==> !(calls[0] is Condition));
        },
        _ => {},
    }
}

proof fn lemma_run_on_beat<T>(r: EngineRun<T>, events: Seq<EngineEvent<T>>)
    requires
        on_beat(r),
        told(r, events),
    ensures
        on_beat(engine_run(r, events)),
        engine_run(r, events).l.needs_resample == r.l.needs_resample,
    decreases events.len(),
{
    if events.len() > 0 {
        lemma_run_on_beat(r, events.drop_last());
        lemma_step_on_beat(engine_run(r, events.drop_last()), events.last());
    }
}

/// No audio is lost, repeated or moved on its way, however the capture buffer
/// happened to be drained: every captured sample is handed out for conditioning once
/// and in order, up to what waits for the resampler; every conditioned sample is
/// judged once and in order, up to less than a frame that is left over.
pub proof fn law_audio_passes_once_and_in_order<T>(needs_resample: bool, events: Seq<EngineEvent<T>>)
    requires
        told(fresh_run::<T>(needs_resample), events),
    ensures
        ({
            let r = engine_run(fresh_run::<T>(needs_resample), events);
            &&& r.captured == r.handed + r.l.resample_leftover
            &&& !needs_resample ==> r.l.resample_leftover.len() == 0
            &&& r.conditioned == r.judged + r.l.unjudged + r.l.vad_leftover
            &&& r.l.vad_leftover.len() < VAD_FRAME_SIZE
            &&& r.l.phase == EnginePhase::Top ==> r.l.unjudged.len() == 0
        }),
{
    let r = fresh_run::<T>(needs_resample);
    assert(r.captured =~= r.handed + r.l.resample_leftover);
    assert(r.conditioned =~= r.judged + r.l.unjudged + r.l.vad_leftover);
    lemma_run_on_beat(r, events);
}

/// A session that is stopped ends the engine's session, logs the shutdown and
/// returns, with nothing else between.
pub proof fn law_stop_ends_the_session<T>(l: EngineLoopView<T>)
    requires
        l.phase == EnginePhase::Top,
    ensures
        ({
            let first = engine_step(l, EngineEvent::Stop(true));
            let second = engine_step(first.l, EngineEvent::Ended);
            &&& first.actions == seq![EngineActionView::<T>::EndSession]
            &&& second.actions == seq![
                EngineActionView::<T>::LogShutdown,
                EngineActionView::<T>::Return,
            ]
            &&& second.l.phase == EnginePhase::Done
        }),
{
}

/// Only an engine of the same id, created with the same config, is reused, and only
/// once.
pub proof fn law_reuse_needs_the_same_identity(
    kept: AudioEngine,
    engine_id: Seq<char>,
    cache_key: u64,
    other_id: Seq<char>,
    other_key: u64,
)
    requires
        kept.keeps(engine_id, cache_key),
    ensures
        kept.keeps(other_id, other_key) <==> other_id == engine_id && other_key == cache_key,
{
}

/// Updates come out the same in one batch as in two: what the first one leaves open, and
/// the ids it leaves, are what the second one starts from.
pub proof fn law_batches_of_updates_follow_on(
    open: Map<u64, u64>,
    next: u64,
    first: Seq<SegmentView>,
    second: Seq<SegmentView>,
)
    ensures
        ({
            let (then_open, then_next) = left_open(open, next, first);
            &&& tracker::remapped_all(open, next, first + second) == tracker::remapped_all(
                open,
                next,
                first,
            ) + tracker::remapped_all(then_open, then_next, second)
            &&& left_open(open, next, first + second) == left_open(then_open, then_next, second)
        }),
    decreases first.len(),
{
    if first.len() == 0 {
        assert(first + second =~= second);
        assert(tracker::remapped_all(open, next, first) =~= Seq::<SegmentView>::empty());
        assert(Seq::<SegmentView>::empty() + tracker::remapped_all(open, next, second)
            =~= tracker::remapped_all(open, next, second));
    } else {
        let r = tracker::remapped(open, next, first[0]);
        assert((first + second).skip(1) =~= first.skip(1) + second);
        law_batches_of_updates_follow_on(r.open, r.next, first.skip(1), second);
        assert((first + second)[0] == first[0]);
        let (then_open, then_next) = left_open(open, next, first);
        assert(seq![r.update] + (tracker::remapped_all(r.open, r.next, first.skip(1))
            + tracker::remapped_all(then_open, then_next, second)) =~= seq![r.update]
            + tracker::remapped_all(r.open, r.next, first.skip(1)) + tracker::remapped_all(
            then_open,
            then_next,
            second,
        ));
    }
}

} // verus!
