//! What the owner of a session sees of its processing loop, whatever happens.
//!
//! The laws speak of the events that the owner told and the actions that it was
//! handed, in the order in which they came.

use vstd::prelude::*;

use crate::asr;
use crate::asr::ActivitySource;
use crate::asr::AsrError;
use crate::asr::AudioGating;
use crate::asr::UpdateView;
use crate::audio_engine;
use crate::audio_engine::LoopActionView;
use crate::audio_engine::LoopEvent;
use crate::audio_engine::LoopPhase;
use crate::audio_engine::LoopView;
use crate::audio_engine::VAD_FRAME_SIZE;
use crate::session_laws;
use crate::vad::DecisionView;
use crate::vad::VadState;

verus! {

// ---------------------------------------------------------------------------
// A session as its owner sees it
// ---------------------------------------------------------------------------

/// Something that reaches the backend.
#[verifier::ext_equal]
pub enum Feed<T> {
    Start,
    Audio(Seq<T>),
    End { uptime_ms: i64, speech_duration_ms: int },
}

/// Something that is shown to the user.
#[verifier::ext_equal]
pub enum Notice {
    Warn(Seq<char>),
    Fail(Seq<char>),
    Abort(Seq<char>),
}

/// A session so far, as its owner sees it.
#[verifier::ext_equal]
pub struct Story<T> {
    /// The last thing to do.
    pub last: Option<LoopActionView<T>>,
    /// An error ended the session.
    pub failed: bool,
    /// The updates that the backend returned. What it returns while it is torn down
    /// after an error does not count.
    pub returned: Seq<UpdateView>,
    pub emitted: Seq<UpdateView>,
    /// The errors that the backend returned, and whether each ended something.
    pub troubles: Seq<(bool, Seq<char>)>,
    pub logged: Seq<(bool, Seq<char>)>,
    /// What the user is owed about them.
    pub owed: Seq<Notice>,
    pub shown: Seq<Notice>,
    /// What the decisions on the frames mean to the backend.
    pub meant: Seq<Feed<T>>,
    pub fed: Seq<Feed<T>>,
    /// When the segment under way began.
    pub since: Option<i64>,
    /// When the level was last shown, or when the session began.
    pub level_at: u64,
}

pub open spec fn opening<T>(now_ms: u64) -> Story<T> {
    Story {
        last: None,
        failed: false,
        returned: Seq::empty(),
        emitted: Seq::empty(),
        troubles: Seq::empty(),
        logged: Seq::empty(),
        owed: Seq::empty(),
        shown: Seq::empty(),
        meant: Seq::empty(),
        fed: Seq::empty(),
        since: None,
        level_at: now_ms,
    }
}

/// What a judged frame means to a backend. A gated one gets speech only, with the audio
/// from before the onset, between the marks of its segment; a continuous one gets
/// every frame, and the marks behind the frame that they are about.
pub open spec fn meaning<T>(
    gating: AudioGating,
    frame: Seq<T>,
    decision: Option<DecisionView<T>>,
    uptime_ms: i64,
    since: Option<i64>,
) -> Seq<Feed<T>> {
    let end = Feed::End {
        uptime_ms,
        speech_duration_ms: match since {
            Some(start) => uptime_ms - start,
            None => 0,
        },
    };
    match (gating, decision) {
        (AudioGating::VadGated, Some(DecisionView::SpeechStarted(pre))) => seq![
            Feed::Start,
            Feed::Audio(pre),
            Feed::Audio(frame),
        ],
        (AudioGating::Continuous, Some(DecisionView::SpeechStarted(_))) => seq![
            Feed::Audio(frame),
            Feed::Start,
        ],
        (_, Some(DecisionView::SpeechEnded)) => seq![Feed::Audio(frame), end],
        (_, Some(DecisionView::SpeechContinues)) => seq![Feed::Audio(frame)],
        (AudioGating::Continuous, _) => seq![Feed::Audio(frame)],
        (AudioGating::VadGated, _) => Seq::empty(),
    }
}

/// A backend error in the middle of a session.
pub open spec fn troubled<T>(st: Story<T>, e: AsrError) -> Story<T> {
    Story {
        troubles: st.troubles.push((e is Fatal, e.text())),
        owed: st.owed.push(
            match e {
                AsrError::Transient(m) => Notice::Warn(m@),
                AsrError::Fatal(m) => Notice::Fail("Transcription error: "@ + m@),
            },
        ),
        ..st
    }
}

/// An event that the loop reacts to.
pub open spec fn told<T>(gating: AudioGating, st: Story<T>, event: LoopEvent<T>) -> Story<T> {
    match event {
        LoopEvent::Began(Err(e)) => Story {
            troubles: st.troubles.push((true, e.text())),
            owed: st.owed.push(Notice::Abort(e.text())),
            ..st
        },
        LoopEvent::Polled(Ok(updates)) => Story {
            returned: st.returned + asr::updates_view(updates@),
            ..st
        },
        LoopEvent::Polled(Err(e)) => troubled(st, e),
        LoopEvent::Processed(Ok(updates)) => Story {
            returned: st.returned + asr::updates_view(updates@),
            ..st
        },
        LoopEvent::Processed(Err(e)) => troubled(st, e),
        LoopEvent::Ended(Ok(updates)) => if st.failed {
            st
        } else {
            Story { returned: st.returned + asr::updates_view(updates@), ..st }
        },
        LoopEvent::Ended(Err(e)) => if st.failed {
            st
        } else {
            Story { troubles: st.troubles.push((true, e.text())), ..st }
        },
        LoopEvent::Judged { decision, uptime_ms } => {
            let d = audio_engine::decision_view(decision);
            Story {
                meant: st.meant + meaning(gating, st.last->0->Judge_0, d, uptime_ms, st.since),
                since: match d {
                    Some(DecisionView::SpeechStarted(_)) => Some(uptime_ms),
                    Some(DecisionView::SpeechEnded) => None,
                    _ => st.since,
                },
                ..st
            }
        },
        _ => st,
    }
}

pub open spec fn done<T>(st: Story<T>, action: LoopActionView<T>) -> Story<T> {
    let st = Story { last: Some(action), ..st };
    match action {
        LoopActionView::Emit(updates) => Story { emitted: st.emitted + updates, ..st },
        LoopActionView::LogBackendError { fatal, message } => Story {
            logged: st.logged.push((fatal, message)),
            ..st
        },
        LoopActionView::Warn(m) => Story { shown: st.shown.push(Notice::Warn(m)), ..st },
        LoopActionView::Fail(m) => Story {
            failed: true,
            shown: st.shown.push(Notice::Fail(m)),
            ..st
        },
        LoopActionView::Abort(m) => Story { shown: st.shown.push(Notice::Abort(m)), ..st },
        LoopActionView::MarkSpeechStart => Story { fed: st.fed.push(Feed::Start), ..st },
        LoopActionView::PushAudio(samples) => Story {
            fed: st.fed.push(Feed::Audio(samples)),
            ..st
        },
        LoopActionView::MarkSpeechEnd { uptime_ms, speech_duration_ms } => Story {
            fed: st.fed.push(
                Feed::End { uptime_ms, speech_duration_ms: speech_duration_ms as int },
            ),
            ..st
        },
        _ => st,
    }
}

pub open spec fn done_all<T>(st: Story<T>, actions: Seq<LoopActionView<T>>) -> Story<T>
    decreases actions.len(),
{
    if actions.len() == 0 {
        st
    } else {
        done(done_all(st, actions.drop_last()), actions.last())
    }
}

/// The level is shown where the actions show it, at the time of the clock.
pub open spec fn metered<T>(
    st: Story<T>,
    event: LoopEvent<T>,
    actions: Seq<LoopActionView<T>>,
) -> Story<T> {
    match event {
        LoopEvent::Clock { now_ms, .. } if shows_level(actions) => Story { level_at: now_ms, ..st },
        _ => st,
    }
}

pub open spec fn shows_level<T>(actions: Seq<LoopActionView<T>>) -> bool {
    exists|i: int| 0 <= i < actions.len() && (#[trigger] actions[i]) is EmitLevel
}

/// A loop for a backend that is fed in one of two ways.
pub open spec fn fresh<T>(
    gating: AudioGating,
    source: ActivitySource,
    needs_resample: bool,
    now_ms: u64,
) -> LoopView<T> {
    session_laws::fresh_run::<T>(gating, source, needs_resample, now_ms).l
}

/// The loop that a history leads to.
pub open spec fn loop_of<T>(l: LoopView<T>, events: Seq<LoopEvent<T>>) -> LoopView<T>
    decreases events.len(),
{
    if events.len() == 0 {
        l
    } else {
        audio_engine::loop_step(loop_of(l, events.drop_last()), events.last()).l
    }
}

/// What the loop hands out on an event behind a history.
pub open spec fn reply<T>(
    l: LoopView<T>,
    events: Seq<LoopEvent<T>>,
    event: LoopEvent<T>,
) -> Seq<LoopActionView<T>> {
    audio_engine::loop_step(loop_of(l, events), event).actions
}

/// The story of a history. An event that gets no reply is none that the loop waits for,
/// and is not part of it.
pub open spec fn story_of<T>(l: LoopView<T>, events: Seq<LoopEvent<T>>) -> Story<T>
    decreases events.len(),
{
    if events.len() == 0 {
        opening(l.last_level_ms)
    } else {
        let before = story_of(l, events.drop_last());
        let event = events.last();
        let actions = reply(l, events.drop_last(), event);
        if actions.len() == 0 {
            before
        } else {
            metered(done_all(told(l.gating, before, event), actions), event, actions)
        }
    }
}

/// Every event of the history is one that the loop can be told.
pub open spec fn tellable_all<T>(l: LoopView<T>, events: Seq<LoopEvent<T>>) -> bool
    decreases events.len(),
{
    events.len() == 0 || (tellable_all(l, events.drop_last()) && audio_engine::tellable(
        loop_of(l, events.drop_last()),
        events.last(),
    ))
}

proof fn lemma_done_push<T>(
    st: Story<T>,
    actions: Seq<LoopActionView<T>>,
    action: LoopActionView<T>,
)
    ensures
        done_all(st, actions.push(action)) == done(done_all(st, actions), action),
{
    assert(actions.push(action).drop_last() =~= actions);
}

proof fn lemma_done_few<T>(st: Story<T>, actions: Seq<LoopActionView<T>>)
    requires
        actions.len() <= 3,
    ensures
        actions.len() == 0 ==> done_all(st, actions) == st,
        actions.len() == 1 ==> done_all(st, actions) == done(st, actions[0]),
        actions.len() == 2 ==> done_all(st, actions) == done(done(st, actions[0]), actions[1]),
        actions.len() == 3 ==> done_all(st, actions) == done(
            done(done(st, actions[0]), actions[1]),
            actions[2],
        ),
{
    reveal_with_fuel(done_all, 4);
    if actions.len() >= 1 {
        let a = actions.drop_last();
        if a.len() >= 1 {
            assert(a.last() == actions[actions.len() - 2]);
            let b = a.drop_last();
            if b.len() >= 1 {
                assert(b.last() == actions[actions.len() - 3]);
            }
        }
    }
}

// ---------------------------------------------------------------------------
// What the loop keeps of it
// ---------------------------------------------------------------------------

/// The loop waits for what it last asked for.
spec fn awaits<T>(l: LoopView<T>, st: Story<T>) -> bool {
    match l.phase {
        LoopPhase::Starting => st.last is None,
        LoopPhase::Top => st.last == Some(LoopActionView::<T>::CheckStop),
        LoopPhase::Settings => st.last == Some(LoopActionView::<T>::CheckSettings),
        LoopPhase::Draining => st.last == Some(LoopActionView::<T>::Drain),
        LoopPhase::Polling => st.last == Some(LoopActionView::<T>::Poll),
        LoopPhase::Sleeping => st.last == Some(LoopActionView::<T>::Sleep),
        LoopPhase::Conditioning => st.last matches Some(a) && a is Condition,
        LoopPhase::Judging => st.last == Some(
            LoopActionView::Judge(l.unjudged.take(VAD_FRAME_SIZE as int)),
        ),
        LoopPhase::Metering => st.last == Some(LoopActionView::<T>::ReadClock),
        LoopPhase::Processing => st.last matches Some(a) && a is Process,
        LoopPhase::Ending => st.last == Some(LoopActionView::<T>::EndSession) && !st.failed,
        LoopPhase::Closing => st.last == Some(LoopActionView::<T>::EndSession) && st.failed,
        LoopPhase::Done => st.last matches Some(a) && (a is Return || a is Abort),
    }
}

spec fn agrees<T>(l: LoopView<T>, st: Story<T>) -> bool {
    &&& awaits(l, st)
    &&& st.failed ==> l.phase == LoopPhase::Closing || l.phase == LoopPhase::Done
    &&& st.emitted == st.returned
    &&& st.logged == st.troubles
    &&& st.shown == st.owed
    &&& st.fed == st.meant
    &&& st.since == l.speech_start
    &&& st.level_at == l.last_level_ms
}

spec fn keeps_setup<T>(l: LoopView<T>, after: LoopView<T>) -> bool {
    after.gating == l.gating && after.source == l.source
}

/// What a routed frame feeds, and nothing else.
proof fn lemma_routed<T>(
    st: Story<T>,
    gating: AudioGating,
    frame: Seq<T>,
    decision: Option<DecisionView<T>>,
    uptime_ms: i64,
    since: Option<i64>,
)
    requires
        i64::MIN <= audio_engine::speech_duration(since, uptime_ms) <= i64::MAX,
    ensures
        ({
            let actions = audio_engine::routed(gating, frame, decision, uptime_ms, since);
            let after = done_all(st, actions);
            after == (Story {
                last: after.last,
                fed: st.fed + meaning(gating, frame, decision, uptime_ms, since),
                ..st
            })
        }),
{
    let actions = audio_engine::routed(gating, frame, decision, uptime_ms, since);
    let after = done_all(st, actions);
    let expected = st.fed + meaning(gating, frame, decision, uptime_ms, since);
    if actions.len() <= 3 {
        lemma_done_few(st, actions);
        assert(after.fed =~= expected);
    } else {
        let front = actions.drop_last();
        lemma_done_few(st, front);
        assert(actions =~= front.push(actions.last()));
        lemma_done_push(st, front, actions.last());
        assert(after.fed =~= expected);
    }
}

proof fn lemma_judged_agrees<T>(
    st: Story<T>,
    l: LoopView<T>,
    d: Option<DecisionView<T>>,
    uptime_ms: i64,
    now: Story<T>,
)
    requires
        agrees(l, st),
        l.phase == LoopPhase::Judging,
        i64::MIN <= audio_engine::speech_duration(l.speech_start, uptime_ms) <= i64::MAX,
        now == (Story {
            meant: st.meant + meaning(
                l.gating,
                l.unjudged.take(VAD_FRAME_SIZE as int),
                d,
                uptime_ms,
                st.since,
            ),
            since: audio_engine::speech_start_after(l.speech_start, d, uptime_ms),
            ..st
        }),
    ensures
        ({
            let step = audio_engine::judged(l, d, uptime_ms);
            &&& agrees(step.l, done_all(now, step.actions))
            &&& !shows_level(step.actions)
            &&& step.actions.len() > 0
        }),
{
    let frame = l.unjudged.take(VAD_FRAME_SIZE as int);
    let step = audio_engine::judged(l, d, uptime_ms);
    let routed = audio_engine::routed(l.gating, frame, d, uptime_ms, l.speech_start);
    lemma_routed(now, l.gating, frame, d, uptime_ms, l.speech_start);
    let rest = audio_engine::judging(
        LoopView {
            unjudged: l.unjudged.skip(VAD_FRAME_SIZE as int),
            speech_start: audio_engine::speech_start_after(l.speech_start, d, uptime_ms),
            ..l
        },
    ).actions;
    assert(rest.len() == 1);
    assert(step.actions =~= routed.push(rest[0]));
    lemma_done_push(now, routed, rest[0]);
}

proof fn lemma_step_agrees<T>(st: Story<T>, l: LoopView<T>, event: LoopEvent<T>)
    requires
        agrees(l, st),
        audio_engine::tellable(l, event),
    ensures
        ({
            let step = audio_engine::loop_step(l, event);
            let actions = step.actions;
            let now = told(l.gating, st, event);
            &&& actions.len() == 0 ==> agrees(step.l, st)
            &&& actions.len() > 0 ==> agrees(
                step.l,
                metered(done_all(now, actions), event, actions),
            )
            &&& keeps_setup(l, step.l)
        }),
{
    let step = audio_engine::loop_step(l, event);
    let actions = step.actions;
    let now = told(l.gating, st, event);
    match event {
        LoopEvent::Judged { decision, uptime_ms } => {
            if l.phase == LoopPhase::Judging {
                lemma_judged_agrees(
                    st,
                    l,
                    audio_engine::decision_view(decision),
                    uptime_ms,
                    now,
                );
            }
        },
        LoopEvent::Clock { now_ms, vad_state, last_speech_at } => {
            if l.phase == LoopPhase::Metering {
                lemma_done_few(now, actions);
                if now_ms - l.last_level_ms >= audio_engine::AUDIO_LEVEL_EMIT_INTERVAL_MS {
                    assert(actions[0] is EmitLevel);
                    assert(shows_level(actions));
                } else {
                    assert(!shows_level(actions));
                }
            }
        },
        _ => {
            assert(actions.len() <= 3);
            lemma_done_few(now, actions);
            let after = metered(done_all(now, actions), event, actions);
            if actions.len() > 0 {
                assert(after.emitted =~= after.returned);
            }
        },
    }
}

proof fn lemma_agrees<T>(l: LoopView<T>, events: Seq<LoopEvent<T>>)
    requires
        l.phase == LoopPhase::Starting,
        l.speech_start is None,
        tellable_all(l, events),
    ensures
        agrees(loop_of(l, events), story_of(l, events)),
        keeps_setup(l, loop_of(l, events)),
    decreases events.len(),
{
    if events.len() > 0 {
        lemma_agrees(l, events.drop_last());
        lemma_step_agrees(
            story_of(l, events.drop_last()),
            loop_of(l, events.drop_last()),
            events.last(),
        );
    }
}

// ---------------------------------------------------------------------------
// Laws
// ---------------------------------------------------------------------------

/// Every update that the backend returns is emitted exactly once and in order: over any
/// history, what was emitted is what came back from polling, from processing and from
/// the requested end of the session, one behind the other.
pub proof fn law_every_update_is_emitted_once<T>(
    gating: AudioGating,
    source: ActivitySource,
    needs_resample: bool,
    now_ms: u64,
    events: Seq<LoopEvent<T>>,
)
    requires
        tellable_all(fresh::<T>(gating, source, needs_resample, now_ms), events),
    ensures
        ({
            let st = story_of(fresh::<T>(gating, source, needs_resample, now_ms), events);
            st.emitted == st.returned
        }),
{
    lemma_agrees(fresh::<T>(gating, source, needs_resample, now_ms), events);
}

/// Every error that the backend returns is logged once, and shown once where it came
/// while the session ran: a transient one as a warning, a fatal one as the failure
/// that ends the session, one from the start as the reason that there is no session.
pub proof fn law_every_error_is_logged_and_shown<T>(
    gating: AudioGating,
    source: ActivitySource,
    needs_resample: bool,
    now_ms: u64,
    events: Seq<LoopEvent<T>>,
)
    requires
        tellable_all(fresh::<T>(gating, source, needs_resample, now_ms), events),
    ensures
        ({
            let st = story_of(fresh::<T>(gating, source, needs_resample, now_ms), events);
            &&& st.logged == st.troubles
            &&& st.shown == st.owed
        }),
{
    lemma_agrees(fresh::<T>(gating, source, needs_resample, now_ms), events);
}

/// The backend is fed what the decisions mean, and nothing else: over any history, the
/// audio and the marks of the speech segments reach it in the order of the frames,
/// each once, and the mark of an end tells how long its segment lasted.
pub proof fn law_the_backend_is_fed_what_was_decided<T>(
    gating: AudioGating,
    source: ActivitySource,
    needs_resample: bool,
    now_ms: u64,
    events: Seq<LoopEvent<T>>,
)
    requires
        tellable_all(fresh::<T>(gating, source, needs_resample, now_ms), events),
    ensures
        ({
            let st = story_of(fresh::<T>(gating, source, needs_resample, now_ms), events);
            st.fed == st.meant
        }),
{
    lemma_agrees(fresh::<T>(gating, source, needs_resample, now_ms), events);
}

/// The meter is shown exactly where it is due: not before its interval has passed since
/// it was last shown, and with the first clock after that. It says that speech is
/// heard where the voice-activity state says so, or, for a backend that judges for
/// itself, for as long as its last evidence holds. The backend recognizes next, and
/// is told the voice-activity state.
pub proof fn law_the_meter_keeps_its_interval<T>(
    gating: AudioGating,
    source: ActivitySource,
    needs_resample: bool,
    now_ms: u64,
    events: Seq<LoopEvent<T>>,
    at: u64,
    vad_state: VadState,
    last_speech_at: Option<u64>,
)
    requires
        tellable_all(fresh::<T>(gating, source, needs_resample, now_ms), events),
        story_of(fresh::<T>(gating, source, needs_resample, now_ms), events).last == Some(
            LoopActionView::<T>::ReadClock,
        ),
    ensures
        ({
            let l = fresh::<T>(gating, source, needs_resample, now_ms);
            let actions = reply(l, events, LoopEvent::Clock { now_ms: at, vad_state, last_speech_at });
            let active = match source {
                ActivitySource::Vad => vad_state == VadState::Speech,
                ActivitySource::Backend { hold_ms } => last_speech_at matches Some(then_ms) && (at
                    < then_ms + hold_ms && hold_ms > 0),
            };
            let process = LoopActionView::<T>::Process { vad_state };
            if at < story_of(l, events).level_at + 50 {
                actions == seq![process]
            } else {
                actions == seq![LoopActionView::EmitLevel { speech_active: active }, process]
            }
        }),
{
    lemma_agrees(fresh::<T>(gating, source, needs_resample, now_ms), events);
}

/// A session begins with the first round once the backend has begun, and is aborted
/// with the reason where it has not.
pub proof fn law_a_session_begins_or_is_aborted<T>(
    gating: AudioGating,
    source: ActivitySource,
    needs_resample: bool,
    now_ms: u64,
    began: Result<(), AsrError>,
)
    ensures
        ({
            let l = fresh::<T>(gating, source, needs_resample, now_ms);
            let actions = reply(l, Seq::empty(), LoopEvent::Began(began));
            match began {
                Ok(_) => actions == seq![LoopActionView::<T>::CheckStop],
                Err(e) => actions.len() > 0 && actions.last() == LoopActionView::<T>::Abort(
                    e.text(),
                ),
            }
        }),
{
}

/// Whether an event is what an action was to bring.
pub open spec fn answers<T>(asked: LoopActionView<T>, event: LoopEvent<T>) -> bool {
    match asked {
        LoopActionView::CheckStop => event is Stop,
        LoopActionView::CheckSettings => event is SettingsApplied,
        LoopActionView::Drain => event is Drained,
        LoopActionView::Poll => event is Polled,
        LoopActionView::Sleep => event is Slept,
        LoopActionView::Condition(_) => event is Conditioned,
        LoopActionView::Judge(_) => event is Judged,
        LoopActionView::ReadClock => event is Clock,
        LoopActionView::Process { .. } => event is Processed,
        LoopActionView::EndSession => event is Ended,
        _ => false,
    }
}

/// A fatal error of the backend in the middle of a session.
pub open spec fn fatal_in<T>(event: LoopEvent<T>) -> bool {
    match event {
        LoopEvent::Polled(Err(e)) => e is Fatal,
        LoopEvent::Processed(Err(e)) => e is Fatal,
        _ => false,
    }
}

/// The loop goes round and never stalls. Each answer brings exactly one next thing to
/// wait for: the stop flag at the top of each round, then the settings, then the
/// capture buffer; nothing captured means a poll and a rest, anything else is
/// conditioned, judged frame by frame, metered and recognized. A stop request and a
/// fatal error, and nothing else, end the session.
pub proof fn law_the_loop_goes_round<T>(
    gating: AudioGating,
    source: ActivitySource,
    needs_resample: bool,
    now_ms: u64,
    events: Seq<LoopEvent<T>>,
    event: LoopEvent<T>,
)
    requires
        tellable_all(fresh::<T>(gating, source, needs_resample, now_ms), events),
        ({
            let st = story_of(fresh::<T>(gating, source, needs_resample, now_ms), events);
            st.last matches Some(asked) && answers(asked, event)
        }),
    ensures
        ({
            let l = fresh::<T>(gating, source, needs_resample, now_ms);
            let asked = story_of(l, events).last->0;
            let next = reply(l, events, event).last();
            &&& reply(l, events, event).len() > 0
            &&& if fatal_in(event) {
                next is EndSession
            } else {
                match asked {
                    LoopActionView::CheckStop => if event->Stop_0 {
                        next is EndSession
                    } else {
                        next is CheckSettings
                    },
                    LoopActionView::CheckSettings => next is Drain,
                    LoopActionView::Drain => if event->samples@.len() == 0 {
                        next is Poll
                    } else {
                        next is Condition
                    },
                    LoopActionView::Poll => next is Sleep,
                    LoopActionView::Sleep => next is CheckStop,
                    LoopActionView::Condition(_) => next is Judge || next is ReadClock,
                    LoopActionView::Judge(_) => next is Judge || next is ReadClock,
                    LoopActionView::ReadClock => next is Process,
                    LoopActionView::Process { .. } => next is CheckStop,
                    LoopActionView::EndSession => next is Return,
                    _ => true,
                }
            }
        }),
{
    let l = fresh::<T>(gating, source, needs_resample, now_ms);
    lemma_agrees(l, events);
    let now = loop_of(l, events);
    let actions = reply(l, events, event);
    match event {
        LoopEvent::Judged { decision, uptime_ms } => {
            let d = audio_engine::decision_view(decision);
            let routed = audio_engine::routed(
                now.gating,
                now.unjudged.take(VAD_FRAME_SIZE as int),
                d,
                uptime_ms,
                now.speech_start,
            );
            assert(actions.last() == actions[actions.len() - 1]);
            assert(actions.len() == routed.len() + 1);
        },
        _ => {},
    }
}

} // verus!
