//! What the owner of a session with a pluggable engine sees of its processing loop,
//! whatever happens.
//!
//! The laws speak of the events that the owner told and the actions that it was
//! handed, in the order in which they came.

use vstd::prelude::*;

use super::audio_engine;
use super::audio_engine::EngineActionView;
use super::audio_engine::EngineEvent;
use super::audio_engine::EngineLoopView;
use super::audio_engine::EnginePhase;
use super::EngineError;
use crate::audio_engine as session;
use crate::audio_engine::VAD_FRAME_SIZE;
use crate::vad::DecisionView;

verus! {

// ---------------------------------------------------------------------------
// A session as its owner sees it
// ---------------------------------------------------------------------------

/// Something that the engine is told.
#[verifier::ext_equal]
pub enum Call<T> {
    Start,
    Feed(Seq<T>),
    End,
}

/// A session so far, as its owner sees it.
#[verifier::ext_equal]
pub struct Story<T> {
    /// The last thing to do.
    pub last: Option<EngineActionView<T>>,
    /// What the decisions on the frames mean to the engine.
    pub meant: Seq<Call<T>>,
    pub called: Seq<Call<T>>,
    /// When the segment under way began.
    pub since: Option<i64>,
    /// How long each segment lasted that is over.
    pub lasted: Seq<int>,
    pub logged: Seq<int>,
    /// How many samples each round drained, where there were any and the round is over.
    pub drained: Seq<usize>,
    pub fed: Seq<usize>,
    /// How many samples this round drained.
    pub now_drained: usize,
    /// How many polls the engine is owed, and how many it got: one in each round.
    pub rounds: nat,
    pub polls: nat,
}

pub open spec fn opening<T>() -> Story<T> {
    Story {
        last: None,
        meant: Seq::empty(),
        called: Seq::empty(),
        since: None,
        lasted: Seq::empty(),
        logged: Seq::empty(),
        drained: Seq::empty(),
        fed: Seq::empty(),
        now_drained: 0,
        rounds: 0,
        polls: 0,
    }
}

/// What a judged frame means to the engine: it hears speech only, with the audio from
/// before the onset, and is told where a segment opens and closes.
pub open spec fn meaning<T>(frame: Seq<T>, decision: Option<DecisionView<T>>) -> Seq<Call<T>> {
    match decision {
        Some(DecisionView::SpeechStarted(pre)) => seq![
            Call::Start,
            Call::Feed(pre),
            Call::Feed(frame),
        ],
        Some(DecisionView::SpeechContinues) => seq![Call::Feed(frame)],
        Some(DecisionView::SpeechEnded) => seq![Call::Feed(frame), Call::End],
        _ => Seq::empty(),
    }
}

/// An event that the loop reacts to.
pub open spec fn told<T>(st: Story<T>, event: EngineEvent<T>) -> Story<T> {
    match event {
        EngineEvent::Drained { samples, .. } => Story {
            now_drained: samples@.len() as usize,
            rounds: st.rounds + 1,
            ..st
        },
        EngineEvent::Judged { decision, uptime_ms } => {
            let d = session::decision_view(decision);
            Story {
                meant: st.meant + meaning(st.last->0->Judge_0, d),
                since: match d {
                    Some(DecisionView::SpeechStarted(_)) => Some(uptime_ms),
                    _ => st.since,
                },
                ..st
            }
        },
        EngineEvent::Clock { uptime_ms } => Story {
            lasted: st.lasted.push(
                match st.since {
                    Some(start) => uptime_ms - start,
                    None => 0,
                },
            ),
            since: None,
            ..st
        },
        EngineEvent::Polled => if st.now_drained > 0 {
            Story { drained: st.drained.push(st.now_drained), ..st }
        } else {
            st
        },
        _ => st,
    }
}

pub open spec fn done<T>(st: Story<T>, action: EngineActionView<T>) -> Story<T> {
    let st = Story { last: Some(action), ..st };
    match action {
        EngineActionView::SpeechStart => Story { called: st.called.push(Call::Start), ..st },
        EngineActionView::Feed(samples) => Story {
            called: st.called.push(Call::Feed(samples)),
            ..st
        },
        EngineActionView::SpeechEnd => Story { called: st.called.push(Call::End), ..st },
        EngineActionView::LogSpeechEnd { speech_duration_ms } => Story {
            logged: st.logged.push(speech_duration_ms as int),
            ..st
        },
        EngineActionView::LogFeed { drain_samples } => Story {
            fed: st.fed.push(drain_samples),
            ..st
        },
        EngineActionView::Poll => Story { polls: st.polls + 1, ..st },
        _ => st,
    }
}

pub open spec fn done_all<T>(st: Story<T>, actions: Seq<EngineActionView<T>>) -> Story<T>
    decreases actions.len(),
{
    if actions.len() == 0 {
        st
    } else {
        done(done_all(st, actions.drop_last()), actions.last())
    }
}

pub open spec fn fresh<T>(needs_resample: bool) -> EngineLoopView<T> {
    audio_engine::fresh_run::<T>(needs_resample).l
}

/// The loop that a history leads to.
pub open spec fn loop_of<T>(l: EngineLoopView<T>, events: Seq<EngineEvent<T>>) -> EngineLoopView<T>
    decreases events.len(),
{
    if events.len() == 0 {
        l
    } else {
        audio_engine::engine_step(loop_of(l, events.drop_last()), events.last()).l
    }
}

/// What the loop hands out on an event behind a history.
pub open spec fn reply<T>(
    l: EngineLoopView<T>,
    events: Seq<EngineEvent<T>>,
    event: EngineEvent<T>,
) -> Seq<EngineActionView<T>> {
    audio_engine::engine_step(loop_of(l, events), event).actions
}

/// The story of a history. An event that gets no reply is none that the loop waits for,
/// and is not part of it.
pub open spec fn story_of<T>(l: EngineLoopView<T>, events: Seq<EngineEvent<T>>) -> Story<T>
    decreases events.len(),
{
    if events.len() == 0 {
        opening()
    } else {
        let before = story_of(l, events.drop_last());
        let event = events.last();
        let actions = reply(l, events.drop_last(), event);
        if actions.len() == 0 {
            before
        } else {
            done_all(told(before, event), actions)
        }
    }
}

/// Every event of the history is one that the loop can be told.
pub open spec fn tellable_all<T>(l: EngineLoopView<T>, events: Seq<EngineEvent<T>>) -> bool
    decreases events.len(),
{
    events.len() == 0 || (tellable_all(l, events.drop_last()) && audio_engine::tellable(
        loop_of(l, events.drop_last()),
        events.last(),
    ))
}

proof fn lemma_done_push<T>(
    st: Story<T>,
    actions: Seq<EngineActionView<T>>,
    action: EngineActionView<T>,
)
    ensures
        done_all(st, actions.push(action)) == done(done_all(st, actions), action),
{
    assert(actions.push(action).drop_last() =~= actions);
}

proof fn lemma_done_few<T>(st: Story<T>, actions: Seq<EngineActionView<T>>)
    requires
        actions.len() <= 2,
    ensures
        actions.len() == 0 ==> done_all(st, actions) == st,
        actions.len() == 1 ==> done_all(st, actions) == done(st, actions[0]),
        actions.len() == 2 ==> done_all(st, actions) == done(done(st, actions[0]), actions[1]),
{
    reveal_with_fuel(done_all, 3);
    if actions.len() == 2 {
        assert(actions.drop_last().last() == actions[0]);
    }
}

// ---------------------------------------------------------------------------
// What the loop keeps of it
// ---------------------------------------------------------------------------

/// The loop waits for what it last asked for.
spec fn awaits<T>(l: EngineLoopView<T>, st: Story<T>) -> bool {
    match l.phase {
        EnginePhase::Starting => st.last is None,
        EnginePhase::Top => st.last == Some(EngineActionView::<T>::CheckStop),
        EnginePhase::Settings => st.last == Some(EngineActionView::<T>::CheckSettings),
        EnginePhase::Draining => st.last == Some(EngineActionView::<T>::Drain),
        EnginePhase::Idle => st.last == Some(EngineActionView::<T>::Poll) && st.now_drained == 0,
        EnginePhase::Sleeping => st.last == Some(EngineActionView::<T>::Sleep),
        EnginePhase::Conditioning => st.last matches Some(a) && a is Condition,
        EnginePhase::Judging => st.last == Some(
            EngineActionView::Judge(l.unjudged.take(VAD_FRAME_SIZE as int)),
        ),
        EnginePhase::Timing => st.last == Some(EngineActionView::<T>::ReadClock),
        EnginePhase::Finishing => st.last == Some(EngineActionView::<T>::Poll),
        EnginePhase::Ending => st.last == Some(EngineActionView::<T>::EndSession),
        EnginePhase::Done => st.last matches Some(a) && (a is Return || a is Fail),
    }
}

/// The round has drained something, and the engine is not polled yet.
spec fn at_work(phase: EnginePhase) -> bool {
    phase == EnginePhase::Conditioning || phase == EnginePhase::Judging || phase
        == EnginePhase::Timing
}

spec fn agrees<T>(l: EngineLoopView<T>, st: Story<T>) -> bool {
    &&& awaits(l, st)
    &&& st.called == st.meant
    &&& st.since == l.speech_start
    &&& st.logged == st.lasted
    &&& st.fed == st.drained
    &&& at_work(l.phase) || l.phase == EnginePhase::Finishing ==> l.drain_samples == st.now_drained
        && st.now_drained > 0
    &&& st.rounds == st.polls + if at_work(l.phase) {
        1nat
    } else {
        0
    }
}

proof fn lemma_calls<T>(st: Story<T>, frame: Seq<T>, decision: Option<DecisionView<T>>)
    ensures
        ({
            let after = done_all(st, audio_engine::engine_calls(frame, decision));
            after == (Story {
                last: after.last,
                called: st.called + meaning(frame, decision),
                ..st
            })
        }),
{
    let actions = audio_engine::engine_calls(frame, decision);
    let after = done_all(st, actions);
    let expected = st.called + meaning(frame, decision);
    if actions.len() <= 2 {
        lemma_done_few(st, actions);
        assert(after.called =~= expected);
    } else {
        let front = actions.take(2);
        lemma_done_few(st, front);
        lemma_done_push(st, front, actions[2]);
        lemma_done_push(st, front.push(actions[2]), actions[3]);
        assert(actions =~= front.push(actions[2]).push(actions[3]));
        assert(after.called =~= expected);
    }
}

proof fn lemma_judged_agrees<T>(
    l: EngineLoopView<T>,
    st: Story<T>,
    d: Option<DecisionView<T>>,
    uptime_ms: i64,
    now: Story<T>,
)
    requires
        agrees(l, st),
        l.phase == EnginePhase::Judging,
        now == (Story {
            meant: st.meant + meaning(l.unjudged.take(VAD_FRAME_SIZE as int), d),
            since: match d {
                Some(DecisionView::SpeechStarted(_)) => Some(uptime_ms),
                _ => st.since,
            },
            ..st
        }),
    ensures
        ({
            let step = audio_engine::judged(l, d, uptime_ms);
            &&& agrees(step.l, done_all(now, step.actions))
            &&& step.actions.len() > 0
            &&& step.actions.last() is Judge || step.actions.last() is Poll
                || step.actions.last() is ReadClock
            &&& step.actions.last() is ReadClock <==> d == Some(DecisionView::<T>::SpeechEnded)
        }),
{
    let frame = l.unjudged.take(VAD_FRAME_SIZE as int);
    let step = audio_engine::judged(l, d, uptime_ms);
    let calls = audio_engine::engine_calls(frame, d);
    lemma_calls(now, frame, d);
    assert(step.actions.len() == calls.len() + 1);
    let last = step.actions.last();
    assert(step.actions =~= calls.push(last));
    lemma_done_push(now, calls, last);
}

proof fn lemma_step_agrees<T>(l: EngineLoopView<T>, st: Story<T>, event: EngineEvent<T>)
    requires
        agrees(l, st),
        audio_engine::tellable(l, event),
    ensures
        ({
            let step = audio_engine::engine_step(l, event);
            &&& step.actions.len() == 0 ==> agrees(step.l, st)
            &&& step.actions.len() > 0 ==> agrees(
                step.l,
                done_all(told(st, event), step.actions),
            )
        }),
{
    let step = audio_engine::engine_step(l, event);
    let now = told(st, event);
    match event {
        EngineEvent::Judged { decision, uptime_ms } => {
            if l.phase == EnginePhase::Judging {
                lemma_judged_agrees(
                    l,
                    st,
                    session::decision_view(decision),
                    uptime_ms,
                    now,
                );
            }
        },
        EngineEvent::Clock { uptime_ms } => {
            if l.phase == EnginePhase::Timing {
                assert(step.actions.len() == 2);
                lemma_done_few(now, step.actions);
            }
        },
        EngineEvent::Drained { samples, .. } => {
            assert(samples.len() == samples@.len());
            lemma_done_few(now, step.actions);
        },
        _ => {
            assert(step.actions.len() <= 2);
            lemma_done_few(now, step.actions);
        },
    }
}

proof fn lemma_agrees<T>(needs_resample: bool, events: Seq<EngineEvent<T>>)
    requires
        tellable_all(fresh::<T>(needs_resample), events),
    ensures
        agrees(
            loop_of(fresh::<T>(needs_resample), events),
            story_of(fresh::<T>(needs_resample), events),
        ),
    decreases events.len(),
{
    let l = fresh::<T>(needs_resample);
    if events.len() > 0 {
        lemma_agrees(needs_resample, events.drop_last());
        lemma_step_agrees(
            loop_of(l, events.drop_last()),
            story_of(l, events.drop_last()),
            events.last(),
        );
    }
}

// ---------------------------------------------------------------------------
// Laws
// ---------------------------------------------------------------------------

/// The engine is told what the decisions mean, and nothing else: over any history, the
/// audio of the speech segments and their openings and closings reach it in the order of
/// the frames, each once.
pub proof fn law_the_engine_is_told_what_was_decided<T>(
    needs_resample: bool,
    events: Seq<EngineEvent<T>>,
)
    requires
        tellable_all(fresh::<T>(needs_resample), events),
    ensures
        ({
            let st = story_of(fresh::<T>(needs_resample), events);
            st.called == st.meant
        }),
{
    lemma_agrees(needs_resample, events);
}

/// The log tells the truth: each closed segment is logged with how long it lasted, and
/// each round that drained something with how much.
pub proof fn law_segments_and_rounds_are_logged<T>(
    needs_resample: bool,
    events: Seq<EngineEvent<T>>,
)
    requires
        tellable_all(fresh::<T>(needs_resample), events),
    ensures
        ({
            let st = story_of(fresh::<T>(needs_resample), events);
            &&& st.logged == st.lasted
            &&& st.fed == st.drained
        }),
{
    lemma_agrees(needs_resample, events);
}

/// The engine is polled once in each round, whether or not anything was captured, so no
/// result of it waits for more audio.
pub proof fn law_every_round_polls_the_engine<T>(
    needs_resample: bool,
    events: Seq<EngineEvent<T>>,
)
    requires
        tellable_all(fresh::<T>(needs_resample), events),
        story_of(fresh::<T>(needs_resample), events).last == Some(
            EngineActionView::<T>::CheckStop,
        ),
    ensures
        ({
            let st = story_of(fresh::<T>(needs_resample), events);
            st.polls == st.rounds
        }),
{
    lemma_agrees(needs_resample, events);
}

/// A session begins with the first round once the engine has begun, and fails with the
/// reason where it has not.
pub proof fn law_a_session_begins_or_fails<T>(
    needs_resample: bool,
    began: Result<(), EngineError>,
)
    ensures
        ({
            let actions = reply(
                fresh::<T>(needs_resample),
                Seq::empty(),
                EngineEvent::Began(began),
            );
            match began {
                Ok(_) => actions == seq![EngineActionView::<T>::CheckStop],
                Err(e) => actions == seq![EngineActionView::<T>::Fail("Error: "@ + e.text())],
            }
        }),
{
}

/// Whether an event is what an action was to bring.
pub open spec fn answers<T>(asked: EngineActionView<T>, event: EngineEvent<T>) -> bool {
    match asked {
        EngineActionView::CheckStop => event is Stop,
        EngineActionView::CheckSettings => event is SettingsApplied,
        EngineActionView::Drain => event is Drained,
        EngineActionView::Poll => event is Polled,
        EngineActionView::Sleep => event is Slept,
        EngineActionView::Condition(_) => event is Conditioned,
        EngineActionView::Judge(_) => event is Judged,
        EngineActionView::ReadClock => event is Clock,
        EngineActionView::EndSession => event is Ended,
        _ => false,
    }
}

/// The loop goes round and never stalls. Each answer brings exactly one next thing to wait
/// for: the stop flag at the top of each round, then the settings, then the capture
/// buffer; nothing captured means a poll and a rest, anything else is conditioned and
/// judged frame by frame, with the clock read where a segment closed, and then the
/// engine is polled. A stop request, and nothing else, ends the session.
pub proof fn law_the_loop_goes_round<T>(
    needs_resample: bool,
    events: Seq<EngineEvent<T>>,
    event: EngineEvent<T>,
)
    requires
        tellable_all(fresh::<T>(needs_resample), events),
        ({
            let st = story_of(fresh::<T>(needs_resample), events);
            st.last matches Some(asked) && answers(asked, event)
        }),
    ensures
        ({
            let l = fresh::<T>(needs_resample);
            let st = story_of(l, events);
            let next = reply(l, events, event).last();
            &&& reply(l, events, event).len() > 0
            &&& match st.last->0 {
                EngineActionView::CheckStop => if event->Stop_0 {
                    next is EndSession
                } else {
                    next is CheckSettings
                },
                EngineActionView::CheckSettings => next is Drain,
                EngineActionView::Drain => if event->samples@.len() == 0 {
                    next is Poll
                } else {
                    next is Condition
                },
                EngineActionView::Poll => if st.now_drained == 0 {
                    next is Sleep
                } else {
                    next is CheckStop
                },
                EngineActionView::Sleep => next is CheckStop,
                EngineActionView::Condition(_) => next is Judge || next is Poll,
                EngineActionView::Judge(_) => if session::decision_view(event->decision) == Some(
                    DecisionView::<T>::SpeechEnded,
                ) {
                    next is ReadClock
                } else {
                    next is Judge || next is Poll
                },
                EngineActionView::ReadClock => next is Judge || next is Poll,
                EngineActionView::EndSession => next is Return,
                _ => true,
            }
        }),
{
    let l = fresh::<T>(needs_resample);
    lemma_agrees(needs_resample, events);
    let now = loop_of(l, events);
    match event {
        EngineEvent::Judged { decision, uptime_ms } => {
            lemma_judged_agrees(
                now,
                story_of(l, events),
                session::decision_view(decision),
                uptime_ms,
                told(story_of(l, events), event),
            );
        },
        EngineEvent::Clock { uptime_ms } => {
            let step = audio_engine::timed(now, uptime_ms);
            assert(step.actions.len() == 2);
            assert(step.actions.last() == step.actions[1]);
        },
        _ => {},
    }
}

} // verus!
