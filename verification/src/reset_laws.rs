//! When a chunk decoder resets its model, and what it replays.
//!
//! The laws speak of what the decoder was told and of what it handed out: the results of
//! the live chunks, the marks of the speech segments, the resets, and the chunks that
//! it asked for.

use vstd::prelude::*;

use crate::decoder;
use crate::decoder::ActionView;
use crate::decoder::ChunkResult;
use crate::decoder::ChunkSource;
use crate::decoder::DecoderView;
use crate::decoder::PassView;
use crate::decoder::Turn;
use crate::samples;
use crate::text;

verus! {

// ---------------------------------------------------------------------------
// What is handed out
// ---------------------------------------------------------------------------

/// How often the model is reset, and for which reasons.
#[verifier::ext_equal]
pub struct Tally {
    pub resets: nat,
    pub punctuations: nat,
    pub replays: nat,
    pub speech_ends: nat,
}

pub open spec fn tally(actions: Seq<ActionView>) -> Tally
    decreases actions.len(),
{
    if actions.len() == 0 {
        Tally { resets: 0, punctuations: 0, replays: 0, speech_ends: 0 }
    } else {
        let before = tally(actions.drop_last());
        match actions.last() {
            ActionView::ResetModel => Tally { resets: before.resets + 1, ..before },
            ActionView::LogPunctuationReset { .. } => Tally {
                punctuations: before.punctuations + 1,
                ..before
            },
            ActionView::LogMidSpeechReset { .. } => Tally {
                replays: before.replays + 1,
                ..before
            },
            ActionView::LogSpeechEnd { .. } => Tally {
                speech_ends: before.speech_ends + 1,
                ..before
            },
            _ => before,
        }
    }
}

proof fn lemma_tally_push(actions: Seq<ActionView>, a: ActionView)
    ensures
        tally(actions.push(a)) == match a {
            ActionView::ResetModel => Tally {
                resets: tally(actions).resets + 1,
                ..tally(actions)
            },
            ActionView::LogPunctuationReset { .. } => Tally {
                punctuations: tally(actions).punctuations + 1,
                ..tally(actions)
            },
            ActionView::LogMidSpeechReset { .. } => Tally {
                replays: tally(actions).replays + 1,
                ..tally(actions)
            },
            ActionView::LogSpeechEnd { .. } => Tally {
                speech_ends: tally(actions).speech_ends + 1,
                ..tally(actions)
            },
            _ => tally(actions),
        },
{
    assert(actions.push(a).drop_last() =~= actions);
}

// ---------------------------------------------------------------------------
// A decoder as its owner sees it
// ---------------------------------------------------------------------------

/// Something that a decoder is told.
pub enum Input<T> {
    Push(Seq<T>),
    SpeechStart,
    SpeechEnd { uptime_ms: i64, speech_duration_ms: i64, fill: T },
    Begin { speech: bool },
    Result(ChunkResult),
    Settings { punctuation_reset: bool, empty_reset_threshold: u32 },
    ModelRestarted,
    Abandon,
    Discard,
}

/// What the model said to a live chunk.
#[verifier::ext_equal]
pub struct Answer {
    pub speech: bool,
    pub empty: bool,
}

/// A decoder so far, as its owner sees it.
#[verifier::ext_equal]
pub struct Log<T> {
    pub d: DecoderView<T>,
    pub next_id: u64,
    /// The answers to live chunks since the model was last reset or speech last
    /// started. A chunk that the model failed on has none.
    pub answers: Seq<Answer>,
    /// The live chunks of speech that were asked for since then. Where the settings
    /// change, only those are left that both the old and the new ones keep.
    pub chunks: Seq<Seq<T>>,
    /// How many chunks were asked for since the model was last reset, replayed ones
    /// included.
    pub since: nat,
    /// How many chunks the model answered, replayed ones included.
    pub answered: nat,
}

pub open spec fn fresh_log<T>(
    chunk_size: usize,
    punctuation_reset: bool,
    empty_reset_threshold: u32,
    next_id: u64,
) -> Log<T> {
    Log {
        d: decoder::fresh_decoder(chunk_size, punctuation_reset, empty_reset_threshold),
        next_id,
        answers: Seq::empty(),
        chunks: Seq::empty(),
        since: 0,
        answered: 0,
    }
}

/// What a step does: its actions, then the chunk it asks for is run.
pub open spec fn noted<T>(log: Log<T>, t: Turn<T>) -> Log<T> {
    let reset = tally(t.actions).resets > 0;
    let asked = if t.request is Some {
        1nat
    } else {
        0
    };
    let live_speech = t.d.pass == (PassView::<T>::Live { speech: true });
    let chunks = if reset {
        Seq::empty()
    } else {
        log.chunks
    };
    Log {
        d: t.d,
        next_id: t.next_id,
        answers: if reset {
            Seq::empty()
        } else {
            log.answers
        },
        chunks: if live_speech {
            chunks.push(t.request->0)
        } else {
            chunks
        },
        since: if reset {
            asked
        } else {
            log.since + asked
        },
        ..log
    }
}

/// A result is an answer to the chunk that was asked for last, unless the model failed.
pub open spec fn answering<T>(log: Log<T>, result: ChunkResult) -> Log<T> {
    match result.text {
        Ok(text) => Log {
            answers: match log.d.pass {
                PassView::Live { speech } => log.answers.push(
                    Answer { speech, empty: text@.len() == 0 },
                ),
                _ => log.answers,
            },
            answered: log.answered + 1,
            ..log
        },
        Err(_) => log,
    }
}

/// The decoder can be told this now.
pub open spec fn fits<T>(d: DecoderView<T>, input: Input<T>) -> bool {
    match input {
        Input::Push(_) => d.pass is Idle,
        Input::Begin { .. } => d.pass is Idle,
        Input::Discard => d.pass is Idle,
        Input::Result(_) => !(d.pass is Idle),
        _ => true,
    }
}

pub open spec fn told<T>(log: Log<T>, input: Input<T>) -> Log<T> {
    if !fits(log.d, input) {
        log
    } else {
        match input {
            Input::Push(samples) => Log { d: decoder::pushed(log.d, samples), ..log },
            Input::SpeechStart => Log {
                d: decoder::speech_started(log.d),
                answers: Seq::empty(),
                chunks: Seq::empty(),
                ..log
            },
            Input::SpeechEnd { uptime_ms, speech_duration_ms, fill } => Log {
                d: decoder::speech_ended(log.d, uptime_ms, speech_duration_ms, fill),
                ..log
            },
            Input::Begin { speech } => noted(log, decoder::started(log.d, log.next_id, speech)),
            Input::Result(result) => noted(
                answering(log, result),
                decoder::resumed(log.d, log.next_id, result),
            ),
            Input::Settings { punctuation_reset, empty_reset_threshold } => Log {
                d: decoder::with_settings(log.d, punctuation_reset, empty_reset_threshold),
                chunks: samples::newest(
                    samples::newest(log.chunks, log.d.empty_reset_threshold as nat),
                    empty_reset_threshold as nat,
                ),
                ..log
            },
            Input::ModelRestarted => Log {
                d: decoder::restarted(log.d),
                answers: Seq::empty(),
                chunks: Seq::empty(),
                since: 0,
                ..log
            },
            Input::Abandon => Log { d: decoder::abandoned(log.d), ..log },
            Input::Discard => Log {
                d: decoder::discarded(log.d),
                chunks: Seq::empty(),
                ..log
            },
        }
    }
}

pub open spec fn told_all<T>(log: Log<T>, inputs: Seq<Input<T>>) -> Log<T>
    decreases inputs.len(),
{
    if inputs.len() == 0 {
        log
    } else {
        told(told_all(log, inputs.drop_last()), inputs.last())
    }
}

/// The last `m` answers all came in speech, and all were empty.
pub open spec fn stuck(answers: Seq<Answer>, m: nat) -> bool {
    &&& answers.len() >= m
    &&& forall|k: int|
        answers.len() - m <= k < answers.len() ==> (#[trigger] answers[k]).speech
            && answers[k].empty
}

// ---------------------------------------------------------------------------
// What the decoder keeps of it
// ---------------------------------------------------------------------------

spec fn trailing(answers: Seq<Answer>) -> nat
    decreases answers.len(),
{
    if answers.len() > 0 && answers.last().speech && answers.last().empty {
        trailing(answers.drop_last()) + 1
    } else {
        0
    }
}

proof fn lemma_trailing(answers: Seq<Answer>, m: nat)
    ensures
        trailing(answers) >= m <==> stuck(answers, m),
    decreases answers.len(),
{
    if m > 0 && answers.len() > 0 {
        let front = answers.drop_last();
        lemma_trailing(front, (m - 1) as nat);
        if stuck(answers, m) {
            assert(answers[answers.len() - 1].speech && answers[answers.len() - 1].empty);
            assert forall|k: int| front.len() - (m - 1) <= k < front.len() implies (
            #[trigger] front[k]).speech && front[k].empty by {
                assert(front[k] == answers[k]);
            }
        }
        if trailing(answers) >= m {
            assert forall|k: int| answers.len() - m <= k < answers.len() implies (
            #[trigger] answers[k]).speech && answers[k].empty by {
                if k < answers.len() - 1 {
                    assert(front[k] == answers[k]);
                }
            }
        }
    }
}

spec fn capped32(n: nat) -> u32 {
    if n >= u32::MAX {
        u32::MAX
    } else {
        n as u32
    }
}

spec fn capped64(n: nat) -> u64 {
    if n >= u64::MAX {
        u64::MAX
    } else {
        n as u64
    }
}

spec fn kept<T>(log: Log<T>) -> bool {
    &&& log.d.consecutive_empty == capped32(trailing(log.answers))
    &&& log.d.replay == samples::newest(log.chunks, log.d.replay_capacity as nat)
    &&& log.d.replay_capacity == log.d.empty_reset_threshold
    &&& log.d.chunks_since_reset == capped64(log.since)
    &&& log.d.chunk_num == capped64(log.answered)
}

/// From `d` a step goes on to the chunk that it asks for, or to the end of the pass.
spec fn asks<T>(d: DecoderView<T>, t: Turn<T>, speech: bool) -> bool {
    &&& t.d.consecutive_empty == d.consecutive_empty
    &&& t.d.chunk_num == d.chunk_num
    &&& t.d.replay_capacity == d.replay_capacity
    &&& t.d.empty_reset_threshold == d.empty_reset_threshold
    &&& t.d.punctuation_reset == d.punctuation_reset
    &&& match t.d.pass {
        PassView::Live { speech: now } => {
            &&& now == speech
            &&& t.request is Some
            &&& t.d.chunks_since_reset == decoder::bump(d.chunks_since_reset)
            &&& t.d.replay == if speech {
                samples::newest(d.replay.push(t.request->0), d.replay_capacity as nat)
            } else {
                d.replay
            }
        },
        PassView::Replaying { .. } => {
            &&& t.request is Some
            &&& t.d.chunks_since_reset == decoder::bump(d.chunks_since_reset)
            &&& t.d.replay == d.replay
        },
        PassView::Idle => {
            &&& t.request is None
            &&& t.d.chunks_since_reset == d.chunks_since_reset
            &&& t.d.replay == d.replay
        },
    }
}

/// The same, behind the resets that the step makes.
spec fn follows<T>(d: DecoderView<T>, t: Turn<T>, speech: bool) -> bool {
    asks(
        if tally(t.actions).resets > 0 {
            decoder::restarted(d)
        } else {
            d
        },
        t,
        speech,
    )
}

proof fn lemma_noted<T>(log: Log<T>, t: Turn<T>, speech: bool)
    requires
        kept(log),
        follows(log.d, t, speech),
    ensures
        kept(noted(log, t)),
{
    let after = noted(log, t);
    let n = log.d.replay_capacity as nat;
    let base = if tally(t.actions).resets > 0 {
        Seq::<Seq<T>>::empty()
    } else {
        log.chunks
    };
    assert(samples::newest(Seq::<Seq<T>>::empty(), n) =~= Seq::<Seq<T>>::empty());
    assert(trailing(Seq::<Answer>::empty()) == 0);
    if t.d.pass == (PassView::<T>::Live { speech: true }) {
        let chunk = t.request->0;
        samples::lemma_newest_add(base, seq![chunk], n);
        assert(base + seq![chunk] =~= base.push(chunk));
        assert(samples::newest(base, n) + seq![chunk] =~= samples::newest(base, n).push(chunk));
    }
}

/// What settling does: the segments whose audio is consumed are closed, each with a
/// reset of its own, and the pass goes on.
spec fn settles<T>(t: Turn<T>, after: Turn<T>, speech: bool) -> bool {
    let gone = t.d.ends.len() - after.d.ends.len();
    let before = tally(t.actions);
    &&& gone >= 0
    &&& after.d.ends == t.d.ends.skip(gone)
    &&& forall|i: int|
        0 <= i < gone ==> (#[trigger] t.d.ends[i]).reset_after_samples <= t.d.consumed
    &&& after.d.ends.len() > 0 ==> after.d.ends[0].reset_after_samples > t.d.consumed
    &&& tally(after.actions) == (Tally {
        resets: (before.resets + gone) as nat,
        speech_ends: (before.speech_ends + gone) as nat,
        ..before
    })
    &&& !(after.d.pass is Replaying)
    &&& asks(
        if gone > 0 {
            decoder::restarted(t.d)
        } else {
            t.d
        },
        after,
        speech,
    )
}

proof fn lemma_settled<T>(t: Turn<T>, speech: bool)
    requires
        t.request is None,
    ensures
        settles(t, decoder::settled(t, speech), speech),
    decreases t.d.ends.len(),
{
    let d = t.d;
    let after = decoder::settled(t, speech);
    if d.ends.len() > 0 && d.consumed >= d.ends[0].reset_after_samples {
        let note = ActionView::LogSpeechEnd {
            end: d.ends[0],
            consecutive_empty: d.consecutive_empty,
            chunks_since_reset: d.chunks_since_reset,
        };
        lemma_tally_push(t.actions, note);
        lemma_tally_push(t.actions.push(note), ActionView::ResetModel);
        let t2 = Turn {
            d: DecoderView { ends: d.ends.drop_first(), ..decoder::restarted(d) },
            actions: t.actions.push(note).push(ActionView::ResetModel),
            ..t
        };
        lemma_settled(t2, speech);
        let gone = t.d.ends.len() - after.d.ends.len();
        assert(after.d.ends =~= t.d.ends.skip(gone));
        assert forall|i: int| 0 <= i < gone implies (#[trigger] t.d.ends[i]).reset_after_samples
            <= t.d.consumed by {
            if i > 0 {
                assert(t2.d.ends[i - 1] == t.d.ends[i]);
            }
        }
    } else {
        assert(after.d.ends =~= t.d.ends.skip(0));
    }
}

/// Where a replay stands: it asks for its next chunk, or is over and the pass settles.
spec fn replays_on<T>(t: Turn<T>, after: Turn<T>) -> bool {
    let queue = t.d.pass->queue;
    if queue.len() > 0 {
        &&& after.d.pass is Replaying
        &&& after.d.pass->queue == queue.drop_first()
        &&& after.request == Some(queue[0])
        &&& after.actions == t.actions
        &&& after.d.ends == t.d.ends
        &&& asks(t.d, after, t.d.pass->Replaying_speech)
    } else {
        exists|noted: Turn<T>| #[trigger]
            settles(noted, after, t.d.pass->Replaying_speech) && noted.d == t.d && tally(
                noted.actions,
            ) == (Tally { replays: tally(t.actions).replays + 1, ..tally(t.actions) })
    }
}

proof fn lemma_replaying<T>(t: Turn<T>)
    requires
        t.request is None,
        t.d.pass is Replaying,
    ensures
        replays_on(t, decoder::replaying(t)),
{
    match t.d.pass {
        PassView::Replaying {
            speech,
            queue,
            uptime_ms,
            consecutive_empty,
            chunks_since_reset,
            replay_chunks,
            nonempty,
            inference_ms,
        } => {
            if queue.len() == 0 {
                let note = ActionView::LogMidSpeechReset {
                    uptime_ms,
                    consecutive_empty,
                    chunks_since_reset,
                    replay_chunks,
                    replay_nonempty_chunks: nonempty,
                    replay_inference_ms: inference_ms,
                };
                lemma_tally_push(t.actions, note);
                let t2 = Turn { actions: t.actions.push(note), ..t };
                lemma_settled(t2, speech);
                assert(settles(t2, decoder::replaying(t), speech));
            }
        },
        _ => {},
    }
}

/// What the decoder makes of the result of a live chunk before it goes on.
spec fn counted<T>(d: DecoderView<T>, speech: bool, result: ChunkResult) -> DecoderView<T> {
    match result.text {
        Ok(text) => DecoderView {
            chunk_num: decoder::bump(d.chunk_num),
            consecutive_empty: if text@.len() == 0 && speech {
                decoder::bump32(d.consecutive_empty)
            } else {
                0
            },
            ..d
        },
        Err(_) => d,
    }
}

/// Text that ends a sentence, where that rule is on.
spec fn ends_sentence<T>(d: DecoderView<T>, result: ChunkResult) -> bool {
    match result.text {
        Ok(text) => d.punctuation_reset && text@.len() > 0 && text::sentence_punctuated(text@),
        Err(_) => false,
    }
}

/// What follows the result of a live chunk.
spec fn moves_on<T>(d: DecoderView<T>, speech: bool, result: ChunkResult, t: Turn<T>) -> bool {
    let c = counted(d, speech, result);
    let again = result.text is Ok && speech && c.consecutive_empty >= d.empty_reset_threshold;
    let gone = d.ends.len() - t.d.ends.len();
    let one = |b: bool|
        if b {
            1int
        } else {
            0
        };
    &&& follows(c, t, speech)
    &&& gone >= 0
    &&& tally(t.actions).punctuations == one(ends_sentence(d, result))
    &&& tally(t.actions).speech_ends == gone
    &&& tally(t.actions).resets == one(ends_sentence(d, result)) + one(again) + gone
    &&& (t.d.pass is Replaying || tally(t.actions).replays > 0) == again
    &&& t.d.pass is Replaying ==> gone == 0 && (!ends_sentence(d, result) ==> seq![t.request->0]
        + t.d.pass->queue == d.replay)
    &&& tally(t.actions).replays > 0 ==> !ends_sentence(d, result) ==> d.replay.len() == 0
    &&& !(t.d.pass is Replaying) ==> settled_up(d, t.d)
}

/// The segments whose audio is consumed are closed, and no others.
pub open spec fn settled_up<T>(d: DecoderView<T>, after: DecoderView<T>) -> bool {
    let gone = d.ends.len() - after.ends.len();
    &&& gone >= 0
    &&& after.ends == d.ends.skip(gone)
    &&& forall|i: int|
        0 <= i < gone ==> (#[trigger] d.ends[i]).reset_after_samples <= d.consumed
    &&& after.ends.len() > 0 ==> after.ends[0].reset_after_samples > d.consumed
}

proof fn lemma_live<T>(d: DecoderView<T>, next_id: u64, speech: bool, result: ChunkResult)
    requires
        d.pass == (PassView::<T>::Live { speech }),
    ensures
        moves_on(d, speech, result, decoder::resumed(d, next_id, result)),
{
    let start = Turn { d, next_id, actions: Seq::<ActionView>::empty(), request: None::<Seq<T>> };
    let t = decoder::resumed(d, next_id, result);
    let c = counted(d, speech, result);
    let (inf, up) = (result.inference_ms, result.uptime_ms);
    match result.text {
        Ok(text) => {
            let x2 = Turn { d: c, ..start };
            let x3 = decoder::logged(x2, text@, inf, up, speech, ChunkSource::Live);
            lemma_tally_push(x2.actions, x3.actions.last());
            let x4 = decoder::punctuated(x3, text@, up);
            let note = ActionView::LogPunctuationReset {
                uptime_ms: up,
                consecutive_empty: x3.d.consecutive_empty,
                chunks_since_reset: x3.d.chunks_since_reset,
            };
            lemma_tally_push(x3.actions, note);
            lemma_tally_push(x3.actions.push(note), ActionView::ResetModel);
            let x5 = decoder::emitting(x4, text@);
            if text@.len() > 0 {
                lemma_tally_push(x4.actions, x5.actions.last());
            }
            assert(x5.d.ends == d.ends && x5.d.consumed == d.consumed);
            if x5.d.consecutive_empty >= x5.d.empty_reset_threshold && speech {
                let x6 = Turn {
                    d: DecoderView {
                        pass: PassView::Replaying {
                            speech,
                            queue: x5.d.replay,
                            uptime_ms: up,
                            consecutive_empty: x5.d.consecutive_empty,
                            chunks_since_reset: x5.d.chunks_since_reset,
                            replay_chunks: x5.d.replay.len() as u64,
                            nonempty: 0,
                            inference_ms: 0,
                        },
                        ..decoder::restarted(x5.d)
                    },
                    actions: x5.actions.push(ActionView::ResetModel),
                    ..x5
                };
                lemma_tally_push(x5.actions, ActionView::ResetModel);
                lemma_replaying(x6);
                assert(t == decoder::replaying(x6));
                if x5.d.replay.len() > 0 {
                    assert(seq![t.request->0] + t.d.pass->queue =~= x5.d.replay);
                } else {
                    let noted = choose|noted: Turn<T>| #[trigger]
                        settles(noted, t, speech) && noted.d == x6.d && tally(noted.actions) == (
                        Tally { replays: tally(x6.actions).replays + 1, ..tally(x6.actions) });
                    assert(settles(noted, t, speech));
                }
            } else {
                lemma_settled(x5, speech);
            }
        },
        Err(message) => {
            let x2 = decoder::failed(start, message@, inf, up, speech, ChunkSource::Live);
            lemma_tally_push(start.actions, x2.actions.last());
            lemma_settled(x2, speech);
        },
    }
}

/// What the decoder makes of the result of a replayed chunk before it goes on.
spec fn recounted<T>(d: DecoderView<T>, result: ChunkResult) -> DecoderView<T> {
    match result.text {
        Ok(text) => DecoderView { chunk_num: decoder::bump(d.chunk_num), ..d },
        Err(_) => d,
    }
}

/// What follows the result of a replayed chunk.
spec fn replays_further<T>(d: DecoderView<T>, result: ChunkResult, t: Turn<T>) -> bool {
    let queue = d.pass->queue;
    let gone = d.ends.len() - t.d.ends.len();
    &&& follows(recounted(d, result), t, d.pass->Replaying_speech)
    &&& tally(t.actions).punctuations == 0
    &&& if queue.len() > 0 {
        &&& t.d.pass is Replaying
        &&& t.request == Some(queue[0])
        &&& t.d.pass->queue == queue.drop_first()
        &&& tally(t.actions).resets == 0
        &&& tally(t.actions).replays == 0
        &&& t.d.ends == d.ends
    } else {
        &&& !(t.d.pass is Replaying)
        &&& tally(t.actions).replays == 1
        &&& tally(t.actions).resets == gone
        &&& settled_up(d, t.d)
    }
}

proof fn lemma_replay<T>(d: DecoderView<T>, next_id: u64, result: ChunkResult)
    requires
        d.pass is Replaying,
    ensures
        replays_further(d, result, decoder::resumed(d, next_id, result)),
{
    let start = Turn { d, next_id, actions: Seq::<ActionView>::empty(), request: None::<Seq<T>> };
    let t = decoder::resumed(d, next_id, result);
    let (inf, up) = (result.inference_ms, result.uptime_ms);
    match d.pass {
        PassView::Replaying {
            speech,
            queue,
            uptime_ms,
            consecutive_empty,
            chunks_since_reset,
            replay_chunks,
            nonempty,
            inference_ms,
        } => {
            let x = match result.text {
                Ok(text) => {
                    let x2 = Turn {
                        d: DecoderView {
                            chunk_num: decoder::bump(d.chunk_num),
                            pass: PassView::Replaying {
                                speech,
                                queue,
                                uptime_ms,
                                consecutive_empty,
                                chunks_since_reset,
                                replay_chunks,
                                nonempty: if text@.len() == 0 {
                                    nonempty
                                } else {
                                    decoder::bump(nonempty)
                                },
                                inference_ms: decoder::capped_sum(inference_ms, inf),
                            },
                            ..d
                        },
                        ..start
                    };
                    let x3 = decoder::logged(x2, text@, inf, up, true, ChunkSource::Replay);
                    lemma_tally_push(x2.actions, x3.actions.last());
                    let x4 = decoder::emitting(x3, text@);
                    if text@.len() > 0 {
                        lemma_tally_push(x3.actions, x4.actions.last());
                    }
                    x4
                },
                Err(message) => {
                    let x2 = decoder::failed(start, message@, inf, up, true, ChunkSource::Replay);
                    lemma_tally_push(start.actions, x2.actions.last());
                    x2
                },
            };
            assert(t == decoder::replaying(x));
            lemma_replaying(x);
            if queue.len() == 0 {
                let noted = choose|noted: Turn<T>| #[trigger]
                    settles(noted, t, speech) && noted.d == x.d && tally(noted.actions) == (Tally {
                        replays: tally(x.actions).replays + 1,
                        ..tally(x.actions)
                    });
                assert(settles(noted, t, speech));
            }
        },
        _ => {},
    }
}

proof fn lemma_told_kept<T>(log: Log<T>, input: Input<T>)
    requires
        kept(log),
    ensures
        kept(told(log, input)),
{
    let after = told(log, input);
    let n = log.d.replay_capacity as nat;
    assert(trailing(Seq::<Answer>::empty()) == 0);
    assert(samples::newest(Seq::<Seq<T>>::empty(), n) =~= Seq::<Seq<T>>::empty());
    if fits(log.d, input) {
        match input {
            Input::Begin { speech } => {
                let t = decoder::started(log.d, log.next_id, speech);
                assert(tally(t.actions).resets == 0);
                lemma_noted(log, t, speech);
            },
            Input::Result(result) => {
                let t = decoder::resumed(log.d, log.next_id, result);
                let before = answering(log, result);
                match log.d.pass {
                    PassView::Live { speech } => {
                        lemma_live(log.d, log.next_id, speech, result);
                        let c = counted(log.d, speech, result);
                        if result.text is Ok {
                            assert(before.answers.drop_last() =~= log.answers);
                        }
                        lemma_noted(Log { d: c, ..before }, t, speech);
                        assert(noted(Log { d: c, ..before }, t) == noted(before, t));
                    },
                    PassView::Replaying { speech, .. } => {
                        lemma_replay(log.d, log.next_id, result);
                        let c = recounted(log.d, result);
                        lemma_noted(Log { d: c, ..before }, t, speech);
                        assert(noted(Log { d: c, ..before }, t) == noted(before, t));
                    },
                    PassView::Idle => {},
                }
            },
            Input::Settings { punctuation_reset, empty_reset_threshold } => {
                let m = empty_reset_threshold as nat;
                let left = samples::newest(samples::newest(log.chunks, n), m);
                assert(samples::newest(left, m) =~= left);
            },
            _ => {},
        }
    }
}

proof fn lemma_kept<T>(log: Log<T>, inputs: Seq<Input<T>>)
    requires
        kept(log),
    ensures
        kept(told_all(log, inputs)),
    decreases inputs.len(),
{
    if inputs.len() > 0 {
        lemma_kept(log, inputs.drop_last());
        lemma_told_kept(told_all(log, inputs.drop_last()), inputs.last());
    }
}

// ---------------------------------------------------------------------------
// Laws
// ---------------------------------------------------------------------------

/// A step starts a replay: it asks for a chunk to replay, or logs one that had nothing to
/// replay.
pub open spec fn starts_replay<T>(t: Turn<T>) -> bool {
    t.d.pass is Replaying || tally(t.actions).replays > 0
}

/// A live result with text ends a run of empty ones: the count of consecutive empty
/// results is zero behind it, whatever else happens. So it is behind any result outside
/// speech.
pub proof fn law_text_ends_a_run_of_empty_results<T>(
    d: DecoderView<T>,
    next_id: u64,
    speech: bool,
    result: ChunkResult,
)
    requires
        d.pass == (PassView::<T>::Live { speech }),
        result.text matches Ok(text) && (text@.len() > 0 || !speech),
    ensures
        decoder::resumed(d, next_id, result).d.consecutive_empty == 0,
{
    lemma_live(d, next_id, speech, result);
}

/// A decoder replays exactly where it is stuck: over any history, a live result starts a
/// replay if and only if it and the answers before it make `empty_reset_threshold`
/// answers in a row that all came in speech and were all empty, with no text, no model
/// reset and no start of speech among them. A failed result neither counts nor breaks
/// the run.
pub proof fn law_a_replay_needs_a_run_of_empty_results<T>(
    chunk_size: usize,
    punctuation_reset: bool,
    empty_reset_threshold: u32,
    next_id: u64,
    inputs: Seq<Input<T>>,
    speech: bool,
    result: ChunkResult,
)
    requires
        ({
            let log = told_all(
                fresh_log::<T>(chunk_size, punctuation_reset, empty_reset_threshold, next_id),
                inputs,
            );
            &&& log.d.pass == (PassView::<T>::Live { speech })
            &&& log.d.empty_reset_threshold > 0
        }),
    ensures
        ({
            let log = told_all(
                fresh_log::<T>(chunk_size, punctuation_reset, empty_reset_threshold, next_id),
                inputs,
            );
            let t = decoder::resumed(log.d, log.next_id, result);
            starts_replay(t) <==> result.text is Ok && stuck(
                answering(log, result).answers,
                log.d.empty_reset_threshold as nat,
            )
        }),
{
    let fresh = fresh_log::<T>(chunk_size, punctuation_reset, empty_reset_threshold, next_id);
    lemma_fresh_kept::<T>(chunk_size, punctuation_reset, empty_reset_threshold, next_id);
    lemma_kept(fresh, inputs);
    let log = told_all(fresh, inputs);
    let all = answering(log, result).answers;
    lemma_live(log.d, log.next_id, speech, result);
    lemma_trailing(all, log.d.empty_reset_threshold as nat);
    if result.text is Ok {
        assert(all.drop_last() =~= log.answers);
        if stuck(all, log.d.empty_reset_threshold as nat) {
            assert(all[all.len() - 1].speech);
        }
    }
}

proof fn lemma_fresh_kept<T>(
    chunk_size: usize,
    punctuation_reset: bool,
    empty_reset_threshold: u32,
    next_id: u64,
)
    ensures
        kept(fresh_log::<T>(chunk_size, punctuation_reset, empty_reset_threshold, next_id)),
{
    let n = (empty_reset_threshold as usize) as nat;
    assert(samples::newest(Seq::<Seq<T>>::empty(), n) =~= Seq::<Seq<T>>::empty());
}

/// A replay runs the newest live chunks of speech since the model was last reset or
/// speech last started, as many as empty results make a decoder stuck, oldest first.
pub proof fn law_a_replay_runs_the_newest_speech<T>(
    chunk_size: usize,
    punctuation_reset: bool,
    empty_reset_threshold: u32,
    next_id: u64,
    inputs: Seq<Input<T>>,
    speech: bool,
    result: ChunkResult,
)
    requires
        ({
            let log = told_all(
                fresh_log::<T>(chunk_size, punctuation_reset, empty_reset_threshold, next_id),
                inputs,
            );
            &&& log.d.pass == (PassView::<T>::Live { speech })
            &&& log.d.empty_reset_threshold > 0
            &&& starts_replay(decoder::resumed(log.d, log.next_id, result))
        }),
    ensures
        ({
            let log = told_all(
                fresh_log::<T>(chunk_size, punctuation_reset, empty_reset_threshold, next_id),
                inputs,
            );
            let t = decoder::resumed(log.d, log.next_id, result);
            let replayed = if t.d.pass is Replaying {
                seq![t.request->0] + t.d.pass->queue
            } else {
                Seq::empty()
            };
            replayed == samples::newest(log.chunks, log.d.empty_reset_threshold as nat)
        }),
{
    let fresh = fresh_log::<T>(chunk_size, punctuation_reset, empty_reset_threshold, next_id);
    lemma_fresh_kept::<T>(chunk_size, punctuation_reset, empty_reset_threshold, next_id);
    lemma_kept(fresh, inputs);
    let log = told_all(fresh, inputs);
    lemma_live(log.d, log.next_id, speech, result);
    if !(decoder::resumed(log.d, log.next_id, result).d.pass is Replaying) {
        assert(log.d.replay =~= Seq::<Seq<T>>::empty());
    }
}

/// A replay runs each of its chunks once, whatever the model makes of them, resets
/// nothing on the way, and is logged once when it is through.
pub proof fn law_a_replay_runs_to_its_end<T>(
    d: DecoderView<T>,
    next_id: u64,
    result: ChunkResult,
)
    requires
        d.pass is Replaying,
    ensures
        ({
            let t = decoder::resumed(d, next_id, result);
            let queue = d.pass->queue;
            if queue.len() > 0 {
                &&& t.d.pass is Replaying
                &&& t.request == Some(queue[0])
                &&& t.d.pass->queue == queue.drop_first()
                &&& tally(t.actions).resets == 0
                &&& tally(t.actions).replays == 0
            } else {
                &&& !(t.d.pass is Replaying)
                &&& tally(t.actions).replays == 1
            }
        }),
{
    lemma_replay(d, next_id, result);
}

/// The model is reset for a reason, once for each: behind a live result, once if its text
/// ends a sentence and that rule is on, once if a replay starts, and once for each
/// speech segment whose audio is consumed; behind a replayed one, only for those
/// segments.
pub proof fn law_every_reset_has_its_reason<T>(
    d: DecoderView<T>,
    next_id: u64,
    result: ChunkResult,
)
    requires
        !(d.pass is Idle),
    ensures
        ({
            let t = decoder::resumed(d, next_id, result);
            let said = match result.text {
                Ok(text) => text@,
                Err(_) => Seq::empty(),
            };
            let punctuated = d.pass is Live && d.punctuation_reset && said.len() > 0
                && text::sentence_punctuated(said);
            let one = |b: bool|
                if b {
                    1int
                } else {
                    0
                };
            let closed = d.ends.len() - t.d.ends.len();
            &&& tally(t.actions).punctuations == one(punctuated)
            &&& tally(t.actions).resets == one(punctuated) + one(
                d.pass is Live && starts_replay(t),
            ) + closed
            &&& if t.d.pass is Replaying {
                t.d.ends == d.ends
            } else {
                settled_up(d, t.d)
            }
        }),
{
    match d.pass {
        PassView::Live { speech } => {
            lemma_live(d, next_id, speech, result);
            let t = decoder::resumed(d, next_id, result);
            if t.d.pass is Replaying {
                lemma_ends_wait(d, next_id, speech, result);
            }
        },
        PassView::Replaying { .. } => {
            lemma_replay(d, next_id, result);
        },
        PassView::Idle => {},
    }
}

/// While a replay is under way, no segment is closed.
proof fn lemma_ends_wait<T>(d: DecoderView<T>, next_id: u64, speech: bool, result: ChunkResult)
    requires
        d.pass == (PassView::<T>::Live { speech }),
        decoder::resumed(d, next_id, result).d.pass is Replaying,
    ensures
        decoder::resumed(d, next_id, result).d.ends == d.ends,
{
    let start = Turn { d, next_id, actions: Seq::<ActionView>::empty(), request: None::<Seq<T>> };
    let (inf, up) = (result.inference_ms, result.uptime_ms);
    match result.text {
        Ok(text) => {
            let x2 = Turn { d: counted(d, speech, result), ..start };
            let x3 = decoder::logged(x2, text@, inf, up, speech, ChunkSource::Live);
            let x5 = decoder::emitting(decoder::punctuated(x3, text@, up), text@);
            if x5.d.consecutive_empty >= x5.d.empty_reset_threshold && speech {
                let x6 = Turn {
                    d: DecoderView {
                        pass: PassView::Replaying {
                            speech,
                            queue: x5.d.replay,
                            uptime_ms: up,
                            consecutive_empty: x5.d.consecutive_empty,
                            chunks_since_reset: x5.d.chunks_since_reset,
                            replay_chunks: x5.d.replay.len() as u64,
                            nonempty: 0,
                            inference_ms: 0,
                        },
                        ..decoder::restarted(x5.d)
                    },
                    actions: x5.actions.push(ActionView::ResetModel),
                    ..x5
                };
                lemma_replaying(x6);
            } else {
                lemma_settled(x5, speech);
            }
        },
        Err(message) => {
            lemma_settled(
                decoder::failed(start, message@, inf, up, speech, ChunkSource::Live),
                speech,
            );
        },
    }
}

/// The counts tell the truth: over any history, the chunks that count as processed are
/// those that the model answered, and the chunks that count since the last reset are
/// those that were asked for since. (As far as the counters reach.)
pub proof fn law_chunks_are_counted<T>(
    chunk_size: usize,
    punctuation_reset: bool,
    empty_reset_threshold: u32,
    next_id: u64,
    inputs: Seq<Input<T>>,
)
    ensures
        ({
            let log = told_all(
                fresh_log::<T>(chunk_size, punctuation_reset, empty_reset_threshold, next_id),
                inputs,
            );
            &&& log.answered <= u64::MAX ==> log.d.chunk_num == log.answered
            &&& log.since <= u64::MAX ==> log.d.chunks_since_reset == log.since
        }),
{
    lemma_fresh_kept::<T>(chunk_size, punctuation_reset, empty_reset_threshold, next_id);
    lemma_kept(
        fresh_log::<T>(chunk_size, punctuation_reset, empty_reset_threshold, next_id),
        inputs,
    );
}

} // verus!
