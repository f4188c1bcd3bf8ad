//! What holds of every pass of a chunk decoder.

use vstd::prelude::*;

use crate::asr;
use crate::asr::UpdateView;
use crate::decoder;
use crate::decoder::ActionView;
use crate::decoder::ChunkResult;
use crate::decoder::DecoderView;
use crate::decoder::PassView;
use crate::decoder::Turn;
use crate::samples;

verus! {

// ---------------------------------------------------------------------------
// Emission
// ---------------------------------------------------------------------------

/// The updates among `actions`, in order.
pub open spec fn emitted(actions: Seq<ActionView>) -> Seq<UpdateView>
    decreases actions.len(),
{
    if actions.len() == 0 {
        Seq::empty()
    } else {
        match actions.last() {
            ActionView::Emit(update) => emitted(actions.drop_last()).push(update),
            _ => emitted(actions.drop_last()),
        }
    }
}

proof fn lemma_emitted_push(actions: Seq<ActionView>, a: ActionView)
    ensures
        emitted(actions.push(a)) == match a {
            ActionView::Emit(update) => emitted(actions).push(update),
            _ => emitted(actions),
        },
{
    assert(actions.push(a).drop_last() == actions);
}

proof fn lemma_settled_emits_nothing<T>(t: Turn<T>, speech: bool)
    ensures
        emitted(decoder::settled(t, speech).actions) == emitted(t.actions),
        decoder::settled(t, speech).next_id == t.next_id,
    decreases t.d.ends.len(),
{
    let d = t.d;
    if d.ends.len() > 0 && d.consumed >= d.ends[0].reset_after_samples {
        let end = ActionView::LogSpeechEnd {
            end: d.ends[0],
            consecutive_empty: d.consecutive_empty,
            chunks_since_reset: d.chunks_since_reset,
        };
        lemma_emitted_push(t.actions, end);
        lemma_emitted_push(t.actions.push(end), ActionView::ResetModel);
        lemma_settled_emits_nothing(
            Turn {
                d: DecoderView { ends: d.ends.drop_first(), ..decoder::restarted(d) },
                actions: t.actions.push(end).push(ActionView::ResetModel),
                ..t
            },
            speech,
        );
    }
}

proof fn lemma_replaying_emits_nothing<T>(t: Turn<T>)
    ensures
        emitted(decoder::replaying(t).actions) == emitted(t.actions),
        decoder::replaying(t).next_id == t.next_id,
{
    match t.d.pass {
        PassView::Replaying {
            speech,
            queue,
            uptime_ms,
            consecutive_empty,
            chunks_since_reset,
            replay_chunks,
            nonempty,
            inference_ms,
        } => {
            if queue.len() == 0 {
                let note = ActionView::LogMidSpeechReset {
                    uptime_ms,
                    consecutive_empty,
                    chunks_since_reset,
                    replay_chunks,
                    replay_nonempty_chunks: nonempty,
                    replay_inference_ms: inference_ms,
                };
                lemma_emitted_push(t.actions, note);
                lemma_settled_emits_nothing(
                    Turn { actions: t.actions.push(note), ..t },
                    speech,
                );
            }
        },
        _ => {},
    }
}

/// What a result puts out: its text, if there is any, as one final update without
/// a speaker under the next id.
pub open spec fn emission(next_id: u64, result: ChunkResult) -> Seq<UpdateView> {
    match result.text {
        Ok(text) if text@.len() > 0 => seq![
            UpdateView { segment_id: next_id, is_final: true, text: text@, speaker: None },
        ],
        _ => Seq::empty(),
    }
}

/// Every non-empty result, live or replayed, is emitted exactly once, already
/// final and under an id of its own; an empty or failed one emits nothing and
/// draws no id.
pub proof fn law_each_result_is_emitted_once<T>(
    d: DecoderView<T>,
    next_id: u64,
    result: ChunkResult,
)
    requires
        !(d.pass is Idle),
    ensures
        ({
            let t = decoder::resumed(d, next_id, result);
            &&& emitted(t.actions) == emission(next_id, result)
            &&& t.next_id == if emission(next_id, result).len() > 0 {
                asr::id_after(next_id)
            } else {
                next_id
            }
        }),
{
    let start = Turn { d, next_id, actions: Seq::<ActionView>::empty(), request: None::<Seq<T>> };
    match d.pass {
        PassView::Live { speech } => lemma_live_emission(start, speech, result),
        PassView::Replaying { .. } => lemma_replay_emission(start, result),
        PassView::Idle => {},
    }
}

proof fn lemma_logged_emits_nothing<T>(
    t: Turn<T>,
    text: Seq<char>,
    inference_ms: u64,
    uptime_ms: i64,
    speech: bool,
    source: decoder::ChunkSource,
)
    ensures
        emitted(
            decoder::logged(t, text, inference_ms, uptime_ms, speech, source).actions,
        ) == emitted(t.actions),
        emitted(
            decoder::failed(t, text, inference_ms, uptime_ms, speech, source).actions,
        ) == emitted(t.actions),
{
    let l = decoder::logged(t, text, inference_ms, uptime_ms, speech, source).actions;
    assert(l.drop_last() == t.actions);
    let f = decoder::failed(t, text, inference_ms, uptime_ms, speech, source).actions;
    assert(f.drop_last() == t.actions);
}

proof fn lemma_live_emission<T>(start: Turn<T>, speech: bool, result: ChunkResult)
    requires
        start.actions == Seq::<ActionView>::empty(),
    ensures
        ({
            let t = decoder::after_live(start, speech, result);
            &&& emitted(t.actions) == emission(start.next_id, result)
            &&& t.next_id == if emission(start.next_id, result).len() > 0 {
                asr::id_after(start.next_id)
            } else {
                start.next_id
            }
        }),
{
    match result.text {
        Ok(text) => {
            let counted = Turn {
                d: DecoderView {
                    chunk_num: decoder::bump(start.d.chunk_num),
                    consecutive_empty: if text@.len() == 0 && speech {
                        decoder::bump32(start.d.consecutive_empty)
                    } else {
                        0
                    },
                    ..start.d
                },
                ..start
            };
            lemma_logged_emits_nothing(
                counted,
                text@,
                result.inference_ms,
                result.uptime_ms,
                speech,
                decoder::ChunkSource::Live,
            );
            let noted = decoder::logged(
                counted,
                text@,
                result.inference_ms,
                result.uptime_ms,
                speech,
                decoder::ChunkSource::Live,
            );
            let reset = decoder::punctuated(noted, text@, result.uptime_ms);
            let note = ActionView::LogPunctuationReset {
                uptime_ms: result.uptime_ms,
                consecutive_empty: noted.d.consecutive_empty,
                chunks_since_reset: noted.d.chunks_since_reset,
            };
            lemma_emitted_push(noted.actions, note);
            lemma_emitted_push(noted.actions.push(note), ActionView::ResetModel);
            assert(emitted(reset.actions) == Seq::<UpdateView>::empty());
            let spoken = decoder::emitting(reset, text@);
            lemma_emitted_push(
                reset.actions,
                ActionView::Emit(
                    UpdateView {
                        segment_id: reset.next_id,
                        is_final: true,
                        text: text@,
                        speaker: None,
                    },
                ),
            );
            assert(emitted(spoken.actions) =~= emission(start.next_id, result));
            lemma_settled_emits_nothing(spoken, speech);
            lemma_emitted_push(spoken.actions, ActionView::ResetModel);
            let t = decoder::unstuck(spoken, speech, result.uptime_ms);
            if spoken.d.consecutive_empty >= spoken.d.empty_reset_threshold && speech {
                lemma_replaying_emits_nothing(
                    Turn {
                        d: DecoderView {
                            pass: PassView::Replaying {
                                speech,
                                queue: spoken.d.replay,
                                uptime_ms: result.uptime_ms,
                                consecutive_empty: spoken.d.consecutive_empty,
                                chunks_since_reset: spoken.d.chunks_since_reset,
                                replay_chunks: spoken.d.replay.len() as u64,
                                nonempty: 0,
                                inference_ms: 0,
                            },
                            ..decoder::restarted(spoken.d)
                        },
                        actions: spoken.actions.push(ActionView::ResetModel),
                        ..spoken
                    },
                );
            }
        },
        Err(message) => {
            lemma_logged_emits_nothing(
                start,
                message@,
                result.inference_ms,
                result.uptime_ms,
                speech,
                decoder::ChunkSource::Live,
            );
            lemma_settled_emits_nothing(
                decoder::failed(
                    start,
                    message@,
                    result.inference_ms,
                    result.uptime_ms,
                    speech,
                    decoder::ChunkSource::Live,
                ),
                speech,
            );
        },
    }
}

proof fn lemma_replay_emission<T>(start: Turn<T>, result: ChunkResult)
    requires
        start.actions == Seq::<ActionView>::empty(),
        start.d.pass is Replaying,
    ensures
        ({
            let t = decoder::after_replay(start, result);
            &&& emitted(t.actions) == emission(start.next_id, result)
            &&& t.next_id == if emission(start.next_id, result).len() > 0 {
                asr::id_after(start.next_id)
            } else {
                start.next_id
            }
        }),
{
    match start.d.pass {
        PassView::Replaying {
            speech,
            queue,
            uptime_ms,
            consecutive_empty,
            chunks_since_reset,
            replay_chunks,
            nonempty,
            inference_ms,
        } => match result.text {
            Ok(text) => {
                let counted = Turn {
                    d: DecoderView {
                        chunk_num: decoder::bump(start.d.chunk_num),
                        pass: PassView::Replaying {
                            speech,
                            queue,
                            uptime_ms,
                            consecutive_empty,
                            chunks_since_reset,
                            replay_chunks,
                            nonempty: if text@.len() == 0 {
                                nonempty
                            } else {
                                decoder::bump(nonempty)
                            },
                            inference_ms: decoder::capped_sum(inference_ms, result.inference_ms),
                        },
                        ..start.d
                    },
                    ..start
                };
                lemma_logged_emits_nothing(
                    counted,
                    text@,
                    result.inference_ms,
                    result.uptime_ms,
                    true,
                    decoder::ChunkSource::Replay,
                );
                let noted = decoder::logged(
                    counted,
                    text@,
                    result.inference_ms,
                    result.uptime_ms,
                    true,
                    decoder::ChunkSource::Replay,
                );
                lemma_emitted_push(
                    noted.actions,
                    ActionView::Emit(
                        UpdateView {
                            segment_id: noted.next_id,
                            is_final: true,
                            text: text@,
                            speaker: None,
                        },
                    ),
                );
                let spoken = decoder::emitting(noted, text@);
                assert(emitted(spoken.actions) =~= emission(start.next_id, result));
                lemma_replaying_emits_nothing(spoken);
            },
            Err(message) => {
                lemma_logged_emits_nothing(
                    start,
                    message@,
                    result.inference_ms,
                    result.uptime_ms,
                    true,
                    decoder::ChunkSource::Replay,
                );
                lemma_replaying_emits_nothing(
                    decoder::failed(
                        start,
                        message@,
                        result.inference_ms,
                        result.uptime_ms,
                        true,
                        decoder::ChunkSource::Replay,
                    ),
                );
            },
        },
        _ => {},
    }
}

// ---------------------------------------------------------------------------
// Chunks
// ---------------------------------------------------------------------------

/// What every decoder keeps: chunks have samples, and the consumed ones are in
/// the buffer.
pub open spec fn sound<T>(d: DecoderView<T>) -> bool {
    &&& d.chunk_size > 0
    &&& 0 <= d.consumed <= d.buffer.len()
    &&& d.pass is Idle ==> d.consumed == 0
}

/// From `d` the decoder goes on to the next live chunk, to a chunk to replay, or
/// to the end of the pass, and what it has consumed follows.
pub open spec fn goes_on<T>(d: DecoderView<T>, t: Turn<T>) -> bool {
    let n = d.chunk_size as int;
    &&& t.d.chunk_size == d.chunk_size
    &&& match t.d.pass {
        PassView::Live { .. } => {
            &&& d.consumed + n <= d.buffer.len()
            &&& t.request == Some(d.buffer.subrange(d.consumed, d.consumed + n))
            &&& t.d.buffer == d.buffer
            &&& t.d.consumed == d.consumed + n
        },
        PassView::Replaying { .. } => {
            &&& t.request is Some
            &&& t.d.buffer == d.buffer
            &&& t.d.consumed == d.consumed
        },
        PassView::Idle => {
            &&& t.request is None
            &&& t.d.buffer == d.buffer.skip(d.consumed)
            &&& t.d.buffer.len() < n
            &&& t.d.consumed == 0
        },
    }
}

proof fn lemma_settled_goes_on<T>(t: Turn<T>, speech: bool)
    requires
        t.request is None,
        t.d.chunk_size > 0,
        0 <= t.d.consumed <= t.d.buffer.len(),
    ensures
        goes_on(t.d, decoder::settled(t, speech)),
        !(decoder::settled(t, speech).d.pass is Replaying),
    decreases t.d.ends.len(),
{
    let d = t.d;
    if d.ends.len() > 0 && d.consumed >= d.ends[0].reset_after_samples {
        lemma_settled_goes_on(
            Turn {
                d: DecoderView { ends: d.ends.drop_first(), ..decoder::restarted(d) },
                actions: t.actions.push(
                    ActionView::LogSpeechEnd {
                        end: d.ends[0],
                        consecutive_empty: d.consecutive_empty,
                        chunks_since_reset: d.chunks_since_reset,
                    },
                ).push(ActionView::ResetModel),
                ..t
            },
            speech,
        );
    }
}

proof fn lemma_replaying_goes_on<T>(t: Turn<T>)
    requires
        t.request is None,
        t.d.chunk_size > 0,
        0 <= t.d.consumed <= t.d.buffer.len(),
        t.d.pass is Replaying,
    ensures
        goes_on(t.d, decoder::replaying(t)),
        ({
            let queue = t.d.pass->queue;
            let after = decoder::replaying(t);
            if queue.len() > 0 {
                &&& after.d.pass is Replaying
                &&& after.request == Some(queue[0])
                &&& after.d.pass->queue == queue.drop_first()
            } else {
                !(after.d.pass is Replaying)
            }
        }),
{
    match t.d.pass {
        PassView::Replaying {
            speech,
            queue,
            uptime_ms,
            consecutive_empty,
            chunks_since_reset,
            replay_chunks,
            nonempty,
            inference_ms,
        } => {
            lemma_settled_goes_on(
                Turn {
                    actions: t.actions.push(
                        ActionView::LogMidSpeechReset {
                            uptime_ms,
                            consecutive_empty,
                            chunks_since_reset,
                            replay_chunks,
                            replay_nonempty_chunks: nonempty,
                            replay_inference_ms: inference_ms,
                        },
                    ),
                    ..t
                },
                speech,
            );
        },
        _ => {},
    }
}

/// A pass begins with the first whole chunk, or is over at once.
pub proof fn law_pass_starts_at_the_front<T>(d: DecoderView<T>, next_id: u64, speech: bool)
    requires
        sound(d),
        d.pass is Idle,
    ensures
        goes_on(d, decoder::started(d, next_id, speech)),
        sound(decoder::started(d, next_id, speech).d),
        !(decoder::started(d, next_id, speech).d.pass is Replaying),
{
}

/// Every result moves a pass on by one live chunk in buffer order, by one chunk
/// to replay, or to its end, where less than a chunk is left. A replay runs
/// through the chunks kept for it once each, oldest first, and starts no other
/// replay.
pub proof fn law_results_move_a_pass_on<T>(d: DecoderView<T>, next_id: u64, result: ChunkResult)
    requires
        sound(d),
        !(d.pass is Idle),
    ensures
        ({
            let t = decoder::resumed(d, next_id, result);
            &&& goes_on(d, t)
            &&& sound(t.d)
            &&& d.pass is Live && t.d.pass is Replaying ==> seq![t.request->0] + t.d.pass->queue
                == d.replay
            &&& d.pass is Replaying && d.pass->queue.len() > 0 ==> {
                &&& t.d.pass is Replaying
                &&& t.request == Some(d.pass->queue[0])
                &&& t.d.pass->queue == d.pass->queue.drop_first()
            }
            &&& d.pass is Replaying && d.pass->queue.len() == 0 ==> !(t.d.pass is Replaying)
        }),
{
    let start = Turn { d, next_id, actions: Seq::<ActionView>::empty(), request: None::<Seq<T>> };
    match d.pass {
        PassView::Live { speech } => lemma_live_goes_on(start, speech, result),
        PassView::Replaying { .. } => lemma_replay_goes_on(start, result),
        PassView::Idle => {},
    }
}

proof fn lemma_live_goes_on<T>(start: Turn<T>, speech: bool, result: ChunkResult)
    requires
        start.request is None,
        sound(start.d),
    ensures
        ({
            let t = decoder::after_live(start, speech, result);
            &&& goes_on(start.d, t)
            &&& t.d.pass is Replaying ==> seq![t.request->0] + t.d.pass->queue == start.d.replay
        }),
{
    match result.text {
        Ok(text) => {
            let counted = Turn {
                d: DecoderView {
                    chunk_num: decoder::bump(start.d.chunk_num),
                    consecutive_empty: if text@.len() == 0 && speech {
                        decoder::bump32(start.d.consecutive_empty)
                    } else {
                        0
                    },
                    ..start.d
                },
                ..start
            };
            let noted = decoder::logged(
                counted,
                text@,
                result.inference_ms,
                result.uptime_ms,
                speech,
                decoder::ChunkSource::Live,
            );
            let spoken = decoder::emitting(
                decoder::punctuated(noted, text@, result.uptime_ms),
                text@,
            );
            lemma_settled_goes_on(spoken, speech);
            if spoken.d.consecutive_empty >= spoken.d.empty_reset_threshold && speech {
                let reset = Turn {
                    d: DecoderView {
                        pass: PassView::Replaying {
                            speech,
                            queue: spoken.d.replay,
                            uptime_ms: result.uptime_ms,
                            consecutive_empty: spoken.d.consecutive_empty,
                            chunks_since_reset: spoken.d.chunks_since_reset,
                            replay_chunks: spoken.d.replay.len() as u64,
                            nonempty: 0,
                            inference_ms: 0,
                        },
                        ..decoder::restarted(spoken.d)
                    },
                    actions: spoken.actions.push(ActionView::ResetModel),
                    ..spoken
                };
                lemma_replaying_goes_on(reset);
                let t = decoder::after_live(start, speech, result);
                assert(t == decoder::replaying(reset));
                if t.d.pass is Replaying {
                    assert(seq![t.request->0] + t.d.pass->queue =~= spoken.d.replay);
                }
            }
        },
        Err(message) => {
            lemma_settled_goes_on(
                decoder::failed(
                    start,
                    message@,
                    result.inference_ms,
                    result.uptime_ms,
                    speech,
                    decoder::ChunkSource::Live,
                ),
                speech,
            );
        },
    }
}

proof fn lemma_replay_goes_on<T>(start: Turn<T>, result: ChunkResult)
    requires
        start.request is None,
        sound(start.d),
        start.d.pass is Replaying,
    ensures
        ({
            let t = decoder::after_replay(start, result);
            let queue = start.d.pass->queue;
            &&& goes_on(start.d, t)
            &&& if queue.len() > 0 {
                &&& t.d.pass is Replaying
                &&& t.request == Some(queue[0])
                &&& t.d.pass->queue == queue.drop_first()
            } else {
                !(t.d.pass is Replaying)
            }
        }),
{
    match start.d.pass {
        PassView::Replaying {
            speech,
            queue,
            uptime_ms,
            consecutive_empty,
            chunks_since_reset,
            replay_chunks,
            nonempty,
            inference_ms,
        } => match result.text {
            Ok(text) => {
                let counted = Turn {
                    d: DecoderView {
                        chunk_num: decoder::bump(start.d.chunk_num),
                        pass: PassView::Replaying {
                            speech,
                            queue,
                            uptime_ms,
                            consecutive_empty,
                            chunks_since_reset,
                            replay_chunks,
                            nonempty: if text@.len() == 0 {
                                nonempty
                            } else {
                                decoder::bump(nonempty)
                            },
                            inference_ms: decoder::capped_sum(inference_ms, result.inference_ms),
                        },
                        ..start.d
                    },
                    ..start
                };
                lemma_replaying_goes_on(
                    decoder::emitting(
                        decoder::logged(
                            counted,
                            text@,
                            result.inference_ms,
                            result.uptime_ms,
                            true,
                            decoder::ChunkSource::Replay,
                        ),
                        text@,
                    ),
                );
            },
            Err(message) => {
                lemma_replaying_goes_on(
                    decoder::failed(
                        start,
                        message@,
                        result.inference_ms,
                        result.uptime_ms,
                        true,
                        decoder::ChunkSource::Replay,
                    ),
                );
            },
        },
        _ => {},
    }
}

// ---------------------------------------------------------------------------
// Whole passes
// ---------------------------------------------------------------------------

/// Something that was done to the model or to the transcript.
pub enum Deed<T> {
    ResetModel,
    Run(Seq<T>),
    Emit(UpdateView),
}

/// What the actions do, in order. Logging does nothing.
pub open spec fn deeds_of<T>(actions: Seq<ActionView>) -> Seq<Deed<T>>
    decreases actions.len(),
{
    if actions.len() == 0 {
        Seq::empty()
    } else {
        let before = deeds_of(actions.drop_last());
        match actions.last() {
            ActionView::ResetModel => before.push(Deed::ResetModel),
            ActionView::Emit(update) => before.push(Deed::Emit(update)),
            _ => before,
        }
    }
}

/// What a step does: its actions, then the chunk it asks for is run.
pub open spec fn step_deeds<T>(t: Turn<T>) -> Seq<Deed<T>> {
    match t.request {
        Some(chunk) => deeds_of(t.actions).push(Deed::Run(chunk)),
        None => deeds_of(t.actions),
    }
}

/// The text of a result; a failed one has none.
pub open spec fn heard_in(result: ChunkResult) -> Seq<char> {
    match result.text {
        Ok(text) => text@,
        Err(_) => Seq::empty(),
    }
}

/// A pass so far: the last step, the live chunks asked for, the text of each result
/// that came, the updates, and everything that was done.
#[verifier::ext_equal]
pub struct PassSoFar<T> {
    pub t: Turn<T>,
    pub live: Seq<Seq<T>>,
    pub heard: Seq<Seq<char>>,
    pub updates: Seq<UpdateView>,
    pub deeds: Seq<Deed<T>>,
}

/// The live chunk that a step asks for, if it asks for one.
pub open spec fn live_request<T>(t: Turn<T>) -> Seq<Seq<T>> {
    if t.d.pass is Live {
        seq![t.request->0]
    } else {
        Seq::empty()
    }
}

/// A pass from `d` in which the model answered with `results`; results beyond the
/// end of the pass are ignored.
pub open spec fn pass_so_far<T>(
    d: DecoderView<T>,
    next_id: u64,
    speech: bool,
    results: Seq<ChunkResult>,
) -> PassSoFar<T>
    decreases results.len(),
{
    if results.len() == 0 {
        let t = decoder::started(d, next_id, speech);
        PassSoFar {
            t,
            live: live_request(t),
            heard: Seq::empty(),
            updates: Seq::empty(),
            deeds: step_deeds(t),
        }
    } else {
        let before = pass_so_far(d, next_id, speech, results.drop_last());
        if before.t.d.pass is Idle {
            before
        } else {
            let t = decoder::resumed(before.t.d, before.t.next_id, results.last());
            PassSoFar {
                t,
                live: before.live + live_request(t),
                heard: before.heard.push(heard_in(results.last())),
                updates: before.updates + emitted(t.actions),
                deeds: before.deeds + step_deeds(t),
            }
        }
    }
}

/// The first `k` chunks of `n` samples in `buffer`.
pub open spec fn first_chunks<T>(buffer: Seq<T>, n: int, k: nat) -> Seq<Seq<T>> {
    Seq::new(k, |i: int| buffer.subrange(i * n, i * n + n))
}

/// A pass from `d` has run the first chunks of its buffer, and stands behind them.
pub open spec fn on_track<T>(d: DecoderView<T>, p: PassSoFar<T>) -> bool {
    let n = d.chunk_size as int;
    let k = p.live.len();
    &&& sound(p.t.d)
    &&& p.t.d.chunk_size == d.chunk_size
    &&& p.live == first_chunks(d.buffer, n, k)
    &&& k * n <= d.buffer.len()
    &&& if p.t.d.pass is Idle {
        p.t.d.buffer == d.buffer.skip(k * n) && d.buffer.len() - k * n < n
    } else {
        p.t.d.buffer == d.buffer && p.t.d.consumed == k * n
    }
}

pub proof fn lemma_pass_on_track<T>(
    d: DecoderView<T>,
    next_id: u64,
    speech: bool,
    results: Seq<ChunkResult>,
)
    requires
        sound(d),
        d.pass is Idle,
    ensures
        on_track(d, pass_so_far(d, next_id, speech, results)),
    decreases results.len(),
{
    let n = d.chunk_size as int;
    let p = pass_so_far(d, next_id, speech, results);
    if results.len() == 0 {
        law_pass_starts_at_the_front(d, next_id, speech);
        assert(p.live =~= first_chunks(d.buffer, n, p.live.len()));
        assert(1 * n == n && 0 * n == 0);
        assert(d.buffer.skip(0) =~= d.buffer);
    } else {
        lemma_pass_on_track(d, next_id, speech, results.drop_last());
        let before = pass_so_far(d, next_id, speech, results.drop_last());
        if !(before.t.d.pass is Idle) {
            law_results_move_a_pass_on(before.t.d, before.t.next_id, results.last());
            let k = before.live.len() as int;
            assert((k + 1) * n == k * n + n) by (nonlinear_arith);
            assert(p.live =~= first_chunks(d.buffer, n, p.live.len()));
        }
    }
}

/// A finished pass has run the model on the whole chunks of the buffer, each once
/// and in order, and has left exactly what is behind them.
pub proof fn law_finished_pass_ran_every_chunk_once<T>(
    d: DecoderView<T>,
    next_id: u64,
    speech: bool,
    results: Seq<ChunkResult>,
)
    requires
        sound(d),
        d.pass is Idle,
        pass_so_far(d, next_id, speech, results).t.d.pass is Idle,
    ensures
        ({
            let p = pass_so_far(d, next_id, speech, results);
            &&& p.live == samples::cut(d.buffer, d.chunk_size as int)
            &&& p.t.d.buffer == samples::uncut(d.buffer, d.chunk_size as int)
        }),
{
    lemma_pass_on_track(d, next_id, speech, results);
    let p = pass_so_far(d, next_id, speech, results);
    let n = d.chunk_size as int;
    let k = p.live.len() as int;
    assert(d.buffer.len() as int / n == k) by {
        let r = d.buffer.len() - k * n;
        vstd::arithmetic::div_mod::lemma_fundamental_div_mod_converse(
            d.buffer.len() as int,
            n,
            k,
            r,
        );
    }
    assert(p.live =~= samples::cut(d.buffer, n));
}

/// The updates of a pass obey the update rule, and so do those of any later pass
/// behind them: their ids run up from `next_id` one by one.
pub proof fn law_pass_updates_follow_the_rule<T>(
    d: DecoderView<T>,
    next_id: u64,
    speech: bool,
    results: Seq<ChunkResult>,
)
    requires
        sound(d),
        d.pass is Idle,
        next_id + results.len() < u64::MAX,
    ensures
        ({
            let p = pass_so_far(d, next_id, speech, results);
            &&& asr::follows_update_rule(p.updates)
            &&& p.t.next_id == next_id + p.updates.len()
            &&& p.updates.len() <= results.len()
            &&& forall|i: int|
                0 <= i < p.updates.len() ==> (#[trigger] p.updates[i]).segment_id == next_id + i
                    && p.updates[i].is_final && p.updates[i].speaker is None
        }),
    decreases results.len(),
{
    if results.len() > 0 {
        law_pass_updates_follow_the_rule(d, next_id, speech, results.drop_last());
        let before = pass_so_far(d, next_id, speech, results.drop_last());
        if !(before.t.d.pass is Idle) {
            law_each_result_is_emitted_once(before.t.d, before.t.next_id, results.last());
        }
    }
}

// ---------------------------------------------------------------------------
// Scheduling
// ---------------------------------------------------------------------------

/// Something that is done to a decoder.
pub enum Act<T> {
    Push(Seq<T>),
    SpeechStart,
    SpeechEnd { uptime_ms: i64, speech_duration_ms: i64, fill: T },
    /// A pass in which the model answered with these results.
    Pass { speech: bool, results: Seq<ChunkResult> },
}

/// A decoder at work: what it holds, the live chunks that the model was run on so
/// far, the text of each of the model's results, replayed ones included, the updates,
/// and everything that was done.
#[verifier::ext_equal]
pub struct Work<T> {
    pub d: DecoderView<T>,
    pub next_id: u64,
    pub live: Seq<Seq<T>>,
    pub heard: Seq<Seq<char>>,
    pub updates: Seq<UpdateView>,
    pub deeds: Seq<Deed<T>>,
}

pub open spec fn acted<T>(w: Work<T>, act: Act<T>) -> Work<T> {
    match act {
        Act::Push(samples) => Work { d: decoder::pushed(w.d, samples), ..w },
        Act::SpeechStart => Work { d: decoder::speech_started(w.d), ..w },
        Act::SpeechEnd { uptime_ms, speech_duration_ms, fill } => Work {
            d: decoder::speech_ended(w.d, uptime_ms, speech_duration_ms, fill),
            ..w
        },
        Act::Pass { speech, results } => {
            let p = pass_so_far(w.d, w.next_id, speech, results);
            Work {
                d: p.t.d,
                next_id: p.t.next_id,
                live: w.live + p.live,
                heard: w.heard + p.heard,
                updates: w.updates + p.updates,
                deeds: w.deeds + p.deeds,
            }
        },
    }
}

pub open spec fn acted_all<T>(w: Work<T>, acts: Seq<Act<T>>) -> Work<T>
    decreases acts.len(),
{
    if acts.len() == 0 {
        w
    } else {
        acted(acted_all(w, acts.drop_last()), acts.last())
    }
}

/// Every pass among the acts is run to its end.
pub open spec fn passes_finish<T>(w: Work<T>, acts: Seq<Act<T>>) -> bool
    decreases acts.len(),
{
    acts.len() == 0 || (passes_finish(w, acts.drop_last()) && acted_all(w, acts).d.pass is Idle)
}

/// All the audio of the acts behind `audio`, padded where speech ended. Passes play
/// no part in it.
pub open spec fn stream_of<T>(audio: Seq<T>, chunk_size: nat, acts: Seq<Act<T>>) -> Seq<T>
    decreases acts.len(),
{
    if acts.len() == 0 {
        audio
    } else {
        let before = stream_of(audio, chunk_size, acts.drop_last());
        match acts.last() {
            Act::Push(samples) => before + samples,
            Act::SpeechEnd { fill, .. } => samples::padded(before, chunk_size, fill),
            _ => before,
        }
    }
}

/// Which samples land in which chunk does not depend on when passes happen: the
/// chunks run so far and those still to run are the chunks of the audio stream, cut
/// from its start, however the audio was delivered and whatever the model made of
/// it.
pub proof fn law_chunks_ignore_scheduling<T>(w: Work<T>, acts: Seq<Act<T>>)
    requires
        sound(w.d),
        w.d.pass is Idle,
        w.live.len() == 0,
        passes_finish(w, acts),
    ensures
        ({
            let n = w.d.chunk_size as int;
            let after = acted_all(w, acts);
            let stream = stream_of(w.d.buffer, w.d.chunk_size as nat, acts);
            &&& after.live + samples::cut(after.d.buffer, n) == samples::cut(stream, n)
            &&& samples::uncut(after.d.buffer, n) == samples::uncut(stream, n)
            &&& after.d.chunk_size == w.d.chunk_size
            &&& sound(after.d)
            &&& after.d.pass is Idle
        }),
    decreases acts.len(),
{
    let n = w.d.chunk_size as int;
    let size = w.d.chunk_size as nat;
    let after = acted_all(w, acts);
    if acts.len() == 0 {
        assert(w.live + samples::cut(w.d.buffer, n) =~= samples::cut(w.d.buffer, n));
    } else {
        let front = acts.drop_last();
        law_chunks_ignore_scheduling(w, front);
        let before = acted_all(w, front);
        let stream = stream_of(w.d.buffer, size, front);
        match acts.last() {
            Act::Push(samples) => {
                lemma_more_audio(before.live, before.d.buffer, stream, samples, n);
            },
            Act::SpeechStart => {},
            Act::SpeechEnd { fill, .. } => {
                samples::lemma_cut_bounds(before.d.buffer, n);
                samples::lemma_cut_bounds(stream, n);
                let r = stream.len() % size;
                assert(before.d.buffer.len() % size == r);
                if r != 0 {
                    let fills = Seq::new((size - r) as nat, |i: int| fill);
                    lemma_more_audio(before.live, before.d.buffer, stream, fills, n);
                }
            },
            Act::Pass { speech, results } => {
                law_finished_pass_ran_every_chunk_once(before.d, before.next_id, speech, results);
                lemma_pass_on_track(before.d, before.next_id, speech, results);
                let left = after.d.buffer;
                samples::lemma_cut_bounds(before.d.buffer, n);
                vstd::arithmetic::div_mod::lemma_small_mod(left.len(), size);
                vstd::arithmetic::div_mod::lemma_fundamental_div_mod(left.len() as int, n);
                assert(left.len() as int / n == 0) by {
                    vstd::arithmetic::div_mod::lemma_basic_div(left.len() as int, n);
                }
                assert(0 * n == 0);
                assert(samples::cut(left, n) =~= Seq::<Seq<T>>::empty());
                assert(samples::uncut(left, n) =~= left);
                assert(after.live + samples::cut(left, n) =~= before.live + samples::cut(
                    before.d.buffer,
                    n,
                ));
            },
        }
    }
}

/// More audio behind what a decoder holds and behind the whole stream adds the same
/// chunks to both.
proof fn lemma_more_audio<T>(
    live: Seq<Seq<T>>,
    buffer: Seq<T>,
    stream: Seq<T>,
    more: Seq<T>,
    n: int,
)
    requires
        n > 0,
        live + samples::cut(buffer, n) == samples::cut(stream, n),
        samples::uncut(buffer, n) == samples::uncut(stream, n),
    ensures
        live + samples::cut(buffer + more, n) == samples::cut(stream + more, n),
        samples::uncut(buffer + more, n) == samples::uncut(stream + more, n),
{
    samples::law_cutting_ignores_delivery_boundaries(buffer, more, n);
    samples::law_cutting_ignores_delivery_boundaries(stream, more, n);
    let tail = samples::cut(samples::uncut(buffer, n) + more, n);
    assert(live + (samples::cut(buffer, n) + tail) =~= (live + samples::cut(buffer, n)) + tail);
}

/// Two schedules of one audio stream run the model on the same chunks: where both end
/// with a pass, the live chunks are equal, one by one.
pub proof fn law_schedules_run_the_same_chunks<T>(w: Work<T>, a: Seq<Act<T>>, b: Seq<Act<T>>)
    requires
        sound(w.d),
        w.d.pass is Idle,
        w.live.len() == 0,
        passes_finish(w, a),
        passes_finish(w, b),
        stream_of(w.d.buffer, w.d.chunk_size as nat, a) == stream_of(
            w.d.buffer,
            w.d.chunk_size as nat,
            b,
        ),
        a.len() > 0 && a.last() is Pass,
        b.len() > 0 && b.last() is Pass,
    ensures
        acted_all(w, a).live == acted_all(w, b).live,
        acted_all(w, a).d.buffer == acted_all(w, b).d.buffer,
{
    lemma_last_pass_runs_everything(w, a);
    lemma_last_pass_runs_everything(w, b);
}

proof fn lemma_last_pass_runs_everything<T>(w: Work<T>, acts: Seq<Act<T>>)
    requires
        sound(w.d),
        w.d.pass is Idle,
        w.live.len() == 0,
        passes_finish(w, acts),
        acts.len() > 0 && acts.last() is Pass,
    ensures
        ({
            let n = w.d.chunk_size as int;
            let stream = stream_of(w.d.buffer, w.d.chunk_size as nat, acts);
            &&& acted_all(w, acts).live == samples::cut(stream, n)
            &&& acted_all(w, acts).d.buffer == samples::uncut(stream, n)
        }),
{
    let n = w.d.chunk_size as int;
    let front = acts.drop_last();
    law_chunks_ignore_scheduling(w, front);
    let before = acted_all(w, front);
    match acts.last() {
        Act::Pass { speech, results } => {
            law_finished_pass_ran_every_chunk_once(before.d, before.next_id, speech, results);
            assert(acted_all(w, acts).live =~= before.live + samples::cut(before.d.buffer, n));
        },
        _ => {},
    }
}

// ---------------------------------------------------------------------------
// The transcript
// ---------------------------------------------------------------------------

/// The transcript of what was heard: each text that is not empty, as a final update of
/// its own, in order, under ids that run up from `next_id`.
pub open spec fn transcript(next_id: u64, heard: Seq<Seq<char>>) -> Seq<UpdateView>
    decreases heard.len(),
{
    if heard.len() == 0 {
        Seq::empty()
    } else {
        let before = transcript(next_id, heard.drop_last());
        if heard.last().len() == 0 {
            before
        } else {
            before.push(
                UpdateView {
                    segment_id: id_behind(next_id, heard.drop_last()),
                    is_final: true,
                    text: heard.last(),
                    speaker: None,
                },
            )
        }
    }
}

/// The id that comes next behind the transcript of what was heard.
pub open spec fn id_behind(next_id: u64, heard: Seq<Seq<char>>) -> u64
    decreases heard.len(),
{
    if heard.len() == 0 {
        next_id
    } else if heard.last().len() == 0 {
        id_behind(next_id, heard.drop_last())
    } else {
        asr::id_after(id_behind(next_id, heard.drop_last()))
    }
}

pub proof fn lemma_pass_transcript<T>(
    d: DecoderView<T>,
    next_id: u64,
    speech: bool,
    results: Seq<ChunkResult>,
)
    ensures
        ({
            let p = pass_so_far(d, next_id, speech, results);
            &&& p.updates == transcript(next_id, p.heard)
            &&& p.t.next_id == id_behind(next_id, p.heard)
        }),
    decreases results.len(),
{
    let p = pass_so_far(d, next_id, speech, results);
    if results.len() == 0 {
        assert(decoder::started(d, next_id, speech).next_id == next_id);
    } else {
        lemma_pass_transcript(d, next_id, speech, results.drop_last());
        let before = pass_so_far(d, next_id, speech, results.drop_last());
        if !(before.t.d.pass is Idle) {
            law_each_result_is_emitted_once(before.t.d, before.t.next_id, results.last());
            assert(p.heard.drop_last() =~= before.heard);
            assert(p.updates =~= transcript(next_id, p.heard));
        }
    }
}

pub proof fn lemma_transcript_add(next_id: u64, a: Seq<Seq<char>>, b: Seq<Seq<char>>)
    ensures
        transcript(next_id, a + b) == transcript(next_id, a) + transcript(id_behind(next_id, a), b),
        id_behind(next_id, a + b) == id_behind(id_behind(next_id, a), b),
    decreases b.len(),
{
    if b.len() == 0 {
        assert(a + b =~= a);
        assert(transcript(next_id, a) + transcript(id_behind(next_id, a), b) =~= transcript(
            next_id,
            a,
        ));
    } else {
        lemma_transcript_add(next_id, a, b.drop_last());
        assert((a + b).drop_last() =~= a + b.drop_last());
        assert(transcript(next_id, a + b) =~= transcript(next_id, a) + transcript(
            id_behind(next_id, a),
            b,
        ));
    }
}

/// The transcript is what the model was heard to say, and nothing else: whatever the
/// schedule, the updates are the non-empty results, live and replayed, in order.
pub proof fn law_updates_are_what_was_heard<T>(w: Work<T>, acts: Seq<Act<T>>)
    requires
        w.heard.len() == 0,
        w.updates.len() == 0,
    ensures
        ({
            let after = acted_all(w, acts);
            &&& after.updates == transcript(w.next_id, after.heard)
            &&& after.next_id == id_behind(w.next_id, after.heard)
        }),
    decreases acts.len(),
{
    if acts.len() > 0 {
        let front = acts.drop_last();
        law_updates_are_what_was_heard(w, front);
        let before = acted_all(w, front);
        match acts.last() {
            Act::Pass { speech, results } => {
                lemma_pass_transcript(before.d, before.next_id, speech, results);
                let p = pass_so_far(before.d, before.next_id, speech, results);
                lemma_transcript_add(w.next_id, before.heard, p.heard);
            },
            _ => {},
        }
    }
}

/// Scheduling does not change the transcript: two schedules of one audio stream, each
/// ending with a pass, run the model on the same live chunks, and where the model
/// then says the same, they emit the same updates.
pub proof fn law_schedules_emit_the_same_transcript<T>(w: Work<T>, a: Seq<Act<T>>, b: Seq<Act<T>>)
    requires
        sound(w.d),
        w.d.pass is Idle,
        w.live.len() == 0,
        w.heard.len() == 0,
        w.updates.len() == 0,
        passes_finish(w, a),
        passes_finish(w, b),
        stream_of(w.d.buffer, w.d.chunk_size as nat, a) == stream_of(
            w.d.buffer,
            w.d.chunk_size as nat,
            b,
        ),
        a.len() > 0 && a.last() is Pass,
        b.len() > 0 && b.last() is Pass,
        acted_all(w, a).heard == acted_all(w, b).heard,
    ensures
        acted_all(w, a).live == acted_all(w, b).live,
        acted_all(w, a).updates == acted_all(w, b).updates,
        acted_all(w, a).next_id == acted_all(w, b).next_id,
{
    law_schedules_run_the_same_chunks(w, a, b);
    law_updates_are_what_was_heard(w, a);
    law_updates_are_what_was_heard(w, b);
}

} // verus!
