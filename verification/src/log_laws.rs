//! What the log of a decoder tells of what it did.

use vstd::prelude::*;

use crate::decoder;
use crate::decoder::ActionView;
use crate::decoder::ChunkResult;
use crate::decoder::ChunkSource;
use crate::decoder::DecoderView;
use crate::decoder::PassView;
use crate::decoder::PendingSpeechEndReset;
use crate::decoder::Turn;
use crate::text;

verus! {

// ---------------------------------------------------------------------------
// Reading a log
// ---------------------------------------------------------------------------

/// The speech segments whose end is logged, in order.
pub open spec fn ends_logged(actions: Seq<ActionView>) -> Seq<PendingSpeechEndReset>
    decreases actions.len(),
{
    if actions.len() == 0 {
        Seq::empty()
    } else {
        match actions.last() {
            ActionView::LogSpeechEnd { end, .. } => ends_logged(actions.drop_last()).push(end),
            _ => ends_logged(actions.drop_last()),
        }
    }
}

/// The time, and what was counted since the model was last reset.
#[verifier::ext_equal]
pub struct Counts {
    pub uptime_ms: i64,
    pub empties: u32,
    pub chunks: u64,
}

/// The counts behind so many actions: a reset of the model sets them to zero.
pub open spec fn counts_behind(counts: Counts, actions: Seq<ActionView>) -> Counts
    decreases actions.len(),
{
    if actions.len() == 0 {
        counts
    } else if actions.last() is ResetModel {
        Counts { empties: 0, chunks: 0, ..counts }
    } else {
        counts_behind(counts, actions.drop_last())
    }
}

/// Every reset that is logged at once is logged with the counts up to it, and one at the
/// end of a sentence with the time.
pub open spec fn counts_told(counts: Counts, actions: Seq<ActionView>) -> bool
    decreases actions.len(),
{
    actions.len() > 0 ==> {
        let before = counts_behind(counts, actions.drop_last());
        &&& counts_told(counts, actions.drop_last())
        &&& match actions.last() {
            ActionView::LogSpeechEnd { consecutive_empty, chunks_since_reset, .. } => {
                consecutive_empty == before.empties && chunks_since_reset == before.chunks
            },
            ActionView::LogPunctuationReset { uptime_ms, consecutive_empty, chunks_since_reset } => {
                uptime_ms == before.uptime_ms && consecutive_empty == before.empties
                    && chunks_since_reset == before.chunks
            },
            _ => true,
        }
    }
}

/// A log entry about a chunk.
pub open spec fn about_chunk(a: ActionView) -> bool {
    a is LogTranscribe || a is LogError
}

// ---------------------------------------------------------------------------
// What a step adds
// ---------------------------------------------------------------------------

/// The later actions are the earlier ones and, behind those, no entry about a chunk.
spec fn adds<T>(t: Turn<T>, after: Turn<T>) -> bool {
    &&& after.actions.len() >= t.actions.len()
    &&& forall|i: int| 0 <= i < t.actions.len() ==> #[trigger] after.actions[i] == t.actions[i]
    &&& forall|i: int|
        t.actions.len() <= i < after.actions.len() ==> !about_chunk(#[trigger] after.actions[i])
}

/// Behind the actions of a turn, the counts are those of its decoder, and the ends logged
/// and pending are `ends`.
spec fn in_step<T>(counts: Counts, ends: Seq<PendingSpeechEndReset>, t: Turn<T>) -> bool {
    &&& counts_told(counts, t.actions)
    &&& ends_logged(t.actions) + t.d.ends == ends
}

spec fn counted_so_far<T>(counts: Counts, t: Turn<T>) -> bool {
    counts_behind(counts, t.actions) == (Counts {
        uptime_ms: counts.uptime_ms,
        empties: t.d.consecutive_empty,
        chunks: t.d.chunks_since_reset,
    })
}

proof fn lemma_push(counts: Counts, actions: Seq<ActionView>, a: ActionView)
    ensures
        ends_logged(actions.push(a)) == match a {
            ActionView::LogSpeechEnd { end, .. } => ends_logged(actions).push(end),
            _ => ends_logged(actions),
        },
        counts_behind(counts, actions.push(a)) == if a is ResetModel {
            Counts { empties: 0, chunks: 0, ..counts }
        } else {
            counts_behind(counts, actions)
        },
        counts_told(counts, actions.push(a)) == {
            let before = counts_behind(counts, actions);
            &&& counts_told(counts, actions)
            &&& match a {
                ActionView::LogSpeechEnd { consecutive_empty, chunks_since_reset, .. } => {
                    consecutive_empty == before.empties && chunks_since_reset == before.chunks
                },
                ActionView::LogPunctuationReset { uptime_ms, consecutive_empty, chunks_since_reset } => {
                    uptime_ms == before.uptime_ms && consecutive_empty == before.empties
                        && chunks_since_reset == before.chunks
                },
                _ => true,
            }
        },
{
    assert(actions.push(a).drop_last() =~= actions);
}

proof fn lemma_settled_adds<T>(
    counts: Counts,
    ends: Seq<PendingSpeechEndReset>,
    t: Turn<T>,
    speech: bool,
)
    requires
        in_step(counts, ends, t),
        counted_so_far(counts, t),
    ensures
        adds(t, decoder::settled(t, speech)),
        in_step(counts, ends, decoder::settled(t, speech)),
        forall|i: int|
            t.actions.len() <= i < decoder::settled(t, speech).actions.len() ==> !(
            #[trigger] decoder::settled(t, speech).actions[i] is LogMidSpeechReset),
    decreases t.d.ends.len(),
{
    let d = t.d;
    if d.ends.len() > 0 && d.consumed >= d.ends[0].reset_after_samples {
        let log = ActionView::LogSpeechEnd {
            end: d.ends[0],
            consecutive_empty: d.consecutive_empty,
            chunks_since_reset: d.chunks_since_reset,
        };
        let next = Turn {
            d: DecoderView { ends: d.ends.drop_first(), ..decoder::restarted(d) },
            actions: t.actions.push(log).push(ActionView::ResetModel),
            ..t
        };
        lemma_push(counts, t.actions, log);
        lemma_push(counts, t.actions.push(log), ActionView::ResetModel);
        assert(ends_logged(t.actions).push(d.ends[0]) + d.ends.drop_first() =~= ends_logged(
            t.actions,
        ) + d.ends);
        lemma_settled_adds(counts, ends, next, speech);
    }
}

proof fn lemma_replaying_adds<T>(
    counts: Counts,
    ends: Seq<PendingSpeechEndReset>,
    t: Turn<T>,
)
    requires
        t.d.pass is Replaying,
        in_step(counts, ends, t),
        counted_so_far(counts, t),
    ensures
        adds(t, decoder::replaying(t)),
        in_step(counts, ends, decoder::replaying(t)),
{
    match t.d.pass {
        PassView::Replaying {
            speech,
            queue,
            uptime_ms,
            consecutive_empty,
            chunks_since_reset,
            replay_chunks,
            nonempty,
            inference_ms,
        } => {
            if queue.len() == 0 {
                let log = ActionView::LogMidSpeechReset {
                    uptime_ms,
                    consecutive_empty,
                    chunks_since_reset,
                    replay_chunks,
                    replay_nonempty_chunks: nonempty,
                    replay_inference_ms: inference_ms,
                };
                lemma_push(counts, t.actions, log);
                let next = Turn { actions: t.actions.push(log), ..t };
                lemma_settled_adds(counts, ends, next, speech);
            }
        },
        _ => {},
    }
}

/// What is logged of a chunk, first of all.
spec fn entry<T>(d: DecoderView<T>, result: ChunkResult) -> ActionView {
    let speech = match d.pass {
        PassView::Live { speech } => speech,
        _ => true,
    };
    let source = if d.pass is Live {
        ChunkSource::Live
    } else {
        ChunkSource::Replay
    };
    match result.text {
        Ok(text) => ActionView::LogTranscribe {
            uptime_ms: result.uptime_ms,
            chunk_num: decoder::bump(d.chunk_num),
            inference_ms: result.inference_ms,
            buffered: d.buffer.len() as int,
            consumed: d.consumed,
            is_empty: text@.len() == 0,
            preview: text::preview_of(text@, 200),
            speech,
            source,
        },
        Err(message) => ActionView::LogError {
            uptime_ms: result.uptime_ms,
            chunk_num: d.chunk_num,
            inference_ms: result.inference_ms,
            message: message@,
            speech,
            source,
        },
    }
}

/// The counts that a result leads to, before anything is reset.
spec fn counts_with<T>(d: DecoderView<T>, result: ChunkResult) -> Counts {
    Counts {
        uptime_ms: result.uptime_ms,
        empties: match (d.pass, result.text) {
            (PassView::Live { speech }, Ok(text)) => if text@.len() == 0 && speech {
                decoder::bump32(d.consecutive_empty)
            } else {
                0
            },
            _ => d.consecutive_empty,
        },
        chunks: d.chunks_since_reset,
    }
}

spec fn well_logged<T>(d: DecoderView<T>, result: ChunkResult, t: Turn<T>) -> bool {
    &&& t.actions.len() > 0
    &&& t.actions[0] == entry(d, result)
    &&& forall|i: int| 0 < i < t.actions.len() ==> !about_chunk(#[trigger] t.actions[i])
    &&& in_step(counts_with(d, result), d.ends, t)
}

proof fn lemma_live_logged<T>(start: Turn<T>, speech: bool, result: ChunkResult)
    requires
        start.d.pass == (PassView::<T>::Live { speech }),
        start.actions.len() == 0,
        start.request is None,
    ensures
        well_logged(start.d, result, decoder::after_live(start, speech, result)),
{
    let d = start.d;
    let counts = counts_with(d, result);
    let empty = Seq::<ActionView>::empty();
    assert(start.actions =~= empty);
    assert(ends_logged(empty) + d.ends =~= d.ends);
    match result.text {
        Ok(text) => {
            let counted = Turn {
                d: DecoderView {
                    chunk_num: decoder::bump(d.chunk_num),
                    consecutive_empty: counts.empties,
                    ..d
                },
                ..start
            };
            let noted = decoder::logged(
                counted,
                text@,
                result.inference_ms,
                result.uptime_ms,
                speech,
                ChunkSource::Live,
            );
            lemma_push(counts, empty, noted.actions.last());
            let marked = decoder::punctuated(noted, text@, result.uptime_ms);
            if d.punctuation_reset && text@.len() > 0 && text::sentence_punctuated(text@) {
                let log = ActionView::LogPunctuationReset {
                    uptime_ms: result.uptime_ms,
                    consecutive_empty: counts.empties,
                    chunks_since_reset: d.chunks_since_reset,
                };
                lemma_push(counts, noted.actions, log);
                lemma_push(counts, noted.actions.push(log), ActionView::ResetModel);
            }
            let ready = decoder::emitting(marked, text@);
            if text@.len() > 0 {
                lemma_push(counts, marked.actions, ready.actions.last());
            }
            assert(in_step(counts, d.ends, ready) && counted_so_far(counts, ready));
            if ready.d.consecutive_empty >= ready.d.empty_reset_threshold && speech {
                let replay = Turn {
                    d: DecoderView {
                        pass: PassView::Replaying {
                            speech,
                            queue: ready.d.replay,
                            uptime_ms: result.uptime_ms,
                            consecutive_empty: ready.d.consecutive_empty,
                            chunks_since_reset: ready.d.chunks_since_reset,
                            replay_chunks: ready.d.replay.len() as u64,
                            nonempty: 0,
                            inference_ms: 0,
                        },
                        ..decoder::restarted(ready.d)
                    },
                    actions: ready.actions.push(ActionView::ResetModel),
                    ..ready
                };
                lemma_push(counts, ready.actions, ActionView::ResetModel);
                lemma_replaying_adds(counts, d.ends, replay);
            } else {
                lemma_settled_adds(counts, d.ends, ready, speech);
            }
        },
        Err(message) => {
            let noted = decoder::failed(
                start,
                message@,
                result.inference_ms,
                result.uptime_ms,
                speech,
                ChunkSource::Live,
            );
            lemma_push(counts, empty, noted.actions.last());
            lemma_settled_adds(counts, d.ends, noted, speech);
        },
    }
}

proof fn lemma_replay_logged<T>(start: Turn<T>, result: ChunkResult)
    requires
        start.d.pass is Replaying,
        start.actions.len() == 0,
        start.request is None,
    ensures
        well_logged(start.d, result, decoder::after_replay(start, result)),
{
    let d = start.d;
    let counts = counts_with(d, result);
    let empty = Seq::<ActionView>::empty();
    assert(start.actions =~= empty);
    assert(ends_logged(empty) + d.ends =~= d.ends);
    match d.pass {
        PassView::Replaying {
            speech,
            queue,
            uptime_ms,
            consecutive_empty,
            chunks_since_reset,
            replay_chunks,
            nonempty,
            inference_ms,
        } => match result.text {
            Ok(text) => {
                let counted = Turn {
                    d: DecoderView {
                        chunk_num: decoder::bump(d.chunk_num),
                        pass: PassView::Replaying {
                            speech,
                            queue,
                            uptime_ms,
                            consecutive_empty,
                            chunks_since_reset,
                            replay_chunks,
                            nonempty: if text@.len() == 0 {
                                nonempty
                            } else {
                                decoder::bump(nonempty)
                            },
                            inference_ms: decoder::capped_sum(inference_ms, result.inference_ms),
                        },
                        ..d
                    },
                    ..start
                };
                let noted = decoder::logged(
                    counted,
                    text@,
                    result.inference_ms,
                    result.uptime_ms,
                    true,
                    ChunkSource::Replay,
                );
                lemma_push(counts, empty, noted.actions.last());
                let ready = decoder::emitting(noted, text@);
                if text@.len() > 0 {
                    lemma_push(counts, noted.actions, ready.actions.last());
                }
                lemma_replaying_adds(counts, d.ends, ready);
            },
            Err(message) => {
                let noted = decoder::failed(
                    start,
                    message@,
                    result.inference_ms,
                    result.uptime_ms,
                    true,
                    ChunkSource::Replay,
                );
                lemma_push(counts, empty, noted.actions.last());
                lemma_replaying_adds(counts, d.ends, noted);
            },
        },
        _ => {},
    }
}

proof fn lemma_logged<T>(d: DecoderView<T>, next_id: u64, result: ChunkResult)
    requires
        !(d.pass is Idle),
    ensures
        well_logged(d, result, decoder::resumed(d, next_id, result)),
{
    let start = Turn { d, next_id, actions: Seq::empty(), request: None };
    match d.pass {
        PassView::Live { speech } => lemma_live_logged(start, speech, result),
        PassView::Replaying { .. } => lemma_replay_logged(start, result),
        PassView::Idle => {},
    }
}

// ---------------------------------------------------------------------------
// Laws
// ---------------------------------------------------------------------------

/// Every result is logged once, ahead of everything that follows from it: with its
/// number, the time, how long the model took, where the decoder stands in its buffer,
/// whether the chunk was run for the first time or again and whether it was speech (a
/// replayed one always is), and with the beginning of its text; one that the model
/// failed on with the message, and no number of its own.
pub proof fn law_every_result_is_logged_once<T>(
    d: DecoderView<T>,
    next_id: u64,
    result: ChunkResult,
    i: int,
)
    requires
        !(d.pass is Idle),
        d.chunk_num < u64::MAX,
    ensures
        ({
            let log = decoder::resumed(d, next_id, result).actions;
            let live = d.pass is Live;
            let heard = d.pass != (PassView::<T>::Live { speech: false });
            &&& log.len() > 0
            &&& 0 < i < log.len() ==> !about_chunk(log[i])
            &&& match (result.text, log[0]) {
                (
                    Ok(said),
                    ActionView::LogTranscribe {
                        uptime_ms,
                        chunk_num,
                        inference_ms,
                        buffered,
                        consumed,
                        is_empty,
                        preview,
                        speech,
                        source,
                    },
                ) => {
                    &&& uptime_ms == result.uptime_ms
                    &&& chunk_num == d.chunk_num + 1
                    &&& inference_ms == result.inference_ms
                    &&& buffered == d.buffer.len()
                    &&& consumed == d.consumed
                    &&& is_empty == (said@.len() == 0)
                    &&& preview == text::preview_of(said@, 200)
                    &&& speech == heard
                    &&& live == (source == ChunkSource::Live)
                },
                (
                    Err(reason),
                    ActionView::LogError {
                        uptime_ms,
                        chunk_num,
                        inference_ms,
                        message,
                        speech,
                        source,
                    },
                ) => {
                    &&& uptime_ms == result.uptime_ms
                    &&& chunk_num == d.chunk_num
                    &&& inference_ms == result.inference_ms
                    &&& message == reason@
                    &&& speech == heard
                    &&& live == (source == ChunkSource::Live)
                },
                _ => false,
            }
        }),
{
    lemma_logged(d, next_id, result);
}

/// The ends of speech segments are logged in order, each once: behind any result, those
/// that are logged and those that are pending make up those that were pending before.
pub proof fn law_every_speech_end_is_logged_once<T>(
    d: DecoderView<T>,
    next_id: u64,
    result: ChunkResult,
)
    requires
        !(d.pass is Idle),
    ensures
        ({
            let t = decoder::resumed(d, next_id, result);
            ends_logged(t.actions) + t.d.ends == d.ends
        }),
{
    lemma_logged(d, next_id, result);
}

/// A reset at the end of a sentence or of a segment is logged with the counts since the
/// reset before: the chunks asked for, and the empty results in a row, the latest
/// included. One at the end of a sentence is logged with the time of its result.
pub proof fn law_a_reset_is_logged_with_its_counts<T>(
    d: DecoderView<T>,
    next_id: u64,
    result: ChunkResult,
)
    requires
        !(d.pass is Idle),
        d.consecutive_empty < u32::MAX,
    ensures
        ({
            let empties = match (d.pass, result.text) {
                (PassView::Live { speech }, Ok(said)) => if said@.len() == 0 && speech {
                    (d.consecutive_empty + 1) as u32
                } else {
                    0
                },
                _ => d.consecutive_empty,
            };
            counts_told(
                Counts { uptime_ms: result.uptime_ms, empties, chunks: d.chunks_since_reset },
                decoder::resumed(d, next_id, result).actions,
            )
        }),
{
    lemma_logged(d, next_id, result);
}

// ---------------------------------------------------------------------------
// A replay
// ---------------------------------------------------------------------------

/// A decoder behind so many further results.
pub open spec fn resumed_by<T>(t: Turn<T>, results: Seq<ChunkResult>) -> Turn<T>
    decreases results.len(),
{
    if results.len() == 0 {
        t
    } else {
        let before = resumed_by(t, results.drop_last());
        decoder::resumed(before.d, before.next_id, results.last())
    }
}

/// How many of the results have text.
pub open spec fn with_text(results: Seq<ChunkResult>) -> nat
    decreases results.len(),
{
    if results.len() == 0 {
        0
    } else {
        with_text(results.drop_last()) + match results.last().text {
            Ok(said) => if said@.len() > 0 {
                1nat
            } else {
                0
            },
            Err(_) => 0,
        }
    }
}

/// How long the model took for the results that it did not fail on.
pub open spec fn time_taken(results: Seq<ChunkResult>) -> nat
    decreases results.len(),
{
    if results.len() == 0 {
        0
    } else {
        time_taken(results.drop_last()) + match results.last().text {
            Ok(_) => results.last().inference_ms as nat,
            Err(_) => 0,
        }
    }
}

spec fn replay_log<T>(pass: PassView<T>) -> ActionView {
    match pass {
        PassView::Replaying {
            uptime_ms,
            consecutive_empty,
            chunks_since_reset,
            replay_chunks,
            nonempty,
            inference_ms,
            ..
        } => ActionView::LogMidSpeechReset {
            uptime_ms,
            consecutive_empty,
            chunks_since_reset,
            replay_chunks,
            replay_nonempty_chunks: nonempty,
            replay_inference_ms: inference_ms,
        },
        _ => ActionView::ResetModel,
    }
}

/// A replayed result leaves the replay's beginning as it is and adds to its sums; behind
/// the last chunk, that is what is logged.
proof fn lemma_replay_step<T>(d: DecoderView<T>, next_id: u64, result: ChunkResult)
    requires
        d.pass is Replaying,
        d.pass->nonempty < u64::MAX,
        d.pass->inference_ms + time_taken(seq![result]) <= u64::MAX,
    ensures
        ({
            let t = decoder::resumed(d, next_id, result);
            let log = ActionView::LogMidSpeechReset {
                uptime_ms: d.pass->uptime_ms,
                consecutive_empty: d.pass->consecutive_empty,
                chunks_since_reset: d.pass->chunks_since_reset,
                replay_chunks: d.pass->replay_chunks,
                replay_nonempty_chunks: (d.pass->nonempty + with_text(seq![result])) as u64,
                replay_inference_ms: (d.pass->inference_ms + time_taken(seq![result])) as u64,
            };
            &&& d.pass->queue.len() > 0 ==> {
                &&& t.d.pass is Replaying
                &&& t.d.pass->queue.len() == d.pass->queue.len() - 1
                &&& replay_log(t.d.pass) == log
                &&& forall|i: int|
                    0 <= i < t.actions.len() ==> !(#[trigger] t.actions[i] is LogMidSpeechReset)
            }
            &&& d.pass->queue.len() == 0 ==> {
                &&& t.actions.contains(log)
                &&& forall|i: int|
                    0 <= i < t.actions.len() && #[trigger] t.actions[i] is LogMidSpeechReset
                        ==> t.actions[i] == log
            }
        }),
{
    reveal_with_fuel(with_text, 2);
    reveal_with_fuel(time_taken, 2);
    assert(seq![result].drop_last() =~= Seq::<ChunkResult>::empty());
    let start = Turn { d, next_id, actions: Seq::<ActionView>::empty(), request: None };
    match d.pass {
        PassView::Replaying {
            speech,
            queue,
            uptime_ms,
            consecutive_empty,
            chunks_since_reset,
            replay_chunks,
            nonempty,
            inference_ms,
        } => {
            let ready = match result.text {
                Ok(text) => {
                    let counted = Turn {
                        d: DecoderView {
                            chunk_num: decoder::bump(d.chunk_num),
                            pass: PassView::Replaying {
                                speech,
                                queue,
                                uptime_ms,
                                consecutive_empty,
                                chunks_since_reset,
                                replay_chunks,
                                nonempty: if text@.len() == 0 {
                                    nonempty
                                } else {
                                    decoder::bump(nonempty)
                                },
                                inference_ms: decoder::capped_sum(
                                    inference_ms,
                                    result.inference_ms,
                                ),
                            },
                            ..d
                        },
                        ..start
                    };
                    decoder::emitting(
                        decoder::logged(
                            counted,
                            text@,
                            result.inference_ms,
                            result.uptime_ms,
                            true,
                            ChunkSource::Replay,
                        ),
                        text@,
                    )
                },
                Err(message) => decoder::failed(
                    start,
                    message@,
                    result.inference_ms,
                    result.uptime_ms,
                    true,
                    ChunkSource::Replay,
                ),
            };
            let t = decoder::resumed(d, next_id, result);
            assert(t == decoder::replaying(ready));
            if queue.len() == 0 {
                let log = replay_log(ready.d.pass);
                let next = Turn { actions: ready.actions.push(log), ..ready };
                lemma_settled_keeps(next, speech);
                assert(t == decoder::settled(next, speech));
                assert(t.actions[ready.actions.len() as int] == log);
            }
        },
        _ => {},
    }
}

proof fn lemma_settled_keeps<T>(t: Turn<T>, speech: bool)
    ensures
        ({
            let after = decoder::settled(t, speech);
            &&& after.d.pass is Idle || after.d.pass == (PassView::<T>::Live { speech })
            &&& after.actions.len() >= t.actions.len()
            &&& forall|i: int|
                0 <= i < t.actions.len() ==> #[trigger] after.actions[i] == t.actions[i]
            &&& forall|i: int|
                t.actions.len() <= i < after.actions.len() ==> !(
                #[trigger] after.actions[i] is LogMidSpeechReset)
        }),
    decreases t.d.ends.len(),
{
    let d = t.d;
    if d.ends.len() > 0 && d.consumed >= d.ends[0].reset_after_samples {
        lemma_settled_keeps(
            Turn {
                d: DecoderView { ends: d.ends.drop_first(), ..decoder::restarted(d) },
                actions: t.actions.push(
                    ActionView::LogSpeechEnd {
                        end: d.ends[0],
                        consecutive_empty: d.consecutive_empty,
                        chunks_since_reset: d.chunks_since_reset,
                    },
                ).push(ActionView::ResetModel),
                ..t
            },
            speech,
        );
    }
}

proof fn lemma_replay_so_far<T>(t: Turn<T>, results: Seq<ChunkResult>)
    requires
        t.d.pass is Replaying,
        t.d.pass->nonempty == 0,
        t.d.pass->inference_ms == 0,
        results.len() <= t.d.pass->queue.len(),
        results.len() < u64::MAX,
        time_taken(results) <= u64::MAX,
    ensures
        ({
            let now = resumed_by(t, results);
            let begun = t.d.pass;
            &&& now.d.pass is Replaying
            &&& now.d.pass->queue.len() == begun->queue.len() - results.len()
            &&& with_text(results) <= results.len()
            &&& replay_log(now.d.pass) == ActionView::LogMidSpeechReset {
                uptime_ms: begun->uptime_ms,
                consecutive_empty: begun->consecutive_empty,
                chunks_since_reset: begun->chunks_since_reset,
                replay_chunks: begun->replay_chunks,
                replay_nonempty_chunks: with_text(results) as u64,
                replay_inference_ms: time_taken(results) as u64,
            }
        }),
    decreases results.len(),
{
    if results.len() > 0 {
        let front = results.drop_last();
        lemma_one_more(front, results.last());
        assert(front.push(results.last()) =~= results);
        lemma_replay_so_far(t, front);
        let before = resumed_by(t, front);
        lemma_replay_step(before.d, before.next_id, results.last());
    }
}

/// The sums go up by what one more result adds.
proof fn lemma_one_more(front: Seq<ChunkResult>, last: ChunkResult)
    ensures
        with_text(front.push(last)) == with_text(front) + with_text(seq![last]),
        time_taken(front.push(last)) == time_taken(front) + time_taken(seq![last]),
        with_text(seq![last]) <= 1,
{
    reveal_with_fuel(with_text, 2);
    reveal_with_fuel(time_taken, 2);
    assert(seq![last].drop_last() =~= Seq::<ChunkResult>::empty());
    assert(front.push(last).drop_last() =~= front);
}

/// A replay is logged as it ran: when and after how many empty results and how many
/// chunks it began, how many chunks were replayed, how many of them gave text this time,
/// and how long the model took for them. It is logged behind its last chunk, once.
pub proof fn law_a_replay_is_logged_as_it_ran<T>(
    d: DecoderView<T>,
    next_id: u64,
    result: ChunkResult,
    results: Seq<ChunkResult>,
    i: int,
)
    requires
        d.pass == (PassView::<T>::Live { speech: true }),
        d.empty_reset_threshold > 0,
        d.consecutive_empty < u32::MAX,
        ({
            let begun = decoder::resumed(d, next_id, result);
            &&& begun.d.pass is Replaying
            &&& results.len() == begun.d.pass->queue.len() + 1
        }),
        results.len() < u64::MAX,
        time_taken(results) <= u64::MAX,
    ensures
        ({
            let last = resumed_by(decoder::resumed(d, next_id, result), results);
            let log = ActionView::LogMidSpeechReset {
                uptime_ms: result.uptime_ms,
                consecutive_empty: (d.consecutive_empty + 1) as u32,
                chunks_since_reset: d.chunks_since_reset,
                replay_chunks: results.len() as u64,
                replay_nonempty_chunks: with_text(results) as u64,
                replay_inference_ms: time_taken(results) as u64,
            };
            &&& last.actions.contains(log)
            &&& 0 <= i < last.actions.len() && last.actions[i] is LogMidSpeechReset
                ==> last.actions[i] == log
        }),
{
    let begun = decoder::resumed(d, next_id, result);
    let front = results.drop_last();
    lemma_one_more(front, results.last());
    assert(front.push(results.last()) =~= results);
    lemma_replay_begins(d, next_id, result);
    lemma_replay_so_far(begun, front);
    let before = resumed_by(begun, front);
    lemma_replay_step(before.d, before.next_id, results.last());
}

/// A replay begins behind an empty result, with the counts up to it.
proof fn lemma_replay_begins<T>(d: DecoderView<T>, next_id: u64, result: ChunkResult)
    requires
        d.pass == (PassView::<T>::Live { speech: true }),
        d.empty_reset_threshold > 0,
        d.consecutive_empty < u32::MAX,
        decoder::resumed(d, next_id, result).d.pass is Replaying,
        decoder::resumed(d, next_id, result).d.pass->queue.len() + 1 < u64::MAX,
    ensures
        replay_log(decoder::resumed(d, next_id, result).d.pass) == (
        ActionView::LogMidSpeechReset {
            uptime_ms: result.uptime_ms,
            consecutive_empty: (d.consecutive_empty + 1) as u32,
            chunks_since_reset: d.chunks_since_reset,
            replay_chunks: (decoder::resumed(d, next_id, result).d.pass->queue.len() + 1) as u64,
            replay_nonempty_chunks: 0,
            replay_inference_ms: 0,
        }),
{
    let start = Turn { d, next_id, actions: Seq::<ActionView>::empty(), request: None };
    match result.text {
        Ok(text) => {
            let counted = Turn {
                d: DecoderView {
                    chunk_num: decoder::bump(d.chunk_num),
                    consecutive_empty: if text@.len() == 0 {
                        decoder::bump32(d.consecutive_empty)
                    } else {
                        0
                    },
                    ..d
                },
                ..start
            };
            let noted = decoder::logged(
                counted,
                text@,
                result.inference_ms,
                result.uptime_ms,
                true,
                ChunkSource::Live,
            );
            let ready = decoder::emitting(
                decoder::punctuated(noted, text@, result.uptime_ms),
                text@,
            );
            assert(decoder::resumed(d, next_id, result) == decoder::unstuck(
                ready,
                true,
                result.uptime_ms,
            ));
            if ready.d.consecutive_empty < ready.d.empty_reset_threshold {
                lemma_settled_keeps(ready, true);
            } else {
                let replay = PassView::Replaying {
                    speech: true,
                    queue: ready.d.replay,
                    uptime_ms: result.uptime_ms,
                    consecutive_empty: ready.d.consecutive_empty,
                    chunks_since_reset: ready.d.chunks_since_reset,
                    replay_chunks: ready.d.replay.len() as u64,
                    nonempty: 0,
                    inference_ms: 0,
                };
                if ready.d.replay.len() == 0 {
                    let all = Turn {
                        d: DecoderView { pass: replay, ..decoder::restarted(ready.d) },
                        actions: ready.actions.push(ActionView::ResetModel).push(
                            replay_log(replay),
                        ),
                        ..ready
                    };
                    lemma_settled_keeps(all, true);
                }
            }
        },
        Err(message) => {
            lemma_settled_keeps(
                decoder::failed(
                    start,
                    message@,
                    result.inference_ms,
                    result.uptime_ms,
                    true,
                    ChunkSource::Live,
                ),
                true,
            );
        },
    }
}

// ---------------------------------------------------------------------------
// Speech
// ---------------------------------------------------------------------------

/// Whether a pass is over speech; an idle decoder's is over nothing.
pub open spec fn over_speech<T>(pass: PassView<T>) -> bool {
    match pass {
        PassView::Idle => false,
        PassView::Live { speech } => speech,
        PassView::Replaying { speech, .. } => speech,
    }
}

proof fn lemma_replaying_keeps<T>(t: Turn<T>)
    requires
        t.d.pass is Replaying,
    ensures
        ({
            let after = decoder::replaying(t).d.pass;
            after is Idle || over_speech(after) == over_speech(t.d.pass)
        }),
{
    match t.d.pass {
        PassView::Replaying { speech, queue, .. } => {
            if queue.len() == 0 {
                lemma_settled_keeps(
                    Turn { actions: t.actions.push(replay_log(t.d.pass)), ..t },
                    speech,
                );
            }
        },
        _ => {},
    }
}

/// A pass is over speech, or is not, from its first chunk to its last, as it was told when
/// it began; only one over speech is ever interrupted by a replay.
pub proof fn law_a_pass_keeps_to_its_speech<T>(
    d: DecoderView<T>,
    next_id: u64,
    speech: bool,
    result: ChunkResult,
)
    ensures
        d.pass is Idle ==> {
            let begun = decoder::started(d, next_id, speech).d.pass;
            begun is Idle || begun == (PassView::<T>::Live { speech })
        },
        !(d.pass is Idle) ==> {
            let after = decoder::resumed(d, next_id, result).d.pass;
            &&& after is Idle || over_speech(after) == over_speech(d.pass)
            &&& d.pass is Live && after is Replaying ==> over_speech(d.pass)
        },
{
    let start = Turn { d, next_id, actions: Seq::<ActionView>::empty(), request: None };
    match d.pass {
        PassView::Live { speech } => match result.text {
            Ok(text) => {
                let counted = Turn {
                    d: DecoderView {
                        chunk_num: decoder::bump(d.chunk_num),
                        consecutive_empty: if text@.len() == 0 && speech {
                            decoder::bump32(d.consecutive_empty)
                        } else {
                            0
                        },
                        ..d
                    },
                    ..start
                };
                let noted = decoder::logged(
                    counted,
                    text@,
                    result.inference_ms,
                    result.uptime_ms,
                    speech,
                    ChunkSource::Live,
                );
                let ready = decoder::emitting(
                    decoder::punctuated(noted, text@, result.uptime_ms),
                    text@,
                );
                if ready.d.consecutive_empty >= ready.d.empty_reset_threshold && speech {
                    lemma_replaying_keeps(
                        Turn {
                            d: DecoderView {
                                pass: PassView::Replaying {
                                    speech,
                                    queue: ready.d.replay,
                                    uptime_ms: result.uptime_ms,
                                    consecutive_empty: ready.d.consecutive_empty,
                                    chunks_since_reset: ready.d.chunks_since_reset,
                                    replay_chunks: ready.d.replay.len() as u64,
                                    nonempty: 0,
                                    inference_ms: 0,
                                },
                                ..decoder::restarted(ready.d)
                            },
                            actions: ready.actions.push(ActionView::ResetModel),
                            ..ready
                        },
                    );
                } else {
                    lemma_settled_keeps(ready, speech);
                }
            },
            Err(message) => {
                lemma_settled_keeps(
                    decoder::failed(
                        start,
                        message@,
                        result.inference_ms,
                        result.uptime_ms,
                        speech,
                        ChunkSource::Live,
                    ),
                    speech,
                );
            },
        },
        PassView::Replaying {
            speech,
            queue,
            uptime_ms,
            consecutive_empty,
            chunks_since_reset,
            replay_chunks,
            nonempty,
            inference_ms,
        } => match result.text {
            Ok(text) => {
                let counted = Turn {
                    d: DecoderView {
                        chunk_num: decoder::bump(d.chunk_num),
                        pass: PassView::Replaying {
                            speech,
                            queue,
                            uptime_ms,
                            consecutive_empty,
                            chunks_since_reset,
                            replay_chunks,
                            nonempty: if text@.len() == 0 {
                                nonempty
                            } else {
                                decoder::bump(nonempty)
                            },
                            inference_ms: decoder::capped_sum(inference_ms, result.inference_ms),
                        },
                        ..d
                    },
                    ..start
                };
                lemma_replaying_keeps(
                    decoder::emitting(
                        decoder::logged(
                            counted,
                            text@,
                            result.inference_ms,
                            result.uptime_ms,
                            true,
                            ChunkSource::Replay,
                        ),
                        text@,
                    ),
                );
            },
            Err(message) => {
                lemma_replaying_keeps(
                    decoder::failed(
                        start,
                        message@,
                        result.inference_ms,
                        result.uptime_ms,
                        true,
                        ChunkSource::Replay,
                    ),
                );
            },
        },
        PassView::Idle => {},
    }
}

} // verus!
