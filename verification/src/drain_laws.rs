//! Where the capture buffer happens to be drained does not matter to a chunk decoder.
//!
//! Audio that arrives in two deliveries, with a pass after each, is treated exactly
//! as if it had arrived in one: the same chunks are run, the same decoder resets and
//! replays happen between them, and the same updates come out.

use vstd::prelude::*;

use crate::asr::UpdateView;
use crate::decoder;
use crate::decoder::ActionView;
use crate::decoder::ChunkResult;
use crate::decoder::DecoderView;
use crate::decoder::PassView;
use crate::decoder::Turn;
use crate::decoder_laws;
use crate::decoder_laws::Act;
use crate::decoder_laws::Deed;
use crate::decoder_laws::PassSoFar;
use crate::decoder_laws::Work;
use crate::samples;

verus! {

// ---------------------------------------------------------------------------
// A decoder inside a longer buffer
// ---------------------------------------------------------------------------

/// `d` with more audio around: `front` is consumed already, `back` is still to come.
spec fn within<T>(d: DecoderView<T>, front: Seq<T>, back: Seq<T>) -> DecoderView<T> {
    DecoderView {
        buffer: front + d.buffer + back,
        consumed: d.consumed + front.len(),
        ..d
    }
}

spec fn with_more<T>(d: DecoderView<T>, more: Seq<T>) -> DecoderView<T> {
    DecoderView { buffer: d.buffer + more, ..d }
}

/// Two steps that do the same, where `y` is `x` inside a longer buffer.
spec fn alike<T>(x: Turn<T>, y: Turn<T>, front: Seq<T>, back: Seq<T>) -> bool {
    &&& y.d == within(x.d, front, back)
    &&& y.next_id == x.next_id
    &&& y.request == x.request
    &&& deeds(y) == deeds(x)
}

spec fn deeds<T>(t: Turn<T>) -> Seq<Deed<T>> {
    decoder_laws::deeds_of(t.actions)
}

/// `x` ended its pass; `y` did the same and went on to what a new pass over the rest
/// with `back` behind it begins with. `gone` is what `y` has consumed by then.
spec fn follows<T>(x: Turn<T>, y: Turn<T>, back: Seq<T>, speech: bool, gone: Seq<T>) -> bool {
    let s = decoder::started(with_more(x.d, back), x.next_id, speech);
    &&& y.next_id == x.next_id
    &&& y.request == s.request
    &&& deeds(y) == deeds(x)
    &&& if s.d.pass is Idle {
        y.d == s.d
    } else {
        y.d == within(s.d, gone, Seq::empty())
    }
}

spec fn matched<T>(
    x: Turn<T>,
    y: Turn<T>,
    front: Seq<T>,
    back: Seq<T>,
    speech: bool,
    gone: Seq<T>,
) -> bool {
    if x.d.pass is Idle {
        follows(x, y, back, speech, gone)
    } else {
        alike(x, y, front, back)
    }
}

/// What `d` has consumed, behind `front`.
spec fn gone<T>(d: DecoderView<T>, front: Seq<T>) -> Seq<T> {
    front + d.buffer.take(d.consumed)
}

spec fn consumed_in_range<T>(d: DecoderView<T>) -> bool {
    d.chunk_size > 0 && 0 <= d.consumed <= d.buffer.len()
}

/// Ends are counted from the front of the buffer, so none may be pending where audio
/// stands in front.
spec fn placed<T>(d: DecoderView<T>, front: Seq<T>) -> bool {
    front.len() == 0 || d.ends.len() == 0
}

proof fn lemma_deeds_push<T>(actions: Seq<ActionView>, a: ActionView)
    ensures
        decoder_laws::deeds_of::<T>(actions.push(a)) == match a {
            ActionView::ResetModel => decoder_laws::deeds_of::<T>(actions).push(Deed::ResetModel),
            ActionView::Emit(update) => decoder_laws::deeds_of::<T>(actions).push(
                Deed::Emit(update),
            ),
            _ => decoder_laws::deeds_of::<T>(actions),
        },
{
    assert(actions.push(a).drop_last() =~= actions);
}

proof fn lemma_asking<T>(x: Turn<T>, y: Turn<T>, front: Seq<T>, back: Seq<T>, speech: bool)
    requires
        alike(x, y, front, back),
        x.request is None,
        consumed_in_range(x.d),
    ensures
        matched(
            decoder::asking(x, speech),
            decoder::asking(y, speech),
            front,
            back,
            speech,
            gone(x.d, front),
        ),
{
    let n = x.d.chunk_size as int;
    let c = x.d.consumed;
    let a = decoder::asking(x, speech);
    let b = decoder::asking(y, speech);
    if x.d.buffer.len() - c >= n {
        assert(y.d.buffer.subrange(c + front.len(), c + front.len() + n) =~= x.d.buffer.subrange(
            c,
            c + n,
        ));
        assert(b.d == within(a.d, front, back));
    } else {
        let rest = x.d.buffer.skip(c);
        let s = decoder::started(with_more(a.d, back), a.next_id, speech);
        assert(s.d.chunk_size == n);
        if rest.len() + back.len() >= n {
            assert(y.d.buffer.subrange(c + front.len(), c + front.len() + n) =~= (rest
                + back).subrange(0, 0 + n));
            assert(y.d.buffer =~= gone(x.d, front) + (rest + back) + Seq::<T>::empty());
            assert(gone(x.d, front).len() == c + front.len());
            assert(b.d == within(s.d, gone(x.d, front), Seq::empty()));
        } else {
            assert(y.d.buffer.skip(c + front.len()) =~= (rest + back).skip(0));
            assert(b.d == s.d);
        }
    }
}

proof fn lemma_settled<T>(x: Turn<T>, y: Turn<T>, front: Seq<T>, back: Seq<T>, speech: bool)
    requires
        alike(x, y, front, back),
        x.request is None,
        consumed_in_range(x.d),
        placed(x.d, front),
    ensures
        matched(
            decoder::settled(x, speech),
            decoder::settled(y, speech),
            front,
            back,
            speech,
            gone(x.d, front),
        ),
    decreases x.d.ends.len(),
{
    if x.d.ends.len() > 0 && x.d.consumed >= x.d.ends[0].reset_after_samples {
        let end_x = ActionView::LogSpeechEnd {
            end: x.d.ends[0],
            consecutive_empty: x.d.consecutive_empty,
            chunks_since_reset: x.d.chunks_since_reset,
        };
        lemma_deeds_push::<T>(x.actions, end_x);
        lemma_deeds_push::<T>(x.actions.push(end_x), ActionView::ResetModel);
        lemma_deeds_push::<T>(y.actions, end_x);
        lemma_deeds_push::<T>(y.actions.push(end_x), ActionView::ResetModel);
        let x2 = Turn {
            d: DecoderView { ends: x.d.ends.drop_first(), ..decoder::restarted(x.d) },
            actions: x.actions.push(end_x).push(ActionView::ResetModel),
            ..x
        };
        let y2 = Turn {
            d: DecoderView { ends: y.d.ends.drop_first(), ..decoder::restarted(y.d) },
            actions: y.actions.push(end_x).push(ActionView::ResetModel),
            ..y
        };
        assert(y2.d == within(x2.d, front, back));
        lemma_settled(x2, y2, front, back, speech);
    } else {
        lemma_asking(x, y, front, back, speech);
    }
}

proof fn lemma_replaying<T>(x: Turn<T>, y: Turn<T>, front: Seq<T>, back: Seq<T>, speech: bool)
    requires
        alike(x, y, front, back),
        x.request is None,
        consumed_in_range(x.d),
        placed(x.d, front),
        x.d.pass is Replaying,
        speech == x.d.pass->Replaying_speech,
    ensures
        matched(
            decoder::replaying(x),
            decoder::replaying(y),
            front,
            back,
            speech,
            gone(x.d, front),
        ),
{
    match x.d.pass {
        PassView::Replaying {
            speech,
            queue,
            uptime_ms,
            consecutive_empty,
            chunks_since_reset,
            replay_chunks,
            nonempty,
            inference_ms,
        } => {
            if queue.len() == 0 {
                let note = ActionView::LogMidSpeechReset {
                    uptime_ms,
                    consecutive_empty,
                    chunks_since_reset,
                    replay_chunks,
                    replay_nonempty_chunks: nonempty,
                    replay_inference_ms: inference_ms,
                };
                lemma_deeds_push::<T>(x.actions, note);
                lemma_deeds_push::<T>(y.actions, note);
                lemma_settled(
                    Turn { actions: x.actions.push(note), ..x },
                    Turn { actions: y.actions.push(note), ..y },
                    front,
                    back,
                    speech,
                );
            } else {
                assert(decoder::replaying(y).d == within(decoder::replaying(x).d, front, back));
            }
        },
        _ => {},
    }
}

proof fn lemma_noted<T>(
    x: Turn<T>,
    y: Turn<T>,
    front: Seq<T>,
    back: Seq<T>,
    said: Seq<char>,
    result: ChunkResult,
    speech: bool,
    source: decoder::ChunkSource,
)
    requires
        alike(x, y, front, back),
    ensures
        alike(
            decoder::logged(x, said, result.inference_ms, result.uptime_ms, speech, source),
            decoder::logged(y, said, result.inference_ms, result.uptime_ms, speech, source),
            front,
            back,
        ),
        alike(
            decoder::failed(x, said, result.inference_ms, result.uptime_ms, speech, source),
            decoder::failed(y, said, result.inference_ms, result.uptime_ms, speech, source),
            front,
            back,
        ),
{
    let lx = decoder::logged(x, said, result.inference_ms, result.uptime_ms, speech, source);
    let ly = decoder::logged(y, said, result.inference_ms, result.uptime_ms, speech, source);
    lemma_deeds_push::<T>(x.actions, lx.actions.last());
    lemma_deeds_push::<T>(y.actions, ly.actions.last());
    let fx = decoder::failed(x, said, result.inference_ms, result.uptime_ms, speech, source);
    let fy = decoder::failed(y, said, result.inference_ms, result.uptime_ms, speech, source);
    lemma_deeds_push::<T>(x.actions, fx.actions.last());
    lemma_deeds_push::<T>(y.actions, fy.actions.last());
}

proof fn lemma_emitting<T>(x: Turn<T>, y: Turn<T>, front: Seq<T>, back: Seq<T>, said: Seq<char>)
    requires
        alike(x, y, front, back),
    ensures
        alike(decoder::emitting(x, said), decoder::emitting(y, said), front, back),
{
    let update = ActionView::Emit(
        UpdateView { segment_id: x.next_id, is_final: true, text: said, speaker: None },
    );
    lemma_deeds_push::<T>(x.actions, update);
    lemma_deeds_push::<T>(y.actions, update);
}

proof fn lemma_punctuated<T>(
    x: Turn<T>,
    y: Turn<T>,
    front: Seq<T>,
    back: Seq<T>,
    said: Seq<char>,
    uptime_ms: i64,
)
    requires
        alike(x, y, front, back),
    ensures
        alike(
            decoder::punctuated(x, said, uptime_ms),
            decoder::punctuated(y, said, uptime_ms),
            front,
            back,
        ),
{
    let note = ActionView::LogPunctuationReset {
        uptime_ms,
        consecutive_empty: x.d.consecutive_empty,
        chunks_since_reset: x.d.chunks_since_reset,
    };
    lemma_deeds_push::<T>(x.actions, note);
    lemma_deeds_push::<T>(x.actions.push(note), ActionView::ResetModel);
    lemma_deeds_push::<T>(y.actions, note);
    lemma_deeds_push::<T>(y.actions.push(note), ActionView::ResetModel);
    assert(decoder::restarted(y.d) == within(decoder::restarted(x.d), front, back));
}

proof fn lemma_unstuck<T>(
    x: Turn<T>,
    y: Turn<T>,
    front: Seq<T>,
    back: Seq<T>,
    speech: bool,
    uptime_ms: i64,
)
    requires
        alike(x, y, front, back),
        x.request is None,
        consumed_in_range(x.d),
        placed(x.d, front),
    ensures
        matched(
            decoder::unstuck(x, speech, uptime_ms),
            decoder::unstuck(y, speech, uptime_ms),
            front,
            back,
            speech,
            gone(x.d, front),
        ),
{
    if x.d.consecutive_empty >= x.d.empty_reset_threshold && speech {
        lemma_deeds_push::<T>(x.actions, ActionView::ResetModel);
        lemma_deeds_push::<T>(y.actions, ActionView::ResetModel);
        let pass = PassView::Replaying {
            speech,
            queue: x.d.replay,
            uptime_ms,
            consecutive_empty: x.d.consecutive_empty,
            chunks_since_reset: x.d.chunks_since_reset,
            replay_chunks: x.d.replay.len() as u64,
            nonempty: 0,
            inference_ms: 0,
        };
        let x2 = Turn {
            d: DecoderView { pass, ..decoder::restarted(x.d) },
            actions: x.actions.push(ActionView::ResetModel),
            ..x
        };
        let y2 = Turn {
            d: DecoderView { pass, ..decoder::restarted(y.d) },
            actions: y.actions.push(ActionView::ResetModel),
            ..y
        };
        assert(y2.d == within(x2.d, front, back));
        lemma_replaying(x2, y2, front, back, speech);
    } else {
        lemma_settled(x, y, front, back, speech);
    }
}

/// Whether the pass that is under way runs over speech.
spec fn over_speech<T>(pass: PassView<T>) -> bool {
    match pass {
        PassView::Idle => false,
        PassView::Live { speech } => speech,
        PassView::Replaying { speech, .. } => speech,
    }
}

proof fn lemma_resumed<T>(
    d: DecoderView<T>,
    front: Seq<T>,
    back: Seq<T>,
    next_id: u64,
    result: ChunkResult,
)
    requires
        !(d.pass is Idle),
        consumed_in_range(d),
        placed(d, front),
    ensures
        matched(
            decoder::resumed(d, next_id, result),
            decoder::resumed(within(d, front, back), next_id, result),
            front,
            back,
            over_speech(d.pass),
            gone(d, front),
        ),
        !(decoder::resumed(d, next_id, result).d.pass is Idle) ==> over_speech(
            decoder::resumed(d, next_id, result).d.pass,
        ) == over_speech(d.pass),
{
    let e = within(d, front, back);
    let x = Turn { d, next_id, actions: Seq::<ActionView>::empty(), request: None::<Seq<T>> };
    let y = Turn { d: e, next_id, actions: Seq::<ActionView>::empty(), request: None::<Seq<T>> };
    assert(alike(x, y, front, back));
    match d.pass {
        PassView::Live { speech } => {
            match result.text {
                Ok(text) => {
                    let empties = if text@.len() == 0 && speech {
                        decoder::bump32(d.consecutive_empty)
                    } else {
                        0
                    };
                    let num = decoder::bump(d.chunk_num);
                    let x2 = Turn {
                        d: DecoderView { chunk_num: num, consecutive_empty: empties, ..d },
                        ..x
                    };
                    let y2 = Turn {
                        d: DecoderView { chunk_num: num, consecutive_empty: empties, ..e },
                        ..y
                    };
                    assert(y2.d == within(x2.d, front, back));
                    let live = decoder::ChunkSource::Live;
                    let (inf, up) = (result.inference_ms, result.uptime_ms);
                    lemma_noted(x2, y2, front, back, text@, result, speech, live);
                    let x3 = decoder::logged(x2, text@, inf, up, speech, live);
                    let y3 = decoder::logged(y2, text@, inf, up, speech, live);
                    lemma_punctuated(x3, y3, front, back, text@, up);
                    let x4 = decoder::punctuated(x3, text@, up);
                    let y4 = decoder::punctuated(y3, text@, up);
                    lemma_emitting(x4, y4, front, back, text@);
                    let x5 = decoder::emitting(x4, text@);
                    let y5 = decoder::emitting(y4, text@);
                    lemma_unstuck(x5, y5, front, back, speech, up);
                    lemma_unstuck_keeps_speech(x5, speech, up);
                },
                Err(message) => {
                    let live = decoder::ChunkSource::Live;
                    lemma_noted(x, y, front, back, message@, result, speech, live);
                    let (inf, up) = (result.inference_ms, result.uptime_ms);
                    let x2 = decoder::failed(x, message@, inf, up, speech, live);
                    let y2 = decoder::failed(y, message@, inf, up, speech, live);
                    lemma_settled(x2, y2, front, back, speech);
                    lemma_settled_keeps_speech(x2, speech);
                },
            }
        },
        PassView::Replaying {
            speech,
            queue,
            uptime_ms,
            consecutive_empty,
            chunks_since_reset,
            replay_chunks,
            nonempty,
            inference_ms,
        } => {
            let again = decoder::ChunkSource::Replay;
            let (inf, up) = (result.inference_ms, result.uptime_ms);
            match result.text {
                Ok(text) => {
                    let pass = PassView::Replaying {
                        speech,
                        queue,
                        uptime_ms,
                        consecutive_empty,
                        chunks_since_reset,
                        replay_chunks,
                        nonempty: if text@.len() == 0 {
                            nonempty
                        } else {
                            decoder::bump(nonempty)
                        },
                        inference_ms: decoder::capped_sum(inference_ms, result.inference_ms),
                    };
                    let num = decoder::bump(d.chunk_num);
                    let x2 = Turn { d: DecoderView { chunk_num: num, pass, ..d }, ..x };
                    let y2 = Turn { d: DecoderView { chunk_num: num, pass, ..e }, ..y };
                    assert(y2.d == within(x2.d, front, back));
                    lemma_noted(x2, y2, front, back, text@, result, true, again);
                    let x3 = decoder::logged(x2, text@, inf, up, true, again);
                    let y3 = decoder::logged(y2, text@, inf, up, true, again);
                    lemma_emitting(x3, y3, front, back, text@);
                    let x4 = decoder::emitting(x3, text@);
                    let y4 = decoder::emitting(y3, text@);
                    lemma_replaying(x4, y4, front, back, speech);
                    lemma_replaying_keeps_speech(x4);
                },
                Err(message) => {
                    lemma_noted(x, y, front, back, message@, result, true, again);
                    let x2 = decoder::failed(x, message@, inf, up, true, again);
                    let y2 = decoder::failed(y, message@, inf, up, true, again);
                    lemma_replaying(x2, y2, front, back, speech);
                    lemma_replaying_keeps_speech(x2);
                },
            }
        },
        PassView::Idle => {},
    }
}

proof fn lemma_settled_keeps_speech<T>(t: Turn<T>, speech: bool)
    ensures
        ({
            let d = decoder::settled(t, speech).d;
            d.pass is Idle || over_speech(d.pass) == speech
        }),
    decreases t.d.ends.len(),
{
    let d = t.d;
    if d.ends.len() > 0 && d.consumed >= d.ends[0].reset_after_samples {
        lemma_settled_keeps_speech(
            Turn {
                d: DecoderView { ends: d.ends.drop_first(), ..decoder::restarted(d) },
                actions: t.actions.push(
                    ActionView::LogSpeechEnd {
                        end: d.ends[0],
                        consecutive_empty: d.consecutive_empty,
                        chunks_since_reset: d.chunks_since_reset,
                    },
                ).push(ActionView::ResetModel),
                ..t
            },
            speech,
        );
    }
}

proof fn lemma_replaying_keeps_speech<T>(t: Turn<T>)
    requires
        t.d.pass is Replaying,
    ensures
        ({
            let d = decoder::replaying(t).d;
            d.pass is Idle || over_speech(d.pass) == over_speech(t.d.pass)
        }),
{
    match t.d.pass {
        PassView::Replaying {
            speech,
            queue,
            uptime_ms,
            consecutive_empty,
            chunks_since_reset,
            replay_chunks,
            nonempty,
            inference_ms,
        } => {
            if queue.len() == 0 {
                let note = ActionView::LogMidSpeechReset {
                    uptime_ms,
                    consecutive_empty,
                    chunks_since_reset,
                    replay_chunks,
                    replay_nonempty_chunks: nonempty,
                    replay_inference_ms: inference_ms,
                };
                lemma_settled_keeps_speech(Turn { actions: t.actions.push(note), ..t }, speech);
            }
        },
        _ => {},
    }
}

proof fn lemma_unstuck_keeps_speech<T>(t: Turn<T>, speech: bool, uptime_ms: i64)
    ensures
        ({
            let d = decoder::unstuck(t, speech, uptime_ms).d;
            d.pass is Idle || over_speech(d.pass) == speech
        }),
{
    if t.d.consecutive_empty >= t.d.empty_reset_threshold && speech {
        let t2 = Turn {
            d: DecoderView {
                pass: PassView::Replaying {
                    speech,
                    queue: t.d.replay,
                    uptime_ms,
                    consecutive_empty: t.d.consecutive_empty,
                    chunks_since_reset: t.d.chunks_since_reset,
                    replay_chunks: t.d.replay.len() as u64,
                    nonempty: 0,
                    inference_ms: 0,
                },
                ..decoder::restarted(t.d)
            },
            actions: t.actions.push(ActionView::ResetModel),
            ..t
        };
        lemma_replaying_keeps_speech(t2);
    } else {
        lemma_settled_keeps_speech(t, speech);
    }
}

// ---------------------------------------------------------------------------
// Pending ends
// ---------------------------------------------------------------------------

/// Every pending end lies on a chunk boundary inside the buffer.
pub open spec fn ends_in_reach<T>(d: DecoderView<T>) -> bool {
    forall|i: int|
        0 <= i < d.ends.len() ==> {
            &&& (#[trigger] d.ends[i]).reset_after_samples as int % d.chunk_size as int == 0
            &&& d.ends[i].reset_after_samples <= d.buffer.len()
        }
}

/// No pending end lies beyond `bound`.
spec fn ends_before<T>(d: DecoderView<T>, bound: int) -> bool {
    forall|i: int| 0 <= i < d.ends.len() ==> (#[trigger] d.ends[i]).reset_after_samples <= bound
}

/// Ends only ever go, and behind `bound` none is left.
spec fn ends_go<T>(d: DecoderView<T>, after: DecoderView<T>, bound: int) -> bool {
    &&& ends_before(after, bound)
    &&& after.ends.len() <= d.ends.len()
    &&& d.consumed >= bound && !(after.pass is Replaying) ==> after.ends.len() == 0
}

proof fn lemma_settled_ends<T>(t: Turn<T>, speech: bool, bound: int)
    requires
        ends_before(t.d, bound),
    ensures
        ends_go(t.d, decoder::settled(t, speech).d, bound),
    decreases t.d.ends.len(),
{
    let d = t.d;
    if d.ends.len() > 0 && d.consumed >= d.ends[0].reset_after_samples {
        let t2 = Turn {
            d: DecoderView { ends: d.ends.drop_first(), ..decoder::restarted(d) },
            actions: t.actions.push(
                ActionView::LogSpeechEnd {
                    end: d.ends[0],
                    consecutive_empty: d.consecutive_empty,
                    chunks_since_reset: d.chunks_since_reset,
                },
            ).push(ActionView::ResetModel),
            ..t
        };
        assert forall|i: int| 0 <= i < t2.d.ends.len() implies (
        #[trigger] t2.d.ends[i]).reset_after_samples <= bound by {
            assert(t2.d.ends[i] == d.ends[i + 1]);
        }
        lemma_settled_ends(t2, speech, bound);
    }
}

proof fn lemma_replaying_ends<T>(t: Turn<T>, bound: int)
    requires
        ends_before(t.d, bound),
        t.d.pass is Replaying,
    ensures
        ends_go(t.d, decoder::replaying(t).d, bound),
{
    match t.d.pass {
        PassView::Replaying {
            speech,
            queue,
            uptime_ms,
            consecutive_empty,
            chunks_since_reset,
            replay_chunks,
            nonempty,
            inference_ms,
        } => {
            if queue.len() == 0 {
                let note = ActionView::LogMidSpeechReset {
                    uptime_ms,
                    consecutive_empty,
                    chunks_since_reset,
                    replay_chunks,
                    replay_nonempty_chunks: nonempty,
                    replay_inference_ms: inference_ms,
                };
                lemma_settled_ends(Turn { actions: t.actions.push(note), ..t }, speech, bound);
            }
        },
        _ => {},
    }
}

proof fn lemma_unstuck_ends<T>(t: Turn<T>, speech: bool, uptime_ms: i64, bound: int)
    requires
        ends_before(t.d, bound),
    ensures
        ends_go(t.d, decoder::unstuck(t, speech, uptime_ms).d, bound),
{
    if t.d.consecutive_empty >= t.d.empty_reset_threshold && speech {
        let t2 = Turn {
            d: DecoderView {
                pass: PassView::Replaying {
                    speech,
                    queue: t.d.replay,
                    uptime_ms,
                    consecutive_empty: t.d.consecutive_empty,
                    chunks_since_reset: t.d.chunks_since_reset,
                    replay_chunks: t.d.replay.len() as u64,
                    nonempty: 0,
                    inference_ms: 0,
                },
                ..decoder::restarted(t.d)
            },
            actions: t.actions.push(ActionView::ResetModel),
            ..t
        };
        lemma_replaying_ends(t2, bound);
    } else {
        lemma_settled_ends(t, speech, bound);
    }
}

proof fn lemma_resumed_ends<T>(d: DecoderView<T>, next_id: u64, result: ChunkResult, bound: int)
    requires
        ends_before(d, bound),
        !(d.pass is Idle),
    ensures
        ends_go(d, decoder::resumed(d, next_id, result).d, bound),
{
    let x = Turn { d, next_id, actions: Seq::<ActionView>::empty(), request: None::<Seq<T>> };
    let (inf, up) = (result.inference_ms, result.uptime_ms);
    match d.pass {
        PassView::Live { speech } => {
            let live = decoder::ChunkSource::Live;
            match result.text {
                Ok(text) => {
                    let x2 = Turn {
                        d: DecoderView {
                            chunk_num: decoder::bump(d.chunk_num),
                            consecutive_empty: if text@.len() == 0 && speech {
                                decoder::bump32(d.consecutive_empty)
                            } else {
                                0
                            },
                            ..d
                        },
                        ..x
                    };
                    let x3 = decoder::logged(x2, text@, inf, up, speech, live);
                    let x4 = decoder::emitting(decoder::punctuated(x3, text@, up), text@);
                    assert(x4.d.ends == d.ends && x4.d.consumed == d.consumed);
                    lemma_unstuck_ends(x4, speech, up, bound);
                },
                Err(message) => {
                    let x2 = decoder::failed(x, message@, inf, up, speech, live);
                    lemma_settled_ends(x2, speech, bound);
                },
            }
        },
        PassView::Replaying {
            speech,
            queue,
            uptime_ms,
            consecutive_empty,
            chunks_since_reset,
            replay_chunks,
            nonempty,
            inference_ms,
        } => {
            let again = decoder::ChunkSource::Replay;
            match result.text {
                Ok(text) => {
                    let pass = PassView::Replaying {
                        speech,
                        queue,
                        uptime_ms,
                        consecutive_empty,
                        chunks_since_reset,
                        replay_chunks,
                        nonempty: if text@.len() == 0 {
                            nonempty
                        } else {
                            decoder::bump(nonempty)
                        },
                        inference_ms: decoder::capped_sum(inference_ms, result.inference_ms),
                    };
                    let x2 = Turn {
                        d: DecoderView { chunk_num: decoder::bump(d.chunk_num), pass, ..d },
                        ..x
                    };
                    let x3 = decoder::logged(x2, text@, inf, up, true, again);
                    let x4 = decoder::emitting(x3, text@);
                    assert(x4.d.ends == d.ends && x4.d.consumed == d.consumed);
                    lemma_replaying_ends(x4, bound);
                },
                Err(message) => {
                    lemma_replaying_ends(
                        decoder::failed(x, message@, inf, up, true, again),
                        bound,
                    );
                },
            }
        },
        PassView::Idle => {},
    }
}

/// How far the whole chunks of a buffer reach.
spec fn whole<T>(d: DecoderView<T>) -> int {
    d.buffer.len() as int / d.chunk_size as int * d.chunk_size as int
}

proof fn lemma_reach_is_whole<T>(d: DecoderView<T>)
    requires
        d.chunk_size > 0,
        ends_in_reach(d),
    ensures
        ends_before(d, whole(d)),
{
    let n = d.chunk_size as int;
    let k = d.buffer.len() as int / n;
    vstd::arithmetic::div_mod::lemma_fundamental_div_mod(d.buffer.len() as int, n);
    assert forall|i: int| 0 <= i < d.ends.len() implies (
    #[trigger] d.ends[i]).reset_after_samples <= whole(d) by {
        let e = d.ends[i].reset_after_samples as int;
        vstd::arithmetic::div_mod::lemma_fundamental_div_mod(e, n);
        let m = e / n;
        assert(m <= k) by (nonlinear_arith)
            requires
                n > 0,
                n * m <= n * k + (n - 1),
        ;
        assert(e <= k * n) by (nonlinear_arith)
            requires
                e == n * m,
                m <= k,
                n > 0,
        ;
    }
}

/// Over a pass the pending ends go, and a pass that ran a chunk and is over has left
/// none.
proof fn lemma_pass_ends<T>(
    d: DecoderView<T>,
    next_id: u64,
    speech: bool,
    results: Seq<ChunkResult>,
)
    requires
        decoder_laws::sound(d),
        d.pass is Idle,
        ends_in_reach(d),
    ensures
        ({
            let p = decoder_laws::pass_so_far(d, next_id, speech, results);
            &&& ends_before(p.t.d, whole(d))
            &&& p.t.d.ends.len() <= d.ends.len()
            &&& !(p.t.d.pass is Idle) ==> over_speech(p.t.d.pass) == speech
            &&& p.t.d.pass is Idle && results.len() == 0 ==> p.t.d == d
            &&& p.t.d.pass is Idle && p.heard.len() > 0 ==> p.t.d.ends.len() == 0
            &&& p.t.d.pass is Idle && p.heard.len() == 0 ==> p.t.d == d
        }),
    decreases results.len(),
{
    let n = d.chunk_size as int;
    let p = decoder_laws::pass_so_far(d, next_id, speech, results);
    lemma_reach_is_whole(d);
    if results.len() == 0 {
        if p.t.d.pass is Idle {
            assert(d.buffer.skip(0) =~= d.buffer);
            assert(p.t.d == d);
        }
    } else {
        let front = results.drop_last();
        lemma_pass_ends(d, next_id, speech, front);
        let before = decoder_laws::pass_so_far(d, next_id, speech, front);
        if !(before.t.d.pass is Idle) {
            decoder_laws::lemma_pass_on_track(d, next_id, speech, front);
            decoder_laws::lemma_pass_on_track(d, next_id, speech, results);
            decoder_laws::law_results_move_a_pass_on(
                before.t.d,
                before.t.next_id,
                results.last(),
            );
            lemma_resumed_ends(before.t.d, before.t.next_id, results.last(), whole(d));
            lemma_resumed(
                before.t.d,
                Seq::empty(),
                Seq::empty(),
                before.t.next_id,
                results.last(),
            );
            if p.t.d.pass is Idle {
                let k = p.live.len() as int;
                assert(p.live =~= before.live);
                vstd::arithmetic::div_mod::lemma_fundamental_div_mod_converse(
                    d.buffer.len() as int,
                    n,
                    k,
                    d.buffer.len() - k * n,
                );
                assert(before.t.d.consumed == whole(d));
            }
        }
    }
}

// ---------------------------------------------------------------------------
// Two deliveries or one
// ---------------------------------------------------------------------------

/// The audio that a pass from `d` has taken out of the buffer.
spec fn taken<T>(d: DecoderView<T>, after: DecoderView<T>) -> Seq<T> {
    d.buffer.take(d.buffer.len() - after.buffer.len())
}

/// A pass with `more` behind the buffer does what the pass without it does, and then
/// goes on as a pass over the rest and `more` begins.
proof fn lemma_first_delivery<T>(
    d: DecoderView<T>,
    next_id: u64,
    speech: bool,
    more: Seq<T>,
    results: Seq<ChunkResult>,
)
    requires
        decoder_laws::sound(d),
        d.pass is Idle,
        ends_in_reach(d),
        decoder_laws::pass_so_far(d, next_id, speech, results).heard.len() == results.len(),
    ensures
        ({
            let p = decoder_laws::pass_so_far(d, next_id, speech, results);
            let q = decoder_laws::pass_so_far(with_more(d, more), next_id, speech, results);
            &&& q.heard == p.heard
            &&& q.t.next_id == p.t.next_id
            &&& if p.t.d.pass is Idle {
                let s = decoder::started(with_more(p.t.d, more), p.t.next_id, speech);
                &&& q.t.request == s.request
                &&& q.t.d == if s.d.pass is Idle {
                    s.d
                } else {
                    within(s.d, taken(d, p.t.d), Seq::empty())
                }
                &&& q.live == p.live + decoder_laws::live_request(s)
                &&& q.deeds == p.deeds + decoder_laws::step_deeds(s)
            } else {
                &&& q.t.request == p.t.request
                &&& q.t.d == within(p.t.d, Seq::empty(), more)
                &&& q.live == p.live
                &&& q.deeds == p.deeds
            }
        }),
    decreases results.len(),
{
    let none = Seq::<T>::empty();
    let e = with_more(d, more);
    assert(none + d.buffer + more =~= d.buffer + more);
    assert(e == within(d, none, more));
    let p = decoder_laws::pass_so_far(d, next_id, speech, results);
    let q = decoder_laws::pass_so_far(e, next_id, speech, results);
    if results.len() == 0 {
        let x = Turn { d, next_id, actions: Seq::<ActionView>::empty(), request: None::<Seq<T>> };
        let y = Turn {
            d: e,
            next_id,
            actions: Seq::<ActionView>::empty(),
            request: None::<Seq<T>>,
        };
        lemma_asking(x, y, none, more, speech);
        assert(gone(d, none) =~= none);
        if p.t.d.pass is Idle {
            assert(d.buffer.skip(0) =~= d.buffer);
            assert(taken(d, p.t.d) =~= none);
            let s = decoder::started(with_more(p.t.d, more), p.t.next_id, speech);
            assert(q.live =~= p.live + decoder_laws::live_request(s));
            assert(q.deeds =~= p.deeds + decoder_laws::step_deeds(s));
        }
    } else {
        let front = results.drop_last();
        let before = decoder_laws::pass_so_far(d, next_id, speech, front);
        lemma_heard_at_most(d, next_id, speech, front);
        if before.t.d.pass is Idle {
            assert(p.heard == before.heard);
            assert(false);
        }
        lemma_first_delivery(d, next_id, speech, more, front);
        lemma_pass_ends(d, next_id, speech, front);
        decoder_laws::lemma_pass_on_track(d, next_id, speech, front);
        decoder_laws::law_results_move_a_pass_on(before.t.d, before.t.next_id, results.last());
        lemma_resumed(before.t.d, none, more, before.t.next_id, results.last());
        if p.t.d.pass is Idle {
            let s = decoder::started(with_more(p.t.d, more), p.t.next_id, speech);
            assert(gone(before.t.d, none) =~= taken(d, p.t.d));
            assert(q.live =~= p.live + decoder_laws::live_request(s));
            assert(q.deeds =~= p.deeds + decoder_laws::step_deeds(s));
        }
    }
}

proof fn lemma_heard_at_most<T>(
    d: DecoderView<T>,
    next_id: u64,
    speech: bool,
    results: Seq<ChunkResult>,
)
    ensures
        decoder_laws::pass_so_far(d, next_id, speech, results).heard.len() <= results.len(),
    decreases results.len(),
{
    if results.len() > 0 {
        lemma_heard_at_most(d, next_id, speech, results.drop_last());
    }
}

/// `q` did what `p` and then `r` did, and stands where `r` stands, with `at` consumed
/// in front.
spec fn joined<T>(p: PassSoFar<T>, r: PassSoFar<T>, q: PassSoFar<T>, at: Seq<T>) -> bool {
    &&& q.t.next_id == r.t.next_id
    &&& q.t.request == r.t.request
    &&& q.t.d == if r.t.d.pass is Idle {
        r.t.d
    } else {
        within(r.t.d, at, Seq::empty())
    }
    &&& q.live == p.live + r.live
    &&& q.heard == p.heard + r.heard
    &&& q.deeds == p.deeds + r.deeds
}

/// A pass under way that gets a result.
spec fn moved_on<T>(before: PassSoFar<T>, result: ChunkResult) -> PassSoFar<T> {
    let t = decoder::resumed(before.t.d, before.t.next_id, result);
    PassSoFar {
        t,
        live: before.live + decoder_laws::live_request(t),
        heard: before.heard.push(decoder_laws::heard_in(result)),
        updates: before.updates + decoder_laws::emitted(t.actions),
        deeds: before.deeds + decoder_laws::step_deeds(t),
    }
}

proof fn lemma_joined_moves_on<T>(
    p: PassSoFar<T>,
    r: PassSoFar<T>,
    q: PassSoFar<T>,
    at: Seq<T>,
    result: ChunkResult,
)
    requires
        joined(p, r, q, at),
        !(r.t.d.pass is Idle),
        decoder_laws::sound(r.t.d),
        placed(r.t.d, at),
    ensures
        joined(p, moved_on(r, result), moved_on(q, result), at),
{
    let none = Seq::<T>::empty();
    let r2 = moved_on(r, result);
    let q2 = moved_on(q, result);
    lemma_resumed(r.t.d, at, none, r.t.next_id, result);
    decoder_laws::law_results_move_a_pass_on(r.t.d, r.t.next_id, result);
    if r2.t.d.pass is Idle {
        let speech = over_speech(r.t.d.pass);
        assert(r2.t.d.buffer + none =~= r2.t.d.buffer);
        assert(with_more(r2.t.d, none) == r2.t.d);
        let s = decoder::started(r2.t.d, r2.t.next_id, speech);
        assert(r2.t.d.buffer.skip(0) =~= r2.t.d.buffer);
        assert(s.d == r2.t.d && s.request is None);
    }
    assert(q2.t.d.pass == r2.t.d.pass);
    assert(decoder_laws::live_request(q2.t) == decoder_laws::live_request(r2.t));
    assert(decoder_laws::step_deeds(q2.t) == decoder_laws::step_deeds(r2.t));
    assert(q2.live =~= p.live + r2.live);
    assert(q2.heard =~= p.heard + r2.heard);
    assert(q2.deeds =~= p.deeds + r2.deeds);
}

/// Behind that, every further result does the same in both.
proof fn lemma_second_delivery<T>(
    d: DecoderView<T>,
    next_id: u64,
    speech: bool,
    more: Seq<T>,
    first: Seq<ChunkResult>,
    second: Seq<ChunkResult>,
)
    requires
        decoder_laws::sound(d),
        d.pass is Idle,
        ends_in_reach(d),
        decoder_laws::pass_so_far(d, next_id, speech, first).heard.len() == first.len(),
        decoder_laws::pass_so_far(d, next_id, speech, first).t.d.pass is Idle,
    ensures
        ({
            let p = decoder_laws::pass_so_far(d, next_id, speech, first);
            joined(
                p,
                decoder_laws::pass_so_far(with_more(p.t.d, more), p.t.next_id, speech, second),
                decoder_laws::pass_so_far(with_more(d, more), next_id, speech, first + second),
                taken(d, p.t.d),
            )
        }),
    decreases second.len(),
{
    let p = decoder_laws::pass_so_far(d, next_id, speech, first);
    let e = with_more(p.t.d, more);
    let at = taken(d, p.t.d);
    let r = decoder_laws::pass_so_far(e, p.t.next_id, speech, second);
    if second.len() == 0 {
        assert(first + second =~= first);
        lemma_first_delivery(d, next_id, speech, more, first);
        assert(p.heard + r.heard =~= p.heard);
    } else {
        let front = second.drop_last();
        assert((first + second).drop_last() =~= first + front);
        assert((first + second).last() == second.last());
        lemma_second_delivery(d, next_id, speech, more, first, front);
        let before = decoder_laws::pass_so_far(e, p.t.next_id, speech, front);
        let other = decoder_laws::pass_so_far(with_more(d, more), next_id, speech, first + front);
        if !(before.t.d.pass is Idle) {
            lemma_rest_is_sound(d, next_id, speech, more, first);
            lemma_ends_stay_gone(e, p.t.next_id, speech, front);
            decoder_laws::lemma_pass_on_track(e, p.t.next_id, speech, front);
            lemma_joined_moves_on(p, before, other, at, second.last());
            assert(r == moved_on(before, second.last()));
            assert(decoder_laws::pass_so_far(with_more(d, more), next_id, speech, first + second)
                == moved_on(other, second.last()));
        }
    }
}

/// What a finished pass leaves is fit for the next one, and where it took audio out,
/// no end is pending any more.
proof fn lemma_rest_is_sound<T>(
    d: DecoderView<T>,
    next_id: u64,
    speech: bool,
    more: Seq<T>,
    results: Seq<ChunkResult>,
)
    requires
        decoder_laws::sound(d),
        d.pass is Idle,
        ends_in_reach(d),
        decoder_laws::pass_so_far(d, next_id, speech, results).t.d.pass is Idle,
    ensures
        ({
            let after = decoder_laws::pass_so_far(d, next_id, speech, results).t.d;
            let e = with_more(after, more);
            &&& decoder_laws::sound(e)
            &&& e.pass is Idle
            &&& taken(d, after).len() == 0 || e.ends.len() == 0
        }),
{
    lemma_pass_ends(d, next_id, speech, results);
    decoder_laws::lemma_pass_on_track(d, next_id, speech, results);
}

/// A decoder without pending ends gets none in a pass.
proof fn lemma_ends_stay_gone<T>(
    d: DecoderView<T>,
    next_id: u64,
    speech: bool,
    results: Seq<ChunkResult>,
)
    requires
        decoder_laws::sound(d),
        d.pass is Idle,
    ensures
        ({
            let p = decoder_laws::pass_so_far(d, next_id, speech, results);
            &&& d.ends.len() == 0 ==> p.t.d.ends.len() == 0
        }),
{
    if d.ends.len() == 0 {
        lemma_pass_ends(d, next_id, speech, results);
    }
}

/// A delivery, and a pass that the model answers with `results`.
pub open spec fn in_one_drain<T>(
    w: Work<T>,
    audio: Seq<T>,
    speech: bool,
    results: Seq<ChunkResult>,
) -> Work<T> {
    decoder_laws::acted(
        decoder_laws::acted(w, Act::Push(audio)),
        Act::Pass { speech, results },
    )
}

/// Two deliveries, with a pass after each.
pub open spec fn in_two_drains<T>(
    w: Work<T>,
    audio: Seq<T>,
    more: Seq<T>,
    speech: bool,
    first: Seq<ChunkResult>,
    second: Seq<ChunkResult>,
) -> Work<T> {
    in_one_drain(in_one_drain(w, audio, speech, first), more, speech, second)
}

/// Where the capture buffer is drained does not matter. Two deliveries with a pass
/// after each, and one delivery of the same audio with one pass, leave the decoder in
/// the same state, and everything done on the way is the same, in the same order: the
/// chunks run, live and replayed, the model resets between them, and the updates. The
/// model answers the one pass as it answered the two, and speech is, or is not, being
/// heard throughout.
pub proof fn law_drain_boundaries_do_not_matter<T>(
    w: Work<T>,
    audio: Seq<T>,
    more: Seq<T>,
    speech: bool,
    first: Seq<ChunkResult>,
    second: Seq<ChunkResult>,
)
    requires
        decoder_laws::sound(w.d),
        w.d.pass is Idle,
        ends_in_reach(w.d),
        ({
            let p = decoder_laws::pass_so_far(
                DecoderView { buffer: w.d.buffer + audio, ..w.d },
                w.next_id,
                speech,
                first,
            );
            &&& p.t.d.pass is Idle
            &&& p.heard.len() == first.len()
        }),
        in_two_drains(w, audio, more, speech, first, second).d.pass is Idle,
    ensures
        in_two_drains(w, audio, more, speech, first, second) == in_one_drain(
            w,
            audio + more,
            speech,
            first + second,
        ),
{
    let d = with_more(w.d, audio);
    let p = decoder_laws::pass_so_far(d, w.next_id, speech, first);
    let e = with_more(p.t.d, more);
    let r = decoder_laws::pass_so_far(e, p.t.next_id, speech, second);
    let q = decoder_laws::pass_so_far(with_more(d, more), w.next_id, speech, first + second);
    let mid = in_one_drain(w, audio, speech, first);
    lemma_one_drain(w, audio, speech, first);
    lemma_one_drain(mid, more, speech, second);
    lemma_one_drain(w, audio + more, speech, first + second);
    assert((w.d.buffer + audio) + more =~= w.d.buffer + (audio + more));
    assert(with_more(d, more) == with_more(w.d, audio + more));
    assert forall|i: int| 0 <= i < d.ends.len() implies {
        &&& (#[trigger] d.ends[i]).reset_after_samples as int % d.chunk_size as int == 0
        &&& d.ends[i].reset_after_samples <= d.buffer.len()
    } by {
        assert(d.ends[i] == w.d.ends[i]);
    }
    lemma_passes_join(d, w.next_id, speech, more, first, second);
    lemma_work_joins(w, p, r, q, taken(d, p.t.d));
}

proof fn lemma_one_drain<T>(w: Work<T>, audio: Seq<T>, speech: bool, results: Seq<ChunkResult>)
    ensures
        in_one_drain(w, audio, speech, results) == joined_work(
            w,
            decoder_laws::pass_so_far(with_more(w.d, audio), w.next_id, speech, results),
        ),
{
}

proof fn lemma_work_joins<T>(
    w: Work<T>,
    p: PassSoFar<T>,
    r: PassSoFar<T>,
    q: PassSoFar<T>,
    at: Seq<T>,
)
    requires
        joined(p, r, q, at),
        r.t.d.pass is Idle,
        q.updates == p.updates + r.updates,
    ensures
        joined_work(joined_work(w, p), r) == joined_work(w, q),
{
    assert((w.live + p.live) + r.live =~= w.live + (p.live + r.live));
    assert((w.heard + p.heard) + r.heard =~= w.heard + (p.heard + r.heard));
    assert((w.updates + p.updates) + r.updates =~= w.updates + (p.updates + r.updates));
    assert((w.deeds + p.deeds) + r.deeds =~= w.deeds + (p.deeds + r.deeds));
}

spec fn joined_work<T>(w: Work<T>, p: PassSoFar<T>) -> Work<T> {
    Work {
        d: p.t.d,
        next_id: p.t.next_id,
        live: w.live + p.live,
        heard: w.heard + p.heard,
        updates: w.updates + p.updates,
        deeds: w.deeds + p.deeds,
    }
}

proof fn lemma_passes_join<T>(
    d: DecoderView<T>,
    next_id: u64,
    speech: bool,
    more: Seq<T>,
    first: Seq<ChunkResult>,
    second: Seq<ChunkResult>,
)
    requires
        decoder_laws::sound(d),
        d.pass is Idle,
        ends_in_reach(d),
        decoder_laws::pass_so_far(d, next_id, speech, first).heard.len() == first.len(),
        decoder_laws::pass_so_far(d, next_id, speech, first).t.d.pass is Idle,
    ensures
        ({
            let p = decoder_laws::pass_so_far(d, next_id, speech, first);
            let r = decoder_laws::pass_so_far(with_more(p.t.d, more), p.t.next_id, speech, second);
            let q = decoder_laws::pass_so_far(with_more(d, more), next_id, speech, first + second);
            &&& joined(p, r, q, taken(d, p.t.d))
            &&& q.updates == p.updates + r.updates
        }),
{
    let p = decoder_laws::pass_so_far(d, next_id, speech, first);
    let e = with_more(p.t.d, more);
    let r = decoder_laws::pass_so_far(e, p.t.next_id, speech, second);
    lemma_second_delivery(d, next_id, speech, more, first, second);
    decoder_laws::lemma_pass_transcript(d, next_id, speech, first);
    decoder_laws::lemma_pass_transcript(e, p.t.next_id, speech, second);
    decoder_laws::lemma_pass_transcript(with_more(d, more), next_id, speech, first + second);
    decoder_laws::lemma_transcript_add(next_id, p.heard, r.heard);
}

/// Pending ends stay in reach, whatever is done to a decoder whose passes are run to
/// their end. (The padded buffer must fit in memory.)
pub proof fn law_ends_stay_in_reach<T>(w: Work<T>, act: Act<T>)
    requires
        decoder_laws::sound(w.d),
        w.d.pass is Idle,
        ends_in_reach(w.d),
        decoder_laws::acted(w, act).d.pass is Idle,
        decoder_laws::acted(w, act).d.buffer.len() <= usize::MAX,
    ensures
        ends_in_reach(decoder_laws::acted(w, act).d),
{
    let after = decoder_laws::acted(w, act);
    let n = w.d.chunk_size as nat;
    match act {
        Act::Push(_) => {},
        Act::SpeechStart => {},
        Act::SpeechEnd { fill, .. } => {
            samples::law_padding_reaches_a_boundary(w.d.buffer, n, fill);
        },
        Act::Pass { speech, results } => {
            lemma_pass_ends(w.d, w.next_id, speech, results);
            decoder_laws::lemma_pass_on_track(w.d, w.next_id, speech, results);
        },
    }
}

} // verus!
