//! What holds of every run of the voice-activity state machine.
//!
//! The laws speak of the frames that went in and the decisions that came out: which
//! frames open a segment, which frames end it, and which audio an onset hands out.

use vstd::prelude::*;

use crate::bits::Single;
use crate::samples;
use crate::vad;
use crate::vad::DecisionView;
use crate::vad::VadState;
use crate::vad::VadView;

verus! {

/// The state in which frame `i` is judged.
pub open spec fn state_before<T>(v: VadView<T>, frames: Seq<(Single, Seq<T>)>, i: int) -> VadState {
    vad::vad_run(v, frames.take(i)).state
}

/// The decision on frame `i`.
pub open spec fn decision_on<T>(
    v: VadView<T>,
    frames: Seq<(Single, Seq<T>)>,
    i: int,
) -> DecisionView<T> {
    vad::vad_step(vad::vad_run(v, frames.take(i)), frames[i].0, frames[i].1).1
}

/// The frames from `from` up to `to` are all judged in `state`.
pub open spec fn stays<T>(
    v: VadView<T>,
    frames: Seq<(Single, Seq<T>)>,
    state: VadState,
    from: int,
    to: int,
) -> bool {
    forall|j: int| from <= j < to ==> #[trigger] state_before(v, frames, j) == state
}

/// Frame `i` reaches the threshold.
pub open spec fn reaches<T>(threshold: Single, frames: Seq<(Single, Seq<T>)>, i: int) -> bool {
    threshold.le_spec(frames[i].0)
}

/// No frame from `from` up to `to` reaches the threshold.
pub open spec fn below<T>(
    threshold: Single,
    frames: Seq<(Single, Seq<T>)>,
    from: int,
    to: int,
) -> bool {
    forall|j: int| from <= j < to ==> !#[trigger] reaches(threshold, frames, j)
}

/// By how many the frames that reach the threshold outnumber the others, from `from`
/// up to `to`.
pub open spec fn excess<T>(
    threshold: Single,
    frames: Seq<(Single, Seq<T>)>,
    from: int,
    to: int,
) -> int
    decreases to - from,
{
    if to <= from {
        0
    } else if reaches(threshold, frames, to - 1) {
        excess(threshold, frames, from, to - 1) + 1
    } else {
        excess(threshold, frames, from, to - 1) - 1
    }
}

/// A machine that has heard nothing yet.
pub open spec fn unheard<T>(v: VadView<T>) -> bool {
    &&& v.state == VadState::Silence
    &&& v.speech_frames == 0
    &&& v.ring == Seq::<T>::empty()
}

/// Frame `k` is the first one of a silence.
pub open spec fn silence_begins<T>(v: VadView<T>, frames: Seq<(Single, Seq<T>)>, k: int) -> bool {
    k == 0 || state_before(v, frames, k - 1) == VadState::Speech
}

/// The count of silent frames, while in speech: the run of frames behind the last one
/// that was heard, or behind the onset.
spec fn pause_counted<T>(v: VadView<T>, frames: Seq<(Single, Seq<T>)>, i: int) -> bool {
    let s = vad::vad_run(v, frames.take(i)).silence_frames as int;
    &&& s < i
    &&& stays(v, frames, VadState::Speech, i - s, i)
    &&& below(v.threshold_end, frames, i - s, i)
    &&& state_before(v, frames, i - s - 1) == VadState::Silence || reaches(
        v.threshold_end,
        frames,
        i - s - 1,
    )
}

/// The count of heard frames, while in silence: the largest excess over any stretch of
/// this silence that ends here, reached from `from` on.
spec fn speech_counted<T>(
    v: VadView<T>,
    frames: Seq<(Single, Seq<T>)>,
    i: int,
    from: int,
) -> bool {
    let c = vad::vad_run(v, frames.take(i)).speech_frames as int;
    &&& c <= i
    &&& 0 <= from <= i
    &&& stays(v, frames, VadState::Silence, from, i)
    &&& excess(v.threshold_start, frames, from, i) == c
    &&& forall|j: int|
        #![trigger excess(v.threshold_start, frames, j, i)]
        0 <= j <= i && stays(v, frames, VadState::Silence, j, i) ==> excess(
            v.threshold_start,
            frames,
            j,
            i,
        ) <= c
}

/// The ring buffer, while in silence: the newest audio of this silence.
spec fn ring_kept<T>(v: VadView<T>, frames: Seq<(Single, Seq<T>)>, i: int) -> bool {
    forall|k: int|
        #![trigger frames.subrange(k, i)]
        0 <= k <= i && silence_begins(v, frames, k) && stays(v, frames, VadState::Silence, k, i)
            ==> vad::vad_run(v, frames.take(i)).ring == samples::newest(
            vad::audio_of(frames.subrange(k, i)),
            v.ring_capacity as nat,
        )
}

spec fn settings_kept<T>(v: VadView<T>, u: VadView<T>) -> bool {
    &&& u.threshold_start == v.threshold_start
    &&& u.threshold_end == v.threshold_end
    &&& u.min_silence_frames == v.min_silence_frames
    &&& u.min_speech_frames == v.min_speech_frames
    &&& u.ring_capacity == v.ring_capacity
}

proof fn lemma_next<T>(v: VadView<T>, frames: Seq<(Single, Seq<T>)>, i: int)
    requires
        0 <= i < frames.len(),
    ensures
        vad::vad_run(v, frames.take(i + 1)) == vad::vad_step(
            vad::vad_run(v, frames.take(i)),
            frames[i].0,
            frames[i].1,
        ).0,
{
    assert(frames.take(i + 1).drop_last() =~= frames.take(i));
    assert(frames.take(i + 1).last() == frames[i]);
}

proof fn lemma_settings_kept<T>(v: VadView<T>, frames: Seq<(Single, Seq<T>)>, i: int)
    requires
        0 <= i <= frames.len(),
    ensures
        settings_kept(v, vad::vad_run(v, frames.take(i))),
    decreases i,
{
    if i > 0 {
        lemma_settings_kept(v, frames, i - 1);
        lemma_next(v, frames, i - 1);
    }
}

proof fn lemma_pause_counted<T>(v: VadView<T>, frames: Seq<(Single, Seq<T>)>, i: int)
    requires
        v.state == VadState::Silence,
        frames.len() < u32::MAX,
        0 <= i <= frames.len(),
    ensures
        state_before(v, frames, i) == VadState::Speech ==> pause_counted(v, frames, i),
    decreases i,
{
    if i > 0 {
        lemma_pause_counted(v, frames, i - 1);
        lemma_settings_kept(v, frames, i - 1);
        lemma_next(v, frames, i - 1);
        let u = vad::vad_run(v, frames.take(i - 1));
        let s = u.silence_frames as int;
        if state_before(v, frames, i) == VadState::Speech {
            if u.state == VadState::Speech && !reaches(v.threshold_end, frames, i - 1) {
                assert(vad::vad_run(v, frames.take(i)).silence_frames == s + 1);
                assert(stays(v, frames, VadState::Speech, i - (s + 1), i));
                assert(below(v.threshold_end, frames, i - (s + 1), i));
            } else {
                assert(vad::vad_run(v, frames.take(i)).silence_frames == 0);
            }
        }
    } else {
        assert(frames.take(0) =~= Seq::<(Single, Seq<T>)>::empty());
    }
}

/// In speech a frame that reaches the end threshold sets the count of silent frames to
/// zero, and the segment goes on.
pub proof fn law_a_heard_frame_ends_a_pause<T>(v: VadView<T>, prob: Single, frame: Seq<T>)
    requires
        v.state == VadState::Speech,
        v.threshold_end.le_spec(prob),
    ensures
        vad::vad_step(v, prob, frame).0.silence_frames == 0,
        vad::vad_step(v, prob, frame).0.state == VadState::Speech,
        vad::vad_step(v, prob, frame).1 is SpeechContinues,
{
}

/// A segment ends at a frame exactly if that frame closes a run of
/// `min_silence_frames` frames in a row (of one, where none are required), all judged
/// in this segment and all below the end threshold. One frame that reaches the
/// threshold is enough for the run to start over.
pub proof fn law_a_segment_ends_with_an_unbroken_pause<T>(
    v: VadView<T>,
    frames: Seq<(Single, Seq<T>)>,
    i: int,
)
    requires
        v.state == VadState::Silence,
        frames.len() < u32::MAX,
        0 <= i < frames.len(),
    ensures
        ({
            let run = if v.min_silence_frames == 0 {
                1int
            } else {
                v.min_silence_frames as int
            };
            decision_on(v, frames, i) is SpeechEnded <==> {
                &&& run <= i + 1
                &&& stays(v, frames, VadState::Speech, i + 1 - run, i + 1)
                &&& below(v.threshold_end, frames, i + 1 - run, i + 1)
            }
        }),
{
    let run = if v.min_silence_frames == 0 {
        1int
    } else {
        v.min_silence_frames as int
    };
    lemma_pause_counted(v, frames, i);
    lemma_settings_kept(v, frames, i);
    let u = vad::vad_run(v, frames.take(i));
    let s = u.silence_frames as int;
    if decision_on(v, frames, i) is SpeechEnded {
        assert(u.state == VadState::Speech);
        assert(!reaches(v.threshold_end, frames, i));
        assert(s + 1 >= run);
    }
    if run <= i + 1 && stays(v, frames, VadState::Speech, i + 1 - run, i + 1) && below(
        v.threshold_end,
        frames,
        i + 1 - run,
        i + 1,
    ) {
        assert(state_before(v, frames, i) == VadState::Speech);
        assert(!reaches(v.threshold_end, frames, i));
        if s + 1 < run {
            assert(state_before(v, frames, i - s - 1) == VadState::Speech);
            assert(!reaches(v.threshold_end, frames, i - s - 1));
            assert(false);
        }
    }
}

proof fn lemma_speech_counted<T>(
    v: VadView<T>,
    frames: Seq<(Single, Seq<T>)>,
    i: int,
) -> (from: int)
    requires
        unheard(v),
        frames.len() < u32::MAX,
        0 <= i <= frames.len(),
    ensures
        state_before(v, frames, i) == VadState::Silence ==> speech_counted(v, frames, i, from),
    decreases i,
{
    if i == 0 {
        assert(frames.take(0) =~= Seq::<(Single, Seq<T>)>::empty());
        0
    } else {
        let before = lemma_speech_counted(v, frames, i - 1);
        lemma_settings_kept(v, frames, i - 1);
        lemma_next(v, frames, i - 1);
        let u = vad::vad_run(v, frames.take(i - 1));
        let c = u.speech_frames as int;
        let after = vad::vad_run(v, frames.take(i)).speech_frames as int;
        if state_before(v, frames, i) == VadState::Silence {
            if u.state == VadState::Speech {
                assert(after == 0);
                assert forall|j: int|
                    #![trigger excess(v.threshold_start, frames, j, i)]
                    0 <= j <= i && stays(v, frames, VadState::Silence, j, i) implies excess(
                    v.threshold_start,
                    frames,
                    j,
                    i,
                ) <= 0 by {
                    if j < i {
                        assert(state_before(v, frames, i - 1) == VadState::Silence);
                    }
                }
                i
            } else {
                let from = if after == 0 && c == 0 {
                    i
                } else {
                    before
                };
                assert forall|j: int|
                    #![trigger excess(v.threshold_start, frames, j, i)]
                    0 <= j <= i && stays(v, frames, VadState::Silence, j, i) implies excess(
                    v.threshold_start,
                    frames,
                    j,
                    i,
                ) <= after by {
                    if j < i {
                        assert(stays(v, frames, VadState::Silence, j, i - 1));
                        assert(excess(v.threshold_start, frames, j, i - 1) <= c);
                    }
                }
                assert(stays(v, frames, VadState::Silence, from, i));
                from
            }
        } else {
            i
        }
    }
}

/// A segment opens at a frame exactly if the frame is judged in silence, reaches the
/// start threshold, and closes a stretch of this silence in which the frames that
/// reach the threshold outnumber the others by `min_speech_frames`. Single frames
/// below the threshold only take one off; they do not start the count over.
pub proof fn law_a_segment_opens_with_enough_speech<T>(
    v: VadView<T>,
    frames: Seq<(Single, Seq<T>)>,
    i: int,
)
    requires
        unheard(v),
        frames.len() < u32::MAX,
        0 <= i < frames.len(),
    ensures
        decision_on(v, frames, i) is SpeechStarted <==> {
            &&& state_before(v, frames, i) == VadState::Silence
            &&& reaches(v.threshold_start, frames, i)
            &&& exists|j: int|
                #![trigger excess(v.threshold_start, frames, j, i + 1)]
                0 <= j <= i && stays(v, frames, VadState::Silence, j, i + 1) && excess(
                    v.threshold_start,
                    frames,
                    j,
                    i + 1,
                ) >= v.min_speech_frames
        },
{
    let from = lemma_speech_counted(v, frames, i);
    lemma_settings_kept(v, frames, i);
    let u = vad::vad_run(v, frames.take(i));
    if decision_on(v, frames, i) is SpeechStarted {
        assert(stays(v, frames, VadState::Silence, from, i + 1));
        assert(excess(v.threshold_start, frames, from, i + 1) == u.speech_frames + 1);
    }
    if state_before(v, frames, i) == VadState::Silence && reaches(v.threshold_start, frames, i)
        && exists|j: int|
        #![trigger excess(v.threshold_start, frames, j, i + 1)]
        0 <= j <= i && stays(v, frames, VadState::Silence, j, i + 1) && excess(
            v.threshold_start,
            frames,
            j,
            i + 1,
        ) >= v.min_speech_frames {
        let j = choose|j: int|
            #![trigger excess(v.threshold_start, frames, j, i + 1)]
            0 <= j <= i && stays(v, frames, VadState::Silence, j, i + 1) && excess(
                v.threshold_start,
                frames,
                j,
                i + 1,
            ) >= v.min_speech_frames;
        assert(stays(v, frames, VadState::Silence, j, i));
        assert(excess(v.threshold_start, frames, j, i) <= u.speech_frames);
    }
}

/// The decisions tell the state: a segment is under way behind a frame exactly if the
/// frame was said to start or to continue one, onsets come only in silence, and ends
/// and continuations only in speech.
pub proof fn law_decisions_tell_the_state<T>(
    v: VadView<T>,
    frames: Seq<(Single, Seq<T>)>,
    i: int,
)
    requires
        0 <= i < frames.len(),
    ensures
        ({
            let decision = decision_on(v, frames, i);
            &&& (state_before(v, frames, i + 1) == VadState::Speech) == (decision is SpeechStarted
                || decision is SpeechContinues)
            &&& (state_before(v, frames, i) == VadState::Silence) == (decision is SpeechStarted
                || decision is Silence)
        }),
{
    lemma_next(v, frames, i);
}

proof fn lemma_audio_push<T>(frames: Seq<(Single, Seq<T>)>, k: int, i: int)
    requires
        0 <= k <= i < frames.len(),
    ensures
        vad::audio_of(frames.subrange(k, i + 1)) == vad::audio_of(frames.subrange(k, i))
            + frames[i].1,
{
    assert(frames.subrange(k, i + 1).drop_last() =~= frames.subrange(k, i));
    assert(frames.subrange(k, i + 1).last() == frames[i]);
}

proof fn lemma_ring_kept<T>(v: VadView<T>, frames: Seq<(Single, Seq<T>)>, i: int)
    requires
        unheard(v),
        0 <= i <= frames.len(),
    ensures
        state_before(v, frames, i) == VadState::Silence ==> ring_kept(v, frames, i),
        state_before(v, frames, i) == VadState::Speech ==> vad::vad_run(
            v,
            frames.take(i),
        ).ring == Seq::<T>::empty(),
    decreases i,
{
    let n = v.ring_capacity as nat;
    assert(samples::newest(Seq::<T>::empty(), n) =~= Seq::<T>::empty());
    if i == 0 {
        assert(frames.take(0) =~= Seq::<(Single, Seq<T>)>::empty());
        assert(frames.subrange(0, 0) =~= Seq::<(Single, Seq<T>)>::empty());
    } else {
        lemma_ring_kept(v, frames, i - 1);
        lemma_settings_kept(v, frames, i - 1);
        lemma_next(v, frames, i - 1);
        let u = vad::vad_run(v, frames.take(i - 1));
        if state_before(v, frames, i) == VadState::Silence {
            assert forall|k: int|
                #![trigger frames.subrange(k, i)]
                0 <= k <= i && silence_begins(v, frames, k) && stays(
                    v,
                    frames,
                    VadState::Silence,
                    k,
                    i,
                ) implies vad::vad_run(v, frames.take(i)).ring == samples::newest(
                vad::audio_of(frames.subrange(k, i)),
                n,
            ) by {
                if k == i {
                    assert(u.state == VadState::Speech);
                    assert(frames.subrange(i, i) =~= Seq::<(Single, Seq<T>)>::empty());
                } else {
                    assert(state_before(v, frames, i - 1) == VadState::Silence);
                    assert(stays(v, frames, VadState::Silence, k, i - 1));
                    let audio = vad::audio_of(frames.subrange(k, i - 1));
                    assert(u.ring == samples::newest(audio, n));
                    lemma_audio_push(frames, k, i - 1);
                    samples::lemma_newest_add(audio, frames[i - 1].1, n);
                }
            }
        }
    }
}

/// Every onset hands out the newest audio of the silence before it, up to the ring
/// buffer's capacity: all of it that fits, nothing from an earlier segment, and not
/// the frame that opened this one.
pub proof fn law_every_onset_hands_out_its_silence<T>(
    v: VadView<T>,
    frames: Seq<(Single, Seq<T>)>,
    k: int,
    i: int,
)
    requires
        unheard(v),
        0 <= k <= i < frames.len(),
        silence_begins(v, frames, k),
        stays(v, frames, VadState::Silence, k, i + 1),
        decision_on(v, frames, i) is SpeechStarted,
    ensures
        decision_on(v, frames, i) == DecisionView::SpeechStarted(
            samples::newest(
                vad::audio_of(frames.subrange(k, i)),
                v.ring_capacity as nat,
            ),
        ),
{
    lemma_ring_kept(v, frames, i);
    assert(stays(v, frames, VadState::Silence, k, i));
    assert(state_before(v, frames, i) == VadState::Silence);
    let _ = frames.subrange(k, i);
}

} // verus!
