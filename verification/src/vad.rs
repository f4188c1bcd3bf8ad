//! Voice-activity decisions.
//!
//! The acoustic model that turns a frame into a speech probability lives
//! elsewhere; what is here takes the probabilities and decides, with two
//! thresholds and frame counting, where speech starts and ends. Audio from just
//! before an onset is kept in a ring buffer, so that the first syllable is not
//! lost.

use vstd::prelude::*;

use crate::bits::Single;
use crate::samples;

verus! {

pub const VAD_SAMPLE_RATE: u32 = 16_000;

pub const VAD_CHUNK_SIZE: usize = 512;

/// How long one frame of [`VAD_CHUNK_SIZE`] samples lasts.
pub const VAD_FRAME_MS: u32 = 32;

// ---------------------------------------------------------------------------
// Pre-speech ring buffer
// ---------------------------------------------------------------------------

/// Keeps the newest `capacity` samples.
pub struct PreSpeechRingBuffer<T> {
    data: Vec<T>,
    capacity: usize,
    write_pos: usize,
}

impl<T: Copy> View for PreSpeechRingBuffer<T> {
    type V = Seq<T>;

    /// The samples kept, oldest first.
    closed spec fn view(&self) -> Seq<T> {
        self.data@.skip(self.write_pos as int) + self.data@.take(self.write_pos as int)
    }
}

impl<T: Copy> PreSpeechRingBuffer<T> {
    pub closed spec fn wf(self) -> bool {
        &&& self.data@.len() <= self.capacity
        &&& self.data@.len() < self.capacity ==> self.write_pos == 0
        &&& self.write_pos == 0 || self.write_pos < self.capacity
    }

    pub closed spec fn limit(self) -> usize {
        self.capacity
    }

    pub fn new(capacity: usize) -> (r: Self)
        ensures
            r.wf(),
            r.limit() == capacity,
            r@ == Seq::<T>::empty(),
    {
        let r = PreSpeechRingBuffer { data: Vec::new(), capacity, write_pos: 0 };
        assert(r@ =~= Seq::<T>::empty());
        r
    }

    pub fn capacity(&self) -> (r: usize)
        ensures
            r == self.limit(),
    {
        self.capacity
    }

    /// Adds `samples`, forgetting the oldest ones beyond the capacity. A buffer
    /// without room takes only an empty slice.
    pub fn push_slice(&mut self, samples: &[T])
        requires
            old(self).wf(),
            old(self).limit() > 0 || samples@.len() == 0,
        ensures
            final(self).wf(),
            final(self).limit() == old(self).limit(),
            final(self)@ == samples::newest(old(self)@ + samples@, old(self).limit() as nat),
    {
        let ghost n = self.limit() as nat;
        let ghost before = self@;
        let mut i: usize = 0;
        assert(before + samples@.take(0) =~= before);
        while i < samples.len()
            invariant
                i <= samples@.len(),
                self.wf(),
                self.limit() == n,
                n > 0 || samples@.len() == 0,
                self@ == samples::newest(before + samples@.take(i as int), n),
            decreases samples@.len() - i,
        {
            let ghost held = self@;
            self.push(samples[i]);
            proof {
                samples::lemma_newest_add(
                    before + samples@.take(i as int),
                    seq![samples@[i as int]],
                    n,
                );
                assert(held.push(samples@[i as int]) =~= held + seq![samples@[i as int]]);
                assert(before + samples@.take(i as int) + seq![samples@[i as int]] =~= before
                    + samples@.take(i + 1));
            }
            i += 1;
        }
        assert(samples@.take(i as int) =~= samples@);
    }

    fn push(&mut self, sample: T)
        requires
            old(self).wf(),
            old(self).limit() > 0,
        ensures
            final(self).wf(),
            final(self).limit() == old(self).limit(),
            final(self)@ == samples::newest(old(self)@.push(sample), old(self).limit() as nat),
    {
        let ghost next = samples::newest(self@.push(sample), self.limit() as nat);
        if self.data.len() < self.capacity {
            self.data.push(sample);
            assert(self@ =~= next);
        } else {
            self.data.set(self.write_pos, sample);
            if self.write_pos + 1 == self.capacity {
                self.write_pos = 0;
            } else {
                self.write_pos = self.write_pos + 1;
            }
            assert(self@ =~= next);
        }
    }

    /// Drain all buffered samples in chronological order, reset the buffer.
    pub fn drain_all(&mut self) -> (out: Vec<T>)
        requires
            old(self).wf(),
        ensures
            final(self).wf(),
            final(self).limit() == old(self).limit(),
            final(self)@ == Seq::<T>::empty(),
            out@ == old(self)@,
    {
        let mut out = self.data.split_off(self.write_pos);
        out.append(&mut self.data);
        self.write_pos = 0;
        assert(self@ =~= Seq::<T>::empty());
        out
    }
}

// ---------------------------------------------------------------------------
// Decisions
// ---------------------------------------------------------------------------

#[derive(Debug, Clone, Copy, PartialEq, Eq, Structural)]
pub enum VadState {
    Silence,
    Speech,
}

#[derive(Debug)]
pub enum VadDecision<T> {
    /// Frame is silence; was buffered in ring buffer.
    Silence,
    /// Speech just started; ring buffer has been drained into `pre_speech_samples`.
    SpeechStarted { pre_speech_samples: Vec<T> },
    /// Speech continues; frame should be appended to the recognizer's buffer.
    SpeechContinues,
    /// Speech just ended; frame should be appended, then flush + reset.
    SpeechEnded,
}

/// What a [`VadDecision`] says.
#[verifier::ext_equal]
pub enum DecisionView<T> {
    Silence,
    SpeechStarted(Seq<T>),
    SpeechContinues,
    SpeechEnded,
}

impl<T> View for VadDecision<T> {
    type V = DecisionView<T>;

    open spec fn view(&self) -> DecisionView<T> {
        match *self {
            VadDecision::Silence => DecisionView::Silence,
            VadDecision::SpeechStarted { pre_speech_samples } => DecisionView::SpeechStarted(
                pre_speech_samples@,
            ),
            VadDecision::SpeechContinues => DecisionView::SpeechContinues,
            VadDecision::SpeechEnded => DecisionView::SpeechEnded,
        }
    }
}

/// What a [`VadStateMachine`] holds.
#[verifier::ext_equal]
pub struct VadView<T> {
    /// Samples kept from before a possible onset, oldest first.
    pub ring: Seq<T>,
    pub ring_capacity: usize,
    pub state: VadState,
    pub threshold_start: Single,
    pub threshold_end: Single,
    pub min_silence_frames: u32,
    pub min_speech_frames: u32,
    pub speech_frames: u32,
    pub silence_frames: u32,
}

/// One more frame, stopping at the largest count.
pub open spec fn counted(n: u32) -> u32 {
    if n == u32::MAX {
        n
    } else {
        (n + 1) as u32
    }
}

/// The probability reaches the threshold of the current state.
pub open spec fn heard<T>(v: VadView<T>, prob: Single) -> bool {
    match v.state {
        VadState::Silence => v.threshold_start.le_spec(prob),
        VadState::Speech => v.threshold_end.le_spec(prob),
    }
}

/// This frame opens a speech segment.
pub open spec fn opens<T>(v: VadView<T>, prob: Single) -> bool {
    v.state == VadState::Silence && heard(v, prob) && counted(v.speech_frames)
        >= v.min_speech_frames
}

/// The decision on a frame, and what is held after it.
pub open spec fn vad_step<T>(v: VadView<T>, prob: Single, frame: Seq<T>) -> (
    VadView<T>,
    DecisionView<T>,
) {
    let kept = samples::newest(v.ring + frame, v.ring_capacity as nat);
    match v.state {
        VadState::Silence => if opens(v, prob) {
            (
                VadView {
                    ring: Seq::empty(),
                    state: VadState::Speech,
                    speech_frames: counted(v.speech_frames),
                    silence_frames: 0,
                    ..v
                },
                DecisionView::SpeechStarted(v.ring),
            )
        } else if heard(v, prob) {
            (
                VadView {
                    ring: kept,
                    speech_frames: counted(v.speech_frames),
                    silence_frames: 0,
                    ..v
                },
                DecisionView::Silence,
            )
        } else {
            (
                VadView {
                    ring: kept,
                    speech_frames: if v.speech_frames == 0 {
                        0
                    } else {
                        (v.speech_frames - 1) as u32
                    },
                    silence_frames: counted(v.silence_frames),
                    ..v
                },
                DecisionView::Silence,
            )
        },
        VadState::Speech => if heard(v, prob) {
            (
                VadView { speech_frames: counted(v.speech_frames), silence_frames: 0, ..v },
                DecisionView::SpeechContinues,
            )
        } else if counted(v.silence_frames) >= v.min_silence_frames {
            (
                VadView {
                    state: VadState::Silence,
                    speech_frames: 0,
                    silence_frames: counted(v.silence_frames),
                    ..v
                },
                DecisionView::SpeechEnded,
            )
        } else {
            (
                VadView { speech_frames: 0, silence_frames: counted(v.silence_frames), ..v },
                DecisionView::SpeechContinues,
            )
        },
    }
}

/// Pure state machine for voice-activity decisions, decoupled from the acoustic
/// model. Takes speech probabilities as input and produces decisions based on
/// threshold hysteresis and frame counting.
pub struct VadStateMachine<T> {
    ring_buffer: PreSpeechRingBuffer<T>,
    state: VadState,
    threshold_start: Single,
    threshold_end: Single,
    min_silence_frames: u32,
    min_speech_frames: u32,
    speech_frame_count: u32,
    silence_frame_count: u32,
}

impl<T: Copy> View for VadStateMachine<T> {
    type V = VadView<T>;

    closed spec fn view(&self) -> VadView<T> {
        VadView {
            ring: self.ring_buffer@,
            ring_capacity: self.ring_buffer.limit(),
            state: self.state,
            threshold_start: self.threshold_start,
            threshold_end: self.threshold_end,
            min_silence_frames: self.min_silence_frames,
            min_speech_frames: self.min_speech_frames,
            speech_frames: self.speech_frame_count,
            silence_frames: self.silence_frame_count,
        }
    }
}

impl<T: Copy> VadStateMachine<T> {
    pub closed spec fn wf(self) -> bool {
        self.ring_buffer.wf()
    }

    /// Durations count in whole frames.
    pub fn new(
        threshold_start: Single,
        threshold_end: Single,
        min_silence_duration_ms: u32,
        min_speech_duration_ms: u32,
        pre_speech_ms: usize,
    ) -> (r: Self)
        requires
            VAD_SAMPLE_RATE * pre_speech_ms <= usize::MAX,
        ensures
            r.wf(),
            r@ == (VadView::<T> {
                ring: Seq::empty(),
                ring_capacity: (VAD_SAMPLE_RATE * pre_speech_ms / 1000) as usize,
                state: VadState::Silence,
                threshold_start,
                threshold_end,
                min_silence_frames: (min_silence_duration_ms / VAD_FRAME_MS) as u32,
                min_speech_frames: (min_speech_duration_ms / VAD_FRAME_MS) as u32,
                speech_frames: 0,
                silence_frames: 0,
            }),
    {
        let pre_speech_samples: usize = VAD_SAMPLE_RATE as usize * pre_speech_ms / 1000;
        VadStateMachine {
            ring_buffer: PreSpeechRingBuffer::new(pre_speech_samples),
            state: VadState::Silence,
            threshold_start,
            threshold_end,
            min_silence_frames: min_silence_duration_ms / VAD_FRAME_MS,
            min_speech_frames: min_speech_duration_ms / VAD_FRAME_MS,
            speech_frame_count: 0,
            silence_frame_count: 0,
        }
    }

    pub fn state(&self) -> (r: VadState)
        ensures
            r == self@.state,
    {
        self.state
    }

    /// Whether a frame of `len` samples can be processed: a machine without room
    /// before an onset takes only empty frames.
    pub fn accepts(&self, len: usize) -> (r: bool)
        ensures
            r == (self@.ring_capacity > 0 || len == 0),
    {
        self.ring_buffer.capacity() > 0 || len == 0
    }

    /// Reset the state machine for reuse.
    pub fn reset(&mut self)
        requires
            old(self).wf(),
        ensures
            final(self).wf(),
            final(self)@ == (VadView {
                ring: Seq::empty(),
                state: VadState::Silence,
                speech_frames: 0,
                silence_frames: 0,
                ..old(self)@
            }),
    {
        self.ring_buffer = PreSpeechRingBuffer::new(self.ring_buffer.capacity());
        self.state = VadState::Silence;
        self.speech_frame_count = 0;
        self.silence_frame_count = 0;
    }

    /// Update tunable parameters without resetting state.
    pub fn update_params(
        &mut self,
        threshold_start: Single,
        threshold_end: Single,
        min_silence_duration_ms: u32,
        min_speech_duration_ms: u32,
    )
        requires
            old(self).wf(),
        ensures
            final(self).wf(),
            final(self)@ == (VadView {
                threshold_start,
                threshold_end,
                min_silence_frames: (min_silence_duration_ms / VAD_FRAME_MS) as u32,
                min_speech_frames: (min_speech_duration_ms / VAD_FRAME_MS) as u32,
                ..old(self)@
            }),
    {
        self.threshold_start = threshold_start;
        self.threshold_end = threshold_end;
        self.min_silence_frames = min_silence_duration_ms / VAD_FRAME_MS;
        self.min_speech_frames = min_speech_duration_ms / VAD_FRAME_MS;
    }

    /// Process a frame given a speech probability. Returns the decision.
    /// The `frame` samples are only used for ring buffer storage during silence.
    pub fn process(&mut self, prob: Single, frame: &[T]) -> (decision: VadDecision<T>)
        requires
            old(self).wf(),
            old(self)@.state == VadState::Silence && !opens(old(self)@, prob) ==> old(
                self,
            )@.ring_capacity > 0 || frame@.len() == 0,
        ensures
            final(self).wf(),
            (final(self)@, decision@) == vad_step(old(self)@, prob, frame@),
    {
        let active_threshold = match self.state {
            VadState::Silence => self.threshold_start,
            VadState::Speech => self.threshold_end,
        };
        let is_speech = active_threshold.le(prob);
        match self.state {
            VadState::Silence => {
                if is_speech {
                    self.speech_frame_count = self.speech_frame_count.saturating_add(1);
                    self.silence_frame_count = 0;
                    if self.speech_frame_count >= self.min_speech_frames {
                        self.state = VadState::Speech;
                        let pre_speech_samples = self.ring_buffer.drain_all();
                        VadDecision::SpeechStarted { pre_speech_samples }
                    } else {
                        self.ring_buffer.push_slice(frame);
                        VadDecision::Silence
                    }
                } else {
                    // A single sub-threshold frame costs one frame of progress
                    // rather than all of it, which tolerates the brief dips that
                    // are common at an onset.
                    self.speech_frame_count = self.speech_frame_count.saturating_sub(1);
                    self.silence_frame_count = self.silence_frame_count.saturating_add(1);
                    self.ring_buffer.push_slice(frame);
                    VadDecision::Silence
                }
            },
            VadState::Speech => {
                if is_speech {
                    self.speech_frame_count = self.speech_frame_count.saturating_add(1);
                    self.silence_frame_count = 0;
                    VadDecision::SpeechContinues
                } else {
                    self.silence_frame_count = self.silence_frame_count.saturating_add(1);
                    self.speech_frame_count = 0;
                    if self.silence_frame_count >= self.min_silence_frames {
                        self.state = VadState::Silence;
                        VadDecision::SpeechEnded
                    } else {
                        VadDecision::SpeechContinues
                    }
                }
            },
        }
    }
}

// ---------------------------------------------------------------------------
// Laws
// ---------------------------------------------------------------------------

/// The machine after a run of frames, each with its probability.
pub open spec fn vad_run<T>(v: VadView<T>, frames: Seq<(Single, Seq<T>)>) -> VadView<T>
    decreases frames.len(),
{
    if frames.len() == 0 {
        v
    } else {
        vad_step(vad_run(v, frames.drop_last()), frames.last().0, frames.last().1).0
    }
}

/// The audio of a run of frames.
pub open spec fn audio_of<T>(frames: Seq<(Single, Seq<T>)>) -> Seq<T>
    decreases frames.len(),
{
    if frames.len() == 0 {
        Seq::empty()
    } else {
        audio_of(frames.drop_last()) + frames.last().1
    }
}

pub open spec fn all_heard<T>(threshold: Single, frames: Seq<(Single, Seq<T>)>) -> bool {
    forall|i: int| 0 <= i < frames.len() ==> threshold.le_spec((#[trigger] frames[i]).0)
}

pub open spec fn none_heard<T>(threshold: Single, frames: Seq<(Single, Seq<T>)>) -> bool {
    forall|i: int| 0 <= i < frames.len() ==> !threshold.le_spec((#[trigger] frames[i]).0)
}

/// Sustained speech opens a segment at its `min_speech_frames`-th frame (at the
/// first, if none are required) and not before.
pub proof fn law_sustained_speech_opens_a_segment<T>(
    v: VadView<T>,
    frames: Seq<(Single, Seq<T>)>,
)
    requires
        v.state == VadState::Silence,
        v.speech_frames == 0,
        all_heard(v.threshold_start, frames),
        frames.len() <= v.min_speech_frames || frames.len() <= 1,
    ensures
        ({
            let after = vad_run(v, frames);
            if frames.len() > 0 && frames.len() >= v.min_speech_frames {
                after.state == VadState::Speech
            } else {
                after.state == VadState::Silence && after.speech_frames == frames.len()
            }
        }),
        vad_run(v, frames).threshold_start == v.threshold_start,
        vad_run(v, frames).min_speech_frames == v.min_speech_frames,
    decreases frames.len(),
{
    if frames.len() > 0 {
        let before = frames.drop_last();
        assert forall|i: int| 0 <= i < before.len() implies v.threshold_start.le_spec(
            (#[trigger] before[i]).0,
        ) by {
            assert(before[i] == frames[i]);
        }
        assert(v.threshold_start.le_spec(frames[frames.len() - 1].0));
        law_sustained_speech_opens_a_segment(v, before);
    }
}

/// A pause ends a segment at its `min_silence_frames`-th frame (at the first, if
/// none are required); a shorter pause does not.
pub proof fn law_only_a_long_pause_ends_a_segment<T>(
    v: VadView<T>,
    frames: Seq<(Single, Seq<T>)>,
)
    requires
        v.state == VadState::Speech,
        v.silence_frames == 0,
        none_heard(v.threshold_end, frames),
        frames.len() <= v.min_silence_frames || frames.len() <= 1,
    ensures
        ({
            let after = vad_run(v, frames);
            if frames.len() > 0 && frames.len() >= v.min_silence_frames {
                after.state == VadState::Silence
            } else {
                after.state == VadState::Speech && after.silence_frames == frames.len()
            }
        }),
        vad_run(v, frames).threshold_end == v.threshold_end,
        vad_run(v, frames).min_silence_frames == v.min_silence_frames,
    decreases frames.len(),
{
    if frames.len() > 0 {
        let before = frames.drop_last();
        assert forall|i: int| 0 <= i < before.len() implies !v.threshold_end.le_spec(
            (#[trigger] before[i]).0,
        ) by {
            assert(before[i] == frames[i]);
        }
        assert(!v.threshold_end.le_spec(frames[frames.len() - 1].0));
        law_only_a_long_pause_ends_a_segment(v, before);
    }
}

/// Every frame of the run left the machine in silence.
pub open spec fn all_silent<T>(v: VadView<T>, frames: Seq<(Single, Seq<T>)>) -> bool {
    forall|i: int|
        0 <= i <= frames.len() ==> (#[trigger] vad_run(v, frames.take(i))).state
            == VadState::Silence
}

/// An onset loses nothing that the ring buffer had room for: through a run of
/// silent frames the buffer holds the newest audio, and that is what the frame
/// that opens a segment hands out.
pub proof fn law_onset_hands_out_the_newest_audio<T>(
    v: VadView<T>,
    frames: Seq<(Single, Seq<T>)>,
    prob: Single,
    frame: Seq<T>,
)
    requires
        v.ring == Seq::<T>::empty(),
        all_silent(v, frames),
    ensures
        ({
            let before = vad_run(v, frames);
            let (after, decision) = vad_step(before, prob, frame);
            &&& before.ring == samples::newest(audio_of(frames), v.ring_capacity as nat)
            &&& opens(before, prob) ==> decision == DecisionView::SpeechStarted(
                samples::newest(audio_of(frames), v.ring_capacity as nat),
            )
        }),
    decreases frames.len(),
{
    lemma_ring_holds_newest(v, frames);
    assert(frames.take(frames.len() as int) =~= frames);
}

proof fn lemma_ring_holds_newest<T>(v: VadView<T>, frames: Seq<(Single, Seq<T>)>)
    requires
        v.ring == Seq::<T>::empty(),
        all_silent(v, frames),
    ensures
        vad_run(v, frames).ring == samples::newest(audio_of(frames), v.ring_capacity as nat),
        vad_run(v, frames).ring_capacity == v.ring_capacity,
    decreases frames.len(),
{
    let n = v.ring_capacity as nat;
    if frames.len() == 0 {
        assert(samples::newest(Seq::<T>::empty(), n) =~= Seq::<T>::empty());
    } else {
        let before = frames.drop_last();
        assert forall|i: int| 0 <= i <= before.len() implies (#[trigger] vad_run(
            v,
            before.take(i),
        )).state == VadState::Silence by {
            assert(before.take(i) =~= frames.take(i));
        }
        lemma_ring_holds_newest(v, before);
        assert(frames.take(before.len() as int) =~= before);
        assert(frames.take(frames.len() as int) =~= frames);
        samples::lemma_newest_add(audio_of(before), frames.last().1, n);
    }
}

} // verus!
