//! Driving a streaming, append-only recognizer chunk by chunk.
//!
//! Audio is buffered and cut into fixed-size chunks. Whoever owns the model runs
//! it on the chunk that a [`Step`] asks for and hands the result back; the
//! decoder decides what to log, what to emit, when to reset the model, and which
//! chunk comes next. Three rules reset the model:
//!
//! * **Punctuation**: text that ends a sentence gives the model a clean slate.
//! * **Stuck decoder**: so many empty results in a row during speech reset the
//!   model, and the recent speech chunks are run through it once more.
//! * **Speech end**: once the audio of a closed speech segment is consumed.

use std::collections::VecDeque;
use vstd::prelude::*;

use crate::asr;
use crate::asr::SegmentIds;
use crate::asr::TranscriptUpdate;
use crate::asr::UpdateView;
use crate::samples;
use crate::text;

verus! {

// ---------------------------------------------------------------------------
// Replay buffer
// ---------------------------------------------------------------------------

/// Recent chunks kept so that they can be re-run through a freshly reset model.
pub struct ReplayBuffer<T> {
    chunks: VecDeque<Vec<T>>,
    max_chunks: usize,
}

/// The contents of a list of chunks.
pub open spec fn chunk_list<T>(v: Seq<Vec<T>>) -> Seq<Seq<T>> {
    Seq::new(v.len(), |i: int| v[i]@)
}

impl<T: Copy> ReplayBuffer<T> {
    /// The chunks kept, oldest first.
    pub closed spec fn kept(self) -> Seq<Seq<T>> {
        chunk_list(self.chunks@)
    }

    pub closed spec fn capacity(self) -> usize {
        self.max_chunks
    }

    pub fn new(max_chunks: usize) -> (r: Self)
        ensures
            r.kept() == Seq::<Seq<T>>::empty(),
            r.capacity() == max_chunks,
    {
        let r = ReplayBuffer { chunks: VecDeque::new(), max_chunks };
        assert(r.kept() =~= Seq::<Seq<T>>::empty());
        r
    }

    /// Changes how many chunks are kept, dropping the oldest ones beyond it.
    pub fn update_capacity(&mut self, max_chunks: usize)
        ensures
            final(self).capacity() == max_chunks,
            final(self).kept() == samples::newest(old(self).kept(), max_chunks as nat),
    {
        self.max_chunks = max_chunks;
        self.truncate_to_capacity();
    }

    /// Keeps a copy of `chunk`, dropping the oldest chunk if that is one too many.
    pub fn push(&mut self, chunk: &[T])
        requires
            old(self).kept().len() <= old(self).capacity(),
        ensures
            final(self).capacity() == old(self).capacity(),
            final(self).kept() == samples::newest(
                old(self).kept().push(chunk@),
                old(self).capacity() as nat,
            ),
    {
        if self.max_chunks == 0 {
            assert(samples::newest(self.kept().push(chunk@), 0) =~= self.kept());
            return;
        }
        self.chunks.push_back(samples::copy_all(chunk));
        assert(self.kept() =~= old(self).kept().push(chunk@));
        self.truncate_to_capacity();
    }

    pub fn clear(&mut self)
        ensures
            final(self).capacity() == old(self).capacity(),
            final(self).kept() == Seq::<Seq<T>>::empty(),
    {
        self.chunks.clear();
        assert(self.kept() =~= Seq::<Seq<T>>::empty());
    }

    /// A copy of the chunks kept, oldest first.
    pub fn snapshot(&self) -> (r: Vec<Vec<T>>)
        ensures
            chunk_list(r@) == self.kept(),
    {
        let mut r: Vec<Vec<T>> = Vec::new();
        let mut i: usize = 0;
        while i < self.chunks.len()
            invariant
                i <= self.chunks@.len(),
                chunk_list(r@) == self.kept().take(i as int),
            decreases self.chunks@.len() - i,
        {
            let ghost before = r@;
            let chunk: &Vec<T> = &self.chunks[i];
            assert(chunk@ == self.kept()[i as int]);
            r.push(samples::copy_all(chunk.as_slice()));
            i += 1;
            assert(chunk_list(r@) =~= chunk_list(before).push(self.kept()[i - 1]));
            assert(chunk_list(r@) =~= self.kept().take(i as int));
        }
        assert(self.kept().take(i as int) == self.kept());
        r
    }

    fn truncate_to_capacity(&mut self)
        ensures
            final(self).capacity() == old(self).capacity(),
            final(self).kept() == samples::newest(
                old(self).kept(),
                old(self).capacity() as nat,
            ),
    {
        while self.chunks.len() > self.max_chunks
            invariant
                self.max_chunks == old(self).max_chunks,
                samples::newest(self.kept(), self.max_chunks as nat) == samples::newest(
                    old(self).kept(),
                    self.max_chunks as nat,
                ),
            decreases self.chunks@.len(),
        {
            let ghost before = self.kept();
            let _ = self.chunks.pop_front();
            assert(self.kept() =~= before.skip(1));
            assert(samples::newest(self.kept(), self.max_chunks as nat) =~= samples::newest(
                before,
                self.max_chunks as nat,
            ));
        }
    }
}

// ---------------------------------------------------------------------------
// What goes in and what comes out
// ---------------------------------------------------------------------------

/// Where a chunk came from.
#[derive(Clone, Copy, Debug, PartialEq, Eq, Structural)]
pub enum ChunkSource {
    Live,
    Replay,
}

/// A closed speech segment whose model reset waits for its audio.
#[derive(Clone, Copy, Debug, PartialEq, Eq, Structural)]
pub struct PendingSpeechEndReset {
    pub reset_after_samples: usize,
    pub uptime_ms: i64,
    pub speech_duration_ms: i64,
}

/// What the model made of one chunk: its text, or why it failed.
#[derive(Debug)]
pub struct ChunkResult {
    pub text: Result<String, String>,
    pub inference_ms: u64,
    pub uptime_ms: i64,
}

/// Something for the owner of the model to do, in order.
#[derive(Debug)]
pub enum DecoderAction {
    LogTranscribe {
        uptime_ms: i64,
        chunk_num: u64,
        inference_ms: u64,
        /// Samples in the buffer, and how many of them are consumed.
        buffered: usize,
        consumed: usize,
        is_empty: bool,
        preview: String,
        speech: bool,
        source: ChunkSource,
    },
    LogError {
        uptime_ms: i64,
        chunk_num: u64,
        inference_ms: u64,
        message: String,
        speech: bool,
        source: ChunkSource,
    },
    LogPunctuationReset { uptime_ms: i64, consecutive_empty: u32, chunks_since_reset: u64 },
    LogMidSpeechReset {
        uptime_ms: i64,
        consecutive_empty: u32,
        chunks_since_reset: u64,
        replay_chunks: u64,
        replay_nonempty_chunks: u64,
        replay_inference_ms: u64,
    },
    LogSpeechEnd { end: PendingSpeechEndReset, consecutive_empty: u32, chunks_since_reset: u64 },
    ResetModel,
    Emit(TranscriptUpdate),
}

/// What a [`DecoderAction`] says.
#[verifier::ext_equal]
pub enum ActionView {
    LogTranscribe {
        uptime_ms: i64,
        chunk_num: u64,
        inference_ms: u64,
        buffered: int,
        consumed: int,
        is_empty: bool,
        preview: Seq<char>,
        speech: bool,
        source: ChunkSource,
    },
    LogError {
        uptime_ms: i64,
        chunk_num: u64,
        inference_ms: u64,
        message: Seq<char>,
        speech: bool,
        source: ChunkSource,
    },
    LogPunctuationReset { uptime_ms: i64, consecutive_empty: u32, chunks_since_reset: u64 },
    LogMidSpeechReset {
        uptime_ms: i64,
        consecutive_empty: u32,
        chunks_since_reset: u64,
        replay_chunks: u64,
        replay_nonempty_chunks: u64,
        replay_inference_ms: u64,
    },
    LogSpeechEnd { end: PendingSpeechEndReset, consecutive_empty: u32, chunks_since_reset: u64 },
    ResetModel,
    Emit(UpdateView),
}

impl View for DecoderAction {
    type V = ActionView;

    open spec fn view(&self) -> ActionView {
        match *self {
            DecoderAction::LogTranscribe {
                uptime_ms,
                chunk_num,
                inference_ms,
                buffered,
                consumed,
                is_empty,
                preview,
                speech,
                source,
            } => ActionView::LogTranscribe {
                uptime_ms,
                chunk_num,
                inference_ms,
                buffered: buffered as int,
                consumed: consumed as int,
                is_empty,
                preview: preview@,
                speech,
                source,
            },
            DecoderAction::LogError {
                uptime_ms,
                chunk_num,
                inference_ms,
                message,
                speech,
                source,
            } => ActionView::LogError {
                uptime_ms,
                chunk_num,
                inference_ms,
                message: message@,
                speech,
                source,
            },
            DecoderAction::LogPunctuationReset {
                uptime_ms,
                consecutive_empty,
                chunks_since_reset,
            } => ActionView::LogPunctuationReset {
                uptime_ms,
                consecutive_empty,
                chunks_since_reset,
            },
            DecoderAction::LogMidSpeechReset {
                uptime_ms,
                consecutive_empty,
                chunks_since_reset,
                replay_chunks,
                replay_nonempty_chunks,
                replay_inference_ms,
            } => ActionView::LogMidSpeechReset {
                uptime_ms,
                consecutive_empty,
                chunks_since_reset,
                replay_chunks,
                replay_nonempty_chunks,
                replay_inference_ms,
            },
            DecoderAction::LogSpeechEnd { end, consecutive_empty, chunks_since_reset } => {
                ActionView::LogSpeechEnd { end, consecutive_empty, chunks_since_reset }
            },
            DecoderAction::ResetModel => ActionView::ResetModel,
            DecoderAction::Emit(update) => ActionView::Emit(update@),
        }
    }
}

pub open spec fn actions_view(v: Seq<DecoderAction>) -> Seq<ActionView> {
    Seq::new(v.len(), |i: int| v[i]@)
}

/// What to do now, in order, and which chunk to run through the model after
/// that. Without a chunk the pass is over.
pub struct Step<T> {
    pub actions: Vec<DecoderAction>,
    pub request: Option<Vec<T>>,
}

// ---------------------------------------------------------------------------
// The machine
// ---------------------------------------------------------------------------

/// What the decoder is waiting for.
#[verifier::ext_equal]
pub enum PassView<T> {
    /// Nothing: no pass is under way.
    Idle,
    /// The result of the live chunk that ends at `consumed`.
    Live { speech: bool },
    /// The result of a replayed chunk; `queue` are the chunks still to replay.
    Replaying {
        speech: bool,
        queue: Seq<Seq<T>>,
        uptime_ms: i64,
        consecutive_empty: u32,
        chunks_since_reset: u64,
        replay_chunks: u64,
        nonempty: u64,
        inference_ms: u64,
    },
}

/// What a [`ChunkDecoder`] holds.
#[verifier::ext_equal]
pub struct DecoderView<T> {
    pub buffer: Seq<T>,
    pub chunk_size: usize,
    /// How many samples of `buffer` this pass has consumed.
    pub consumed: int,
    pub chunk_num: u64,
    pub consecutive_empty: u32,
    pub chunks_since_reset: u64,
    pub punctuation_reset: bool,
    pub empty_reset_threshold: u32,
    pub replay: Seq<Seq<T>>,
    pub replay_capacity: usize,
    pub ends: Seq<PendingSpeechEndReset>,
    pub pass: PassView<T>,
}

/// A decoder part-way through one step.
#[verifier::ext_equal]
pub struct Turn<T> {
    pub d: DecoderView<T>,
    pub next_id: u64,
    pub actions: Seq<ActionView>,
    pub request: Option<Seq<T>>,
}

/// One more, stopping at the largest value.
pub open spec fn bump(n: u64) -> u64 {
    if n == u64::MAX {
        n
    } else {
        (n + 1) as u64
    }
}

pub open spec fn bump32(n: u32) -> u32 {
    if n == u32::MAX {
        n
    } else {
        (n + 1) as u32
    }
}

pub open spec fn capped_sum(a: u64, b: u64) -> u64 {
    if a + b > u64::MAX {
        u64::MAX
    } else {
        (a + b) as u64
    }
}

/// The model starts over: counters at zero, nothing to replay.
pub open spec fn restarted<T>(d: DecoderView<T>) -> DecoderView<T> {
    DecoderView {
        consecutive_empty: 0,
        chunks_since_reset: 0,
        replay: Seq::empty(),
        ..d
    }
}

/// Asks for the next whole chunk; without one the pass is over and the consumed
/// samples leave the buffer.
pub open spec fn asking<T>(t: Turn<T>, speech: bool) -> Turn<T> {
    let d = t.d;
    if d.buffer.len() - d.consumed >= d.chunk_size {
        let chunk = d.buffer.subrange(d.consumed, d.consumed + d.chunk_size);
        Turn {
            d: DecoderView {
                consumed: d.consumed + d.chunk_size,
                chunks_since_reset: bump(d.chunks_since_reset),
                replay: if speech {
                    samples::newest(d.replay.push(chunk), d.replay_capacity as nat)
                } else {
                    d.replay
                },
                pass: PassView::Live { speech },
                ..d
            },
            request: Some(chunk),
            ..t
        }
    } else {
        Turn {
            d: DecoderView {
                buffer: d.buffer.skip(d.consumed),
                consumed: 0,
                pass: PassView::Idle,
                ..d
            },
            ..t
        }
    }
}

/// Restarts the model for every closed speech segment whose audio is consumed,
/// then goes on.
pub open spec fn settled<T>(t: Turn<T>, speech: bool) -> Turn<T>
    decreases t.d.ends.len(),
{
    let d = t.d;
    if d.ends.len() > 0 && d.consumed >= d.ends[0].reset_after_samples {
        settled(
            Turn {
                d: DecoderView { ends: d.ends.drop_first(), ..restarted(d) },
                actions: t.actions.push(
                    ActionView::LogSpeechEnd {
                        end: d.ends[0],
                        consecutive_empty: d.consecutive_empty,
                        chunks_since_reset: d.chunks_since_reset,
                    },
                ).push(ActionView::ResetModel),
                ..t
            },
            speech,
        )
    } else {
        asking(t, speech)
    }
}

/// Asks for the next chunk to replay; after the last one the replay is logged and
/// the pass goes on.
pub open spec fn replaying<T>(t: Turn<T>) -> Turn<T> {
    let d = t.d;
    match d.pass {
        PassView::Replaying {
            speech,
            queue,
            uptime_ms,
            consecutive_empty,
            chunks_since_reset,
            replay_chunks,
            nonempty,
            inference_ms,
        } => if queue.len() > 0 {
            Turn {
                d: DecoderView {
                    chunks_since_reset: bump(d.chunks_since_reset),
                    pass: PassView::Replaying {
                        speech,
                        queue: queue.drop_first(),
                        uptime_ms,
                        consecutive_empty,
                        chunks_since_reset,
                        replay_chunks,
                        nonempty,
                        inference_ms,
                    },
                    ..d
                },
                request: Some(queue[0]),
                ..t
            }
        } else {
            settled(
                Turn {
                    actions: t.actions.push(
                        ActionView::LogMidSpeechReset {
                            uptime_ms,
                            consecutive_empty,
                            chunks_since_reset,
                            replay_chunks,
                            replay_nonempty_chunks: nonempty,
                            replay_inference_ms: inference_ms,
                        },
                    ),
                    ..t
                },
                speech,
            )
        },
        _ => t,
    }
}

/// Non-empty text goes out as a segment of its own, already final.
pub open spec fn emitting<T>(t: Turn<T>, text: Seq<char>) -> Turn<T> {
    if text.len() == 0 {
        t
    } else {
        Turn {
            next_id: asr::id_after(t.next_id),
            actions: t.actions.push(
                ActionView::Emit(
                    UpdateView { segment_id: t.next_id, is_final: true, text, speaker: None },
                ),
            ),
            ..t
        }
    }
}

/// Text that ends a sentence restarts the model, if that rule is on.
pub open spec fn punctuated<T>(t: Turn<T>, text: Seq<char>, uptime_ms: i64) -> Turn<T> {
    if t.d.punctuation_reset && text.len() > 0 && text::sentence_punctuated(text) {
        Turn {
            d: restarted(t.d),
            actions: t.actions.push(
                ActionView::LogPunctuationReset {
                    uptime_ms,
                    consecutive_empty: t.d.consecutive_empty,
                    chunks_since_reset: t.d.chunks_since_reset,
                },
            ).push(ActionView::ResetModel),
            ..t
        }
    } else {
        t
    }
}

/// A decoder stuck on empty results during speech restarts the model and replays
/// the recent speech chunks; any other goes on.
pub open spec fn unstuck<T>(t: Turn<T>, speech: bool, uptime_ms: i64) -> Turn<T> {
    if t.d.consecutive_empty >= t.d.empty_reset_threshold && speech {
        replaying(
            Turn {
                d: DecoderView {
                    pass: PassView::Replaying {
                        speech,
                        queue: t.d.replay,
                        uptime_ms,
                        consecutive_empty: t.d.consecutive_empty,
                        chunks_since_reset: t.d.chunks_since_reset,
                        replay_chunks: t.d.replay.len() as u64,
                        nonempty: 0,
                        inference_ms: 0,
                    },
                    ..restarted(t.d)
                },
                actions: t.actions.push(ActionView::ResetModel),
                ..t
            },
        )
    } else {
        settled(t, speech)
    }
}

pub open spec fn logged<T>(
    t: Turn<T>,
    text: Seq<char>,
    inference_ms: u64,
    uptime_ms: i64,
    speech: bool,
    source: ChunkSource,
) -> Turn<T> {
    Turn {
        actions: t.actions.push(
            ActionView::LogTranscribe {
                uptime_ms,
                chunk_num: t.d.chunk_num,
                inference_ms,
                buffered: t.d.buffer.len() as int,
                consumed: t.d.consumed,
                is_empty: text.len() == 0,
                preview: text::preview_of(text, 200),
                speech,
                source,
            },
        ),
        ..t
    }
}

pub open spec fn failed<T>(
    t: Turn<T>,
    message: Seq<char>,
    inference_ms: u64,
    uptime_ms: i64,
    speech: bool,
    source: ChunkSource,
) -> Turn<T> {
    Turn {
        actions: t.actions.push(
            ActionView::LogError {
                uptime_ms,
                chunk_num: t.d.chunk_num,
                inference_ms,
                message,
                speech,
                source,
            },
        ),
        ..t
    }
}

/// The step that follows the result of a live chunk.
pub open spec fn after_live<T>(t: Turn<T>, speech: bool, result: ChunkResult) -> Turn<T> {
    match result.text {
        Ok(text) => {
            let counted = Turn {
                d: DecoderView {
                    chunk_num: bump(t.d.chunk_num),
                    consecutive_empty: if text@.len() == 0 && speech {
                        bump32(t.d.consecutive_empty)
                    } else {
                        0
                    },
                    ..t.d
                },
                ..t
            };
            let noted = logged(
                counted,
                text@,
                result.inference_ms,
                result.uptime_ms,
                speech,
                ChunkSource::Live,
            );
            unstuck(
                emitting(punctuated(noted, text@, result.uptime_ms), text@),
                speech,
                result.uptime_ms,
            )
        },
        Err(message) => settled(
            failed(
                t,
                message@,
                result.inference_ms,
                result.uptime_ms,
                speech,
                ChunkSource::Live,
            ),
            speech,
        ),
    }
}

/// The step that follows the result of a replayed chunk.
pub open spec fn after_replay<T>(t: Turn<T>, result: ChunkResult) -> Turn<T> {
    match t.d.pass {
        PassView::Replaying {
            speech,
            queue,
            uptime_ms,
            consecutive_empty,
            chunks_since_reset,
            replay_chunks,
            nonempty,
            inference_ms,
        } => match result.text {
            Ok(text) => {
                let counted = Turn {
                    d: DecoderView {
                        chunk_num: bump(t.d.chunk_num),
                        pass: PassView::Replaying {
                            speech,
                            queue,
                            uptime_ms,
                            consecutive_empty,
                            chunks_since_reset,
                            replay_chunks,
                            nonempty: if text@.len() == 0 {
                                nonempty
                            } else {
                                bump(nonempty)
                            },
                            inference_ms: capped_sum(inference_ms, result.inference_ms),
                        },
                        ..t.d
                    },
                    ..t
                };
                replaying(
                    emitting(
                        logged(
                            counted,
                            text@,
                            result.inference_ms,
                            result.uptime_ms,
                            true,
                            ChunkSource::Replay,
                        ),
                        text@,
                    ),
                )
            },
            Err(message) => replaying(
                failed(
                    t,
                    message@,
                    result.inference_ms,
                    result.uptime_ms,
                    true,
                    ChunkSource::Replay,
                ),
            ),
        },
        _ => t,
    }
}

/// The first step of a pass.
pub open spec fn started<T>(d: DecoderView<T>, next_id: u64, speech: bool) -> Turn<T> {
    asking(Turn { d, next_id, actions: Seq::empty(), request: None }, speech)
}

/// The step that follows a result.
pub open spec fn resumed<T>(d: DecoderView<T>, next_id: u64, result: ChunkResult) -> Turn<T> {
    let t = Turn { d, next_id, actions: Seq::empty(), request: None };
    match d.pass {
        PassView::Live { speech } => after_live(t, speech, result),
        PassView::Replaying { .. } => after_replay(t, result),
        PassView::Idle => t,
    }
}

/// More audio behind what is buffered.
pub open spec fn pushed<T>(d: DecoderView<T>, samples: Seq<T>) -> DecoderView<T> {
    DecoderView { buffer: d.buffer + samples, ..d }
}

/// Empty results count anew, and nothing from before is worth replaying.
pub open spec fn speech_started<T>(d: DecoderView<T>) -> DecoderView<T> {
    DecoderView { consecutive_empty: 0, replay: Seq::empty(), ..d }
}

/// The last chunk is filled up, and behind it the model is to restart.
pub open spec fn speech_ended<T>(
    d: DecoderView<T>,
    uptime_ms: i64,
    speech_duration_ms: i64,
    fill: T,
) -> DecoderView<T> {
    let buffer = samples::padded(d.buffer, d.chunk_size as nat, fill);
    DecoderView {
        buffer,
        ends: d.ends.push(
            PendingSpeechEndReset {
                reset_after_samples: buffer.len() as usize,
                uptime_ms,
                speech_duration_ms,
            },
        ),
        ..d
    }
}

/// Other settings from here on; no more chunks are kept than they ask for.
pub open spec fn with_settings<T>(
    d: DecoderView<T>,
    punctuation_reset: bool,
    empty_reset_threshold: u32,
) -> DecoderView<T> {
    DecoderView {
        punctuation_reset,
        empty_reset_threshold,
        replay_capacity: empty_reset_threshold as usize,
        replay: samples::newest(d.replay, (empty_reset_threshold as usize) as nat),
        ..d
    }
}

/// The pass is over; what it consumed is gone.
pub open spec fn abandoned<T>(d: DecoderView<T>) -> DecoderView<T> {
    DecoderView { buffer: d.buffer.skip(d.consumed), consumed: 0, pass: PassView::Idle, ..d }
}

/// No audio is left, neither to run nor to replay.
pub open spec fn discarded<T>(d: DecoderView<T>) -> DecoderView<T> {
    DecoderView { buffer: Seq::empty(), replay: Seq::empty(), ..d }
}

#[derive(Clone, Copy, Debug, PartialEq, Eq, Structural)]
enum Waiting {
    Nothing,
    Live,
    Replay,
}

/// A replay under way: the chunks, how many of them were asked for, and what the
/// closing log entry will say.
struct ReplayRun<T> {
    chunks: Vec<Vec<T>>,
    asked: usize,
    uptime_ms: i64,
    consecutive_empty: u32,
    chunks_since_reset: u64,
    nonempty: u64,
    inference_ms: u64,
}

impl<T: Copy> ReplayRun<T> {
    fn none() -> (r: Self)
        ensures
            r.asked == 0,
            r.chunks@.len() == 0,
    {
        ReplayRun {
            chunks: Vec::new(),
            asked: 0,
            uptime_ms: 0,
            consecutive_empty: 0,
            chunks_since_reset: 0,
            nonempty: 0,
            inference_ms: 0,
        }
    }
}

pub struct ChunkDecoder<T> {
    buffer: Vec<T>,
    chunk_size: usize,
    consumed: usize,
    chunk_num: u64,
    consecutive_empty: u32,
    chunks_since_reset: u64,
    punctuation_reset: bool,
    empty_reset_threshold: u32,
    replay: ReplayBuffer<T>,
    ends: VecDeque<PendingSpeechEndReset>,
    waiting: Waiting,
    speech: bool,
    run: ReplayRun<T>,
}

impl<T: Copy> View for ChunkDecoder<T> {
    type V = DecoderView<T>;

    closed spec fn view(&self) -> DecoderView<T> {
        DecoderView {
            buffer: self.buffer@,
            chunk_size: self.chunk_size,
            consumed: self.consumed as int,
            chunk_num: self.chunk_num,
            consecutive_empty: self.consecutive_empty,
            chunks_since_reset: self.chunks_since_reset,
            punctuation_reset: self.punctuation_reset,
            empty_reset_threshold: self.empty_reset_threshold,
            replay: self.replay.kept(),
            replay_capacity: self.replay.capacity(),
            ends: self.ends@,
            pass: match self.waiting {
                Waiting::Nothing => PassView::Idle,
                Waiting::Live => PassView::Live { speech: self.speech },
                Waiting::Replay => PassView::Replaying {
                    speech: self.speech,
                    queue: chunk_list(self.run.chunks@).skip(self.run.asked as int),
                    uptime_ms: self.run.uptime_ms,
                    consecutive_empty: self.run.consecutive_empty,
                    chunks_since_reset: self.run.chunks_since_reset,
                    replay_chunks: self.run.chunks@.len() as u64,
                    nonempty: self.run.nonempty,
                    inference_ms: self.run.inference_ms,
                },
            },
        }
    }
}

pub open spec fn request_view<T>(request: Option<Vec<T>>) -> Option<Seq<T>> {
    match request {
        Some(chunk) => Some(chunk@),
        None => None,
    }
}

proof fn lemma_actions_push(v: Seq<DecoderAction>, a: DecoderAction)
    ensures
        actions_view(v.push(a)) == actions_view(v).push(a@),
{
    assert(actions_view(v.push(a)) =~= actions_view(v).push(a@));
}

fn act(actions: &mut Vec<DecoderAction>, action: DecoderAction)
    ensures
        actions_view(final(actions)@) == actions_view(old(actions)@).push(action@),
{
    proof {
        lemma_actions_push(actions@, action);
    }
    actions.push(action);
}

impl<T: Copy> ChunkDecoder<T> {
    /// The consumed samples are in the buffer, between passes nothing is consumed,
    /// and during a pass a chunk has samples.
    pub closed spec fn wf(self) -> bool {
        &&& self.waiting != Waiting::Nothing ==> self.chunk_size > 0
        &&& self.consumed <= self.buffer@.len()
        &&& self.waiting == Waiting::Nothing ==> self.consumed == 0
        &&& self.replay.kept().len() <= self.replay.capacity()
        &&& self.run.asked <= self.run.chunks@.len()
    }

    pub proof fn lemma_wf(self)
        requires
            self.wf(),
        ensures
            !(self@.pass is Idle) ==> self@.chunk_size > 0,
            0 <= self@.consumed <= self@.buffer.len(),
            self@.pass is Idle ==> self@.consumed == 0,
            self@.replay.len() <= self@.replay_capacity,
    {
    }

    /// A decoder with nothing buffered that keeps as many chunks for replay as
    /// empty results make it stuck.
    pub fn new(chunk_size: usize, punctuation_reset: bool, empty_reset_threshold: u32) -> (r: Self)
        ensures
            r.wf(),
            r@ == fresh_decoder::<T>(chunk_size, punctuation_reset, empty_reset_threshold),
    {
        let r = ChunkDecoder {
            buffer: Vec::new(),
            chunk_size,
            consumed: 0,
            chunk_num: 0,
            consecutive_empty: 0,
            chunks_since_reset: 0,
            punctuation_reset,
            empty_reset_threshold,
            replay: ReplayBuffer::new(empty_reset_threshold as usize),
            ends: VecDeque::new(),
            waiting: Waiting::Nothing,
            speech: false,
            run: ReplayRun::none(),
        };
        assert(r@.ends =~= Seq::empty());
        r
    }

    fn restart(&mut self)
        requires
            old(self).wf(),
        ensures
            final(self).wf(),
            final(self)@ == restarted(old(self)@),
            final(self).speech == old(self).speech,
            final(self).waiting == old(self).waiting,
    {
        self.consecutive_empty = 0;
        self.chunks_since_reset = 0;
        self.replay.clear();
    }

    fn ask(&mut self, speech: bool, Ghost(t): Ghost<Turn<T>>) -> (request: Option<Vec<T>>)
        requires
            old(self).wf(),
            old(self).chunk_size > 0,
            t.d == old(self)@,
            t.request is None,
        ensures
            final(self).wf(),
            ({
                let after = asking(t, speech);
                &&& final(self)@ == after.d
                &&& request_view(request) == after.request
                &&& after.actions == t.actions
                &&& after.next_id == t.next_id
            }),
    {
        if self.buffer.len() - self.consumed >= self.chunk_size {
            let end: usize = self.consumed + self.chunk_size;
            let chunk = samples::copy_range(self.buffer.as_slice(), self.consumed, end);
            if speech {
                self.replay.push(chunk.as_slice());
            }
            self.consumed = end;
            self.chunks_since_reset = self.chunks_since_reset.saturating_add(1);
            self.waiting = Waiting::Live;
            self.speech = speech;
            Some(chunk)
        } else {
            samples::drop_front(&mut self.buffer, self.consumed);
            self.consumed = 0;
            self.waiting = Waiting::Nothing;
            None
        }
    }

    fn settle(
        &mut self,
        actions: &mut Vec<DecoderAction>,
        speech: bool,
        Ghost(t): Ghost<Turn<T>>,
    ) -> (request: Option<Vec<T>>)
        requires
            old(self).wf(),
            old(self).chunk_size > 0,
            t.d == old(self)@,
            t.actions == actions_view(old(actions)@),
            t.request is None,
        ensures
            final(self).wf(),
            ({
                let after = settled(t, speech);
                &&& final(self)@ == after.d
                &&& actions_view(final(actions)@) == after.actions
                &&& request_view(request) == after.request
                &&& after.next_id == t.next_id
            }),
    {
        let ghost mut now = t;
        while self.ends.len() > 0 && self.consumed >= self.ends[0].reset_after_samples
            invariant
                self.wf(),
                self.chunk_size > 0,
                now.d == self@,
                now.actions == actions_view(actions@),
                now.request is None,
                now.next_id == t.next_id,
                settled(now, speech) == settled(t, speech),
            decreases self.ends@.len(),
        {
            let end: PendingSpeechEndReset = self.ends[0];
            act(
                actions,
                DecoderAction::LogSpeechEnd {
                    end,
                    consecutive_empty: self.consecutive_empty,
                    chunks_since_reset: self.chunks_since_reset,
                },
            );
            act(actions, DecoderAction::ResetModel);
            let _ = self.ends.pop_front();
            self.restart();
            proof {
                assert(self@.ends =~= now.d.ends.drop_first());
                now = Turn { d: self@, actions: actions_view(actions@), ..now };
            }
        }
        self.ask(speech, Ghost(now))
    }

    fn replay_next(&mut self, actions: &mut Vec<DecoderAction>, Ghost(t): Ghost<Turn<T>>) -> (request:
        Option<Vec<T>>)
        requires
            old(self).wf(),
            old(self).waiting == Waiting::Replay,
            t.d == old(self)@,
            t.actions == actions_view(old(actions)@),
            t.request is None,
        ensures
            final(self).wf(),
            ({
                let after = replaying(t);
                &&& final(self)@ == after.d
                &&& actions_view(final(actions)@) == after.actions
                &&& request_view(request) == after.request
                &&& after.next_id == t.next_id
            }),
    {
        if self.run.asked < self.run.chunks.len() {
            let ghost queue = chunk_list(self.run.chunks@).skip(self.run.asked as int);
            let chunk = samples::copy_all(self.run.chunks[self.run.asked].as_slice());
            self.run.asked = self.run.asked + 1;
            self.chunks_since_reset = self.chunks_since_reset.saturating_add(1);
            assert(chunk_list(self.run.chunks@).skip(self.run.asked as int)
                =~= queue.drop_first());
            Some(chunk)
        } else {
            act(
                actions,
                DecoderAction::LogMidSpeechReset {
                    uptime_ms: self.run.uptime_ms,
                    consecutive_empty: self.run.consecutive_empty,
                    chunks_since_reset: self.run.chunks_since_reset,
                    replay_chunks: self.run.chunks.len() as u64,
                    replay_nonempty_chunks: self.run.nonempty,
                    replay_inference_ms: self.run.inference_ms,
                },
            );
            let speech = self.speech;
            let ghost now = Turn { actions: actions_view(actions@), ..t };
            self.settle(actions, speech, Ghost(now))
        }
    }

    /// Begins a pass over the buffered audio; `speech` is the voice-activity state
    /// that holds for all of it.
    pub fn start_pass(&mut self, speech: bool) -> (step: Step<T>)
        requires
            old(self).wf(),
            old(self)@.pass is Idle,
            old(self)@.chunk_size > 0,
        ensures
            final(self).wf(),
            ({
                let t = started(old(self)@, 0, speech);
                &&& final(self)@ == t.d
                &&& actions_view(step.actions@) == t.actions
                &&& request_view(step.request) == t.request
            }),
    {
        let actions: Vec<DecoderAction> = Vec::new();
        assert(actions_view(actions@) =~= Seq::<ActionView>::empty());
        let ghost t = Turn { d: self@, next_id: 0, actions: Seq::empty(), request: None };
        let request = self.ask(speech, Ghost(t));
        Step { actions, request }
    }

    /// Takes the result of the chunk that the last step asked for.
    pub fn resume(&mut self, result: ChunkResult, ids: &mut SegmentIds) -> (step: Step<T>)
        requires
            old(self).wf(),
            !(old(self)@.pass is Idle),
        ensures
            final(self).wf(),
            ({
                let t = resumed(old(self)@, old(ids)@, result);
                &&& final(self)@ == t.d
                &&& final(ids)@ == t.next_id
                &&& actions_view(step.actions@) == t.actions
                &&& request_view(step.request) == t.request
            }),
    {
        let mut actions: Vec<DecoderAction> = Vec::new();
        assert(actions_view(actions@) =~= Seq::<ActionView>::empty());
        let request = if let Waiting::Live = self.waiting {
            self.live_result(result, &mut actions, ids)
        } else {
            self.replay_result(result, &mut actions, ids)
        };
        Step { actions, request }
    }

    fn log(
        &self,
        actions: &mut Vec<DecoderAction>,
        text: &str,
        inference_ms: u64,
        uptime_ms: i64,
        speech: bool,
        source: ChunkSource,
    )
        ensures
            actions_view(final(actions)@) == logged(
                Turn {
                    d: self@,
                    next_id: 0,
                    actions: actions_view(old(actions)@),
                    request: None,
                },
                text@,
                inference_ms,
                uptime_ms,
                speech,
                source,
            ).actions,
    {
        act(
            actions,
            DecoderAction::LogTranscribe {
                uptime_ms,
                chunk_num: self.chunk_num,
                inference_ms,
                buffered: self.buffer.len(),
                consumed: self.consumed,
                is_empty: text::is_empty(text),
                preview: text::text_preview(text, 200),
                speech,
                source,
            },
        );
    }

    fn live_result(
        &mut self,
        result: ChunkResult,
        actions: &mut Vec<DecoderAction>,
        ids: &mut SegmentIds,
    ) -> (request: Option<Vec<T>>)
        requires
            old(self).wf(),
            old(self).waiting == Waiting::Live,
            actions_view(old(actions)@) == Seq::<ActionView>::empty(),
        ensures
            final(self).wf(),
            ({
                let t = resumed(old(self)@, old(ids)@, result);
                &&& final(self)@ == t.d
                &&& final(ids)@ == t.next_id
                &&& actions_view(final(actions)@) == t.actions
                &&& request_view(request) == t.request
            }),
    {
        let speech = self.speech;
        let uptime_ms: i64 = result.uptime_ms;
        let ghost start = Turn {
            d: self@,
            next_id: ids@,
            actions: Seq::<ActionView>::empty(),
            request: None,
        };
        match result.text {
            Ok(text) => {
                self.chunk_num = self.chunk_num.saturating_add(1);
                let is_empty = text::is_empty(text.as_str());
                if is_empty && speech {
                    self.consecutive_empty = self.consecutive_empty.saturating_add(1);
                } else {
                    self.consecutive_empty = 0;
                }
                self.log(
                    actions,
                    text.as_str(),
                    result.inference_ms,
                    uptime_ms,
                    speech,
                    ChunkSource::Live,
                );
                let ghost noted = Turn { d: self@, actions: actions_view(actions@), ..start };
                if self.punctuation_reset && !is_empty && text::ends_with_sentence_punctuation(
                    text.as_str(),
                ) {
                    act(
                        actions,
                        DecoderAction::LogPunctuationReset {
                            uptime_ms,
                            consecutive_empty: self.consecutive_empty,
                            chunks_since_reset: self.chunks_since_reset,
                        },
                    );
                    act(actions, DecoderAction::ResetModel);
                    self.restart();
                }
                let ghost restarted_turn = Turn {
                    d: self@,
                    actions: actions_view(actions@),
                    ..start
                };
                assert(restarted_turn == punctuated(noted, text@, uptime_ms));
                let ghost said = text@;
                if !is_empty {
                    let segment_id: u64 = ids.next();
                    act(
                        actions,
                        DecoderAction::Emit(
                            TranscriptUpdate { segment_id, is_final: true, text, speaker: None },
                        ),
                    );
                }
                let ghost spoken = Turn {
                    d: self@,
                    next_id: ids@,
                    actions: actions_view(actions@),
                    request: None,
                };
                assert(spoken == emitting(restarted_turn, said));
                if self.consecutive_empty >= self.empty_reset_threshold && speech {
                    let chunks = self.replay.snapshot();
                    let run = ReplayRun {
                        chunks,
                        asked: 0,
                        uptime_ms,
                        consecutive_empty: self.consecutive_empty,
                        chunks_since_reset: self.chunks_since_reset,
                        nonempty: 0,
                        inference_ms: 0,
                    };
                    self.restart();
                    self.run = run;
                    self.waiting = Waiting::Replay;
                    act(actions, DecoderAction::ResetModel);
                    assert(chunk_list(self.run.chunks@).skip(0) =~= spoken.d.replay);
                    let ghost reset = Turn {
                        d: self@,
                        actions: actions_view(actions@),
                        ..spoken
                    };
                    self.replay_next(actions, Ghost(reset))
                } else {
                    self.settle(actions, speech, Ghost(spoken))
                }
            },
            Err(message) => {
                act(
                    actions,
                    DecoderAction::LogError {
                        uptime_ms,
                        chunk_num: self.chunk_num,
                        inference_ms: result.inference_ms,
                        message,
                        speech,
                        source: ChunkSource::Live,
                    },
                );
                let ghost now = Turn { actions: actions_view(actions@), ..start };
                self.settle(actions, speech, Ghost(now))
            },
        }
    }

    fn replay_result(
        &mut self,
        result: ChunkResult,
        actions: &mut Vec<DecoderAction>,
        ids: &mut SegmentIds,
    ) -> (request: Option<Vec<T>>)
        requires
            old(self).wf(),
            old(self).waiting == Waiting::Replay,
            actions_view(old(actions)@) == Seq::<ActionView>::empty(),
        ensures
            final(self).wf(),
            ({
                let t = resumed(old(self)@, old(ids)@, result);
                &&& final(self)@ == t.d
                &&& final(ids)@ == t.next_id
                &&& actions_view(final(actions)@) == t.actions
                &&& request_view(request) == t.request
            }),
    {
        let ghost start = Turn {
            d: self@,
            next_id: ids@,
            actions: Seq::<ActionView>::empty(),
            request: None,
        };
        match result.text {
            Ok(text) => {
                self.chunk_num = self.chunk_num.saturating_add(1);
                self.run.inference_ms = self.run.inference_ms.saturating_add(
                    result.inference_ms,
                );
                let is_empty = text::is_empty(text.as_str());
                if !is_empty {
                    self.run.nonempty = self.run.nonempty.saturating_add(1);
                }
                self.log(
                    actions,
                    text.as_str(),
                    result.inference_ms,
                    result.uptime_ms,
                    true,
                    ChunkSource::Replay,
                );
                let ghost said = text@;
                let ghost noted = Turn { d: self@, actions: actions_view(actions@), ..start };
                if !is_empty {
                    let segment_id: u64 = ids.next();
                    act(
                        actions,
                        DecoderAction::Emit(
                            TranscriptUpdate { segment_id, is_final: true, text, speaker: None },
                        ),
                    );
                }
                let ghost spoken = Turn {
                    d: self@,
                    next_id: ids@,
                    actions: actions_view(actions@),
                    request: None,
                };
                assert(spoken == emitting(noted, said));
                self.replay_next(actions, Ghost(spoken))
            },
            Err(message) => {
                act(
                    actions,
                    DecoderAction::LogError {
                        uptime_ms: result.uptime_ms,
                        chunk_num: self.chunk_num,
                        inference_ms: result.inference_ms,
                        message,
                        speech: true,
                        source: ChunkSource::Replay,
                    },
                );
                let ghost now = Turn { actions: actions_view(actions@), ..start };
                self.replay_next(actions, Ghost(now))
            },
        }
    }
}

impl<T: Copy> ChunkDecoder<T> {
    /// Buffers audio for the next pass.
    pub fn push_audio(&mut self, samples: &[T])
        requires
            old(self).wf(),
            old(self)@.pass is Idle,
        ensures
            final(self).wf(),
            final(self)@ == pushed(old(self)@, samples@),
            final(self)@ == (DecoderView { buffer: old(self)@.buffer + samples@, ..old(self)@ }),
    {
        samples::extend_copy(&mut self.buffer, samples);
    }

    /// Speech began: empty results count from here, and only chunks from here on
    /// are worth replaying.
    pub fn speech_start(&mut self)
        requires
            old(self).wf(),
        ensures
            final(self).wf(),
            final(self)@ == speech_started(old(self)@),
            final(self)@ == (DecoderView {
                consecutive_empty: 0,
                replay: Seq::empty(),
                ..old(self)@
            }),
    {
        self.consecutive_empty = 0;
        self.replay.clear();
    }

    /// Fills the last chunk up with `fill`.
    pub fn pad(&mut self, fill: T)
        requires
            old(self).wf(),
            old(self)@.buffer.len() + old(self)@.chunk_size <= usize::MAX,
        ensures
            final(self).wf(),
            final(self)@ == (DecoderView {
                buffer: samples::padded(old(self)@.buffer, old(self)@.chunk_size as nat, fill),
                ..old(self)@
            }),
    {
        samples::pad_to_chunk_boundary(&mut self.buffer, self.chunk_size, fill);
    }

    /// Speech ended: the last chunk is filled up, and once everything buffered so
    /// far is consumed the model restarts.
    pub fn speech_end(&mut self, uptime_ms: i64, speech_duration_ms: i64, fill: T)
        requires
            old(self).wf(),
            old(self)@.buffer.len() + old(self)@.chunk_size <= usize::MAX,
        ensures
            final(self).wf(),
            final(self)@ == speech_ended(old(self)@, uptime_ms, speech_duration_ms, fill),
            ({
                let buffer = samples::padded(
                    old(self)@.buffer,
                    old(self)@.chunk_size as nat,
                    fill,
                );
                final(self)@ == (DecoderView {
                    buffer,
                    ends: old(self)@.ends.push(
                        PendingSpeechEndReset {
                            reset_after_samples: buffer.len() as usize,
                            uptime_ms,
                            speech_duration_ms,
                        },
                    ),
                    ..old(self)@
                })
            }),
    {
        self.pad(fill);
        let reset_after_samples: usize = self.buffer.len();
        self.ends.push_back(
            PendingSpeechEndReset { reset_after_samples, uptime_ms, speech_duration_ms },
        );
    }

    /// Applies settings that can change between passes.
    pub fn update_settings(&mut self, punctuation_reset: bool, empty_reset_threshold: u32)
        requires
            old(self).wf(),
        ensures
            final(self).wf(),
            final(self)@ == with_settings(old(self)@, punctuation_reset, empty_reset_threshold),
            final(self)@ == (DecoderView {
                punctuation_reset,
                empty_reset_threshold,
                replay_capacity: empty_reset_threshold as usize,
                replay: samples::newest(
                    old(self)@.replay,
                    (empty_reset_threshold as usize) as nat,
                ),
                ..old(self)@
            }),
    {
        self.punctuation_reset = punctuation_reset;
        self.empty_reset_threshold = empty_reset_threshold;
        self.replay.update_capacity(empty_reset_threshold as usize);
    }

    /// The model was restarted from outside.
    pub fn model_restarted(&mut self)
        requires
            old(self).wf(),
        ensures
            final(self).wf(),
            final(self)@ == restarted(old(self)@),
    {
        self.restart();
    }

    /// Ends a pass whose chunk nobody can run: what was consumed leaves the
    /// buffer, the rest waits for the next pass.
    pub fn abandon(&mut self)
        requires
            old(self).wf(),
        ensures
            final(self).wf(),
            final(self)@ == abandoned(old(self)@),
            final(self)@ == (DecoderView {
                buffer: old(self)@.buffer.skip(old(self)@.consumed),
                consumed: 0,
                pass: PassView::Idle,
                ..old(self)@
            }),
    {
        samples::drop_front(&mut self.buffer, self.consumed);
        self.consumed = 0;
        self.waiting = Waiting::Nothing;
    }

    /// Forgets buffered audio and the chunks kept for replay.
    pub fn discard_audio(&mut self)
        requires
            old(self).wf(),
            old(self)@.pass is Idle,
        ensures
            final(self).wf(),
            final(self)@ == discarded(old(self)@),
            final(self)@ == (DecoderView {
                buffer: Seq::empty(),
                replay: Seq::empty(),
                ..old(self)@
            }),
    {
        self.buffer.clear();
        self.replay.clear();
    }

    pub fn is_idle(&self) -> (r: bool)
        ensures
            r == (self@.pass is Idle),
    {
        if let Waiting::Nothing = self.waiting {
            true
        } else {
            false
        }
    }

    /// Chunks that the model has turned into text, replays included.
    pub fn chunks_processed(&self) -> (r: u64)
        ensures
            r == self@.chunk_num,
    {
        self.chunk_num
    }

    pub fn buffered(&self) -> (r: usize)
        ensures
            r == self@.buffer.len(),
    {
        self.buffer.len()
    }

    pub fn chunk_size(&self) -> (r: usize)
        ensures
            r == self@.chunk_size,
    {
        self.chunk_size
    }
}

/// A decoder that has seen nothing.
pub open spec fn fresh_decoder<T>(
    chunk_size: usize,
    punctuation_reset: bool,
    empty_reset_threshold: u32,
) -> DecoderView<T> {
    DecoderView {
        buffer: Seq::empty(),
        chunk_size,
        consumed: 0,
        chunk_num: 0,
        consecutive_empty: 0,
        chunks_since_reset: 0,
        punctuation_reset,
        empty_reset_threshold,
        replay: Seq::empty(),
        replay_capacity: empty_reset_threshold as usize,
        ends: Seq::empty(),
        pass: PassView::Idle,
    }
}

} // verus!
