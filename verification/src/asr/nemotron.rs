//! On-device streaming recognition with a Nemotron model.
//!
//! Append-only: every segment is emitted already final, each id once, and the
//! speaker is always `None`. The model itself is run by the caller, chunk by
//! chunk, as [`ChunkDecoder`] asks for it.

use vstd::prelude::*;

use super::ActivitySource;
use super::AsrCapabilities;
use super::AsrError;
use super::AudioGating;
use super::SegmentIds;
use super::TranscriptUpdate;
use crate::decoder;
use crate::decoder::ChunkDecoder;
use crate::decoder::ChunkResult;
use crate::decoder::DecoderView;
use crate::decoder::PendingSpeechEndReset;
use crate::decoder::Step;
use crate::samples;
use crate::settings;
use crate::settings::Settings;
use crate::text;
use crate::vad::VadState;

pub use crate::decoder::ReplayBuffer;
pub use crate::samples::pad_to_chunk_boundary;
pub use crate::text::ends_with_sentence_punctuation;
pub use crate::text::text_preview;

verus! {

pub struct NemotronBackend<T> {
    decoder: ChunkDecoder<T>,
    model_loaded: bool,
}

/// What a session starts from.
pub open spec fn session_decoder<T>(s: Settings) -> DecoderView<T> {
    decoder::fresh_decoder(
        (16000 * s.chunk_ms / 1000) as usize,
        s.punctuation_reset,
        s.empty_reset_threshold,
    )
}

impl<T: Copy> NemotronBackend<T> {
    pub closed spec fn wf(self) -> bool {
        self.decoder.wf()
    }

    pub closed spec fn state(self) -> DecoderView<T> {
        self.decoder@
    }

    pub closed spec fn loaded(self) -> bool {
        self.model_loaded
    }

    pub fn new() -> (r: Self)
        ensures
            r.wf(),
            !r.loaded(),
            r.state() == decoder::fresh_decoder::<T>(0, true, 1),
    {
        NemotronBackend { decoder: ChunkDecoder::new(0, true, 1), model_loaded: false }
    }

    pub fn id(&self) -> (r: &'static str)
        ensures
            r@ == "nemotron"@,
    {
        "nemotron"
    }

    pub fn capabilities(&self) -> (r: AsrCapabilities)
        ensures
            !r.revises_output,
            !r.diarization,
            r.audio_gating == AudioGating::VadGated,
            r.activity_source == ActivitySource::Vad,
    {
        AsrCapabilities {
            revises_output: false,
            diarization: false,
            audio_gating: AudioGating::VadGated,
            activity_source: ActivitySource::Vad,
        }
    }

    /// A loaded model is worth keeping between sessions.
    pub fn is_cacheable(&self) -> (r: bool)
        ensures
            r,
    {
        true
    }

    /// Whether a session must load the model first. One that survived from an
    /// earlier session is reset instead.
    pub fn needs_model(&self) -> (r: bool)
        ensures
            r == !self.loaded(),
    {
        !self.model_loaded
    }

    /// Begins a session once the model is loaded or reset.
    pub fn begin_session(&mut self, settings: &Settings)
        requires
            16000 * settings.chunk_ms <= usize::MAX,
        ensures
            final(self).wf(),
            final(self).loaded(),
            final(self).state() == session_decoder::<T>(*settings),
    {
        let chunk_size: usize = settings::chunk_ms_to_samples(settings.chunk_ms);
        self.decoder = ChunkDecoder::new(
            chunk_size,
            settings.punctuation_reset,
            settings.empty_reset_threshold,
        );
        self.model_loaded = true;
    }

    /// 16 kHz mono, in capture order. Buffers only.
    pub fn push_audio(&mut self, samples: &[T])
        requires
            old(self).wf(),
            old(self).state().pass is Idle,
        ensures
            final(self).wf(),
            final(self).loaded() == old(self).loaded(),
            final(self).state() == (DecoderView {
                buffer: old(self).state().buffer + samples@,
                ..old(self).state()
            }),
    {
        self.decoder.push_audio(samples);
    }

    /// The VAD opened a speech segment.
    pub fn mark_speech_start(&mut self)
        requires
            old(self).wf(),
        ensures
            final(self).wf(),
            final(self).loaded() == old(self).loaded(),
            final(self).state() == (DecoderView {
                consecutive_empty: 0,
                replay: Seq::empty(),
                ..old(self).state()
            }),
    {
        self.decoder.speech_start();
    }

    /// The VAD closed a speech segment. The last chunk is filled up with `fill`.
    pub fn mark_speech_end(&mut self, uptime_ms: i64, speech_duration_ms: i64, fill: T)
        requires
            old(self).wf(),
            old(self).state().buffer.len() + old(self).state().chunk_size <= usize::MAX,
        ensures
            final(self).wf(),
            final(self).loaded() == old(self).loaded(),
            ({
                let buffer = samples::padded(
                    old(self).state().buffer,
                    old(self).state().chunk_size as nat,
                    fill,
                );
                final(self).state() == (DecoderView {
                    buffer,
                    ends: old(self).state().ends.push(
                        PendingSpeechEndReset {
                            reset_after_samples: buffer.len() as usize,
                            uptime_ms,
                            speech_duration_ms,
                        },
                    ),
                    ..old(self).state()
                })
            }),
    {
        self.decoder.speech_end(uptime_ms, speech_duration_ms, fill);
    }

    pub fn chunks_processed(&self) -> (r: u64)
        ensures
            r == self.state().chunk_num,
    {
        self.decoder.chunks_processed()
    }

    /// Hot-reload of settings mid-session.
    pub fn update_settings(&mut self, settings: &Settings)
        requires
            old(self).wf(),
        ensures
            final(self).wf(),
            final(self).loaded() == old(self).loaded(),
            final(self).state() == (DecoderView {
                punctuation_reset: settings.punctuation_reset,
                empty_reset_threshold: settings.empty_reset_threshold,
                replay_capacity: settings.empty_reset_threshold as usize,
                replay: samples::newest(
                    old(self).state().replay,
                    (settings.empty_reset_threshold as usize) as nat,
                ),
                ..old(self).state()
            }),
    {
        self.decoder.update_settings(settings.punctuation_reset, settings.empty_reset_threshold);
    }

    /// Begins one processing pass over the buffered audio.
    pub fn process(&mut self, vad_state: VadState) -> (r: Result<Step<T>, AsrError>)
        requires
            old(self).wf(),
            old(self).state().pass is Idle,
            old(self).loaded() ==> old(self).state().chunk_size > 0,
        ensures
            final(self).wf(),
            final(self).loaded() == old(self).loaded(),
            match r {
                Ok(step) => {
                    let t = decoder::started(
                        old(self).state(),
                        0,
                        vad_state == VadState::Speech,
                    );
                    &&& old(self).loaded()
                    &&& final(self).state() == t.d
                    &&& decoder::actions_view(step.actions@) == t.actions
                    &&& decoder::request_view(step.request) == t.request
                },
                Err(e) => {
                    &&& !old(self).loaded()
                    &&& final(self).state() == old(self).state()
                    &&& e is Fatal
                    &&& e.text() == "Nemotron model not loaded"@
                },
            },
    {
        if !self.model_loaded {
            return Err(AsrError::Fatal("Nemotron model not loaded".to_owned()));
        }
        let speech = match vad_state {
            VadState::Speech => true,
            VadState::Silence => false,
        };
        Ok(self.decoder.start_pass(speech))
    }

    /// Takes what the model made of the chunk that the last step asked for.
    pub fn resume(&mut self, result: ChunkResult, ids: &mut SegmentIds) -> (step: Step<T>)
        requires
            old(self).wf(),
            !(old(self).state().pass is Idle),
        ensures
            final(self).wf(),
            final(self).loaded() == old(self).loaded(),
            ({
                let t = decoder::resumed(old(self).state(), old(ids)@, result);
                &&& final(self).state() == t.d
                &&& final(ids)@ == t.next_id
                &&& decoder::actions_view(step.actions@) == t.actions
                &&& decoder::request_view(step.request) == t.request
            }),
    {
        self.decoder.resume(result, ids)
    }

    /// Stopping mid-utterance discards whatever is buffered below one chunk; there
    /// is nothing left to emit.
    pub fn end_session(&mut self) -> (r: Vec<TranscriptUpdate>)
        requires
            old(self).wf(),
        ensures
            *final(self) == *old(self),
            r@.len() == 0,
    {
        Vec::new()
    }

    /// Whether no pass is under way.
    pub fn is_idle(&self) -> (r: bool)
        ensures
            r == (self.state().pass is Idle),
    {
        self.decoder.is_idle()
    }

    /// Samples buffered, and the size of a chunk.
    pub fn buffered(&self) -> (r: (usize, usize))
        ensures
            r.0 == self.state().buffer.len(),
            r.1 == self.state().chunk_size,
    {
        (self.decoder.buffered(), self.decoder.chunk_size())
    }
}

impl<T: Copy> Default for NemotronBackend<T> {
    fn default() -> (r: Self)
        ensures
            r.wf(),
            !r.loaded(),
            r.state() == decoder::fresh_decoder::<T>(0, true, 1),
    {
        Self::new()
    }
}

/// The error for a model that could not be loaded.
pub fn load_error(reason: &str) -> (r: AsrError)
    ensures
        r is Fatal,
        r.text() == "Failed to load Nemotron model: "@ + reason@,
{
    AsrError::Fatal(text::concat("Failed to load Nemotron model: ", reason))
}

} // verus!
