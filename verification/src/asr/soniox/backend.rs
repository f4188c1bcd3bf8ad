//! The recognizer on top of a Soniox connection.
//!
//! The connection lives in [`super::client`] and the token bookkeeping in
//! [`super::accumulator`]. What is here is the mapping between the pipeline's
//! two-part audio path and the connection's frames, plus the rule that decides
//! when text and when status wins a return slot.

use vstd::prelude::*;

use super::accumulator;
use super::accumulator::Accumulator;
use super::accumulator::AccumulatorView;
use super::client::Inbound;
use super::client::SonioxConfig;
use super::protocol;
use super::protocol::SonioxToken;
use crate::asr;
use crate::asr::ActivitySource;
use crate::asr::AsrCapabilities;
use crate::asr::AsrError;
use crate::asr::AudioGating;
use crate::asr::SegmentIds;
use crate::asr::TranscriptUpdate;
use crate::asr::UpdateView;
use crate::settings::Settings;
use crate::text;

verus! {

/// How long the meter stays lit after the last speech token.
///
/// Must exceed the service's idle cadence (it answers roughly once a second even
/// in total silence) or the indicator strobes. Much longer and it lies about
/// silence.
pub const SPEECH_HOLD_MS: u64 = 1_500;

/// Backstop for teardown. Slightly longer than the socket side's own
/// end-of-stream watchdog so that watchdog is what normally fires.
pub const FINISH_WAIT_MS: u64 = 2_500;

// ---------------------------------------------------------------------------
// Language hints
// ---------------------------------------------------------------------------

/// The trimmed pieces that are not empty.
pub open spec fn hints_among(pieces: Seq<Seq<char>>) -> Seq<Seq<char>>
    decreases pieces.len(),
{
    if pieces.len() == 0 {
        Seq::empty()
    } else {
        let before = hints_among(pieces.drop_last());
        let hint = text::trim_of(pieces.last());
        if hint.len() > 0 {
            before.push(hint)
        } else {
            before
        }
    }
}

/// Splits the comma-separated setting into the wire form. An empty setting
/// means "no hints", which is how the service auto-detects.
pub fn parse_language_hints(raw: &str) -> (r: Vec<String>)
    ensures
        text::list_view(r@) == hints_among(text::split_at(raw@, ',')),
{
    let pieces = text::split(raw, ',');
    let ghost all = text::split_at(raw@, ',');
    let mut r: Vec<String> = Vec::new();
    let mut i: usize = 0;
    assert(all.take(0) =~= Seq::<Seq<char>>::empty());
    assert(text::list_view(r@) =~= Seq::<Seq<char>>::empty());
    while i < pieces.len()
        invariant
            i <= pieces@.len(),
            pieces@.len() == all.len(),
            forall|k: int| 0 <= k < pieces@.len() ==> (#[trigger] pieces@[k])@ == all[k],
            text::list_view(r@) == hints_among(all.take(i as int)),
        decreases pieces@.len() - i,
    {
        let hint = text::trim(pieces[i]);
        proof {
            assert(all.take(i + 1).drop_last() =~= all.take(i as int));
            assert(all.take(i + 1).last() == all[i as int]);
        }
        if !text::is_empty(hint) {
            let ghost before = r@;
            r.push(hint.to_owned());
            assert(text::list_view(r@) =~= text::list_view(before).push(hint@));
        }
        i += 1;
    }
    assert(all.take(i as int) =~= all);
    r
}

// ---------------------------------------------------------------------------
// Folding
// ---------------------------------------------------------------------------

/// What folding works on: the accumulator and its ids, the time of the last
/// speech, the status owed, and what has been emitted.
#[verifier::ext_equal]
pub struct Folding {
    pub held: AccumulatorView,
    pub next_id: u64,
    pub last_speech_at: Option<u64>,
    pub transient: Option<Seq<char>>,
    pub fatal: Option<Seq<char>>,
    pub out: Seq<UpdateView>,
}

/// Some token carries displayable speech.
pub open spec fn any_speech(tokens: Seq<SonioxToken>) -> bool {
    exists|i: int| 0 <= i < tokens.len() && (#[trigger] tokens[i]).speech()
}

/// Everything open is finalized, and the accumulator starts over.
pub open spec fn flushed_out(f: Folding) -> Folding {
    let l = accumulator::finished(f.held, f.next_id);
    Folding {
        held: accumulator::nothing_held(),
        next_id: l.next_id,
        out: f.out + l.out,
        ..f
    }
}

/// One message from the socket side, read at `now`. Only token content is
/// evidence of speech; a lost connection or a fatal error flushes what is open
/// and leaves a status behind.
pub open spec fn folded(f: Folding, message: Inbound, now: u64) -> Folding {
    match message {
        Inbound::Response(response) => {
            let l = accumulator::ingested(f.held, f.next_id, response.tokens@);
            Folding {
                held: l.held,
                next_id: l.next_id,
                last_speech_at: if any_speech(response.tokens@) {
                    Some(now)
                } else {
                    f.last_speech_at
                },
                out: f.out + l.out,
                ..f
            }
        },
        Inbound::Reconnecting(reason) => Folding {
            transient: Some("Reconnecting to Soniox: "@ + reason@),
            ..flushed_out(f)
        },
        Inbound::Finished => f,
        Inbound::Fatal(message) => Folding { fatal: Some(message@), ..flushed_out(f) },
    }
}

/// A run of messages, in order.
pub open spec fn folded_all(f: Folding, messages: Seq<Inbound>, now: u64) -> Folding
    decreases messages.len(),
{
    if messages.len() == 0 {
        f
    } else {
        folded(folded_all(f, messages.drop_last(), now), messages.last(), now)
    }
}

/// What became of the staged frame.
pub enum FrameOutcome {
    NothingStaged,
    Sent,
    Failed(AsrError),
}

pub struct SonioxBackend {
    /// Whether a connection is open.
    pub open: bool,
    pub accumulator: Accumulator,
    /// PCM staged by `push_audio`, flushed as one frame by `process`.
    pub staged: Vec<u8>,
    pub staged_samples: usize,
    /// When speech was last evident, on the caller's millisecond clock.
    pub last_speech_at: Option<u64>,
    pub frames_sent: u64,
    /// Status that lost a return slot to text and is owed on the next call.
    pub pending_transient: Option<String>,
    pub pending_fatal: Option<String>,
}

proof fn lemma_updates_append(a: Seq<TranscriptUpdate>, b: Seq<TranscriptUpdate>)
    ensures
        asr::updates_view(a + b) == asr::updates_view(a) + asr::updates_view(b),
{
    assert(asr::updates_view(a + b) =~= asr::updates_view(a) + asr::updates_view(b));
}

fn extend(updates: &mut Vec<TranscriptUpdate>, mut more: Vec<TranscriptUpdate>)
    ensures
        asr::updates_view(final(updates)@) == asr::updates_view(old(updates)@)
            + asr::updates_view(more@),
{
    proof {
        lemma_updates_append(updates@, more@);
    }
    updates.append(&mut more);
}

impl SonioxBackend {
    pub open spec fn folding(self, next_id: u64) -> Folding {
        Folding {
            held: self.accumulator@,
            next_id,
            last_speech_at: self.last_speech_at,
            transient: text::opt_view(self.pending_transient),
            fatal: text::opt_view(self.pending_fatal),
            out: Seq::empty(),
        }
    }

    pub fn new() -> (r: Self)
        ensures
            !r.open,
            r.accumulator@ == accumulator::nothing_held(),
            r.staged@.len() == 0,
            r.staged_samples == 0,
            r.last_speech_at is None,
            r.frames_sent == 0,
            r.pending_transient is None,
            r.pending_fatal is None,
    {
        SonioxBackend {
            open: false,
            accumulator: Accumulator::new(),
            staged: Vec::new(),
            staged_samples: 0,
            last_speech_at: None,
            frames_sent: 0,
            pending_transient: None,
            pending_fatal: None,
        }
    }

    fn finish_and_reset(&mut self, ids: &mut SegmentIds) -> (out: Vec<TranscriptUpdate>)
        ensures
            ({
                let l = accumulator::finished(old(self).accumulator@, old(ids)@);
                &&& final(ids)@ == l.next_id
                &&& asr::updates_view(out@) == l.out
            }),
            final(self).accumulator@ == accumulator::nothing_held(),
            *final(self) == (SonioxBackend {
                accumulator: final(self).accumulator,
                ..*old(self)
            }),
    {
        let out = self.accumulator.finish(ids);
        self.accumulator.reset();
        out
    }

    /// Folds messages from the socket side, read at `now`, into the accumulator.
    pub fn fold(&mut self, messages: Vec<Inbound>, ids: &mut SegmentIds, now: u64) -> (updates: Vec<
        TranscriptUpdate,
    >)
        ensures
            ({
                let f = folded_all(old(self).folding(old(ids)@), messages@, now);
                &&& final(self).folding(final(ids)@) == (Folding { out: Seq::empty(), ..f })
                &&& asr::updates_view(updates@) == f.out
            }),
            final(self).open == old(self).open,
            final(self).staged == old(self).staged,
            final(self).staged_samples == old(self).staged_samples,
            final(self).frames_sent == old(self).frames_sent,
    {
        let mut updates: Vec<TranscriptUpdate> = Vec::new();
        let ghost start = self.folding(ids@);
        let mut i: usize = 0;
        assert(asr::updates_view(updates@) =~= Seq::<UpdateView>::empty());
        assert(messages@.take(0) =~= Seq::<Inbound>::empty());
        while i < messages.len()
            invariant
                i <= messages@.len(),
                ({
                    let f = folded_all(start, messages@.take(i as int), now);
                    &&& self.folding(ids@) == (Folding { out: Seq::empty(), ..f })
                    &&& asr::updates_view(updates@) == f.out
                }),
                self.open == old(self).open,
                self.staged == old(self).staged,
                self.staged_samples == old(self).staged_samples,
                self.frames_sent == old(self).frames_sent,
            decreases messages@.len() - i,
        {
            proof {
                assert(messages@.take(i + 1).drop_last() =~= messages@.take(i as int));
                assert(messages@.take(i + 1).last() == messages@[i as int]);
            }
            match &messages[i] {
                Inbound::Response(response) => {
                    if has_speech(&response.tokens) {
                        self.last_speech_at = Some(now);
                    }
                    let more = self.accumulator.ingest(response, ids);
                    extend(&mut updates, more);
                },
                Inbound::Reconnecting(reason) => {
                    let more = self.finish_and_reset(ids);
                    extend(&mut updates, more);
                    self.pending_transient = Some(
                        text::concat("Reconnecting to Soniox: ", reason.as_str()),
                    );
                },
                Inbound::Finished => {},
                Inbound::Fatal(message) => {
                    let more = self.finish_and_reset(ids);
                    extend(&mut updates, more);
                    self.pending_fatal = Some(message.clone());
                },
            }
            i += 1;
        }
        assert(messages@.take(i as int) =~= messages@);
        updates
    }

    /// Decides between returning text and returning status: text wins, and the
    /// status is owed on the next call. `fallback` is used only when there is
    /// nothing better.
    pub fn deliver(&mut self, updates: Vec<TranscriptUpdate>, fallback: Option<AsrError>) -> (r:
        Result<Vec<TranscriptUpdate>, AsrError>)
        ensures
            if updates@.len() > 0 {
                r == Ok::<Vec<TranscriptUpdate>, AsrError>(updates) && *final(self) == *old(self)
            } else if old(self).pending_fatal is Some {
                &&& r == Err::<Vec<TranscriptUpdate>, AsrError>(
                    AsrError::Fatal(old(self).pending_fatal->0),
                )
                &&& *final(self) == (SonioxBackend { pending_fatal: None, ..*old(self) })
            } else if old(self).pending_transient is Some {
                &&& r == Err::<Vec<TranscriptUpdate>, AsrError>(
                    AsrError::Transient(old(self).pending_transient->0),
                )
                &&& *final(self) == (SonioxBackend { pending_transient: None, ..*old(self) })
            } else {
                &&& r == match fallback {
                    Some(e) => Err::<Vec<TranscriptUpdate>, AsrError>(e),
                    None => Ok(updates),
                }
                &&& *final(self) == *old(self)
            },
    {
        if updates.len() > 0 {
            return Ok(updates);
        }
        if let Some(message) = self.pending_fatal.take() {
            return Err(AsrError::Fatal(message));
        }
        if let Some(message) = self.pending_transient.take() {
            return Err(AsrError::Transient(message));
        }
        if let Some(error) = fallback {
            return Err(error);
        }
        Ok(updates)
    }

    pub fn id(&self) -> (r: &'static str)
        ensures
            r@ == "soniox"@,
    {
        "soniox"
    }

    /// The service does its own semantic endpointing and diarization, so it needs
    /// the whole stream, silence included.
    pub fn capabilities(&self) -> (r: AsrCapabilities)
        ensures
            r.revises_output,
            r.diarization,
            r.audio_gating == AudioGating::Continuous,
            r.activity_source == (ActivitySource::Backend { hold_ms: SPEECH_HOLD_MS }),
    {
        AsrCapabilities {
            revises_output: true,
            diarization: true,
            audio_gating: AudioGating::Continuous,
            activity_source: ActivitySource::Backend { hold_ms: SPEECH_HOLD_MS },
        }
    }

    /// A live socket cannot be handed to the next session.
    pub fn is_cacheable(&self) -> (r: bool)
        ensures
            !r,
    {
        false
    }

    /// Starts over for a new session and says what to connect with. Once the
    /// connection is there, [`SonioxBackend::connected`] opens the session.
    pub fn begin_session(&mut self, settings: &Settings) -> (config: SonioxConfig)
        ensures
            config.api_key == settings.soniox_api_key,
            config.model == settings.soniox_model,
            text::list_view(config.language_hints@) == hints_among(
                text::split_at(settings.soniox_language_hints@, ','),
            ),
            config.diarization == settings.soniox_diarization,
            config.endpoint_detection == settings.soniox_endpoint_detection,
            final(self).open == old(self).open,
            final(self).accumulator@ == accumulator::nothing_held(),
            final(self).staged@.len() == 0,
            final(self).staged_samples == 0,
            final(self).last_speech_at is None,
            final(self).frames_sent == 0,
            final(self).pending_transient is None,
            final(self).pending_fatal is None,
    {
        let config = SonioxConfig {
            api_key: settings.soniox_api_key.clone(),
            model: settings.soniox_model.clone(),
            language_hints: parse_language_hints(settings.soniox_language_hints.as_str()),
            diarization: settings.soniox_diarization,
            endpoint_detection: settings.soniox_endpoint_detection,
        };
        self.accumulator.reset();
        self.staged.clear();
        self.staged_samples = 0;
        self.frames_sent = 0;
        self.last_speech_at = None;
        self.pending_transient = None;
        self.pending_fatal = None;
        config
    }

    pub fn connected(&mut self)
        ensures
            *final(self) == (SonioxBackend { open: true, ..*old(self) }),
    {
        self.open = true;
    }

    /// Stages audio; nothing is sent inside the voice-activity frame loop.
    pub fn push_audio(&mut self, samples: &[i16])
        requires
            old(self).staged_samples + samples@.len() <= usize::MAX,
        ensures
            final(self).staged@ == old(self).staged@ + protocol::little_endian(samples@),
            *final(self) == (SonioxBackend {
                staged: final(self).staged,
                staged_samples: (old(self).staged_samples + samples@.len()) as usize,
                ..*old(self)
            }),
    {
        let mut pcm = protocol::pcm_s16le(samples);
        self.staged.append(&mut pcm);
        self.staged_samples = self.staged_samples + samples.len();
    }

    /// Takes the staged audio as one frame to send, if there is any. Audio staged
    /// without an open connection is lost.
    pub fn take_frame(&mut self) -> (r: Result<Option<(Vec<u8>, usize)>, AsrError>)
        ensures
            if old(self).staged@.len() == 0 {
                r == Ok::<Option<(Vec<u8>, usize)>, AsrError>(None) && *final(self) == *old(self)
            } else {
                &&& final(self).staged@.len() == 0
                &&& *final(self) == (SonioxBackend {
                    staged: final(self).staged,
                    staged_samples: 0,
                    ..*old(self)
                })
                &&& match r {
                    Ok(frame) => old(self).open && frame is Some && frame->Some_0.0@ == old(
                        self,
                    ).staged@ && frame->Some_0.1 == old(self).staged_samples,
                    Err(e) => !old(self).open && e is Fatal && e.text()
                        == "The Soniox session is not open"@,
                }
            },
    {
        if self.staged.len() == 0 {
            return Ok(None);
        }
        let mut pcm: Vec<u8> = Vec::new();
        std::mem::swap(&mut pcm, &mut self.staged);
        let samples: usize = self.staged_samples;
        self.staged_samples = 0;
        if !self.open {
            return Err(AsrError::Fatal("The Soniox session is not open".to_owned()));
        }
        Ok(Some((pcm, samples)))
    }

    /// The rest of a processing pass, once the staged frame was dealt with:
    /// `messages` are what the socket side has produced. A frame that could not be
    /// sent is reported only if the socket side said nothing better.
    pub fn process(
        &mut self,
        frame: FrameOutcome,
        messages: Vec<Inbound>,
        ids: &mut SegmentIds,
        now: u64,
    ) -> (r: Result<Vec<TranscriptUpdate>, AsrError>)
        ensures
            ({
                let f = folded_all(
                    old(self).folding(old(ids)@),
                    if old(self).open {
                        messages@
                    } else {
                        Seq::empty()
                    },
                    now,
                );
                &&& final(ids)@ == f.next_id
                &&& final(self).accumulator@ == f.held
                &&& final(self).last_speech_at == f.last_speech_at
                &&& match r {
                    Ok(updates) => asr::updates_view(updates@) == f.out && (f.out.len() > 0 || {
                        &&& f.fatal is None
                        &&& f.transient is None
                        &&& !(frame is Failed)
                    }),
                    Err(e) => f.out.len() == 0 && if f.fatal is Some {
                        e is Fatal && e.text() == f.fatal->0
                    } else if f.transient is Some {
                        e is Transient && e.text() == f.transient->0
                    } else {
                        frame is Failed && e == frame->Failed_0
                    },
                }
                &&& text::opt_view(final(self).pending_fatal) == if f.out.len() == 0 {
                    None
                } else {
                    f.fatal
                }
                &&& text::opt_view(final(self).pending_transient) == if f.out.len() == 0
                    && f.fatal is None {
                    None
                } else {
                    f.transient
                }
            }),
            final(self).open == old(self).open,
            final(self).staged == old(self).staged,
            final(self).staged_samples == old(self).staged_samples,
            final(self).frames_sent == if frame is Sent {
                if old(self).frames_sent == u64::MAX {
                    u64::MAX
                } else {
                    (old(self).frames_sent + 1) as u64
                }
            } else {
                old(self).frames_sent
            },
    {
        let fallback = match frame {
            FrameOutcome::NothingStaged => None,
            FrameOutcome::Sent => {
                self.frames_sent = self.frames_sent.saturating_add(1);
                None
            },
            FrameOutcome::Failed(e) => Some(e),
        };
        let none: Vec<Inbound> = Vec::new();
        assert(none@ =~= Seq::<Inbound>::empty());
        let messages = if self.open {
            messages
        } else {
            none
        };
        let updates = self.fold(messages, ids, now);
        assert(asr::updates_view(updates@).len() == updates@.len());
        self.deliver(updates, fallback)
    }

    /// Takes results while no audio arrives.
    pub fn poll(&mut self, messages: Vec<Inbound>, ids: &mut SegmentIds, now: u64) -> (r: Result<
        Vec<TranscriptUpdate>,
        AsrError,
    >)
        ensures
            ({
                let f = folded_all(
                    old(self).folding(old(ids)@),
                    if old(self).open {
                        messages@
                    } else {
                        Seq::empty()
                    },
                    now,
                );
                &&& final(ids)@ == f.next_id
                &&& final(self).accumulator@ == f.held
                &&& final(self).last_speech_at == f.last_speech_at
                &&& match r {
                    Ok(updates) => asr::updates_view(updates@) == f.out && (f.out.len() > 0
                        || f.fatal is None && f.transient is None),
                    Err(e) => f.out.len() == 0 && if f.fatal is Some {
                        e is Fatal && e.text() == f.fatal->0
                    } else {
                        f.transient is Some && e is Transient && e.text() == f.transient->0
                    },
                }
                &&& text::opt_view(final(self).pending_fatal) == if f.out.len() == 0 {
                    None
                } else {
                    f.fatal
                }
                &&& text::opt_view(final(self).pending_transient) == if f.out.len() == 0
                    && f.fatal is None {
                    None
                } else {
                    f.transient
                }
            }),
            final(self).open == old(self).open,
            final(self).staged == old(self).staged,
            final(self).staged_samples == old(self).staged_samples,
            final(self).frames_sent == old(self).frames_sent,
    {
        self.process(FrameOutcome::NothingStaged, messages, ids, now)
    }

    pub fn last_speech_at(&self) -> (r: Option<u64>)
        ensures
            r == self.last_speech_at,
    {
        self.last_speech_at
    }

    pub fn chunks_processed(&self) -> (r: u64)
        ensures
            r == self.frames_sent,
    {
        self.frames_sent
    }

    /// Begins teardown. Without a connection what is open is flushed at once; with
    /// one, the connection is given up and the staged audio comes back as a last
    /// frame, and the caller goes through the end-of-stream handshake.
    pub fn end_session(&mut self, ids: &mut SegmentIds) -> (r: Teardown)
        ensures
            if old(self).open {
                &&& *final(ids) == *old(ids)
                &&& r matches Teardown::Handshake { last_frame }
                &&& !final(self).open
                &&& final(self).staged@.len() == 0
                &&& if old(self).staged@.len() == 0 {
                    last_frame is None && final(self).staged_samples == old(self).staged_samples
                } else {
                    last_frame is Some && last_frame->Some_0.0@ == old(self).staged@ && last_frame->Some_0.1
                        == old(self).staged_samples && final(self).staged_samples == 0
                }
                &&& *final(self) == (SonioxBackend {
                    open: false,
                    staged: final(self).staged,
                    staged_samples: final(self).staged_samples,
                    ..*old(self)
                })
            } else {
                let l = accumulator::finished(old(self).accumulator@, old(ids)@);
                &&& r matches Teardown::Flushed { updates }
                &&& asr::updates_view(updates@) == l.out
                &&& final(ids)@ == l.next_id
                &&& final(self).accumulator@ == l.held
                &&& *final(self) == (SonioxBackend {
                    accumulator: final(self).accumulator,
                    ..*old(self)
                })
            },
    {
        if !self.open {
            return Teardown::Flushed { updates: self.accumulator.finish(ids) };
        }
        self.open = false;
        if self.staged.len() == 0 {
            return Teardown::Handshake { last_frame: None };
        }
        let mut pcm: Vec<u8> = Vec::new();
        std::mem::swap(&mut pcm, &mut self.staged);
        let samples: usize = self.staged_samples;
        self.staged_samples = 0;
        Teardown::Handshake { last_frame: Some((pcm, samples)) }
    }

    /// Folds one message of the end-of-stream handshake. `false` means that no
    /// more will follow.
    pub fn fold_tail(&mut self, message: &Inbound, ids: &mut SegmentIds) -> (r: (
        Vec<TranscriptUpdate>,
        bool,
    ))
        ensures
            ({
                let f = tail_folded(old(self).folding(old(ids)@), *message);
                &&& final(self).folding(final(ids)@) == (Folding { out: Seq::empty(), ..f })
                &&& asr::updates_view(r.0@) == f.out
            }),
            r.1 == (message is Response || message is Reconnecting),
            *final(self) == (SonioxBackend {
                accumulator: final(self).accumulator,
                ..*old(self)
            }),
    {
        match message {
            Inbound::Response(response) => {
                let updates = self.accumulator.ingest(response, ids);
                assert(Seq::<UpdateView>::empty() + asr::updates_view(updates@)
                    =~= asr::updates_view(updates@));
                (updates, true)
            },
            Inbound::Reconnecting(_) => {
                let updates = self.finish_and_reset(ids);
                assert(Seq::<UpdateView>::empty() + asr::updates_view(updates@)
                    =~= asr::updates_view(updates@));
                (updates, true)
            },
            Inbound::Finished | Inbound::Fatal(_) => {
                let updates: Vec<TranscriptUpdate> = Vec::new();
                assert(asr::updates_view(updates@) =~= Seq::<UpdateView>::empty());
                (updates, false)
            },
        }
    }

    /// Ends teardown: flushes what is still open and forgets the session.
    pub fn close(&mut self, ids: &mut SegmentIds) -> (updates: Vec<TranscriptUpdate>)
        ensures
            ({
                let l = accumulator::finished(old(self).accumulator@, old(ids)@);
                &&& asr::updates_view(updates@) == l.out
                &&& final(ids)@ == l.next_id
            }),
            final(self).accumulator@ == accumulator::nothing_held(),
            *final(self) == (SonioxBackend {
                accumulator: final(self).accumulator,
                last_speech_at: None,
                pending_transient: None,
                pending_fatal: None,
                ..*old(self)
            }),
    {
        let updates = self.finish_and_reset(ids);
        self.last_speech_at = None;
        self.pending_transient = None;
        self.pending_fatal = None;
        updates
    }
}

/// How teardown goes on.
pub enum Teardown {
    /// It is complete.
    Flushed { updates: Vec<TranscriptUpdate> },
    /// Send this frame, then the end of the stream; fold what comes back.
    Handshake { last_frame: Option<(Vec<u8>, usize)> },
}

/// One message of the end-of-stream handshake. The finals that the server flushes
/// are the tail of the transcript, so they are folded in; no status is kept.
pub open spec fn tail_folded(f: Folding, message: Inbound) -> Folding {
    match message {
        Inbound::Response(response) => {
            let l = accumulator::ingested(f.held, f.next_id, response.tokens@);
            Folding { held: l.held, next_id: l.next_id, out: f.out + l.out, ..f }
        },
        Inbound::Reconnecting(_) => flushed_out(f),
        Inbound::Finished => f,
        Inbound::Fatal(_) => f,
    }
}

fn has_speech(tokens: &Vec<SonioxToken>) -> (r: bool)
    ensures
        r == any_speech(tokens@),
{
    let mut i: usize = 0;
    while i < tokens.len()
        invariant
            i <= tokens@.len(),
            forall|k: int| 0 <= k < i ==> !(#[trigger] tokens@[k]).speech(),
        decreases tokens@.len() - i,
    {
        if Accumulator::is_speech_token(&tokens[i]) {
            assert(tokens@[i as int].speech());
            return true;
        }
        i += 1;
    }
    false
}

impl Default for SonioxBackend {
    fn default() -> (r: Self)
        ensures
            !r.open,
            r.accumulator@ == accumulator::nothing_held(),
            r.staged@.len() == 0,
            r.staged_samples == 0,
            r.last_speech_at is None,
            r.frames_sent == 0,
            r.pending_transient is None,
            r.pending_fatal is None,
    {
        Self::new()
    }
}

} // verus!
