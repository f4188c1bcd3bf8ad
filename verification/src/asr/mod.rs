//! Speech-recognition backends.
//!
//! A backend declares what it can do through [`AsrCapabilities`]; the processing
//! loop adapts its audio routing and its meter signal to that.

use vstd::prelude::*;

use crate::text;

pub mod nemotron;
pub mod soniox;

verus! {

/// A stable speaker identity within one session.
#[derive(Debug, Clone, PartialEq, Eq)]
pub struct SpeakerId(pub String);

/// One segment of transcript, created or revised.
///
/// * `text` is the complete text of the segment, never a delta.
/// * A `segment_id` may be emitted any number of times with `is_final: false`,
///   then at most once with `is_final: true`, and never again after that.
/// * Ids increase monotonically in emission order.
///
/// An append-only backend emits every segment already final, each id once.
#[derive(Debug, Clone)]
pub struct TranscriptUpdate {
    pub segment_id: u64,
    pub is_final: bool,
    pub text: String,
    /// `None` when the provider does not diarize, or has not yet attributed
    /// this segment.
    pub speaker: Option<SpeakerId>,
}

/// What a [`TranscriptUpdate`] says.
#[verifier::ext_equal]
pub struct UpdateView {
    pub segment_id: u64,
    pub is_final: bool,
    pub text: Seq<char>,
    pub speaker: Option<Seq<char>>,
}

impl View for TranscriptUpdate {
    type V = UpdateView;

    open spec fn view(&self) -> UpdateView {
        UpdateView {
            segment_id: self.segment_id,
            is_final: self.is_final,
            text: self.text@,
            speaker: match self.speaker {
                Some(s) => Some(s.0@),
                None => None,
            },
        }
    }
}

/// What a list of updates says, in order.
pub open spec fn updates_view(v: Seq<TranscriptUpdate>) -> Seq<UpdateView> {
    Seq::new(v.len(), |i: int| v[i]@)
}

/// The rule every backend's stream of updates obeys: ids never go back, and once
/// an id has been emitted as final only larger ids follow.
pub open spec fn follows_update_rule(trace: Seq<UpdateView>) -> bool {
    &&& forall|i: int, j: int|
        0 <= i < j < trace.len() ==> (#[trigger] trace[i]).segment_id <= (
        #[trigger] trace[j]).segment_id
    &&& forall|i: int, j: int|
        0 <= i < j < trace.len() && (#[trigger] trace[i]).is_final ==> trace[i].segment_id < (
        #[trigger] trace[j]).segment_id
}

#[derive(Debug)]
pub enum AsrError {
    /// The session cannot continue (model load failed, auth rejected, socket
    /// dead past retry). Ends the session and surfaces to the UI.
    Fatal(String),
    /// Recoverable hiccup. Logged to diagnostics and surfaced as a status
    /// notice; the session continues.
    Transient(String),
}

impl AsrError {
    pub open spec fn text(self) -> Seq<char> {
        match self {
            AsrError::Fatal(m) => m@,
            AsrError::Transient(m) => m@,
        }
    }

    /// The message, whichever kind of error carries it.
    pub fn to_text(&self) -> (r: String)
        ensures
            r@ == self.text(),
    {
        match self {
            AsrError::Fatal(m) => m.clone(),
            AsrError::Transient(m) => m.clone(),
        }
    }
}

/// How the pipeline routes audio into a backend.
#[derive(Debug, Clone, Copy, PartialEq, Eq, Structural)]
pub enum AudioGating {
    /// Speech only: the pre-speech ring buffer at onset, then each speech
    /// frame.
    VadGated,
    /// Every frame, silence included, exactly once.
    ///
    /// The pre-speech ring buffer is never delivered in this mode: those
    /// samples already went out as ordinary frames.
    Continuous,
}

/// What drives the "hot" (coloured) state of the level meter.
#[derive(Debug, Clone, Copy, PartialEq, Eq, Structural)]
pub enum ActivitySource {
    /// The pipeline's voice-activity state.
    Vad,
    /// The backend's last evidence of speech, held for `hold_ms` past it.
    Backend { hold_ms: u64 },
}

#[derive(Debug, Clone, Copy)]
pub struct AsrCapabilities {
    /// Emits non-final segments that later change.
    pub revises_output: bool,
    /// Populates [`TranscriptUpdate::speaker`].
    pub diarization: bool,
    pub audio_gating: AudioGating,
    pub activity_source: ActivitySource,
}

/// The id that follows `n`.
pub open spec fn id_after(n: u64) -> u64 {
    if n == u64::MAX {
        0
    } else {
        (n + 1) as u64
    }
}

/// Monotonic segment ids, owned by the engine and shared across sessions and
/// provider switches so that an id is never reused while a stale segment carrying
/// it could still be on screen. The view is the id that comes next.
#[derive(Debug)]
pub struct SegmentIds(pub u64);

impl View for SegmentIds {
    type V = u64;

    open spec fn view(&self) -> u64 {
        self.0
    }
}

impl SegmentIds {
    pub fn new() -> (r: Self)
        ensures
            r@ == 1,
    {
        SegmentIds(1)
    }

    /// Hands out the next id. The counter wraps around at the end of `u64`.
    pub fn next(&mut self) -> (id: u64)
        ensures
            id == old(self)@,
            final(self)@ == id_after(old(self)@),
    {
        let id: u64 = self.0;
        self.0 = self.0.wrapping_add(1);
        id
    }
}

impl Default for SegmentIds {
    /// A counter that starts at zero.
    fn default() -> (r: Self)
        ensures
            r@ == 0,
    {
        SegmentIds(0)
    }
}

/// A backend kept from an earlier session.
#[derive(Debug, Clone, Copy)]
pub struct CachedBackend<'a> {
    pub id: &'a str,
    pub cacheable: bool,
}

/// Where a session's backend comes from.
#[derive(Debug, Clone, Copy, PartialEq, Eq, Structural)]
pub enum BackendChoice {
    /// The cached instance goes on.
    Reuse,
    NewNemotron,
    NewSoniox,
}

/// Chooses the backend named by `provider`, reusing `cached` when it is the same
/// cacheable provider.
pub fn create_backend(provider: &str, cached: Option<CachedBackend<'_>>) -> (r: Result<
    BackendChoice,
    AsrError,
>)
    ensures
        match r {
            Ok(choice) => if provider@ == "nemotron"@ {
                choice == if cached is Some && cached->0.cacheable && cached->0.id@ == provider@ {
                    BackendChoice::Reuse
                } else {
                    BackendChoice::NewNemotron
                }
            } else {
                provider@ == "soniox"@ && choice == BackendChoice::NewSoniox
            },
            Err(e) => {
                &&& provider@ != "nemotron"@
                &&& provider@ != "soniox"@
                &&& e is Fatal
                &&& e.text() == "Unknown transcription provider '"@ + provider@ + "'"@
            },
        },
{
    if text::same_text(provider, "nemotron") {
        let reusable = match cached {
            Some(b) => b.cacheable && text::same_text(b.id, provider),
            None => false,
        };
        if reusable {
            return Ok(BackendChoice::Reuse);
        }
        return Ok(BackendChoice::NewNemotron);
    }
    if text::same_text(provider, "soniox") {
        return Ok(BackendChoice::NewSoniox);
    }
    let mut message = text::concat("Unknown transcription provider '", provider);
    message.append("'");
    Err(AsrError::Fatal(message))
}

/// Ids count up by one, without a gap, and no two ids have the same successor.
pub proof fn law_ids_count_up(a: u64, b: u64)
    ensures
        a < u64::MAX ==> id_after(a) == a + 1,
        id_after(a) == id_after(b) ==> a == b,
        id_after(a) != a,
{
}

/// A list of updates is seen as it is: each update once, in its place, with its id, its
/// text, its speaker and whether it is final.
pub proof fn law_updates_are_seen_as_they_are(v: Seq<TranscriptUpdate>, i: int)
    ensures
        updates_view(v).len() == v.len(),
        0 <= i < v.len() ==> {
            let seen = updates_view(v)[i];
            &&& seen.segment_id == v[i].segment_id
            &&& seen.is_final == v[i].is_final
            &&& seen.text == v[i].text@
            &&& seen.speaker is Some <==> v[i].speaker is Some
            &&& seen.speaker is Some ==> seen.speaker->Some_0 == v[i].speaker->Some_0.0@
        },
{
}

} // verus!
