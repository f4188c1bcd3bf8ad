//! Pluggable speech-recognition engines.
//!
//! The processing loop owns the shared pipeline stages (capture drain, resample,
//! gain, voice activity) and pushes speech-gated audio into an engine. Engines are
//! announced through a [`registry::EngineRegistry`].

use vstd::prelude::*;

use crate::text;

pub mod april;
pub mod april_laws;
pub mod audio_engine;
pub mod diagnostics;
pub mod loop_laws;
pub mod nemotron;
pub mod nemotron_laws;
pub mod registry;
pub mod settings;
pub mod tracker;

verus! {

/// One transcription segment update from an engine.
///
/// Engines that revise hypotheses emit several updates with the same
/// `segment_id` and `is_final: false`, each replacing the previous text, then
/// one closing update with `is_final: true`. Engines whose output is
/// append-only emit every segment already finalized.
#[derive(Debug, Clone)]
pub struct SegmentUpdate {
    /// Engine-local id, unique within one engine instance. The core remaps it
    /// to a globally unique id before emitting to the UI.
    pub segment_id: u64,
    pub text: String,
    pub is_final: bool,
}

/// What a [`SegmentUpdate`] says.
#[verifier::ext_equal]
pub struct SegmentView {
    pub segment_id: u64,
    pub text: Seq<char>,
    pub is_final: bool,
}

impl View for SegmentUpdate {
    type V = SegmentView;

    open spec fn view(&self) -> SegmentView {
        SegmentView { segment_id: self.segment_id, text: self.text@, is_final: self.is_final }
    }
}

/// What a list of updates says, in order.
pub open spec fn segments_view(v: Seq<SegmentUpdate>) -> Seq<SegmentView> {
    Seq::new(v.len(), |i: int| v[i]@)
}

#[derive(Debug)]
pub enum EngineError {
    /// The session cannot continue (model failed to load, backend died).
    Fatal(String),
    /// A recoverable hiccup (one bad chunk); log and continue.
    Transient(String),
}

impl EngineError {
    pub open spec fn text(self) -> Seq<char> {
        match self {
            EngineError::Fatal(m) => "fatal engine error: "@ + m@,
            EngineError::Transient(m) => "transient engine error: "@ + m@,
        }
    }

    /// The error as it is shown and logged.
    pub fn to_text(&self) -> (r: String)
        ensures
            r@ == self.text(),
    {
        match self {
            EngineError::Fatal(m) => text::concat("fatal engine error: ", m.as_str()),
            EngineError::Transient(m) => text::concat("transient engine error: ", m.as_str()),
        }
    }
}

/// A list of segments is seen as it is: each once, in its place, with its id, its text and
/// whether it is final.
pub proof fn law_segments_are_seen_as_they_are(v: Seq<SegmentUpdate>, i: int)
    ensures
        segments_view(v).len() == v.len(),
        0 <= i < v.len() ==> {
            let seen = segments_view(v)[i];
            &&& seen.segment_id == v[i].segment_id
            &&& seen.is_final == v[i].is_final
            &&& seen.text == v[i].text@
        },
{
}

} // verus!
