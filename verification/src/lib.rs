//! Real-time speech transcription: the decisions of the pipeline.
//!
//! Audio is captured, conditioned, gated by voice activity and handed to a
//! recognition backend, whose segments go to a user interface. Devices, models,
//! sockets, files and the clock belong to the application around this library; it
//! performs the actions that the state machines here hand out and reports what came
//! of them.
//!
//! Floating-point values pass through as bit patterns ([`bits`]), and audio as
//! sequences of any sample type.

use vstd::prelude::*;

pub mod asr;
pub mod audio_capture;
pub mod audio_engine;
pub mod bits;
pub mod decoder;
pub mod decoder_laws;
pub mod diag;
pub mod diag_laws;
pub mod drain_laws;
pub mod engine;
pub mod json;
pub mod log_laws;
pub mod loop_laws;
pub mod paths;
pub mod report;
pub mod reset_laws;
pub mod samples;
pub mod session_laws;
pub mod settings;
pub mod settings_laws;
pub mod text;
pub mod text_laws;
pub mod vad;
pub mod vad_laws;

verus! {

/// Severity of a non-fatal engine notice.
#[derive(Debug, Clone, Copy, PartialEq, Eq, Structural)]
pub enum StatusLevel {
    Info,
    Warn,
}

} // verus!
