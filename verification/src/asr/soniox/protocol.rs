//! Soniox realtime WebSocket wire types.
//!
//! There is no header-based auth: the key travels in the first message.
//!
//! Response frames have no type discriminator: transcripts, errors and the
//! terminal message all share one shape and are told apart by which optional
//! fields are populated.

use serde_json::Value;
use vstd::prelude::*;

use crate::bits::Double;
use crate::json;
use crate::json::JsonView;
use crate::text;

verus! {

pub const SONIOX_URL: &'static str = "wss://stt-rt.soniox.com/transcribe-websocket";

/// Emitted by endpoint detection at the end of a finalized segment.
pub const TOKEN_END: &'static str = "<end>";

/// The server's acknowledgement of a manual finalize request.
pub const TOKEN_FIN: &'static str = "<fin>";

#[derive(Debug, Clone)]
pub struct SonioxToken {
    pub text: String,
    pub start_ms: Option<u64>,
    pub end_ms: Option<u64>,
    pub confidence: Option<Double>,
    pub is_final: bool,
    pub speaker: Option<String>,
    pub language: Option<String>,
    pub source_language: Option<String>,
    pub translation_status: Option<String>,
}

impl Default for SonioxToken {
    fn default() -> (r: Self)
        ensures
            r.text@ == Seq::<char>::empty(),
            r.start_ms is None,
            r.end_ms is None,
            r.confidence is None,
            !r.is_final,
            r.speaker is None,
            r.language is None,
            r.source_language is None,
            r.translation_status is None,
    {
        SonioxToken {
            text: String::new(),
            start_ms: None,
            end_ms: None,
            confidence: None,
            is_final: false,
            speaker: None,
            language: None,
            source_language: None,
            translation_status: None,
        }
    }
}

impl SonioxToken {
    /// One of the control tokens, whatever whitespace surrounds it.
    pub open spec fn special(self) -> bool {
        text::trim_of(self.text@) == TOKEN_END@ || text::trim_of(self.text@) == TOKEN_FIN@
    }

    pub open spec fn end_marker(self) -> bool {
        text::trim_of(self.text@) == TOKEN_END@
    }

    /// The trimmed speaker label; a blank label is no label.
    pub open spec fn speaker_label(self) -> Option<Seq<char>> {
        match self.speaker {
            Some(s) => if text::trim_of(s@).len() == 0 {
                None
            } else {
                Some(text::trim_of(s@))
            },
            None => None,
        }
    }

    /// Displayable speech: neither a control token nor whitespace.
    pub open spec fn speech(self) -> bool {
        !self.special() && !text::is_blank_text(self.text@)
    }

    /// True for the control tokens that must never reach displayed text.
    pub fn is_special(&self) -> (r: bool)
        ensures
            r == self.special(),
    {
        let t = text::trim(self.text.as_str());
        text::same_text(t, TOKEN_END) || text::same_text(t, TOKEN_FIN)
    }

    /// Marks the end of a finalized segment; used as a flush signal.
    pub fn is_end_marker(&self) -> (r: bool)
        ensures
            r == self.end_marker(),
    {
        text::same_text(text::trim(self.text.as_str()), TOKEN_END)
    }

    /// Speaker label normalized: whitespace trimmed, empty treated as absent.
    pub fn normalized_speaker(&self) -> (r: Option<String>)
        ensures
            text::opt_view(r) == self.speaker_label(),
    {
        match &self.speaker {
            Some(s) => {
                let label = text::trim(s.as_str());
                if text::is_empty(label) {
                    None
                } else {
                    Some(label.to_owned())
                }
            },
            None => None,
        }
    }
}

#[derive(Debug, Clone)]
pub struct SonioxResponse {
    pub tokens: Vec<SonioxToken>,
    pub final_audio_proc_ms: u64,
    pub total_audio_proc_ms: u64,
    pub finished: bool,
    pub error_code: Option<u32>,
    pub error_type: Option<String>,
    pub error_message: Option<String>,
    pub more_info: Option<String>,
    pub request_id: Option<String>,
}

impl Default for SonioxResponse {
    fn default() -> (r: Self)
        ensures
            r.tokens@.len() == 0,
            r.final_audio_proc_ms == 0,
            r.total_audio_proc_ms == 0,
            !r.finished,
            r.error_code is None,
            r.error_type is None,
            r.error_message is None,
            r.more_info is None,
            r.request_id is None,
    {
        SonioxResponse {
            tokens: Vec::new(),
            final_audio_proc_ms: 0,
            total_audio_proc_ms: 0,
            finished: false,
            error_code: None,
            error_type: None,
            error_message: None,
            more_info: None,
            request_id: None,
        }
    }
}

#[derive(Debug, Clone, PartialEq, Eq)]
pub struct SonioxError {
    pub error_type: String,
    pub message: String,
    pub retryable: bool,
}

impl SonioxResponse {
    /// Errors are detected by `error_type` being present.
    ///
    /// Not by `error_code`, which is absent on some errors, and not by an empty
    /// token list, which is normal during silence.
    pub fn error(&self) -> (r: Option<SonioxError>)
        ensures
            r is Some <==> self.error_type is Some,
            r matches Some(e) ==> {
                &&& e.error_type@ == self.error_type->0@
                &&& e.message@ == match self.error_message {
                    Some(m) => m@,
                    None => self.error_type->0@,
                }
                &&& e.retryable == retryable_type(self.error_type->0@)
            },
    {
        match &self.error_type {
            Some(t) => {
                let message = match &self.error_message {
                    Some(m) => m.clone(),
                    None => t.clone(),
                };
                let retryable = is_retryable(t.as_str());
                Some(SonioxError { error_type: t.clone(), message, retryable })
            },
            None => None,
        }
    }
}

/// Transient server-side conditions worth reconnecting through.
pub open spec fn retryable_type(error_type: Seq<char>) -> bool {
    ||| error_type == "request_timeout"@
    ||| error_type == "max_duration_reached"@
    ||| error_type == "limit_exceeded"@
    ||| error_type == "internal_error"@
    ||| error_type == "service_unavailable"@
}

/// Everything else (auth, malformed request, unavailable model, expired key,
/// exhausted balance) is permanent and must not be retried.
pub fn is_retryable(error_type: &str) -> (r: bool)
    ensures
        r == retryable_type(error_type@),
{
    text::same_text(error_type, "request_timeout") || text::same_text(
        error_type,
        "max_duration_reached",
    ) || text::same_text(error_type, "limit_exceeded") || text::same_text(
        error_type,
        "internal_error",
    ) || text::same_text(error_type, "service_unavailable")
}

/// First text frame, sent immediately after connect.
///
/// Field names are load-bearing: it is `num_channels` (not `channels`) and
/// `enable_speaker_diarization` (not `enable_diarization`).
#[derive(Debug, Clone)]
pub struct StartRequest {
    pub api_key: String,
    pub model: String,
    pub audio_format: String,
    pub sample_rate: u32,
    pub num_channels: u32,
    pub language_hints: Vec<String>,
    pub language_hints_strict: bool,
    pub enable_speaker_diarization: bool,
    pub enable_language_identification: bool,
    pub enable_endpoint_detection: bool,
}

impl StartRequest {
    pub fn new(
        api_key: String,
        model: String,
        language_hints: Vec<String>,
        diarization: bool,
        endpoint_detection: bool,
    ) -> (r: Self)
        ensures
            r.api_key == api_key,
            r.model == model,
            r.audio_format@ == "pcm_s16le"@,
            r.sample_rate == 16_000,
            r.num_channels == 1,
            r.language_hints == language_hints,
            !r.language_hints_strict,
            r.enable_speaker_diarization == diarization,
            !r.enable_language_identification,
            r.enable_endpoint_detection == endpoint_detection,
    {
        StartRequest {
            api_key,
            model,
            audio_format: "pcm_s16le".to_owned(),
            sample_rate: 16_000,
            num_channels: 1,
            language_hints,
            language_hints_strict: false,
            enable_speaker_diarization: diarization,
            enable_language_identification: false,
            enable_endpoint_detection: endpoint_detection,
        }
    }

    /// What goes over the wire: an object with every field under its own name, and
    /// nothing else.
    pub open spec fn wire(self) -> JsonView {
        JsonView::Object(
            Map::<Seq<char>, JsonView>::empty()
                .insert("api_key"@, JsonView::Text(self.api_key@))
                .insert("model"@, JsonView::Text(self.model@))
                .insert("audio_format"@, JsonView::Text(self.audio_format@))
                .insert("sample_rate"@, JsonView::Integer(self.sample_rate as int))
                .insert("num_channels"@, JsonView::Integer(self.num_channels as int))
                .insert("language_hints"@, JsonView::List(json::texts_json(self.language_hints@)))
                .insert("language_hints_strict"@, JsonView::Bool(self.language_hints_strict))
                .insert(
                    "enable_speaker_diarization"@,
                    JsonView::Bool(self.enable_speaker_diarization),
                )
                .insert(
                    "enable_language_identification"@,
                    JsonView::Bool(self.enable_language_identification),
                )
                .insert(
                    "enable_endpoint_detection"@,
                    JsonView::Bool(self.enable_endpoint_detection),
                ),
        )
    }

    /// The request as JSON.
    pub fn to_json(self) -> (r: Value)
        ensures
            json::json_view(r) == self.wire(),
    {
        let mut m = json::new_map();
        assert(json::map_view(m) =~= Map::<Seq<char>, JsonView>::empty());
        json::insert(&mut m, "api_key".to_owned(), json::from_text(self.api_key.as_str()));
        json::insert(&mut m, "model".to_owned(), json::from_text(self.model.as_str()));
        json::insert(
            &mut m,
            "audio_format".to_owned(),
            json::from_text(self.audio_format.as_str()),
        );
        json::insert(&mut m, "sample_rate".to_owned(), json::from_count(self.sample_rate as u64));
        json::insert(
            &mut m,
            "num_channels".to_owned(),
            json::from_count(self.num_channels as u64),
        );
        json::insert(&mut m, "language_hints".to_owned(), json::from_texts(self.language_hints));
        json::insert(
            &mut m,
            "language_hints_strict".to_owned(),
            json::from_flag(self.language_hints_strict),
        );
        json::insert(
            &mut m,
            "enable_speaker_diarization".to_owned(),
            json::from_flag(self.enable_speaker_diarization),
        );
        json::insert(
            &mut m,
            "enable_language_identification".to_owned(),
            json::from_flag(self.enable_language_identification),
        );
        json::insert(
            &mut m,
            "enable_endpoint_detection".to_owned(),
            json::from_flag(self.enable_endpoint_detection),
        );
        json::from_map(m)
    }
}

/// The two's-complement bits of a sample.
pub open spec fn sample_bits(s: i16) -> int {
    if s < 0 {
        s + 0x1_0000
    } else {
        s as int
    }
}

/// Samples as bytes, the low byte of each first.
pub open spec fn little_endian(samples: Seq<i16>) -> Seq<u8> {
    Seq::new(
        2 * samples.len(),
        |i: int|
            if i % 2 == 0 {
                (sample_bits(samples[i / 2]) % 256) as u8
            } else {
                (sample_bits(samples[i / 2]) / 256) as u8
            },
    )
}

/// Converts 16-bit samples to the little-endian PCM the service expects.
pub fn pcm_s16le(samples: &[i16]) -> (out: Vec<u8>)
    ensures
        out@ == little_endian(samples@),
{
    let mut out: Vec<u8> = Vec::new();
    let mut i: usize = 0;
    while i < samples.len()
        invariant
            i <= samples@.len(),
            out@ == little_endian(samples@.take(i as int)),
        decreases samples@.len() - i,
    {
        let s: i32 = samples[i] as i32;
        let bits: i32 = if s < 0 {
            s + 0x1_0000
        } else {
            s
        };
        out.push((bits % 256) as u8);
        out.push((bits / 256) as u8);
        i += 1;
        assert(out@ =~= little_endian(samples@.take(i as int)));
    }
    assert(samples@.take(i as int) =~= samples@);
    out
}

/// Every sample can be read back from its two bytes.
pub proof fn law_pcm_reads_back(samples: Seq<i16>, i: int)
    requires
        0 <= i < samples.len(),
    ensures
        little_endian(samples).len() == 2 * samples.len(),
        little_endian(samples)[2 * i] + 256 * little_endian(samples)[2 * i + 1] == sample_bits(
            samples[i],
        ),
{
    let b = sample_bits(samples[i]);
    assert((2 * i) / 2 == i && (2 * i + 1) / 2 == i && (2 * i) % 2 == 0 && (2 * i + 1) % 2 == 1);
    assert(0 <= b < 0x1_0000);
    assert(0 <= b / 256 < 256);
    assert(b == b % 256 + 256 * (b / 256));
}

} // verus!
