//! What goes over the wire, and what a token says.

use vstd::prelude::*;

use super::client;
use super::client::SonioxConfig;
use super::protocol;
use super::protocol::SonioxToken;
use super::protocol::StartRequest;
use crate::json;
use crate::json::JsonView;
use crate::text;
use crate::text_laws;

verus! {

// ---------------------------------------------------------------------------
// The start frame
// ---------------------------------------------------------------------------

/// The names of the fields of the start frame.
pub open spec fn field_names() -> Seq<Seq<char>> {
    seq![
        "api_key"@,
        "model"@,
        "audio_format"@,
        "sample_rate"@,
        "num_channels"@,
        "language_hints"@,
        "language_hints_strict"@,
        "enable_speaker_diarization"@,
        "enable_language_identification"@,
        "enable_endpoint_detection"@,
    ]
}

proof fn lemma_names_differ()
    ensures
        "api_key"@.len() == 7,
        "model"@.len() == 5,
        "audio_format"@.len() == 12,
        "sample_rate"@.len() == 11,
        "num_channels"@.len() == 12,
        "language_hints"@.len() == 14,
        "language_hints_strict"@.len() == 21,
        "enable_speaker_diarization"@.len() == 26,
        "enable_language_identification"@.len() == 30,
        "enable_endpoint_detection"@.len() == 25,
        "audio_format"@ != "num_channels"@,
{
    reveal_strlit("api_key");
    reveal_strlit("model");
    reveal_strlit("audio_format");
    reveal_strlit("sample_rate");
    reveal_strlit("num_channels");
    reveal_strlit("language_hints");
    reveal_strlit("language_hints_strict");
    reveal_strlit("enable_speaker_diarization");
    reveal_strlit("enable_language_identification");
    reveal_strlit("enable_endpoint_detection");
    assert("audio_format"@[0] == 'a');
    assert("num_channels"@[0] == 'n');
}

/// The start frame tells everything, under the names that the service knows, and nothing
/// else.
pub proof fn law_the_start_frame_tells_everything(r: StartRequest, name: Seq<char>)
    ensures
        r.wire() is Object,
        ({
            let m = r.wire()->Object_0;
            &&& m.dom().contains(name) <==> field_names().contains(name)
            &&& m["api_key"@] == JsonView::Text(r.api_key@)
            &&& m["model"@] == JsonView::Text(r.model@)
            &&& m["audio_format"@] == JsonView::Text(r.audio_format@)
            &&& m["sample_rate"@] == JsonView::Integer(r.sample_rate as int)
            &&& m["num_channels"@] == JsonView::Integer(r.num_channels as int)
            &&& m["language_hints"@] == JsonView::List(json::texts_json(r.language_hints@))
            &&& m["language_hints_strict"@] == JsonView::Bool(r.language_hints_strict)
            &&& m["enable_speaker_diarization"@] == JsonView::Bool(r.enable_speaker_diarization)
            &&& m["enable_language_identification"@] == JsonView::Bool(
                r.enable_language_identification,
            )
            &&& m["enable_endpoint_detection"@] == JsonView::Bool(r.enable_endpoint_detection)
        }),
{
    lemma_names_differ();
    let names = field_names();
    let m = r.wire()->Object_0;
    if m.dom().contains(name) {
        assert(names[0] == "api_key"@ && names[1] == "model"@ && names[2] == "audio_format"@);
        assert(names[3] == "sample_rate"@ && names[4] == "num_channels"@);
        assert(names[5] == "language_hints"@ && names[6] == "language_hints_strict"@);
        assert(names[7] == "enable_speaker_diarization"@);
        assert(names[8] == "enable_language_identification"@);
        assert(names[9] == "enable_endpoint_detection"@);
    }
}

/// Two start frames that look alike on the wire say the same.
pub proof fn law_start_frames_are_told_apart(a: StartRequest, b: StartRequest)
    requires
        a.wire() == b.wire(),
    ensures
        a.api_key@ == b.api_key@,
        a.model@ == b.model@,
        a.audio_format@ == b.audio_format@,
        a.sample_rate == b.sample_rate,
        a.num_channels == b.num_channels,
        text::list_view(a.language_hints@) == text::list_view(b.language_hints@),
        a.language_hints_strict == b.language_hints_strict,
        a.enable_speaker_diarization == b.enable_speaker_diarization,
        a.enable_language_identification == b.enable_language_identification,
        a.enable_endpoint_detection == b.enable_endpoint_detection,
{
    law_the_start_frame_tells_everything(a, "model"@);
    law_the_start_frame_tells_everything(b, "model"@);
    let x = json::texts_json(a.language_hints@);
    let y = json::texts_json(b.language_hints@);
    assert(x == y);
    assert(x.len() == y.len());
    assert forall|i: int| 0 <= i < x.len() implies #[trigger] text::list_view(
        a.language_hints@,
    )[i] == text::list_view(b.language_hints@)[i] by {
        assert(x[i] == y[i]);
    }
    assert(text::list_view(a.language_hints@) =~= text::list_view(b.language_hints@));
}

// ---------------------------------------------------------------------------
// Tokens
// ---------------------------------------------------------------------------

/// A control token is one of two words with nothing around it but whitespace; one of them
/// ends a segment. Whatever says anything else is speech.
pub proof fn law_control_tokens_say_nothing(token: SonioxToken)
    ensures
        token.special() <==> text::trim_of(token.text@) == "<end>"@ || text::trim_of(token.text@)
            == "<fin>"@,
        token.end_marker() <==> text::trim_of(token.text@) == "<end>"@,
        token.speech() <==> text::trim_of(token.text@).len() > 0 && !token.special(),
{
    text_laws::law_trimming_takes_off_whitespace(token.text@);
}

/// A speaker label has something to say and no whitespace around it, and differs from what
/// was sent by such whitespace alone. A blank label is none.
pub proof fn law_a_label_is_trimmed(token: SonioxToken)
    ensures
        match token.speaker_label() {
            Some(label) => {
                &&& token.speaker is Some
                &&& label == text::trim_of(token.speaker->0@)
                &&& label.len() > 0
                &&& !text::is_space(label[0]) && !text::is_space(label.last())
            },
            None => token.speaker is None || text::is_blank_text(token.speaker->0@),
        },
{
    if token.speaker is Some {
        text_laws::law_trimming_takes_off_whitespace(token.speaker->0@);
    }
}

/// Only what passes is retried: a limit, a time-out or a failure on the service's side.
/// A request or a key that the service does not take will not be taken later.
pub proof fn law_only_what_passes_is_retried(error_type: Seq<char>)
    ensures
        protocol::retryable_type(error_type) ==> error_type == "request_timeout"@ || error_type
            == "max_duration_reached"@ || error_type == "limit_exceeded"@ || error_type
            == "internal_error"@ || error_type == "service_unavailable"@,
        protocol::retryable_type("request_timeout"@),
        protocol::retryable_type("max_duration_reached"@),
        protocol::retryable_type("limit_exceeded"@),
        protocol::retryable_type("internal_error"@),
        protocol::retryable_type("service_unavailable"@),
{
}

/// A frame of audio has two bytes for each sample, in order: two deliveries are the same
/// bytes as one.
pub proof fn law_audio_bytes_follow_the_samples(a: Seq<i16>, b: Seq<i16>)
    ensures
        protocol::little_endian(a).len() == 2 * a.len(),
        protocol::little_endian(a + b) == protocol::little_endian(a) + protocol::little_endian(b),
{
    let whole = protocol::little_endian(a + b);
    let parts = protocol::little_endian(a) + protocol::little_endian(b);
    assert forall|i: int| 0 <= i < whole.len() implies #[trigger] whole[i] == parts[i] by {
        let n = 2 * a.len();
        if i < n {
            assert((a + b)[i / 2] == a[i / 2]);
        } else {
            assert((i - n) / 2 == i / 2 - a.len());
            assert((i - n) % 2 == i % 2);
            assert((a + b)[i / 2] == b[(i - n) / 2]);
        }
    }
    assert(whole =~= parts);
}

/// A sample is its two bytes, the low one first, in two's complement.
pub proof fn law_a_sample_is_its_two_bytes(samples: Seq<i16>, i: int)
    requires
        0 <= i < samples.len(),
    ensures
        ({
            let bytes = protocol::little_endian(samples);
            let whole = bytes[2 * i] + 256 * bytes[2 * i + 1];
            samples[i] == if whole < 0x8000 {
                whole
            } else {
                whole - 0x1_0000
            }
        }),
{
    protocol::law_pcm_reads_back(samples, i);
}

/// A listing of the session parameters shows all but the key, each under its name: lists
/// that look alike are of parameters that differ in the key alone, and of that it is told
/// whether there is one.
pub proof fn law_a_listing_shows_the_parameters(a: SonioxConfig, b: SonioxConfig)
    ensures
        ({
            let l = client::config_listing(a);
            &&& l.len() == 5
            &&& l[0].name == "api_key"@ && l[1].name == "model"@ && l[2].name == "language_hints"@
            &&& l[3].name == "diarization"@ && l[4].name == "endpoint_detection"@
        }),
        client::config_listing(a) == client::config_listing(b) ==> {
            &&& a.model@ == b.model@
            &&& text::list_view(a.language_hints@) == text::list_view(b.language_hints@)
            &&& a.diarization == b.diarization
            &&& a.endpoint_detection == b.endpoint_detection
            &&& a.api_key@.len() == 0 <==> b.api_key@.len() == 0
        },
{
    reveal_strlit("<unset>");
    reveal_strlit("<redacted>");
    if client::config_listing(a) == client::config_listing(b) {
        let k = client::config_listing(a);
        let l = client::config_listing(b);
        assert(k[0] == l[0] && k[1] == l[1] && k[2] == l[2] && k[3] == l[3] && k[4] == l[4]);
        assert("<unset>"@.len() != "<redacted>"@.len());
    }
}

} // verus!
