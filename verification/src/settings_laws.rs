//! Which settings are usable, and what an override, a listing and a message say.

use vstd::prelude::*;

use crate::bits::Single;
use crate::engine::settings as engine_settings;
use crate::json::JsonView;
use crate::report::FieldValueView;
use crate::report::PieceView;
use crate::settings;
use crate::settings::Settings;
use crate::settings::SettingsProblem;
use crate::settings::SharedView;
use crate::text;

verus! {

// ---------------------------------------------------------------------------
// Validity
// ---------------------------------------------------------------------------

/// `x` is at least the value with bits `low` and at most the one with bits `high`.
pub open spec fn between(x: Single, low: u32, high: u32) -> bool {
    Single { bits: low }.le_spec(x) && x.le_spec(Single { bits: high })
}

/// What is wrong with a shared setting. The bounds are 0 and 1, -60 and 0, 0 and 60, 1
/// and 1000, 1 and 5000, as bits.
pub open spec fn shared_fault(s: SharedView, dir_ready: bool, problem: SettingsProblem) -> bool {
    match problem {
        SettingsProblem::ThemeMode => s.theme_mode != "light"@ && s.theme_mode != "dark"@
            && s.theme_mode != "system"@,
        SettingsProblem::VadThresholdStart => !between(s.vad_threshold_start, 0, 0x3f80_0000),
        SettingsProblem::VadThresholdEnd => !between(s.vad_threshold_end, 0, 0x3f80_0000),
        SettingsProblem::VadThresholdOrder => !s.vad_threshold_end.le_spec(s.vad_threshold_start),
        SettingsProblem::DiagnosticsDbPath => s.diagnostics_enabled && text::is_blank_text(
            s.diagnostics_db_path,
        ),
        SettingsProblem::DiagnosticsDir => s.diagnostics_enabled && !dir_ready,
        SettingsProblem::AgcTargetRms => !between(s.agc_target_rms_dbfs, 0xc270_0000, 0),
        SettingsProblem::AgcMaxGain => !between(s.agc_max_gain_db, 0, 0x4270_0000),
        SettingsProblem::AgcAttack => !between(s.agc_attack_ms, 0x3f80_0000, 0x447a_0000),
        SettingsProblem::AgcRelease => !between(s.agc_release_ms, 0x3f80_0000, 0x459c_4000),
        _ => false,
    }
}

/// What is wrong with a setting.
pub open spec fn fault(s: Settings, dir_ready: bool, problem: SettingsProblem) -> bool {
    match problem {
        SettingsProblem::AsrProvider => s.asr_provider@ != "nemotron"@,
        SettingsProblem::ChunkMs => s.chunk_ms != 80 && s.chunk_ms != 160 && s.chunk_ms != 560
            && s.chunk_ms != 1120,
        SettingsProblem::IntraThreads => s.intra_threads == 0,
        SettingsProblem::InterThreads => s.inter_threads == 0,
        SettingsProblem::EmptyResetThreshold => s.empty_reset_threshold == 0,
        SettingsProblem::ModelPath => text::is_blank_text(s.model_path@),
        _ => shared_fault(s.shared_view(), dir_ready, problem),
    }
}

/// The order in which the settings are looked at.
pub open spec fn place(problem: SettingsProblem) -> int {
    match problem {
        SettingsProblem::ActiveEngine => 0,
        SettingsProblem::AsrProvider => 1,
        SettingsProblem::MissingSonioxKey => 2,
        SettingsProblem::ChunkMs => 3,
        SettingsProblem::IntraThreads => 4,
        SettingsProblem::InterThreads => 5,
        SettingsProblem::EmptyResetThreshold => 6,
        SettingsProblem::ModelPath => 7,
        SettingsProblem::ThemeMode => 8,
        SettingsProblem::VadThresholdStart => 9,
        SettingsProblem::VadThresholdEnd => 10,
        SettingsProblem::VadThresholdOrder => 11,
        SettingsProblem::DiagnosticsDbPath => 12,
        SettingsProblem::DiagnosticsDir => 13,
        SettingsProblem::AgcTargetRms => 14,
        SettingsProblem::AgcMaxGain => 15,
        SettingsProblem::AgcAttack => 16,
        SettingsProblem::AgcRelease => 17,
    }
}

/// Settings are usable exactly if nothing is wrong with them, and of several faults the
/// one that is named is the first.
pub proof fn law_the_first_fault_is_named(s: Settings, dir_ready: bool, other: SettingsProblem)
    ensures
        match settings::first_problem(s, dir_ready) {
            Some(problem) => {
                &&& fault(s, dir_ready, problem)
                &&& fault(s, dir_ready, other) ==> place(problem) <= place(other)
            },
            None => !fault(s, dir_ready, other),
        },
{
    reveal_strlit("nemotron");
    reveal_strlit("soniox");
    assert("nemotron"@.len() != "soniox"@.len());
}

/// The same of the settings for pluggable engines: the engine must be named, and the
/// shared settings are looked at as everywhere.
pub proof fn law_the_first_engine_fault_is_named(
    s: engine_settings::Settings,
    dir_ready: bool,
    other: SettingsProblem,
)
    ensures
        ({
            let wrong = |p: SettingsProblem|
                if p is ActiveEngine {
                    text::is_blank_text(s.active_engine@)
                } else {
                    shared_fault(s.shared_view(), dir_ready, p)
                };
            match engine_settings::first_problem(s, dir_ready) {
                Some(problem) => {
                    &&& wrong(problem)
                    &&& wrong(other) ==> place(problem) <= place(other)
                },
                None => !wrong(other),
            }
        }),
{
}

/// The shared settings are the settings under the same names.
pub proof fn law_shared_settings_are_the_settings(s: Settings, e: engine_settings::Settings)
    ensures
        ({
            let v = s.shared_view();
            &&& v.theme_mode == s.theme_mode@
            &&& v.vad_threshold_start == s.vad_threshold_start
            &&& v.vad_threshold_end == s.vad_threshold_end
            &&& v.diagnostics_enabled == s.diagnostics_enabled
            &&& v.diagnostics_db_path == s.diagnostics_db_path@
            &&& v.agc_target_rms_dbfs == s.agc_target_rms_dbfs
            &&& v.agc_max_gain_db == s.agc_max_gain_db
            &&& v.agc_attack_ms == s.agc_attack_ms
            &&& v.agc_release_ms == s.agc_release_ms
        }),
        ({
            let v = e.shared_view();
            &&& v.theme_mode == e.theme_mode@
            &&& v.vad_threshold_start == e.vad_threshold_start
            &&& v.vad_threshold_end == e.vad_threshold_end
            &&& v.diagnostics_enabled == e.diagnostics_enabled
            &&& v.diagnostics_db_path == e.diagnostics_db_path@
            &&& v.agc_target_rms_dbfs == e.agc_target_rms_dbfs
            &&& v.agc_max_gain_db == e.agc_max_gain_db
            &&& v.agc_attack_ms == e.agc_attack_ms
            &&& v.agc_release_ms == e.agc_release_ms
        }),
{
}

/// The value that a problem is about, where it is a number.
pub open spec fn blamed(s: SharedView, problem: SettingsProblem) -> Option<Single> {
    match problem {
        SettingsProblem::VadThresholdStart => Some(s.vad_threshold_start),
        SettingsProblem::VadThresholdEnd => Some(s.vad_threshold_end),
        SettingsProblem::AgcTargetRms => Some(s.agc_target_rms_dbfs),
        SettingsProblem::AgcMaxGain => Some(s.agc_max_gain_db),
        SettingsProblem::AgcAttack => Some(s.agc_attack_ms),
        SettingsProblem::AgcRelease => Some(s.agc_release_ms),
        _ => None,
    }
}

/// Every problem is explained, and a problem with a number shows that number: the message
/// ends with it. Thresholds in the wrong order are both shown.
pub proof fn law_every_problem_is_explained(
    s: Settings,
    problem: SettingsProblem,
    dir_error: Seq<char>,
)
    requires
        !(problem is ActiveEngine),
    ensures
        ({
            let message = settings::explanation(s, problem, dir_error);
            &&& message.len() > 0
            &&& blamed(s.shared_view(), problem) matches Some(x) ==> message.last()
                == PieceView::Number(x)
            &&& problem is VadThresholdOrder ==> message[1] == PieceView::Number(
                s.vad_threshold_start,
            ) && message[3] == PieceView::Number(s.vad_threshold_end)
            &&& problem is DiagnosticsDir ==> message == seq![PieceView::Text(dir_error)]
        }),
{
}

// ---------------------------------------------------------------------------
// Overrides
// ---------------------------------------------------------------------------

/// An override of a number counts exactly if it writes a number that may be set: a chunk
/// duration must be a supported one, and there must be at least one thread. Otherwise
/// the saved setting stays.
pub proof fn law_only_usable_numbers_override(saved: usize, value: String)
    ensures
        ({
            let n = text::parsed_number(value@);
            let supported = n == Some(80nat) || n == Some(160nat) || n == Some(560nat) || n == Some(
                1120nat,
            );
            &&& settings::overridden_chunk_ms(saved, None) == saved
            &&& settings::overridden_threads(saved, None) == saved
            &&& settings::overridden_chunk_ms(saved, Some(value)) == if supported {
                n->0 as int
            } else {
                saved as int
            }
            &&& settings::overridden_threads(saved, Some(value)) == if n matches Some(k) && k > 0
                && k <= usize::MAX {
                n->0 as int
            } else {
                saved as int
            }
        }),
{
}

/// An override never makes usable settings unusable.
pub proof fn law_overrides_keep_settings_usable(saved: usize, value: Option<String>)
    ensures
        settings::chunk_ms_supported(saved) ==> settings::chunk_ms_supported(
            settings::overridden_chunk_ms(saved, value),
        ),
        saved >= 1 ==> settings::overridden_threads(saved, value) >= 1,
{
}

/// `s` is `word`, in small or capital letters.
pub open spec fn reads(s: Seq<char>, word: Seq<char>) -> bool {
    &&& s.len() == word.len()
    &&& forall|i: int|
        0 <= i < s.len() ==> (#[trigger] s[i] == word[i] || ('a' <= word[i] && word[i] <= 'z'
            && s[i] as int == word[i] as int - 32))
}

proof fn lemma_reads(s: Seq<char>, word: Seq<char>)
    requires
        forall|i: int|
            0 <= i < word.len() ==> ('a' <= #[trigger] word[i] && word[i] <= 'z') || ('0' <= word[i]
                && word[i] <= '9'),
    ensures
        text::is_word(s, word) == reads(s, word),
{
    if text::is_word(s, word) {
        assert forall|i: int| 0 <= i < s.len() implies (#[trigger] s[i] == word[i] || ('a'
            <= word[i] && word[i] <= 'z' && s[i] as int == word[i] as int - 32)) by {
            assert(text::folds_to(s[i], word[i]));
        }
    }
    if reads(s, word) {
        assert forall|i: int| 0 <= i < s.len() implies text::folds_to(#[trigger] s[i], word[i]) by {
            assert('a' <= word[i] && word[i] <= 'z' || '0' <= word[i] && word[i] <= '9');
        }
    }
}

/// A yes or a no overrides a flag, in whatever capitalization; anything else leaves it as
/// it is. No text is both.
pub proof fn law_only_a_yes_or_a_no_overrides(saved: bool, value: String)
    ensures
        ({
            let no = reads(value@, "0"@) || reads(value@, "false"@) || reads(value@, "no"@);
            let yes = reads(value@, "1"@) || reads(value@, "true"@) || reads(value@, "yes"@);
            &&& !(yes && no)
            &&& settings::overridden_flag(saved, Some(value)) == if yes {
                true
            } else if no {
                false
            } else {
                saved
            }
            &&& settings::overridden_flag(saved, None) == saved
        }),
{
    reveal_strlit("0");
    reveal_strlit("false");
    reveal_strlit("no");
    reveal_strlit("1");
    reveal_strlit("true");
    reveal_strlit("yes");
    lemma_reads(value@, "0"@);
    lemma_reads(value@, "false"@);
    lemma_reads(value@, "no"@);
    lemma_reads(value@, "1"@);
    lemma_reads(value@, "true"@);
    lemma_reads(value@, "yes"@);
    if reads(value@, "0"@) && reads(value@, "1"@) {
        assert(value@[0] == "0"@[0] && value@[0] == "1"@[0]);
    }
}

/// A key that says something overrides the saved one; a blank one does not.
pub proof fn law_only_a_key_overrides_a_key(saved: Seq<char>, value: Option<String>)
    ensures
        ({
            let key = settings::overridden_key(saved, value);
            &&& value is None ==> key == saved
            &&& value is Some && text::is_blank_text(value->0@) ==> key == saved
            &&& value is Some && !text::is_blank_text(value->0@) ==> key == value->0@
        }),
{
}

// ---------------------------------------------------------------------------
// Listing
// ---------------------------------------------------------------------------

/// A listing shows everything but the key: settings that list alike agree in every other
/// field, and of the key it is told whether there is one.
pub proof fn law_a_listing_shows_everything_else(a: Settings, b: Settings)
    requires
        settings::listing(a) == settings::listing(b),
    ensures
        a.asr_provider@ == b.asr_provider@,
        a.model_path@ == b.model_path@,
        a.chunk_ms == b.chunk_ms,
        a.intra_threads == b.intra_threads,
        a.inter_threads == b.inter_threads,
        a.punctuation_reset == b.punctuation_reset,
        a.empty_reset_threshold == b.empty_reset_threshold,
        a.font_family@ == b.font_family@,
        a.font_size_px == b.font_size_px,
        a.theme_mode@ == b.theme_mode@,
        a.vad_threshold_start == b.vad_threshold_start,
        a.vad_threshold_end == b.vad_threshold_end,
        a.diagnostics_enabled == b.diagnostics_enabled,
        a.diagnostics_db_path@ == b.diagnostics_db_path@,
        a.agc_enabled == b.agc_enabled,
        a.agc_target_rms_dbfs == b.agc_target_rms_dbfs,
        a.agc_max_gain_db == b.agc_max_gain_db,
        a.agc_attack_ms == b.agc_attack_ms,
        a.agc_release_ms == b.agc_release_ms,
        a.soniox_api_key@.len() == 0 <==> b.soniox_api_key@.len() == 0,
        a.soniox_model@ == b.soniox_model@,
        a.soniox_language_hints@ == b.soniox_language_hints@,
        a.soniox_diarization == b.soniox_diarization,
        a.soniox_endpoint_detection == b.soniox_endpoint_detection,
{
    let x = settings::listing(a);
    let y = settings::listing(b);
    reveal_strlit("<unset>");
    reveal_strlit("<redacted>");
    assert("<unset>"@.len() != "<redacted>"@.len());
    assert(x[0] == y[0] && x[1] == y[1] && x[2] == y[2] && x[3] == y[3] && x[4] == y[4]);
    assert(x[5] == y[5] && x[6] == y[6] && x[7] == y[7] && x[8] == y[8] && x[9] == y[9]);
    assert(x[10] == y[10] && x[11] == y[11] && x[12] == y[12] && x[13] == y[13]);
    assert(x[14] == y[14] && x[15] == y[15] && x[16] == y[16] && x[17] == y[17]);
    assert(x[18] == y[18] && x[19] == y[19] && x[20] == y[20] && x[21] == y[21]);
    assert(x[22] == y[22] && x[23] == y[23]);
}

/// Every field is listed under its own name, in the order in which the settings have
/// them.
pub proof fn law_fields_are_listed_under_their_names(s: Settings)
    ensures
        ({
            let l = settings::listing(s);
            &&& l.len() == 24
            &&& l[0].name == "asr_provider"@ && l[1].name == "model_path"@
            &&& l[2].name == "chunk_ms"@ && l[2].value == FieldValueView::Count(s.chunk_ms as u64)
            &&& l[3].name == "intra_threads"@ && l[3].value == FieldValueView::Count(
                s.intra_threads as u64,
            )
            &&& l[4].name == "inter_threads"@ && l[4].value == FieldValueView::Count(
                s.inter_threads as u64,
            )
            &&& l[5].name == "punctuation_reset"@ && l[6].name == "empty_reset_threshold"@
            &&& l[7].name == "font_family"@ && l[8].name == "font_size_px"@
            &&& l[9].name == "theme_mode"@
            &&& l[10].name == "vad_threshold_start"@ && l[10].value == FieldValueView::Number(
                s.vad_threshold_start,
            )
            &&& l[11].name == "vad_threshold_end"@ && l[11].value == FieldValueView::Number(
                s.vad_threshold_end,
            )
            &&& l[12].name == "diagnostics_enabled"@ && l[13].name == "diagnostics_db_path"@
            &&& l[14].name == "agc_enabled"@ && l[15].name == "agc_target_rms_dbfs"@
            &&& l[16].name == "agc_max_gain_db"@ && l[17].name == "agc_attack_ms"@
            &&& l[18].name == "agc_release_ms"@ && l[19].name == "soniox_api_key"@
            &&& l[20].name == "soniox_model"@ && l[21].name == "soniox_language_hints"@
            &&& l[22].name == "soniox_diarization"@ && l[23].name == "soniox_endpoint_detection"@
        }),
{
}

// ---------------------------------------------------------------------------
// Migration
// ---------------------------------------------------------------------------

/// A flat settings file is one without an `engines` field. Migrating moves the fields of
/// the recognizer into `engines.nemotron`, each with its value, and leaves all others
/// where they are.
pub proof fn law_migration_moves_the_recognizer_fields(v: JsonView, key: Seq<char>)
    requires
        v is Object,
        !v->Object_0.dom().contains("engines"@),
        key == "model_path"@ || key == "chunk_ms"@ || key == "intra_threads"@ || key
            == "inter_threads"@ || key == "punctuation_reset"@ || key == "empty_reset_threshold"@,
    ensures
        ({
            let from = v->Object_0;
            let to = engine_settings::migrated(v)->Object_0;
            let blob = to["engines"@]->Object_0["nemotron"@]->Object_0;
            &&& engine_settings::migrated(v) is Object
            &&& !to.dom().contains(key)
            &&& blob.dom().contains(key) == from.dom().contains(key)
            &&& from.dom().contains(key) ==> blob[key] == from[key]
        }),
{
    engine_settings::law_migration_loses_nothing(v, key);
}

/// A nested settings file, or one that is no object, is left alone, and a display field
/// of a flat one stays where it is.
pub proof fn law_migration_leaves_the_rest_alone(v: JsonView, key: Seq<char>)
    requires
        key == "theme_mode"@ || key == "font_family"@ || key == "font_size_px"@ || key
            == "vad_threshold_start"@ || key == "vad_threshold_end"@ || key
            == "diagnostics_enabled"@ || key == "diagnostics_db_path"@ || key == "agc_enabled"@
            || key == "agc_target_rms_dbfs"@ || key == "agc_max_gain_db"@ || key
            == "agc_attack_ms"@ || key == "agc_release_ms"@,
    ensures
        !(v is Object) || v->Object_0.dom().contains("engines"@) ==> engine_settings::migrated(v)
            == v,
        v is Object && v->Object_0.dom().contains(key) ==> engine_settings::migrated(
            v,
        )->Object_0.dom().contains(key) && engine_settings::migrated(v)->Object_0[key]
            == v->Object_0[key],
{
    reveal_strlit("model_path");
    reveal_strlit("chunk_ms");
    reveal_strlit("intra_threads");
    reveal_strlit("inter_threads");
    reveal_strlit("punctuation_reset");
    reveal_strlit("empty_reset_threshold");
    reveal_strlit("engines");
    reveal_strlit("active_engine");
    reveal_strlit("version");
    reveal_strlit("theme_mode");
    reveal_strlit("font_family");
    reveal_strlit("font_size_px");
    reveal_strlit("vad_threshold_start");
    reveal_strlit("vad_threshold_end");
    reveal_strlit("diagnostics_enabled");
    reveal_strlit("diagnostics_db_path");
    reveal_strlit("agc_enabled");
    reveal_strlit("agc_target_rms_dbfs");
    reveal_strlit("agc_max_gain_db");
    reveal_strlit("agc_attack_ms");
    reveal_strlit("agc_release_ms");
    assert(key[0] == 't' || key[0] == 'f' || key[0] == 'v' || key[0] == 'd' || key[0] == 'a');
    assert(!engine_settings::is_v1_nemotron_key(key));
    assert(key[0] == 'v' ==> key[1] == 'a');
    assert(key[0] == 'a' ==> key[1] == 'g');
    assert(key != "engines"@ && key != "active_engine"@ && key != "version"@);
}

/// The words that a message begins with, for a problem that needs nothing but words or
/// shows a number behind them.
pub open spec fn opening_words(problem: SettingsProblem) -> Option<Seq<char>> {
    match problem {
        SettingsProblem::MissingSonioxKey => Some(
            "A Soniox API key is required when the Soniox provider is selected"@,
        ),
        SettingsProblem::IntraThreads => Some("intra_threads must be at least 1"@),
        SettingsProblem::InterThreads => Some("inter_threads must be at least 1"@),
        SettingsProblem::EmptyResetThreshold => Some("empty_reset_threshold must be at least 1"@),
        SettingsProblem::ModelPath => Some("model_path cannot be empty"@),
        SettingsProblem::VadThresholdStart => Some(
            "vad_threshold_start must be between 0.0 and 1.0, got "@,
        ),
        SettingsProblem::VadThresholdEnd => Some(
            "vad_threshold_end must be between 0.0 and 1.0, got "@,
        ),
        SettingsProblem::VadThresholdOrder => Some("vad_threshold_start ("@),
        SettingsProblem::DiagnosticsDbPath => Some(
            "diagnostics_db_path cannot be empty when diagnostics_enabled"@,
        ),
        SettingsProblem::AgcTargetRms => Some(
            "agc_target_rms_dbfs must be between -60.0 and 0.0, got "@,
        ),
        SettingsProblem::AgcMaxGain => Some("agc_max_gain_db must be between 0.0 and 60.0, got "@),
        SettingsProblem::AgcAttack => Some("agc_attack_ms must be between 1.0 and 1000.0, got "@),
        SettingsProblem::AgcRelease => Some(
            "agc_release_ms must be between 1.0 and 5000.0, got "@,
        ),
        _ => None,
    }
}

/// A message says what its problem is about, and quotes what was set where that is text
/// or a count. A problem with a shared setting is put in the same words everywhere.
pub proof fn law_a_message_says_what_is_wrong(
    s: Settings,
    e: engine_settings::Settings,
    problem: SettingsProblem,
    dir_error: Seq<char>,
)
    ensures
        ({
            let message = settings::explanation(s, problem, dir_error);
            &&& opening_words(problem) matches Some(words) ==> message[0] == PieceView::Text(words)
            &&& problem is AsrProvider ==> message[0] == PieceView::Text(
                "Invalid asr_provider '"@ + s.asr_provider@
                    + "'; must be one of [\"nemotron\"]"@,
            )
            &&& problem is ChunkMs ==> message[0] == PieceView::Text(
                "Invalid chunk_ms "@ + text::decimal_of(s.chunk_ms as nat)
                    + "; must be one of [80, 160, 560, 1120]"@,
            )
            &&& problem is ThemeMode ==> message[0] == PieceView::Text(
                "Invalid theme_mode '"@ + s.theme_mode@
                    + "'; must be one of [\"light\", \"dark\", \"system\"]"@,
            )
            &&& place(problem) >= place(SettingsProblem::ThemeMode) && e.shared_view()
                == s.shared_view() ==> engine_settings::explanation(e, problem, dir_error)
                == message
        }),
        engine_settings::explanation(e, SettingsProblem::ActiveEngine, dir_error) == seq![
            PieceView::Text("active_engine cannot be empty"@),
        ],
{
}

/// The bits of a single-precision number that is `n`, where `2^e <= n < 2^(e+1)` and `scale`
/// is `2^e`: the exponent is `e`, and the fraction, with its leading one, is `n / 2^e`.
pub open spec fn is_number(bits: u32, n: int, e: int, scale: int) -> bool {
    &&& bits as int / 0x80_0000 == 127 + e
    &&& (bits as int % 0x80_0000 + 0x80_0000) * scale == n * 0x80_0000
}

/// The bounds and defaults of the settings are the numbers that they are named for, and
/// every default lies within its bounds.
pub proof fn law_bounds_are_the_numbers_they_stand_for()
    ensures
        settings::ZERO == 0,
        is_number(settings::ONE, 1, 0, 1),
        is_number(settings::SIXTY, 60, 5, 32),
        is_number((settings::MINUS_SIXTY - 0x8000_0000) as u32, 60, 5, 32),
        settings::MINUS_SIXTY >= 0x8000_0000,
        is_number(settings::THOUSAND, 1000, 9, 512),
        is_number(settings::FIVE_THOUSAND, 5000, 12, 4096),
        settings::DEFAULT_VAD_START + 0x80_0000 == settings::ONE,
        is_number((settings::DEFAULT_AGC_TARGET - 0x8000_0000) as u32, 20, 4, 16),
        settings::DEFAULT_AGC_TARGET >= 0x8000_0000,
        is_number(settings::DEFAULT_AGC_MAX_GAIN, 30, 4, 16),
        is_number(settings::DEFAULT_AGC_ATTACK, 20, 4, 16),
        is_number(settings::DEFAULT_AGC_RELEASE, 400, 8, 256),
        settings::ZERO <= settings::DEFAULT_VAD_END <= settings::DEFAULT_VAD_START
            <= settings::ONE,
        settings::DEFAULT_AGC_TARGET <= settings::MINUS_SIXTY,
        settings::ZERO <= settings::DEFAULT_AGC_MAX_GAIN <= settings::SIXTY,
        settings::ONE <= settings::DEFAULT_AGC_ATTACK <= settings::THOUSAND,
        settings::ONE <= settings::DEFAULT_AGC_RELEASE <= settings::FIVE_THOUSAND,
{
}

} // verus!
