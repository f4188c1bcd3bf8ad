//! Application settings: defaults, environment overrides, validation, and what of
//! them may be shown.

use vstd::prelude::*;

use crate::bits::Single;
use crate::paths;
use crate::paths::PathParts;
use crate::report;
use crate::report::Field;
use crate::report::FieldValue;
use crate::report::FieldValueView;
use crate::report::FieldView;
use crate::report::Piece;
use crate::report::PieceView;
use crate::text;

pub use crate::paths::expand_tilde;

verus! {

/// Bits of 0; the constants below are bit patterns of single-precision values.
pub const ZERO: u32 = 0;

/// 1
pub const ONE: u32 = 0x3f80_0000;

/// 60
pub const SIXTY: u32 = 0x4270_0000;

/// -60
pub const MINUS_SIXTY: u32 = 0xc270_0000;

/// 1000
pub const THOUSAND: u32 = 0x447a_0000;

/// 5000
pub const FIVE_THOUSAND: u32 = 0x459c_4000;

/// 0.5
pub const DEFAULT_VAD_START: u32 = 0x3f00_0000;

/// 0.3
pub const DEFAULT_VAD_END: u32 = 0x3e99_999a;

/// -20
pub const DEFAULT_AGC_TARGET: u32 = 0xc1a0_0000;

/// 30
pub const DEFAULT_AGC_MAX_GAIN: u32 = 0x41f0_0000;

/// 20
pub const DEFAULT_AGC_ATTACK: u32 = 0x41a0_0000;

/// 400
pub const DEFAULT_AGC_RELEASE: u32 = 0x43c8_0000;

/// A chunk duration that the recognizer supports.
pub open spec fn chunk_ms_supported(ms: usize) -> bool {
    ms == 80 || ms == 160 || ms == 560 || ms == 1120
}

pub fn is_valid_chunk_ms(ms: usize) -> (r: bool)
    ensures
        r == chunk_ms_supported(ms),
{
    ms == 80 || ms == 160 || ms == 560 || ms == 1120
}

pub open spec fn theme_supported(theme: Seq<char>) -> bool {
    theme == "light"@ || theme == "dark"@ || theme == "system"@
}

pub fn is_valid_theme(theme: &str) -> (r: bool)
    ensures
        r == theme_supported(theme@),
{
    text::same_text(theme, "light") || text::same_text(theme, "dark") || text::same_text(
        theme,
        "system",
    )
}

/// Convert a chunk duration in milliseconds to samples at 16kHz.
pub fn chunk_ms_to_samples(ms: usize) -> (r: usize)
    requires
        16000 * ms <= usize::MAX,
    ensures
        r == 16000 * ms / 1000,
{
    16000 * ms / 1000
}

// ---------------------------------------------------------------------------
// What can be wrong
// ---------------------------------------------------------------------------

/// The first thing found wrong with settings.
#[derive(Clone, Copy, Debug, PartialEq, Eq, Structural)]
pub enum SettingsProblem {
    AsrProvider,
    MissingSonioxKey,
    ActiveEngine,
    ChunkMs,
    IntraThreads,
    InterThreads,
    EmptyResetThreshold,
    ModelPath,
    ThemeMode,
    VadThresholdStart,
    VadThresholdEnd,
    VadThresholdOrder,
    DiagnosticsDbPath,
    /// The directory of the diagnostics database could not be made.
    DiagnosticsDir,
    AgcTargetRms,
    AgcMaxGain,
    AgcAttack,
    AgcRelease,
}

/// What the settings say about the display, voice activity, diagnostics and gain.
pub struct SharedSettings<'a> {
    pub theme_mode: &'a str,
    pub vad_threshold_start: Single,
    pub vad_threshold_end: Single,
    pub diagnostics_enabled: bool,
    pub diagnostics_db_path: &'a str,
    pub agc_target_rms_dbfs: Single,
    pub agc_max_gain_db: Single,
    pub agc_attack_ms: Single,
    pub agc_release_ms: Single,
}

/// What a [`SharedSettings`] says.
#[verifier::ext_equal]
pub struct SharedView {
    pub theme_mode: Seq<char>,
    pub vad_threshold_start: Single,
    pub vad_threshold_end: Single,
    pub diagnostics_enabled: bool,
    pub diagnostics_db_path: Seq<char>,
    pub agc_target_rms_dbfs: Single,
    pub agc_max_gain_db: Single,
    pub agc_attack_ms: Single,
    pub agc_release_ms: Single,
}

impl View for SharedSettings<'_> {
    type V = SharedView;

    open spec fn view(&self) -> SharedView {
        SharedView {
            theme_mode: self.theme_mode@,
            vad_threshold_start: self.vad_threshold_start,
            vad_threshold_end: self.vad_threshold_end,
            diagnostics_enabled: self.diagnostics_enabled,
            diagnostics_db_path: self.diagnostics_db_path@,
            agc_target_rms_dbfs: self.agc_target_rms_dbfs,
            agc_max_gain_db: self.agc_max_gain_db,
            agc_attack_ms: self.agc_attack_ms,
            agc_release_ms: self.agc_release_ms,
        }
    }
}

/// The first problem with the theme and the voice-activity thresholds.
pub open spec fn problem_before_diagnostics(s: SharedView) -> Option<SettingsProblem> {
    if !theme_supported(s.theme_mode) {
        Some(SettingsProblem::ThemeMode)
    } else if !s.vad_threshold_start.within_spec(ZERO, ONE) {
        Some(SettingsProblem::VadThresholdStart)
    } else if !s.vad_threshold_end.within_spec(ZERO, ONE) {
        Some(SettingsProblem::VadThresholdEnd)
    } else if !s.vad_threshold_end.le_spec(s.vad_threshold_start) {
        Some(SettingsProblem::VadThresholdOrder)
    } else {
        None
    }
}

/// The first problem, given whether the diagnostics directory is there.
pub open spec fn shared_problem(s: SharedView, dir_ready: bool) -> Option<SettingsProblem> {
    if problem_before_diagnostics(s) is Some {
        problem_before_diagnostics(s)
    } else if s.diagnostics_enabled && text::is_blank_text(s.diagnostics_db_path) {
        Some(SettingsProblem::DiagnosticsDbPath)
    } else if s.diagnostics_enabled && !dir_ready {
        Some(SettingsProblem::DiagnosticsDir)
    } else if !s.agc_target_rms_dbfs.within_spec(MINUS_SIXTY, ZERO) {
        Some(SettingsProblem::AgcTargetRms)
    } else if !s.agc_max_gain_db.within_spec(ZERO, SIXTY) {
        Some(SettingsProblem::AgcMaxGain)
    } else if !s.agc_attack_ms.within_spec(ONE, THOUSAND) {
        Some(SettingsProblem::AgcAttack)
    } else if !s.agc_release_ms.within_spec(ONE, FIVE_THOUSAND) {
        Some(SettingsProblem::AgcRelease)
    } else {
        None
    }
}

impl SharedSettings<'_> {
    pub fn problem_before_diagnostics(&self) -> (r: Option<SettingsProblem>)
        ensures
            r == problem_before_diagnostics(self@),
    {
        if !is_valid_theme(self.theme_mode) {
            Some(SettingsProblem::ThemeMode)
        } else if !self.vad_threshold_start.within(ZERO, ONE) {
            Some(SettingsProblem::VadThresholdStart)
        } else if !self.vad_threshold_end.within(ZERO, ONE) {
            Some(SettingsProblem::VadThresholdEnd)
        } else if !self.vad_threshold_end.le(self.vad_threshold_start) {
            Some(SettingsProblem::VadThresholdOrder)
        } else {
            None
        }
    }

    pub fn problem(&self, dir_ready: bool) -> (r: Option<SettingsProblem>)
        ensures
            r == shared_problem(self@, dir_ready),
    {
        if let Some(problem) = self.problem_before_diagnostics() {
            return Some(problem);
        }
        if self.diagnostics_enabled && text::is_blank(self.diagnostics_db_path) {
            Some(SettingsProblem::DiagnosticsDbPath)
        } else if self.diagnostics_enabled && !dir_ready {
            Some(SettingsProblem::DiagnosticsDir)
        } else if !self.agc_target_rms_dbfs.within(MINUS_SIXTY, ZERO) {
            Some(SettingsProblem::AgcTargetRms)
        } else if !self.agc_max_gain_db.within(ZERO, SIXTY) {
            Some(SettingsProblem::AgcMaxGain)
        } else if !self.agc_attack_ms.within(ONE, THOUSAND) {
            Some(SettingsProblem::AgcAttack)
        } else if !self.agc_release_ms.within(ONE, FIVE_THOUSAND) {
            Some(SettingsProblem::AgcRelease)
        } else {
            None
        }
    }

    /// The message for a problem with one of these settings. `dir_error` says why
    /// the diagnostics directory could not be made.
    pub fn explain(&self, problem: SettingsProblem, dir_error: &str) -> (r: Vec<Piece>)
        ensures
            report::pieces_view(r@) == shared_explanation(self@, problem, dir_error@),
    {
        match problem {
            SettingsProblem::ThemeMode => report::three_texts(
                "Invalid theme_mode '",
                self.theme_mode,
                "'; must be one of [\"light\", \"dark\", \"system\"]",
            ),
            SettingsProblem::VadThresholdStart => report::text_number(
                "vad_threshold_start must be between 0.0 and 1.0, got ",
                self.vad_threshold_start,
            ),
            SettingsProblem::VadThresholdEnd => report::text_number(
                "vad_threshold_end must be between 0.0 and 1.0, got ",
                self.vad_threshold_end,
            ),
            SettingsProblem::VadThresholdOrder => {
                let mut r: Vec<Piece> = Vec::new();
                r.push(Piece::Text("vad_threshold_start (".to_owned()));
                r.push(Piece::Number(self.vad_threshold_start));
                r.push(Piece::Text(") must be >= vad_threshold_end (".to_owned()));
                r.push(Piece::Number(self.vad_threshold_end));
                r.push(Piece::Text(")".to_owned()));
                assert(report::pieces_view(r@) =~= shared_explanation(
                    self@,
                    problem,
                    dir_error@,
                ));
                r
            },
            SettingsProblem::DiagnosticsDbPath => report::one_text(
                "diagnostics_db_path cannot be empty when diagnostics_enabled",
            ),
            SettingsProblem::DiagnosticsDir => report::one_text(dir_error),
            SettingsProblem::AgcTargetRms => report::text_number(
                "agc_target_rms_dbfs must be between -60.0 and 0.0, got ",
                self.agc_target_rms_dbfs,
            ),
            SettingsProblem::AgcMaxGain => report::text_number(
                "agc_max_gain_db must be between 0.0 and 60.0, got ",
                self.agc_max_gain_db,
            ),
            SettingsProblem::AgcAttack => report::text_number(
                "agc_attack_ms must be between 1.0 and 1000.0, got ",
                self.agc_attack_ms,
            ),
            SettingsProblem::AgcRelease => report::text_number(
                "agc_release_ms must be between 1.0 and 5000.0, got ",
                self.agc_release_ms,
            ),
            _ => {
                let r: Vec<Piece> = Vec::new();
                assert(report::pieces_view(r@) =~= Seq::<PieceView>::empty());
                r
            },
        }
    }
}

/// The message for a problem with a shared setting; nothing for any other.
pub open spec fn shared_explanation(
    s: SharedView,
    problem: SettingsProblem,
    dir_error: Seq<char>,
) -> Seq<PieceView> {
    match problem {
        SettingsProblem::ThemeMode => seq![
            PieceView::Text(
                "Invalid theme_mode '"@ + s.theme_mode
                    + "'; must be one of [\"light\", \"dark\", \"system\"]"@,
            ),
        ],
        SettingsProblem::VadThresholdStart => seq![
            PieceView::Text("vad_threshold_start must be between 0.0 and 1.0, got "@),
            PieceView::Number(s.vad_threshold_start),
        ],
        SettingsProblem::VadThresholdEnd => seq![
            PieceView::Text("vad_threshold_end must be between 0.0 and 1.0, got "@),
            PieceView::Number(s.vad_threshold_end),
        ],
        SettingsProblem::VadThresholdOrder => seq![
            PieceView::Text("vad_threshold_start ("@),
            PieceView::Number(s.vad_threshold_start),
            PieceView::Text(") must be >= vad_threshold_end ("@),
            PieceView::Number(s.vad_threshold_end),
            PieceView::Text(")"@),
        ],
        SettingsProblem::DiagnosticsDbPath => seq![
            PieceView::Text("diagnostics_db_path cannot be empty when diagnostics_enabled"@),
        ],
        SettingsProblem::DiagnosticsDir => seq![PieceView::Text(dir_error)],
        SettingsProblem::AgcTargetRms => seq![
            PieceView::Text("agc_target_rms_dbfs must be between -60.0 and 0.0, got "@),
            PieceView::Number(s.agc_target_rms_dbfs),
        ],
        SettingsProblem::AgcMaxGain => seq![
            PieceView::Text("agc_max_gain_db must be between 0.0 and 60.0, got "@),
            PieceView::Number(s.agc_max_gain_db),
        ],
        SettingsProblem::AgcAttack => seq![
            PieceView::Text("agc_attack_ms must be between 1.0 and 1000.0, got "@),
            PieceView::Number(s.agc_attack_ms),
        ],
        SettingsProblem::AgcRelease => seq![
            PieceView::Text("agc_release_ms must be between 1.0 and 5000.0, got "@),
            PieceView::Number(s.agc_release_ms),
        ],
        _ => Seq::empty(),
    }
}

// ---------------------------------------------------------------------------
// Settings
// ---------------------------------------------------------------------------

pub struct Settings {
    /// Which speech backend to use.
    pub asr_provider: String,
    pub model_path: String,
    pub chunk_ms: usize,
    pub intra_threads: usize,
    pub inter_threads: usize,
    pub punctuation_reset: bool,
    pub empty_reset_threshold: u32,
    /// Font family for transcript display. Empty string = use default.
    pub font_family: String,
    /// Font size in px for transcript display. 0 = use default.
    pub font_size_px: u32,
    /// Theme mode: "light", "dark", or "system"
    pub theme_mode: String,
    /// VAD speech-start threshold (probability to open a speech segment)
    pub vad_threshold_start: Single,
    /// VAD speech-end threshold (probability to close a speech segment)
    pub vad_threshold_end: Single,
    /// Whether to write per-chunk diagnostics to the SQLite DB.
    pub diagnostics_enabled: bool,
    /// Path to the diagnostics SQLite file. Tilde is expanded at use.
    pub diagnostics_db_path: String,
    /// Whether AGC (Automatic Gain Control) is active.
    pub agc_enabled: bool,
    /// AGC target RMS level in dBFS (e.g. -20.0).
    pub agc_target_rms_dbfs: Single,
    /// AGC maximum gain in dB (ceiling to prevent noise-floor amplification).
    pub agc_max_gain_db: Single,
    /// AGC attack time in ms (fast gain reduction when signal gets loud).
    pub agc_attack_ms: Single,
    /// AGC release time in ms (slow gain increase when signal gets quiet).
    pub agc_release_ms: Single,
    /// Soniox API key. Never shown: see [`Settings::redacted`].
    pub soniox_api_key: String,
    pub soniox_model: String,
    /// Comma-separated language hints, e.g. "en" or "en,es".
    pub soniox_language_hints: String,
    pub soniox_diarization: bool,
    pub soniox_endpoint_detection: bool,
}

/// Values of the environment variables that override settings; a variable that is
/// not set is `None`.
pub struct EnvOverrides {
    pub chunk_ms: Option<String>,
    pub intra_threads: Option<String>,
    pub inter_threads: Option<String>,
    pub punctuation_reset: Option<String>,
    pub soniox_api_key: Option<String>,
}

/// The chunk duration after an override: only a supported one counts.
pub open spec fn overridden_chunk_ms(saved: usize, value: Option<String>) -> usize {
    match value {
        Some(v) => match text::parsed_number(v@) {
            Some(n) if n <= usize::MAX && chunk_ms_supported(n as usize) => n as usize,
            _ => saved,
        },
        None => saved,
    }
}

/// The number of threads after an override: only a positive number counts.
pub open spec fn overridden_threads(saved: usize, value: Option<String>) -> usize {
    match value {
        Some(v) => match text::parsed_number(v@) {
            Some(n) if 1 <= n <= usize::MAX => n as usize,
            _ => saved,
        },
        None => saved,
    }
}

/// The punctuation rule after an override: only a yes or a no counts.
pub open spec fn overridden_flag(saved: bool, value: Option<String>) -> bool {
    match value {
        Some(v) => if text::is_word(v@, "0"@) || text::is_word(v@, "false"@) || text::is_word(
            v@,
            "no"@,
        ) {
            false
        } else if text::is_word(v@, "1"@) || text::is_word(v@, "true"@) || text::is_word(
            v@,
            "yes"@,
        ) {
            true
        } else {
            saved
        },
        None => saved,
    }
}

/// The key after an override: only one that is not blank counts.
pub open spec fn overridden_key(saved: Seq<char>, value: Option<String>) -> Seq<char> {
    match value {
        Some(v) if !text::is_blank_text(v@) => v@,
        _ => saved,
    }
}

fn override_chunk_ms(saved: usize, value: &Option<String>) -> (r: usize)
    ensures
        r == overridden_chunk_ms(saved, *value),
{
    if let Some(v) = value {
        if let Some(ms) = text::parse_usize(v.as_str()) {
            if is_valid_chunk_ms(ms) {
                return ms;
            }
        }
    }
    saved
}

fn override_threads(saved: usize, value: &Option<String>) -> (r: usize)
    ensures
        r == overridden_threads(saved, *value),
{
    if let Some(v) = value {
        if let Some(n) = text::parse_usize(v.as_str()) {
            if n >= 1 {
                return n;
            }
        }
    }
    saved
}

fn override_flag(saved: bool, value: &Option<String>) -> (r: bool)
    ensures
        r == overridden_flag(saved, *value),
{
    if let Some(v) = value {
        let v = v.as_str();
        if text::same_word(v, "0") || text::same_word(v, "false") || text::same_word(v, "no") {
            return false;
        }
        if text::same_word(v, "1") || text::same_word(v, "true") || text::same_word(v, "yes") {
            return true;
        }
    }
    saved
}

/// The first problem with the recognizer settings, which come before the shared
/// ones.
pub open spec fn recognizer_problem(s: Settings) -> Option<SettingsProblem> {
    if s.asr_provider@ != "nemotron"@ {
        Some(SettingsProblem::AsrProvider)
    } else if s.asr_provider@ == "soniox"@ && text::is_blank_text(s.soniox_api_key@) {
        Some(SettingsProblem::MissingSonioxKey)
    } else if !chunk_ms_supported(s.chunk_ms) {
        Some(SettingsProblem::ChunkMs)
    } else if s.intra_threads < 1 {
        Some(SettingsProblem::IntraThreads)
    } else if s.inter_threads < 1 {
        Some(SettingsProblem::InterThreads)
    } else if s.empty_reset_threshold < 1 {
        Some(SettingsProblem::EmptyResetThreshold)
    } else if text::is_blank_text(s.model_path@) {
        Some(SettingsProblem::ModelPath)
    } else {
        None
    }
}

/// The first problem with the settings, given whether the diagnostics directory is
/// there.
pub open spec fn first_problem(s: Settings, dir_ready: bool) -> Option<SettingsProblem> {
    if recognizer_problem(s) is Some {
        recognizer_problem(s)
    } else {
        shared_problem(s.shared_view(), dir_ready)
    }
}

/// The message for a problem.
pub open spec fn explanation(s: Settings, problem: SettingsProblem, dir_error: Seq<char>) -> Seq<
    PieceView,
> {
    match problem {
        SettingsProblem::AsrProvider => seq![
            PieceView::Text(
                "Invalid asr_provider '"@ + s.asr_provider@
                    + "'; must be one of [\"nemotron\"]"@,
            ),
        ],
        SettingsProblem::MissingSonioxKey => seq![
            PieceView::Text(
                "A Soniox API key is required when the Soniox provider is selected"@,
            ),
        ],
        SettingsProblem::ChunkMs => seq![
            PieceView::Text(
                "Invalid chunk_ms "@ + text::decimal_of(s.chunk_ms as nat)
                    + "; must be one of [80, 160, 560, 1120]"@,
            ),
        ],
        SettingsProblem::IntraThreads => seq![
            PieceView::Text("intra_threads must be at least 1"@),
        ],
        SettingsProblem::InterThreads => seq![
            PieceView::Text("inter_threads must be at least 1"@),
        ],
        SettingsProblem::EmptyResetThreshold => seq![
            PieceView::Text("empty_reset_threshold must be at least 1"@),
        ],
        SettingsProblem::ModelPath => seq![PieceView::Text("model_path cannot be empty"@)],
        _ => shared_explanation(s.shared_view(), problem, dir_error),
    }
}

/// The fields that a listing of the settings shows, in order. Of the key it shows
/// only whether there is one.
pub open spec fn listing(s: Settings) -> Seq<FieldView> {
    seq![
        FieldView { name: "asr_provider"@, value: FieldValueView::Text(s.asr_provider@) },
        FieldView { name: "model_path"@, value: FieldValueView::Text(s.model_path@) },
        FieldView { name: "chunk_ms"@, value: FieldValueView::Count(s.chunk_ms as u64) },
        FieldView { name: "intra_threads"@, value: FieldValueView::Count(s.intra_threads as u64) },
        FieldView { name: "inter_threads"@, value: FieldValueView::Count(s.inter_threads as u64) },
        FieldView { name: "punctuation_reset"@, value: FieldValueView::Flag(s.punctuation_reset) },
        FieldView {
            name: "empty_reset_threshold"@,
            value: FieldValueView::Count(s.empty_reset_threshold as u64),
        },
        FieldView { name: "font_family"@, value: FieldValueView::Text(s.font_family@) },
        FieldView { name: "font_size_px"@, value: FieldValueView::Count(s.font_size_px as u64) },
        FieldView { name: "theme_mode"@, value: FieldValueView::Text(s.theme_mode@) },
        FieldView {
            name: "vad_threshold_start"@,
            value: FieldValueView::Number(s.vad_threshold_start),
        },
        FieldView {
            name: "vad_threshold_end"@,
            value: FieldValueView::Number(s.vad_threshold_end),
        },
        FieldView {
            name: "diagnostics_enabled"@,
            value: FieldValueView::Flag(s.diagnostics_enabled),
        },
        FieldView {
            name: "diagnostics_db_path"@,
            value: FieldValueView::Text(s.diagnostics_db_path@),
        },
        FieldView { name: "agc_enabled"@, value: FieldValueView::Flag(s.agc_enabled) },
        FieldView {
            name: "agc_target_rms_dbfs"@,
            value: FieldValueView::Number(s.agc_target_rms_dbfs),
        },
        FieldView { name: "agc_max_gain_db"@, value: FieldValueView::Number(s.agc_max_gain_db) },
        FieldView { name: "agc_attack_ms"@, value: FieldValueView::Number(s.agc_attack_ms) },
        FieldView { name: "agc_release_ms"@, value: FieldValueView::Number(s.agc_release_ms) },
        FieldView {
            name: "soniox_api_key"@,
            value: FieldValueView::Text(masked_key(s.soniox_api_key@)),
        },
        FieldView { name: "soniox_model"@, value: FieldValueView::Text(s.soniox_model@) },
        FieldView {
            name: "soniox_language_hints"@,
            value: FieldValueView::Text(s.soniox_language_hints@),
        },
        FieldView {
            name: "soniox_diarization"@,
            value: FieldValueView::Flag(s.soniox_diarization),
        },
        FieldView {
            name: "soniox_endpoint_detection"@,
            value: FieldValueView::Flag(s.soniox_endpoint_detection),
        },
    ]
}

/// What stands for a key where it could be seen.
pub open spec fn masked_key(key: Seq<char>) -> Seq<char> {
    if key.len() == 0 {
        "<unset>"@
    } else {
        "<redacted>"@
    }
}

pub fn mask_key(key: &str) -> (r: String)
    ensures
        r@ == masked_key(key@),
{
    if text::is_empty(key) {
        "<unset>".to_owned()
    } else {
        "<redacted>".to_owned()
    }
}

impl Settings {
    pub open spec fn shared_view(self) -> SharedView {
        SharedView {
            theme_mode: self.theme_mode@,
            vad_threshold_start: self.vad_threshold_start,
            vad_threshold_end: self.vad_threshold_end,
            diagnostics_enabled: self.diagnostics_enabled,
            diagnostics_db_path: self.diagnostics_db_path@,
            agc_target_rms_dbfs: self.agc_target_rms_dbfs,
            agc_max_gain_db: self.agc_max_gain_db,
            agc_attack_ms: self.agc_attack_ms,
            agc_release_ms: self.agc_release_ms,
        }
    }

    fn shared(&self) -> (r: SharedSettings<'_>)
        ensures
            r@ == self.shared_view(),
    {
        SharedSettings {
            theme_mode: self.theme_mode.as_str(),
            vad_threshold_start: self.vad_threshold_start,
            vad_threshold_end: self.vad_threshold_end,
            diagnostics_enabled: self.diagnostics_enabled,
            diagnostics_db_path: self.diagnostics_db_path.as_str(),
            agc_target_rms_dbfs: self.agc_target_rms_dbfs,
            agc_max_gain_db: self.agc_max_gain_db,
            agc_attack_ms: self.agc_attack_ms,
            agc_release_ms: self.agc_release_ms,
        }
    }

    /// The defaults, with the diagnostics database at `diagnostics_db_path`.
    pub fn defaults(diagnostics_db_path: String) -> (r: Self)
        ensures
            r.asr_provider@ == "nemotron"@,
            r.model_path@ == "~/projects/prs-nemotron/"@,
            r.chunk_ms == 560,
            r.intra_threads == 2,
            r.inter_threads == 1,
            r.punctuation_reset,
            r.empty_reset_threshold == 6,
            r.font_family@.len() == 0,
            r.font_size_px == 0,
            r.theme_mode@ == "dark"@,
            r.vad_threshold_start.bits == DEFAULT_VAD_START,
            r.vad_threshold_end.bits == DEFAULT_VAD_END,
            !r.diagnostics_enabled,
            r.diagnostics_db_path == diagnostics_db_path,
            !r.agc_enabled,
            r.agc_target_rms_dbfs.bits == DEFAULT_AGC_TARGET,
            r.agc_max_gain_db.bits == DEFAULT_AGC_MAX_GAIN,
            r.agc_attack_ms.bits == DEFAULT_AGC_ATTACK,
            r.agc_release_ms.bits == DEFAULT_AGC_RELEASE,
            r.soniox_api_key@.len() == 0,
            r.soniox_model@ == "stt-rt-v5"@,
            r.soniox_language_hints@ == "en"@,
            r.soniox_diarization,
            r.soniox_endpoint_detection,
            first_problem(r, true) is None,
    {
        let r = Settings {
            asr_provider: "nemotron".to_owned(),
            model_path: "~/projects/prs-nemotron/".to_owned(),
            chunk_ms: 560,
            intra_threads: 2,
            inter_threads: 1,
            punctuation_reset: true,
            empty_reset_threshold: 6,
            font_family: String::new(),
            font_size_px: 0,
            theme_mode: "dark".to_owned(),
            vad_threshold_start: Single { bits: DEFAULT_VAD_START },
            vad_threshold_end: Single { bits: DEFAULT_VAD_END },
            diagnostics_enabled: false,
            diagnostics_db_path,
            agc_enabled: false,
            agc_target_rms_dbfs: Single { bits: DEFAULT_AGC_TARGET },
            agc_max_gain_db: Single { bits: DEFAULT_AGC_MAX_GAIN },
            agc_attack_ms: Single { bits: DEFAULT_AGC_ATTACK },
            agc_release_ms: Single { bits: DEFAULT_AGC_RELEASE },
            soniox_api_key: String::new(),
            soniox_model: "stt-rt-v5".to_owned(),
            soniox_language_hints: "en".to_owned(),
            soniox_diarization: true,
            soniox_endpoint_detection: true,
        };
        proof {
            reveal_strlit("nemotron");
            reveal_strlit("soniox");
            reveal_strlit("~/projects/prs-nemotron/");
            assert(!text::is_space(r.model_path@[0]));
            assert("nemotron"@.len() != "soniox"@.len());
        }
        r
    }

    /// Returns the config directory: ~/.config/larmindon/
    pub fn config_dir(home: Option<&str>) -> (r: PathParts)
        ensures
            r@ == paths::config_dir_of(
                match home {
                    Some(h) => Some(h@),
                    None => None,
                },
            ),
    {
        paths::config_dir(home)
    }

    /// Default location for the diagnostics SQLite DB: alongside settings.json.
    pub fn default_diag_db_path(home: Option<&str>) -> (r: PathParts)
        ensures
            r@ == paths::config_file_of(
                match home {
                    Some(h) => Some(h@),
                    None => None,
                },
                "larmindon_diag.sqlite"@,
            ),
    {
        paths::default_diag_db_path(home)
    }

    /// Apply environment variable overrides on top of the current settings.
    /// Priority: env var > saved setting > default.
    pub fn with_env_overrides(self, env: &EnvOverrides) -> (r: Self)
        ensures
            r.chunk_ms == overridden_chunk_ms(self.chunk_ms, env.chunk_ms),
            r.intra_threads == overridden_threads(self.intra_threads, env.intra_threads),
            r.inter_threads == overridden_threads(self.inter_threads, env.inter_threads),
            r.punctuation_reset == overridden_flag(
                self.punctuation_reset,
                env.punctuation_reset,
            ),
            r.soniox_api_key@ == overridden_key(self.soniox_api_key@, env.soniox_api_key),
            r == (Settings {
                chunk_ms: r.chunk_ms,
                intra_threads: r.intra_threads,
                inter_threads: r.inter_threads,
                punctuation_reset: r.punctuation_reset,
                soniox_api_key: r.soniox_api_key,
                ..self
            }),
    {
        let mut r = self;
        r.chunk_ms = override_chunk_ms(r.chunk_ms, &env.chunk_ms);
        r.intra_threads = override_threads(r.intra_threads, &env.intra_threads);
        r.inter_threads = override_threads(r.inter_threads, &env.inter_threads);
        r.punctuation_reset = override_flag(r.punctuation_reset, &env.punctuation_reset);
        if let Some(key) = &env.soniox_api_key {
            if !text::is_blank(key.as_str()) {
                r.soniox_api_key = key.clone();
            }
        }
        r
    }

    /// A copy of the settings.
    pub fn copy(&self) -> (r: Self)
        ensures
            r == *self,
    {
        Settings {
            asr_provider: self.asr_provider.clone(),
            model_path: self.model_path.clone(),
            chunk_ms: self.chunk_ms,
            intra_threads: self.intra_threads,
            inter_threads: self.inter_threads,
            punctuation_reset: self.punctuation_reset,
            empty_reset_threshold: self.empty_reset_threshold,
            font_family: self.font_family.clone(),
            font_size_px: self.font_size_px,
            theme_mode: self.theme_mode.clone(),
            vad_threshold_start: self.vad_threshold_start,
            vad_threshold_end: self.vad_threshold_end,
            diagnostics_enabled: self.diagnostics_enabled,
            diagnostics_db_path: self.diagnostics_db_path.clone(),
            agc_enabled: self.agc_enabled,
            agc_target_rms_dbfs: self.agc_target_rms_dbfs,
            agc_max_gain_db: self.agc_max_gain_db,
            agc_attack_ms: self.agc_attack_ms,
            agc_release_ms: self.agc_release_ms,
            soniox_api_key: self.soniox_api_key.clone(),
            soniox_model: self.soniox_model.clone(),
            soniox_language_hints: self.soniox_language_hints.clone(),
            soniox_diarization: self.soniox_diarization,
            soniox_endpoint_detection: self.soniox_endpoint_detection,
        }
    }

    /// A copy with every secret blanked, safe to show.
    pub fn redacted(&self) -> (r: Self)
        ensures
            r.soniox_api_key@ == Seq::<char>::empty(),
            r == (Settings { soniox_api_key: r.soniox_api_key, ..*self }),
    {
        let mut r = self.copy();
        r.soniox_api_key = String::new();
        r
    }

    /// Whether a key is stored, so the UI can distinguish "saved, type to
    /// replace" from "not set" without ever seeing the value.
    pub fn has_soniox_api_key(&self) -> (r: bool)
        ensures
            r == (self.soniox_api_key@.len() > 0),
    {
        !text::is_empty(self.soniox_api_key.as_str())
    }

    /// The fields to show when the settings are listed.
    pub fn fields(&self) -> (r: Vec<Field>)
        ensures
            report::fields_view(r@) == listing(*self),
    {
        let mut r: Vec<Field> = Vec::new();
        assert(report::fields_view(r@) =~= Seq::<FieldView>::empty());
        report::list(&mut r, "asr_provider", FieldValue::Text(self.asr_provider.clone()));
        report::list(&mut r, "model_path", FieldValue::Text(self.model_path.clone()));
        report::list(&mut r, "chunk_ms", FieldValue::Count(self.chunk_ms as u64));
        report::list(&mut r, "intra_threads", FieldValue::Count(self.intra_threads as u64));
        report::list(&mut r, "inter_threads", FieldValue::Count(self.inter_threads as u64));
        report::list(&mut r, "punctuation_reset", FieldValue::Flag(self.punctuation_reset));
        report::list(
            &mut r,
            "empty_reset_threshold",
            FieldValue::Count(self.empty_reset_threshold as u64),
        );
        report::list(&mut r, "font_family", FieldValue::Text(self.font_family.clone()));
        report::list(&mut r, "font_size_px", FieldValue::Count(self.font_size_px as u64));
        report::list(&mut r, "theme_mode", FieldValue::Text(self.theme_mode.clone()));
        report::list(
            &mut r,
            "vad_threshold_start",
            FieldValue::Number(self.vad_threshold_start),
        );
        report::list(&mut r, "vad_threshold_end", FieldValue::Number(self.vad_threshold_end));
        report::list(&mut r, "diagnostics_enabled", FieldValue::Flag(self.diagnostics_enabled));
        report::list(
            &mut r,
            "diagnostics_db_path",
            FieldValue::Text(self.diagnostics_db_path.clone()),
        );
        report::list(&mut r, "agc_enabled", FieldValue::Flag(self.agc_enabled));
        report::list(
            &mut r,
            "agc_target_rms_dbfs",
            FieldValue::Number(self.agc_target_rms_dbfs),
        );
        report::list(&mut r, "agc_max_gain_db", FieldValue::Number(self.agc_max_gain_db));
        report::list(&mut r, "agc_attack_ms", FieldValue::Number(self.agc_attack_ms));
        report::list(&mut r, "agc_release_ms", FieldValue::Number(self.agc_release_ms));
        report::list(
            &mut r,
            "soniox_api_key",
            FieldValue::Text(mask_key(self.soniox_api_key.as_str())),
        );
        report::list(&mut r, "soniox_model", FieldValue::Text(self.soniox_model.clone()));
        report::list(
            &mut r,
            "soniox_language_hints",
            FieldValue::Text(self.soniox_language_hints.clone()),
        );
        report::list(&mut r, "soniox_diarization", FieldValue::Flag(self.soniox_diarization));
        report::list(
            &mut r,
            "soniox_endpoint_detection",
            FieldValue::Flag(self.soniox_endpoint_detection),
        );
        assert(report::fields_view(r@) =~= listing(*self));
        r
    }

    fn recognizer_problem(&self) -> (r: Option<SettingsProblem>)
        ensures
            r == recognizer_problem(*self),
    {
        if !text::same_text(self.asr_provider.as_str(), "nemotron") {
            Some(SettingsProblem::AsrProvider)
        } else if text::same_text(self.asr_provider.as_str(), "soniox") && text::is_blank(
            self.soniox_api_key.as_str(),
        ) {
            Some(SettingsProblem::MissingSonioxKey)
        } else if !is_valid_chunk_ms(self.chunk_ms) {
            Some(SettingsProblem::ChunkMs)
        } else if self.intra_threads < 1 {
            Some(SettingsProblem::IntraThreads)
        } else if self.inter_threads < 1 {
            Some(SettingsProblem::InterThreads)
        } else if self.empty_reset_threshold < 1 {
            Some(SettingsProblem::EmptyResetThreshold)
        } else if text::is_blank(self.model_path.as_str()) {
            Some(SettingsProblem::ModelPath)
        } else {
            None
        }
    }

    /// Whether validation gets as far as the directory of the diagnostics
    /// database, which must then be made before [`Settings::validate`] can judge.
    pub fn needs_diagnostics_dir(&self) -> (r: bool)
        ensures
            r == (self.diagnostics_enabled && !text::is_blank_text(self.diagnostics_db_path@)
                && recognizer_problem(*self) is None && problem_before_diagnostics(
                self.shared_view(),
            ) is None),
    {
        self.diagnostics_enabled && !text::is_blank(self.diagnostics_db_path.as_str())
            && self.recognizer_problem().is_none()
            && self.shared().problem_before_diagnostics().is_none()
    }

    /// Validate that settings values are within acceptable ranges. `dir_ready`
    /// says whether the directory of the diagnostics database is there, or could
    /// be made, where [`Settings::needs_diagnostics_dir`] asks for it.
    pub fn validate(&self, dir_ready: bool) -> (r: Result<(), SettingsProblem>)
        ensures
            r == match first_problem(*self, dir_ready) {
                Some(problem) => Err::<(), SettingsProblem>(problem),
                None => Ok(()),
            },
    {
        if let Some(problem) = self.recognizer_problem() {
            return Err(problem);
        }
        match self.shared().problem(dir_ready) {
            Some(problem) => Err(problem),
            None => Ok(()),
        }
    }

    /// The message for a problem. `dir_error` says why the diagnostics directory
    /// could not be made.
    pub fn explain(&self, problem: SettingsProblem, dir_error: &str) -> (r: Vec<Piece>)
        ensures
            report::pieces_view(r@) == explanation(*self, problem, dir_error@),
    {
        match problem {
            SettingsProblem::AsrProvider => report::three_texts(
                "Invalid asr_provider '",
                self.asr_provider.as_str(),
                "'; must be one of [\"nemotron\"]",
            ),
            SettingsProblem::MissingSonioxKey => report::one_text(
                "A Soniox API key is required when the Soniox provider is selected",
            ),
            SettingsProblem::ChunkMs => report::three_texts(
                "Invalid chunk_ms ",
                text::decimal(self.chunk_ms as u64).as_str(),
                "; must be one of [80, 160, 560, 1120]",
            ),
            SettingsProblem::IntraThreads => report::one_text("intra_threads must be at least 1"),
            SettingsProblem::InterThreads => report::one_text("inter_threads must be at least 1"),
            SettingsProblem::EmptyResetThreshold => report::one_text(
                "empty_reset_threshold must be at least 1",
            ),
            SettingsProblem::ModelPath => report::one_text("model_path cannot be empty"),
            _ => self.shared().explain(problem, dir_error),
        }
    }
}

// ---------------------------------------------------------------------------
// Laws
// ---------------------------------------------------------------------------

/// A listing tells nothing of a key but whether there is one: settings that agree
/// in everything else, and both have a key or both have none, list alike.
pub proof fn law_listing_hides_the_key(a: Settings, b: Settings)
    requires
        b == (Settings { soniox_api_key: b.soniox_api_key, ..a }),
        a.soniox_api_key@.len() == 0 <==> b.soniox_api_key@.len() == 0,
    ensures
        listing(a) == listing(b),
{
}

/// A usable configuration has its voice-activity thresholds in order, a positive
/// number of threads, and a supported chunk duration.
pub proof fn law_valid_settings_are_in_range(s: Settings)
    requires
        first_problem(s, true) is None,
    ensures
        s.vad_threshold_start.within_spec(ZERO, ONE),
        s.vad_threshold_end.within_spec(ZERO, ONE),
        s.vad_threshold_end.le_spec(s.vad_threshold_start),
        chunk_ms_supported(s.chunk_ms),
        16000 * s.chunk_ms / 1000 > 0,
        s.intra_threads >= 1,
        s.inter_threads >= 1,
        s.empty_reset_threshold >= 1,
{
}

} // verus!
