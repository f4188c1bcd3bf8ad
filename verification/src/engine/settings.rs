//! Settings of the build with pluggable engines: shared fields, the active engine,
//! and one config object per engine.

use serde_json::Value;
use vstd::prelude::*;

use crate::bits::Single;
use crate::json;
use crate::json::JsonView;
use crate::paths;
use crate::paths::PathParts;
use crate::report;
use crate::report::Piece;
use crate::report::PieceView;
use crate::settings;
use crate::settings::SettingsProblem;
use crate::settings::SharedSettings;
use crate::settings::SharedView;
use crate::text;

pub use crate::paths::expand_tilde;
pub use crate::settings::chunk_ms_to_samples;

verus! {

/// Settings file format version. v1 was flat with Nemotron fields at the top
/// level; v2 nests per-engine config under `engines`.
pub const SETTINGS_VERSION: u32 = 2;

pub struct Settings {
    pub version: u32,
    /// Id of the speech engine used for new sessions.
    pub active_engine: String,
    /// Per-engine config blobs, keyed by engine id. Each blob's schema is
    /// owned by the engine; entries for engines this build doesn't
    /// include are preserved untouched so the file stays stable across
    /// feature-different builds.
    pub engines: serde_json::Map<String, Value>,
    /// Font family for transcript display. Empty string = use default.
    pub font_family: String,
    /// Font size in px for transcript display. 0 = use default.
    pub font_size_px: u32,
    /// Theme mode: "light", "dark", or "system"
    pub theme_mode: String,
    /// VAD speech-start threshold (probability to open a speech segment)
    pub vad_threshold_start: Single,
    /// VAD speech-end threshold (probability to close a speech segment)
    pub vad_threshold_end: Single,
    /// Whether to write per-chunk diagnostics to the SQLite DB.
    pub diagnostics_enabled: bool,
    /// Path to the diagnostics SQLite file. Tilde is expanded at use.
    pub diagnostics_db_path: String,
    /// Whether AGC (Automatic Gain Control) is active.
    pub agc_enabled: bool,
    /// AGC target RMS level in dBFS (e.g. -20.0).
    pub agc_target_rms_dbfs: Single,
    /// AGC maximum gain in dB (ceiling to prevent noise-floor amplification).
    pub agc_max_gain_db: Single,
    /// AGC attack time in ms (fast gain reduction when signal gets loud).
    pub agc_attack_ms: Single,
    /// AGC release time in ms (slow gain increase when signal gets quiet).
    pub agc_release_ms: Single,
}

/// The first problem with the settings, given whether the diagnostics directory is
/// there.
pub open spec fn first_problem(s: Settings, dir_ready: bool) -> Option<SettingsProblem> {
    if text::is_blank_text(s.active_engine@) {
        Some(SettingsProblem::ActiveEngine)
    } else {
        settings::shared_problem(s.shared_view(), dir_ready)
    }
}

/// The message for a problem.
pub open spec fn explanation(s: Settings, problem: SettingsProblem, dir_error: Seq<char>) -> Seq<
    PieceView,
> {
    if problem is ActiveEngine {
        seq![PieceView::Text("active_engine cannot be empty"@)]
    } else {
        settings::shared_explanation(s.shared_view(), problem, dir_error)
    }
}

impl Settings {
    pub open spec fn shared_view(self) -> SharedView {
        SharedView {
            theme_mode: self.theme_mode@,
            vad_threshold_start: self.vad_threshold_start,
            vad_threshold_end: self.vad_threshold_end,
            diagnostics_enabled: self.diagnostics_enabled,
            diagnostics_db_path: self.diagnostics_db_path@,
            agc_target_rms_dbfs: self.agc_target_rms_dbfs,
            agc_max_gain_db: self.agc_max_gain_db,
            agc_attack_ms: self.agc_attack_ms,
            agc_release_ms: self.agc_release_ms,
        }
    }

    fn shared(&self) -> (r: SharedSettings<'_>)
        ensures
            r@ == self.shared_view(),
    {
        SharedSettings {
            theme_mode: self.theme_mode.as_str(),
            vad_threshold_start: self.vad_threshold_start,
            vad_threshold_end: self.vad_threshold_end,
            diagnostics_enabled: self.diagnostics_enabled,
            diagnostics_db_path: self.diagnostics_db_path.as_str(),
            agc_target_rms_dbfs: self.agc_target_rms_dbfs,
            agc_max_gain_db: self.agc_max_gain_db,
            agc_attack_ms: self.agc_attack_ms,
            agc_release_ms: self.agc_release_ms,
        }
    }

    /// The defaults, with the diagnostics database at `diagnostics_db_path`.
    pub fn defaults(diagnostics_db_path: String) -> (r: Self)
        ensures
            r.version == SETTINGS_VERSION,
            r.active_engine@ == "nemotron"@,
            json::map_view(r.engines).is_empty(),
            r.font_family@.len() == 0,
            r.font_size_px == 0,
            r.theme_mode@ == "dark"@,
            r.vad_threshold_start.bits == settings::DEFAULT_VAD_START,
            r.vad_threshold_end.bits == settings::DEFAULT_VAD_END,
            !r.diagnostics_enabled,
            r.diagnostics_db_path == diagnostics_db_path,
            !r.agc_enabled,
            r.agc_target_rms_dbfs.bits == settings::DEFAULT_AGC_TARGET,
            r.agc_max_gain_db.bits == settings::DEFAULT_AGC_MAX_GAIN,
            r.agc_attack_ms.bits == settings::DEFAULT_AGC_ATTACK,
            r.agc_release_ms.bits == settings::DEFAULT_AGC_RELEASE,
            first_problem(r, true) is None,
    {
        let r = Settings {
            version: SETTINGS_VERSION,
            active_engine: "nemotron".to_owned(),
            engines: json::new_map(),
            font_family: String::new(),
            font_size_px: 0,
            theme_mode: "dark".to_owned(),
            vad_threshold_start: Single { bits: settings::DEFAULT_VAD_START },
            vad_threshold_end: Single { bits: settings::DEFAULT_VAD_END },
            diagnostics_enabled: false,
            diagnostics_db_path,
            agc_enabled: false,
            agc_target_rms_dbfs: Single { bits: settings::DEFAULT_AGC_TARGET },
            agc_max_gain_db: Single { bits: settings::DEFAULT_AGC_MAX_GAIN },
            agc_attack_ms: Single { bits: settings::DEFAULT_AGC_ATTACK },
            agc_release_ms: Single { bits: settings::DEFAULT_AGC_RELEASE },
        };
        proof {
            reveal_strlit("nemotron");
            assert(!text::is_space(r.active_engine@[0]));
        }
        r
    }

    /// Returns the config directory: ~/.config/larmindon/
    pub fn config_dir(home: Option<&str>) -> (r: PathParts)
        ensures
            r@ == paths::config_dir_of(
                match home {
                    Some(h) => Some(h@),
                    None => None,
                },
            ),
    {
        paths::config_dir(home)
    }

    /// Default location for the diagnostics SQLite DB: alongside settings.json.
    pub fn default_diag_db_path(home: Option<&str>) -> (r: PathParts)
        ensures
            r@ == paths::config_file_of(
                match home {
                    Some(h) => Some(h@),
                    None => None,
                },
                "larmindon_diag.sqlite"@,
            ),
    {
        paths::default_diag_db_path(home)
    }

    /// Whether validation gets as far as the directory of the diagnostics
    /// database, which must then be made before [`Settings::validate`] can judge.
    pub fn needs_diagnostics_dir(&self) -> (r: bool)
        ensures
            r == (self.diagnostics_enabled && !text::is_blank_text(self.diagnostics_db_path@)
                && !text::is_blank_text(self.active_engine@)
                && settings::problem_before_diagnostics(self.shared_view()) is None),
    {
        self.diagnostics_enabled && !text::is_blank(self.diagnostics_db_path.as_str())
            && !text::is_blank(self.active_engine.as_str())
            && self.shared().problem_before_diagnostics().is_none()
    }

    /// Validate the shared (engine-independent) fields. Engine config blobs
    /// are validated by their factories. `dir_ready` says whether the directory of
    /// the diagnostics database is there, or could be made, where
    /// [`Settings::needs_diagnostics_dir`] asks for it.
    pub fn validate(&self, dir_ready: bool) -> (r: Result<(), SettingsProblem>)
        ensures
            r == match first_problem(*self, dir_ready) {
                Some(problem) => Err::<(), SettingsProblem>(problem),
                None => Ok(()),
            },
    {
        if text::is_blank(self.active_engine.as_str()) {
            return Err(SettingsProblem::ActiveEngine);
        }
        match self.shared().problem(dir_ready) {
            Some(problem) => Err(problem),
            None => Ok(()),
        }
    }

    /// The message for a problem. `dir_error` says why the diagnostics directory
    /// could not be made.
    pub fn explain(&self, problem: SettingsProblem, dir_error: &str) -> (r: Vec<Piece>)
        ensures
            report::pieces_view(r@) == explanation(*self, problem, dir_error@),
    {
        match problem {
            SettingsProblem::ActiveEngine => report::one_text("active_engine cannot be empty"),
            _ => self.shared().explain(problem, dir_error),
        }
    }

    /// Config blob for the given engine, if one is stored.
    pub fn engine_config(&self, engine_id: &str) -> (r: Option<&Value>)
        ensures
            r is Some == json::map_view(self.engines).dom().contains(engine_id@),
            r is Some ==> json::json_view(*r->Some_0) == json::map_view(self.engines)[engine_id@],
    {
        json::get(&self.engines, engine_id)
    }
}

// ---------------------------------------------------------------------------
// Migration
// ---------------------------------------------------------------------------

/// Engine-specific settings fields that v1 kept at the top level and v2 moves
/// into `engines.nemotron`.
pub open spec fn is_v1_nemotron_key(key: Seq<char>) -> bool {
    ||| key == "model_path"@
    ||| key == "chunk_ms"@
    ||| key == "intra_threads"@
    ||| key == "inter_threads"@
    ||| key == "punctuation_reset"@
    ||| key == "empty_reset_threshold"@
}

/// A settings file that is still flat.
pub open spec fn is_v1(v: JsonView) -> bool {
    v is Object && !v->Object_0.dom().contains("engines"@)
}

/// The fields that move.
pub open spec fn moved(m: Map<Seq<char>, JsonView>) -> Map<Seq<char>, JsonView> {
    m.restrict(Set::new(|k: Seq<char>| is_v1_nemotron_key(k)))
}

/// The fields that stay.
pub open spec fn kept(m: Map<Seq<char>, JsonView>) -> Map<Seq<char>, JsonView> {
    m.remove_keys(Set::new(|k: Seq<char>| is_v1_nemotron_key(k)))
}

/// The `engines` object of a migrated file: the one engine with what moved.
pub open spec fn migrated_engines(m: Map<Seq<char>, JsonView>) -> JsonView {
    JsonView::Object(Map::empty().insert("nemotron"@, JsonView::Object(moved(m))))
}

/// The nested form of a settings file.
pub open spec fn migrated(v: JsonView) -> JsonView {
    if is_v1(v) {
        let m = v->Object_0;
        JsonView::Object(
            kept(m).insert("engines"@, migrated_engines(m)).insert(
                "active_engine"@,
                JsonView::Text("nemotron"@),
            ).insert("version"@, JsonView::Integer(SETTINGS_VERSION as int)),
        )
    } else {
        v
    }
}

/// Moves one entry, where it is there.
fn lift(obj: &mut serde_json::Map<String, Value>, blob: &mut serde_json::Map<String, Value>, key: &str)
    ensures
        json::map_view(*final(obj)) == json::map_view(*old(obj)).remove(key@),
        json::map_view(*final(blob)) == if json::map_view(*old(obj)).dom().contains(key@) {
            json::map_view(*old(blob)).insert(key@, json::map_view(*old(obj))[key@])
        } else {
            json::map_view(*old(blob))
        },
{
    if let Some(v) = json::remove(obj, key) {
        json::insert(blob, key.to_owned(), v);
    }
}

proof fn lemma_keys_differ()
    ensures
        "model_path"@ != "chunk_ms"@,
        "model_path"@ != "intra_threads"@,
        "model_path"@ != "inter_threads"@,
        "model_path"@ != "punctuation_reset"@,
        "model_path"@ != "empty_reset_threshold"@,
        "chunk_ms"@ != "intra_threads"@,
        "chunk_ms"@ != "inter_threads"@,
        "chunk_ms"@ != "punctuation_reset"@,
        "chunk_ms"@ != "empty_reset_threshold"@,
        "intra_threads"@ != "inter_threads"@,
        "intra_threads"@ != "punctuation_reset"@,
        "intra_threads"@ != "empty_reset_threshold"@,
        "inter_threads"@ != "punctuation_reset"@,
        "inter_threads"@ != "empty_reset_threshold"@,
        "punctuation_reset"@ != "empty_reset_threshold"@,
        !is_v1_nemotron_key("engines"@),
        !is_v1_nemotron_key("active_engine"@),
        !is_v1_nemotron_key("version"@),
        "engines"@ != "active_engine"@,
        "engines"@ != "version"@,
        "active_engine"@ != "version"@,
{
    reveal_strlit("model_path");
    reveal_strlit("chunk_ms");
    reveal_strlit("intra_threads");
    reveal_strlit("inter_threads");
    reveal_strlit("punctuation_reset");
    reveal_strlit("empty_reset_threshold");
    reveal_strlit("engines");
    reveal_strlit("active_engine");
    reveal_strlit("version");
    assert("model_path"@.len() == 10);
    assert("chunk_ms"@.len() == 8);
    assert("punctuation_reset"@.len() == 17);
    assert("empty_reset_threshold"@.len() == 21);
    assert("engines"@[0] == 'e');
    assert("version"@[0] == 'v');
    assert("intra_threads"@[2] == 't');
    assert("inter_threads"@[3] == 'e');
    assert("intra_threads"@[3] == 'r');
    assert("active_engine"@[0] == 'a');
    assert("intra_threads"@[0] == 'i');
    assert("inter_threads"@[0] == 'i');
}

/// Rewrite a v1 (flat) settings JSON value into the v2 nested shape in place.
/// Returns true if a migration was performed. v2 files pass through untouched.
pub fn migrate_v1_to_v2(value: &mut Value) -> (r: bool)
    ensures
        r == is_v1(json::json_view(*old(value))),
        json::json_view(*final(value)) == migrated(json::json_view(*old(value))),
{
    proof {
        lemma_keys_differ();
    }
    let obj = match json::as_object_mut(value) {
        Some(obj) => obj,
        None => return false,
    };
    if json::contains_key(obj, "engines") {
        return false;
    }
    let ghost m = json::map_view(*obj);
    let mut nemotron = json::new_map();
    lift(obj, &mut nemotron, "model_path");
    lift(obj, &mut nemotron, "chunk_ms");
    lift(obj, &mut nemotron, "intra_threads");
    lift(obj, &mut nemotron, "inter_threads");
    lift(obj, &mut nemotron, "punctuation_reset");
    lift(obj, &mut nemotron, "empty_reset_threshold");
    assert(json::map_view(nemotron) =~= moved(m));
    assert(json::map_view(*obj) =~= kept(m));
    let mut engines = json::new_map();
    json::insert(&mut engines, "nemotron".to_owned(), json::from_map(nemotron));
    assert(json::map_view(engines) =~= migrated_engines(m)->Object_0);
    json::insert(obj, "engines".to_owned(), json::from_map(engines));
    json::insert(obj, "active_engine".to_owned(), json::from_text("nemotron"));
    json::insert(obj, "version".to_owned(), json::from_count(SETTINGS_VERSION as u64));
    true
}

/// What a settings file holds, in nested form.
pub struct SettingsFile {
    pub value: Value,
    /// Whether the file was flat: it is then backed up and written back.
    pub migrated: bool,
}

/// Reads the text of a settings file. The error is the parser's, for text that is no
/// JSON.
pub fn read_settings(contents: &str) -> (r: Result<SettingsFile, serde_json::Error>)
    ensures
        r is Ok == json::parsed_json(contents@) is Some,
        r is Ok ==> {
            let v = json::parsed_json(contents@)->Some_0;
            &&& r->Ok_0.migrated == is_v1(v)
            &&& json::json_view(r->Ok_0.value) == migrated(v)
        },
{
    match json::parse_json(contents) {
        Ok(parsed) => {
            let mut value = parsed;
            let migrated = migrate_v1_to_v2(&mut value);
            Ok(SettingsFile { value, migrated })
        },
        Err(e) => Err(e),
    }
}

// ---------------------------------------------------------------------------
// Laws
// ---------------------------------------------------------------------------

/// Migrating is idempotent: a migrated file is not flat, and a second migration
/// leaves it as it is.
pub proof fn law_migration_is_idempotent(v: JsonView)
    ensures
        !is_v1(migrated(v)),
        migrated(migrated(v)) == migrated(v),
{
    lemma_keys_differ();
}

/// Migrating loses nothing: every engine field of a flat file stands, unchanged, in
/// the `nemotron` object, which holds nothing else; every other field stays where it
/// was, but for the two that migrating sets.
pub proof fn law_migration_loses_nothing(v: JsonView, key: Seq<char>)
    requires
        is_v1(v),
    ensures
        ({
            let from = v->Object_0;
            let to = migrated(v)->Object_0;
            let blob = to["engines"@]->Object_0["nemotron"@]->Object_0;
            &&& migrated(v) is Object
            &&& is_v1_nemotron_key(key) ==> !to.dom().contains(key) && blob.dom().contains(key)
                == from.dom().contains(key) && (from.dom().contains(key) ==> blob[key]
                == from[key])
            &&& !is_v1_nemotron_key(key) ==> !blob.dom().contains(key)
            &&& !is_v1_nemotron_key(key) && key != "engines"@ && key != "active_engine"@ && key
                != "version"@ ==> to.dom().contains(key) == from.dom().contains(key) && (
            from.dom().contains(key) ==> to[key] == from[key])
            &&& to["active_engine"@] == JsonView::Text("nemotron"@)
            &&& to["version"@] == JsonView::Integer(SETTINGS_VERSION as int)
        }),
{
    lemma_keys_differ();
}

} // verus!
