//! Settings of both builds.

use std::path::PathBuf;

use larmindon::bits::Single;
use larmindon::engine;
use larmindon::engine::settings::{migrate_v1_to_v2, read_settings, SETTINGS_VERSION};
use larmindon::paths;
use larmindon::paths::{HomeVars, PathParts};
use larmindon::report::{Field, FieldValue, Piece};
use larmindon::settings::{
    chunk_ms_to_samples, expand_tilde, EnvOverrides, Settings, SettingsProblem,
};
use serde_json::Value;

const HOME: &str = "/home/user";

fn single(x: f32) -> Single {
    Single { bits: x.to_bits() }
}

fn joined(parts: &PathParts) -> PathBuf {
    let mut path = PathBuf::from(&parts.base);
    for component in &parts.rest {
        path.push(component);
    }
    path
}

fn rendered(pieces: &[Piece]) -> String {
    pieces
        .iter()
        .map(|piece| match piece {
            Piece::Text(t) => t.clone(),
            Piece::Number(n) => format!("{}", f32::from_bits(n.bits)),
        })
        .collect()
}

fn listed(fields: &[Field]) -> String {
    let mut out = String::new();
    for field in fields {
        let value = match &field.value {
            FieldValue::Text(t) => format!("{t:?}"),
            FieldValue::List(l) => format!("{l:?}"),
            FieldValue::Count(n) => format!("{n}"),
            FieldValue::Flag(b) => format!("{b}"),
            FieldValue::Number(n) => format!("{}", f32::from_bits(n.bits)),
        };
        out.push_str(&format!("{}: {}, ", field.name, value));
    }
    out
}

fn defaults() -> Settings {
    Settings::defaults("/diag.sqlite".to_string())
}

fn engine_defaults() -> engine::settings::Settings {
    engine::settings::Settings::defaults("/diag.sqlite".to_string())
}

fn validate(s: &Settings) -> Result<(), String> {
    s.validate(true).map_err(|problem| rendered(&s.explain(problem, "")))
}

fn validate_engine(s: &engine::settings::Settings) -> Result<(), String> {
    s.validate(true).map_err(|problem| rendered(&s.explain(problem, "")))
}

fn parsed(text: &str) -> Value {
    serde_json::from_str(text).expect("valid JSON")
}

#[test]
fn default_settings_are_valid() {
    let settings = defaults();
    assert!(validate(&settings).is_ok());
}

#[test]
fn settings_default_settings_are_valid() {
    let settings = engine_defaults();
    assert!(validate_engine(&settings).is_ok());
}

#[test]
fn validate_rejects_invalid_theme_mode() {
    let mut s = defaults();
    s.theme_mode = "neon".to_string();
    assert!(validate(&s).is_err());
    assert!(validate(&s).unwrap_err().contains("theme_mode"));
}

#[test]
fn settings_validate_rejects_invalid_theme_mode() {
    let mut s = engine_defaults();
    s.theme_mode = "neon".to_string();
    assert!(validate_engine(&s).is_err());
    assert!(validate_engine(&s).unwrap_err().contains("theme_mode"));
}

#[test]
fn validate_accepts_all_valid_themes() {
    for theme in &["light", "dark", "system"] {
        let mut s = defaults();
        s.theme_mode = theme.to_string();
        assert!(validate(&s).is_ok(), "theme '{}' should be valid", theme);
    }
}

#[test]
fn settings_validate_accepts_all_valid_themes() {
    for theme in &["light", "dark", "system"] {
        let mut s = engine_defaults();
        s.theme_mode = theme.to_string();
        assert!(validate_engine(&s).is_ok(), "theme '{}' should be valid", theme);
    }
}

#[test]
fn validate_rejects_vad_threshold_out_of_range() {
    let mut s = defaults();
    s.vad_threshold_start = single(1.5);
    assert!(validate(&s).is_err());

    let mut s = defaults();
    s.vad_threshold_end = single(-0.1);
    assert!(validate(&s).is_err());
}

#[test]
fn settings_validate_rejects_vad_threshold_out_of_range() {
    let mut s = engine_defaults();
    s.vad_threshold_start = single(1.5);
    assert!(validate_engine(&s).is_err());

    let mut s = engine_defaults();
    s.vad_threshold_end = single(-0.1);
    assert!(validate_engine(&s).is_err());
}

#[test]
fn validate_rejects_start_below_end_threshold() {
    let mut s = defaults();
    s.vad_threshold_start = single(0.2);
    s.vad_threshold_end = single(0.5);
    assert!(validate(&s).is_err());
    assert!(validate(&s).unwrap_err().contains("vad_threshold_start"));
}

#[test]
fn settings_validate_rejects_start_below_end_threshold() {
    let mut s = engine_defaults();
    s.vad_threshold_start = single(0.2);
    s.vad_threshold_end = single(0.5);
    assert!(validate_engine(&s).is_err());
    assert!(validate_engine(&s).unwrap_err().contains("vad_threshold_start"));
}

#[test]
fn validate_accepts_equal_thresholds() {
    let mut s = defaults();
    s.vad_threshold_start = single(0.5);
    s.vad_threshold_end = single(0.5);
    assert!(validate(&s).is_ok());
}

#[test]
fn settings_validate_accepts_equal_thresholds() {
    let mut s = engine_defaults();
    s.vad_threshold_start = single(0.5);
    s.vad_threshold_end = single(0.5);
    assert!(validate_engine(&s).is_ok());
}

#[test]
fn validate_rejects_invalid_chunk_ms() {
    let mut s = defaults();
    s.chunk_ms = 999;
    assert!(validate(&s).is_err());
    assert!(validate(&s).unwrap_err().contains("chunk_ms"));
}

#[test]
fn validate_accepts_all_valid_chunk_ms() {
    for &ms in &[80, 160, 560, 1120] {
        let mut s = defaults();
        s.chunk_ms = ms;
        assert!(validate(&s).is_ok(), "chunk_ms={} should be valid", ms);
    }
}

#[test]
fn validate_rejects_zero_intra_threads() {
    let mut s = defaults();
    s.intra_threads = 0;
    assert!(validate(&s).is_err());
    assert!(validate(&s).unwrap_err().contains("intra_threads"));
}

#[test]
fn validate_rejects_zero_inter_threads() {
    let mut s = defaults();
    s.inter_threads = 0;
    assert!(validate(&s).is_err());
    assert!(validate(&s).unwrap_err().contains("inter_threads"));
}

#[test]
fn validate_rejects_zero_empty_reset_threshold() {
    let mut s = defaults();
    s.empty_reset_threshold = 0;
    assert!(validate(&s).is_err());
    assert!(validate(&s).unwrap_err().contains("empty_reset_threshold"));
}

#[test]
fn validate_rejects_empty_model_path() {
    let mut s = defaults();
    s.model_path = "   ".to_string();
    assert!(validate(&s).is_err());
    assert!(validate(&s).unwrap_err().contains("model_path"));
}

#[test]
fn chunk_ms_to_samples_correct_values() {
    assert_eq!(chunk_ms_to_samples(80), 1280);
    assert_eq!(chunk_ms_to_samples(160), 2560);
    assert_eq!(chunk_ms_to_samples(560), 8960);
    assert_eq!(chunk_ms_to_samples(1120), 17920);
}

#[test]
fn redacted_blanks_the_api_key_and_keeps_everything_else() {
    let mut s = defaults();
    s.soniox_api_key = "super-secret".to_string();
    s.soniox_model = "stt-rt-v5".to_string();
    s.font_family = "Victor Mono".to_string();

    let r = s.redacted();

    assert_eq!(r.soniox_api_key, "");
    assert_eq!(r.soniox_model, "stt-rt-v5");
    assert_eq!(r.font_family, "Victor Mono");
    // The original is untouched.
    assert_eq!(s.soniox_api_key, "super-secret");
}

#[test]
fn debug_never_prints_the_api_key() {
    let mut s = defaults();
    s.soniox_api_key = "super-secret".to_string();
    let printed = listed(&s.fields());
    assert!(!printed.contains("super-secret"));
    assert!(printed.contains("<redacted>"));

    let empty = defaults();
    assert!(listed(&empty.fields()).contains("<unset>"));
}

#[test]
fn has_soniox_api_key_reports_presence_only() {
    let mut s = defaults();
    assert!(!s.has_soniox_api_key());
    s.soniox_api_key = "k".to_string();
    assert!(s.has_soniox_api_key());
}

#[test]
fn soniox_is_not_selectable_until_its_client_is_wired_up() {
    // The key-required rule below it is therefore unreachable for now; it
    // becomes live the moment "soniox" joins VALID_ASR_PROVIDERS.
    let mut s = defaults();
    s.asr_provider = "soniox".to_string();
    s.soniox_api_key = "k".to_string();
    let err = validate(&s).expect_err("soniox not yet a valid provider");
    assert!(err.contains("Invalid asr_provider"));
}

#[test]
fn unknown_provider_is_rejected() {
    let mut s = defaults();
    s.asr_provider = "not-a-provider".to_string();
    assert!(validate(&s).is_err());
}

#[test]
fn settings_chunk_ms_to_samples_correct_values() {
    assert_eq!(engine::settings::chunk_ms_to_samples(80), 1280);
    assert_eq!(engine::settings::chunk_ms_to_samples(160), 2560);
    assert_eq!(engine::settings::chunk_ms_to_samples(560), 8960);
    assert_eq!(engine::settings::chunk_ms_to_samples(1120), 17920);
}

#[test]
fn expand_tilde_with_home() {
    let result = joined(&expand_tilde("~/some/path", Some(HOME)));
    assert!(!result.to_string_lossy().starts_with("~/"));
    assert_eq!(result, PathBuf::from("/home/user/some/path"));
}

#[test]
fn expand_tilde_absolute_path_unchanged() {
    let result = joined(&expand_tilde("/absolute/path", Some(HOME)));
    assert_eq!(result, PathBuf::from("/absolute/path"));
}

#[test]
fn expand_tilde_relative_path_unchanged() {
    let result = joined(&expand_tilde("relative/path", Some(HOME)));
    assert_eq!(result, PathBuf::from("relative/path"));
}

#[test]
fn settings_expand_tilde_with_home() {
    let result = joined(&engine::settings::expand_tilde("~/some/path", Some(HOME)));
    assert!(!result.to_string_lossy().starts_with("~/"));
    assert_eq!(result, PathBuf::from("/home/user/some/path"));
}

#[test]
fn settings_expand_tilde_absolute_path_unchanged() {
    let result = joined(&engine::settings::expand_tilde("/absolute/path", Some(HOME)));
    assert_eq!(result, PathBuf::from("/absolute/path"));
}

#[test]
fn settings_expand_tilde_relative_path_unchanged() {
    let result = joined(&engine::settings::expand_tilde("relative/path", Some(HOME)));
    assert_eq!(result, PathBuf::from("relative/path"));
}

#[test]
fn validate_rejects_empty_active_engine() {
    let mut s = engine_defaults();
    s.active_engine = "  ".to_string();
    assert!(validate_engine(&s).is_err());
    assert!(validate_engine(&s).unwrap_err().contains("active_engine"));
}

#[test]
fn migrate_lifts_v1_engine_fields_into_nemotron_blob() {
    let mut value = parsed(
        r#"{
            "model_path": "/models/nemotron",
            "chunk_ms": 160,
            "intra_threads": 4,
            "inter_threads": 2,
            "punctuation_reset": false,
            "empty_reset_threshold": 9,
            "theme_mode": "light",
            "font_size_px": 28
        }"#,
    );

    assert!(migrate_v1_to_v2(&mut value));

    assert_eq!(value["version"], SETTINGS_VERSION);
    assert_eq!(value["active_engine"], "nemotron");
    assert_eq!(value["theme_mode"], "light");
    assert_eq!(value["font_size_px"], 28);
    let nemotron = &value["engines"]["nemotron"];
    assert_eq!(nemotron["model_path"], "/models/nemotron");
    assert_eq!(nemotron["chunk_ms"], 160);
    assert_eq!(nemotron["intra_threads"], 4);
    assert_eq!(nemotron["inter_threads"], 2);
    assert_eq!(nemotron["punctuation_reset"], false);
    assert_eq!(nemotron["empty_reset_threshold"], 9);
    // Moved, not copied.
    assert!(value.get("model_path").is_none());
    assert_eq!(value.as_object().unwrap().len(), 5);
}

#[test]
fn migrate_is_idempotent_on_v2_files() {
    let text = r#"{
        "version": 2,
        "active_engine": "april",
        "engines": { "april": { "model_path": "/m.april" } }
    }"#;
    let mut value = parsed(text);

    assert!(!migrate_v1_to_v2(&mut value));

    assert_eq!(value["active_engine"], "april");
    assert_eq!(value, parsed(text));
}

#[test]
fn migrate_handles_partial_v1_files() {
    let mut value = parsed(r#"{ "chunk_ms": 1120 }"#);

    assert!(migrate_v1_to_v2(&mut value));

    let nemotron = &value["engines"]["nemotron"];
    assert_eq!(nemotron["chunk_ms"], 1120);
    // Fields absent in v1 stay absent in the blob.
    assert!(nemotron.get("model_path").is_none());
}

#[test]
fn unknown_engine_blobs_survive_roundtrip() {
    let json = r#"{
        "version": 2,
        "active_engine": "nemotron",
        "engines": {
            "nemotron": { "chunk_ms": 560 },
            "some-future-engine": { "api_key": "keep-me" }
        }
    }"#;
    let file = read_settings(json).expect("settings parse");
    assert!(!file.migrated);
    let out = serde_json::to_string(&file.value).unwrap();
    assert!(out.contains("some-future-engine"));
    assert!(out.contains("keep-me"));
}

// ---------------------------------------------------------------------------
// Beyond
// ---------------------------------------------------------------------------

#[test]
fn migrating_twice_changes_nothing_more() {
    let mut value = parsed(r#"{ "chunk_ms": 80, "theme_mode": "dark" }"#);
    assert!(migrate_v1_to_v2(&mut value));
    let once = value.clone();
    assert!(!migrate_v1_to_v2(&mut value));
    assert_eq!(value, once);
}

#[test]
fn migrating_leaves_what_is_no_object_alone() {
    for text in ["[1, 2]", "null", "3", "\"model_path\"", "true"] {
        let mut value = parsed(text);
        assert!(!migrate_v1_to_v2(&mut value));
        assert_eq!(value, parsed(text));
    }
}

#[test]
fn reading_settings_migrates_flat_files_and_refuses_what_is_no_json() {
    let file = read_settings(r#"{"chunk_ms": 160, "active_engine": "other"}"#).unwrap();
    assert!(file.migrated);
    assert_eq!(file.value["engines"]["nemotron"]["chunk_ms"], 160);
    assert_eq!(file.value["active_engine"], "nemotron");
    assert_eq!(file.value["version"], 2);

    assert!(read_settings("{").is_err());
    assert!(read_settings("").is_err());
    assert!(read_settings("{'a': 1}").is_err());
}

#[test]
fn engine_config_is_found_by_engine_id() {
    let mut s = engine_defaults();
    assert!(s.engine_config("nemotron").is_none());
    s.engines.insert("nemotron".to_string(), parsed(r#"{"chunk_ms": 160}"#));
    assert_eq!(s.engine_config("nemotron").unwrap()["chunk_ms"], 160);
    assert!(s.engine_config("april").is_none());
}

#[test]
fn every_problem_is_reported_with_its_message() {
    let shared: Vec<(fn(&mut Settings), SettingsProblem, &str)> = vec![
        (|s| s.asr_provider = "x".into(), SettingsProblem::AsrProvider, "Invalid asr_provider 'x'; must be one of [\"nemotron\"]"),
        (|s| s.chunk_ms = 999, SettingsProblem::ChunkMs, "Invalid chunk_ms 999; must be one of [80, 160, 560, 1120]"),
        (|s| s.intra_threads = 0, SettingsProblem::IntraThreads, "intra_threads must be at least 1"),
        (|s| s.inter_threads = 0, SettingsProblem::InterThreads, "inter_threads must be at least 1"),
        (|s| s.empty_reset_threshold = 0, SettingsProblem::EmptyResetThreshold, "empty_reset_threshold must be at least 1"),
        (|s| s.model_path = " \t".into(), SettingsProblem::ModelPath, "model_path cannot be empty"),
        (|s| s.theme_mode = "neon".into(), SettingsProblem::ThemeMode, "Invalid theme_mode 'neon'; must be one of [\"light\", \"dark\", \"system\"]"),
        (|s| s.vad_threshold_start = single(1.5), SettingsProblem::VadThresholdStart, "vad_threshold_start must be between 0.0 and 1.0, got 1.5"),
        (|s| s.vad_threshold_end = single(-0.25), SettingsProblem::VadThresholdEnd, "vad_threshold_end must be between 0.0 and 1.0, got -0.25"),
        (|s| s.vad_threshold_start = single(0.25), SettingsProblem::VadThresholdOrder, "vad_threshold_start (0.25) must be >= vad_threshold_end (0.3)"),
        (|s| s.agc_target_rms_dbfs = single(1.0), SettingsProblem::AgcTargetRms, "agc_target_rms_dbfs must be between -60.0 and 0.0, got 1"),
        (|s| s.agc_max_gain_db = single(60.5), SettingsProblem::AgcMaxGain, "agc_max_gain_db must be between 0.0 and 60.0, got 60.5"),
        (|s| s.agc_attack_ms = single(0.5), SettingsProblem::AgcAttack, "agc_attack_ms must be between 1.0 and 1000.0, got 0.5"),
        (|s| s.agc_release_ms = single(5000.5), SettingsProblem::AgcRelease, "agc_release_ms must be between 1.0 and 5000.0, got 5000.5"),
    ];
    for (change, problem, message) in shared {
        let mut s = defaults();
        change(&mut s);
        assert_eq!(s.validate(true), Err(problem));
        assert_eq!(validate(&s), Err(message.to_string()));
    }
}

#[test]
fn a_number_that_is_none_is_out_of_range() {
    let mut s = defaults();
    s.agc_attack_ms = single(f32::NAN);
    assert_eq!(s.validate(true), Err(SettingsProblem::AgcAttack));
    s = defaults();
    s.vad_threshold_start = single(f32::NAN);
    assert_eq!(s.validate(true), Err(SettingsProblem::VadThresholdStart));
    s = defaults();
    s.vad_threshold_end = single(-0.0);
    assert!(s.validate(true).is_ok());
}

#[test]
fn diagnostics_need_a_path_and_its_directory() {
    let mut s = defaults();
    s.diagnostics_enabled = true;
    assert!(s.needs_diagnostics_dir());
    assert!(s.validate(true).is_ok());
    assert_eq!(s.validate(false), Err(SettingsProblem::DiagnosticsDir));
    assert_eq!(
        rendered(&s.explain(SettingsProblem::DiagnosticsDir, "Cannot create it")),
        "Cannot create it"
    );
    s.diagnostics_db_path = "  ".into();
    assert!(!s.needs_diagnostics_dir());
    assert_eq!(s.validate(true), Err(SettingsProblem::DiagnosticsDbPath));

    let mut e = engine_defaults();
    e.diagnostics_enabled = true;
    assert!(e.needs_diagnostics_dir());
    assert_eq!(e.validate(false), Err(SettingsProblem::DiagnosticsDir));
    e.active_engine = " ".into();
    assert!(!e.needs_diagnostics_dir());
    assert_eq!(validate_engine(&e), Err("active_engine cannot be empty".to_string()));
}

#[test]
fn environment_wins_over_saved_settings_where_it_is_valid() {
    let env = EnvOverrides {
        chunk_ms: Some("1120".into()),
        intra_threads: Some("8".into()),
        inter_threads: Some("0".into()),
        punctuation_reset: Some("NO".into()),
        soniox_api_key: Some("key".into()),
    };
    let s = defaults().with_env_overrides(&env);
    assert_eq!(s.chunk_ms, 1120);
    assert_eq!(s.intra_threads, 8);
    assert_eq!(s.inter_threads, 1);
    assert!(!s.punctuation_reset);
    assert_eq!(s.soniox_api_key, "key");

    let env = EnvOverrides {
        chunk_ms: Some("999".into()),
        intra_threads: Some("many".into()),
        inter_threads: None,
        punctuation_reset: Some("maybe".into()),
        soniox_api_key: Some("  ".into()),
    };
    let s = defaults().with_env_overrides(&env);
    assert_eq!(s.chunk_ms, 560);
    assert_eq!(s.intra_threads, 2);
    assert!(s.punctuation_reset);
    assert_eq!(s.soniox_api_key, "");
}

#[test]
fn home_directory_comes_from_the_first_variable_that_says_something() {
    let vars = HomeVars {
        home: Some("".into()),
        user_profile: None,
        home_drive: Some("C:".into()),
        home_path: Some("\\Users\\me".into()),
    };
    assert_eq!(paths::home_dir(&vars), Some("C:\\Users\\me".to_string()));
    let vars = HomeVars { user_profile: Some("/profile".into()), ..vars };
    assert_eq!(paths::home_dir(&vars), Some("/profile".to_string()));
    let vars = HomeVars { home: Some("/home/me".into()), ..vars };
    assert_eq!(paths::home_dir(&vars), Some("/home/me".to_string()));
    let vars = HomeVars { home: None, user_profile: None, home_drive: None, ..vars };
    assert_eq!(paths::home_dir(&vars), None);
}

#[test]
fn files_live_in_the_config_directory() {
    assert_eq!(
        joined(&paths::settings_path(Some(HOME))),
        PathBuf::from("/home/user/.config/larmindon/settings.json")
    );
    assert_eq!(
        joined(&Settings::default_diag_db_path(None)),
        PathBuf::from(".config/larmindon/larmindon_diag.sqlite")
    );
    assert_eq!(
        joined(&engine::settings::Settings::config_dir(Some(HOME))),
        PathBuf::from("/home/user/.config/larmindon")
    );
    assert_eq!(joined(&expand_tilde("~/a", None)), PathBuf::from("~/a"));
}
