//! Pluggable engines: ids, config, results, registry, diagnostics.

use larmindon::asr::SegmentIds;
use larmindon::bits::Double;
use larmindon::decoder::{ChunkResult, ChunkSource, DecoderAction, Step};
use larmindon::diag::{self, SqlValue, Statement};
use larmindon::engine::april::{
    keeps_waiting, mapped_result, ort_dylib_candidates, AprilConfig, AprilEngine, AprilFactory,
    AprilResult, ModelInfo, ResultKind, Worker, WorkerAction, WorkerCmd, WorkerEvent,
};
use larmindon::engine::audio_engine::{
    engine_unavailable, AudioEngine, EngineAction, EngineChoice, EngineEvent, EngineLoop,
    EnginePhase, EngineReport, JoinOutcome,
};
use larmindon::engine::diagnostics::{self, DiagSink};
use larmindon::engine::nemotron::{
    self, NemotronConfig, NemotronEngine, NemotronFactory, SessionStart,
};
use larmindon::engine::registry::{
    EngineDescriptor, EngineFactory, EngineKind, EngineRegistry, FieldType,
};
use larmindon::engine::tracker::SegmentTracker;
use larmindon::engine::{EngineError, SegmentUpdate};
use larmindon::vad::VadDecision;

fn update(segment_id: u64, is_final: bool) -> SegmentUpdate {
    SegmentUpdate { segment_id, text: String::new(), is_final }
}

fn engine() -> AprilEngine {
    AprilEngine::new(AprilConfig { model_path: "/m.april".to_string() })
}

fn batch(results: Vec<(bool, &str)>) -> Vec<AprilResult> {
    results
        .into_iter()
        .map(|(is_final, text)| AprilResult { is_final, text: text.to_string() })
        .collect()
}

#[test]
fn transient_updates_keep_their_global_id_until_final() {
    let mut counter = SegmentIds(100);
    let mut tracker = SegmentTracker::new();

    assert_eq!(tracker.remap(update(0, false), &mut counter).segment_id, 100);
    assert_eq!(tracker.remap(update(0, false), &mut counter).segment_id, 100);
    assert_eq!(tracker.remap(update(0, true), &mut counter).segment_id, 100);
    // Engine reusing local id 0 after finalizing gets a fresh global id.
    assert_eq!(tracker.remap(update(0, false), &mut counter).segment_id, 101);
}

#[test]
fn already_final_segments_allocate_without_retaining() {
    let mut counter = SegmentIds(0);
    let mut tracker = SegmentTracker::new();

    assert_eq!(tracker.remap(update(0, true), &mut counter).segment_id, 0);
    assert_eq!(tracker.remap(update(1, true), &mut counter).segment_id, 1);
    assert!(tracker.is_empty());
}

#[test]
fn counter_survives_across_trackers() {
    let mut counter = SegmentIds(0);
    let mut first = SegmentTracker::new();
    first.remap(update(0, true), &mut counter);

    let mut second = SegmentTracker::new();
    assert_eq!(second.remap(update(0, true), &mut counter).segment_id, 1);
}

#[test]
fn partials_update_one_segment_until_final() {
    let mut e = engine();

    let updates = e.apply_results(batch(vec![(false, "HE"), (false, "HELLO")])).updates;
    assert_eq!(updates.len(), 1, "partials coalesce to the latest");
    assert_eq!(updates[0].text, "HELLO");
    assert!(!updates[0].is_final);
    let open_id = updates[0].segment_id;

    let updates = e.apply_results(batch(vec![(false, "HELLO WO")])).updates;
    assert_eq!(updates[0].segment_id, open_id, "same segment while open");

    let updates = e.apply_results(batch(vec![(true, "HELLO WORLD")])).updates;
    assert_eq!(updates[0].segment_id, open_id);
    assert!(updates[0].is_final);

    let updates = e.apply_results(batch(vec![(false, "NEXT")])).updates;
    assert_ne!(updates[0].segment_id, open_id, "final closed the segment");
}

#[test]
fn final_supersedes_partials_in_same_tick() {
    let mut e = engine();
    let updates = e.apply_results(batch(vec![
        (false, "HELLO WOR"),
        (true, "HELLO WORLD"),
        (false, "NE"),
    ])).updates;
    assert_eq!(updates.len(), 2);
    assert!(updates[0].is_final);
    assert_eq!(updates[0].text, "HELLO WORLD");
    assert!(!updates[1].is_final);
    assert_eq!(updates[1].text, "NE");
    assert_ne!(updates[0].segment_id, updates[1].segment_id);
}

#[test]
fn empty_final_closes_segment_without_update() {
    let mut e = engine();
    e.apply_results(batch(vec![(false, "X")]));
    let updates = e.apply_results(batch(vec![(true, "")])).updates;
    assert!(updates.is_empty());
    assert!(e.current_segment.is_none());
}

#[test]
fn force_finalize_emits_last_partial() {
    let mut e = engine();
    e.apply_results(batch(vec![(false, "DANGLING")]));
    let update = e.force_finalize().expect("dangling partial finalized");
    assert!(update.is_final);
    assert_eq!(update.text, "DANGLING");
    assert!(e.force_finalize().is_none());
}

#[test]
fn default_config_is_valid() {
    let factory = NemotronFactory;
    assert!(factory.validate_config(Ok(NemotronConfig::default())).is_ok());
    let config = factory.default_config();
    assert_eq!(config["model_path"], "~/projects/prs-nemotron/");
    assert_eq!(config["chunk_ms"], 560);
    assert_eq!(config["intra_threads"], 2);
    assert_eq!(config["inter_threads"], 1);
    assert_eq!(config["punctuation_reset"], true);
    assert_eq!(config["empty_reset_threshold"], 6);
    assert_eq!(config.as_object().unwrap().len(), 6);
}

#[test]
fn cache_key_ignores_hot_reloadable_fields() {
    let factory = NemotronFactory;
    let key = |c: NemotronConfig| {
        let i = factory.cache_identity(Ok(c), Some("/home/user"));
        (i.model_path.base, i.model_path.rest, i.intra_threads, i.inter_threads)
    };
    let a = NemotronConfig::default();
    let mut b = a.clone();
    b.chunk_ms = 160;
    b.punctuation_reset = false;
    b.empty_reset_threshold = 12;
    assert_eq!(key(a.clone()), key(b));

    let mut c = a.clone();
    c.intra_threads = 4;
    assert_ne!(key(a), key(c));
}

// ---------------------------------------------------------------------------
// Beyond
// ---------------------------------------------------------------------------

fn results(step: &Step<i32>) -> Vec<String> {
    step.actions
        .iter()
        .filter_map(|a| match a {
            DecoderAction::Emit(u) => Some(u.text.clone()),
            _ => None,
        })
        .collect()
}

fn heard(text: &str) -> ChunkResult {
    ChunkResult { text: Ok(text.to_string()), inference_ms: 5, uptime_ms: 0 }
}

fn nemotron_engine() -> NemotronEngine<i32> {
    let config = NemotronConfig { chunk_ms: 80, empty_reset_threshold: 2, ..Default::default() };
    let mut e: NemotronEngine<i32> =
        NemotronFactory.create(Ok(config.clone())).expect("valid config");
    assert_eq!(e.begin_session(Ok(config)).unwrap(), SessionStart::LoadModel);
    e.model_ready();
    e
}

/// Runs a step to its end, answering each chunk with the next text.
fn run(e: &mut NemotronEngine<i32>, first: Step<i32>, answers: &[&str]) -> (Vec<Vec<i32>>, Vec<String>, usize) {
    let mut chunks = Vec::new();
    let mut texts = results(&first);
    let mut resets = count_resets(&first);
    let mut step = first;
    while let Some(chunk) = step.request {
        let answer = answers.get(chunks.len()).copied().unwrap_or("");
        chunks.push(chunk);
        step = e.resume(heard(answer));
        texts.extend(results(&step));
        resets += count_resets(&step);
    }
    (chunks, texts, resets)
}

fn count_resets(step: &Step<i32>) -> usize {
    step.actions.iter().filter(|a| matches!(a, DecoderAction::ResetModel)).count()
}

#[test]
fn nemotron_runs_whole_chunks_and_keeps_the_rest() {
    let mut e = nemotron_engine();
    assert_eq!(e.chunk_size(), 1280);
    let step = e.feed(&vec![1; 1000]);
    assert!(step.request.is_none());
    let step = e.feed(&vec![2; 2000]);
    let (chunks, texts, resets) = run(&mut e, step, &["one", ""]);
    assert_eq!(chunks.len(), 2);
    assert_eq!(chunks[0][999], 1);
    assert_eq!(chunks[0][1000], 2);
    assert_eq!(texts, vec!["one"]);
    assert_eq!(resets, 0);
    assert_eq!(e.buffered(), 440);
}

#[test]
fn nemotron_closes_a_segment_by_padding_draining_and_resetting() {
    let mut e = nemotron_engine();
    e.on_speech_start();
    assert!(e.feed(&[7; 100]).request.is_none());
    let step = e.on_speech_end(0);
    let (chunks, texts, resets) = run(&mut e, step, &["tail"]);
    assert_eq!(chunks.len(), 1);
    assert_eq!(chunks[0].len(), 1280);
    assert_eq!(chunks[0][99], 7);
    assert_eq!(chunks[0][100], 0);
    assert_eq!(texts, vec!["tail"]);
    assert_eq!(resets, 1);
    assert_eq!(e.buffered(), 0);
    // With nothing buffered only the reset is left.
    let step = e.on_speech_end(0);
    assert!(step.request.is_none());
    assert_eq!(count_resets(&step), 1);
}

#[test]
fn nemotron_replays_when_it_is_stuck_in_speech_only() {
    let mut e = nemotron_engine();
    e.on_speech_start();
    let step = e.feed(&vec![3; 2560]);
    // Two empty results make it stuck; both chunks are run again.
    let (chunks, texts, resets) = run(&mut e, step, &["", "", "again", ""]);
    assert_eq!(chunks.len(), 4);
    assert_eq!(texts, vec!["again"]);
    assert_eq!(resets, 1);

    let mut e = nemotron_engine();
    let step = e.feed(&vec![3; 2560]);
    let (chunks, _, resets) = run(&mut e, step, &["", ""]);
    assert_eq!(chunks.len(), 2);
    assert_eq!(resets, 0);
}

#[test]
fn nemotron_resets_after_a_sentence_unless_told_otherwise() {
    let mut e = nemotron_engine();
    let step = e.feed(&vec![0; 1280]);
    assert_eq!(run(&mut e, step, &["Done."]).2, 1);
    let config = NemotronConfig { punctuation_reset: false, ..Default::default() };
    assert!(e.update_config(Ok(config)).is_ok());
    let step = e.feed(&vec![0; 1280]);
    assert_eq!(run(&mut e, step, &["Done."]).2, 0);
    assert_eq!(
        e.update_config(Err("no".into())),
        Err("Invalid nemotron config: no".to_string())
    );
}

#[test]
fn nemotron_gives_a_chunk_up_without_a_model() {
    let config = NemotronConfig { chunk_ms: 80, ..Default::default() };
    let mut e: NemotronEngine<i32> = NemotronFactory.create(Ok(config)).unwrap();
    let step = e.feed(&vec![1; 2000]);
    assert!(step.request.is_none());
    assert_eq!(e.buffered(), 720);
}

#[test]
fn nemotron_keeps_ids_and_model_across_sessions() {
    let mut e = nemotron_engine();
    let step = e.feed(&vec![0; 1280]);
    assert!(step.request.is_some());
    let step = e.resume(heard("a"));
    let first = match &step.actions[1] {
        DecoderAction::Emit(u) => nemotron::segment(u.clone()),
        _ => panic!("text is emitted behind its log entry"),
    };
    assert_eq!((first.segment_id, first.is_final), (0, true));
    e.feed(&[1; 10]);
    assert!(e.end_session().is_empty());
    assert_eq!(e.buffered(), 0);
    assert_eq!(e.begin_session(Ok(NemotronConfig::default())).unwrap(), SessionStart::ResetModel);
    assert_eq!(e.chunk_ms(), 560);
    let step = e.feed(&vec![0; 8960]);
    assert!(step.request.is_some());
    match &e.resume(heard("b")).actions[1] {
        DecoderAction::Emit(u) => assert_eq!(u.segment_id, 1),
        _ => panic!("text is emitted behind its log entry"),
    }
}

#[test]
fn nemotron_config_errors_come_in_order() {
    let bad = |c: NemotronConfig| NemotronFactory.validate_config(Ok(c)).unwrap_err();
    let d = NemotronConfig::default;
    assert_eq!(
        bad(NemotronConfig { chunk_ms: 7, intra_threads: 0, ..d() }),
        "Invalid chunk_ms 7; must be one of [80, 160, 560, 1120]"
    );
    assert_eq!(
        bad(NemotronConfig { intra_threads: 0, inter_threads: 0, ..d() }),
        "intra_threads must be at least 1"
    );
    assert_eq!(
        bad(NemotronConfig { inter_threads: 0, ..d() }),
        "inter_threads must be at least 1"
    );
    assert_eq!(
        bad(NemotronConfig { empty_reset_threshold: 0, ..d() }),
        "empty_reset_threshold must be at least 1"
    );
    assert_eq!(
        bad(NemotronConfig { model_path: " ".into(), ..d() }),
        "model_path cannot be empty"
    );
    match NemotronFactory.create::<i32>(Err("what".into())) {
        Err(EngineError::Fatal(m)) => assert_eq!(m, "Invalid nemotron config: what"),
        _ => panic!("an unreadable config is fatal"),
    }
}

#[test]
fn april_config_needs_a_model() {
    assert!(AprilFactory.validate_config(Ok(AprilConfig { model_path: "/m".into() })).is_ok());
    assert_eq!(
        AprilFactory.validate_config(Ok(AprilConfig::default())),
        Err("model_path cannot be empty".to_string())
    );
    assert_eq!(
        AprilFactory.validate_config(Err("x".into())),
        Err("Invalid april config: x".to_string())
    );
    assert_eq!(AprilFactory.default_config()["model_path"], "");
    let i = AprilFactory.cache_identity(Ok(AprilConfig { model_path: "~/m".into() }), Some("/h"));
    assert_eq!((i.base.as_str(), i.rest), ("/h", vec!["m".to_string()]));
}

#[test]
fn april_logs_finals_and_ends_with_what_is_open() {
    let mut e = engine();
    let r = e.apply_results(batch(vec![(true, "A"), (true, ""), (false, "B")]));
    assert_eq!(r.updates.len(), 2);
    assert_eq!(r.logged.len(), 2);
    assert_eq!((r.logged[1].chunk_num, r.logged[1].is_empty), (2, true));
    let r = e.end_session(batch(vec![(false, "BC")]));
    let shown: Vec<_> = r.updates.iter().map(|u| (u.text.as_str(), u.is_final)).collect();
    assert_eq!(shown, vec![("BC", false), ("BC", true)]);
    assert_eq!(r.updates[0].segment_id, r.updates[1].segment_id);
    assert!(e.end_session(Vec::new()).updates.is_empty());
}

#[test]
fn april_joins_tokens_and_ignores_what_is_no_text() {
    let r = mapped_result(ResultKind::Partial, &["HEL", "LO"]).unwrap();
    assert_eq!((r.is_final, r.text.as_str()), (false, "HELLO"));
    assert!(mapped_result(ResultKind::Final, &[]).unwrap().is_final);
    assert!(mapped_result(ResultKind::Other, &["X"]).is_none());
    assert!(keeps_waiting(0, None) && keeps_waiting(299, Some(false)));
    assert!(!keeps_waiting(300, None) && !keeps_waiting(0, Some(true)));
}

#[test]
fn april_session_errors_are_fatal() {
    let mut e = engine();
    let opening = e
        .begin_session(Ok(AprilConfig { model_path: "~/m.april".into() }), Some("/h"))
        .unwrap();
    assert!(opening.spawn_worker);
    assert_eq!(opening.model_path.base, "/h");
    match e.sent(true) {
        Err(EngineError::Fatal(m)) => assert_eq!(m, "april worker not running"),
        _ => panic!("without a worker nothing is sent"),
    }
    match e.worker_spawned(Err("no threads".into())) {
        Err(EngineError::Fatal(m)) => assert_eq!(m, "spawn april worker: no threads"),
        _ => panic!("a worker that did not start is fatal"),
    }
    assert!(e.worker_spawned(Ok(())).is_ok());
    assert!(e.sent(true).is_ok());
    match e.sent(false) {
        Err(EngineError::Fatal(m)) => assert_eq!(m, "april worker thread died"),
        _ => panic!("a dead worker takes nothing"),
    }
    assert!(e.opened(Some(Ok(()))).is_ok());
    match (e.opened(None), e.opened(Some(Err("bad model".into())))) {
        (Err(EngineError::Fatal(a)), Err(EngineError::Fatal(b))) => {
            assert_eq!(a, "april worker thread died");
            assert_eq!(b, "bad model");
        }
        _ => panic!("both are fatal"),
    }
    e.update_config(Err("x".into()));
    assert_eq!(e.config.model_path, "~/m.april");
    e.update_config(Ok(AprilConfig { model_path: "/other".into() }));
    assert_eq!(e.config.model_path, "/other");
    assert_eq!(e.engine_id(), "april");
}

fn said(actions: &[WorkerAction]) -> Vec<String> {
    actions
        .iter()
        .map(|a| match a {
            WorkerAction::Receive => "receive".to_string(),
            WorkerAction::LoadModel(p) => format!("load {p}"),
            WorkerAction::MakeSession => "make".to_string(),
            WorkerAction::Reply(Ok(())) => "ok".to_string(),
            WorkerAction::Reply(Err(e)) => format!("err {e}"),
            WorkerAction::FeedPcm(b) => format!("feed {}", b.len()),
            WorkerAction::FlushSession => "flush".to_string(),
            WorkerAction::DropSession => "drop session".to_string(),
            WorkerAction::DropModel => "drop model".to_string(),
            WorkerAction::Exit => "exit".to_string(),
        })
        .collect()
}

#[test]
fn worker_loads_once_and_reloads_for_another_model() {
    let mut w = Worker::new();
    let mut tell = |e: WorkerEvent| said(&w.step(e));
    let open = |p: &str| WorkerEvent::Command(WorkerCmd::Open(p.to_string()));
    let info = |rate: usize| {
        WorkerEvent::Loaded(Ok(ModelInfo { name: "m".into(), sample_rate: rate }))
    };
    assert_eq!(tell(WorkerEvent::Command(WorkerCmd::Flush)), ["receive"]);
    assert_eq!(tell(open("/a")), ["load /a"]);
    assert_eq!(
        tell(WorkerEvent::Loaded(Err("gone".into()))),
        ["err Failed to load april model: gone", "receive"]
    );
    assert_eq!(tell(open("/a")), ["load /a"]);
    assert_eq!(
        tell(info(8000)),
        [
            "err April model 'm' wants 8000 Hz; the pipeline is fixed at 16000 Hz",
            "drop model",
            "receive"
        ]
    );
    assert_eq!(tell(open("/a")), ["load /a"]);
    assert_eq!(tell(info(16000)), ["make"]);
    assert_eq!(tell(WorkerEvent::SessionMade(Ok(()))), ["ok", "receive"]);
    assert_eq!(tell(WorkerEvent::Command(WorkerCmd::Feed(vec![1, 2]))), ["feed 2", "receive"]);
    assert_eq!(tell(WorkerEvent::Command(WorkerCmd::Flush)), ["flush", "receive"]);
    assert_eq!(
        tell(WorkerEvent::Command(WorkerCmd::CloseSession)),
        ["drop session", "receive"]
    );
    assert_eq!(tell(WorkerEvent::Command(WorkerCmd::Feed(vec![1]))), ["receive"]);
    assert_eq!(tell(open("/a")), ["drop session", "make"]);
    assert_eq!(
        tell(WorkerEvent::SessionMade(Err("busy".into()))),
        ["err Failed to create april session: busy", "receive"]
    );
    assert_eq!(tell(open("/b")), ["drop session", "drop model", "load /b"]);
    assert_eq!(tell(info(16000)), ["make"]);
    assert_eq!(
        tell(WorkerEvent::SessionMade(Err("busy".into()))),
        ["err Failed to create april session: busy", "drop model", "receive"]
    );
    assert_eq!(tell(WorkerEvent::Command(WorkerCmd::Shutdown)), ["exit"]);
    assert!(tell(open("/a")).is_empty());
}

#[test]
fn runtime_is_looked_for_in_order() {
    assert!(ort_dylib_candidates(true, None, true).is_empty());
    let linux = ort_dylib_candidates(false, Some("/h"), false);
    assert_eq!(linux.len(), 4);
    assert_eq!(linux[0].base, "/opt/homebrew/lib/libonnxruntime.dylib");
    assert_eq!(linux[3].base, "/usr/local/lib/libonnxruntime.so");
    let mac = ort_dylib_candidates(false, Some("/h"), true);
    assert_eq!(mac.len(), 5);
    assert_eq!(mac[0].base, "/h");
    assert_eq!(mac[0].rest, [".config", "larmindon", "runtime", "libonnxruntime.dylib"]);
}

enum Known {
    Nemotron,
    April,
}

impl EngineFactory for Known {
    fn descriptor(&self) -> EngineDescriptor {
        match self {
            Known::Nemotron => NemotronFactory.descriptor(),
            Known::April => AprilFactory.descriptor(),
        }
    }

    fn default_config(&self) -> serde_json::Value {
        match self {
            Known::Nemotron => NemotronFactory.default_config(),
            Known::April => AprilFactory.default_config(),
        }
    }
}

#[test]
fn registry_finds_engines_by_id() {
    let mut r: EngineRegistry<Known> = EngineRegistry::new();
    assert!(r.get("nemotron").is_none());
    assert!(r.default_engine_id().is_none());
    r.register(Known::April);
    r.register(Known::Nemotron);
    assert!(matches!(r.get("nemotron"), Some(Known::Nemotron)));
    assert!(matches!(r.get("april"), Some(Known::April)));
    assert!(r.get("other").is_none());
    assert_eq!(r.default_engine_id(), Some("april"));
    let ids: Vec<_> = r.descriptors().iter().map(|d| d.id).collect();
    assert_eq!(ids, ["april", "nemotron"]);
}

/// A factory whose engine goes by another name once it has been asked a few times.
struct Renamed {
    asked: std::cell::Cell<u32>,
}

impl EngineFactory for Renamed {
    fn descriptor(&self) -> EngineDescriptor {
        self.asked.set(self.asked.get() + 1);
        if self.asked.get() > 2 {
            AprilFactory.descriptor()
        } else {
            NemotronFactory.descriptor()
        }
    }

    fn default_config(&self) -> serde_json::Value {
        serde_json::Value::Null
    }
}

#[test]
fn registry_asks_its_factories_every_time() {
    let mut r: EngineRegistry<Renamed> = EngineRegistry::new();
    r.register(Renamed { asked: std::cell::Cell::new(0) });
    assert!(r.get("nemotron").is_some());
    assert_eq!(r.default_engine_id(), Some("nemotron"));
    assert!(r.get("nemotron").is_none());
    assert!(r.get("april").is_some());
    assert_eq!(r.default_engine_id(), Some("april"));
    assert_eq!(r.descriptors()[0].id, "april");
}

#[test]
fn trackers_on_one_counter_share_no_ids() {
    let mut counter = SegmentIds(0);
    let mut first = SegmentTracker::new();
    let mut second = SegmentTracker::new();
    let a = first.remap(update(7, false), &mut counter).segment_id;
    let b = second.remap(update(7, false), &mut counter).segment_id;
    assert_eq!((a, b), (0, 1));
    assert_eq!(first.remap(update(7, true), &mut counter).segment_id, a);
    assert_eq!(second.remap(update(7, false), &mut counter).segment_id, b);
    assert_eq!(first.remap(update(7, false), &mut counter).segment_id, 2);
}

#[test]
fn descriptors_list_their_fields() {
    let d = NemotronFactory.descriptor();
    assert_eq!((d.id, d.name), ("nemotron", "Nemotron (parakeet-rs)"));
    assert_eq!(d.kind, EngineKind::Local);
    assert!(!d.emits_partials);
    let keys: Vec<_> = d.config_fields.iter().map(|f| f.key).collect();
    assert_eq!(
        keys,
        [
            "model_path",
            "chunk_ms",
            "intra_threads",
            "inter_threads",
            "punctuation_reset",
            "empty_reset_threshold"
        ]
    );
    assert_eq!(d.config_fields[1].default, 560);
    assert_eq!(d.config_fields[1].env_var, Some("CHUNK_MS"));
    match &d.config_fields[1].field {
        FieldType::Enum { options } => {
            let shown: Vec<_> =
                options.iter().map(|o| (o.value.as_u64(), o.label.as_str())).collect();
            assert_eq!(
                shown,
                [
                    (Some(80), "80 ms"),
                    (Some(160), "160 ms"),
                    (Some(560), "560 ms"),
                    (Some(1120), "1120 ms")
                ]
            );
        }
        _ => panic!("the chunk size is a choice"),
    }
    assert_eq!(d.config_fields[4].default, true);
    assert!(AprilFactory.descriptor().emits_partials);
}

#[test]
fn missing_engines_are_named_with_what_is_there() {
    assert_eq!(
        engine_unavailable("x", &["nemotron", "april"]),
        "Speech engine 'x' is not available in this build (available: nemotron, april)"
    );
    assert_eq!(
        engine_unavailable("x", &[]),
        "Speech engine 'x' is not available in this build (available: )"
    );
    assert_eq!(EngineError::Fatal("a".into()).to_text(), "fatal engine error: a");
    assert_eq!(EngineError::Transient("b".into()).to_text(), "transient engine error: b");
}

#[test]
fn kept_engines_are_reused_under_the_same_identity_only() {
    let mut a = AudioEngine::new();
    assert_eq!(a.take_engine("nemotron", 1), EngineChoice::Create);
    assert!(!a.take_vad());
    a.session_started("nemotron".into(), 1);
    assert!(a.can_reconnect());
    a.session_joined(JoinOutcome::Models);
    assert!(!a.can_reconnect());
    assert_eq!(a.take_engine("nemotron", 1), EngineChoice::Reuse);
    assert!(a.take_vad());
    a.session_started("nemotron".into(), 1);
    a.session_joined(JoinOutcome::Models);
    assert_eq!(a.take_engine("nemotron", 2), EngineChoice::Create);
    assert!(!a.take_vad(), "the voice-activity model goes with the engine");
    a.session_started("nemotron".into(), 2);
    a.session_joined(JoinOutcome::NoModels);
    assert_eq!(a.take_engine("nemotron", 2), EngineChoice::Create);
    a.session_cleared();
}

fn names(actions: &[EngineAction<i32>]) -> Vec<String> {
    actions
        .iter()
        .map(|a| match a {
            EngineAction::CheckStop => "stop?".to_string(),
            EngineAction::CheckSettings => "settings?".to_string(),
            EngineAction::Drain => "drain".to_string(),
            EngineAction::Sleep => "sleep".to_string(),
            EngineAction::Condition(s) => format!("condition {}", s.len()),
            EngineAction::Judge(s) => format!("judge {}", s[0]),
            EngineAction::LogSpeechStart { pre_samples } => format!("log start {pre_samples}"),
            EngineAction::SpeechStart => "start".to_string(),
            EngineAction::Feed(s) => format!("feed {}", s.len()),
            EngineAction::SpeechEnd => "end".to_string(),
            EngineAction::ReadClock => "clock".to_string(),
            EngineAction::LogSpeechEnd { speech_duration_ms } => {
                format!("log end {speech_duration_ms}")
            }
            EngineAction::Poll => "poll".to_string(),
            EngineAction::LogFeed { drain_samples } => format!("log feed {drain_samples}"),
            EngineAction::EndSession => "end session".to_string(),
            EngineAction::LogShutdown => "log shutdown".to_string(),
            EngineAction::Return => "return".to_string(),
            EngineAction::Fail(m) => format!("fail {m}"),
        })
        .collect()
}

fn framed(first: i32, count: usize) -> Vec<i32> {
    (0..count).flat_map(|i| vec![first + i as i32; 512]).collect()
}

#[test]
fn engine_loop_feeds_speech_and_times_it() {
    let mut l: EngineLoop<i32> = EngineLoop::new(16000);
    let mut tell = |e: EngineEvent<i32>| names(&l.step(e));
    let judged = |decision: VadDecision<i32>, uptime_ms: i64| EngineEvent::Judged {
        decision: Some(decision),
        uptime_ms,
    };
    assert_eq!(tell(EngineEvent::Began(Ok(()))), ["stop?"]);
    assert_eq!(tell(EngineEvent::Stop(false)), ["settings?"]);
    assert_eq!(tell(EngineEvent::SettingsApplied), ["drain"]);
    let mut samples = framed(1, 4);
    samples.extend([9, 9]);
    assert_eq!(
        tell(EngineEvent::Drained { samples: samples.clone(), resample_chunk: 0 }),
        ["condition 2050"]
    );
    assert_eq!(tell(EngineEvent::Conditioned(samples)), ["judge 1"]);
    assert_eq!(tell(judged(VadDecision::Silence, 10)), ["judge 2"]);
    assert_eq!(
        tell(judged(VadDecision::SpeechStarted { pre_speech_samples: vec![1; 512] }, 20)),
        ["log start 512", "start", "feed 512", "feed 512", "judge 3"]
    );
    assert_eq!(tell(judged(VadDecision::SpeechContinues, 30)), ["feed 512", "judge 4"]);
    assert_eq!(tell(judged(VadDecision::SpeechEnded, 40)), ["feed 512", "end", "clock"]);
    assert_eq!(tell(EngineEvent::Clock { uptime_ms: 45 }), ["log end 25", "poll"]);
    assert_eq!(tell(EngineEvent::Polled), ["log feed 2050", "stop?"]);
    assert_eq!(tell(EngineEvent::Stop(true)), ["end session"]);
    assert_eq!(tell(EngineEvent::Ended), ["log shutdown", "return"]);
    assert!(tell(EngineEvent::Polled).is_empty());
    assert_eq!(l.phase(), EnginePhase::Done);
    assert_eq!(l.speech_start(), None);
}

#[test]
fn engine_loop_polls_while_nothing_is_captured() {
    let mut l: EngineLoop<i32> = EngineLoop::new(48000);
    let mut tell = |e: EngineEvent<i32>| names(&l.step(e));
    tell(EngineEvent::Began(Ok(())));
    tell(EngineEvent::Stop(false));
    tell(EngineEvent::SettingsApplied);
    assert_eq!(
        tell(EngineEvent::Drained { samples: Vec::new(), resample_chunk: 1024 }),
        ["poll"]
    );
    assert_eq!(tell(EngineEvent::Polled), ["sleep"]);
    assert_eq!(tell(EngineEvent::Slept), ["stop?"]);
    tell(EngineEvent::Stop(false));
    tell(EngineEvent::SettingsApplied);
    // Whole resampler chunks only; the rest waits.
    assert_eq!(
        tell(EngineEvent::Drained { samples: vec![1; 1500], resample_chunk: 1024 }),
        ["condition 1024"]
    );
    assert_eq!(tell(EngineEvent::Conditioned(vec![1; 341])), ["poll"]);
    assert_eq!(tell(EngineEvent::Polled), ["log feed 1500", "stop?"]);
}

#[test]
fn engine_loop_fails_to_start_with_the_reason() {
    let mut l: EngineLoop<i32> = EngineLoop::new(16000);
    assert_eq!(
        names(&l.step(EngineEvent::Began(Err(EngineError::Fatal("no model".into()))))),
        ["fail Error: fatal engine error: no model"]
    );
}

#[test]
fn engine_results_get_global_ids_and_errors_do_not_end_the_session() {
    let mut l: EngineLoop<i32> = EngineLoop::new(16000);
    let mut ids = SegmentIds(5);
    match l.engine_result(Ok(vec![update(0, false), update(1, true), update(0, true)]), &mut ids) {
        EngineReport::Segments(s) => {
            let ids: Vec<_> = s.iter().map(|u| u.segment_id).collect();
            assert_eq!(ids, [5, 6, 5]);
        }
        EngineReport::EngineError(_) => panic!("no error"),
    }
    match l.engine_result(Err(EngineError::Fatal("x".into())), &mut ids) {
        EngineReport::EngineError(m) => assert_eq!(m, "fatal engine error: x"),
        EngineReport::Segments(_) => panic!("an error"),
    }
    assert_eq!(ids.next(), 7);
}

fn bound(s: &Statement) -> Vec<String> {
    s.values
        .iter()
        .map(|v| match v {
            SqlValue::Integer(n) => format!("{n}"),
            SqlValue::Real(d) => format!("r{}", f64::from_bits(d.bits)),
            SqlValue::WholeReal(n) => format!("w{n}"),
            SqlValue::Text(t) => t.clone(),
        })
        .collect()
}

#[test]
fn engine_diagnostics_are_gated_and_bound_in_order() {
    let off = DiagSink::disabled();
    assert!(off.log_shutdown(true, 1).is_none());
    assert_eq!(off.uptime_ms(9), 0);
    let sink = DiagSink::opened(3);
    assert!(sink.log_shutdown(false, 1).is_none());
    assert_eq!(sink.uptime_ms(9), 9);
    assert_eq!(bound(&sink.log_shutdown(true, 1).unwrap()), ["3", "1"]);
    assert_eq!(bound(&sink.set_session_chunk_size(true, 8960).unwrap()), ["8960", "3"]);
    assert_eq!(bound(&sink.log_speech_start(true, 2, 512).unwrap()), ["3", "2", "512"]);
    assert_eq!(bound(&sink.log_speech_end(true, 2, 640).unwrap()), ["3", "2", "w640"]);
    let audio = Double { bits: 10.5f64.to_bits() };
    assert_eq!(
        bound(&sink.log_feed(true, 2, 480, audio, 1, 2, 4).unwrap()),
        ["3", "2", "480", "r10.5", "1", "2", "4"]
    );
    assert_eq!(bound(&sink.log_error(true, 2, "kind", "why").unwrap()), ["3", "2", "kind", "why"]);
    let s = diagnostics::session_statement("april", 48000, true);
    assert_eq!(bound(&s), ["48000", "1", "april"]);
}

#[test]
fn nemotron_rows_say_what_happened() {
    let sink = DiagSink::opened(3);
    let row = |a: DecoderAction| nemotron::row(&sink, true, 50, 80, &a).map(|s| bound(&s));
    assert_eq!(
        row(DecoderAction::LogTranscribe {
            uptime_ms: 0,
            chunk_num: 4,
            inference_ms: 12,
            buffered: 2000,
            consumed: 1280,
            is_empty: false,
            preview: "hi".into(),
            speech: true,
            source: ChunkSource::Live,
        })
        .unwrap(),
        ["3", "50", "4", "12", "2000", "0", "hi", "speech", "live"]
    );
    assert_eq!(
        row(DecoderAction::LogError {
            uptime_ms: 0,
            chunk_num: 4,
            inference_ms: 12,
            message: "bad".into(),
            speech: false,
            source: ChunkSource::Replay,
        })
        .unwrap(),
        ["3", "50", "4", "12", "bad", "silence", "replay"]
    );
    assert_eq!(
        row(DecoderAction::LogPunctuationReset {
            uptime_ms: 0,
            consecutive_empty: 1,
            chunks_since_reset: 3,
        })
        .unwrap(),
        ["3", "50", "1", "3", "240"]
    );
    assert_eq!(
        row(DecoderAction::LogMidSpeechReset {
            uptime_ms: 0,
            consecutive_empty: 6,
            chunks_since_reset: 7,
            replay_chunks: 6,
            replay_nonempty_chunks: 2,
            replay_inference_ms: 33,
        })
        .unwrap(),
        ["3", "50", "6", "7", "560", "6", "480", "2", "33"]
    );
    assert!(row(DecoderAction::ResetModel).is_none());
    assert!(nemotron::row(&DiagSink::disabled(), true, 0, 80, &DecoderAction::ResetModel).is_none());
}

#[test]
fn april_rows_are_final_results() {
    let mut e = engine();
    let r = e.apply_results(batch(vec![(true, "A")]));
    let s = larmindon::engine::april::row(&DiagSink::opened(8), true, 5, &r.logged[0]).unwrap();
    assert_eq!(bound(&s), ["8", "5", "1", "0", "A", "final"]);
    assert_eq!(diag::chunks_to_audio_ms(u64::MAX, 2), i64::MAX);
}
