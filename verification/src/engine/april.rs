//! april-asr speech engine.
//!
//! April is a streaming model with revisable hypotheses: it emits partial results
//! that each replace the current utterance text, then a final one that closes it.
//! That is one open segment at a time whose text is rewritten until finalized.
//!
//! Model and session live on a worker of their own; [`Worker`] decides what it does
//! with each command.

use serde_json::Value;
use vstd::prelude::*;

use crate::asr;
use crate::asr::SegmentIds;
use crate::decoder;
use crate::diag;
use crate::diag::SqlView;
use crate::diag::Statement;
use crate::diag::StatementView;
use crate::engine;
use crate::engine::diagnostics::DiagSink;
use crate::engine::registry;
use crate::engine::registry::ConfigField;
use crate::engine::registry::ConfigFieldView;
use crate::engine::registry::DescriptorView;
use crate::engine::registry::EngineDescriptor;
use crate::engine::registry::EngineFactory;
use crate::engine::registry::EngineKind;
use crate::engine::registry::FieldType;
use crate::engine::registry::FieldTypeView;
use crate::engine::EngineError;
use crate::engine::SegmentUpdate;
use crate::engine::SegmentView;
use crate::json;
use crate::json::JsonView;
use crate::paths;
use crate::paths::PathParts;
use crate::paths::PathView;
use crate::text;

verus! {

pub const ENGINE_ID: &'static str = "april";

pub const ASR_SAMPLE_RATE: usize = 16_000;

/// How long the end of a session waits for the closing result, in all and for each
/// one.
pub const END_WAIT_MS: u64 = 300;

pub const END_RESULT_WAIT_MS: u64 = 50;

// ---------------------------------------------------------------------------
// Config
// ---------------------------------------------------------------------------

#[derive(Debug, Clone)]
pub struct AprilConfig {
    /// Path to the `.april` model file.
    pub model_path: String,
}

/// What is wrong with a config object, given what reading its fields gave.
pub open spec fn parse_error(read: Result<AprilConfig, String>) -> Option<Seq<char>> {
    match read {
        Ok(c) => if text::is_blank_text(c.model_path@) {
            Some("model_path cannot be empty"@)
        } else {
            None
        },
        Err(e) => Some("Invalid april config: "@ + e@),
    }
}

impl AprilConfig {
    /// Judges a config object whose fields have been read.
    pub fn parse(read: Result<AprilConfig, String>) -> (r: Result<AprilConfig, String>)
        ensures
            match r {
                Ok(c) => parse_error(read) is None && read == Ok::<AprilConfig, String>(c),
                Err(e) => parse_error(read) == Some(e@),
            },
    {
        match read {
            Ok(c) => if text::is_blank(c.model_path.as_str()) {
                Err("model_path cannot be empty".to_owned())
            } else {
                Ok(c)
            },
            Err(e) => Err(text::concat("Invalid april config: ", e.as_str())),
        }
    }
}

impl Default for AprilConfig {
    /// No model is chosen.
    fn default() -> (r: Self)
        ensures
            r.model_path@.len() == 0,
    {
        AprilConfig { model_path: String::new() }
    }
}

// ---------------------------------------------------------------------------
// Factory
// ---------------------------------------------------------------------------

pub struct AprilFactory;

/// What the engine says of its config fields.
pub open spec fn field_list() -> Seq<ConfigFieldView> {
    seq![
        ConfigFieldView {
            key: "model_path"@,
            label: "Model File"@,
            field: FieldTypeView::Path { directory: false },
            default: JsonView::Text(""@),
            env_var: None,
            help: Some("Path to a .april model file (e.g. aprilv0_en-us.april)"@),
        },
    ]
}

/// What the engine says of itself.
pub open spec fn description() -> DescriptorView {
    DescriptorView {
        id: ENGINE_ID@,
        name: "April ASR"@,
        kind: EngineKind::Local,
        emits_partials: true,
        config_fields: field_list(),
    }
}

impl EngineFactory for AprilFactory {
    fn descriptor(&self) -> (r: EngineDescriptor)
        ensures
            r@ == description(),
    {
        let config_fields: Vec<ConfigField> = vec![
            ConfigField {
                key: "model_path",
                label: "Model File",
                field: FieldType::Path { directory: false },
                default: json::from_text(""),
                env_var: None,
                help: Some("Path to a .april model file (e.g. aprilv0_en-us.april)"),
            },
        ];
        assert(registry::config_fields_view(config_fields@) =~= field_list());
        EngineDescriptor {
            id: ENGINE_ID,
            name: "April ASR",
            kind: EngineKind::Local,
            emits_partials: true,
            config_fields,
        }
    }

    /// The default config, as a JSON object.
    fn default_config(&self) -> (r: Value)
        ensures
            json::json_view(r) == JsonView::Object(
                Map::empty().insert("model_path"@, JsonView::Text(Seq::empty())),
            ),
    {
        let c = AprilConfig::default();
        let mut m = json::new_map();
        assert(c.model_path@ =~= Seq::<char>::empty());
        json::insert(
            &mut m,
            "model_path".to_owned(),
            json::from_text(c.model_path.as_str()),
        );
        assert(json::map_view(m) =~= Map::empty().insert(
            "model_path"@,
            JsonView::Text(Seq::empty()),
        ));
        json::from_map(m)
    }
}

impl AprilFactory {
    /// Judges a config object whose fields have been read.
    pub fn validate_config(&self, read: Result<AprilConfig, String>) -> (r: Result<(), String>)
        ensures
            match r {
                Ok(_) => parse_error(read) is None,
                Err(e) => parse_error(read) == Some(e@),
            },
    {
        match AprilConfig::parse(read) {
            Ok(_) => Ok(()),
            Err(e) => Err(e),
        }
    }

    /// What a kept engine must agree with to be reused under this config: the model
    /// file. An invalid config counts as the default one.
    pub fn cache_identity(&self, read: Result<AprilConfig, String>, home: Option<&str>) -> (r:
        PathParts)
        ensures
            r@ == paths::expanded(
                if parse_error(read) is None {
                    read->Ok_0.model_path@
                } else {
                    Seq::empty()
                },
                match home {
                    Some(h) => Some(h@),
                    None => None,
                },
            ),
    {
        let c = match AprilConfig::parse(read) {
            Ok(c) => c,
            Err(_) => {
                let c = AprilConfig::default();
                assert(c.model_path@ =~= Seq::<char>::empty());
                c
            },
        };
        paths::expand_tilde(c.model_path.as_str(), home)
    }

    /// A fresh engine, without a worker.
    pub fn create(&self, read: Result<AprilConfig, String>) -> (r: Result<AprilEngine, EngineError>)
        ensures
            match r {
                Ok(e) => {
                    &&& parse_error(read) is None
                    &&& e.config == read->Ok_0
                    &&& e@ == fresh_engine()
                },
                Err(e) => e is Fatal && parse_error(read) == Some(e->Fatal_0@),
            },
    {
        match AprilConfig::parse(read) {
            Ok(c) => Ok(AprilEngine::new(c)),
            Err(e) => Err(EngineError::Fatal(e)),
        }
    }
}

// ---------------------------------------------------------------------------
// Results
// ---------------------------------------------------------------------------

/// What kind of result the recognizer reported.
#[derive(Clone, Copy, Debug, PartialEq, Eq, Structural)]
pub enum ResultKind {
    Partial,
    Final,
    /// Anything that is no text, such as silence.
    Other,
}

/// A hypothesis, with its tokens joined.
#[derive(Debug)]
pub struct AprilResult {
    pub is_final: bool,
    pub text: String,
}

/// What an [`AprilResult`] says.
#[verifier::ext_equal]
pub struct ResultView {
    pub is_final: bool,
    pub text: Seq<char>,
}

impl View for AprilResult {
    type V = ResultView;

    open spec fn view(&self) -> ResultView {
        ResultView { is_final: self.is_final, text: self.text@ }
    }
}

pub open spec fn results_view(v: Seq<AprilResult>) -> Seq<ResultView> {
    Seq::new(v.len(), |i: int| v[i]@)
}

/// The hypothesis that the recognizer reported, if it did report one.
pub fn mapped_result(kind: ResultKind, tokens: &[&str]) -> (r: Option<AprilResult>)
    ensures
        match kind {
            ResultKind::Other => r is None,
            _ => r is Some && r->Some_0@ == (ResultView {
                is_final: kind == ResultKind::Final,
                text: text::joined_by(""@, text::strs_view(tokens@)),
            }),
        },
{
    match kind {
        ResultKind::Partial => Some(
            AprilResult { is_final: false, text: text::join("", tokens) },
        ),
        ResultKind::Final => Some(AprilResult { is_final: true, text: text::join("", tokens) }),
        ResultKind::Other => None,
    }
}

/// A final result to log: how many there have been, and the start of its text.
#[derive(Debug)]
pub struct LoggedResult {
    pub chunk_num: u64,
    pub is_empty: bool,
    pub preview: String,
}

/// What a [`LoggedResult`] says.
#[verifier::ext_equal]
pub struct LoggedView {
    pub chunk_num: u64,
    pub is_empty: bool,
    pub preview: Seq<char>,
}

impl View for LoggedResult {
    type V = LoggedView;

    open spec fn view(&self) -> LoggedView {
        LoggedView { chunk_num: self.chunk_num, is_empty: self.is_empty, preview: self.preview@ }
    }
}

pub open spec fn logged_view(v: Seq<LoggedResult>) -> Seq<LoggedView> {
    Seq::new(v.len(), |i: int| v[i]@)
}

/// The updates to show, and the results to log, each in order.
#[derive(Debug)]
pub struct Applied {
    pub updates: Vec<SegmentUpdate>,
    pub logged: Vec<LoggedResult>,
}

/// What an [`AprilEngine`] holds of its transcript.
#[verifier::ext_equal]
pub struct AprilView {
    /// Engine-local id of the in-flight (partial) segment, if any.
    pub current: Option<u64>,
    pub last_partial: Seq<char>,
    pub next_id: u64,
    pub final_count: u64,
}

pub open spec fn fresh_engine() -> AprilView {
    AprilView { current: None, last_partial: Seq::empty(), next_id: 0, final_count: 0 }
}

/// Part-way through a batch of results.
#[verifier::ext_equal]
pub struct Applying {
    pub e: AprilView,
    /// The partial that nothing has superseded yet.
    pub pending: Option<Seq<char>>,
    pub updates: Seq<SegmentView>,
    pub logged: Seq<LoggedView>,
}

/// The id of the open segment, or else a new one.
pub open spec fn segment_id(e: AprilView) -> u64 {
    match e.current {
        Some(id) => id,
        None => e.next_id,
    }
}

/// The id that comes next once a segment has its id.
pub open spec fn next_after(e: AprilView) -> u64 {
    match e.current {
        Some(_) => e.next_id,
        None => asr::id_after(e.next_id),
    }
}

/// A partial waits for what supersedes it. A final closes the segment and supersedes
/// the partials before it; an empty one shows nothing.
pub open spec fn took(a: Applying, r: ResultView) -> Applying {
    if r.is_final {
        let count = decoder::bump(a.e.final_count);
        Applying {
            e: AprilView {
                current: None,
                last_partial: Seq::empty(),
                next_id: next_after(a.e),
                final_count: count,
            },
            pending: None,
            updates: if r.text.len() > 0 {
                a.updates.push(
                    SegmentView { segment_id: segment_id(a.e), text: r.text, is_final: true },
                )
            } else {
                a.updates
            },
            logged: a.logged.push(
                LoggedView {
                    chunk_num: count,
                    is_empty: r.text.len() == 0,
                    preview: text::preview_of(r.text, 200),
                },
            ),
        }
    } else {
        Applying { pending: Some(r.text), ..a }
    }
}

/// After any number of results.
pub open spec fn took_all(e: AprilView, results: Seq<ResultView>) -> Applying
    decreases results.len(),
{
    if results.len() == 0 {
        Applying { e, pending: None, updates: Seq::empty(), logged: Seq::empty() }
    } else {
        took(took_all(e, results.drop_last()), results.last())
    }
}

/// A whole batch: behind its finals, the newest partial rewrites the open segment.
pub open spec fn applied(e: AprilView, results: Seq<ResultView>) -> Applying {
    let a = took_all(e, results);
    match a.pending {
        Some(t) => Applying {
            e: AprilView {
                current: Some(segment_id(a.e)),
                last_partial: t,
                next_id: next_after(a.e),
                ..a.e
            },
            updates: a.updates.push(
                SegmentView { segment_id: segment_id(a.e), text: t, is_final: false },
            ),
            ..a
        },
        None => a,
    }
}

/// The closing update of a segment whose final never came.
pub open spec fn forced(e: AprilView) -> Option<SegmentView> {
    if e.current is Some && e.last_partial.len() > 0 {
        Some(
            SegmentView { segment_id: e.current->Some_0, text: e.last_partial, is_final: true },
        )
    } else {
        None
    }
}

/// What is held once a dangling segment is closed.
pub open spec fn after_forced(e: AprilView) -> AprilView {
    match e.current {
        Some(_) => AprilView { current: None, last_partial: Seq::empty(), ..e },
        None => e,
    }
}

pub open spec fn opt_segment_view(u: Option<SegmentUpdate>) -> Option<SegmentView> {
    match u {
        Some(u) => Some(u@),
        None => None,
    }
}

// ---------------------------------------------------------------------------
// Engine
// ---------------------------------------------------------------------------

/// What a session needs before audio can be fed.
#[derive(Debug)]
pub struct SessionOpening {
    /// Whether the worker must be started first.
    pub spawn_worker: bool,
    /// The model file that the worker is to open.
    pub model_path: PathParts,
}

pub struct AprilEngine {
    pub config: AprilConfig,
    /// Whether the worker is there to talk to.
    pub worker_running: bool,
    /// Engine-local id of the in-flight (partial) segment, if any.
    pub current_segment: Option<u64>,
    /// Last partial text seen for the open segment, used to force-finalize on
    /// teardown if the closing final never arrives.
    pub last_partial_text: String,
    pub ids: SegmentIds,
    pub final_count: u64,
}

impl View for AprilEngine {
    type V = AprilView;

    open spec fn view(&self) -> AprilView {
        AprilView {
            current: self.current_segment,
            last_partial: self.last_partial_text@,
            next_id: self.ids@,
            final_count: self.final_count,
        }
    }
}

impl AprilEngine {
    pub fn new(config: AprilConfig) -> (r: Self)
        ensures
            r@ == fresh_engine(),
            r.config == config,
            !r.worker_running,
    {
        let r = AprilEngine {
            config,
            worker_running: false,
            current_segment: None,
            last_partial_text: String::new(),
            ids: SegmentIds(0),
            final_count: 0,
        };
        assert(r@.last_partial =~= Seq::<char>::empty());
        r
    }

    pub fn engine_id(&self) -> (r: &'static str)
        ensures
            r@ == ENGINE_ID@,
    {
        ENGINE_ID
    }

    /// The id of the open segment, or a new one.
    fn take_id(&mut self) -> (id: u64)
        ensures
            id == segment_id(old(self)@),
            final(self)@ == (AprilView { next_id: next_after(old(self)@), ..old(self)@ }),
            final(self).config == old(self).config,
            final(self).worker_running == old(self).worker_running,
    {
        match self.current_segment {
            Some(id) => id,
            None => self.ids.next(),
        }
    }

    /// Turns queued results into segment updates. Multiple partials in one batch are
    /// coalesced down to the latest (each replaces the previous hypothesis
    /// wholesale); finals are kept in order.
    pub fn apply_results(&mut self, received: Vec<AprilResult>) -> (r: Applied)
        ensures
            ({
                let a = applied(old(self)@, results_view(received@));
                &&& final(self)@ == a.e
                &&& engine::segments_view(r.updates@) == a.updates
                &&& logged_view(r.logged@) == a.logged
            }),
            final(self).config == old(self).config,
            final(self).worker_running == old(self).worker_running,
    {
        let ghost start = self@;
        let ghost all = results_view(received@);
        let mut updates: Vec<SegmentUpdate> = Vec::new();
        let mut logged: Vec<LoggedResult> = Vec::new();
        let mut pending: Option<String> = None;
        assert(all.take(0) =~= Seq::<ResultView>::empty());
        assert(engine::segments_view(updates@) =~= Seq::<SegmentView>::empty());
        assert(logged_view(logged@) =~= Seq::<LoggedView>::empty());
        for result in it: received
            invariant
                all == results_view(it.seq()),
                ({
                    let a = took_all(start, all.take(it.index() as int));
                    &&& self@ == a.e
                    &&& text::opt_view(pending) == a.pending
                    &&& engine::segments_view(updates@) == a.updates
                    &&& logged_view(logged@) == a.logged
                }),
                self.config == old(self).config,
                self.worker_running == old(self).worker_running,
        {
            let ghost before = took_all(start, all.take(it.index() as int));
            let ghost after = took_all(start, all.take(it.index() as int + 1));
            assert(all.take(it.index() as int + 1).drop_last() =~= all.take(it.index() as int));
            assert(all.take(it.index() as int + 1).last() == result@);
            if result.is_final {
                pending = None;
                let segment_id: u64 = self.take_id();
                self.current_segment = None;
                self.last_partial_text = String::new();
                self.final_count = self.final_count.saturating_add(1);
                let is_empty = text::is_empty(result.text.as_str());
                let ghost logged_before = logged@;
                logged.push(
                    LoggedResult {
                        chunk_num: self.final_count,
                        is_empty,
                        preview: text::text_preview(result.text.as_str(), 200),
                    },
                );
                assert(logged_view(logged@) =~= logged_view(logged_before).push(logged@.last()@));
                if !is_empty {
                    let ghost updates_before = updates@;
                    updates.push(SegmentUpdate { segment_id, text: result.text, is_final: true });
                    assert(engine::segments_view(updates@) =~= engine::segments_view(
                        updates_before,
                    ).push(updates@.last()@));
                }
                assert(self@ =~= after.e);
            } else {
                pending = Some(result.text);
            }
        }
        assert(all.take(all.len() as int) =~= all);
        if let Some(text) = pending {
            let segment_id: u64 = self.take_id();
            self.current_segment = Some(segment_id);
            self.last_partial_text = text.clone();
            let ghost updates_before = updates@;
            updates.push(SegmentUpdate { segment_id, text, is_final: false });
            assert(engine::segments_view(updates@) =~= engine::segments_view(updates_before).push(
                updates@.last()@,
            ));
        }
        Applied { updates, logged }
    }

    /// Force-finalize a dangling partial segment (used at teardown when the
    /// closing final never arrived).
    pub fn force_finalize(&mut self) -> (r: Option<SegmentUpdate>)
        ensures
            opt_segment_view(r) == forced(old(self)@),
            final(self)@ == after_forced(old(self)@),
            final(self).config == old(self).config,
            final(self).worker_running == old(self).worker_running,
    {
        let segment_id: u64 = match self.current_segment {
            Some(id) => id,
            None => return None,
        };
        self.current_segment = None;
        let mut text = String::new();
        std::mem::swap(&mut text, &mut self.last_partial_text);
        assert(self@.last_partial =~= Seq::<char>::empty());
        if text::is_empty(text.as_str()) {
            return None;
        }
        Some(SegmentUpdate { segment_id, text, is_final: true })
    }

    /// Applies the config and forgets what an earlier session left open. Segment ids
    /// go on.
    pub fn begin_session(&mut self, read: Result<AprilConfig, String>, home: Option<&str>) -> (r: Result<
        SessionOpening,
        EngineError,
    >)
        ensures
            match r {
                Ok(opening) => {
                    &&& parse_error(read) is None
                    &&& final(self).config == read->Ok_0
                    &&& final(self)@ == (AprilView {
                        current: None,
                        last_partial: Seq::empty(),
                        ..old(self)@
                    })
                    &&& opening.spawn_worker == !old(self).worker_running
                    &&& opening.model_path@ == paths::expanded(
                        read->Ok_0.model_path@,
                        match home {
                            Some(h) => Some(h@),
                            None => None,
                        },
                    )
                    &&& final(self).worker_running == old(self).worker_running
                },
                Err(e) => {
                    &&& e is Fatal
                    &&& parse_error(read) == Some(e->Fatal_0@)
                    &&& *final(self) == *old(self)
                },
            },
    {
        let config = match AprilConfig::parse(read) {
            Ok(c) => c,
            Err(e) => return Err(EngineError::Fatal(e)),
        };
        let model_path = paths::expand_tilde(config.model_path.as_str(), home);
        self.config = config;
        self.current_segment = None;
        self.last_partial_text = String::new();
        assert(self@.last_partial =~= Seq::<char>::empty());
        Ok(SessionOpening { spawn_worker: !self.worker_running, model_path })
    }

    /// The worker was started, or could not be.
    pub fn worker_spawned(&mut self, outcome: Result<(), String>) -> (r: Result<(), EngineError>)
        ensures
            match outcome {
                Ok(_) => r is Ok && *final(self) == (AprilEngine {
                    worker_running: true,
                    ..*old(self)
                }),
                Err(e) => {
                    &&& r is Err && r->Err_0 is Fatal
                    &&& r->Err_0->Fatal_0@ == "spawn april worker: "@ + e@
                    &&& *final(self) == *old(self)
                },
            },
    {
        match outcome {
            Ok(_) => {
                self.worker_running = true;
                Ok(())
            },
            Err(e) => Err(EngineError::Fatal(text::concat("spawn april worker: ", e.as_str()))),
        }
    }

    /// Whether a command got to the worker; `delivered` says whether one that is
    /// running took it.
    pub fn sent(&self, delivered: bool) -> (r: Result<(), EngineError>)
        ensures
            r is Ok == (self.worker_running && delivered),
            r is Err ==> r->Err_0 is Fatal && r->Err_0->Fatal_0@ == if self.worker_running {
                "april worker thread died"@
            } else {
                "april worker not running"@
            },
    {
        if !self.worker_running {
            Err(EngineError::Fatal("april worker not running".to_owned()))
        } else if !delivered {
            Err(EngineError::Fatal("april worker thread died".to_owned()))
        } else {
            Ok(())
        }
    }

    /// Takes the worker's answer to a request to open a session; `None` if it died
    /// without one.
    pub fn opened(&self, reply: Option<Result<(), String>>) -> (r: Result<(), EngineError>)
        ensures
            match reply {
                Some(Ok(_)) => r is Ok,
                Some(Err(e)) => r matches Err(EngineError::Fatal(m)) && m == e,
                None => r matches Err(EngineError::Fatal(m)) && m@ == "april worker thread died"@,
            },
    {
        match reply {
            Some(Ok(_)) => Ok(()),
            Some(Err(e)) => Err(EngineError::Fatal(e)),
            None => Err(EngineError::Fatal("april worker thread died".to_owned())),
        }
    }

    /// Takes the new config, which takes effect with the next session. An invalid one
    /// is ignored.
    pub fn update_config(&mut self, read: Result<AprilConfig, String>)
        ensures
            *final(self) == if parse_error(read) is None {
                AprilEngine { config: read->Ok_0, ..*old(self) }
            } else {
                *old(self)
            },
    {
        if let Ok(config) = AprilConfig::parse(read) {
            self.config = config;
        }
    }

    /// Ends the session with the results that still came in: they are applied, and a
    /// segment that is still open is closed with its last text.
    pub fn end_session(&mut self, received: Vec<AprilResult>) -> (r: Applied)
        ensures
            ({
                let a = applied(old(self)@, results_view(received@));
                &&& final(self)@ == after_forced(a.e)
                &&& engine::segments_view(r.updates@) == match forced(a.e) {
                    Some(u) => a.updates.push(u),
                    None => a.updates,
                }
                &&& logged_view(r.logged@) == a.logged
            }),
            final(self).config == old(self).config,
            final(self).worker_running == old(self).worker_running,
    {
        let mut r = self.apply_results(received);
        if let Some(update) = self.force_finalize() {
            let ghost before = r.updates@;
            r.updates.push(update);
            assert(engine::segments_view(r.updates@) =~= engine::segments_view(before).push(
                update@,
            ));
        }
        r
    }
}

/// Whether the end of a session waits for another result: until the closing one has
/// come, none comes, or the time is up.
pub fn keeps_waiting(elapsed_ms: u64, last_was_final: Option<bool>) -> (r: bool)
    ensures
        r == (elapsed_ms < END_WAIT_MS && last_was_final != Some(true)),
{
    let closed = match last_was_final {
        Some(is_final) => is_final,
        None => false,
    };
    elapsed_ms < END_WAIT_MS && !closed
}

// ---------------------------------------------------------------------------
// Worker
// ---------------------------------------------------------------------------

/// What the worker is told to do.
pub enum WorkerCmd {
    /// Open a session on the model in that file, and answer.
    Open(String),
    Feed(Vec<u8>),
    Flush,
    /// Drop the session but keep the model loaded for the next session.
    CloseSession,
    /// Also when nobody is left to send commands.
    Shutdown,
}

/// What a freshly loaded model says of itself.
pub struct ModelInfo {
    pub name: String,
    pub sample_rate: usize,
}

pub enum WorkerEvent {
    Command(WorkerCmd),
    Loaded(Result<ModelInfo, String>),
    SessionMade(Result<(), String>),
}

pub enum WorkerAction {
    Receive,
    LoadModel(String),
    MakeSession,
    Reply(Result<(), String>),
    FeedPcm(Vec<u8>),
    FlushSession,
    DropSession,
    DropModel,
    Exit,
}

/// What a [`WorkerAction`] says.
#[verifier::ext_equal]
pub enum WorkerActionView {
    Receive,
    LoadModel(Seq<char>),
    MakeSession,
    Reply(Result<(), Seq<char>>),
    FeedPcm(Seq<u8>),
    FlushSession,
    DropSession,
    DropModel,
    Exit,
}

impl View for WorkerAction {
    type V = WorkerActionView;

    open spec fn view(&self) -> WorkerActionView {
        match *self {
            WorkerAction::Receive => WorkerActionView::Receive,
            WorkerAction::LoadModel(path) => WorkerActionView::LoadModel(path@),
            WorkerAction::MakeSession => WorkerActionView::MakeSession,
            WorkerAction::Reply(Ok(_)) => WorkerActionView::Reply(Ok(())),
            WorkerAction::Reply(Err(e)) => WorkerActionView::Reply(Err(e@)),
            WorkerAction::FeedPcm(bytes) => WorkerActionView::FeedPcm(bytes@),
            WorkerAction::FlushSession => WorkerActionView::FlushSession,
            WorkerAction::DropSession => WorkerActionView::DropSession,
            WorkerAction::DropModel => WorkerActionView::DropModel,
            WorkerAction::Exit => WorkerActionView::Exit,
        }
    }
}

pub open spec fn worker_actions_view(v: Seq<WorkerAction>) -> Seq<WorkerActionView> {
    Seq::new(v.len(), |i: int| v[i]@)
}

/// Where the worker is.
pub enum WorkerState {
    /// Without a model: waiting for a request to open one.
    Empty,
    /// Loading the model in that file.
    Loading(String),
    /// Making a session on the model, which was just loaded or not.
    Making { path: String, fresh: bool },
    /// The model is loaded, with a session on it or without.
    Ready { path: String, session: bool },
    Done,
}

/// What a [`WorkerState`] says.
#[verifier::ext_equal]
pub enum WorkerView {
    Empty,
    Loading(Seq<char>),
    Making { path: Seq<char>, fresh: bool },
    Ready { path: Seq<char>, session: bool },
    Done,
}

impl View for WorkerState {
    type V = WorkerView;

    open spec fn view(&self) -> WorkerView {
        match *self {
            WorkerState::Empty => WorkerView::Empty,
            WorkerState::Loading(path) => WorkerView::Loading(path@),
            WorkerState::Making { path, fresh } => WorkerView::Making { path: path@, fresh },
            WorkerState::Ready { path, session } => WorkerView::Ready { path: path@, session },
            WorkerState::Done => WorkerView::Done,
        }
    }
}

/// What is wrong with a model for this pipeline.
pub open spec fn rate_error(info: ModelInfo) -> Option<Seq<char>> {
    if info.sample_rate != ASR_SAMPLE_RATE {
        Some(
            "April model '"@ + info.name@ + "' wants "@ + text::decimal_of(
                info.sample_rate as nat,
            ) + " Hz; the pipeline is fixed at "@ + text::decimal_of(ASR_SAMPLE_RATE as nat)
                + " Hz"@,
        )
    } else {
        None
    }
}

pub open spec fn load_error(e: Seq<char>) -> Seq<char> {
    "Failed to load april model: "@ + e
}

pub open spec fn session_error(e: Seq<char>) -> Seq<char> {
    "Failed to create april session: "@ + e
}

/// What follows an event: the state after it, and what to do. An event that does not
/// belong to the state changes nothing.
pub open spec fn worker_step(w: WorkerView, event: WorkerEvent) -> (
    WorkerView,
    Seq<WorkerActionView>,
) {
    let receive = seq![WorkerActionView::Receive];
    match (w, event) {
        (WorkerView::Empty, WorkerEvent::Command(cmd)) => match cmd {
            WorkerCmd::Open(path) => (
                WorkerView::Loading(path@),
                seq![WorkerActionView::LoadModel(path@)],
            ),
            WorkerCmd::Shutdown => (WorkerView::Done, seq![WorkerActionView::Exit]),
            _ => (w, receive),
        },
        (WorkerView::Loading(path), WorkerEvent::Loaded(Ok(info))) => match rate_error(info) {
            Some(e) => (
                WorkerView::Empty,
                seq![
                    WorkerActionView::Reply(Err(e)),
                    WorkerActionView::DropModel,
                    WorkerActionView::Receive,
                ],
            ),
            None => (
                WorkerView::Making { path, fresh: true },
                seq![WorkerActionView::MakeSession],
            ),
        },
        (WorkerView::Loading(_), WorkerEvent::Loaded(Err(e))) => (
            WorkerView::Empty,
            seq![WorkerActionView::Reply(Err(load_error(e@))), WorkerActionView::Receive],
        ),
        (WorkerView::Making { path, .. }, WorkerEvent::SessionMade(Ok(_))) => (
            WorkerView::Ready { path, session: true },
            seq![WorkerActionView::Reply(Ok(())), WorkerActionView::Receive],
        ),
        (WorkerView::Making { path, fresh }, WorkerEvent::SessionMade(Err(e))) => if fresh {
            (
                WorkerView::Empty,
                seq![
                    WorkerActionView::Reply(Err(session_error(e@))),
                    WorkerActionView::DropModel,
                    WorkerActionView::Receive,
                ],
            )
        } else {
            (
                WorkerView::Ready { path, session: false },
                seq![
                    WorkerActionView::Reply(Err(session_error(e@))),
                    WorkerActionView::Receive,
                ],
            )
        },
        (WorkerView::Ready { path, session }, WorkerEvent::Command(cmd)) => match cmd {
            WorkerCmd::Feed(bytes) => (
                w,
                if session {
                    seq![WorkerActionView::FeedPcm(bytes@), WorkerActionView::Receive]
                } else {
                    receive
                },
            ),
            WorkerCmd::Flush => (
                w,
                if session {
                    seq![WorkerActionView::FlushSession, WorkerActionView::Receive]
                } else {
                    receive
                },
            ),
            WorkerCmd::CloseSession => (
                WorkerView::Ready { path, session: false },
                seq![WorkerActionView::DropSession, WorkerActionView::Receive],
            ),
            WorkerCmd::Open(asked) => if asked@ == path {
                (
                    WorkerView::Making { path, fresh: false },
                    seq![WorkerActionView::DropSession, WorkerActionView::MakeSession],
                )
            } else {
                (
                    WorkerView::Loading(asked@),
                    seq![
                        WorkerActionView::DropSession,
                        WorkerActionView::DropModel,
                        WorkerActionView::LoadModel(asked@),
                    ],
                )
            },
            WorkerCmd::Shutdown => (WorkerView::Done, seq![WorkerActionView::Exit]),
        },
        _ => (w, Seq::empty()),
    }
}

/// Owns the decisions of the worker; whoever runs it owns model and session.
pub struct Worker {
    pub state: WorkerState,
}

fn plan(actions: &mut Vec<WorkerAction>, action: WorkerAction)
    ensures
        worker_actions_view(final(actions)@) == worker_actions_view(old(actions)@).push(action@),
{
    let ghost before = actions@;
    actions.push(action);
    assert(worker_actions_view(actions@) =~= worker_actions_view(before).push(action@));
}

fn rate_message(info: &ModelInfo) -> (r: Option<String>)
    ensures
        text::opt_view(r) == rate_error(*info),
{
    if info.sample_rate == ASR_SAMPLE_RATE {
        return None;
    }
    let mut m = text::concat("April model '", info.name.as_str());
    m.append("' wants ");
    m.append(text::decimal(info.sample_rate as u64).as_str());
    m.append(" Hz; the pipeline is fixed at ");
    m.append(text::decimal(ASR_SAMPLE_RATE as u64).as_str());
    m.append(" Hz");
    Some(m)
}

impl Worker {
    /// A worker without a model. Its first action is to receive a command.
    pub fn new() -> (r: Self)
        ensures
            r.state@ == WorkerView::Empty,
    {
        Worker { state: WorkerState::Empty }
    }

    fn command(&mut self, state: WorkerState, cmd: WorkerCmd, actions: &mut Vec<WorkerAction>)
        requires
            state is Empty || state is Ready,
            old(actions)@.len() == 0,
        ensures
            ({
                let (after, todo) = worker_step(state@, WorkerEvent::Command(cmd));
                &&& final(self).state@ == after
                &&& worker_actions_view(final(actions)@) == todo
            }),
    {
        let ghost todo = worker_step(state@, WorkerEvent::Command(cmd)).1;
        match state {
            WorkerState::Ready { path, session } => match cmd {
                WorkerCmd::Feed(bytes) => {
                    self.state = WorkerState::Ready { path, session };
                    if session {
                        plan(actions, WorkerAction::FeedPcm(bytes));
                    }
                    plan(actions, WorkerAction::Receive);
                },
                WorkerCmd::Flush => {
                    self.state = WorkerState::Ready { path, session };
                    if session {
                        plan(actions, WorkerAction::FlushSession);
                    }
                    plan(actions, WorkerAction::Receive);
                },
                WorkerCmd::CloseSession => {
                    self.state = WorkerState::Ready { path, session: false };
                    plan(actions, WorkerAction::DropSession);
                    plan(actions, WorkerAction::Receive);
                },
                WorkerCmd::Open(asked) => {
                    plan(actions, WorkerAction::DropSession);
                    if text::same_text(asked.as_str(), path.as_str()) {
                        self.state = WorkerState::Making { path, fresh: false };
                        plan(actions, WorkerAction::MakeSession);
                    } else {
                        self.state = WorkerState::Loading(asked.clone());
                        plan(actions, WorkerAction::DropModel);
                        plan(actions, WorkerAction::LoadModel(asked));
                    }
                },
                WorkerCmd::Shutdown => {
                    self.state = WorkerState::Done;
                    plan(actions, WorkerAction::Exit);
                },
            },
            other => match cmd {
                WorkerCmd::Open(asked) => {
                    self.state = WorkerState::Loading(asked.clone());
                    plan(actions, WorkerAction::LoadModel(asked));
                },
                WorkerCmd::Shutdown => {
                    self.state = WorkerState::Done;
                    plan(actions, WorkerAction::Exit);
                },
                _ => {
                    self.state = other;
                    plan(actions, WorkerAction::Receive);
                },
            },
        }
        assert(worker_actions_view(actions@) =~= todo);
    }

    /// What to do after `event`.
    pub fn step(&mut self, event: WorkerEvent) -> (actions: Vec<WorkerAction>)
        ensures
            ({
                let (after, todo) = worker_step(old(self).state@, event);
                &&& final(self).state@ == after
                &&& worker_actions_view(actions@) == todo
            }),
    {
        let ghost todo = worker_step(self.state@, event).1;
        let mut actions: Vec<WorkerAction> = Vec::new();
        let mut state = WorkerState::Done;
        std::mem::swap(&mut state, &mut self.state);
        match (state, event) {
            (WorkerState::Empty, WorkerEvent::Command(cmd)) => {
                self.command(WorkerState::Empty, cmd, &mut actions);
            },
            (WorkerState::Ready { path, session }, WorkerEvent::Command(cmd)) => {
                self.command(WorkerState::Ready { path, session }, cmd, &mut actions);
            },
            (WorkerState::Loading(path), WorkerEvent::Loaded(Ok(info))) => {
                match rate_message(&info) {
                    Some(m) => {
                        self.state = WorkerState::Empty;
                        plan(&mut actions, WorkerAction::Reply(Err(m)));
                        plan(&mut actions, WorkerAction::DropModel);
                        plan(&mut actions, WorkerAction::Receive);
                    },
                    None => {
                        self.state = WorkerState::Making { path, fresh: true };
                        plan(&mut actions, WorkerAction::MakeSession);
                    },
                }
            },
            (WorkerState::Loading(_), WorkerEvent::Loaded(Err(e))) => {
                self.state = WorkerState::Empty;
                plan(
                    &mut actions,
                    WorkerAction::Reply(
                        Err(text::concat("Failed to load april model: ", e.as_str())),
                    ),
                );
                plan(&mut actions, WorkerAction::Receive);
            },
            (WorkerState::Making { path, fresh: _ }, WorkerEvent::SessionMade(Ok(_))) => {
                self.state = WorkerState::Ready { path, session: true };
                plan(&mut actions, WorkerAction::Reply(Ok(())));
                plan(&mut actions, WorkerAction::Receive);
            },
            (WorkerState::Making { path, fresh }, WorkerEvent::SessionMade(Err(e))) => {
                plan(
                    &mut actions,
                    WorkerAction::Reply(
                        Err(text::concat("Failed to create april session: ", e.as_str())),
                    ),
                );
                if fresh {
                    self.state = WorkerState::Empty;
                    plan(&mut actions, WorkerAction::DropModel);
                } else {
                    self.state = WorkerState::Ready { path, session: false };
                }
                plan(&mut actions, WorkerAction::Receive);
            },
            (other, _) => {
                self.state = other;
            },
        }
        assert(worker_actions_view(actions@) =~= todo);
        actions
    }
}

// ---------------------------------------------------------------------------
// Diagnostics and runtime
// ---------------------------------------------------------------------------

pub const INSERT_RESULT: &'static str = "INSERT INTO events (session_id, uptime_ms, event_type, chunk_num, text_empty, text_preview, chunk_source) VALUES (?1, ?2, 'transcribe', ?3, ?4, ?5, ?6)";

/// The row for a final result.
pub fn row(sink: &DiagSink, enabled: bool, uptime_ms: i64, result: &LoggedResult) -> (s: Option<
    Statement,
>)
    ensures
        diag::statement_view(s) == sink.gated(
            enabled,
            StatementView {
                sql: INSERT_RESULT@,
                values: sink.row_values(
                    uptime_ms,
                    seq![
                        SqlView::Integer(diag::signed(result.chunk_num)),
                        SqlView::Integer(
                            if result.is_empty {
                                1
                            } else {
                                0
                            },
                        ),
                        SqlView::Text(result.preview@),
                        SqlView::Text("final"@),
                    ],
                ),
            },
        ),
{
    match sink.row(enabled, INSERT_RESULT, uptime_ms) {
        Some(row) => {
            let s = row.count(result.chunk_num).flag(result.is_empty).text(
                result.preview.as_str(),
            ).text("final");
            assert(s@.values =~= sink.row_values(
                uptime_ms,
                seq![
                    SqlView::Integer(diag::signed(result.chunk_num)),
                    SqlView::Integer(
                        if result.is_empty {
                            1
                        } else {
                            0
                        },
                    ),
                    SqlView::Text(result.preview@),
                    SqlView::Text("final"@),
                ],
            ));
            Some(s)
        },
        None => None,
    }
}

pub open spec fn bare_path(path: Seq<char>) -> PathView {
    PathView { base: path, rest: Seq::empty() }
}

/// Where ONNX Runtime may be, best first. On macOS the copy that the application
/// maintains in its config directory comes before the package managers'.
pub open spec fn dylib_candidates(home: Option<Seq<char>>, macos: bool) -> Seq<PathView> {
    let dir = paths::config_dir_of(home);
    let managed = PathView {
        base: dir.base,
        rest: dir.rest.push("runtime"@).push("libonnxruntime.dylib"@),
    };
    let others = seq![
        bare_path("/opt/homebrew/lib/libonnxruntime.dylib"@),
        bare_path("/usr/local/lib/libonnxruntime.dylib"@),
        bare_path("/usr/lib/libonnxruntime.so"@),
        bare_path("/usr/local/lib/libonnxruntime.so"@),
    ];
    if macos {
        seq![managed] + others
    } else {
        others
    }
}

pub open spec fn paths_view(v: Seq<PathParts>) -> Seq<PathView> {
    Seq::new(v.len(), |i: int| v[i]@)
}

/// The files to look for ONNX Runtime in, in order, unless `ORT_DYLIB_PATH` already
/// names one.
pub fn ort_dylib_candidates(already_set: bool, home: Option<&str>, macos: bool) -> (r: Vec<PathParts>)
    ensures
        paths_view(r@) == if already_set {
            Seq::empty()
        } else {
            dylib_candidates(
                match home {
                    Some(h) => Some(h@),
                    None => None,
                },
                macos,
            )
        },
{
    let mut r: Vec<PathParts> = Vec::new();
    assert(paths_view(r@) =~= Seq::<PathView>::empty());
    if already_set {
        return r;
    }
    if macos {
        let mut managed = paths::config_dir(home);
        managed.join("runtime");
        managed.join("libonnxruntime.dylib");
        r.push(managed);
    }
    r.push(PathParts::bare("/opt/homebrew/lib/libonnxruntime.dylib".to_owned()));
    r.push(PathParts::bare("/usr/local/lib/libonnxruntime.dylib".to_owned()));
    r.push(PathParts::bare("/usr/lib/libonnxruntime.so".to_owned()));
    r.push(PathParts::bare("/usr/local/lib/libonnxruntime.so".to_owned()));
    assert(paths_view(r@) =~= dylib_candidates(
        match home {
            Some(h) => Some(h@),
            None => None,
        },
        macos,
    ));
    r
}

// ---------------------------------------------------------------------------
// Laws
// ---------------------------------------------------------------------------

/// An open segment has the newest id.
pub open spec fn sound(e: AprilView) -> bool {
    e.current is Some ==> e.current->Some_0 + 1 == e.next_id
}

/// The updates come with ids that never go back, from `low` up to below `high`, and
/// once an id has come out final only larger ids follow.
pub open spec fn in_order(updates: Seq<SegmentView>, low: int, high: int) -> bool {
    &&& forall|i: int|
        0 <= i < updates.len() ==> low <= (#[trigger] updates[i]).segment_id < high
    &&& forall|i: int, j: int|
        0 <= i < j < updates.len() ==> (#[trigger] updates[i]).segment_id <= (
        #[trigger] updates[j]).segment_id
    &&& forall|i: int, j: int|
        0 <= i < j < updates.len() && (#[trigger] updates[i]).is_final ==> updates[i].segment_id < (
        #[trigger] updates[j]).segment_id
}

/// Every batch follows the rule of segment updates, and so do batches that follow
/// one another: ids start from the open segment's, or else from a new one; they never
/// go back; a final closes its id for good, also for the batches to come (until ids
/// wrap around).
pub proof fn law_batch_follows_the_rule(e: AprilView, results: Seq<ResultView>)
    requires
        sound(e),
        e.next_id + results.len() < u64::MAX,
    ensures
        ({
            let a = applied(e, results);
            &&& sound(a.e)
            &&& e.next_id <= a.e.next_id <= e.next_id + results.len()
            &&& in_order(a.updates, segment_id(e) as int, a.e.next_id as int)
            &&& segment_id(e) <= segment_id(a.e)
            &&& forall|i: int|
                0 <= i < a.updates.len() && (#[trigger] a.updates[i]).is_final
                    ==> a.updates[i].segment_id < segment_id(a.e)
        }),
{
    lemma_taking_follows_the_rule(e, results);
}

proof fn lemma_taking_follows_the_rule(e: AprilView, results: Seq<ResultView>)
    requires
        sound(e),
        e.next_id + results.len() < u64::MAX,
    ensures
        ({
            let a = took_all(e, results);
            &&& sound(a.e)
            &&& e.next_id <= a.e.next_id
            &&& a.e.next_id + (if a.pending is Some && a.e.current is None {
                1int
            } else {
                0
            }) <= e.next_id + results.len()
            &&& segment_id(e) <= segment_id(a.e)
            &&& in_order(a.updates, segment_id(e) as int, segment_id(a.e) as int)
            &&& forall|i: int| 0 <= i < a.updates.len() ==> (#[trigger] a.updates[i]).is_final
        }),
    decreases results.len(),
{
    if results.len() > 0 {
        lemma_taking_follows_the_rule(e, results.drop_last());
    }
}

/// The final results with text in them.
pub open spec fn spoken(results: Seq<ResultView>) -> Seq<Seq<char>>
    decreases results.len(),
{
    if results.len() == 0 {
        Seq::empty()
    } else {
        let before = spoken(results.drop_last());
        if results.last().is_final && results.last().text.len() > 0 {
            before.push(results.last().text)
        } else {
            before
        }
    }
}

/// The texts of the final updates.
pub open spec fn closed_texts(updates: Seq<SegmentView>) -> Seq<Seq<char>>
    decreases updates.len(),
{
    if updates.len() == 0 {
        Seq::empty()
    } else {
        let before = closed_texts(updates.drop_last());
        if updates.last().is_final {
            before.push(updates.last().text)
        } else {
            before
        }
    }
}

/// No final text is lost, repeated or moved: the final updates of a batch are its
/// final results, in order, but for empty ones.
pub proof fn law_finals_are_kept_in_order(e: AprilView, results: Seq<ResultView>)
    ensures
        closed_texts(applied(e, results).updates) == spoken(results),
{
    lemma_finals_are_kept(e, results);
    let a = took_all(e, results);
    if a.pending is Some {
        assert(applied(e, results).updates.drop_last() =~= a.updates);
    }
}

proof fn lemma_finals_are_kept(e: AprilView, results: Seq<ResultView>)
    ensures
        closed_texts(took_all(e, results).updates) == spoken(results),
    decreases results.len(),
{
    if results.len() > 0 {
        lemma_finals_are_kept(e, results.drop_last());
        let before = took_all(e, results.drop_last());
        let after = took_all(e, results);
        if results.last().is_final && results.last().text.len() > 0 {
            assert(after.updates.drop_last() =~= before.updates);
        }
    }
}

/// Partials coalesce: a batch that ends in a partial shows exactly one open update,
/// its last, with the newest text; any other batch shows none.
pub proof fn law_partials_coalesce(e: AprilView, results: Seq<ResultView>)
    ensures
        ({
            let a = applied(e, results);
            let n = a.updates.len() as int;
            &&& forall|i: int| 0 <= i < n - 1 ==> (#[trigger] a.updates[i]).is_final
            &&& results.len() > 0 && !results.last().is_final ==> n > 0 && a.updates.last() == (
            SegmentView {
                segment_id: a.e.current->Some_0,
                text: results.last().text,
                is_final: false,
            }) && a.e.current is Some && a.e.last_partial == results.last().text
            &&& results.len() == 0 || results.last().is_final ==> forall|i: int|
                0 <= i < n ==> (#[trigger] a.updates[i]).is_final
        }),
{
    lemma_only_finals_before(e, results);
}

proof fn lemma_only_finals_before(e: AprilView, results: Seq<ResultView>)
    ensures
        ({
            let a = took_all(e, results);
            &&& forall|i: int| 0 <= i < a.updates.len() ==> (#[trigger] a.updates[i]).is_final
            &&& a.pending == if results.len() > 0 && !results.last().is_final {
                Some(results.last().text)
            } else {
                None
            }
        }),
    decreases results.len(),
{
    if results.len() > 0 {
        lemma_only_finals_before(e, results.drop_last());
    }
}

/// A segment is rewritten under one id until its final: as long as only partials
/// come, each batch shows the same segment, and the final closes that one.
pub proof fn law_open_segment_keeps_its_id(e: AprilView, partial: Seq<char>, last: Seq<char>)
    requires
        e.current is Some,
        last.len() > 0,
    ensures
        ({
            let p = applied(e, seq![ResultView { is_final: false, text: partial }]);
            let f = applied(p.e, seq![ResultView { is_final: true, text: last }]);
            &&& p.e.current == e.current
            &&& p.updates == seq![
                SegmentView {
                    segment_id: e.current->Some_0,
                    text: partial,
                    is_final: false,
                },
            ]
            &&& f.e.current is None
            &&& f.updates == seq![
                SegmentView { segment_id: e.current->Some_0, text: last, is_final: true },
            ]
        }),
{
    let first = seq![ResultView { is_final: false, text: partial }];
    let second = seq![ResultView { is_final: true, text: last }];
    assert(first.drop_last() =~= Seq::<ResultView>::empty());
    assert(second.drop_last() =~= Seq::<ResultView>::empty());
    reveal_with_fuel(took_all, 2);
    let p = applied(e, first);
    let f = applied(p.e, second);
    assert(p.updates =~= seq![
        SegmentView { segment_id: e.current->Some_0, text: partial, is_final: false },
    ]);
    assert(f.updates =~= seq![
        SegmentView { segment_id: e.current->Some_0, text: last, is_final: true },
    ]);
}

/// The end of a session leaves no segment open: a dangling one is closed with the
/// text it last showed, once.
pub proof fn law_no_segment_is_left_open(e: AprilView)
    ensures
        after_forced(e).current is None,
        forced(after_forced(e)) is None,
        e.current is Some && e.last_partial.len() > 0 ==> forced(e) == Some(
            SegmentView { segment_id: e.current->Some_0, text: e.last_partial, is_final: true },
        ),
{
}

/// A worker that is asked for a model it has loaded does not load it again.
pub proof fn law_loaded_model_is_kept(path: String, session: bool)
    ensures
        ({
            let w = WorkerView::Ready { path: path@, session };
            let (after, todo) = worker_step(w, WorkerEvent::Command(WorkerCmd::Open(path)));
            &&& after == WorkerView::Making { path: path@, fresh: false }
            &&& forall|i: int|
                0 <= i < todo.len() ==> !(#[trigger] todo[i] is LoadModel) && !(todo[i] is DropModel)
        }),
{
}

/// Every request to open a session is answered: the worker is loading or making a
/// session until it replies, and then no longer.
pub proof fn law_requests_are_answered(w: WorkerView, event: WorkerEvent)
    ensures
        ({
            let (after, todo) = worker_step(w, event);
            let asked = w is Loading || w is Making;
            let replies = exists|i: int| 0 <= i < todo.len() && #[trigger] todo[i] is Reply;
            &&& replies ==> asked && !(after is Loading) && !(after is Making)
            &&& asked && !(after is Loading) && !(after is Making) ==> replies
            &&& (event matches WorkerEvent::Command(WorkerCmd::Open(_))) && (w is Empty
                || w is Ready) ==> after is Loading || after is Making
        }),
{
    let (after, todo) = worker_step(w, event);
    if (w is Loading || w is Making) && !(after is Loading) && !(after is Making) {
        assert(todo[0] is Reply);
    }
}

} // verus!
