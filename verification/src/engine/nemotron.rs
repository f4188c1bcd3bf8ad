//! Nemotron speech engine.
//!
//! Nemotron is a streaming, append-only model: it consumes fixed-size audio
//! chunks and every result it emits is final. The engine buffers fed audio into
//! chunks and carries the decoder-reset heuristics of [`crate::decoder`]; the model
//! is run by the caller, chunk by chunk, as each step asks for it.

use serde_json::Value;
use vstd::prelude::*;

use crate::asr::SegmentIds;
use crate::asr::TranscriptUpdate;
use crate::asr::UpdateView;
use crate::decoder;
use crate::decoder::ActionView;
use crate::decoder::ChunkDecoder;
use crate::decoder::ChunkResult;
use crate::decoder::ChunkSource;
use crate::decoder::DecoderAction;
use crate::decoder::DecoderView;
use crate::decoder::PassView;
use crate::decoder::Step;
use crate::decoder::Turn;
use crate::diag;
use crate::diag::SqlView;
use crate::diag::Statement;
use crate::diag::StatementView;
use crate::engine::diagnostics::DiagSink;
use crate::engine::registry;
use crate::engine::registry::ConfigField;
use crate::engine::registry::ConfigFieldView;
use crate::engine::registry::DescriptorView;
use crate::engine::registry::EngineDescriptor;
use crate::engine::registry::EngineFactory;
use crate::engine::registry::EngineKind;
use crate::engine::registry::EnumOption;
use crate::engine::registry::FieldType;
use crate::engine::registry::FieldTypeView;
use crate::engine::EngineError;
use crate::engine::SegmentUpdate;
use crate::engine::SegmentView;
use crate::json;
use crate::json::JsonView;
use crate::paths;
use crate::paths::PathParts;
use crate::samples;
use crate::settings;
use crate::text;

pub use crate::diag::chunks_to_audio_ms;
pub use crate::samples::pad_to_chunk_boundary;
pub use crate::text::ends_with_sentence_punctuation;

verus! {

pub const ENGINE_ID: &'static str = "nemotron";

// ---------------------------------------------------------------------------
// Config
// ---------------------------------------------------------------------------

#[derive(Debug, Clone)]
pub struct NemotronConfig {
    pub model_path: String,
    pub chunk_ms: usize,
    pub intra_threads: usize,
    pub inter_threads: usize,
    pub punctuation_reset: bool,
    pub empty_reset_threshold: u32,
}

/// The config that an engine has unless told otherwise.
pub open spec fn is_default(c: NemotronConfig) -> bool {
    &&& c.model_path@ == "~/projects/prs-nemotron/"@
    &&& c.chunk_ms == 560
    &&& c.intra_threads == 2
    &&& c.inter_threads == 1
    &&& c.punctuation_reset
    &&& c.empty_reset_threshold == 6
}

/// What is wrong with a config, first of all.
pub open spec fn config_error(c: NemotronConfig) -> Option<Seq<char>> {
    if !settings::chunk_ms_supported(c.chunk_ms) {
        Some(
            "Invalid chunk_ms "@ + text::decimal_of(c.chunk_ms as nat)
                + "; must be one of [80, 160, 560, 1120]"@,
        )
    } else if c.intra_threads < 1 {
        Some("intra_threads must be at least 1"@)
    } else if c.inter_threads < 1 {
        Some("inter_threads must be at least 1"@)
    } else if c.empty_reset_threshold < 1 {
        Some("empty_reset_threshold must be at least 1"@)
    } else if text::is_blank_text(c.model_path@) {
        Some("model_path cannot be empty"@)
    } else {
        None
    }
}

/// What is wrong with a config object, given what reading its fields gave.
pub open spec fn parse_error(read: Result<NemotronConfig, String>) -> Option<Seq<char>> {
    match read {
        Ok(c) => config_error(c),
        Err(e) => Some("Invalid nemotron config: "@ + e@),
    }
}

impl NemotronConfig {
    /// Judges a config object whose fields have been read.
    pub fn parse(read: Result<NemotronConfig, String>) -> (r: Result<NemotronConfig, String>)
        ensures
            match r {
                Ok(c) => parse_error(read) is None && read == Ok::<NemotronConfig, String>(c),
                Err(e) => parse_error(read) == Some(e@),
            },
    {
        let c = match read {
            Ok(c) => c,
            Err(e) => return Err(text::concat("Invalid nemotron config: ", e.as_str())),
        };
        if !settings::is_valid_chunk_ms(c.chunk_ms) {
            let mut m = text::concat(
                "Invalid chunk_ms ",
                text::decimal(c.chunk_ms as u64).as_str(),
            );
            m.append("; must be one of [80, 160, 560, 1120]");
            return Err(m);
        }
        if c.intra_threads < 1 {
            return Err("intra_threads must be at least 1".to_owned());
        }
        if c.inter_threads < 1 {
            return Err("inter_threads must be at least 1".to_owned());
        }
        if c.empty_reset_threshold < 1 {
            return Err("empty_reset_threshold must be at least 1".to_owned());
        }
        if text::is_blank(c.model_path.as_str()) {
            return Err("model_path cannot be empty".to_owned());
        }
        Ok(c)
    }
}

impl Default for NemotronConfig {
    fn default() -> (r: Self)
        ensures
            is_default(r),
            config_error(r) is None,
    {
        let r = NemotronConfig {
            model_path: "~/projects/prs-nemotron/".to_owned(),
            chunk_ms: 560,
            intra_threads: 2,
            inter_threads: 1,
            punctuation_reset: true,
            empty_reset_threshold: 6,
        };
        proof {
            reveal_strlit("~/projects/prs-nemotron/");
            assert(!text::is_space(r.model_path@[0]));
        }
        r
    }
}

/// The config fields that force a fresh engine. The chunk size and the reset knobs
/// apply to a reused one at the start of a session or at hot-reload.
#[derive(Debug)]
pub struct CacheIdentity {
    pub model_path: PathParts,
    pub intra_threads: usize,
    pub inter_threads: usize,
}

/// The same model, run by the same number of threads.
pub open spec fn is_identity_of(i: CacheIdentity, c: NemotronConfig, home: Option<Seq<char>>) -> bool {
    &&& i.model_path@ == paths::expanded(c.model_path@, home)
    &&& i.intra_threads == c.intra_threads
    &&& i.inter_threads == c.inter_threads
}

/// What the fields of a valid config are, in a JSON object.
pub open spec fn config_object(c: NemotronConfig) -> Map<Seq<char>, JsonView> {
    Map::empty().insert("model_path"@, JsonView::Text(c.model_path@)).insert(
        "chunk_ms"@,
        JsonView::Integer(c.chunk_ms as int),
    ).insert("intra_threads"@, JsonView::Integer(c.intra_threads as int)).insert(
        "inter_threads"@,
        JsonView::Integer(c.inter_threads as int),
    ).insert("punctuation_reset"@, JsonView::Bool(c.punctuation_reset)).insert(
        "empty_reset_threshold"@,
        JsonView::Integer(c.empty_reset_threshold as int),
    )
}

// ---------------------------------------------------------------------------
// Factory
// ---------------------------------------------------------------------------

pub struct NemotronFactory;

pub open spec fn chunk_options() -> Seq<(JsonView, Seq<char>)> {
    seq![
        (JsonView::Integer(80), "80 ms"@),
        (JsonView::Integer(160), "160 ms"@),
        (JsonView::Integer(560), "560 ms"@),
        (JsonView::Integer(1120), "1120 ms"@),
    ]
}

/// What the engine says of its config fields, in order.
pub open spec fn field_list() -> Seq<ConfigFieldView> {
    seq![
        ConfigFieldView {
            key: "model_path"@,
            label: "Model Path"@,
            field: FieldTypeView::Path { directory: true },
            default: JsonView::Text("~/projects/prs-nemotron/"@),
            env_var: None,
            help: Some("Directory containing the Nemotron streaming model files"@),
        },
        ConfigFieldView {
            key: "chunk_ms"@,
            label: "Chunk Size"@,
            field: FieldTypeView::Enum(chunk_options()),
            default: JsonView::Integer(560),
            env_var: Some("CHUNK_MS"@),
            help: Some("Audio chunk duration fed to the model"@),
        },
        ConfigFieldView {
            key: "intra_threads"@,
            label: "Intra-op Threads"@,
            field: FieldTypeView::Int { min: 1, max: 32 },
            default: JsonView::Integer(2),
            env_var: Some("INTRA_THREADS"@),
            help: Some("ONNX intra-op parallelism"@),
        },
        ConfigFieldView {
            key: "inter_threads"@,
            label: "Inter-op Threads"@,
            field: FieldTypeView::Int { min: 1, max: 32 },
            default: JsonView::Integer(1),
            env_var: Some("INTER_THREADS"@),
            help: Some("ONNX inter-op parallelism"@),
        },
        ConfigFieldView {
            key: "punctuation_reset"@,
            label: "Punctuation-based decoder reset"@,
            field: FieldTypeView::Bool,
            default: JsonView::Bool(true),
            env_var: Some("PUNCTUATION_RESET"@),
            help: Some("Reset the decoder after sentence-ending punctuation"@),
        },
        ConfigFieldView {
            key: "empty_reset_threshold"@,
            label: "Empty chunk reset threshold"@,
            field: FieldTypeView::Int { min: 1, max: 50 },
            default: JsonView::Integer(6),
            env_var: None,
            help: Some(
                "Consecutive empty chunks during speech before resetting the decoder and replaying buffered audio"@,
            ),
        },
    ]
}

fn chunk_option(ms: u64, label: &str) -> (r: EnumOption)
    ensures
        json::json_view(r.value) == JsonView::Integer(ms as int),
        r.label@ == label@,
{
    EnumOption { value: json::from_count(ms), label: label.to_owned() }
}

/// What the engine says of itself.
pub open spec fn description() -> DescriptorView {
    DescriptorView {
        id: ENGINE_ID@,
        name: "Nemotron (parakeet-rs)"@,
        kind: EngineKind::Local,
        emits_partials: false,
        config_fields: field_list(),
    }
}

impl EngineFactory for NemotronFactory {
    fn descriptor(&self) -> (r: EngineDescriptor)
        ensures
            r@ == description(),
    {
        let defaults = NemotronConfig::default();
        let options: Vec<EnumOption> = vec![
            chunk_option(80, "80 ms"),
            chunk_option(160, "160 ms"),
            chunk_option(560, "560 ms"),
            chunk_option(1120, "1120 ms"),
        ];
        assert(registry::options_view(options@) =~= chunk_options());
        let config_fields: Vec<ConfigField> = vec![
            ConfigField {
                key: "model_path",
                label: "Model Path",
                field: FieldType::Path { directory: true },
                default: json::from_text(defaults.model_path.as_str()),
                env_var: None,
                help: Some("Directory containing the Nemotron streaming model files"),
            },
            ConfigField {
                key: "chunk_ms",
                label: "Chunk Size",
                field: FieldType::Enum { options },
                default: json::from_count(defaults.chunk_ms as u64),
                env_var: Some("CHUNK_MS"),
                help: Some("Audio chunk duration fed to the model"),
            },
            ConfigField {
                key: "intra_threads",
                label: "Intra-op Threads",
                field: FieldType::Int { min: 1, max: 32 },
                default: json::from_count(defaults.intra_threads as u64),
                env_var: Some("INTRA_THREADS"),
                help: Some("ONNX intra-op parallelism"),
            },
            ConfigField {
                key: "inter_threads",
                label: "Inter-op Threads",
                field: FieldType::Int { min: 1, max: 32 },
                default: json::from_count(defaults.inter_threads as u64),
                env_var: Some("INTER_THREADS"),
                help: Some("ONNX inter-op parallelism"),
            },
            ConfigField {
                key: "punctuation_reset",
                label: "Punctuation-based decoder reset",
                field: FieldType::Bool,
                default: json::from_flag(defaults.punctuation_reset),
                env_var: Some("PUNCTUATION_RESET"),
                help: Some("Reset the decoder after sentence-ending punctuation"),
            },
            ConfigField {
                key: "empty_reset_threshold",
                label: "Empty chunk reset threshold",
                field: FieldType::Int { min: 1, max: 50 },
                default: json::from_count(defaults.empty_reset_threshold as u64),
                env_var: None,
                help: Some(
                    "Consecutive empty chunks during speech before resetting the decoder and replaying buffered audio",
                ),
            },
        ];
        assert(registry::config_fields_view(config_fields@) =~= field_list());
        EngineDescriptor {
            id: ENGINE_ID,
            name: "Nemotron (parakeet-rs)",
            kind: EngineKind::Local,
            emits_partials: false,
            config_fields,
        }
    }

    /// The default config, as a JSON object.
    fn default_config(&self) -> (r: Value)
        ensures
            exists|c: NemotronConfig|
                is_default(c) && #[trigger] config_object(c) == json::json_view(r)->Object_0,
            json::json_view(r) is Object,
    {
        let c = NemotronConfig::default();
        let mut m = json::new_map();
        json::insert(
            &mut m,
            "model_path".to_owned(),
            json::from_text(c.model_path.as_str()),
        );
        json::insert(&mut m, "chunk_ms".to_owned(), json::from_count(c.chunk_ms as u64));
        json::insert(&mut m, "intra_threads".to_owned(), json::from_count(c.intra_threads as u64));
        json::insert(&mut m, "inter_threads".to_owned(), json::from_count(c.inter_threads as u64));
        json::insert(
            &mut m,
            "punctuation_reset".to_owned(),
            json::from_flag(c.punctuation_reset),
        );
        json::insert(
            &mut m,
            "empty_reset_threshold".to_owned(),
            json::from_count(c.empty_reset_threshold as u64),
        );
        assert(json::map_view(m) =~= config_object(c));
        json::from_map(m)
    }
}

impl NemotronFactory {
    /// Judges a config object whose fields have been read.
    pub fn validate_config(&self, read: Result<NemotronConfig, String>) -> (r: Result<(), String>)
        ensures
            match r {
                Ok(_) => parse_error(read) is None,
                Err(e) => parse_error(read) == Some(e@),
            },
    {
        match NemotronConfig::parse(read) {
            Ok(_) => Ok(()),
            Err(e) => Err(e),
        }
    }

    /// What a kept engine must agree with to be reused under this config; an invalid
    /// config counts as the default one.
    pub fn cache_identity(&self, read: Result<NemotronConfig, String>, home: Option<&str>) -> (r:
        CacheIdentity)
        ensures
            ({
                let h = match home {
                    Some(h) => Some(h@),
                    None => None,
                };
                if parse_error(read) is None {
                    is_identity_of(r, read->Ok_0, h)
                } else {
                    exists|c: NemotronConfig|
                        #[trigger] is_default(c) && is_identity_of(r, c, h)
                }
            }),
    {
        let c = match NemotronConfig::parse(read) {
            Ok(c) => c,
            Err(_) => NemotronConfig::default(),
        };
        CacheIdentity {
            model_path: paths::expand_tilde(c.model_path.as_str(), home),
            intra_threads: c.intra_threads,
            inter_threads: c.inter_threads,
        }
    }

    /// A fresh engine, without a model.
    pub fn create<T: Copy>(&self, read: Result<NemotronConfig, String>) -> (r: Result<
        NemotronEngine<T>,
        EngineError,
    >)
        ensures
            match r {
                Ok(engine) => {
                    &&& parse_error(read) is None
                    &&& engine.wf()
                    &&& engine@ == fresh_engine::<T>(read->Ok_0)
                },
                Err(e) => e is Fatal && parse_error(read) == Some(e->Fatal_0@),
            },
    {
        match NemotronConfig::parse(read) {
            Ok(c) => Ok(NemotronEngine::new(c)),
            Err(e) => Err(EngineError::Fatal(e)),
        }
    }
}

// ---------------------------------------------------------------------------
// Engine
// ---------------------------------------------------------------------------

/// What a [`NemotronEngine`] holds.
#[verifier::ext_equal]
pub struct NemotronView<T> {
    pub chunk_ms: usize,
    pub d: DecoderView<T>,
    pub loaded: bool,
    /// Whether the audio being fed belongs to an open speech segment.
    pub in_speech: bool,
    /// Whether the model starts over once the current pass is over.
    pub ending: bool,
    pub next_id: u64,
}

/// A decoder for a valid config.
pub open spec fn config_decoder<T>(c: NemotronConfig) -> DecoderView<T> {
    decoder::fresh_decoder(
        (16000 * c.chunk_ms / 1000) as usize,
        c.punctuation_reset,
        c.empty_reset_threshold,
    )
}

pub open spec fn fresh_engine<T>(c: NemotronConfig) -> NemotronView<T> {
    NemotronView {
        chunk_ms: c.chunk_ms,
        d: config_decoder(c),
        loaded: false,
        in_speech: false,
        ending: false,
        next_id: 0,
    }
}

/// An engine after a step, with what to do.
#[verifier::ext_equal]
pub struct NemotronTurn<T> {
    pub e: NemotronView<T>,
    pub actions: Seq<ActionView>,
    pub request: Option<Seq<T>>,
}

/// Takes over what the decoder did. Without a model, a chunk that is asked for is
/// given up. Behind the last chunk of a closed segment the model starts over.
pub open spec fn concluded<T>(e: NemotronView<T>, t: Turn<T>) -> NemotronTurn<T> {
    let given_up = t.request is Some && !e.loaded;
    let d = if given_up {
        DecoderView {
            buffer: t.d.buffer.skip(t.d.consumed),
            consumed: 0,
            pass: PassView::Idle,
            ..t.d
        }
    } else {
        t.d
    };
    let request = if given_up {
        None
    } else {
        t.request
    };
    if request is None && e.ending {
        NemotronTurn {
            e: NemotronView {
                d: decoder::restarted(d),
                next_id: t.next_id,
                ending: false,
                ..e
            },
            actions: if e.loaded {
                t.actions.push(ActionView::ResetModel)
            } else {
                t.actions
            },
            request,
        }
    } else {
        NemotronTurn { e: NemotronView { d, next_id: t.next_id, ..e }, actions: t.actions, request }
    }
}

/// Runs through what is buffered.
pub open spec fn draining<T>(e: NemotronView<T>) -> NemotronTurn<T> {
    concluded(e, decoder::started(e.d, e.next_id, e.in_speech))
}

/// Audio is buffered, and whole chunks are run.
pub open spec fn fed<T>(e: NemotronView<T>, samples: Seq<T>) -> NemotronTurn<T> {
    draining(NemotronView { d: DecoderView { buffer: e.d.buffer + samples, ..e.d }, ..e })
}

/// The segment is closed: its last chunk is filled up, everything buffered is run,
/// and the model starts over. What is run from here on is not speech.
pub open spec fn closed_segment<T>(e: NemotronView<T>, fill: T) -> NemotronTurn<T> {
    draining(
        NemotronView {
            in_speech: false,
            ending: true,
            d: DecoderView {
                buffer: samples::padded(e.d.buffer, e.d.chunk_size as nat, fill),
                ..e.d
            },
            ..e
        },
    )
}

/// What a session needs before audio can be fed.
#[derive(Clone, Copy, Debug, PartialEq, Eq, Structural)]
pub enum SessionStart {
    /// The resident model starts over.
    ResetModel,
    /// The model must be loaded first.
    LoadModel,
}

pub struct NemotronEngine<T> {
    config: NemotronConfig,
    decoder: ChunkDecoder<T>,
    model_loaded: bool,
    in_speech: bool,
    ending: bool,
    ids: SegmentIds,
}

impl<T: Copy> View for NemotronEngine<T> {
    type V = NemotronView<T>;

    closed spec fn view(&self) -> NemotronView<T> {
        NemotronView {
            chunk_ms: self.config.chunk_ms,
            d: self.decoder@,
            loaded: self.model_loaded,
            in_speech: self.in_speech,
            ending: self.ending,
            next_id: self.ids@,
        }
    }
}

impl<T: Copy> NemotronEngine<T> {
    pub closed spec fn wf(self) -> bool {
        &&& self.decoder.wf()
        &&& self.decoder@.chunk_size > 0
        &&& !(self.decoder@.pass is Idle) ==> self.model_loaded
        &&& self.decoder@.pass is Idle ==> !self.ending
    }

    /// The config in use.
    pub closed spec fn config(self) -> NemotronConfig {
        self.config
    }

    fn new(config: NemotronConfig) -> (r: Self)
        requires
            config_error(config) is None,
        ensures
            r.wf(),
            r.config() == config,
            r@ == fresh_engine::<T>(config),
    {
        let chunk_size: usize = settings::chunk_ms_to_samples(config.chunk_ms);
        let decoder = ChunkDecoder::new(
            chunk_size,
            config.punctuation_reset,
            config.empty_reset_threshold,
        );
        NemotronEngine {
            config,
            decoder,
            model_loaded: false,
            in_speech: false,
            ending: false,
            ids: SegmentIds(0),
        }
    }

    pub fn engine_id(&self) -> (r: &'static str)
        ensures
            r@ == ENGINE_ID@,
    {
        ENGINE_ID
    }

    /// Re-applies the full config: a reused instance may carry a stale chunk size or
    /// reset knobs. Segment ids go on.
    pub fn begin_session(&mut self, read: Result<NemotronConfig, String>) -> (r: Result<
        SessionStart,
        EngineError,
    >)
        requires
            old(self).wf(),
        ensures
            final(self).wf(),
            match r {
                Ok(start) => {
                    &&& parse_error(read) is None
                    &&& final(self).config() == read->Ok_0
                    &&& final(self)@ == (NemotronView {
                        loaded: old(self)@.loaded,
                        next_id: old(self)@.next_id,
                        ..fresh_engine::<T>(read->Ok_0)
                    })
                    &&& start == if old(self)@.loaded {
                        SessionStart::ResetModel
                    } else {
                        SessionStart::LoadModel
                    }
                },
                Err(e) => {
                    &&& e is Fatal
                    &&& parse_error(read) == Some(e->Fatal_0@)
                    &&& *final(self) == *old(self)
                },
            },
    {
        let config = match NemotronConfig::parse(read) {
            Ok(c) => c,
            Err(e) => return Err(EngineError::Fatal(e)),
        };
        let chunk_size: usize = settings::chunk_ms_to_samples(config.chunk_ms);
        self.decoder = ChunkDecoder::new(
            chunk_size,
            config.punctuation_reset,
            config.empty_reset_threshold,
        );
        self.config = config;
        self.in_speech = false;
        self.ending = false;
        if self.model_loaded {
            Ok(SessionStart::ResetModel)
        } else {
            Ok(SessionStart::LoadModel)
        }
    }

    /// The model has been loaded.
    pub fn model_ready(&mut self)
        requires
            old(self).wf(),
        ensures
            final(self).wf(),
            final(self)@ == (NemotronView { loaded: true, ..old(self)@ }),
    {
        self.model_loaded = true;
    }

    /// Samples in a chunk.
    pub fn chunk_size(&self) -> (r: usize)
        ensures
            r == self@.d.chunk_size,
    {
        self.decoder.chunk_size()
    }

    /// Samples buffered.
    pub fn buffered(&self) -> (r: usize)
        ensures
            r == self@.d.buffer.len(),
    {
        self.decoder.buffered()
    }

    pub fn chunk_ms(&self) -> (r: usize)
        ensures
            r == self@.chunk_ms,
    {
        self.config.chunk_ms
    }

    pub fn on_speech_start(&mut self)
        requires
            old(self).wf(),
        ensures
            final(self).wf(),
            final(self)@ == (NemotronView {
                in_speech: true,
                d: DecoderView {
                    consecutive_empty: 0,
                    replay: Seq::empty(),
                    ..old(self)@.d
                },
                ..old(self)@
            }),
    {
        self.in_speech = true;
        self.decoder.speech_start();
    }

    fn conclude(&mut self, step: Step<T>, Ghost(t): Ghost<Turn<T>>) -> (r: Step<T>)
        requires
            old(self).decoder.wf(),
            old(self).decoder@.chunk_size > 0,
            old(self).decoder@ == t.d,
            old(self).ids@ == t.next_id,
            decoder::actions_view(step.actions@) == t.actions,
            decoder::request_view(step.request) == t.request,
            t.request is None <==> t.d.pass is Idle,
        ensures
            final(self).wf(),
            final(self).config() == old(self).config(),
            ({
                let c = concluded(old(self)@, t);
                &&& final(self)@ == c.e
                &&& decoder::actions_view(r.actions@) == c.actions
                &&& decoder::request_view(r.request) == c.request
            }),
    {
        let mut r = step;
        if r.request.is_some() && !self.model_loaded {
            self.decoder.abandon();
            r.request = None;
        }
        if r.request.is_none() && self.ending {
            self.ending = false;
            self.decoder.model_restarted();
            if self.model_loaded {
                let ghost before = r.actions@;
                r.actions.push(DecoderAction::ResetModel);
                assert(decoder::actions_view(r.actions@) =~= decoder::actions_view(before).push(
                    ActionView::ResetModel,
                ));
            }
        }
        r
    }

    fn drain(&mut self) -> (step: Step<T>)
        requires
            old(self).decoder.wf(),
            old(self).decoder@.chunk_size > 0,
            old(self).decoder@.pass is Idle,
        ensures
            final(self).wf(),
            final(self).config() == old(self).config(),
            ({
                let c = draining(old(self)@);
                &&& final(self)@ == c.e
                &&& decoder::actions_view(step.actions@) == c.actions
                &&& decoder::request_view(step.request) == c.request
            }),
    {
        let ghost t = decoder::started(self.decoder@, self.ids@, self.in_speech);
        let step = self.decoder.start_pass(self.in_speech);
        self.conclude(step, Ghost(t))
    }

    /// Speech-gated audio at any granularity.
    pub fn feed(&mut self, samples: &[T]) -> (step: Step<T>)
        requires
            old(self).wf(),
            old(self)@.d.pass is Idle,
        ensures
            final(self).wf(),
            final(self).config() == old(self).config(),
            ({
                let c = fed(old(self)@, samples@);
                &&& final(self)@ == c.e
                &&& decoder::actions_view(step.actions@) == c.actions
                &&& decoder::request_view(step.request) == c.request
            }),
    {
        self.decoder.push_audio(samples);
        self.drain()
    }

    /// The segment is closed. The padded tail isn't speech for the stuck-decoder
    /// heuristic: empties here are expected and must not trigger a replay.
    pub fn on_speech_end(&mut self, fill: T) -> (step: Step<T>)
        requires
            old(self).wf(),
            old(self)@.d.pass is Idle,
            old(self)@.d.buffer.len() + old(self)@.d.chunk_size <= usize::MAX,
        ensures
            final(self).wf(),
            final(self).config() == old(self).config(),
            ({
                let c = closed_segment(old(self)@, fill);
                &&& final(self)@ == c.e
                &&& decoder::actions_view(step.actions@) == c.actions
                &&& decoder::request_view(step.request) == c.request
            }),
    {
        self.in_speech = false;
        self.ending = true;
        self.decoder.pad(fill);
        self.drain()
    }

    /// Takes what the model made of the chunk that the last step asked for.
    pub fn resume(&mut self, result: ChunkResult) -> (step: Step<T>)
        requires
            old(self).wf(),
            !(old(self)@.d.pass is Idle),
        ensures
            final(self).wf(),
            final(self).config() == old(self).config(),
            ({
                let c = concluded(
                    old(self)@,
                    decoder::resumed(old(self)@.d, old(self)@.next_id, result),
                );
                &&& final(self)@ == c.e
                &&& decoder::actions_view(step.actions@) == c.actions
                &&& decoder::request_view(step.request) == c.request
            }),
    {
        let ghost t = decoder::resumed(self.decoder@, self.ids@, result);
        proof {
            lemma_waits_for_what_it_asks(self.decoder@, self.ids@, result);
        }
        let step = self.decoder.resume(result, &mut self.ids);
        self.conclude(step, Ghost(t))
    }

    /// Applies what can change in the middle of a session; the rest takes effect
    /// with the next one. An invalid config is ignored.
    pub fn update_config(&mut self, read: Result<NemotronConfig, String>) -> (r: Result<(), String>)
        requires
            old(self).wf(),
        ensures
            final(self).wf(),
            match r {
                Ok(_) => {
                    let c = read->Ok_0;
                    &&& parse_error(read) is None
                    &&& final(self)@ == (NemotronView {
                        d: DecoderView {
                            punctuation_reset: c.punctuation_reset,
                            empty_reset_threshold: c.empty_reset_threshold,
                            replay_capacity: c.empty_reset_threshold as usize,
                            replay: samples::newest(
                                old(self)@.d.replay,
                                (c.empty_reset_threshold as usize) as nat,
                            ),
                            ..old(self)@.d
                        },
                        ..old(self)@
                    })
                    &&& final(self).config() == (NemotronConfig {
                        punctuation_reset: c.punctuation_reset,
                        empty_reset_threshold: c.empty_reset_threshold,
                        ..old(self).config()
                    })
                },
                Err(e) => parse_error(read) == Some(e@) && *final(self) == *old(self),
            },
    {
        let c = match NemotronConfig::parse(read) {
            Ok(c) => c,
            Err(e) => return Err(e),
        };
        self.config.punctuation_reset = c.punctuation_reset;
        self.config.empty_reset_threshold = c.empty_reset_threshold;
        self.decoder.update_settings(c.punctuation_reset, c.empty_reset_threshold);
        Ok(())
    }

    /// Audio short of a chunk is dropped; the model stays loaded for the next
    /// session. There is nothing left to emit.
    pub fn end_session(&mut self) -> (r: Vec<SegmentUpdate>)
        requires
            old(self).wf(),
            old(self)@.d.pass is Idle,
        ensures
            final(self).wf(),
            final(self).config() == old(self).config(),
            final(self)@ == (NemotronView {
                in_speech: false,
                d: DecoderView {
                    buffer: Seq::empty(),
                    replay: Seq::empty(),
                    ..old(self)@.d
                },
                ..old(self)@
            }),
            r@.len() == 0,
    {
        self.decoder.discard_audio();
        self.in_speech = false;
        Vec::new()
    }
}

/// What is still to be run is a whole number of chunks.
pub open spec fn aligned<T>(d: DecoderView<T>) -> bool {
    &&& d.chunk_size > 0
    &&& 0 <= d.consumed <= d.buffer.len()
    &&& (d.buffer.len() - d.consumed) % (d.chunk_size as int) == 0
}

/// After a result, the decoder is in the middle of a pass exactly if it asks for
/// another chunk. Whole chunks are run to the last sample.
pub proof fn lemma_waits_for_what_it_asks<T>(d: DecoderView<T>, next_id: u64, result: ChunkResult)
    requires
        !(d.pass is Idle),
    ensures
        ({
            let t = decoder::resumed(d, next_id, result);
            &&& t.request is None <==> t.d.pass is Idle
            &&& t.d.chunk_size == d.chunk_size
            &&& aligned(d) ==> aligned(t.d)
            &&& aligned(d) && t.request is None ==> t.d.buffer.len() == 0
        }),
{
    let t = Turn { d, next_id, actions: Seq::empty(), request: None };
    match d.pass {
        PassView::Live { speech } => match result.text {
            Ok(text) => {
                let counted = Turn {
                    d: DecoderView {
                        chunk_num: decoder::bump(d.chunk_num),
                        consecutive_empty: if text@.len() == 0 && speech {
                            decoder::bump32(d.consecutive_empty)
                        } else {
                            0
                        },
                        ..d
                    },
                    ..t
                };
                let noted = decoder::logged(
                    counted,
                    text@,
                    result.inference_ms,
                    result.uptime_ms,
                    speech,
                    ChunkSource::Live,
                );
                let ready = decoder::emitting(
                    decoder::punctuated(noted, text@, result.uptime_ms),
                    text@,
                );
                lemma_settled_asks(ready, speech);
                let replay = Turn {
                    d: DecoderView {
                        pass: PassView::Replaying {
                            speech,
                            queue: ready.d.replay,
                            uptime_ms: result.uptime_ms,
                            consecutive_empty: ready.d.consecutive_empty,
                            chunks_since_reset: ready.d.chunks_since_reset,
                            replay_chunks: ready.d.replay.len() as u64,
                            nonempty: 0,
                            inference_ms: 0,
                        },
                        ..decoder::restarted(ready.d)
                    },
                    actions: ready.actions.push(ActionView::ResetModel),
                    ..ready
                };
                lemma_replaying_asks(replay);
            },
            Err(message) => {
                lemma_settled_asks(
                    decoder::failed(
                        t,
                        message@,
                        result.inference_ms,
                        result.uptime_ms,
                        speech,
                        ChunkSource::Live,
                    ),
                    speech,
                );
            },
        },
        PassView::Replaying {
            speech,
            queue,
            uptime_ms,
            consecutive_empty,
            chunks_since_reset,
            replay_chunks,
            nonempty,
            inference_ms,
        } => match result.text {
            Ok(text) => {
                let counted = Turn {
                    d: DecoderView {
                        chunk_num: decoder::bump(t.d.chunk_num),
                        pass: PassView::Replaying {
                            speech,
                            queue,
                            uptime_ms,
                            consecutive_empty,
                            chunks_since_reset,
                            replay_chunks,
                            nonempty: if text@.len() == 0 {
                                nonempty
                            } else {
                                decoder::bump(nonempty)
                            },
                            inference_ms: decoder::capped_sum(inference_ms, result.inference_ms),
                        },
                        ..t.d
                    },
                    ..t
                };
                lemma_replaying_asks(
                    decoder::emitting(
                        decoder::logged(
                            counted,
                            text@,
                            result.inference_ms,
                            result.uptime_ms,
                            true,
                            ChunkSource::Replay,
                        ),
                        text@,
                    ),
                );
            },
            Err(message) => {
                lemma_replaying_asks(
                    decoder::failed(
                        t,
                        message@,
                        result.inference_ms,
                        result.uptime_ms,
                        true,
                        ChunkSource::Replay,
                    ),
                );
            },
        },
        PassView::Idle => {},
    }
}

proof fn lemma_settled_asks<T>(t: Turn<T>, speech: bool)
    requires
        t.request is None,
    ensures
        ({
            let after = decoder::settled(t, speech);
            &&& after.request is None <==> after.d.pass is Idle
            &&& after.d.chunk_size == t.d.chunk_size
            &&& aligned(t.d) ==> aligned(after.d)
            &&& aligned(t.d) && after.request is None ==> after.d.buffer.len() == 0
        }),
    decreases t.d.ends.len(),
{
    let d = t.d;
    if d.ends.len() > 0 && d.consumed >= d.ends[0].reset_after_samples {
        lemma_settled_asks(
            Turn {
                d: DecoderView { ends: d.ends.drop_first(), ..decoder::restarted(d) },
                actions: t.actions.push(
                    ActionView::LogSpeechEnd {
                        end: d.ends[0],
                        consecutive_empty: d.consecutive_empty,
                        chunks_since_reset: d.chunks_since_reset,
                    },
                ).push(ActionView::ResetModel),
                ..t
            },
            speech,
        );
    } else {
        lemma_asking_keeps_alignment(t, speech);
    }
}

pub proof fn lemma_asking_keeps_alignment<T>(t: Turn<T>, speech: bool)
    requires
        t.request is None,
    ensures
        ({
            let after = decoder::asking(t, speech);
            &&& aligned(t.d) ==> aligned(after.d)
            &&& aligned(t.d) && after.request is None ==> after.d.buffer.len() == 0
        }),
{
    if aligned(t.d) {
        let left = t.d.buffer.len() - t.d.consumed;
        let n = t.d.chunk_size as int;
        if left >= n {
            vstd::arithmetic::div_mod::lemma_mod_sub_multiples_vanish(left, n);
        } else {
            vstd::arithmetic::div_mod::lemma_small_mod(left as nat, n as nat);
            vstd::arithmetic::div_mod::lemma_small_mod(0, n as nat);
        }
    }
}

proof fn lemma_replaying_asks<T>(t: Turn<T>)
    requires
        t.request is None,
        t.d.pass is Replaying,
    ensures
        ({
            let after = decoder::replaying(t);
            &&& after.request is None <==> after.d.pass is Idle
            &&& after.d.chunk_size == t.d.chunk_size
            &&& aligned(t.d) ==> aligned(after.d)
            &&& aligned(t.d) && after.request is None ==> after.d.buffer.len() == 0
        }),
{
    match t.d.pass {
        PassView::Replaying {
            speech,
            queue,
            uptime_ms,
            consecutive_empty,
            chunks_since_reset,
            replay_chunks,
            nonempty,
            inference_ms,
        } => {
            lemma_settled_asks(
                Turn {
                    actions: t.actions.push(
                        ActionView::LogMidSpeechReset {
                            uptime_ms,
                            consecutive_empty,
                            chunks_since_reset,
                            replay_chunks,
                            replay_nonempty_chunks: nonempty,
                            replay_inference_ms: inference_ms,
                        },
                    ),
                    ..t
                },
                speech,
            );
        },
        _ => {},
    }
}

/// A segment as an engine reports it.
pub open spec fn segment_view(u: UpdateView) -> SegmentView {
    SegmentView { segment_id: u.segment_id, text: u.text, is_final: u.is_final }
}

/// The segment that a step emits.
pub fn segment(update: TranscriptUpdate) -> (r: SegmentUpdate)
    ensures
        r@ == segment_view(update@),
{
    SegmentUpdate { segment_id: update.segment_id, text: update.text, is_final: update.is_final }
}

// ---------------------------------------------------------------------------
// Diagnostics
// ---------------------------------------------------------------------------

pub const INSERT_TRANSCRIBE: &'static str = "INSERT INTO events (session_id, uptime_ms, event_type, chunk_num, inference_ms, asr_buf_len, text_empty, text_preview, vad_state, chunk_source) VALUES (?1, ?2, 'transcribe', ?3, ?4, ?5, ?6, ?7, ?8, ?9)";

pub const INSERT_ASR_ERROR: &'static str = "INSERT INTO events (session_id, uptime_ms, event_type, chunk_num, inference_ms, error_msg, vad_state, chunk_source) VALUES (?1, ?2, 'asr_error', ?3, ?4, ?5, ?6, ?7)";

pub const INSERT_PUNCTUATION_RESET: &'static str = "INSERT INTO vad_events (session_id, uptime_ms, event_type, consecutive_empty, chunks_since_decoder_reset, audio_ms_since_decoder_reset) VALUES (?1, ?2, 'punctuation_reset', ?3, ?4, ?5)";

pub const INSERT_MID_SPEECH_RESET: &'static str = "INSERT INTO vad_events (session_id, uptime_ms, event_type, consecutive_empty, chunks_since_decoder_reset, audio_ms_since_decoder_reset, replay_chunks, replay_audio_ms, replay_nonempty_chunks, replay_inference_ms) VALUES (?1, ?2, 'mid_speech_reset', ?3, ?4, ?5, ?6, ?7, ?8, ?9)";

pub open spec fn vad_label(speech: bool) -> Seq<char> {
    if speech {
        "speech"@
    } else {
        "silence"@
    }
}

pub open spec fn source_label(source: ChunkSource) -> Seq<char> {
    match source {
        ChunkSource::Live => "live"@,
        ChunkSource::Replay => "replay"@,
    }
}

pub fn vad_text(speech: bool) -> (r: &'static str)
    ensures
        r@ == vad_label(speech),
{
    if speech {
        "speech"
    } else {
        "silence"
    }
}

pub fn source_text(source: ChunkSource) -> (r: &'static str)
    ensures
        r@ == source_label(source),
{
    match source {
        ChunkSource::Live => "live",
        ChunkSource::Replay => "replay",
    }
}

/// The row that a step's action asks for; none for an action that logs nothing here.
pub open spec fn row_of(sink: DiagSink, uptime_ms: i64, chunk_ms: usize, action: ActionView) -> Option<
    StatementView,
> {
    match action {
        ActionView::LogTranscribe {
            chunk_num,
            inference_ms,
            buffered,
            is_empty,
            preview,
            speech,
            source,
            ..
        } => Some(
            StatementView {
                sql: INSERT_TRANSCRIBE@,
                values: sink.row_values(
                    uptime_ms,
                    seq![
                        SqlView::Integer(diag::signed(chunk_num)),
                        SqlView::Integer(diag::signed(inference_ms)),
                        SqlView::Integer(diag::signed(buffered as u64)),
                        SqlView::Integer(
                            if is_empty {
                                1
                            } else {
                                0
                            },
                        ),
                        SqlView::Text(preview),
                        SqlView::Text(vad_label(speech)),
                        SqlView::Text(source_label(source)),
                    ],
                ),
            },
        ),
        ActionView::LogError { chunk_num, inference_ms, message, speech, source, .. } => Some(
            StatementView {
                sql: INSERT_ASR_ERROR@,
                values: sink.row_values(
                    uptime_ms,
                    seq![
                        SqlView::Integer(diag::signed(chunk_num)),
                        SqlView::Integer(diag::signed(inference_ms)),
                        SqlView::Text(message),
                        SqlView::Text(vad_label(speech)),
                        SqlView::Text(source_label(source)),
                    ],
                ),
            },
        ),
        ActionView::LogPunctuationReset { consecutive_empty, chunks_since_reset, .. } => Some(
            StatementView {
                sql: INSERT_PUNCTUATION_RESET@,
                values: sink.row_values(
                    uptime_ms,
                    seq![
                        SqlView::Integer(consecutive_empty as int),
                        SqlView::Integer(diag::signed(chunks_since_reset)),
                        SqlView::Integer(diag::audio_ms_of(chunks_since_reset, chunk_ms)),
                    ],
                ),
            },
        ),
        ActionView::LogMidSpeechReset {
            consecutive_empty,
            chunks_since_reset,
            replay_chunks,
            replay_nonempty_chunks,
            replay_inference_ms,
            ..
        } => Some(
            StatementView {
                sql: INSERT_MID_SPEECH_RESET@,
                values: sink.row_values(
                    uptime_ms,
                    seq![
                        SqlView::Integer(consecutive_empty as int),
                        SqlView::Integer(diag::signed(chunks_since_reset)),
                        SqlView::Integer(diag::audio_ms_of(chunks_since_reset, chunk_ms)),
                        SqlView::Integer(diag::signed(replay_chunks)),
                        SqlView::Integer(diag::audio_ms_of(replay_chunks, chunk_ms)),
                        SqlView::Integer(diag::signed(replay_nonempty_chunks)),
                        SqlView::Integer(diag::signed(replay_inference_ms)),
                    ],
                ),
            },
        ),
        _ => None,
    }
}

/// The row for an action of a step, where the sink is live and the action logs.
pub fn row(sink: &DiagSink, enabled: bool, uptime_ms: i64, chunk_ms: usize, action: &DecoderAction) -> (s:
    Option<Statement>)
    ensures
        diag::statement_view(s) == if enabled && sink.session_id is Some {
            row_of(*sink, uptime_ms, chunk_ms, action@)
        } else {
            None
        },
{
    let ghost expected = row_of(*sink, uptime_ms, chunk_ms, action@);
    match action {
        DecoderAction::LogTranscribe {
            chunk_num,
            inference_ms,
            buffered,
            is_empty,
            preview,
            speech,
            source,
            ..
        } => match sink.row(enabled, INSERT_TRANSCRIBE, uptime_ms) {
            Some(row) => {
                let s = row.count(*chunk_num).count(*inference_ms).count(*buffered as u64).flag(
                    *is_empty,
                ).text(preview.as_str()).text(vad_text(*speech)).text(source_text(*source));
                assert(s@.values =~= expected->Some_0.values);
                Some(s)
            },
            None => None,
        },
        DecoderAction::LogError { chunk_num, inference_ms, message, speech, source, .. } => {
            match sink.row(enabled, INSERT_ASR_ERROR, uptime_ms) {
                Some(row) => {
                    let s = row.count(*chunk_num).count(*inference_ms).text(message.as_str()).text(
                        vad_text(*speech),
                    ).text(source_text(*source));
                    assert(s@.values =~= expected->Some_0.values);
                    Some(s)
                },
                None => None,
            }
        },
        DecoderAction::LogPunctuationReset { consecutive_empty, chunks_since_reset, .. } => {
            match sink.row(enabled, INSERT_PUNCTUATION_RESET, uptime_ms) {
                Some(row) => {
                    let s = row.integer(*consecutive_empty as i64).count(
                        *chunks_since_reset,
                    ).integer(diag::chunks_to_audio_ms(*chunks_since_reset, chunk_ms));
                    assert(s@.values =~= expected->Some_0.values);
                    Some(s)
                },
                None => None,
            }
        },
        DecoderAction::LogMidSpeechReset {
            consecutive_empty,
            chunks_since_reset,
            replay_chunks,
            replay_nonempty_chunks,
            replay_inference_ms,
            ..
        } => match sink.row(enabled, INSERT_MID_SPEECH_RESET, uptime_ms) {
            Some(row) => {
                let s = row.integer(*consecutive_empty as i64).count(*chunks_since_reset).integer(
                    diag::chunks_to_audio_ms(*chunks_since_reset, chunk_ms),
                ).count(*replay_chunks).integer(
                    diag::chunks_to_audio_ms(*replay_chunks, chunk_ms),
                ).count(*replay_nonempty_chunks).count(*replay_inference_ms);
                assert(s@.values =~= expected->Some_0.values);
                Some(s)
            },
            None => None,
        },
        _ => None,
    }
}

// ---------------------------------------------------------------------------
// Laws
// ---------------------------------------------------------------------------

/// Configs that differ only in what can change live need the same engine: the chunk
/// size and the reset knobs play no part in its identity, the model path and the
/// thread counts do.
pub proof fn law_identity_ignores_live_fields(
    a: NemotronConfig,
    b: NemotronConfig,
    home: Option<Seq<char>>,
    i: CacheIdentity,
)
    requires
        is_identity_of(i, a, home),
    ensures
        b.model_path@ == a.model_path@ && b.intra_threads == a.intra_threads && b.inter_threads
            == a.inter_threads ==> is_identity_of(i, b, home),
        is_identity_of(i, b, home) ==> b.intra_threads == a.intra_threads && b.inter_threads
            == a.inter_threads && paths::expanded(b.model_path@, home) == paths::expanded(
            a.model_path@,
            home,
        ),
{
}

/// A closed segment is run to its last sample: filling it up leaves whole chunks, and
/// every result leaves whole chunks; behind the last one nothing is left of the
/// segment, neither audio nor chunks to replay nor counts, and the model starts over.
pub proof fn law_closed_segment_is_run_to_its_end<T>(e: NemotronView<T>, fill: T, result: ChunkResult)
    requires
        e.d.chunk_size > 0,
        e.loaded,
    ensures
        e.d.pass is Idle && e.d.consumed == 0 ==> {
            let c = closed_segment(e, fill);
            &&& aligned(c.e.d)
            &&& c.request is None ==> nothing_left(c)
            &&& c.request is Some ==> c.e.ending
        },
        !(e.d.pass is Idle) && e.ending && aligned(e.d) ==> {
            let c = concluded(e, decoder::resumed(e.d, e.next_id, result));
            &&& aligned(c.e.d)
            &&& c.request is None ==> nothing_left(c)
            &&& c.request is Some ==> c.e.ending
        },
{
    if e.d.pass is Idle && e.d.consumed == 0 {
        let n = e.d.chunk_size as int;
        let buffer = samples::padded(e.d.buffer, e.d.chunk_size as nat, fill);
        samples::law_padding_reaches_a_boundary(e.d.buffer, e.d.chunk_size as nat, fill);
        vstd::arithmetic::div_mod::lemma_small_mod(0, n as nat);
        let d = DecoderView { buffer, ..e.d };
        assert(aligned(d));
        lemma_asking_keeps_alignment(
            Turn { d, next_id: e.next_id, actions: Seq::empty(), request: None },
            false,
        );
    }
    if !(e.d.pass is Idle) {
        lemma_waits_for_what_it_asks(e.d, e.next_id, result);
    }
}

/// What is left behind the last chunk of a closed segment.
pub open spec fn nothing_left<T>(c: NemotronTurn<T>) -> bool {
    &&& c.e.d.buffer.len() == 0
    &&& c.e.d.replay.len() == 0
    &&& c.e.d.consecutive_empty == 0
    &&& c.e.d.chunks_since_reset == 0
    &&& !c.e.ending
    &&& c.actions.len() > 0 && c.actions.last() == ActionView::ResetModel
}

} // verus!
