//! What holds of every run of the Nemotron engine, and of its config.

use vstd::prelude::*;

use super::nemotron;
use super::nemotron::NemotronConfig;
use super::nemotron::NemotronTurn;
use super::nemotron::NemotronView;
use super::registry::FieldTypeView;
use crate::asr::UpdateView;
use crate::decoder;
use crate::decoder::ActionView;
use crate::decoder::ChunkResult;
use crate::decoder::DecoderView;
use crate::decoder::PassView;
use crate::decoder::Turn;
use crate::decoder_laws;
use crate::json::JsonView;
use crate::samples;
use crate::settings;
use crate::text;

verus! {

// ---------------------------------------------------------------------------
// An engine as its owner sees it
// ---------------------------------------------------------------------------

/// Something that an engine is told.
pub enum Input<T> {
    SpeechStart,
    Feed(Seq<T>),
    SpeechEnd { fill: T },
    Result(ChunkResult),
}

/// An engine so far, as its owner sees it.
#[verifier::ext_equal]
pub struct Story<T> {
    pub e: NemotronView<T>,
    /// All audio fed, with the fill behind each closed segment.
    pub audio: Seq<T>,
    /// The live chunks that were asked for.
    pub ran: Seq<Seq<T>>,
    /// What the model said to each chunk, replayed ones included.
    pub said: Seq<Seq<char>>,
    pub emitted: Seq<UpdateView>,
    /// How many segments were closed, and how many of them are run to their end.
    pub closed: nat,
    pub settled: nat,
}

pub open spec fn opening<T>(c: NemotronConfig, next_id: u64) -> Story<T> {
    Story {
        e: NemotronView { loaded: true, next_id, ..nemotron::fresh_engine(c) },
        audio: Seq::empty(),
        ran: Seq::empty(),
        said: Seq::empty(),
        emitted: Seq::empty(),
        closed: 0,
        settled: 0,
    }
}

/// The engine can be told this now.
pub open spec fn fits<T>(e: NemotronView<T>, input: Input<T>) -> bool {
    match input {
        Input::SpeechStart => e.d.pass is Idle,
        Input::Result(_) => !(e.d.pass is Idle),
        _ => e.d.pass is Idle,
    }
}

/// What a step does.
pub open spec fn noted<T>(st: Story<T>, c: NemotronTurn<T>) -> Story<T> {
    Story {
        e: c.e,
        ran: if c.e.d.pass is Live {
            st.ran.push(c.request->0)
        } else {
            st.ran
        },
        emitted: st.emitted + decoder_laws::emitted(c.actions),
        settled: if c.request is None && st.settled < st.closed {
            st.settled + 1
        } else {
            st.settled
        },
        ..st
    }
}

pub open spec fn told<T>(st: Story<T>, input: Input<T>) -> Story<T> {
    if !fits(st.e, input) {
        st
    } else {
        match input {
            Input::SpeechStart => Story {
                e: NemotronView { in_speech: true, d: decoder::speech_started(st.e.d), ..st.e },
                ..st
            },
            Input::Feed(samples) => noted(
                Story { audio: st.audio + samples, ..st },
                nemotron::fed(st.e, samples),
            ),
            Input::SpeechEnd { fill } => {
                let buffer = samples::padded(st.e.d.buffer, st.e.d.chunk_size as nat, fill);
                noted(
                    Story {
                        audio: st.audio + buffer.skip(st.e.d.buffer.len() as int),
                        closed: st.closed + 1,
                        ..st
                    },
                    nemotron::closed_segment(st.e, fill),
                )
            },
            Input::Result(result) => noted(
                Story { said: st.said.push(decoder_laws::heard_in(result)), ..st },
                nemotron::concluded(
                    st.e,
                    decoder::resumed(st.e.d, st.e.next_id, result),
                ),
            ),
        }
    }
}

pub open spec fn told_all<T>(st: Story<T>, inputs: Seq<Input<T>>) -> Story<T>
    decreases inputs.len(),
{
    if inputs.len() == 0 {
        st
    } else {
        told(told_all(st, inputs.drop_last()), inputs.last())
    }
}

// ---------------------------------------------------------------------------
// What the engine keeps of it
// ---------------------------------------------------------------------------

spec fn kept<T>(first_id: u64, st: Story<T>) -> bool {
    let d = st.e.d;
    &&& st.e.loaded
    &&& decoder_laws::sound(d)
    &&& d.chunk_size == 16 * st.e.chunk_ms
    &&& forall|i: int| 0 <= i < st.ran.len() ==> (#[trigger] st.ran[i]).len() == d.chunk_size
    &&& samples::in_a_row(st.ran) + d.buffer.skip(d.consumed) == st.audio
    &&& d.pass is Idle ==> d.buffer.len() < d.chunk_size
    &&& st.emitted == decoder_laws::transcript(first_id, st.said)
    &&& st.e.next_id == decoder_laws::id_behind(first_id, st.said)
    &&& st.e.ending == (st.settled < st.closed)
    &&& st.settled <= st.closed <= st.settled + 1
    &&& d.pass is Idle ==> !st.e.ending
    &&& st.e.ending ==> (d.pass == (PassView::<T>::Live { speech: false })) && nemotron::aligned(d)
        && !st.e.in_speech
    &&& d.pass is Live ==> over_speech(d.pass) == st.e.in_speech
    &&& d.pass is Replaying ==> st.e.in_speech && over_speech(d.pass)
    &&& d.ends.len() == 0
}

spec fn over_speech<T>(pass: PassView<T>) -> bool {
    match pass {
        PassView::Idle => false,
        PassView::Live { speech } => speech,
        PassView::Replaying { speech, .. } => speech,
    }
}

proof fn lemma_row_push<T>(frames: Seq<Seq<T>>, frame: Seq<T>)
    ensures
        samples::in_a_row(frames.push(frame)) == samples::in_a_row(frames) + frame,
{
    assert(frames.push(frame).drop_last() =~= frames);
}

/// A step of the decoder leaves all audio either run or in the buffer.
proof fn lemma_audio_kept<T>(d: DecoderView<T>, t: Turn<T>, ran: Seq<Seq<T>>, audio: Seq<T>)
    requires
        decoder_laws::goes_on(d, t),
        d.chunk_size > 0,
        0 <= d.consumed <= d.buffer.len(),
        samples::in_a_row(ran) + d.buffer.skip(d.consumed) == audio,
    ensures
        ({
            let now = if t.d.pass is Live {
                ran.push(t.request->0)
            } else {
                ran
            };
            samples::in_a_row(now) + t.d.buffer.skip(t.d.consumed) == audio
        }),
{
    let n = d.chunk_size as int;
    match t.d.pass {
        PassView::Live { .. } => {
            lemma_row_push(ran, t.request->0);
            let rest = d.buffer.skip(d.consumed);
            assert(d.buffer.subrange(d.consumed, d.consumed + n) + d.buffer.skip(d.consumed + n)
                =~= rest);
            assert(samples::in_a_row(ran) + d.buffer.subrange(d.consumed, d.consumed + n)
                + d.buffer.skip(d.consumed + n) =~= samples::in_a_row(ran) + rest);
        },
        PassView::Replaying { .. } => {},
        PassView::Idle => {
            assert(t.d.buffer.skip(0) =~= t.d.buffer);
        },
    }
}

/// A step keeps the speech state of its pass, and no end is pending.
proof fn lemma_pass_kept<T>(d: DecoderView<T>, next_id: u64, result: ChunkResult)
    requires
        !(d.pass is Idle),
        d.ends.len() == 0,
    ensures
        ({
            let t = decoder::resumed(d, next_id, result);
            &&& t.d.ends.len() == 0
            &&& !(t.d.pass is Idle) ==> over_speech(t.d.pass) == over_speech(d.pass)
            &&& d.pass is Live && !over_speech(d.pass) ==> !(t.d.pass is Replaying)
        }),
{
}

proof fn lemma_concluded_kept<T>(
    first_id: u64,
    st: Story<T>,
    d: DecoderView<T>,
    t: Turn<T>,
    said: Seq<Seq<char>>,
)
    requires
        st.e.loaded,
        decoder_laws::goes_on(d, t),
        decoder_laws::sound(t.d),
        d.chunk_size > 0,
        d.chunk_size == 16 * st.e.chunk_ms,
        forall|i: int| 0 <= i < st.ran.len() ==> (#[trigger] st.ran[i]).len() == d.chunk_size,
        0 <= d.consumed <= d.buffer.len(),
        samples::in_a_row(st.ran) + d.buffer.skip(d.consumed) == st.audio,
        st.emitted + decoder_laws::emitted(t.actions) == decoder_laws::transcript(first_id, said),
        t.next_id == decoder_laws::id_behind(first_id, said),
        st.said == said,
        st.e.ending == (st.settled < st.closed),
        st.settled <= st.closed <= st.settled + 1,
        st.e.ending ==> !st.e.in_speech && nemotron::aligned(t.d) && !(t.d.pass is Replaying),
        t.d.ends.len() == 0,
        t.d.pass is Live ==> over_speech(t.d.pass) == st.e.in_speech,
        t.d.pass is Replaying ==> st.e.in_speech && over_speech(t.d.pass),
    ensures
        kept(first_id, noted(st, nemotron::concluded(st.e, t))),
{
    let c = nemotron::concluded(st.e, t);
    let after = noted(st, c);
    lemma_audio_kept(d, t, st.ran, st.audio);
    assert(c.request == t.request);
    if t.request is None && st.e.ending {
        assert(t.actions.push(ActionView::ResetModel).drop_last() =~= t.actions);
        assert(decoder_laws::emitted(c.actions) == decoder_laws::emitted(t.actions));
    }
}

proof fn lemma_begun_kept<T>(
    first_id: u64,
    st: Story<T>,
    e: NemotronView<T>,
    audio: Seq<T>,
    closed: nat,
)
    requires
        kept(first_id, st),
        st.e.d.pass is Idle,
        e == (NemotronView { d: e.d, in_speech: e.in_speech, ending: e.ending, ..st.e }),
        e.d == (DecoderView { buffer: e.d.buffer, ..st.e.d }),
        samples::in_a_row(st.ran) + e.d.buffer == audio,
        e.ending == (st.settled < closed),
        st.settled <= closed <= st.settled + 1,
        e.ending ==> !e.in_speech && e.d.buffer.len() as int % (e.d.chunk_size as int) == 0,
    ensures
        kept(first_id, noted(Story { audio, closed, ..st }, nemotron::draining(e))),
{
    let t = decoder::started(e.d, e.next_id, e.in_speech);
    decoder_laws::law_pass_starts_at_the_front(e.d, e.next_id, e.in_speech);
    let start = Turn {
        d: e.d,
        next_id: e.next_id,
        actions: Seq::<ActionView>::empty(),
        request: None::<Seq<T>>,
    };
    assert(e.d.buffer.skip(0) =~= e.d.buffer);
    assert(decoder_laws::emitted(t.actions) == Seq::<UpdateView>::empty());
    assert(st.emitted + decoder_laws::emitted(t.actions) =~= st.emitted);
    if e.ending {
        nemotron::lemma_asking_keeps_alignment(start, e.in_speech);
    }
    lemma_concluded_kept(first_id, Story { e, audio, closed, ..st }, e.d, t, st.said);
    assert(noted(Story { e, audio, closed, ..st }, nemotron::concluded(e, t)) == noted(
        Story { audio, closed, ..st },
        nemotron::draining(e),
    ));
}

proof fn lemma_told_kept<T>(first_id: u64, st: Story<T>, input: Input<T>)
    requires
        kept(first_id, st),
    ensures
        kept(first_id, told(st, input)),
{
    if fits(st.e, input) {
        let d = st.e.d;
        match input {
            Input::SpeechStart => {},
            Input::Feed(samples) => {
                let e = NemotronView {
                    d: DecoderView { buffer: d.buffer + samples, ..d },
                    ..st.e
                };
                assert(d.buffer.skip(0) =~= d.buffer);
                assert(samples::in_a_row(st.ran) + (d.buffer + samples) =~= st.audio + samples);
                lemma_begun_kept(first_id, st, e, st.audio + samples, st.closed);
            },
            Input::SpeechEnd { fill } => {
                let n = d.chunk_size as nat;
                let buffer = samples::padded(d.buffer, n, fill);
                samples::law_padding_reaches_a_boundary(d.buffer, n, fill);
                let e = NemotronView {
                    in_speech: false,
                    ending: true,
                    d: DecoderView { buffer, ..d },
                    ..st.e
                };
                assert(d.buffer.skip(0) =~= d.buffer);
                let fills = buffer.skip(d.buffer.len() as int);
                assert(d.buffer + fills =~= buffer);
                assert(samples::in_a_row(st.ran) + buffer =~= st.audio + fills);
                lemma_begun_kept(first_id, st, e, st.audio + fills, st.closed + 1);
            },
            Input::Result(result) => {
                let t = decoder::resumed(d, st.e.next_id, result);
                decoder_laws::law_results_move_a_pass_on(d, st.e.next_id, result);
                decoder_laws::law_each_result_is_emitted_once(d, st.e.next_id, result);
                lemma_pass_kept(d, st.e.next_id, result);
                nemotron::lemma_waits_for_what_it_asks(d, st.e.next_id, result);
                let said = st.said.push(decoder_laws::heard_in(result));
                assert(said.drop_last() =~= st.said);
                assert(st.emitted + decoder_laws::emitted(t.actions)
                    =~= decoder_laws::transcript(first_id, said));
                lemma_concluded_kept(first_id, Story { said, ..st }, d, t, said);
            },
        }
    }
}

proof fn lemma_kept<T>(first_id: u64, st: Story<T>, inputs: Seq<Input<T>>)
    requires
        kept(first_id, st),
    ensures
        kept(first_id, told_all(st, inputs)),
    decreases inputs.len(),
{
    if inputs.len() > 0 {
        lemma_kept(first_id, st, inputs.drop_last());
        lemma_told_kept(first_id, told_all(st, inputs.drop_last()), inputs.last());
    }
}

proof fn lemma_opening_kept<T>(c: NemotronConfig, first_id: u64)
    requires
        nemotron::config_error(c) is None,
    ensures
        kept(first_id, opening::<T>(c, first_id)),
{
    let st = opening::<T>(c, first_id);
    assert(st.e.d.chunk_size > 0);
    assert(samples::in_a_row(st.ran) + st.e.d.buffer.skip(0) =~= st.audio);
}

proof fn lemma_same_config<T>(st: Story<T>, inputs: Seq<Input<T>>)
    ensures
        told_all(st, inputs).e.chunk_ms == st.e.chunk_ms,
    decreases inputs.len(),
{
    if inputs.len() > 0 {
        lemma_same_config(st, inputs.drop_last());
    }
}

// ---------------------------------------------------------------------------
// Laws of a run
// ---------------------------------------------------------------------------

/// Whatever an engine is told, its model gets all audio that was fed, each sample once
/// and in order, in chunks of the configured duration. What it has not got yet is less
/// than a chunk once the engine is idle; a closed segment has its fill with it.
pub proof fn law_all_audio_fed_is_run<T>(
    c: NemotronConfig,
    first_id: u64,
    inputs: Seq<Input<T>>,
    i: int,
)
    requires
        nemotron::config_error(c) is None,
    ensures
        ({
            let st = told_all(opening::<T>(c, first_id), inputs);
            let run = samples::in_a_row(st.ran);
            &&& run.len() <= st.audio.len()
            &&& run == st.audio.take(run.len() as int)
            &&& 0 <= i < st.ran.len() ==> st.ran[i].len() == 16 * c.chunk_ms
            &&& st.e.d.pass is Idle ==> st.audio.len() - run.len() < 16 * c.chunk_ms
        }),
{
    let st = told_all(opening::<T>(c, first_id), inputs);
    lemma_opening_kept::<T>(c, first_id);
    lemma_kept(first_id, opening::<T>(c, first_id), inputs);
    lemma_same_config(opening::<T>(c, first_id), inputs);
    let run = samples::in_a_row(st.ran);
    assert(run + st.e.d.buffer.skip(st.e.d.consumed) == st.audio);
    assert(run =~= st.audio.take(run.len() as int));
}

/// What the engine emits is what its model said: one finished segment per chunk with
/// text, in order, numbered upwards, and nothing else.
pub proof fn law_every_text_is_emitted_once<T>(
    c: NemotronConfig,
    first_id: u64,
    inputs: Seq<Input<T>>,
)
    requires
        nemotron::config_error(c) is None,
    ensures
        ({
            let st = told_all(opening::<T>(c, first_id), inputs);
            st.emitted == decoder_laws::transcript(first_id, st.said)
        }),
{
    lemma_opening_kept::<T>(c, first_id);
    lemma_kept(first_id, opening::<T>(c, first_id), inputs);
}

/// A closed segment is run to its end before anything else is taken: an idle engine has
/// none left to run. Nothing is replayed behind the end of a segment: its last chunks
/// are no speech.
pub proof fn law_a_closed_segment_is_run_at_once<T>(
    c: NemotronConfig,
    first_id: u64,
    inputs: Seq<Input<T>>,
)
    requires
        nemotron::config_error(c) is None,
    ensures
        ({
            let st = told_all(opening::<T>(c, first_id), inputs);
            &&& st.e.d.pass is Idle ==> st.settled == st.closed
            &&& st.settled < st.closed ==> !(st.e.d.pass is Replaying) && !st.e.in_speech
            &&& st.settled <= st.closed <= st.settled + 1
        }),
{
    lemma_opening_kept::<T>(c, first_id);
    lemma_kept(first_id, opening::<T>(c, first_id), inputs);
}

/// Without a model, nothing is run and nothing is emitted, and the engine is idle behind
/// every step.
pub proof fn law_nothing_is_run_without_a_model<T>(e: NemotronView<T>, samples: Seq<T>, fill: T)
    requires
        !e.loaded,
        e.d.pass is Idle,
        decoder_laws::sound(e.d),
    ensures
        ({
            let c = nemotron::fed(e, samples);
            &&& c.request is None && c.actions.len() == 0
            &&& c.e.d.pass is Idle && !c.e.loaded
        }),
        ({
            let c = nemotron::closed_segment(e, fill);
            &&& c.request is None && c.actions.len() == 0
            &&& c.e.d.pass is Idle && !c.e.loaded && !c.e.in_speech
        }),
{
    let buffer = e.d.buffer + samples;
    decoder_laws::law_pass_starts_at_the_front(
        DecoderView { buffer, ..e.d },
        e.next_id,
        e.in_speech,
    );
    let padded = samples::padded(e.d.buffer, e.d.chunk_size as nat, fill);
    samples::law_padding_reaches_a_boundary(e.d.buffer, e.d.chunk_size as nat, fill);
    decoder_laws::law_pass_starts_at_the_front(
        DecoderView { buffer: padded, ..e.d },
        e.next_id,
        false,
    );
}

/// An update becomes the segment of the same id and text, final if the update is.
pub proof fn law_an_update_becomes_its_segment(u: UpdateView)
    ensures
        nemotron::segment_view(u).segment_id == u.segment_id,
        nemotron::segment_view(u).text == u.text,
        nemotron::segment_view(u).is_final == u.is_final,
{
}

// ---------------------------------------------------------------------------
// Laws of a config
// ---------------------------------------------------------------------------

/// What can be wrong with a config.
pub enum Fault {
    ChunkSize,
    IntraThreads,
    InterThreads,
    Threshold,
    ModelPath,
}

pub open spec fn has_fault(c: NemotronConfig, fault: Fault) -> bool {
    match fault {
        Fault::ChunkSize => c.chunk_ms != 80 && c.chunk_ms != 160 && c.chunk_ms != 560
            && c.chunk_ms != 1120,
        Fault::IntraThreads => c.intra_threads == 0,
        Fault::InterThreads => c.inter_threads == 0,
        Fault::Threshold => c.empty_reset_threshold == 0,
        Fault::ModelPath => forall|i: int|
            0 <= i < c.model_path@.len() ==> text::is_space(#[trigger] c.model_path@[i]),
    }
}

/// How a fault is put into words.
pub open spec fn wording(c: NemotronConfig, fault: Fault) -> Seq<char> {
    match fault {
        Fault::ChunkSize => "Invalid chunk_ms "@ + text::decimal_of(c.chunk_ms as nat)
            + "; must be one of [80, 160, 560, 1120]"@,
        Fault::IntraThreads => "intra_threads must be at least 1"@,
        Fault::InterThreads => "inter_threads must be at least 1"@,
        Fault::Threshold => "empty_reset_threshold must be at least 1"@,
        Fault::ModelPath => "model_path cannot be empty"@,
    }
}

/// A config passes exactly if nothing is wrong with it. Otherwise one of its faults is
/// named; the only fault is named if there is but one.
pub proof fn law_a_config_passes_without_a_fault(c: NemotronConfig, fault: Fault)
    ensures
        nemotron::config_error(c) is None <==> (forall|f: Fault| !#[trigger] has_fault(c, f)),
        nemotron::config_error(c) is Some ==> exists|f: Fault| #[trigger]
            has_fault(c, f) && nemotron::config_error(c) == Some(wording(c, f)),
        has_fault(c, fault) && (forall|f: Fault| #[trigger] has_fault(c, f) ==> f == fault)
            ==> nemotron::config_error(c) == Some(wording(c, fault)),
{
    assert(has_fault(c, Fault::ModelPath) == text::is_blank_text(c.model_path@));
    if nemotron::config_error(c) is Some {
        let f = if has_fault(c, Fault::ChunkSize) {
            Fault::ChunkSize
        } else if has_fault(c, Fault::IntraThreads) {
            Fault::IntraThreads
        } else if has_fault(c, Fault::InterThreads) {
            Fault::InterThreads
        } else if has_fault(c, Fault::Threshold) {
            Fault::Threshold
        } else {
            Fault::ModelPath
        };
        assert(has_fault(c, f) && nemotron::config_error(c) == Some(wording(c, f)));
    } else {
        assert forall|f: Fault| !#[trigger] has_fault(c, f) by {}
    }
}

/// The default config passes.
pub proof fn law_the_default_config_passes(c: NemotronConfig)
    requires
        nemotron::is_default(c),
    ensures
        nemotron::config_error(c) is None,
{
    reveal_strlit("~/projects/prs-nemotron/");
    assert(c.model_path@[0] == '~');
    assert(!text::is_space(c.model_path@[0]));
}

/// The form for a config has one field for each entry of the config object, with the
/// entry's key and the default config's value, which its field allows.
pub proof fn law_the_form_fits_the_config(c: NemotronConfig, key: Seq<char>, i: int)
    requires
        nemotron::is_default(c),
    ensures
        ({
            let fields = nemotron::field_list();
            &&& nemotron::config_object(c).contains_key(key) <==> exists|k: int|
                0 <= k < fields.len() && (#[trigger] fields[k]).key == key
            &&& 0 <= i < fields.len() ==> {
                &&& nemotron::config_object(c)[fields[i].key] == fields[i].default
                &&& match fields[i].field {
                    FieldTypeView::Int { min, max } => min <= fields[i].default->Integer_0 <= max,
                    FieldTypeView::Enum(options) => exists|k: int|
                        0 <= k < options.len() && (#[trigger] options[k]).0 == fields[i].default,
                    _ => true,
                }
            }
        }),
{
    reveal_strlit("model_path");
    reveal_strlit("chunk_ms");
    reveal_strlit("intra_threads");
    reveal_strlit("inter_threads");
    reveal_strlit("punctuation_reset");
    reveal_strlit("empty_reset_threshold");
    let fields = nemotron::field_list();
    assert("intra_threads"@[3] != "inter_threads"@[3]);
    let options = nemotron::chunk_options();
    assert(options[2].0 == JsonView::Integer(560));
    if nemotron::config_object(c).contains_key(key) {
        let k: int = if key == "model_path"@ {
            0
        } else if key == "chunk_ms"@ {
            1
        } else if key == "intra_threads"@ {
            2
        } else if key == "inter_threads"@ {
            3
        } else if key == "punctuation_reset"@ {
            4
        } else {
            5
        };
        assert(fields[k].key == key);
    }
    if exists|k: int| 0 <= k < fields.len() && (#[trigger] fields[k]).key == key {
        let k = choose|k: int| 0 <= k < fields.len() && (#[trigger] fields[k]).key == key;
        assert(k == 0 || k == 1 || k == 2 || k == 3 || k == 4 || k == 5);
    }
    assert("model_path"@.len() == 10 && "chunk_ms"@.len() == 8);
    assert("intra_threads"@.len() == 13 && "inter_threads"@.len() == 13);
    assert("punctuation_reset"@.len() == 17 && "empty_reset_threshold"@.len() == 21);
    let object = nemotron::config_object(c);
    assert(object["model_path"@] == JsonView::Text(c.model_path@));
    assert(object["chunk_ms"@] == JsonView::Integer(c.chunk_ms as int));
    assert(object["intra_threads"@] == JsonView::Integer(c.intra_threads as int));
    assert(object["inter_threads"@] == JsonView::Integer(c.inter_threads as int));
    assert(object["punctuation_reset"@] == JsonView::Bool(c.punctuation_reset));
    assert(object["empty_reset_threshold"@] == JsonView::Integer(c.empty_reset_threshold as int));
    if 0 <= i < fields.len() {
        assert(i == 0 || i == 1 || i == 2 || i == 3 || i == 4 || i == 5);
        assert(object[fields[i].key] == fields[i].default);
        match fields[i].field {
            FieldTypeView::Int { min, max } => {
                assert(min <= fields[i].default->Integer_0 <= max);
            },
            FieldTypeView::Enum(options) => {
                assert(options == nemotron::chunk_options());
                assert(options[2].0 == fields[i].default);
            },
            _ => {},
        }
    }
    assert(object.contains_key(key) <==> exists|k: int|
        0 <= k < fields.len() && (#[trigger] fields[k]).key == key);
}

/// The choices of chunk size are those with which a config passes.
pub proof fn law_every_chunk_size_is_on_offer(ms: usize)
    ensures
        settings::chunk_ms_supported(ms) <==> exists|k: int|
            0 <= k < nemotron::chunk_options().len() && (#[trigger] nemotron::chunk_options()[k]).0
                == JsonView::Integer(ms as int),
{
    let options = nemotron::chunk_options();
    assert(options[0].0 == JsonView::Integer(80));
    assert(options[1].0 == JsonView::Integer(160));
    assert(options[2].0 == JsonView::Integer(560));
    assert(options[3].0 == JsonView::Integer(1120));
}

} // verus!
