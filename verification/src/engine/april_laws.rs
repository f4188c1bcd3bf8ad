//! What holds of every run of the April engine and its worker.

use vstd::prelude::*;

use super::april;
use super::april::AprilConfig;
use super::april::AprilView;
use super::april::ResultView;
use super::april::WorkerActionView;
use super::april::WorkerCmd;
use super::april::WorkerEvent;
use super::april::WorkerView;
use crate::paths;
use crate::text;

verus! {

// ---------------------------------------------------------------------------
// A worker as whoever runs it sees it
// ---------------------------------------------------------------------------

/// A worker so far, with what its runner holds for it.
#[verifier::ext_equal]
pub struct Story {
    pub w: WorkerView,
    /// The last thing to do.
    pub last: WorkerActionView,
    /// The model file of the last request.
    pub asked: Seq<char>,
    /// The model file being loaded.
    pub coming: Seq<char>,
    /// The model file that is loaded.
    pub model: Option<Seq<char>>,
    /// Whether the model was loaded for the last request.
    pub new_model: bool,
    pub session: bool,
    /// Whether everything that was to be done could be done.
    pub sane: bool,
    pub opens: nat,
    pub replies: nat,
    /// The audio that came in while there was a session, and the audio handed on.
    pub audio_in: Seq<Seq<u8>>,
    pub audio_out: Seq<Seq<u8>>,
    pub flushes_in: nat,
    pub flushes_out: nat,
    pub shut: bool,
}

pub open spec fn opening() -> Story {
    Story {
        w: WorkerView::Empty,
        last: WorkerActionView::Receive,
        asked: Seq::empty(),
        coming: Seq::empty(),
        model: None,
        new_model: false,
        session: false,
        sane: true,
        opens: 0,
        replies: 0,
        audio_in: Seq::empty(),
        audio_out: Seq::empty(),
        flushes_in: 0,
        flushes_out: 0,
        shut: false,
    }
}

/// An event that answers what was last to be done.
pub open spec fn expected(last: WorkerActionView, event: WorkerEvent) -> bool {
    match event {
        WorkerEvent::Command(_) => last is Receive,
        WorkerEvent::Loaded(_) => last is LoadModel,
        WorkerEvent::SessionMade(_) => last is MakeSession,
    }
}

/// What an event means to the runner.
pub open spec fn heard(st: Story, event: WorkerEvent) -> Story {
    match event {
        WorkerEvent::Command(WorkerCmd::Open(path)) => Story {
            asked: path@,
            opens: st.opens + 1,
            new_model: false,
            ..st
        },
        WorkerEvent::Command(WorkerCmd::Feed(bytes)) => if st.session {
            Story { audio_in: st.audio_in.push(bytes@), ..st }
        } else {
            st
        },
        WorkerEvent::Command(WorkerCmd::Flush) => if st.session {
            Story { flushes_in: st.flushes_in + 1, ..st }
        } else {
            st
        },
        WorkerEvent::Command(WorkerCmd::CloseSession) => st,
        WorkerEvent::Command(WorkerCmd::Shutdown) => Story { shut: true, ..st },
        WorkerEvent::Loaded(Ok(_)) => Story { model: Some(st.coming), new_model: true, ..st },
        WorkerEvent::Loaded(Err(_)) => st,
        WorkerEvent::SessionMade(Ok(_)) => Story { session: true, ..st },
        WorkerEvent::SessionMade(Err(_)) => st,
    }
}

/// What the runner does. A model is loaded only where none is; a session is made only on
/// a model that has none; only a session takes audio; a model goes only without its
/// session, and only if it is not the one asked for or was loaded in vain; the answer to
/// a request says whether there is a session.
pub open spec fn done(st: Story, action: WorkerActionView) -> Story {
    let st = Story { last: action, ..st };
    match action {
        WorkerActionView::LoadModel(path) => Story {
            sane: st.sane && st.model is None,
            coming: path,
            ..st
        },
        WorkerActionView::MakeSession => Story {
            sane: st.sane && st.model is Some && !st.session,
            ..st
        },
        WorkerActionView::Reply(answer) => Story {
            sane: st.sane && (answer is Ok == st.session),
            replies: st.replies + 1,
            ..st
        },
        WorkerActionView::FeedPcm(bytes) => Story {
            sane: st.sane && st.session,
            audio_out: st.audio_out.push(bytes),
            ..st
        },
        WorkerActionView::FlushSession => Story {
            sane: st.sane && st.session,
            flushes_out: st.flushes_out + 1,
            ..st
        },
        WorkerActionView::DropSession => Story { session: false, ..st },
        WorkerActionView::DropModel => Story {
            sane: st.sane && st.model is Some && !st.session && (st.new_model || st.model != Some(
                st.asked,
            )),
            model: None,
            ..st
        },
        WorkerActionView::Receive => st,
        WorkerActionView::Exit => st,
    }
}

/// The first `k` things done.
pub open spec fn done_first(st: Story, todo: Seq<WorkerActionView>, k: nat) -> Story
    decreases k,
{
    if k == 0 {
        st
    } else {
        done(done_first(st, todo, (k - 1) as nat), todo[k - 1])
    }
}

pub open spec fn told(st: Story, event: WorkerEvent) -> Story {
    if expected(st.last, event) {
        let (w, todo) = april::worker_step(st.w, event);
        done_first(Story { w, ..heard(st, event) }, todo, todo.len())
    } else {
        st
    }
}

pub open spec fn told_all(st: Story, events: Seq<WorkerEvent>) -> Story
    decreases events.len(),
{
    if events.len() == 0 {
        st
    } else {
        told(told_all(st, events.drop_last()), events.last())
    }
}

spec fn agrees(st: Story) -> bool {
    &&& st.sane
    &&& st.audio_out == st.audio_in
    &&& st.flushes_out == st.flushes_in
    &&& st.shut == (st.w is Done)
    &&& match st.w {
        WorkerView::Empty => {
            &&& st.model is None && !st.session
            &&& st.last is Receive
            &&& st.opens == st.replies
        },
        WorkerView::Loading(path) => {
            &&& st.model is None && !st.session
            &&& st.last == WorkerActionView::LoadModel(path)
            &&& st.coming == path && st.asked == path
            &&& st.opens == st.replies + 1
        },
        WorkerView::Making { path, fresh } => {
            &&& st.model == Some(path) && !st.session
            &&& st.last is MakeSession
            &&& st.asked == path
            &&& st.new_model == fresh
            &&& st.opens == st.replies + 1
        },
        WorkerView::Ready { path, session } => {
            &&& st.model == Some(path) && st.session == session
            &&& st.last is Receive
            &&& st.asked == path
            &&& st.opens == st.replies
        },
        WorkerView::Done => {
            &&& st.last is Exit
            &&& st.opens == st.replies
            &&& st.session ==> st.model == Some(st.asked)
        },
    }
}

proof fn lemma_told_agrees(st: Story, event: WorkerEvent)
    requires
        agrees(st),
    ensures
        agrees(told(st, event)),
{
    reveal_with_fuel(done_first, 4);
}

proof fn lemma_agrees(events: Seq<WorkerEvent>)
    ensures
        agrees(told_all(opening(), events)),
    decreases events.len(),
{
    if events.len() > 0 {
        lemma_agrees(events.drop_last());
        lemma_told_agrees(told_all(opening(), events.drop_last()), events.last());
    }
}

// ---------------------------------------------------------------------------
// Laws of a worker
// ---------------------------------------------------------------------------

/// Whatever happens, everything that a worker asks for can be done when it asks for it,
/// and a session is always one on the model that was asked for last.
pub proof fn law_a_session_stands_on_its_model(events: Seq<WorkerEvent>)
    ensures
        ({
            let st = told_all(opening(), events);
            &&& st.sane
            &&& st.session ==> st.model == Some(st.asked)
        }),
{
    lemma_agrees(events);
}

/// Audio that comes in while there is a session reaches it, all of it, unchanged and in
/// order; so does every request to flush. What comes in without a session reaches none.
pub proof fn law_a_session_hears_everything(events: Seq<WorkerEvent>)
    ensures
        ({
            let st = told_all(opening(), events);
            &&& st.audio_out == st.audio_in
            &&& st.flushes_out == st.flushes_in
        }),
{
    lemma_agrees(events);
}

/// Every request to open a session gets one answer, and nothing else is answered: only
/// while a model is being loaded or a session made is one answer owed.
pub proof fn law_every_request_gets_one_answer(events: Seq<WorkerEvent>)
    ensures
        ({
            let st = told_all(opening(), events);
            let busy = st.last is LoadModel || st.last is MakeSession;
            st.opens == st.replies + (if busy {
                1nat
            } else {
                0nat
            })
        }),
{
    lemma_agrees(events);
}

/// A worker always waits for one thing, the next command, a model or a session, until it
/// is shut down; then it exits.
pub proof fn law_a_worker_waits_for_one_thing(events: Seq<WorkerEvent>)
    ensures
        ({
            let st = told_all(opening(), events);
            &&& st.shut <==> st.last is Exit
            &&& !st.shut ==> st.last is Receive || st.last is LoadModel || st.last is MakeSession
        }),
{
    lemma_agrees(events);
}

/// A model is used exactly if it takes audio at the pipeline's rate. One that does not is
/// dropped, and the answer names it and its rate; so is one that was loaded for a session
/// that could not be made.
pub proof fn law_only_a_usable_model_is_kept(w: WorkerView, event: WorkerEvent)
    requires
        w is Loading || (w is Making && w->fresh),
    ensures
        ({
            let (after, todo) = april::worker_step(w, event);
            match event {
                WorkerEvent::Loaded(Ok(info)) if w is Loading => if info.sample_rate == 16000 {
                    after is Making && todo.contains(WorkerActionView::MakeSession)
                } else {
                    &&& after is Empty
                    &&& todo.contains(WorkerActionView::DropModel)
                    &&& todo.contains(
                        WorkerActionView::Reply(
                            Err(
                                "April model '"@ + info.name@ + "' wants "@ + text::decimal_of(
                                    info.sample_rate as nat,
                                ) + " Hz; the pipeline is fixed at "@ + text::decimal_of(16000)
                                    + " Hz"@,
                            ),
                        ),
                    )
                },
                WorkerEvent::Loaded(Err(e)) if w is Loading => {
                    &&& after is Empty
                    &&& todo.contains(
                        WorkerActionView::Reply(Err("Failed to load april model: "@ + e@)),
                    )
                },
                WorkerEvent::SessionMade(Err(e)) if w is Making => {
                    &&& after is Empty
                    &&& todo.contains(WorkerActionView::DropModel)
                    &&& todo.contains(
                        WorkerActionView::Reply(Err("Failed to create april session: "@ + e@)),
                    )
                },
                _ => true,
            }
        }),
{
    let (after, todo) = april::worker_step(w, event);
    match event {
        WorkerEvent::Loaded(Ok(info)) => {
            if w is Loading {
                assert(todo[0] is MakeSession || todo[0] is Reply);
                if info.sample_rate != 16000 {
                    assert(todo[1] is DropModel);
                }
            }
        },
        WorkerEvent::Loaded(Err(e)) => {
            if w is Loading {
                assert(todo[0] is Reply);
            }
        },
        WorkerEvent::SessionMade(Err(e)) => {
            if w is Making {
                assert(todo[0] is Reply);
                assert(todo[1] is DropModel);
            }
        },
        _ => {},
    }
}

// ---------------------------------------------------------------------------
// Laws of the results
// ---------------------------------------------------------------------------

/// The results that close a segment.
pub open spec fn finals(results: Seq<ResultView>) -> Seq<ResultView>
    decreases results.len(),
{
    if results.len() == 0 {
        Seq::empty()
    } else if results.last().is_final {
        finals(results.drop_last()).push(results.last())
    } else {
        finals(results.drop_last())
    }
}

proof fn lemma_finals_are_logged(e: AprilView, results: Seq<ResultView>)
    requires
        e.final_count + results.len() <= u64::MAX,
    ensures
        ({
            let a = april::took_all(e, results);
            let all = finals(results);
            &&& all.len() <= results.len()
            &&& a.e.final_count == e.final_count + all.len()
            &&& a.logged.len() == all.len()
            &&& forall|i: int|
                0 <= i < all.len() ==> {
                    &&& (#[trigger] a.logged[i]).chunk_num == e.final_count + i + 1
                    &&& a.logged[i].is_empty == (all[i].text.len() == 0)
                    &&& a.logged[i].preview == text::preview_of(all[i].text, 200)
                }
        }),
    decreases results.len(),
{
    if results.len() > 0 {
        lemma_finals_are_logged(e, results.drop_last());
    }
}

/// Every result that closes a segment is logged once, in order, under the next number,
/// with the beginning of its text; nothing else is logged.
pub proof fn law_every_final_is_logged(e: AprilView, results: Seq<ResultView>, i: int)
    requires
        e.final_count + results.len() <= u64::MAX,
    ensures
        ({
            let a = april::applied(e, results);
            let all = finals(results);
            &&& a.e.final_count == e.final_count + all.len()
            &&& a.logged.len() == all.len()
            &&& 0 <= i < all.len() ==> {
                &&& a.logged[i].chunk_num == e.final_count + i + 1
                &&& a.logged[i].is_empty == (all[i].text.len() == 0)
                &&& a.logged[i].preview == text::preview_of(all[i].text, 200)
            }
        }),
{
    lemma_finals_are_logged(e, results);
}

proof fn lemma_taking_stays_sound(e: AprilView, results: Seq<ResultView>)
    requires
        april::sound(e),
        e.next_id + results.len() < u64::MAX,
    ensures
        april::sound(april::took_all(e, results).e),
        april::took_all(e, results).e.next_id <= e.next_id + results.len(),
    decreases results.len(),
{
    if results.len() > 0 {
        lemma_taking_stays_sound(e, results.drop_last());
    }
}

/// A final ends its segment, even one without text: behind it no segment is open, nothing
/// is left to close, and the next segment has the next id.
pub proof fn law_a_final_ends_its_segment(e: AprilView, results: Seq<ResultView>, r: ResultView)
    requires
        april::sound(e),
        r.is_final,
        e.next_id + results.len() + 1 < u64::MAX,
    ensures
        ({
            let before = april::applied(e, results).e;
            let after = april::applied(e, results.push(r)).e;
            &&& after.current is None
            &&& april::forced(after) is None
            &&& april::segment_id(after) == april::segment_id(before) + 1
        }),
{
    assert(results.push(r).drop_last() =~= results);
    lemma_taking_stays_sound(e, results);
}

/// Closing a dangling segment takes no id and counts nothing, and only a segment with
/// text is closed; the next segment has an id of its own.
pub proof fn law_closing_takes_no_id(e: AprilView)
    requires
        april::sound(e),
    ensures
        april::forced(e) is Some ==> {
            &&& e.current is Some
            &&& april::forced(e)->0.text.len() > 0
        },
        april::after_forced(e).next_id == e.next_id,
        april::after_forced(e).final_count == e.final_count,
        e.current is Some ==> april::segment_id(april::after_forced(e)) > e.current->0,
{
}

/// A config passes exactly if it could be read and names a model. What was wrong with
/// reading it is passed on.
pub proof fn law_a_config_names_a_model(read: Result<AprilConfig, String>)
    ensures
        april::parse_error(read) is None <==> read is Ok && exists|i: int|
            0 <= i < read->Ok_0.model_path@.len() && !text::is_space(
                #[trigger] read->Ok_0.model_path@[i],
            ),
        read is Err ==> april::parse_error(read) == Some(
            "Invalid april config: "@ + read->Err_0@,
        ),
{
}

/// ONNX Runtime is looked for in the same places everywhere; on macOS the application's
/// own copy, in its config directory, is tried first.
pub proof fn law_the_own_runtime_comes_first(home: Option<Seq<char>>, i: int)
    ensures
        ({
            let here = april::dylib_candidates(home, true);
            let elsewhere = april::dylib_candidates(home, false);
            let dir = paths::config_dir_of(home);
            &&& here.len() == elsewhere.len() + 1
            &&& 0 <= i < elsewhere.len() ==> {
                &&& here[i + 1] == elsewhere[i]
                &&& elsewhere[i].rest.len() == 0
            }
            &&& here[0].base == dir.base
            &&& here[0].rest == dir.rest + seq!["runtime"@, "libonnxruntime.dylib"@]
            &&& elsewhere =~= april::dylib_candidates(None, false)
        }),
{
    let dir = paths::config_dir_of(home);
    assert(dir.rest.push("runtime"@).push("libonnxruntime.dylib"@) =~= dir.rest + seq![
        "runtime"@,
        "libonnxruntime.dylib"@,
    ]);
}

} // verus!
