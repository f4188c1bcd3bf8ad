//! What holds of every run of a socket session.

use vstd::prelude::*;

use super::client;
use super::client::Outbound;
use super::client::Outcome;
use super::client::SocketActionView;
use super::client::SocketEvent;
use super::client::SocketPhase;
use super::client::SocketView;

verus! {

/// The audio frames among `actions`, in order.
pub open spec fn frames(actions: Seq<SocketActionView>) -> Seq<Seq<u8>>
    decreases actions.len(),
{
    if actions.len() == 0 {
        Seq::empty()
    } else {
        match actions.last() {
            SocketActionView::SendFrame(pcm) => frames(actions.drop_last()).push(pcm),
            _ => frames(actions.drop_last()),
        }
    }
}

/// How often `actions` send the end-of-stream frame.
pub open spec fn stream_ends(actions: Seq<SocketActionView>) -> nat
    decreases actions.len(),
{
    if actions.len() == 0 {
        0
    } else {
        stream_ends(actions.drop_last()) + if actions.last() is SendEndOfStream {
            1nat
        } else {
            0
        }
    }
}

/// The audio that the session takes on with `event`: not what comes behind the
/// end of the stream, and not what is over the backlog ceiling.
pub open spec fn taken(s: SocketView, event: SocketEvent, queued: usize) -> Seq<Seq<u8>> {
    match event {
        SocketEvent::Queued(Some(Outbound::Audio { pcm, .. })) => {
            let takes = match s.phase {
                SocketPhase::Running => !s.finishing,
                SocketPhase::Draining => true,
                SocketPhase::Backoff => queued <= client::MAX_QUEUED_SAMPLES,
                _ => false,
            };
            if takes {
                seq![pcm@]
            } else {
                Seq::empty()
            }
        },
        _ => Seq::empty(),
    }
}

/// A run so far: the session, the audio taken on, the audio handed to sockets, and
/// what the current connection has seen of the end of the stream.
#[verifier::ext_equal]
pub struct Run {
    pub s: SocketView,
    pub taken: Seq<Seq<u8>>,
    pub sent: Seq<Seq<u8>>,
    /// End-of-stream frames on the current connection.
    pub ends: nat,
    /// Whether audio followed one.
    pub late: bool,
}

pub open spec fn begun() -> Run {
    Run {
        s: SocketView {
            phase: SocketPhase::Fresh,
            attempt: 0,
            pending: Seq::empty(),
            progressed: false,
            finishing: false,
        },
        taken: Seq::empty(),
        sent: Seq::empty(),
        ends: 0,
        late: false,
    }
}

pub open spec fn run_step(r: Run, event: SocketEvent, queued: usize) -> Run {
    let (s, actions) = client::socket_step(r.s, event, queued);
    Run {
        s,
        taken: r.taken + taken(r.s, event, queued),
        sent: r.sent + frames(actions),
        ends: if s.phase == SocketPhase::Connecting {
            0
        } else {
            r.ends + stream_ends(actions)
        },
        late: r.late || (r.ends > 0 && frames(actions).len() > 0),
    }
}

/// A run through events, each with the backlog at that time.
pub open spec fn run_of(events: Seq<(SocketEvent, usize)>) -> Run
    decreases events.len(),
{
    if events.len() == 0 {
        begun()
    } else {
        run_step(run_of(events.drop_last()), events.last().0, events.last().1)
    }
}

/// The bytes of what waits for a connection.
pub open spec fn pending_audio(s: SocketView) -> Seq<Seq<u8>> {
    Seq::new(s.pending.len(), |i: int| s.pending[i].0)
}

/// A connection is up and past what was buffered.
spec fn live(phase: SocketPhase) -> bool {
    phase == SocketPhase::Running || phase == SocketPhase::Uploading || phase
        == SocketPhase::Pinging || phase == SocketPhase::Draining || phase
        == SocketPhase::DrainUploading || phase == SocketPhase::EndingStream
}

spec fn steady(r: Run) -> bool {
    &&& r.s.attempt <= client::MAX_RECONNECT_ATTEMPTS || r.s.phase == SocketPhase::Done
    &&& live(r.s.phase) ==> r.s.pending.len() == 0
    &&& r.taken == r.sent + pending_audio(r.s)
    &&& !r.late
    &&& live(r.s.phase) ==> if r.s.phase == SocketPhase::EndingStream {
        r.ends == 1 && !r.s.finishing
    } else if r.s.finishing {
        r.ends == 1 && (r.s.phase == SocketPhase::Running || r.s.phase == SocketPhase::Pinging)
    } else {
        r.ends == 0
    }
    &&& r.ends <= 1
    &&& r.s.phase == SocketPhase::Connecting || r.s.phase == SocketPhase::Starting || r.s.phase
        == SocketPhase::Flushing ==> r.ends == 0
}

proof fn lemma_counts(a: SocketActionView, b: SocketActionView, c: SocketActionView)
    ensures
        frames(Seq::empty()) == Seq::<Seq<u8>>::empty(),
        stream_ends(Seq::empty()) == 0,
        frames(seq![a]) == (match a {
            SocketActionView::SendFrame(pcm) => seq![pcm],
            _ => Seq::empty(),
        }),
        stream_ends(seq![a]) == (if a is SendEndOfStream {
            1nat
        } else {
            0
        }),
        frames(seq![a, b]) == frames(seq![a]) + frames(seq![b]),
        stream_ends(seq![a, b]) == stream_ends(seq![a]) + stream_ends(seq![b]),
        frames(seq![a, b, c]) == frames(seq![a, b]) + frames(seq![c]),
        stream_ends(seq![a, b, c]) == stream_ends(seq![a, b]) + stream_ends(seq![c]),
{
    reveal_with_fuel(frames, 4);
    reveal_with_fuel(stream_ends, 4);
    assert(seq![a].drop_last() =~= Seq::<SocketActionView>::empty());
    assert(seq![b].drop_last() =~= Seq::<SocketActionView>::empty());
    assert(seq![c].drop_last() =~= Seq::<SocketActionView>::empty());
    assert(seq![a, b].drop_last() =~= seq![a]);
    assert(seq![a, b, c].drop_last() =~= seq![a, b]);
    assert(frames(seq![a]) =~= match a {
        SocketActionView::SendFrame(pcm) => seq![pcm],
        _ => Seq::empty(),
    });
    assert(frames(seq![a, b]) =~= frames(seq![a]) + frames(seq![b]));
    assert(frames(seq![a, b, c]) =~= frames(seq![a, b]) + frames(seq![c]));
}

/// An action that neither sends audio nor ends the stream.
spec fn quiet(a: SocketActionView) -> bool {
    !(a is SendFrame) && !(a is SendEndOfStream)
}

spec fn all_quiet(actions: Seq<SocketActionView>) -> bool {
    forall|i: int| 0 <= i < actions.len() ==> quiet(#[trigger] actions[i])
}

proof fn lemma_quiet(actions: Seq<SocketActionView>)
    requires
        all_quiet(actions),
    ensures
        frames(actions) == Seq::<Seq<u8>>::empty(),
        stream_ends(actions) == 0,
    decreases actions.len(),
{
    if actions.len() > 0 {
        assert(quiet(actions[actions.len() - 1]));
        assert forall|i: int| 0 <= i < actions.drop_last().len() implies quiet(
            #[trigger] actions.drop_last()[i],
        ) by {
            assert(actions.drop_last()[i] == actions[i]);
        }
        lemma_quiet(actions.drop_last());
    }
}

proof fn lemma_ended_quiet(s: SocketView, outcome: Outcome)
    ensures
        all_quiet(client::ended(s, outcome).1),
        client::ended(s, outcome).0.pending == s.pending,
        !live(client::ended(s, outcome).0.phase),
        client::ended(s, outcome).0.phase == SocketPhase::Done || client::ended(s, outcome).0.phase
            == SocketPhase::Backoff,
        s.attempt <= client::MAX_RECONNECT_ATTEMPTS ==> client::ended(s, outcome).0.attempt
            <= client::MAX_RECONNECT_ATTEMPTS || client::ended(s, outcome).0.phase
            == SocketPhase::Done,
{
}

/// What a step does to the run, apart from its bookkeeping.
spec fn shape(s: SocketView, event: SocketEvent, queued: usize) -> bool {
    let (after, actions) = client::socket_step(s, event, queued);
    ||| {
        // Nothing goes out, and what waits stays or grows by what was taken.
        &&& all_quiet(actions)
        &&& pending_audio(after) == pending_audio(s) + taken(s, event, queued)
    }
    ||| {
        // The oldest waiting frame goes out.
        &&& s.pending.len() > 0
        &&& actions == seq![
            SocketActionView::Release(s.pending[0].1),
            SocketActionView::SendFrame(s.pending[0].0),
        ]
        &&& after.pending == s.pending.drop_first()
        &&& taken(s, event, queued) == Seq::<Seq<u8>>::empty()
        &&& after.phase == SocketPhase::Flushing
        &&& s.phase == SocketPhase::Starting || s.phase == SocketPhase::Flushing
    }
    ||| {
        // What was taken goes straight out.
        &&& taken(s, event, queued).len() == 1
        &&& actions.len() == 2
        &&& quiet(actions[0])
        &&& actions[1] == SocketActionView::SendFrame(taken(s, event, queued)[0])
        &&& after.pending == s.pending
        &&& s.phase == SocketPhase::Draining || s.phase == SocketPhase::Running && !s.finishing
        &&& after.phase == SocketPhase::Uploading || after.phase == SocketPhase::DrainUploading
        &&& after.finishing == s.finishing
    }
    ||| {
        // The stream ends.
        &&& actions == seq![SocketActionView::SendEndOfStream]
        &&& taken(s, event, queued) == Seq::<Seq<u8>>::empty()
        &&& s.phase == SocketPhase::Draining
        &&& after == (SocketView { phase: SocketPhase::EndingStream, ..s })
    }
}

proof fn lemma_shape(s: SocketView, event: SocketEvent, queued: usize)
    ensures
        shape(s, event, queued),
{
    let (after, actions) = client::socket_step(s, event, queued);
    assert forall|o: Outcome| all_quiet((#[trigger] client::ended(s, o)).1) by {
        lemma_ended_quiet(s, o);
    }
    let p = SocketView { progressed: true, ..s };
    assert forall|o: Outcome| all_quiet((#[trigger] client::ended(p, o)).1) by {
        lemma_ended_quiet(p, o);
    }
    assert(pending_audio(s) + Seq::<Seq<u8>>::empty() =~= pending_audio(s));
    match event {
        SocketEvent::Queued(Some(Outbound::Audio { pcm, samples })) => {
            if s.phase == SocketPhase::Backoff && queued <= client::MAX_QUEUED_SAMPLES {
                assert(pending_audio(after) =~= pending_audio(s) + seq![pcm@]);
                assert(all_quiet(actions));
            }
        },
        _ => {},
    }
}

proof fn lemma_step_steady(r: Run, event: SocketEvent, queued: usize)
    requires
        steady(r),
    ensures
        steady(run_step(r, event, queued)),
{
    let (after, actions) = client::socket_step(r.s, event, queued);
    let next = run_step(r, event, queued);
    lemma_shape(r.s, event, queued);
    let got = taken(r.s, event, queued);
    if all_quiet(actions) && pending_audio(after) == pending_audio(r.s) + got {
        lemma_quiet(actions);
        assert(next.taken =~= next.sent + pending_audio(after));
    } else if actions.len() == 1 {
        lemma_counts(actions[0], actions[0], actions[0]);
        assert(actions =~= seq![actions[0]]);
        assert(next.taken =~= next.sent + pending_audio(after));
    } else {
        lemma_counts(actions[0], actions[1], actions[0]);
        lemma_counts(actions[1], actions[1], actions[0]);
        assert(actions =~= seq![actions[0], actions[1]]);
        if after.phase == SocketPhase::Flushing {
            assert(pending_audio(r.s) =~= seq![r.s.pending[0].0] + pending_audio(after));
            assert(next.taken =~= next.sent + pending_audio(after));
        } else {
            assert(got =~= seq![got[0]]);
            assert(pending_audio(after) =~= Seq::<Seq<u8>>::empty());
            assert(next.taken =~= next.sent + pending_audio(after));
        }
    }
    lemma_phases(r, event, queued);
}

proof fn lemma_phases(r: Run, event: SocketEvent, queued: usize)
    requires
        steady(r),
    ensures
        ({
            let after = client::socket_step(r.s, event, queued).0;
            &&& after.attempt <= client::MAX_RECONNECT_ATTEMPTS || after.phase == SocketPhase::Done
            &&& live(after.phase) ==> after.pending.len() == 0
        }),
{
    let p = SocketView { progressed: true, ..r.s };
    assert forall|o: Outcome|
        !live((#[trigger] client::ended(r.s, o)).0.phase) && (client::ended(r.s, o).0.attempt
            <= client::MAX_RECONNECT_ATTEMPTS || client::ended(r.s, o).0.phase
            == SocketPhase::Done || r.s.phase == SocketPhase::Done) by {
        lemma_ended_quiet(r.s, o);
    }
    assert forall|o: Outcome|
        !live((#[trigger] client::ended(p, o)).0.phase) && (client::ended(p, o).0.attempt
            <= client::MAX_RECONNECT_ATTEMPTS || client::ended(p, o).0.phase == SocketPhase::Done
            || r.s.phase == SocketPhase::Done) by {
        lemma_ended_quiet(p, o);
    }
}

proof fn lemma_run_steady(events: Seq<(SocketEvent, usize)>)
    ensures
        steady(run_of(events)),
    decreases events.len(),
{
    if events.len() > 0 {
        lemma_run_steady(events.drop_last());
        lemma_step_steady(run_of(events.drop_last()), events.last().0, events.last().1);
    } else {
        assert(pending_audio(begun().s) =~= Seq::<Seq<u8>>::empty());
        assert(begun().taken =~= begun().sent + pending_audio(begun().s));
    }
}

/// Audio reaches the socket in capture order, across reconnects too: what was
/// taken on is what was handed to a socket followed by what still waits, with
/// nothing twice and nothing missing.
pub proof fn law_audio_keeps_its_order(events: Seq<(SocketEvent, usize)>)
    ensures
        run_of(events).taken == run_of(events).sent + pending_audio(run_of(events).s),
{
    lemma_run_steady(events);
}

/// A connection ends its stream at most once, however often it is asked to, and
/// no audio follows the end.
pub proof fn law_stream_ends_once(events: Seq<(SocketEvent, usize)>)
    ensures
        run_of(events).ends <= 1,
        !run_of(events).late,
{
    lemma_run_steady(events);
}

/// A session gives up after so many failed attempts in a row: the count stays at
/// or below the limit as long as the session goes on.
pub proof fn law_attempts_are_bounded(events: Seq<(SocketEvent, usize)>)
    ensures
        run_of(events).s.phase != SocketPhase::Done ==> run_of(events).s.attempt
            <= client::MAX_RECONNECT_ATTEMPTS,
{
    lemma_run_steady(events);
}

/// Once a session is over nothing happens any more.
pub proof fn law_done_is_final(s: SocketView, event: SocketEvent, queued: usize)
    requires
        s.phase == SocketPhase::Done,
    ensures
        client::socket_step(s, event, queued) == (s, Seq::<SocketActionView>::empty()),
{
}

} // verus!
