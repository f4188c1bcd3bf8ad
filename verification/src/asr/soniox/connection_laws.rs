//! What the owner of a socket sees of a session, whatever happens on the wire.
//!
//! The laws speak of the events that the owner told and the actions that it was
//! handed, not of what the session keeps to itself.

use vstd::prelude::*;

use super::client;
use super::client::InboundView;
use super::client::Incoming;
use super::client::Outbound;
use super::client::SocketActionView;
use super::client::SocketEvent;
use super::client::SocketPhase;
use super::client::SocketView;
use super::protocol;
use super::protocol::SonioxToken;
use super::socket_laws;

verus! {

// ---------------------------------------------------------------------------
// A session as its owner sees it
// ---------------------------------------------------------------------------

/// A session so far, as its owner sees it.
#[verifier::ext_equal]
pub struct Story {
    /// The last thing to do.
    pub last: Option<SocketActionView>,
    /// The start frame was sent on this connection.
    pub started: bool,
    /// The end-of-stream frame was sent on this connection.
    pub ended: bool,
    /// This connection returned a response.
    pub heard: bool,
    /// Connections lost in a row, not counting those before one that returned a
    /// response.
    pub failures: nat,
    /// The audio that the session was given while it could take it.
    pub audio_in: Seq<Seq<u8>>,
    pub audio_out: Seq<Seq<u8>>,
    /// The samples of all audio that the session was given.
    pub samples_in: int,
    pub samples_released: int,
    /// The tokens of the responses without an error.
    pub tokens_in: Seq<SonioxToken>,
    pub tokens_out: Seq<SonioxToken>,
}

pub open spec fn opening() -> Story {
    Story {
        last: None,
        started: false,
        ended: false,
        heard: false,
        failures: 0,
        audio_in: Seq::empty(),
        audio_out: Seq::empty(),
        samples_in: 0,
        samples_released: 0,
        tokens_in: Seq::empty(),
        tokens_out: Seq::empty(),
    }
}

/// No connection is up, and the session sleeps before the next attempt.
pub open spec fn asleep(st: Story) -> bool {
    st.last matches Some(a) && (a is Sleep || a is KeepSleeping)
}

/// An event that the session reacts to. Audio behind the end of the stream, and audio
/// over the backlog ceiling while there is no connection, cannot be taken.
pub open spec fn told(st: Story, event: SocketEvent, queued: usize) -> Story {
    match event {
        SocketEvent::Queued(Some(Outbound::Audio { pcm, samples })) => Story {
            samples_in: st.samples_in + samples,
            audio_in: if asleep(st) && queued > client::MAX_QUEUED_SAMPLES || !asleep(st)
                && st.ended {
                st.audio_in
            } else {
                st.audio_in.push(pcm@)
            },
            ..st
        },
        SocketEvent::Incoming(Incoming::Text(response)) => Story {
            heard: true,
            tokens_in: if response.error_type is None {
                st.tokens_in + response.tokens@
            } else {
                st.tokens_in
            },
            ..st
        },
        _ => st,
    }
}

pub open spec fn done(st: Story, action: SocketActionView) -> Story {
    let st = Story { last: Some(action), ..st };
    match action {
        SocketActionView::Connect => Story { started: false, ended: false, heard: false, ..st },
        SocketActionView::SendStart => Story { started: true, ..st },
        SocketActionView::SendEndOfStream => Story { ended: true, ..st },
        SocketActionView::SendFrame(pcm) => Story { audio_out: st.audio_out.push(pcm), ..st },
        SocketActionView::Release(samples) => Story {
            samples_released: st.samples_released + samples,
            ..st
        },
        SocketActionView::Report(InboundView::Response(response)) => Story {
            tokens_out: st.tokens_out + response.tokens@,
            ..st
        },
        SocketActionView::Report(InboundView::Reconnecting(_)) => Story {
            failures: if st.heard {
                1
            } else {
                st.failures + 1
            },
            ..st
        },
        _ => st,
    }
}

pub open spec fn done_all(st: Story, actions: Seq<SocketActionView>) -> Story
    decreases actions.len(),
{
    if actions.len() == 0 {
        st
    } else {
        done_all(done(st, actions[0]), actions.drop_first())
    }
}

/// The session that a history leads to.
pub open spec fn session_of(events: Seq<(SocketEvent, usize)>) -> SocketView {
    socket_laws::run_of(events).s
}

/// What the session hands out on an event behind a history.
pub open spec fn reply(
    events: Seq<(SocketEvent, usize)>,
    event: SocketEvent,
    queued: usize,
) -> Seq<SocketActionView> {
    client::socket_step(session_of(events), event, queued).1
}

/// The story of a history. An event that gets no reply is none that the session waits
/// for, and is not part of it.
pub open spec fn story_of(events: Seq<(SocketEvent, usize)>) -> Story
    decreases events.len(),
{
    if events.len() == 0 {
        opening()
    } else {
        let before = story_of(events.drop_last());
        let (event, queued) = events.last();
        let actions = reply(events.drop_last(), event, queued);
        if actions.len() == 0 {
            before
        } else {
            done_all(told(before, event, queued), actions)
        }
    }
}

proof fn lemma_done_all(st: Story, actions: Seq<SocketActionView>)
    requires
        actions.len() <= 4,
    ensures
        actions.len() == 0 ==> done_all(st, actions) == st,
        actions.len() == 1 ==> done_all(st, actions) == done(st, actions[0]),
        actions.len() == 2 ==> done_all(st, actions) == done(done(st, actions[0]), actions[1]),
        actions.len() == 3 ==> done_all(st, actions) == done(
            done(done(st, actions[0]), actions[1]),
            actions[2],
        ),
        actions.len() == 4 ==> done_all(st, actions) == done(
            done(done(done(st, actions[0]), actions[1]), actions[2]),
            actions[3],
        ),
{
    reveal_with_fuel(done_all, 5);
}

// ---------------------------------------------------------------------------
// What the session keeps of it
// ---------------------------------------------------------------------------

/// The session waits for what it last asked for.
spec fn awaits(phase: SocketPhase, last: Option<SocketActionView>) -> bool {
    match phase {
        SocketPhase::Fresh => last is None,
        SocketPhase::Connecting => last == Some(SocketActionView::Connect),
        SocketPhase::Starting => last == Some(SocketActionView::SendStart),
        SocketPhase::Flushing => last matches Some(a) && a is SendFrame,
        SocketPhase::Running => last == Some(SocketActionView::Wait),
        SocketPhase::Uploading => last matches Some(a) && a is SendFrame,
        SocketPhase::Pinging => last == Some(SocketActionView::SendPing),
        SocketPhase::Draining => last == Some(SocketActionView::TakeQueued),
        SocketPhase::DrainUploading => last matches Some(a) && a is SendFrame,
        SocketPhase::EndingStream => last == Some(SocketActionView::SendEndOfStream),
        SocketPhase::Backoff => last matches Some(a) && (a is Sleep || a is KeepSleeping),
        SocketPhase::Done => last == Some(SocketActionView::Stop),
    }
}

/// A connection is up and past what was buffered.
spec fn up(phase: SocketPhase) -> bool {
    phase == SocketPhase::Running || phase == SocketPhase::Uploading || phase
        == SocketPhase::Pinging || phase == SocketPhase::Draining || phase
        == SocketPhase::DrainUploading || phase == SocketPhase::EndingStream
}

spec fn pending_samples(pending: Seq<(Seq<u8>, usize)>) -> int
    decreases pending.len(),
{
    if pending.len() == 0 {
        0
    } else {
        pending[0].1 + pending_samples(pending.drop_first())
    }
}

proof fn lemma_pending_push(pending: Seq<(Seq<u8>, usize)>, frame: (Seq<u8>, usize))
    ensures
        pending_samples(pending.push(frame)) == pending_samples(pending) + frame.1,
    decreases pending.len(),
{
    if pending.len() == 0 {
        assert(pending.push(frame).drop_first() =~= Seq::<(Seq<u8>, usize)>::empty());
        assert(pending_samples(Seq::<(Seq<u8>, usize)>::empty()) == 0);
    } else {
        assert(pending.push(frame).drop_first() =~= pending.drop_first().push(frame));
        assert(pending.push(frame)[0] == pending[0]);
        lemma_pending_push(pending.drop_first(), frame);
    }
}

spec fn agrees(st: Story, s: SocketView) -> bool {
    &&& awaits(s.phase, st.last)
    &&& s.phase == SocketPhase::Fresh || s.phase == SocketPhase::Connecting ==> !st.started
        && !st.ended && !st.heard
    &&& s.phase == SocketPhase::Starting || s.phase == SocketPhase::Flushing ==> st.started
        && !st.ended && !st.heard
    &&& up(s.phase) ==> st.started && st.heard == s.progressed && s.pending.len() == 0
    &&& up(s.phase) ==> st.ended == (s.finishing || s.phase == SocketPhase::EndingStream)
    &&& up(s.phase) && s.finishing ==> s.phase == SocketPhase::Running || s.phase
        == SocketPhase::Pinging
    &&& s.phase != SocketPhase::Done ==> st.failures == s.attempt && s.attempt
        <= client::MAX_RECONNECT_ATTEMPTS
    &&& st.samples_in == st.samples_released + pending_samples(s.pending)
    &&& st.audio_in == st.audio_out + socket_laws::pending_audio(s)
    &&& st.tokens_in == st.tokens_out
}

#[verifier::rlimit(40)]
proof fn lemma_step_agrees(st: Story, s: SocketView, event: SocketEvent, queued: usize)
    requires
        agrees(st, s),
    ensures
        ({
            let (after, actions) = client::socket_step(s, event, queued);
            &&& actions.len() <= 4
            &&& actions.len() == 0 ==> agrees(st, after)
            &&& actions.len() > 0 ==> agrees(done_all(told(st, event, queued), actions), after)
        }),
{
    let (after, actions) = client::socket_step(s, event, queued);
    let now = told(st, event, queued);
    lemma_done_all(now, actions);
    let then_st = done_all(now, actions);
    assert(st.tokens_in + Seq::<SonioxToken>::empty() =~= st.tokens_in);
    if actions.len() > 0 {
        match event {
            SocketEvent::Queued(Some(Outbound::Audio { pcm, samples })) => {
                lemma_pending_push(s.pending, (pcm@, samples));
                if s.phase == SocketPhase::Backoff && queued <= client::MAX_QUEUED_SAMPLES {
                    assert(socket_laws::pending_audio(after) =~= socket_laws::pending_audio(
                        s,
                    ).push(pcm@));
                    assert(then_st.audio_in =~= then_st.audio_out + socket_laws::pending_audio(
                        after,
                    ));
                } else if s.phase == SocketPhase::Backoff {
                } else {
                    assert(socket_laws::pending_audio(s) =~= Seq::<Seq<u8>>::empty());
                    assert(socket_laws::pending_audio(after) =~= Seq::<Seq<u8>>::empty());
                    assert(then_st.audio_in =~= then_st.audio_out + socket_laws::pending_audio(
                        after,
                    ));
                }
            },
            SocketEvent::Sent => {
                if s.phase == SocketPhase::Starting || s.phase == SocketPhase::Flushing {
                    if s.pending.len() > 0 {
                        assert(socket_laws::pending_audio(s) =~= seq![s.pending[0].0]
                            + socket_laws::pending_audio(after));
                        assert(then_st.audio_in =~= then_st.audio_out + socket_laws::pending_audio(
                            after,
                        ));
                    } else {
                        assert(socket_laws::pending_audio(after) =~= socket_laws::pending_audio(s));
                    }
                } else {
                    assert(socket_laws::pending_audio(after) =~= socket_laws::pending_audio(s));
                }
            },
            _ => {
                assert(socket_laws::pending_audio(after) =~= socket_laws::pending_audio(s));
            },
        }
    }
}

proof fn lemma_agrees(events: Seq<(SocketEvent, usize)>)
    ensures
        agrees(story_of(events), session_of(events)),
    decreases events.len(),
{
    if events.len() > 0 {
        lemma_agrees(events.drop_last());
        lemma_step_agrees(
            story_of(events.drop_last()),
            session_of(events.drop_last()),
            events.last().0,
            events.last().1,
        );
    } else {
        assert(opening().audio_in =~= opening().audio_out + socket_laws::pending_audio(
            session_of(events),
        ));
    }
}

// ---------------------------------------------------------------------------
// Laws
// ---------------------------------------------------------------------------

/// Why an event interrupts the stream, if it does: a connection that does not come
/// about or does not take what is sent, a peer that goes away before the end of the
/// stream was sent to it, or a server error that will pass.
pub open spec fn setback(st: Story, event: SocketEvent) -> Option<Seq<char>> {
    match st.last {
        Some(SocketActionView::Connect) => match event {
            SocketEvent::ConnectTimedOut => Some("the connection to Soniox timed out"@),
            SocketEvent::ConnectFailed(e) => Some("could not reach Soniox: "@ + e@),
            _ => None,
        },
        Some(SocketActionView::SendStart) => match event {
            SocketEvent::SendFailed(e) => Some("could not start a Soniox session: "@ + e@),
            _ => None,
        },
        Some(SocketActionView::SendFrame(_)) => match event {
            SocketEvent::SendFailed(e) => Some("Soniox audio upload failed: "@ + e@),
            _ => None,
        },
        Some(SocketActionView::SendPing) => match event {
            SocketEvent::SendFailed(e) => Some("the Soniox keepalive failed: "@ + e@),
            _ => None,
        },
        Some(SocketActionView::Wait) => match event {
            SocketEvent::Incoming(Incoming::Ended) if !st.ended => Some(
                "Soniox closed the connection"@,
            ),
            SocketEvent::Incoming(Incoming::Close) if !st.ended => Some(
                "Soniox closed the connection"@,
            ),
            SocketEvent::Incoming(Incoming::Failed(e)) if !st.ended => Some(
                "the Soniox connection dropped: "@ + e@,
            ),
            SocketEvent::Incoming(Incoming::Text(response)) => match response.error_type {
                Some(t) if protocol::retryable_type(t@) => Some(
                    (match response.error_message {
                        Some(m) => m@,
                        None => t@,
                    }) + " ("@ + t@ + ")"@,
                ),
                _ => None,
            },
            _ => None,
        },
        _ => None,
    }
}

/// An interrupted stream is never reported as finished. While attempts are left, the
/// session reports that it reconnects and sleeps, longer after each failure in a row;
/// once they are used up, it reports a fatal error and stops. A connection that
/// returned a response starts the count over.
pub proof fn law_an_interrupted_stream_is_retried(
    events: Seq<(SocketEvent, usize)>,
    event: SocketEvent,
    queued: usize,
)
    requires
        setback(story_of(events), event) is Some,
    ensures
        ({
            let st = told(story_of(events), event, queued);
            let reason = setback(story_of(events), event)->0;
            let failures = if st.heard {
                1
            } else {
                st.failures + 1
            };
            &&& failures <= client::MAX_RECONNECT_ATTEMPTS ==> reply(events, event, queued) == seq![
                SocketActionView::Report(InboundView::Reconnecting(reason)),
                SocketActionView::Sleep(client::backoff_of(failures as u32)),
            ]
            &&& failures > client::MAX_RECONNECT_ATTEMPTS ==> reply(events, event, queued) == seq![
                SocketActionView::Report(
                    InboundView::Fatal(
                        "Lost the Soniox connection and could not re-establish it after 5 attempts: "@
                            + reason,
                    ),
                ),
                SocketActionView::Stop,
            ]
        }),
{
    lemma_agrees(events);
}

/// Once the stream was ended, a peer that goes away has finished it, and so has one
/// that stays quiet for too long.
pub proof fn law_an_ended_stream_finishes(
    events: Seq<(SocketEvent, usize)>,
    event: SocketEvent,
    queued: usize,
)
    requires
        story_of(events).ended,
        story_of(events).last == Some(SocketActionView::Wait),
    ensures
        event matches SocketEvent::Incoming(incoming) && (incoming is Ended || incoming is Close
            || incoming is Failed) ==> reply(events, event, queued) == seq![
            SocketActionView::Report(InboundView::Finished),
            SocketActionView::Stop,
        ],
        event is WatchdogFired ==> reply(events, event, queued) == seq![
            SocketActionView::Close,
            SocketActionView::Report(InboundView::Finished),
            SocketActionView::Stop,
        ],
{
    lemma_agrees(events);
    assert(reply(events, event, queued) =~= reply(events, event, queued));
    if event is WatchdogFired {
        assert(reply(events, event, queued) =~= seq![
            SocketActionView::Close,
            SocketActionView::Report(InboundView::Finished),
            SocketActionView::Stop,
        ]);
    }
}

/// A report that the session is finished or failed.
pub open spec fn last_word(action: SocketActionView) -> bool {
    action matches SocketActionView::Report(m) && (m is Finished || m is Fatal)
}

/// Something that the owner waits on before anything else happens.
pub open spec fn waits(action: SocketActionView) -> bool {
    !(action is Close || action is ArmWatchdog || action is Release || action is Report)
}

/// A reply in which only the last action is waited on, last words come directly before
/// the stop, and a stop without one is `quiet`.
spec fn in_form(actions: Seq<SocketActionView>, quiet: bool) -> bool {
    &&& actions.len() > 0 ==> waits(actions.last())
    &&& forall|i: int| 0 <= i < actions.len() - 1 ==> !waits(#[trigger] actions[i])
    &&& forall|i: int|
        0 <= i < actions.len() && last_word(#[trigger] actions[i]) ==> i + 2 == actions.len()
            && actions[i + 1] is Stop
    &&& actions.len() > 0 && actions.last() is Stop ==> quiet || actions.len() >= 2 && last_word(
        actions[actions.len() - 2],
    )
}

proof fn lemma_in_form_after(
    first: SocketActionView,
    step: (SocketView, Seq<SocketActionView>),
    quiet: bool,
)
    requires
        in_form(step.1, quiet),
        step.1.len() > 0,
        !waits(first),
        !last_word(first),
    ensures
        in_form(client::after(first, step).1, quiet),
{
    let all = client::after(first, step).1;
    assert(all =~= seq![first] + step.1);
    assert(all.last() == step.1.last());
    assert forall|i: int| 0 <= i < all.len() - 1 implies !waits(#[trigger] all[i]) by {
        if i > 0 {
            assert(all[i] == step.1[i - 1]);
        }
    }
    assert forall|i: int| 0 <= i < all.len() && last_word(#[trigger] all[i]) implies i + 2
        == all.len() && all[i + 1] is Stop by {
        if i > 0 {
            assert(all[i] == step.1[i - 1]);
        }
    }
}

/// Whether an event shuts the session down.
pub open spec fn shuts_down(event: SocketEvent) -> bool {
    match event {
        SocketEvent::Queued(None) => true,
        SocketEvent::Queued(Some(Outbound::Shutdown)) => true,
        _ => false,
    }
}

proof fn lemma_in_form(s: SocketView, event: SocketEvent, queued: usize)
    ensures
        in_form(client::socket_step(s, event, queued).1, shuts_down(event)),
{
    let quiet = shuts_down(event);
    assert forall|o: client::Outcome| o is Shutdown ==> quiet implies in_form(
        (#[trigger] client::ended(s, o)).1,
        quiet,
    ) by {}
    let p = SocketView { progressed: true, ..s };
    match event {
        SocketEvent::Incoming(Incoming::Text(response)) => {
            let step = if response.finished {
                client::after(
                    SocketActionView::Close,
                    client::ended(p, client::Outcome::Finished),
                )
            } else {
                client::waiting(p)
            };
            lemma_in_form_after(
                SocketActionView::Close,
                client::ended(p, client::Outcome::Finished),
                quiet,
            );
            lemma_in_form_after(
                SocketActionView::Report(InboundView::Response(*response)),
                step,
                quiet,
            );
        },
        SocketEvent::Queued(Some(Outbound::Shutdown)) => {
            lemma_in_form_after(
                SocketActionView::Close,
                client::ended(s, client::Outcome::Shutdown),
                quiet,
            );
        },
        SocketEvent::Queued(Some(Outbound::Audio { pcm, samples })) => {
            lemma_in_form_after(SocketActionView::Release(samples), client::waiting(s), quiet);
        },
        SocketEvent::WatchdogFired => {
            lemma_in_form_after(
                SocketActionView::Close,
                client::ended(s, client::Outcome::Finished),
                quiet,
            );
        },
        SocketEvent::Sent => {
            lemma_in_form_after(
                SocketActionView::ArmWatchdog,
                client::waiting(SocketView { finishing: true, ..s }),
                quiet,
            );
        },
        _ => {},
    }
}

/// Where a session can say that it is finished.
proof fn lemma_finishes(s: SocketView, event: SocketEvent, queued: usize)
    ensures
        ({
            let actions = client::socket_step(s, event, queued).1;
            actions.len() >= 2 && actions[actions.len() - 2] == SocketActionView::Report(
                InboundView::Finished,
            ) ==> {
                ||| s.phase == SocketPhase::EndingStream
                ||| s.phase == SocketPhase::Running && s.finishing
                ||| s.phase == SocketPhase::Backoff && event matches SocketEvent::Queued(
                    Some(Outbound::Finish),
                )
                ||| event matches SocketEvent::Incoming(Incoming::Text(response))
                    && response.finished && response.error_type is None
            }
        }),
{
}

/// Where a session can send something.
proof fn lemma_sends(s: SocketView, event: SocketEvent, queued: usize)
    ensures
        ({
            let actions = client::socket_step(s, event, queued).1;
            &&& actions.len() > 0 && actions.last() is SendStart ==> s.phase
                == SocketPhase::Connecting
            &&& actions.len() > 0 && (actions.last() is SendFrame || actions.last() is SendPing
                || actions.last() is SendEndOfStream) ==> up(s.phase) || s.phase
                == SocketPhase::Starting || s.phase == SocketPhase::Flushing
        }),
{
}

/// A session reports that it is finished only where the stream was ended, the server
/// said so, or it was asked to finish with no connection up.
pub proof fn law_finished_means_finished(
    events: Seq<(SocketEvent, usize)>,
    event: SocketEvent,
    queued: usize,
    i: int,
)
    requires
        0 <= i < reply(events, event, queued).len(),
        reply(events, event, queued)[i] == SocketActionView::Report(InboundView::Finished),
    ensures
        ({
            let st = story_of(events);
            ||| st.ended
            ||| asleep(st) && event matches SocketEvent::Queued(Some(Outbound::Finish))
            ||| event matches SocketEvent::Incoming(Incoming::Text(response)) && response.finished
                && response.error_type is None
        }),
{
    lemma_agrees(events);
    lemma_in_form(session_of(events), event, queued);
    lemma_finishes(session_of(events), event, queued);
}

/// A last word is the last: behind a report that the session is finished or failed
/// there is nothing but the stop, and a session stops without one only if it was shut
/// down.
pub proof fn law_a_session_ends_with_one_last_word(
    events: Seq<(SocketEvent, usize)>,
    event: SocketEvent,
    queued: usize,
    i: int,
)
    requires
        0 <= i < reply(events, event, queued).len(),
    ensures
        ({
            let actions = reply(events, event, queued);
            &&& last_word(actions[i]) ==> i + 2 == actions.len() && actions[i + 1] is Stop
            &&& actions[i] is Stop ==> (i > 0 && last_word(actions[i - 1])) || shuts_down(event)
        }),
{
    lemma_in_form(session_of(events), event, queued);
}

/// The owner is never left without work: every reply but the last leaves exactly one
/// thing to wait for, and once a session stopped it replies to nothing.
pub proof fn law_a_session_waits_for_one_thing(
    events: Seq<(SocketEvent, usize)>,
    event: SocketEvent,
    queued: usize,
    i: int,
)
    requires
        0 <= i < reply(events, event, queued).len(),
    ensures
        waits(reply(events, event, queued)[i]) == (i + 1 == reply(events, event, queued).len()),
        story_of(events).last != Some(SocketActionView::Stop),
{
    lemma_agrees(events);
    lemma_in_form(session_of(events), event, queued);
}

/// A connection begins with the start frame, once: nothing is sent ahead of it, and it
/// answers every connection that comes about.
pub proof fn law_a_connection_begins_with_the_start_frame(
    events: Seq<(SocketEvent, usize)>,
    event: SocketEvent,
    queued: usize,
    i: int,
)
    ensures
        ({
            let st = story_of(events);
            let actions = reply(events, event, queued);
            &&& st.last is None && event is Start ==> actions == seq![SocketActionView::Connect]
            &&& st.last == Some(SocketActionView::Connect) && event is Connected ==> actions
                == seq![SocketActionView::SendStart]
            &&& 0 <= i < actions.len() && actions[i] is SendStart ==> !st.started
            &&& 0 <= i < actions.len() && (actions[i] is SendFrame || actions[i] is SendPing
                || actions[i] is SendEndOfStream) ==> st.started
            &&& asleep(st) && event is BackoffElapsed ==> actions == seq![SocketActionView::Connect]
        }),
{
    lemma_agrees(events);
    lemma_in_form(session_of(events), event, queued);
    lemma_sends(session_of(events), event, queued);
}

/// A request to finish ends the stream behind everything that is queued: the queue is
/// taken first, the end goes out when it is empty, and the watchdog watches the wait
/// for the answer. A second request changes nothing.
pub proof fn law_finishing_ends_the_stream_behind_the_queue(
    events: Seq<(SocketEvent, usize)>,
    event: SocketEvent,
    queued: usize,
)
    ensures
        ({
            let st = story_of(events);
            let actions = reply(events, event, queued);
            let finish = event matches SocketEvent::Queued(Some(Outbound::Finish));
            &&& st.last == Some(SocketActionView::Wait) && finish ==> actions == if st.ended {
                seq![SocketActionView::Wait]
            } else {
                seq![SocketActionView::TakeQueued]
            }
            &&& st.last == Some(SocketActionView::TakeQueued) ==> {
                &&& !st.ended
                &&& finish ==> actions == seq![SocketActionView::TakeQueued]
                &&& event is QueueEmpty ==> actions == seq![SocketActionView::SendEndOfStream]
            }
            &&& st.last == Some(SocketActionView::SendEndOfStream) && event is Sent ==> actions
                == seq![SocketActionView::ArmWatchdog, SocketActionView::Wait]
        }),
{
    lemma_agrees(events);
    let actions = reply(events, event, queued);
    if story_of(events).last == Some(SocketActionView::SendEndOfStream) && event is Sent {
        assert(actions =~= seq![SocketActionView::ArmWatchdog, SocketActionView::Wait]);
    }
}

/// Audio reaches the wire in the order in which it came: over any history, what went
/// out, followed by what waits for a connection, is all audio that the session was
/// given, but for what came behind the end of its stream or over the backlog ceiling.
pub proof fn law_audio_is_sent_in_order(events: Seq<(SocketEvent, usize)>)
    ensures
        ({
            let st = story_of(events);
            st.audio_in == st.audio_out + socket_laws::pending_audio(session_of(events))
        }),
{
    lemma_agrees(events);
}

/// The samples that wait for a connection.
pub closed spec fn samples_waiting(s: SocketView) -> int {
    pending_samples(s.pending)
}

/// The backlog does not leak: over any history, the samples that left it and those that
/// wait for a connection are the samples of all audio that the session was given,
/// whether it was sent, dropped or lost. With a connection up nothing waits.
pub proof fn law_the_backlog_is_released(events: Seq<(SocketEvent, usize)>)
    ensures
        ({
            let st = story_of(events);
            let waiting = samples_waiting(session_of(events));
            &&& st.samples_in == st.samples_released + waiting
            &&& st.last == Some(SocketActionView::Wait) ==> waiting == 0
        }),
{
    lemma_agrees(events);
}

/// Every token is reported once and in order: over any history, the tokens of the
/// reported responses are those of the responses that came without an error.
pub proof fn law_every_token_is_reported_once(events: Seq<(SocketEvent, usize)>)
    ensures
        story_of(events).tokens_out == story_of(events).tokens_in,
{
    lemma_agrees(events);
}

/// A server error that will not pass, and a frame that the protocol does not have, end
/// the session with a fatal error that says why.
pub proof fn law_a_rejected_session_is_fatal(
    events: Seq<(SocketEvent, usize)>,
    event: SocketEvent,
    queued: usize,
)
    requires
        story_of(events).last == Some(SocketActionView::Wait),
    ensures
        match event {
            SocketEvent::Incoming(Incoming::Text(response)) => match response.error_type {
                Some(t) => !protocol::retryable_type(t@) ==> reply(events, event, queued) == seq![
                    SocketActionView::Report(
                        InboundView::Fatal(
                            "Soniox rejected the session: "@ + ((match response.error_message {
                                Some(m) => m@,
                                None => t@,
                            }) + " ("@ + t@ + ")"@),
                        ),
                    ),
                    SocketActionView::Stop,
                ],
                None => true,
            },
            _ => true,
        },
        event matches SocketEvent::Incoming(Incoming::Binary) ==> reply(events, event, queued)
            == seq![
            SocketActionView::Report(
                InboundView::Fatal("Soniox sent a binary frame, which its protocol never uses"@),
            ),
            SocketActionView::Stop,
        ],
{
    lemma_agrees(events);
}

/// Whether an event is part of the ordinary course of a session.
pub open spec fn harmless(event: SocketEvent) -> bool {
    match event {
        SocketEvent::Start => true,
        SocketEvent::Connected => true,
        SocketEvent::Sent => true,
        SocketEvent::QueueEmpty => true,
        SocketEvent::PingDue => true,
        SocketEvent::BackoffElapsed => true,
        SocketEvent::Queued(Some(Outbound::Audio { .. })) => true,
        SocketEvent::Incoming(Incoming::Unparseable) => true,
        SocketEvent::Incoming(Incoming::Other) => true,
        SocketEvent::Incoming(Incoming::Text(response)) => response.error_type is None
            && !response.finished,
        _ => false,
    }
}

/// Nothing in the ordinary course of a session ends or interrupts it, a malformed frame
/// included; a keepalive that is due goes out, and a session that waited waits again.
pub proof fn law_the_ordinary_course_goes_on(
    events: Seq<(SocketEvent, usize)>,
    event: SocketEvent,
    queued: usize,
    i: int,
)
    requires
        harmless(event),
    ensures
        ({
            let st = story_of(events);
            let actions = reply(events, event, queued);
            let waiting = st.last == Some(SocketActionView::Wait);
            &&& 0 <= i < actions.len() ==> !(actions[i] is Stop || actions[i] is Close
                || actions[i] is Sleep)
            &&& 0 <= i < actions.len() && actions[i] is Report ==> actions[i]->Report_0 is Response
            &&& waiting && event is PingDue ==> actions == seq![SocketActionView::SendPing]
            &&& waiting && event is Incoming ==> actions.len() > 0 && actions.last()
                == SocketActionView::Wait
            &&& st.last == Some(SocketActionView::SendPing) && event is Sent ==> actions == seq![
                SocketActionView::Wait,
            ]
        }),
{
    lemma_agrees(events);
    lemma_goes_on(session_of(events), event, queued);
}

proof fn lemma_goes_on(s: SocketView, event: SocketEvent, queued: usize)
    requires
        harmless(event),
    ensures
        ({
            let actions = client::socket_step(s, event, queued).1;
            &&& forall|i: int|
                0 <= i < actions.len() ==> !((#[trigger] actions[i]) is Stop || actions[i] is Close
                    || actions[i] is Sleep) && (actions[i] is Report ==> actions[i]->Report_0
                    is Response)
            &&& s.phase == SocketPhase::Running && event is Incoming ==> actions.len() > 0
                && actions.last() == SocketActionView::Wait
        }),
{
    let actions = client::socket_step(s, event, queued).1;
    let p = SocketView { progressed: true, ..s };
    match event {
        SocketEvent::Incoming(Incoming::Text(response)) => {
            let report = SocketActionView::Report(InboundView::Response(*response));
            assert(client::after(report, client::waiting(p)).1 =~= seq![
                report,
                SocketActionView::Wait,
            ]);
        },
        SocketEvent::Queued(Some(Outbound::Audio { pcm, samples })) => {
            assert(client::after(
                SocketActionView::Release(samples),
                client::waiting(s),
            ).1 =~= seq![SocketActionView::Release(samples), SocketActionView::Wait]);
        },
        SocketEvent::Sent => {
            assert(client::after(
                SocketActionView::ArmWatchdog,
                client::waiting(SocketView { finishing: true, ..s }),
            ).1 =~= seq![SocketActionView::ArmWatchdog, SocketActionView::Wait]);
        },
        _ => {},
    }
}

} // verus!
