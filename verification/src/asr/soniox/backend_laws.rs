//! What the messages of a connection mean to the transcript and to the status.

use vstd::prelude::*;

use super::accumulator;
use super::accumulator::Lanes;
use super::backend;
use super::backend::Folding;
use super::client;
use super::client::Inbound;
use super::laws;
use super::laws::Event;
use crate::text;

verus! {

// ---------------------------------------------------------------------------
// The transcript
// ---------------------------------------------------------------------------

/// What a message means to the accumulator: a response is folded in, and where the
/// connection or the session is lost, everything open is finalized before the
/// accumulator starts over.
pub open spec fn events_of(messages: Seq<Inbound>) -> Seq<Event>
    decreases messages.len(),
{
    if messages.len() == 0 {
        Seq::empty()
    } else {
        let before = events_of(messages.drop_last());
        match messages.last() {
            Inbound::Response(response) => before.push(Event::Ingest(response.tokens@)),
            Inbound::Reconnecting(_) => before.push(Event::Finish).push(Event::Reset),
            Inbound::Finished => before,
            Inbound::Fatal(_) => before.push(Event::Finish).push(Event::Reset),
        }
    }
}

/// The lanes after a run of events.
pub open spec fn after_events(l: Lanes, events: Seq<Event>) -> Lanes
    decreases events.len(),
{
    if events.len() == 0 {
        l
    } else {
        laws::after_event(after_events(l, events.drop_last()), events.last())
    }
}

pub open spec fn lanes_of(f: Folding) -> Lanes {
    Lanes { held: f.held, next_id: f.next_id, out: f.out }
}

proof fn lemma_after_push(l: Lanes, events: Seq<Event>, event: Event)
    ensures
        after_events(l, events.push(event)) == laws::after_event(after_events(l, events), event),
{
    assert(events.push(event).drop_last() =~= events);
}

/// Folding messages is folding what they mean: every response in order, each once, and
/// at every loss all that is open is finalized first.
pub proof fn law_messages_mean_what_they_say(f: Folding, messages: Seq<Inbound>, now: u64)
    ensures
        lanes_of(backend::folded_all(f, messages, now)) == after_events(
            lanes_of(f),
            events_of(messages),
        ),
    decreases messages.len(),
{
    if messages.len() > 0 {
        let front = messages.drop_last();
        law_messages_mean_what_they_say(f, front, now);
        let before = backend::folded_all(f, front, now);
        let events = events_of(front);
        match messages.last() {
            Inbound::Response(response) => {
                lemma_after_push(lanes_of(f), events, Event::Ingest(response.tokens@));
            },
            Inbound::Finished => {},
            _ => {
                lemma_after_push(lanes_of(f), events, Event::Finish);
                lemma_after_push(lanes_of(f), events.push(Event::Finish), Event::Reset);
            },
        }
    }
}

/// The text of the final tokens of a run of messages, in order.
pub open spec fn heard_in(messages: Seq<Inbound>) -> Seq<char>
    decreases messages.len(),
{
    if messages.len() == 0 {
        Seq::empty()
    } else {
        let before = heard_in(messages.drop_last());
        match messages.last() {
            Inbound::Response(response) => before + laws::durable_text(response.tokens@),
            _ => before,
        }
    }
}

/// No response has a blank final token.
pub open spec fn nothing_blank(messages: Seq<Inbound>) -> bool {
    forall|i: int|
        0 <= i < messages.len() ==> ((#[trigger] messages[i]) matches Inbound::Response(response)
            ==> laws::no_blank_finals(response.tokens@))
}

/// No final token is lost, however often the connection is: the text of the final
/// updates, followed by what is still pending, is what was pending before, followed by
/// the final tokens of all responses, to the letter. No final token may be blank.
pub proof fn law_no_word_is_lost(f: Folding, messages: Seq<Inbound>, now: u64)
    requires
        f.out.len() == 0,
        laws::says_something(f.held),
        nothing_blank(messages),
    ensures
        ({
            let after = backend::folded_all(f, messages, now);
            &&& laws::final_text(after.out) + after.held.pending == f.held.pending + heard_in(
                messages,
            )
            &&& laws::says_something(after.held)
        }),
    decreases messages.len(),
{
    let after = backend::folded_all(f, messages, now);
    if messages.len() == 0 {
        assert(laws::final_text(f.out) == Seq::<char>::empty());
        assert(laws::final_text(after.out) + after.held.pending =~= f.held.pending + heard_in(
            messages,
        ));
    } else {
        let front = messages.drop_last();
        assert forall|i: int| 0 <= i < front.len() implies ((#[trigger] front[i]) matches
            Inbound::Response(response) ==> laws::no_blank_finals(response.tokens@)) by {
            assert(front[i] == messages[i]);
        }
        law_no_word_is_lost(f, front, now);
        let before = backend::folded_all(f, front, now);
        let said = laws::final_text(before.out);
        let last = messages[messages.len() - 1];
        assert(messages.last() == last);
        match last {
            Inbound::Response(response) => {
                let l = accumulator::ingested(before.held, before.next_id, response.tokens@);
                laws::law_durable_text_is_delivered_to_the_letter(
                    before.held,
                    before.next_id,
                    response.tokens@,
                );
                laws::lemma_final_text_add(before.out, l.out);
                assert((said + laws::final_text(l.out)) + l.held.pending =~= said + (
                laws::final_text(l.out) + l.held.pending));
                assert(said + (before.held.pending + laws::durable_text(response.tokens@)) =~= (said
                    + before.held.pending) + laws::durable_text(response.tokens@));
                assert((f.held.pending + heard_in(front)) + laws::durable_text(response.tokens@)
                    =~= f.held.pending + (heard_in(front) + laws::durable_text(response.tokens@)));
            },
            Inbound::Finished => {},
            _ => {
                let l = accumulator::finished(before.held, before.next_id);
                laws::law_finish_delivers_what_is_pending(before.held, before.next_id);
                laws::lemma_final_text_add(before.out, l.out);
                assert(laws::unless_blank(before.held.pending) =~= before.held.pending);
                assert(laws::final_text(after.out) + after.held.pending =~= said
                    + before.held.pending);
            },
        }
    }
}

// ---------------------------------------------------------------------------
// Speech and status
// ---------------------------------------------------------------------------

/// Some token of the response says something: it is no control token and has a
/// character that is no whitespace.
pub open spec fn speaks(message: Inbound) -> bool {
    message matches Inbound::Response(response) && exists|i: int, k: int|
        #![trigger response.tokens@[i].text@[k]]
        0 <= i < response.tokens@.len() && !response.tokens@[i].special() && 0 <= k
            < response.tokens@[i].text@.len() && !text::is_space(response.tokens@[i].text@[k])
}

proof fn lemma_speaks(message: Inbound)
    ensures
        speaks(message) == (message matches Inbound::Response(response) && backend::any_speech(
            response.tokens@,
        )),
{
    match message {
        Inbound::Response(response) => {
            let tokens = response.tokens@;
            if backend::any_speech(tokens) {
                let i = choose|i: int| 0 <= i < tokens.len() && (#[trigger] tokens[i]).speech();
                let words = tokens[i].text@;
                let k = choose|k: int|
                    0 <= k < words.len() && !text::is_space(#[trigger] words[k]);
                assert(!text::is_space(tokens[i].text@[k]));
            }
            if speaks(message) {
                let (i, k) = choose|i: int, k: int|
                    #![trigger tokens[i].text@[k]]
                    0 <= i < tokens.len() && !tokens[i].special() && 0 <= k
                        < tokens[i].text@.len() && !text::is_space(tokens[i].text@[k]);
                assert(tokens[i].speech());
            }
        },
        _ => {},
    }
}

/// Speech was last evident when a token last said something: a run of messages moves the
/// time to now exactly if one of its responses does. Neither a response without words
/// nor anything else does.
pub proof fn law_only_words_are_speech(f: Folding, messages: Seq<Inbound>, now: u64)
    ensures
        backend::folded_all(f, messages, now).last_speech_at == if exists|i: int|
            0 <= i < messages.len() && speaks(#[trigger] messages[i]) {
            Some(now)
        } else {
            f.last_speech_at
        },
    decreases messages.len(),
{
    if messages.len() > 0 {
        let front = messages.drop_last();
        law_only_words_are_speech(f, front, now);
        lemma_speaks(messages.last());
        let n = messages.len() - 1;
        assert(messages.last() == messages[n]);
        if exists|i: int| 0 <= i < front.len() && speaks(#[trigger] front[i]) {
            let i = choose|i: int| 0 <= i < front.len() && speaks(#[trigger] front[i]);
            assert(speaks(messages[i]));
        }
        if exists|i: int| 0 <= i < messages.len() && speaks(#[trigger] messages[i]) {
            let i = choose|i: int| 0 <= i < messages.len() && speaks(#[trigger] messages[i]);
            if i < n {
                assert(speaks(front[i]));
            }
        }
    }
}

/// The notice that a message leaves behind.
pub open spec fn notice(message: Inbound) -> Option<Seq<char>> {
    match message {
        Inbound::Reconnecting(reason) => Some("Reconnecting to Soniox: "@ + reason@),
        _ => None,
    }
}

/// The error that a message leaves behind.
pub open spec fn failure(message: Inbound) -> Option<Seq<char>> {
    match message {
        Inbound::Fatal(reason) => Some(reason@),
        _ => None,
    }
}

/// Every loss is owed a word, and nothing else is: behind a run of messages the notice
/// is that of its latest reconnect and the error that of its latest fatal message;
/// without one, what was owed before is still owed.
pub proof fn law_every_loss_is_owed_a_word(
    f: Folding,
    messages: Seq<Inbound>,
    now: u64,
    i: int,
)
    requires
        -1 <= i < messages.len(),
    ensures
        ({
            let after = backend::folded_all(f, messages, now);
            &&& (i == -1 || notice(messages[i]) is Some) && (forall|j: int|
                i < j < messages.len() ==> notice(#[trigger] messages[j]) is None)
                ==> after.transient == if i == -1 {
                f.transient
            } else {
                notice(messages[i])
            }
            &&& (i == -1 || failure(messages[i]) is Some) && (forall|j: int|
                i < j < messages.len() ==> failure(#[trigger] messages[j]) is None)
                ==> after.fatal == if i == -1 {
                f.fatal
            } else {
                failure(messages[i])
            }
        }),
    decreases messages.len(),
{
    if messages.len() > 0 {
        let front = messages.drop_last();
        let n = messages.len() - 1;
        assert(messages.last() == messages[n]);
        if i < n {
            law_every_loss_is_owed_a_word(f, front, now, i);
            if i >= 0 {
                assert(front[i] == messages[i]);
            }
            if forall|j: int| i < j < messages.len() ==> notice(#[trigger] messages[j]) is None {
                assert forall|j: int| i < j < front.len() implies notice(#[trigger] front[j])
                    is None by {
                    assert(front[j] == messages[j]);
                }
                assert(notice(messages[n]) is None);
            }
            if forall|j: int| i < j < messages.len() ==> failure(#[trigger] messages[j]) is None {
                assert forall|j: int| i < j < front.len() implies failure(#[trigger] front[j])
                    is None by {
                    assert(front[j] == messages[j]);
                }
                assert(failure(messages[n]) is None);
            }
        }
    }
}

/// The tail of a session is folded like the rest of it, but leaves no status behind and
/// is no evidence of speech; an error at this point flushes nothing, as the end of the
/// session will.
pub proof fn law_the_tail_is_part_of_the_transcript(f: Folding, message: Inbound, now: u64)
    ensures
        ({
            let tail = backend::tail_folded(f, message);
            &&& !(message is Fatal) ==> lanes_of(tail) == lanes_of(
                backend::folded(f, message, now),
            )
            &&& message is Fatal ==> tail == f
            &&& tail.transient == f.transient
            &&& tail.fatal == f.fatal
            &&& tail.last_speech_at == f.last_speech_at
        }),
{
}

// ---------------------------------------------------------------------------
// Language hints
// ---------------------------------------------------------------------------

/// The hints are the pieces of the setting that say something, trimmed, in order, and
/// none besides.
pub proof fn law_hints_are_the_pieces_that_say_something(pieces: Seq<Seq<char>>)
    ensures
        backend::hints_among(pieces) == pieces.map_values(
            |p: Seq<char>| text::trim_of(p),
        ).filter(|p: Seq<char>| p.len() > 0),
    decreases pieces.len(),
{
    let trim = |p: Seq<char>| text::trim_of(p);
    let some = |p: Seq<char>| p.len() > 0;
    let all = pieces.map_values(trim);
    reveal(Seq::filter);
    if pieces.len() > 0 {
        law_hints_are_the_pieces_that_say_something(pieces.drop_last());
        assert(all.drop_last() =~= pieces.drop_last().map_values(trim));
        assert(all.last() == text::trim_of(pieces.last()));
    }
}

// ---------------------------------------------------------------------------
// The backlog
// ---------------------------------------------------------------------------

/// Something that happens to the backlog.
pub enum Load {
    Offer { pcm: Seq<u8>, samples: usize },
    Release(usize),
}

/// The backlog after a run of offers and releases.
pub open spec fn backlog(loads: Seq<Load>) -> usize
    decreases loads.len(),
{
    if loads.len() == 0 {
        0
    } else {
        let before = backlog(loads.drop_last());
        match loads.last() {
            Load::Offer { pcm, samples } => if client::admitted(before, pcm, samples) {
                (before + samples) as usize
            } else {
                before
            },
            Load::Release(samples) => client::released(before, samples),
        }
    }
}

/// The backlog never passes thirty seconds of audio at 16 kHz, whatever is offered. A
/// frame is refused only if it holds no audio or would take the backlog past that; and
/// a frame without audio, which would end the stream, is always refused.
pub proof fn law_the_backlog_is_bounded(loads: Seq<Load>, pcm: Seq<u8>, samples: usize)
    ensures
        backlog(loads) <= 30 * 16_000,
        !client::admitted(backlog(loads), pcm, samples) <==> pcm.len() == 0 || samples == 0
            || backlog(loads) + samples > 30 * 16_000,
    decreases loads.len(),
{
    if loads.len() > 0 {
        law_the_backlog_is_bounded(loads.drop_last(), pcm, samples);
    }
}

/// What is released leaves the backlog, as far as it is there.
pub proof fn law_released_samples_leave_the_backlog(queued: usize, samples: usize)
    ensures
        client::released(queued, samples) <= queued,
        samples <= queued ==> client::released(queued, samples) + samples == queued,
        samples >= queued ==> client::released(queued, samples) == 0,
{
}

/// The delay before an attempt doubles from half a second, up to fifteen seconds.
pub proof fn law_backoff_doubles(attempt: u32)
    requires
        1 <= attempt < u32::MAX,
    ensures
        client::backoff_of(1) == 500,
        client::backoff_of((attempt + 1) as u32) == if 2 * client::backoff_of(attempt) < 15_000 {
            2 * client::backoff_of(attempt)
        } else {
            15_000
        },
{
    client::law_backoff_grows_to_a_cap(attempt);
}

} // verus!
