//! What holds of every stream of updates that an accumulator emits.

use vstd::prelude::*;

use super::accumulator::AccumulatorView;
use super::accumulator::Lanes;
use super::backend;
use super::backend::Folding;
use super::client::Inbound;
use super::accumulator;
use super::protocol::SonioxToken;
use crate::asr::UpdateView;
use crate::asr;
use crate::text;

verus! {

// ---------------------------------------------------------------------------
// Ids
// ---------------------------------------------------------------------------

/// A stream that obeys the update rule so far, with the open segment's id and
/// the next id positioned so that it can go on.
spec fn in_order(trace: Seq<UpdateView>, held: AccumulatorView, next_id: u64) -> bool {
    &&& asr::follows_update_rule(trace)
    &&& forall|i: int| 0 <= i < trace.len() ==> (#[trigger] trace[i]).segment_id < next_id
    &&& held.open_id matches Some(open) ==> {
        &&& open < next_id
        &&& forall|i: int|
            0 <= i < trace.len() ==> (#[trigger] trace[i]).segment_id <= open && (trace[i].is_final
                ==> trace[i].segment_id < open)
    }
}

spec fn lanes_in_order(past: Seq<UpdateView>, l: Lanes) -> bool {
    in_order(past + l.out, l.held, l.next_id)
}

proof fn lemma_flushed_in_order(past: Seq<UpdateView>, l: Lanes)
    requires
        lanes_in_order(past, l),
        l.next_id < u64::MAX,
    ensures
        lanes_in_order(past, accumulator::flushed(l)),
        l.next_id <= accumulator::flushed(l).next_id <= l.next_id + 1,
{
    if !text::is_blank_text(l.held.pending) {
        assert(past + accumulator::flushed(l).out == (past + l.out).push(accumulator::flushed(l).out.last()));
    }
}

proof fn lemma_token_in_order(past: Seq<UpdateView>, l: Lanes, token: SonioxToken)
    requires
        lanes_in_order(past, l),
        l.next_id < u64::MAX - 1,
    ensures
        lanes_in_order(past, accumulator::durable_token(l, token)),
        l.next_id <= accumulator::durable_token(l, token).next_id <= l.next_id + 2,
{
    lemma_flushed_in_order(past, l);
    let at = accumulator::attributed(l, token.speaker_label());
    assert(lanes_in_order(past, at));
    lemma_flushed_in_order(past, at);
    let grown = Lanes {
        held: AccumulatorView { pending: at.held.pending + token.text@, ..at.held },
        ..at
    };
    assert(lanes_in_order(past, grown));
    lemma_flushed_in_order(past, grown);
}

proof fn lemma_durable_in_order(past: Seq<UpdateView>, l: Lanes, tokens: Seq<SonioxToken>)
    requires
        lanes_in_order(past, l),
        l.next_id + 2 * tokens.len() < u64::MAX,
    ensures
        lanes_in_order(past, accumulator::durable_lane(l, tokens)),
        l.next_id <= accumulator::durable_lane(l, tokens).next_id <= l.next_id + 2 * tokens.len(),
    decreases tokens.len(),
{
    if tokens.len() > 0 {
        lemma_durable_in_order(past, l, tokens.drop_last());
        let before = accumulator::durable_lane(l, tokens.drop_last());
        if tokens.last().is_final {
            lemma_token_in_order(past, before, tokens.last());
        }
    }
}

proof fn lemma_volatile_in_order(past: Seq<UpdateView>, l: Lanes, tail: Seq<char>)
    requires
        lanes_in_order(past, l),
        l.next_id < u64::MAX,
    ensures
        lanes_in_order(past, accumulator::volatile_lane(l, tail)),
        l.next_id <= accumulator::volatile_lane(l, tail).next_id <= l.next_id + 1,
{
    let after = accumulator::volatile_lane(l, tail);
    if after.out.len() > l.out.len() {
        assert(past + after.out == (past + l.out).push(after.out.last()));
    }
}

/// Something that happens to an accumulator between two points in time.
pub enum Event {
    /// A response with these tokens is folded in.
    Ingest(Seq<SonioxToken>),
    /// Everything open is finalized.
    Finish,
    /// Everything in flight is dropped.
    Reset,
    /// Other owners of the shared counter draw this many ids.
    OtherIds(nat),
}

/// An upper bound on the ids that an event draws.
pub open spec fn ids_drawn(event: Event) -> nat {
    match event {
        Event::Ingest(tokens) => 2 * tokens.len() + 1,
        Event::Finish => 1,
        Event::Reset => 0,
        Event::OtherIds(n) => n,
    }
}

pub open spec fn ids_drawn_by_all(history: Seq<Event>) -> nat
    decreases history.len(),
{
    if history.len() == 0 {
        0
    } else {
        ids_drawn_by_all(history.drop_last()) + ids_drawn(history.last())
    }
}

/// The lanes after one event; `out` grows by what the event emits.
pub open spec fn after_event(l: Lanes, event: Event) -> Lanes {
    match event {
        Event::Ingest(tokens) => {
            let step = accumulator::ingested(l.held, l.next_id, tokens);
            Lanes { out: l.out + step.out, ..step }
        },
        Event::Finish => {
            let step = accumulator::finished(l.held, l.next_id);
            Lanes { out: l.out + step.out, ..step }
        },
        Event::Reset => Lanes { held: accumulator::nothing_held(), ..l },
        Event::OtherIds(n) => Lanes { next_id: (l.next_id + n) as u64, ..l },
    }
}

/// A whole history, from a fresh accumulator and a counter at `first_id`.
pub open spec fn after_history(first_id: u64, history: Seq<Event>) -> Lanes
    decreases history.len(),
{
    if history.len() == 0 {
        Lanes { held: accumulator::nothing_held(), next_id: first_id, out: Seq::empty() }
    } else {
        after_event(after_history(first_id, history.drop_last()), history.last())
    }
}

proof fn lemma_event_in_order(l: Lanes, event: Event)
    requires
        in_order(l.out, l.held, l.next_id),
        l.next_id + ids_drawn(event) < u64::MAX,
    ensures
        ({
            let after = after_event(l, event);
            &&& in_order(after.out, after.held, after.next_id)
            &&& after.next_id <= l.next_id + ids_drawn(event)
        }),
{
    let fresh = Lanes { held: l.held, next_id: l.next_id, out: Seq::empty() };
    assert(l.out + fresh.out == l.out);
    match event {
        Event::Ingest(tokens) => {
            lemma_durable_in_order(l.out, fresh, tokens);
            lemma_volatile_in_order(
                l.out,
                accumulator::durable_lane(fresh, tokens),
                accumulator::provisional_tail(tokens),
            );
        },
        Event::Finish => {
            lemma_flushed_in_order(l.out, fresh);
            let step = accumulator::flushed(fresh);
            let after = after_event(l, event);
            if step.out.len() == 0 && step.held.open_emitted && step.held.open_id is Some {
                assert(after.out == l.out.push(after.out.last()));
                assert(l.out + step.out == l.out);
            }
        },
        Event::Reset => {},
        Event::OtherIds(n) => {},
    }
}

proof fn lemma_history_in_order(first_id: u64, history: Seq<Event>)
    requires
        first_id + ids_drawn_by_all(history) < u64::MAX,
    ensures
        ({
            let l = after_history(first_id, history);
            &&& in_order(l.out, l.held, l.next_id)
            &&& l.next_id <= first_id + ids_drawn_by_all(history)
        }),
    decreases history.len(),
{
    if history.len() > 0 {
        lemma_history_in_order(first_id, history.drop_last());
        lemma_event_in_order(after_history(first_id, history.drop_last()), history.last());
    }
}

/// Whatever responses arrive, and whenever everything open is finalized or
/// dropped, the updates obey the update rule: ids never go back, and nothing
/// follows a final update under its id. The counter must not run out of ids.
pub proof fn law_updates_follow_the_rule(first_id: u64, history: Seq<Event>)
    requires
        first_id + ids_drawn_by_all(history) < u64::MAX,
    ensures
        asr::follows_update_rule(after_history(first_id, history).out),
{
    lemma_history_in_order(first_id, history);
}

/// An upper bound on the ids that folding a message draws.
pub open spec fn ids_drawn_by_message(message: Inbound) -> nat {
    match message {
        Inbound::Response(response) => 2 * response.tokens@.len() + 1,
        Inbound::Reconnecting(_) => 1,
        Inbound::Finished => 0,
        Inbound::Fatal(_) => 1,
    }
}

pub open spec fn ids_drawn_by_messages(messages: Seq<Inbound>) -> nat
    decreases messages.len(),
{
    if messages.len() == 0 {
        0
    } else {
        ids_drawn_by_messages(messages.drop_last()) + ids_drawn_by_message(messages.last())
    }
}

proof fn lemma_folded_in_order(f: Folding, message: Inbound, now: u64)
    requires
        in_order(f.out, f.held, f.next_id),
        f.next_id + ids_drawn_by_message(message) < u64::MAX,
    ensures
        ({
            let after = backend::folded(f, message, now);
            &&& in_order(after.out, after.held, after.next_id)
            &&& after.next_id <= f.next_id + ids_drawn_by_message(message)
        }),
{
    let l = Lanes { held: f.held, next_id: f.next_id, out: f.out };
    match message {
        Inbound::Response(response) => {
            lemma_event_in_order(l, Event::Ingest(response.tokens@));
        },
        Inbound::Reconnecting(_) => {
            lemma_event_in_order(l, Event::Finish);
            lemma_event_in_order(after_event(l, Event::Finish), Event::Reset);
        },
        Inbound::Finished => {},
        Inbound::Fatal(_) => {
            lemma_event_in_order(l, Event::Finish);
            lemma_event_in_order(after_event(l, Event::Finish), Event::Reset);
        },
    }
}

proof fn lemma_folded_all_in_order(f: Folding, messages: Seq<Inbound>, now: u64)
    requires
        in_order(f.out, f.held, f.next_id),
        f.next_id + ids_drawn_by_messages(messages) < u64::MAX,
    ensures
        ({
            let after = backend::folded_all(f, messages, now);
            &&& in_order(after.out, after.held, after.next_id)
            &&& after.next_id <= f.next_id + ids_drawn_by_messages(messages)
        }),
    decreases messages.len(),
{
    if messages.len() > 0 {
        lemma_folded_all_in_order(f, messages.drop_last(), now);
        lemma_folded_in_order(
            backend::folded_all(f, messages.drop_last(), now),
            messages.last(),
            now,
        );
    }
}

/// Whatever the socket side reports, reconnects and failures included, the updates
/// obey the update rule. The counter must not run out of ids.
pub proof fn law_folded_updates_follow_the_rule(f: Folding, messages: Seq<Inbound>, now: u64)
    requires
        f.held == accumulator::nothing_held(),
        f.out.len() == 0,
        f.next_id + ids_drawn_by_messages(messages) < u64::MAX,
    ensures
        asr::follows_update_rule(backend::folded_all(f, messages, now).out),
{
    lemma_folded_all_in_order(f, messages, now);
}

/// A lost connection or a fatal error delivers what is pending before it is
/// reported: the final text is the pending text, unless that is blank.
pub proof fn law_pending_text_survives_a_failure(f: Folding, message: Inbound, now: u64)
    requires
        message is Reconnecting || message is Fatal,
        f.out.len() == 0,
    ensures
        ({
            let after = backend::folded(f, message, now);
            &&& final_text(after.out) == unless_blank(f.held.pending)
            &&& after.held == accumulator::nothing_held()
            &&& message is Fatal ==> after.fatal is Some
            &&& message is Reconnecting ==> after.transient is Some
        }),
{
    law_finish_delivers_what_is_pending(f.held, f.next_id);
    let l = accumulator::finished(f.held, f.next_id);
    assert(f.out + l.out =~= l.out);
}

// ---------------------------------------------------------------------------
// Text
// ---------------------------------------------------------------------------

/// `s` without its whitespace.
pub open spec fn solid(s: Seq<char>) -> Seq<char> {
    s.filter(|c: char| !text::is_space(c))
}

/// The text of the final updates in `out`, in order.
pub open spec fn final_text(out: Seq<UpdateView>) -> Seq<char>
    decreases out.len(),
{
    if out.len() == 0 {
        Seq::empty()
    } else if out.last().is_final {
        final_text(out.drop_last()) + out.last().text
    } else {
        final_text(out.drop_last())
    }
}

/// The text of the final tokens that are no control tokens, in order.
pub open spec fn durable_text(tokens: Seq<SonioxToken>) -> Seq<char>
    decreases tokens.len(),
{
    if tokens.len() == 0 {
        Seq::empty()
    } else if tokens.last().is_final && !tokens.last().special() {
        durable_text(tokens.drop_last()) + tokens.last().text@
    } else {
        durable_text(tokens.drop_last())
    }
}

/// What the durable lane has seen: the final updates' text, then what is pending.
spec fn seen(l: Lanes) -> Seq<char> {
    final_text(l.out) + l.held.pending
}

pub proof fn lemma_solid_add(a: Seq<char>, b: Seq<char>)
    ensures
        solid(a + b) == solid(a) + solid(b),
{
    Seq::filter_distributes_over_add(a, b, |c: char| !text::is_space(c));
}

pub proof fn lemma_solid_blank(s: Seq<char>)
    requires
        text::is_blank_text(s),
    ensures
        solid(s) == Seq::<char>::empty(),
    decreases s.len(),
{
    reveal(Seq::filter);
    if s.len() > 0 {
        assert(text::is_space(s[s.len() - 1]));
        assert forall|i: int| 0 <= i < s.drop_last().len() implies text::is_space(
            #[trigger] s.drop_last()[i],
        ) by {
            assert(s.drop_last()[i] == s[i]);
        }
        lemma_solid_blank(s.drop_last());
    }
}

proof fn lemma_flushed_keeps_text(l: Lanes)
    ensures
        solid(seen(accumulator::flushed(l))) == solid(seen(l)),
{
    let after = accumulator::flushed(l);
    lemma_solid_add(final_text(l.out), l.held.pending);
    if text::is_blank_text(l.held.pending) {
        lemma_solid_blank(l.held.pending);
        lemma_solid_add(final_text(l.out), Seq::empty());
        assert(seen(after) == final_text(l.out) + Seq::<char>::empty());
        lemma_solid_blank(Seq::empty());
    } else {
        assert(after.out.drop_last() == l.out);
        assert(seen(after) == final_text(l.out) + l.held.pending);
    }
}

proof fn lemma_attributed_keeps_text(l: Lanes, label: Option<Seq<char>>)
    ensures
        solid(seen(accumulator::attributed(l, label))) == solid(seen(l)),
{
    lemma_flushed_keeps_text(l);
}

proof fn lemma_token_keeps_text(l: Lanes, token: SonioxToken)
    ensures
        solid(seen(accumulator::durable_token(l, token))) == solid(seen(l)) + solid(
            if token.special() {
                Seq::empty()
            } else {
                token.text@
            },
        ),
{
    let at = accumulator::attributed(l, token.speaker_label());
    lemma_attributed_keeps_text(l, token.speaker_label());
    lemma_solid_blank(Seq::empty());
    if token.end_marker() {
        lemma_flushed_keeps_text(at);
    } else if !token.special() {
        let grown = Lanes {
            held: AccumulatorView { pending: at.held.pending + token.text@, ..at.held },
            ..at
        };
        assert(seen(grown) == seen(at) + token.text@);
        lemma_solid_add(seen(at), token.text@);
        lemma_flushed_keeps_text(grown);
    }
}

proof fn lemma_durable_keeps_text(l: Lanes, tokens: Seq<SonioxToken>)
    ensures
        solid(seen(accumulator::durable_lane(l, tokens))) == solid(seen(l)) + solid(durable_text(tokens)),
    decreases tokens.len(),
{
    lemma_solid_blank(Seq::empty());
    if tokens.len() > 0 {
        let before = accumulator::durable_lane(l, tokens.drop_last());
        lemma_durable_keeps_text(l, tokens.drop_last());
        if tokens.last().is_final {
            lemma_token_keeps_text(before, tokens.last());
            lemma_solid_add(durable_text(tokens.drop_last()), tokens.last().text@);
        }
    }
}

/// Durable text is delivered exactly once. Apart from whitespace, the text of the
/// final updates that a response brings, followed by what is then pending, is
/// what was pending before, followed by the response's final tokens; control
/// tokens contribute nothing.
pub proof fn law_durable_text_is_delivered_once(
    held: AccumulatorView,
    next_id: u64,
    tokens: Seq<SonioxToken>,
)
    ensures
        ({
            let l = accumulator::ingested(held, next_id, tokens);
            solid(final_text(l.out) + l.held.pending) == solid(held.pending + durable_text(tokens))
        }),
{
    let start = Lanes { held, next_id, out: Seq::empty() };
    let l = accumulator::durable_lane(start, tokens);
    lemma_durable_keeps_text(start, tokens);
    assert(seen(start) == held.pending);
    lemma_solid_add(held.pending, durable_text(tokens));
    let shown = accumulator::volatile_lane(l, accumulator::provisional_tail(tokens));
    if shown.out.len() > l.out.len() {
        assert(shown.out.drop_last() == l.out);
    }
}

/// `s`, or nothing where it is blank.
pub open spec fn unless_blank(s: Seq<char>) -> Seq<char> {
    if text::is_blank_text(s) {
        Seq::empty()
    } else {
        s
    }
}

/// Finishing delivers exactly what is pending, unless that is blank, and leaves
/// nothing pending and nothing open; a second finish emits nothing.
pub proof fn law_finish_delivers_what_is_pending(held: AccumulatorView, next_id: u64)
    ensures
        ({
            let l = accumulator::finished(held, next_id);
            &&& final_text(l.out) == unless_blank(held.pending)
            &&& l.held.pending.len() == 0
            &&& l.held.open_id is None
            &&& accumulator::finished(l.held, l.next_id).out.len() == 0
        }),
{
    let l = accumulator::finished(held, next_id);
    if l.out.len() > 0 {
        assert(l.out.drop_last() =~= Seq::<UpdateView>::empty());
        assert(final_text(l.out.drop_last()) == Seq::<char>::empty());
    }
    assert(final_text(l.out) =~= unless_blank(held.pending));
    assert(l.held.pending == Seq::<char>::empty());
}

// ---------------------------------------------------------------------------
// Text, to the letter
// ---------------------------------------------------------------------------

/// Text is pending only if it says something.
pub open spec fn says_something(held: AccumulatorView) -> bool {
    held.pending.len() == 0 || !text::is_blank_text(held.pending)
}

/// No final token is blank, control tokens aside.
pub open spec fn no_blank_finals(tokens: Seq<SonioxToken>) -> bool {
    forall|i: int|
        0 <= i < tokens.len() && (#[trigger] tokens[i]).is_final && !tokens[i].special()
            ==> !text::is_blank_text(tokens[i].text@)
}

proof fn lemma_flushed_keeps_every_letter(l: Lanes)
    requires
        says_something(l.held),
    ensures
        seen(accumulator::flushed(l)) == seen(l),
        says_something(accumulator::flushed(l).held),
{
    let after = accumulator::flushed(l);
    if text::is_blank_text(l.held.pending) {
        assert(seen(after) =~= seen(l));
    } else {
        assert(after.out.drop_last() =~= l.out);
        assert(seen(after) =~= seen(l));
    }
}

/// Where something is said at the end, the whole is not blank.
proof fn lemma_said_behind_anything(a: Seq<char>, b: Seq<char>)
    requires
        !text::is_blank_text(b),
    ensures
        !text::is_blank_text(a + b),
{
    if text::is_blank_text(a + b) {
        assert forall|i: int| 0 <= i < b.len() implies text::is_space(#[trigger] b[i]) by {
            assert((a + b)[a.len() + i] == b[i]);
        }
    }
}

proof fn lemma_token_keeps_every_letter(l: Lanes, token: SonioxToken)
    requires
        says_something(l.held),
        !token.special() ==> !text::is_blank_text(token.text@),
    ensures
        seen(accumulator::durable_token(l, token)) == if token.special() {
            seen(l)
        } else {
            seen(l) + token.text@
        },
        says_something(accumulator::durable_token(l, token).held),
{
    let at = accumulator::attributed(l, token.speaker_label());
    lemma_flushed_keeps_every_letter(l);
    assert(seen(at) == seen(l) && says_something(at.held));
    if token.end_marker() {
        lemma_flushed_keeps_every_letter(at);
    } else if !token.special() {
        let grown = Lanes {
            held: AccumulatorView { pending: at.held.pending + token.text@, ..at.held },
            ..at
        };
        assert(seen(grown) =~= seen(at) + token.text@);
        lemma_said_behind_anything(at.held.pending, token.text@);
        lemma_flushed_keeps_every_letter(grown);
    }
}

proof fn lemma_durable_keeps_every_letter(l: Lanes, tokens: Seq<SonioxToken>)
    requires
        says_something(l.held),
        no_blank_finals(tokens),
    ensures
        seen(accumulator::durable_lane(l, tokens)) == seen(l) + durable_text(tokens),
        says_something(accumulator::durable_lane(l, tokens).held),
    decreases tokens.len(),
{
    if tokens.len() == 0 {
        assert(seen(l) + durable_text(tokens) =~= seen(l));
    } else {
        let front = tokens.drop_last();
        assert forall|i: int|
            0 <= i < front.len() && (#[trigger] front[i]).is_final
                && !front[i].special() implies !text::is_blank_text(front[i].text@) by {
            assert(front[i] == tokens[i]);
        }
        lemma_durable_keeps_every_letter(l, front);
        let before = accumulator::durable_lane(l, front);
        let last = tokens[tokens.len() - 1];
        assert(tokens.last() == last);
        if last.is_final {
            lemma_token_keeps_every_letter(before, last);
            assert((seen(l) + durable_text(front)) + last.text@ =~= seen(l) + (durable_text(front)
                + last.text@));
        }
    }
}

/// Durable text is delivered to the letter, whitespace included, where no final token
/// is blank: the text of the final updates that a response brings, followed by what
/// is then pending, is what was pending before, followed by the response's final
/// tokens.
pub proof fn law_durable_text_is_delivered_to_the_letter(
    held: AccumulatorView,
    next_id: u64,
    tokens: Seq<SonioxToken>,
)
    requires
        says_something(held),
        no_blank_finals(tokens),
    ensures
        ({
            let l = accumulator::ingested(held, next_id, tokens);
            &&& final_text(l.out) + l.held.pending == held.pending + durable_text(tokens)
            &&& says_something(l.held)
        }),
{
    let start = Lanes { held, next_id, out: Seq::empty() };
    let l = accumulator::durable_lane(start, tokens);
    lemma_durable_keeps_every_letter(start, tokens);
    assert(seen(start) =~= held.pending);
    let shown = accumulator::volatile_lane(l, accumulator::provisional_tail(tokens));
    if shown.out.len() > l.out.len() {
        assert(shown.out.drop_last() =~= l.out);
    }
}

pub proof fn lemma_final_text_add(a: Seq<UpdateView>, b: Seq<UpdateView>)
    ensures
        final_text(a + b) == final_text(a) + final_text(b),
    decreases b.len(),
{
    if b.len() == 0 {
        assert(a + b =~= a);
        assert(final_text(a) + final_text(b) =~= final_text(a));
    } else {
        lemma_final_text_add(a, b.drop_last());
        assert((a + b).drop_last() =~= a + b.drop_last());
        assert((final_text(a) + final_text(b.drop_last())) + b.last().text =~= final_text(a) + (
        final_text(b.drop_last()) + b.last().text));
    }
}

/// The text of the final tokens of a history, in order.
pub open spec fn spoken(history: Seq<Event>) -> Seq<char>
    decreases history.len(),
{
    if history.len() == 0 {
        Seq::empty()
    } else {
        match history.last() {
            Event::Ingest(tokens) => spoken(history.drop_last()) + durable_text(tokens),
            _ => spoken(history.drop_last()),
        }
    }
}

/// No response of the history has a blank final token, and nothing is pending where
/// what is in flight is dropped.
pub open spec fn loses_nothing(first_id: u64, history: Seq<Event>) -> bool
    decreases history.len(),
{
    history.len() == 0 || {
        &&& loses_nothing(first_id, history.drop_last())
        &&& match history.last() {
            Event::Ingest(tokens) => no_blank_finals(tokens),
            Event::Reset => after_history(
                first_id,
                history.drop_last(),
            ).held.pending.len() == 0,
            _ => true,
        }
    }
}

/// Over a whole history the final updates hold the final tokens, each once, in order
/// and to the letter, up to what is still pending; once everything is finalized,
/// nothing is. No final token may be blank, and nothing pending may be dropped.
pub proof fn law_history_is_delivered_to_the_letter(first_id: u64, history: Seq<Event>)
    requires
        loses_nothing(first_id, history),
    ensures
        ({
            let l = after_history(first_id, history);
            &&& final_text(l.out) + l.held.pending == spoken(history)
            &&& says_something(l.held)
            &&& history.len() > 0 && history.last() is Finish ==> final_text(l.out) == spoken(
                history,
            )
        }),
    decreases history.len(),
{
    let l = after_history(first_id, history);
    if history.len() > 0 {
        let front = history.drop_last();
        let before = after_history(first_id, front);
        law_history_is_delivered_to_the_letter(first_id, front);
        match history.last() {
            Event::Ingest(tokens) => {
                let step = accumulator::ingested(before.held, before.next_id, tokens);
                law_durable_text_is_delivered_to_the_letter(before.held, before.next_id, tokens);
                lemma_final_text_add(before.out, step.out);
                assert(final_text(l.out) + l.held.pending =~= final_text(before.out) + (final_text(
                    step.out,
                ) + step.held.pending));
                assert(final_text(before.out) + (before.held.pending + durable_text(tokens))
                    =~= (final_text(before.out) + before.held.pending) + durable_text(tokens));
            },
            Event::Finish => {
                let step = accumulator::finished(before.held, before.next_id);
                law_finish_delivers_what_is_pending(before.held, before.next_id);
                lemma_final_text_add(before.out, step.out);
                assert(unless_blank(before.held.pending) =~= before.held.pending);
                assert(final_text(l.out) + l.held.pending =~= final_text(l.out));
            },
            Event::Reset => {
                assert(final_text(l.out) + l.held.pending =~= final_text(before.out)
                    + before.held.pending);
            },
            Event::OtherIds(_) => {},
        }
    } else {
        assert(final_text(l.out) + l.held.pending =~= spoken(history));
    }
}

// ---------------------------------------------------------------------------
// What is shown
// ---------------------------------------------------------------------------

/// The id of the segment that is shown and can still change: that of the last update,
/// where it is not final.
pub open spec fn shown_open(trace: Seq<UpdateView>) -> Option<u64> {
    if trace.len() > 0 && !trace.last().is_final {
        Some(trace.last().segment_id)
    } else {
        None
    }
}

spec fn open_as_shown(past: Seq<UpdateView>, l: Lanes) -> bool {
    &&& l.held.open_id == shown_open(past + l.out)
    &&& l.held.open_emitted == (l.held.open_id is Some)
}

proof fn lemma_flushed_as_shown(past: Seq<UpdateView>, l: Lanes)
    requires
        open_as_shown(past, l),
    ensures
        open_as_shown(past, accumulator::flushed(l)),
{
    let after = accumulator::flushed(l);
    if !text::is_blank_text(l.held.pending) {
        assert(past + after.out =~= (past + l.out).push(after.out.last()));
    }
}

proof fn lemma_durable_as_shown(past: Seq<UpdateView>, l: Lanes, tokens: Seq<SonioxToken>)
    requires
        open_as_shown(past, l),
    ensures
        open_as_shown(past, accumulator::durable_lane(l, tokens)),
    decreases tokens.len(),
{
    if tokens.len() > 0 {
        lemma_durable_as_shown(past, l, tokens.drop_last());
        let before = accumulator::durable_lane(l, tokens.drop_last());
        let token = tokens.last();
        if token.is_final {
            lemma_flushed_as_shown(past, before);
            let at = accumulator::attributed(before, token.speaker_label());
            assert(open_as_shown(past, at));
            lemma_flushed_as_shown(past, at);
            let grown = Lanes {
                held: AccumulatorView { pending: at.held.pending + token.text@, ..at.held },
                ..at
            };
            assert(open_as_shown(past, grown));
            lemma_flushed_as_shown(past, grown);
        }
    }
}

/// What is in flight is dropped only while no segment is shown that can still change.
pub open spec fn drops_nothing_shown(first_id: u64, history: Seq<Event>) -> bool
    decreases history.len(),
{
    history.len() == 0 || {
        &&& drops_nothing_shown(first_id, history.drop_last())
        &&& history.last() is Reset ==> shown_open(
            after_history(first_id, history.drop_last()).out,
        ) is None
    }
}

proof fn lemma_history_as_shown(first_id: u64, history: Seq<Event>)
    requires
        drops_nothing_shown(first_id, history),
    ensures
        ({
            let l = after_history(first_id, history);
            &&& l.held.open_id == shown_open(l.out)
            &&& l.held.open_emitted == (l.held.open_id is Some)
            &&& l.held.pending.len() > 0 ==> l.held.open_id is Some
        }),
    decreases history.len(),
{
    let l = after_history(first_id, history);
    if history.len() > 0 {
        let before = after_history(first_id, history.drop_last());
        lemma_history_as_shown(first_id, history.drop_last());
        let fresh = Lanes { held: before.held, next_id: before.next_id, out: Seq::empty() };
        assert(before.out + fresh.out =~= before.out);
        match history.last() {
            Event::Ingest(tokens) => {
                lemma_durable_as_shown(before.out, fresh, tokens);
                let durable = accumulator::durable_lane(fresh, tokens);
                let step = accumulator::ingested(before.held, before.next_id, tokens);
                if step.out.len() > durable.out.len() {
                    assert(before.out + step.out =~= (before.out + durable.out).push(
                        step.out.last(),
                    ));
                }
            },
            Event::Finish => {
                let step = accumulator::finished(before.held, before.next_id);
                if step.out.len() > 0 {
                    assert((before.out + step.out).last() == step.out.last());
                } else {
                    assert(before.out + step.out =~= before.out);
                }
            },
            Event::Reset => {},
            Event::OtherIds(_) => {},
        }
    }
}

/// Finalizing closes exactly what is shown: after any history it emits nothing where
/// no segment is shown that can still change, and otherwise one final update under
/// the id last shown, with the pending text, or empty where none is pending. What is
/// in flight must not have been dropped while a segment was shown.
pub proof fn law_finish_closes_what_is_shown(first_id: u64, history: Seq<Event>)
    requires
        drops_nothing_shown(first_id, history),
    ensures
        ({
            let l = after_history(first_id, history);
            let last = accumulator::finished(l.held, l.next_id).out;
            match shown_open(l.out) {
                Some(id) => {
                    &&& last.len() == 1
                    &&& last[0].is_final
                    &&& last[0].segment_id == id
                    &&& last[0].text == unless_blank(l.held.pending)
                },
                None => last.len() == 0,
            }
        }),
{
    lemma_history_as_shown(first_id, history);
}

/// Provisional tokens leave no trace: a response without final tokens keeps the
/// pending text and its speaker, so the next open segment is built as if it had
/// never arrived. Its own open segment is the pending text and the whole tail.
pub proof fn law_provisional_tokens_leave_no_trace(
    held: AccumulatorView,
    next_id: u64,
    tokens: Seq<SonioxToken>,
)
    requires
        forall|i: int| 0 <= i < tokens.len() ==> !(#[trigger] tokens[i]).is_final,
    ensures
        ({
            let l = accumulator::ingested(held, next_id, tokens);
            &&& l.held.pending == held.pending
            &&& l.held.speaker == held.speaker
            &&& final_text(l.out).len() == 0
            &&& !text::is_blank_text(held.pending + accumulator::provisional_tail(tokens)) ==> l.out.len() == 1
                && l.out[0].text == held.pending + accumulator::provisional_tail(tokens)
        }),
{
    let start = Lanes { held, next_id, out: Seq::empty() };
    lemma_no_finals(start, tokens);
    let l = accumulator::ingested(held, next_id, tokens);
    if l.out.len() > 0 {
        assert(l.out.drop_last() == Seq::<UpdateView>::empty());
        assert(final_text(l.out.drop_last()) == Seq::<char>::empty());
    }
}

proof fn lemma_no_finals(l: Lanes, tokens: Seq<SonioxToken>)
    requires
        forall|i: int| 0 <= i < tokens.len() ==> !(#[trigger] tokens[i]).is_final,
    ensures
        accumulator::durable_lane(l, tokens) == l,
    decreases tokens.len(),
{
    if tokens.len() > 0 {
        assert(!tokens[tokens.len() - 1].is_final);
        assert forall|i: int| 0 <= i < tokens.drop_last().len() implies !(
        #[trigger] tokens.drop_last()[i]).is_final by {
            assert(tokens.drop_last()[i] == tokens[i]);
        }
        lemma_no_finals(l, tokens.drop_last());
    }
}

/// A token without a speaker label joins the current turn: it keeps the speaker,
/// and, where it is no end marker and ends no sentence, it emits nothing.
pub proof fn law_unlabelled_token_joins_the_turn(l: Lanes, token: SonioxToken)
    requires
        token.speaker_label() is None,
    ensures
        accumulator::durable_token(l, token).held.speaker == l.held.speaker,
        !token.end_marker() && !accumulator::sentence_end(l.held.pending + token.text@) ==> accumulator::durable_token(
            l,
            token,
        ).out == l.out,
{
}

} // verus!
