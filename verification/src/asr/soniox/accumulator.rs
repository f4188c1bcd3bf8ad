//! Turns Soniox's revising token stream into transcript updates.
//!
//! Two lanes:
//!
//! * **Durable**: tokens arriving `is_final: true` are delivered exactly once
//!   and never repeated. They accumulate into a pending buffer that flushes as
//!   a final segment at a sentence terminator, at a speaker change, or on the
//!   `<end>` marker.
//! * **Volatile**: one open segment holding the pending durable text plus this
//!   response's non-final tokens. It is thrown away and rebuilt from scratch on
//!   every response, so a provisional mistake corrects itself.
//!
//! Non-final tokens are the complete provisional tail as of each message, so
//! the tail is replaced wholesale rather than diffed.

use vstd::prelude::*;

use super::protocol::SonioxResponse;
use super::protocol::SonioxToken;
use crate::asr::SegmentIds;
use crate::asr::SpeakerId;
use crate::asr::TranscriptUpdate;
use crate::asr::UpdateView;
use crate::asr;
use crate::text;

verus! {

// ---------------------------------------------------------------------------
// Sentence ends and joins
// ---------------------------------------------------------------------------

/// Sentence terminators, including the full-width CJK forms.
pub open spec fn is_terminator(c: char) -> bool {
    c == '.' || c == '!' || c == '?' || c == '。' || c == '！' || c == '？'
}

/// Closing punctuation allowed to trail a terminator (`end."` still ends a
/// sentence).
pub open spec fn is_closer(c: char) -> bool {
    c == '"' || c == '\'' || c == '”' || c == '’' || c == ')' || c == ']' || c == '}'
}

/// Characters that must not be preceded by an inserted space when joining.
pub open spec fn hugs_left(c: char) -> bool {
    c == '.' || c == ',' || c == '!' || c == '?' || c == ';' || c == ':' || c == ')' || c == ']'
        || c == '}' || c == '”' || c == '’'
}

/// `s` without its trailing closing punctuation.
pub open spec fn without_closers(s: Seq<char>) -> Seq<char>
    decreases s.len(),
{
    if s.len() > 0 && is_closer(s.last()) {
        without_closers(s.drop_last())
    } else {
        s
    }
}

/// `s` ends in a terminator, apart from trailing whitespace and closers, and that
/// terminator is not a full stop right behind a digit.
pub open spec fn sentence_end(s: Seq<char>) -> bool {
    let core = without_closers(text::trim_end_of(s));
    &&& core.len() > 0
    &&& is_terminator(core.last())
    &&& !(core.last() == '.' && core.len() >= 2 && text::is_digit(core[core.len() - 2]))
}

/// Whether `text` ends a sentence.
///
/// A terminator may be followed by closing quotes or brackets, and a digit
/// immediately before a full stop means a decimal, not a sentence end.
pub fn ends_sentence(text: &str) -> (r: bool)
    ensures
        r == sentence_end(text@),
{
    let v = text::chars_of(text::trim_end(text));
    let mut n: usize = v.len();
    assert(v@.take(n as int) == v@);
    while n > 0 && closer(v[n - 1])
        invariant
            n <= v@.len(),
            without_closers(v@.take(n as int)) == without_closers(v@),
        decreases n,
    {
        assert(v@.take(n as int).drop_last() == v@.take(n - 1));
        n -= 1;
    }
    let ghost core = v@.take(n as int);
    assert(core == without_closers(v@));
    if n == 0 {
        return false;
    }
    assert(core.last() == v@[n - 1]);
    if !terminator(v[n - 1]) {
        return false;
    }
    if v[n - 1] == '.' && n >= 2 {
        assert(core[n - 2] == v@[n - 2]);
        return !text::is_ascii_digit(v[n - 2]);
    }
    true
}

fn closer(c: char) -> (r: bool)
    ensures
        r == is_closer(c),
{
    c == '"' || c == '\'' || c == '”' || c == '’' || c == ')' || c == ']' || c == '}'
}

fn terminator(c: char) -> (r: bool)
    ensures
        r == is_terminator(c),
{
    c == '.' || c == '!' || c == '?' || c == '。' || c == '！' || c == '？'
}

/// Two fragments as one text, with a space between them only where neither has
/// whitespace at the seam and the right one does not start with punctuation that
/// clings to what precedes it.
pub open spec fn joined(left: Seq<char>, right: Seq<char>) -> Seq<char> {
    if left.len() == 0 {
        right
    } else if right.len() == 0 {
        left
    } else if text::is_space(left.last()) || text::is_space(right[0]) || hugs_left(right[0]) {
        left + right
    } else {
        left.push(' ') + right
    }
}

/// Joins two fragments, inserting a space only when one is genuinely needed.
pub fn join_fragments(left: &str, right: &str) -> (r: String)
    ensures
        r@ == joined(left@, right@),
{
    if text::is_empty(left) {
        return right.to_owned();
    }
    if text::is_empty(right) {
        return left.to_owned();
    }
    let last = left.get_char(left.unicode_len() - 1);
    let first = right.get_char(0);
    let clings = first == '.' || first == ',' || first == '!' || first == '?' || first == ';'
        || first == ':' || first == ')' || first == ']' || first == '}' || first == '”' || first
        == '’';
    let mut r = left.to_owned();
    if !text::is_whitespace(last) && !text::is_whitespace(first) && !clings {
        r.append(" ");
        proof {
            reveal_strlit(" ");
            assert(left@ + " "@ == left@.push(' '));
        }
    }
    r.append(right);
    r
}

// ---------------------------------------------------------------------------
// The two lanes
// ---------------------------------------------------------------------------

/// What an [`Accumulator`] holds.
#[verifier::ext_equal]
pub struct AccumulatorView {
    /// Finalized text not yet flushed into a segment.
    pub pending: Seq<char>,
    /// Speaker of the pending text.
    pub speaker: Option<Seq<char>>,
    /// Id of the open segment.
    pub open_id: Option<u64>,
    /// Whether the open segment was emitted and still needs finalizing.
    pub open_emitted: bool,
}

/// The lanes part-way through a message: what is held, the id that comes next,
/// and what has been emitted so far.
#[verifier::ext_equal]
pub struct Lanes {
    pub held: AccumulatorView,
    pub next_id: u64,
    pub out: Seq<UpdateView>,
}

/// The pending text becomes a final segment, under the id of the open segment if
/// there is one. Blank pending text is dropped instead.
pub open spec fn flushed(l: Lanes) -> Lanes {
    if text::is_blank_text(l.held.pending) {
        Lanes { held: AccumulatorView { pending: Seq::empty(), ..l.held }, ..l }
    } else {
        let id = match l.held.open_id {
            Some(id) => id,
            None => l.next_id,
        };
        Lanes {
            held: AccumulatorView {
                pending: Seq::empty(),
                speaker: l.held.speaker,
                open_id: None,
                open_emitted: false,
            },
            next_id: if l.held.open_id is Some {
                l.next_id
            } else {
                asr::id_after(l.next_id)
            },
            out: l.out.push(
                UpdateView {
                    segment_id: id,
                    is_final: true,
                    text: l.held.pending,
                    speaker: l.held.speaker,
                },
            ),
        }
    }
}

/// A labelled token takes over as speaker, flushing the previous speaker's turn.
/// A token without a label inherits the current speaker.
pub open spec fn attributed(l: Lanes, label: Option<Seq<char>>) -> Lanes {
    match label {
        Some(s) => {
            let turn = if l.held.speaker is Some && l.held.speaker != label {
                flushed(l)
            } else {
                l
            };
            Lanes { held: AccumulatorView { speaker: label, ..turn.held }, ..turn }
        },
        None => l,
    }
}

/// One final token in the durable lane.
pub open spec fn durable_token(l: Lanes, token: SonioxToken) -> Lanes {
    let at = attributed(l, token.speaker_label());
    if token.end_marker() {
        flushed(at)
    } else if token.special() {
        at
    } else {
        let grown = Lanes {
            held: AccumulatorView { pending: at.held.pending + token.text@, ..at.held },
            ..at
        };
        if sentence_end(grown.held.pending) {
            flushed(grown)
        } else {
            grown
        }
    }
}

/// The final tokens of a response, in order, through the durable lane.
pub open spec fn durable_lane(l: Lanes, tokens: Seq<SonioxToken>) -> Lanes
    decreases tokens.len(),
{
    if tokens.len() == 0 {
        l
    } else {
        let before = durable_lane(l, tokens.drop_last());
        if tokens.last().is_final {
            durable_token(before, tokens.last())
        } else {
            before
        }
    }
}

/// The text of the provisional tokens of a response.
pub open spec fn provisional_tail(tokens: Seq<SonioxToken>) -> Seq<char>
    decreases tokens.len(),
{
    if tokens.len() == 0 {
        Seq::empty()
    } else {
        let before = provisional_tail(tokens.drop_last());
        if !tokens.last().is_final && !tokens.last().special() {
            before + tokens.last().text@
        } else {
            before
        }
    }
}

/// The open segment, rebuilt from the unflushed durable text and `tail`. Blank
/// text opens no segment unless durable text is pending.
pub open spec fn volatile_lane(l: Lanes, tail: Seq<char>) -> Lanes {
    let open_text = l.held.pending + tail;
    let shown = if !text::is_blank_text(open_text) {
        Some(open_text)
    } else if l.held.pending.len() > 0 {
        Some(l.held.pending)
    } else {
        None
    };
    match shown {
        Some(text) => {
            let id = match l.held.open_id {
                Some(id) => id,
                None => l.next_id,
            };
            Lanes {
                held: AccumulatorView { open_id: Some(id), open_emitted: true, ..l.held },
                next_id: if l.held.open_id is Some {
                    l.next_id
                } else {
                    asr::id_after(l.next_id)
                },
                out: l.out.push(
                    UpdateView { segment_id: id, is_final: false, text, speaker: l.held.speaker },
                ),
            }
        },
        None => l,
    }
}

/// A whole response: the durable lane first, then the volatile one.
pub open spec fn ingested(
    held: AccumulatorView,
    next_id: u64,
    tokens: Seq<SonioxToken>,
) -> Lanes {
    volatile_lane(
        durable_lane(Lanes { held, next_id, out: Seq::empty() }, tokens),
        provisional_tail(tokens),
    )
}

/// Everything open is finalized: pending text as its own segment, or, where a
/// shown segment has no durable text behind it, that segment as empty.
pub open spec fn finished(held: AccumulatorView, next_id: u64) -> Lanes {
    let l = flushed(Lanes { held, next_id, out: Seq::empty() });
    let retracted = l.out.len() == 0 && l.held.open_emitted && l.held.open_id is Some;
    Lanes {
        held: AccumulatorView { open_id: None, open_emitted: false, ..l.held },
        next_id: l.next_id,
        out: if retracted {
            seq![
                UpdateView {
                    segment_id: l.held.open_id->0,
                    is_final: true,
                    text: Seq::empty(),
                    speaker: None,
                },
            ]
        } else {
            l.out
        },
    }
}

pub struct Accumulator {
    pending: String,
    pending_speaker: Option<String>,
    open_id: Option<u64>,
    open_emitted: bool,
}

impl View for Accumulator {
    type V = AccumulatorView;

    closed spec fn view(&self) -> AccumulatorView {
        AccumulatorView {
            pending: self.pending@,
            speaker: text::opt_view(self.pending_speaker),
            open_id: self.open_id,
            open_emitted: self.open_emitted,
        }
    }
}

/// Holding nothing.
pub open spec fn nothing_held() -> AccumulatorView {
    AccumulatorView { pending: Seq::empty(), speaker: None, open_id: None, open_emitted: false }
}

impl Default for Accumulator {
    fn default() -> (r: Self)
        ensures
            r@ == nothing_held(),
    {
        Self::new()
    }
}

fn speaker_id(label: &Option<String>) -> (r: Option<SpeakerId>)
    ensures
        label is Some <==> r is Some,
        r matches Some(s) ==> s.0@ == label->0@,
{
    match label {
        Some(s) => Some(SpeakerId(s.clone())),
        None => None,
    }
}

proof fn lemma_view_push(v: Seq<TranscriptUpdate>, u: TranscriptUpdate)
    ensures
        asr::updates_view(v.push(u)) == asr::updates_view(v).push(u@),
{
    assert(asr::updates_view(v.push(u)) =~= asr::updates_view(v).push(u@));
}

impl Accumulator {
    pub fn new() -> (r: Self)
        ensures
            r@ == nothing_held(),
    {
        Accumulator {
            pending: String::new(),
            pending_speaker: None,
            open_id: None,
            open_emitted: false,
        }
    }

    /// True when a token carries displayable speech (not a control token, not
    /// whitespace). Used both for output and as the meter's activity evidence.
    pub fn is_speech_token(token: &SonioxToken) -> (r: bool)
        ensures
            r == token.speech(),
    {
        !token.is_special() && !text::is_blank(token.text.as_str())
    }

    /// The id of the open segment, allocated now if there is none.
    fn open_segment(&mut self, ids: &mut SegmentIds) -> (id: u64)
        ensures
            id == match old(self).open_id {
                Some(i) => i,
                None => old(ids)@,
            },
            final(ids)@ == (if old(self).open_id is Some {
                old(ids)@
            } else {
                asr::id_after(old(ids)@)
            }),
            final(self)@ == (AccumulatorView {
                open_id: Some(id),
                open_emitted: true,
                ..old(self)@
            }),
    {
        let id: u64 = match self.open_id {
            Some(id) => id,
            None => ids.next(),
        };
        self.open_id = Some(id);
        self.open_emitted = true;
        id
    }

    /// Folds one response into the two lanes and returns the updates to emit.
    pub fn ingest(&mut self, response: &SonioxResponse, ids: &mut SegmentIds) -> (out: Vec<
        TranscriptUpdate,
    >)
        ensures
            ({
                let l = ingested(old(self)@, old(ids)@, response.tokens@);
                &&& final(self)@ == l.held
                &&& final(ids)@ == l.next_id
                &&& asr::updates_view(out@) == l.out
            }),
    {
        let mut out: Vec<TranscriptUpdate> = Vec::new();
        let mut tail = String::new();
        let ghost start = Lanes { held: self@, next_id: ids@, out: Seq::empty() };
        let mut i: usize = 0;
        proof {
            assert(asr::updates_view(out@) == start.out);
            assert(response.tokens@.take(0).len() == 0);
        }
        while i < response.tokens.len()
            invariant
                i <= response.tokens@.len(),
                ({
                    let l = durable_lane(start, response.tokens@.take(i as int));
                    &&& self@ == l.held
                    &&& ids@ == l.next_id
                    &&& asr::updates_view(out@) == l.out
                }),
                tail@ == provisional_tail(response.tokens@.take(i as int)),
            decreases response.tokens@.len() - i,
        {
            proof {
                assert(response.tokens@.take(i + 1).drop_last() == response.tokens@.take(i as int));
                assert(response.tokens@.take(i + 1).last() == response.tokens@[i as int]);
            }
            let token = &response.tokens[i];
            if token.is_final {
                self.take_final(token, &mut out, ids);
            } else if !token.is_special() {
                tail.append(token.text.as_str());
            }
            i += 1;
        }
        proof {
            assert(response.tokens@.take(i as int) == response.tokens@);
        }
        let open_text = text::concat(self.pending.as_str(), tail.as_str());
        if !text::is_blank(open_text.as_str()) {
            let speaker = speaker_id(&self.pending_speaker);
            let id: u64 = self.open_segment(ids);
            let update = TranscriptUpdate {
                segment_id: id,
                is_final: false,
                text: open_text,
                speaker,
            };
            proof {
                lemma_view_push(out@, update);
            }
            out.push(update);
        } else if !text::is_empty(self.pending.as_str()) {
            let speaker = speaker_id(&self.pending_speaker);
            let text = self.pending.clone();
            let id: u64 = self.open_segment(ids);
            let update = TranscriptUpdate { segment_id: id, is_final: false, text, speaker };
            proof {
                lemma_view_push(out@, update);
            }
            out.push(update);
        }
        out
    }

    /// One final token in the durable lane.
    fn take_final(
        &mut self,
        token: &SonioxToken,
        out: &mut Vec<TranscriptUpdate>,
        ids: &mut SegmentIds,
    )
        ensures
            ({
                let l = durable_token(
                    Lanes {
                        held: old(self)@,
                        next_id: old(ids)@,
                        out: asr::updates_view(old(out)@),
                    },
                    *token,
                );
                &&& final(self)@ == l.held
                &&& final(ids)@ == l.next_id
                &&& asr::updates_view(final(out)@) == l.out
            }),
    {
        match token.normalized_speaker() {
            Some(speaker) => {
                let changed = match &self.pending_speaker {
                    Some(current) => !text::same_text(current.as_str(), speaker.as_str()),
                    None => false,
                };
                if changed {
                    self.flush(out, ids);
                }
                self.pending_speaker = Some(speaker);
            },
            None => {},
        }
        if token.is_end_marker() {
            self.flush(out, ids);
            return;
        }
        if token.is_special() {
            return;
        }
        self.pending.append(token.text.as_str());
        if ends_sentence(self.pending.as_str()) {
            self.flush(out, ids);
        }
    }

    /// Finalizes the pending durable text as a segment.
    fn flush(&mut self, out: &mut Vec<TranscriptUpdate>, ids: &mut SegmentIds)
        ensures
            ({
                let l = flushed(
                    Lanes {
                        held: old(self)@,
                        next_id: old(ids)@,
                        out: asr::updates_view(old(out)@),
                    },
                );
                &&& final(self)@ == l.held
                &&& final(ids)@ == l.next_id
                &&& asr::updates_view(final(out)@) == l.out
            }),
    {
        if text::is_blank(self.pending.as_str()) {
            self.pending = String::new();
            return;
        }
        let id: u64 = match self.open_id.take() {
            Some(id) => id,
            None => ids.next(),
        };
        self.open_emitted = false;
        let text = text::take(&mut self.pending);
        let update = TranscriptUpdate {
            segment_id: id,
            is_final: true,
            text,
            speaker: speaker_id(&self.pending_speaker),
        };
        proof {
            lemma_view_push(out@, update);
        }
        out.push(update);
    }

    /// Finalizes whatever is open. Used on clean shutdown and before a
    /// reconnect, where the current hypothesis is the best text available.
    pub fn finish(&mut self, ids: &mut SegmentIds) -> (out: Vec<TranscriptUpdate>)
        ensures
            ({
                let l = finished(old(self)@, old(ids)@);
                &&& final(self)@ == l.held
                &&& final(ids)@ == l.next_id
                &&& asr::updates_view(out@) == l.out
            }),
    {
        let mut out: Vec<TranscriptUpdate> = Vec::new();
        assert(asr::updates_view(out@) == Seq::<UpdateView>::empty());
        self.flush(&mut out, ids);
        assert(asr::updates_view(out@).len() == out@.len());
        if out.len() == 0 && self.open_emitted {
            match self.open_id.take() {
                Some(id) => {
                    let update = TranscriptUpdate {
                        segment_id: id,
                        is_final: true,
                        text: String::new(),
                        speaker: None,
                    };
                    proof {
                        lemma_view_push(out@, update);
                    }
                    out.push(update);
                },
                None => {},
            }
        }
        self.open_id = None;
        self.open_emitted = false;
        out
    }

    /// Drops all in-flight state without emitting. Used when a reconnect has
    /// already flushed the open segment.
    pub fn reset(&mut self)
        ensures
            final(self)@ == nothing_held(),
    {
        self.pending = String::new();
        self.pending_speaker = None;
        self.open_id = None;
        self.open_emitted = false;
    }
}

} // verus!
