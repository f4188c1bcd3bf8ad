//! Who is credited with what, and where one final segment ends and the next begins.
//!
//! The laws speak of the tokens that came in and the updates that went out.

use vstd::prelude::*;

use super::accumulator;
use super::accumulator::AccumulatorView;
use super::accumulator::Lanes;
use super::laws;
use super::laws::Event;
use super::protocol::SonioxToken;
use crate::asr::UpdateView;
use crate::text;

verus! {

// ---------------------------------------------------------------------------
// What the tokens say
// ---------------------------------------------------------------------------

/// Who speaks behind the first `k` tokens: the label of the latest final token that has
/// one, or `before`, where none has.
pub open spec fn speaker_behind(
    before: Option<Seq<char>>,
    tokens: Seq<SonioxToken>,
    k: int,
) -> Option<Seq<char>>
    decreases k,
{
    if k <= 0 {
        before
    } else if tokens[k - 1].is_final && tokens[k - 1].speaker_label() is Some {
        tokens[k - 1].speaker_label()
    } else {
        speaker_behind(before, tokens, k - 1)
    }
}

/// The text of the final tokens from `from` up to `to`, control tokens aside.
pub open spec fn words(tokens: Seq<SonioxToken>, from: int, to: int) -> Seq<char>
    decreases to - from,
{
    if to <= from {
        Seq::empty()
    } else if tokens[to - 1].is_final && !tokens[to - 1].special() {
        words(tokens, from, to - 1) + tokens[to - 1].text@
    } else {
        words(tokens, from, to - 1)
    }
}

/// The text of the provisional tokens, control tokens aside.
pub open spec fn guesses(tokens: Seq<SonioxToken>) -> Seq<char>
    decreases tokens.len(),
{
    if tokens.len() == 0 {
        Seq::empty()
    } else if tokens.last().is_final || tokens.last().special() {
        guesses(tokens.drop_last())
    } else {
        guesses(tokens.drop_last()) + tokens.last().text@
    }
}

/// Something that one speaker says.
#[verifier::ext_equal]
pub struct Piece {
    pub text: Seq<char>,
    pub speaker: Option<Seq<char>>,
}

/// Where piece `i` begins. A piece ends where the next one begins.
pub open spec fn begin(cuts: Seq<int>, i: int) -> int {
    if i <= 0 {
        0
    } else {
        cuts[i - 1]
    }
}

/// What piece `i` holds up to token `k`. The first one goes on with what was pending.
pub open spec fn piece_up_to(
    held: AccumulatorView,
    tokens: Seq<SonioxToken>,
    cuts: Seq<int>,
    i: int,
    k: int,
) -> Seq<char> {
    if i == 0 {
        held.pending + words(tokens, 0, k)
    } else {
        words(tokens, begin(cuts, i), k)
    }
}

/// The text is cut ahead of token `k`, whatever it is: an end marker came just before,
/// or the token is the first one of somebody else.
pub open spec fn turn_ends(
    held: AccumulatorView,
    tokens: Seq<SonioxToken>,
    n: int,
    k: int,
) -> bool {
    ||| k > 0 && tokens[k - 1].is_final && tokens[k - 1].end_marker()
    ||| {
        let speaker = speaker_behind(held.speaker, tokens, k);
        k < n && tokens[k].is_final && tokens[k].speaker_label() is Some && speaker is Some
            && tokens[k].speaker_label() != speaker
    }
}

/// The token ahead of `k` completes a sentence of piece `i`.
pub open spec fn sentence_ends(
    held: AccumulatorView,
    tokens: Seq<SonioxToken>,
    cuts: Seq<int>,
    i: int,
    k: int,
) -> bool {
    &&& tokens[k - 1].is_final
    &&& !tokens[k - 1].special()
    &&& accumulator::sentence_end(piece_up_to(held, tokens, cuts, i, k))
}

/// The first `n` tokens are cut in the right places: wherever a turn or a sentence ends,
/// and nowhere else.
pub open spec fn well_cut(
    held: AccumulatorView,
    tokens: Seq<SonioxToken>,
    n: int,
    cuts: Seq<int>,
) -> bool {
    &&& forall|i: int| 0 <= i < cuts.len() ==> 0 <= #[trigger] cuts[i] <= n
    &&& forall|i: int, j: int| 0 <= i < j < cuts.len() ==> #[trigger] cuts[i] < #[trigger] cuts[j]
    &&& forall|k: int|
        0 <= k <= n && #[trigger] turn_ends(held, tokens, n, k) ==> cuts.contains(k)
    &&& forall|i: int, k: int|
        0 <= i <= cuts.len() && begin(cuts, i) < k <= n && (i < cuts.len() ==> k <= cuts[i])
            && #[trigger] sentence_ends(held, tokens, cuts, i, k) ==> i < cuts.len() && k == cuts[i]
    &&& forall|i: int|
        0 <= i < cuts.len() ==> turn_ends(held, tokens, n, #[trigger] cuts[i]) || begin(cuts, i)
            < cuts[i] && sentence_ends(held, tokens, cuts, i, cuts[i])
}

/// The pieces that the cuts make. Who speaks at its end is credited with a piece.
pub open spec fn pieces(
    held: AccumulatorView,
    tokens: Seq<SonioxToken>,
    cuts: Seq<int>,
) -> Seq<Piece> {
    Seq::new(
        cuts.len(),
        |i: int|
            Piece {
                text: piece_up_to(held, tokens, cuts, i, cuts[i]),
                speaker: speaker_behind(held.speaker, tokens, cuts[i]),
            },
    )
}

/// The pieces that are not blank.
pub open spec fn worth_saying(all: Seq<Piece>) -> Seq<Piece>
    decreases all.len(),
{
    if all.len() == 0 {
        Seq::empty()
    } else if text::is_blank_text(all.last().text) {
        worth_saying(all.drop_last())
    } else {
        worth_saying(all.drop_last()).push(all.last())
    }
}

/// What the final updates say.
pub open spec fn said(out: Seq<UpdateView>) -> Seq<Piece>
    decreases out.len(),
{
    if out.len() == 0 {
        Seq::empty()
    } else if out.last().is_final {
        said(out.drop_last()).push(Piece { text: out.last().text, speaker: out.last().speaker })
    } else {
        said(out.drop_last())
    }
}

// ---------------------------------------------------------------------------
// Cutting, token by token
// ---------------------------------------------------------------------------

/// The lanes behind the first `n` tokens.
spec fn lanes_at(held: AccumulatorView, next_id: u64, tokens: Seq<SonioxToken>, n: int) -> Lanes {
    accumulator::durable_lane(Lanes { held, next_id, out: Seq::empty() }, tokens.take(n))
}

/// The lanes are where the cuts say.
spec fn as_cut(
    held: AccumulatorView,
    tokens: Seq<SonioxToken>,
    n: int,
    cuts: Seq<int>,
    l: Lanes,
) -> bool {
    &&& l.held.pending == piece_up_to(held, tokens, cuts, cuts.len() as int, n)
    &&& said(l.out) == worth_saying(pieces(held, tokens, cuts))
}

proof fn lemma_said_push(out: Seq<UpdateView>, u: UpdateView)
    requires
        u.is_final,
    ensures
        said(out.push(u)) == said(out).push(Piece { text: u.text, speaker: u.speaker }),
{
    assert(out.push(u).drop_last() =~= out);
}

proof fn lemma_pieces_push(
    held: AccumulatorView,
    tokens: Seq<SonioxToken>,
    cuts: Seq<int>,
    k: int,
)
    ensures
        pieces(held, tokens, cuts.push(k)) == pieces(held, tokens, cuts).push(
            Piece {
                text: piece_up_to(held, tokens, cuts, cuts.len() as int, k),
                speaker: speaker_behind(held.speaker, tokens, k),
            },
        ),
{
    let more = cuts.push(k);
    let a = pieces(held, tokens, more);
    let b = pieces(held, tokens, cuts).push(
        Piece {
            text: piece_up_to(held, tokens, cuts, cuts.len() as int, k),
            speaker: speaker_behind(held.speaker, tokens, k),
        },
    );
    assert forall|i: int| 0 <= i < a.len() implies #[trigger] a[i] == b[i] by {
        assert(begin(more, i) == begin(cuts, i));
    }
    assert(a =~= b);
}

/// A cut flushes what is pending.
proof fn lemma_flush_cuts(
    held: AccumulatorView,
    tokens: Seq<SonioxToken>,
    k: int,
    cuts: Seq<int>,
    l: Lanes,
)
    requires
        as_cut(held, tokens, k, cuts, l),
        l.held.speaker == speaker_behind(held.speaker, tokens, k),
    ensures
        as_cut(held, tokens, k, cuts.push(k), accumulator::flushed(l)),
{
    let after = accumulator::flushed(l);
    let all = pieces(held, tokens, cuts);
    lemma_pieces_push(held, tokens, cuts, k);
    let more = pieces(held, tokens, cuts.push(k));
    assert(more.drop_last() =~= all);
    assert(words(tokens, k, k) == Seq::<char>::empty());
    assert(after.held.pending =~= piece_up_to(
        held,
        tokens,
        cuts.push(k),
        cuts.push(k).len() as int,
        k,
    ));
    if !text::is_blank_text(l.held.pending) {
        lemma_said_push(l.out, after.out.last());
        assert(after.out =~= l.out.push(after.out.last()));
    }
}

/// Nothing changes at the cuts that are there when another one comes behind them.
proof fn lemma_begin_push(cuts: Seq<int>, k: int)
    ensures
        forall|i: int| 0 <= i <= cuts.len() ==> #[trigger] begin(cuts.push(k), i) == begin(cuts, i),
{
}

/// What a token does ahead of its own text: a new speaker cuts, if nothing is cut there.
spec fn cut_ahead(
    held: AccumulatorView,
    tokens: Seq<SonioxToken>,
    n: int,
    cuts: Seq<int>,
) -> Seq<int> {
    let token = tokens[n];
    let speaker = speaker_behind(held.speaker, tokens, n);
    if token.is_final && token.speaker_label() is Some && speaker is Some && speaker
        != token.speaker_label() && !(cuts.len() > 0 && cuts.last() == n) {
        cuts.push(n)
    } else {
        cuts
    }
}

/// What it does behind: an end marker cuts, and so does the end of a sentence.
spec fn cut_behind(
    held: AccumulatorView,
    tokens: Seq<SonioxToken>,
    n: int,
    cuts: Seq<int>,
) -> Seq<int> {
    let token = tokens[n];
    if token.is_final && (token.end_marker() || sentence_ends(
        held,
        tokens,
        cuts,
        cuts.len() as int,
        n + 1,
    )) {
        cuts.push(n + 1)
    } else {
        cuts
    }
}

proof fn lemma_sentences_same(
    held: AccumulatorView,
    tokens: Seq<SonioxToken>,
    cuts: Seq<int>,
    more: Seq<int>,
    i: int,
    k: int,
)
    requires
        begin(cuts, i) == begin(more, i),
    ensures
        sentence_ends(held, tokens, cuts, i, k) == sentence_ends(held, tokens, more, i, k),
{
}

/// Cutting ahead of a token keeps everything right up to it.
proof fn lemma_well_cut_ahead(
    held: AccumulatorView,
    tokens: Seq<SonioxToken>,
    n: int,
    cuts: Seq<int>,
)
    requires
        0 <= n < tokens.len(),
        well_cut(held, tokens, n, cuts),
    ensures
        ({
            let more = cut_ahead(held, tokens, n, cuts);
            &&& forall|i: int| 0 <= i < more.len() ==> 0 <= #[trigger] more[i] <= n
            &&& forall|i: int, j: int|
                0 <= i < j < more.len() ==> #[trigger] more[i] < #[trigger] more[j]
            &&& forall|k: int|
                0 <= k <= n && #[trigger] turn_ends(held, tokens, n + 1, k) ==> more.contains(k)
            &&& forall|i: int, k: int|
                0 <= i <= more.len() && begin(more, i) < k <= n && (i < more.len() ==> k
                    <= more[i]) && #[trigger] sentence_ends(held, tokens, more, i, k) ==> i
                    < more.len() && k == more[i]
            &&& forall|i: int|
                0 <= i < more.len() ==> turn_ends(held, tokens, n + 1, #[trigger] more[i]) || begin(
                    more,
                    i,
                ) < more[i] && sentence_ends(held, tokens, more, i, more[i])
        }),
{
    let more = cut_ahead(held, tokens, n, cuts);
    lemma_begin_push(cuts, n);
    assert forall|i: int, j: int| 0 <= i < j < more.len() implies #[trigger] more[i]
        < #[trigger] more[j] by {
        if j == cuts.len() && cuts.len() > 0 {
            assert(cuts[cuts.len() - 1] <= n);
            assert(cuts.last() == cuts[cuts.len() - 1]);
            if i < cuts.len() - 1 {
                assert(cuts[i] < cuts[cuts.len() - 1]);
            }
        }
    }
    assert forall|k: int|
        0 <= k <= n && #[trigger] turn_ends(held, tokens, n + 1, k) implies more.contains(k) by {
        if k < n {
            assert(turn_ends(held, tokens, n, k));
            let at = choose|at: int| 0 <= at < cuts.len() && cuts[at] == k;
            assert(more[at] == k);
        } else if turn_ends(held, tokens, n, n) {
            let at = choose|at: int| 0 <= at < cuts.len() && cuts[at] == n;
            assert(more[at] == n);
        } else {
            if cuts.len() > 0 && cuts.last() == n {
                assert(more[cuts.len() - 1] == n);
            } else {
                assert(more[cuts.len() as int] == n);
            }
        }
    }
    assert forall|i: int, k: int|
        0 <= i <= more.len() && begin(more, i) < k <= n && (i < more.len() ==> k <= more[i])
            && #[trigger] sentence_ends(held, tokens, more, i, k) implies i < more.len() && k
        == more[i] by {
        if i <= cuts.len() {
            lemma_sentences_same(held, tokens, cuts, more, i, k);
            assert(sentence_ends(held, tokens, cuts, i, k));
        }
    }
    assert forall|i: int| 0 <= i < more.len() implies turn_ends(
        held,
        tokens,
        n + 1,
        #[trigger] more[i],
    ) || begin(more, i) < more[i] && sentence_ends(held, tokens, more, i, more[i]) by {
        if i < cuts.len() {
            assert(more[i] == cuts[i]);
            lemma_sentences_same(held, tokens, cuts, more, i, more[i]);
            if turn_ends(held, tokens, n, cuts[i]) {
                assert(turn_ends(held, tokens, n + 1, more[i]));
            }
        } else {
            assert(turn_ends(held, tokens, n + 1, n));
        }
    }
}

/// Cutting behind it makes everything right including it.
proof fn lemma_well_cut_behind(
    held: AccumulatorView,
    tokens: Seq<SonioxToken>,
    n: int,
    cuts: Seq<int>,
)
    requires
        0 <= n < tokens.len(),
        well_cut(held, tokens, n, cuts),
    ensures
        well_cut(
            held,
            tokens,
            n + 1,
            cut_behind(held, tokens, n, cut_ahead(held, tokens, n, cuts)),
        ),
{
    lemma_well_cut_ahead(held, tokens, n, cuts);
    let ahead = cut_ahead(held, tokens, n, cuts);
    let more = cut_behind(held, tokens, n, ahead);
    lemma_begin_push(ahead, n + 1);
    assert forall|i: int, j: int| 0 <= i < j < more.len() implies #[trigger] more[i]
        < #[trigger] more[j] by {
        assert(more[i] == ahead[i]);
    }
    assert forall|k: int|
        0 <= k <= n + 1 && #[trigger] turn_ends(held, tokens, n + 1, k) implies more.contains(
        k,
    ) by {
        if k <= n {
            let at = choose|at: int| 0 <= at < ahead.len() && ahead[at] == k;
            assert(more[at] == k);
        } else {
            assert(more[ahead.len() as int] == n + 1);
        }
    }
    assert forall|i: int, k: int|
        0 <= i <= more.len() && begin(more, i) < k <= n + 1 && (i < more.len() ==> k <= more[i])
            && #[trigger] sentence_ends(held, tokens, more, i, k) implies i < more.len() && k
        == more[i] by {
        if i <= ahead.len() {
            lemma_sentences_same(held, tokens, ahead, more, i, k);
            assert(sentence_ends(held, tokens, ahead, i, k));
            if i < ahead.len() {
                assert(more[i] == ahead[i]);
            } else if k <= n {
                assert(false);
            } else {
                assert(more[ahead.len() as int] == n + 1);
            }
        }
    }
    assert forall|i: int| 0 <= i < more.len() implies turn_ends(
        held,
        tokens,
        n + 1,
        #[trigger] more[i],
    ) || begin(more, i) < more[i] && sentence_ends(held, tokens, more, i, more[i]) by {
        if i < ahead.len() {
            assert(more[i] == ahead[i]);
            lemma_sentences_same(held, tokens, ahead, more, i, more[i]);
        } else {
            lemma_sentences_same(held, tokens, ahead, more, i, n + 1);
            if ahead.len() > 0 {
                assert(ahead[ahead.len() - 1] <= n);
            }
        }
    }
}

/// The speaker that is held is the one that the tokens name.
proof fn lemma_speaker(held: AccumulatorView, next_id: u64, tokens: Seq<SonioxToken>, n: int)
    requires
        0 <= n <= tokens.len(),
    ensures
        lanes_at(held, next_id, tokens, n).held.speaker == speaker_behind(held.speaker, tokens, n),
    decreases n,
{
    if n > 0 {
        lemma_speaker(held, next_id, tokens, n - 1);
        assert(tokens.take(n).drop_last() =~= tokens.take(n - 1));
        assert(tokens.take(n).last() == tokens[n - 1]);
    } else {
        assert(tokens.take(0) =~= Seq::<SonioxToken>::empty());
    }
}

/// One token, from one set of cuts to the next.
proof fn lemma_token_cuts(
    held: AccumulatorView,
    tokens: Seq<SonioxToken>,
    n: int,
    cuts: Seq<int>,
    l: Lanes,
)
    requires
        0 <= n < tokens.len(),
        tokens[n].is_final,
        well_cut(held, tokens, n, cuts),
        as_cut(held, tokens, n, cuts, l),
        l.held.speaker == speaker_behind(held.speaker, tokens, n),
    ensures
        as_cut(
            held,
            tokens,
            n + 1,
            cut_behind(held, tokens, n, cut_ahead(held, tokens, n, cuts)),
            accumulator::durable_token(l, tokens[n]),
        ),
{
    let token = tokens[n];
    let ahead = cut_ahead(held, tokens, n, cuts);
    let more = cut_behind(held, tokens, n, ahead);
    let at = accumulator::attributed(l, token.speaker_label());
    let i = ahead.len() as int;
    lemma_flush_cuts(held, tokens, n, cuts, l);
    if token.speaker_label() is Some && l.held.speaker is Some && l.held.speaker
        != token.speaker_label() && cuts.len() > 0 && cuts.last() == n {
        assert(words(tokens, n, n) == Seq::<char>::empty());
        assert(begin(cuts, cuts.len() as int) == n);
        assert(l.held.pending.len() == 0);
        assert(accumulator::flushed(l).held.pending =~= l.held.pending);
    }
    assert(as_cut(held, tokens, n, ahead, at));
    let up_to = piece_up_to(held, tokens, ahead, i, n + 1);
    assert(begin(ahead, i) <= n) by {
        lemma_well_cut_ahead(held, tokens, n, cuts);
        if i > 0 {
            assert(ahead[i - 1] <= n);
        }
    }
    if token.special() {
        assert(up_to =~= at.held.pending);
        assert(as_cut(held, tokens, n + 1, ahead, at));
        lemma_flush_cuts(held, tokens, n + 1, ahead, at);
    } else {
        let grown = Lanes {
            held: AccumulatorView { pending: at.held.pending + token.text@, ..at.held },
            ..at
        };
        assert(up_to =~= grown.held.pending);
        assert(as_cut(held, tokens, n + 1, ahead, grown));
        lemma_flush_cuts(held, tokens, n + 1, ahead, grown);
    }
}

proof fn lemma_cut(
    held: AccumulatorView,
    next_id: u64,
    tokens: Seq<SonioxToken>,
    n: int,
) -> (cuts: Seq<int>)
    requires
        0 <= n <= tokens.len(),
    ensures
        well_cut(held, tokens, n, cuts),
        as_cut(held, tokens, n, cuts, lanes_at(held, next_id, tokens, n)),
    decreases n,
{
    if n == 0 {
        let cuts = Seq::<int>::empty();
        assert(tokens.take(0) =~= Seq::<SonioxToken>::empty());
        assert(pieces(held, tokens, cuts) =~= Seq::<Piece>::empty());
        assert(piece_up_to(held, tokens, cuts, 0, 0) =~= held.pending);
        cuts
    } else {
        let before = lemma_cut(held, next_id, tokens, n - 1);
        let l = lanes_at(held, next_id, tokens, n - 1);
        assert(tokens.take(n).drop_last() =~= tokens.take(n - 1));
        assert(tokens.take(n).last() == tokens[n - 1]);
        lemma_speaker(held, next_id, tokens, n - 1);
        lemma_well_cut_behind(held, tokens, n - 1, before);
        let cuts = cut_behind(
            held,
            tokens,
            n - 1,
            cut_ahead(held, tokens, n - 1, before),
        );
        if tokens[n - 1].is_final {
            lemma_token_cuts(held, tokens, n - 1, before, l);
        } else {
            assert(cuts == before);
            assert(begin(before, before.len() as int) <= n - 1) by {
                if before.len() > 0 {
                    assert(before[before.len() - 1] <= n - 1);
                }
            }
            assert(piece_up_to(held, tokens, before, before.len() as int, n) =~= piece_up_to(
                held,
                tokens,
                before,
                before.len() as int,
                n - 1,
            ));
        }
        cuts
    }
}

// ---------------------------------------------------------------------------
// Laws
// ---------------------------------------------------------------------------

/// A final token that names a speaker makes that speaker the current one, whoever it was
/// before, whatever is pending and whatever else the token is.
pub proof fn law_a_label_names_the_speaker(l: Lanes, token: SonioxToken)
    requires
        token.speaker_label() is Some,
    ensures
        accumulator::durable_token(l, token).held.speaker == token.speaker_label(),
{
}

/// Behind any response the current speaker is the one that its latest labelled final
/// token names; without one, it is who it was. Provisional tokens have no say.
pub proof fn law_the_latest_label_counts(
    held: AccumulatorView,
    next_id: u64,
    tokens: Seq<SonioxToken>,
)
    ensures
        accumulator::ingested(held, next_id, tokens).held.speaker == speaker_behind(
            held.speaker,
            tokens,
            tokens.len() as int,
        ),
{
    lemma_speaker(held, next_id, tokens, tokens.len() as int);
    assert(tokens.take(tokens.len() as int) =~= tokens);
}

proof fn lemma_said_volatile(l: Lanes, tail: Seq<char>)
    ensures
        said(accumulator::volatile_lane(l, tail).out) == said(l.out),
{
    let after = accumulator::volatile_lane(l, tail);
    if after.out.len() > l.out.len() {
        assert(after.out.drop_last() =~= l.out);
    }
}

/// Final segments are cut where turns and sentences end, and nowhere else, and each
/// carries the label of the latest labelled final token up to its end. The text that
/// was pending and the response's final tokens are cut at every end marker, ahead of
/// every token that names another speaker, and behind every token that completes a
/// sentence; each piece that is not blank is one final update, in order, and what is
/// behind the last cut is pending.
pub proof fn law_final_segments_are_turns_and_sentences(
    held: AccumulatorView,
    next_id: u64,
    tokens: Seq<SonioxToken>,
)
    ensures
        ({
            let n = tokens.len() as int;
            let l = accumulator::ingested(held, next_id, tokens);
            exists|cuts: Seq<int>| #[trigger]
                well_cut(held, tokens, n, cuts) && said(l.out) == worth_saying(
                    pieces(held, tokens, cuts),
                ) && l.held.pending == piece_up_to(held, tokens, cuts, cuts.len() as int, n)
        }),
{
    let n = tokens.len() as int;
    let cuts = lemma_cut(held, next_id, tokens, n);
    assert(tokens.take(n) =~= tokens);
    lemma_said_volatile(
        lanes_at(held, next_id, tokens, n),
        accumulator::provisional_tail(tokens),
    );
    assert(well_cut(held, tokens, n, cuts));
}

/// A piece holds one speaker's words: whoever speaks anywhere behind its beginning, once
/// anybody is known, is the one who is credited with it.
pub proof fn law_a_piece_has_one_speaker(
    held: AccumulatorView,
    tokens: Seq<SonioxToken>,
    cuts: Seq<int>,
    i: int,
    k: int,
)
    requires
        well_cut(held, tokens, tokens.len() as int, cuts),
        0 <= i < cuts.len(),
        begin(cuts, i) <= k < cuts[i],
        k > begin(cuts, i) || i == 0,
        speaker_behind(held.speaker, tokens, k) is Some,
    ensures
        speaker_behind(held.speaker, tokens, k) == pieces(held, tokens, cuts)[i].speaker,
    decreases cuts[i] - k,
{
    let n = tokens.len() as int;
    let to = cuts[i];
    if turn_ends(held, tokens, n, k) {
        let at = choose|at: int| 0 <= at < cuts.len() && cuts[at] == k;
        if at < i - 1 {
            assert(cuts[at] < cuts[i - 1]);
        } else if at > i {
            assert(cuts[i] < cuts[at]);
        }
    }
    assert(speaker_behind(held.speaker, tokens, k + 1) == speaker_behind(held.speaker, tokens, k)
        || i == 0 && k == 0);
    if k + 1 < to {
        law_a_piece_has_one_speaker(held, tokens, cuts, i, k + 1);
    }
}

proof fn lemma_guesses(tokens: Seq<SonioxToken>)
    ensures
        accumulator::provisional_tail(tokens) == guesses(tokens),
    decreases tokens.len(),
{
    if tokens.len() > 0 {
        lemma_guesses(tokens.drop_last());
    }
}

proof fn lemma_durable_is_final(held: AccumulatorView, next_id: u64, tokens: Seq<SonioxToken>)
    ensures
        ({
            let l = accumulator::durable_lane(Lanes { held, next_id, out: Seq::empty() }, tokens);
            forall|i: int| 0 <= i < l.out.len() ==> (#[trigger] l.out[i]).is_final
        }),
    decreases tokens.len(),
{
    if tokens.len() > 0 {
        lemma_durable_is_final(held, next_id, tokens.drop_last());
    }
}

/// The open segment shows all that is known: behind any response it is the pending text
/// and the response's whole provisional tail, credited to the current speaker, and it
/// is the last update. Where that is blank, pending text is shown by itself, and where
/// nothing is pending, nothing is shown. Every other update is final.
pub proof fn law_the_open_segment_shows_all_that_is_known(
    held: AccumulatorView,
    next_id: u64,
    tokens: Seq<SonioxToken>,
)
    ensures
        ({
            let l = accumulator::ingested(held, next_id, tokens);
            let known = l.held.pending + guesses(tokens);
            let shown = if !text::is_blank_text(known) {
                known
            } else {
                l.held.pending
            };
            &&& shown.len() > 0 ==> {
                &&& l.out.len() > 0
                &&& !l.out.last().is_final
                &&& l.out.last().text == shown
                &&& l.out.last().speaker == l.held.speaker
                &&& l.held.open_id == Some(l.out.last().segment_id)
            }
            &&& forall|i: int|
                0 <= i < l.out.len() && !(#[trigger] l.out[i]).is_final ==> i + 1 == l.out.len()
                    && shown.len() > 0
        }),
{
    lemma_guesses(tokens);
    lemma_durable_is_final(held, next_id, tokens);
}

// ---------------------------------------------------------------------------
// Segments over a history
// ---------------------------------------------------------------------------

/// Behind an update that is not final comes another one of the same segment.
pub open spec fn one_at_a_time(trace: Seq<UpdateView>) -> bool {
    forall|i: int|
        0 <= i < trace.len() - 1 && !(#[trigger] trace[i]).is_final ==> trace[i + 1].segment_id
            == trace[i].segment_id
}

/// The open segment is the one that is shown.
spec fn in_turn(past: Seq<UpdateView>, l: Lanes) -> bool {
    &&& one_at_a_time(past + l.out)
    &&& l.held.open_id == laws::shown_open(past + l.out)
    &&& l.held.open_emitted == (l.held.open_id is Some)
}

proof fn lemma_push_in_turn(trace: Seq<UpdateView>, u: UpdateView)
    requires
        one_at_a_time(trace),
        laws::shown_open(trace) is Some ==> laws::shown_open(trace) == Some(u.segment_id),
    ensures
        one_at_a_time(trace.push(u)),
{
    let more = trace.push(u);
    assert forall|i: int| 0 <= i < more.len() - 1 && !(#[trigger] more[i]).is_final implies more[i
        + 1].segment_id == more[i].segment_id by {
        assert(more[i] == trace[i]);
        if i + 1 < trace.len() {
            assert(more[i + 1] == trace[i + 1]);
        } else {
            assert(trace.last() == trace[i]);
        }
    }
}

proof fn lemma_flush_in_turn(past: Seq<UpdateView>, l: Lanes)
    requires
        in_turn(past, l),
    ensures
        in_turn(past, accumulator::flushed(l)),
{
    let after = accumulator::flushed(l);
    if !text::is_blank_text(l.held.pending) {
        assert(past + after.out =~= (past + l.out).push(after.out.last()));
        lemma_push_in_turn(past + l.out, after.out.last());
    }
}

proof fn lemma_durable_in_turn(past: Seq<UpdateView>, l: Lanes, tokens: Seq<SonioxToken>)
    requires
        in_turn(past, l),
    ensures
        in_turn(past, accumulator::durable_lane(l, tokens)),
    decreases tokens.len(),
{
    if tokens.len() > 0 {
        lemma_durable_in_turn(past, l, tokens.drop_last());
        let before = accumulator::durable_lane(l, tokens.drop_last());
        let token = tokens.last();
        if token.is_final {
            lemma_flush_in_turn(past, before);
            let at = accumulator::attributed(before, token.speaker_label());
            assert(in_turn(past, at));
            lemma_flush_in_turn(past, at);
            let grown = Lanes {
                held: AccumulatorView { pending: at.held.pending + token.text@, ..at.held },
                ..at
            };
            assert(in_turn(past, grown));
            lemma_flush_in_turn(past, grown);
        }
    }
}

/// One segment is open at a time: over any history, an update that is not final is
/// followed by another one of the same segment, until that segment is closed by a
/// final one. No segment is left open for the next to overtake it. What is in flight
/// must not be dropped while a segment is shown.
pub proof fn law_one_segment_is_open_at_a_time(first_id: u64, history: Seq<Event>)
    requires
        laws::drops_nothing_shown(first_id, history),
    ensures
        ({
            let l = laws::after_history(first_id, history);
            &&& one_at_a_time(l.out)
            &&& l.held.open_id == laws::shown_open(l.out)
            &&& l.held.open_emitted == (l.held.open_id is Some)
        }),
    decreases history.len(),
{
    let l = laws::after_history(first_id, history);
    if history.len() > 0 {
        let before = laws::after_history(first_id, history.drop_last());
        law_one_segment_is_open_at_a_time(first_id, history.drop_last());
        let fresh = Lanes { held: before.held, next_id: before.next_id, out: Seq::empty() };
        assert(before.out + fresh.out =~= before.out);
        match history.last() {
            Event::Ingest(tokens) => {
                lemma_durable_in_turn(before.out, fresh, tokens);
                let durable = accumulator::durable_lane(fresh, tokens);
                let step = accumulator::ingested(before.held, before.next_id, tokens);
                if step.out.len() > durable.out.len() {
                    assert(before.out + step.out =~= (before.out + durable.out).push(
                        step.out.last(),
                    ));
                    lemma_push_in_turn(before.out + durable.out, step.out.last());
                }
            },
            Event::Finish => {
                lemma_flush_in_turn(before.out, fresh);
                let flushed = accumulator::flushed(fresh);
                let step = accumulator::finished(before.held, before.next_id);
                if flushed.out.len() > 0 {
                    assert(step.out =~= flushed.out);
                } else if step.out.len() > 0 {
                    assert(before.out + flushed.out =~= before.out);
                    assert(before.out + step.out =~= before.out.push(step.out.last()));
                    lemma_push_in_turn(before.out, step.out.last());
                } else {
                    assert(before.out + step.out =~= before.out);
                }
            },
            Event::Reset => {},
            Event::OtherIds(_) => {},
        }
    }
}

} // verus!
