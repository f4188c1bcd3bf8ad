//! What the text functions have to do with the text that they are given.

use vstd::prelude::*;

use crate::asr::soniox::accumulator;
use crate::asr::soniox::laws;
use crate::bits::Single;
use crate::text;

verus! {

// ---------------------------------------------------------------------------
// Trimming
// ---------------------------------------------------------------------------

/// Trimming the end takes off trailing whitespace and nothing else: what is left is a
/// prefix that does not end in whitespace, and what is gone is blank.
pub proof fn law_trimming_the_end_takes_off_whitespace(s: Seq<char>)
    ensures
        ({
            let t = text::trim_end_of(s);
            &&& t.len() <= s.len()
            &&& t == s.take(t.len() as int)
            &&& text::is_blank_text(s.skip(t.len() as int))
            &&& t.len() > 0 ==> !text::is_space(t.last())
        }),
    decreases s.len(),
{
    let t = text::trim_end_of(s);
    if s.len() > 0 && text::is_space(s.last()) {
        law_trimming_the_end_takes_off_whitespace(s.drop_last());
        let n = t.len() as int;
        assert(s.take(n) =~= s.drop_last().take(n));
        assert forall|i: int| 0 <= i < s.skip(n).len() implies text::is_space(
            #[trigger] s.skip(n)[i],
        ) by {
            if n + i < s.len() - 1 {
                assert(s.drop_last().skip(n)[i] == s[n + i]);
            }
        }
    } else {
        assert(s.take(s.len() as int) =~= s);
        assert(s.skip(s.len() as int) =~= Seq::<char>::empty());
    }
}

proof fn lemma_trimming_the_start(s: Seq<char>)
    ensures
        ({
            let t = text::trim_start_of(s);
            let n = s.len() - t.len();
            &&& n >= 0
            &&& t == s.skip(n)
            &&& text::is_blank_text(s.take(n))
            &&& t.len() > 0 ==> !text::is_space(t[0])
        }),
    decreases s.len(),
{
    let t = text::trim_start_of(s);
    if s.len() > 0 && text::is_space(s[0]) {
        lemma_trimming_the_start(s.drop_first());
        let n = s.len() - t.len();
        assert(s.skip(n) =~= s.drop_first().skip(n - 1));
        assert forall|i: int| 0 <= i < s.take(n).len() implies text::is_space(
            #[trigger] s.take(n)[i],
        ) by {
            if i > 0 {
                assert(s.drop_first().take(n - 1)[i - 1] == s[i]);
            }
        }
    } else {
        assert(s.skip(0) =~= s);
        assert(s.take(0) =~= Seq::<char>::empty());
    }
}

/// Trimming takes whitespace off both ends and nothing else: around what is left there
/// was only whitespace, and it neither begins nor ends with any. Nothing is left
/// exactly of a blank text.
pub proof fn law_trimming_takes_off_whitespace(s: Seq<char>)
    ensures
        ({
            let t = text::trim_of(s);
            &&& exists|i: int| #![trigger s.subrange(i, i + t.len())]
                {
                    &&& 0 <= i <= s.len() - t.len()
                    &&& t == s.subrange(i, i + t.len())
                    &&& text::is_blank_text(s.take(i))
                    &&& text::is_blank_text(s.skip(i + t.len()))
                }
            &&& t.len() > 0 ==> !text::is_space(t[0]) && !text::is_space(t.last())
            &&& t.len() == 0 <==> text::is_blank_text(s)
        }),
{
    let front = text::trim_end_of(s);
    let t = text::trim_of(s);
    law_trimming_the_end_takes_off_whitespace(s);
    lemma_trimming_the_start(front);
    let i = front.len() - t.len();
    let n = front.len() as int;
    assert(t =~= s.subrange(i, i + t.len()));
    assert forall|k: int| 0 <= k < s.take(i).len() implies text::is_space(
        #[trigger] s.take(i)[k],
    ) by {
        assert(front.take(i)[k] == s[k]);
    }
    if t.len() == 0 {
        assert forall|k: int| 0 <= k < s.len() implies text::is_space(#[trigger] s[k]) by {
            if k < n {
                assert(front.take(i)[k] == s[k]);
            } else {
                assert(s.skip(n)[k - n] == s[k]);
            }
        }
    }
}

// ---------------------------------------------------------------------------
// Sentences
// ---------------------------------------------------------------------------

/// `i` is where the last character stands that is no whitespace.
pub open spec fn ends_at(s: Seq<char>, i: int) -> bool {
    &&& 0 <= i < s.len()
    &&& !text::is_space(s[i])
    &&& forall|k: int| i < k < s.len() ==> text::is_space(#[trigger] s[k])
}

proof fn lemma_trim_end_at(s: Seq<char>, i: int)
    requires
        ends_at(s, i),
    ensures
        text::trim_end_of(s) == s.take(i + 1),
{
    law_trimming_the_end_takes_off_whitespace(s);
    let t = text::trim_end_of(s);
    let n = t.len() as int;
    if n > 0 {
        assert(t.last() == s[n - 1]);
    }
    if n - 1 < i {
        assert(s.skip(n)[i - n] == s[i]);
        assert(false);
    } else if n - 1 > i {
        assert(text::is_space(s[n - 1]));
        assert(false);
    }
}

/// Text that ends a sentence, for a recognizer without quotes: apart from trailing
/// whitespace it ends in `?` or `!`, or in a full stop that neither is the third dot
/// in a row nor follows a digit, with or without whitespace between.
pub proof fn law_text_ends_a_sentence_with_its_last_mark(s: Seq<char>, i: int)
    requires
        ends_at(s, i),
    ensures
        text::sentence_punctuated(s) <==> {
            ||| s[i] == '?'
            ||| s[i] == '!'
            ||| {
                &&& s[i] == '.'
                &&& !(i >= 2 && s[i - 1] == '.' && s[i - 2] == '.')
                &&& !(exists|j: int| ends_at(s.take(i), j) && text::is_digit(#[trigger] s[j]))
            }
        },
{
    lemma_trim_end_at(s, i);
    let t = s.take(i + 1);
    assert(t.drop_last() =~= s.take(i));
    let front = s.take(i);
    law_trimming_the_end_takes_off_whitespace(front);
    let before = text::trim_end_of(front);
    let n = before.len() as int;
    if n > 0 {
        let j = n - 1;
        assert(before.last() == front[j]);
        assert(ends_at(front, j)) by {
            assert forall|k: int| j < k < front.len() implies text::is_space(#[trigger] front[k]) by {
                assert(front.skip(n)[k - n] == front[k]);
            }
        }
        assert(front[j] == s[j]);
        assert forall|k: int| ends_at(front, k) implies k == j by {
            if k < j {
                assert(text::is_space(front[j]));
            } else if k > j {
                assert(text::is_space(front[k]));
            }
        }
    } else {
        assert forall|k: int| !ends_at(front, k) by {
            if ends_at(front, k) {
                assert(front.skip(0)[k] == front[k]);
            }
        }
    }
}

/// A text that is nothing but whitespace ends no sentence.
pub proof fn law_blank_text_ends_no_sentence(s: Seq<char>)
    requires
        text::is_blank_text(s),
    ensures
        !text::sentence_punctuated(s),
        !accumulator::sentence_end(s),
{
    law_trimming_the_end_takes_off_whitespace(s);
    let t = text::trim_end_of(s);
    if t.len() > 0 {
        assert(t.last() == s[t.len() - 1]);
    }
}

proof fn lemma_without_closers(s: Seq<char>)
    ensures
        ({
            let t = accumulator::without_closers(s);
            &&& t.len() <= s.len()
            &&& t == s.take(t.len() as int)
            &&& forall|k: int|
                t.len() <= k < s.len() ==> accumulator::is_closer(#[trigger] s[k])
            &&& t.len() > 0 ==> !accumulator::is_closer(t.last())
        }),
    decreases s.len(),
{
    let t = accumulator::without_closers(s);
    if s.len() > 0 && accumulator::is_closer(s.last()) {
        lemma_without_closers(s.drop_last());
        assert(s.take(t.len() as int) =~= s.drop_last().take(t.len() as int));
        assert forall|k: int| t.len() <= k < s.len() implies accumulator::is_closer(
            #[trigger] s[k],
        ) by {
            if k < s.len() - 1 {
                assert(s.drop_last()[k] == s[k]);
            }
        }
    } else {
        assert(s.take(s.len() as int) =~= s);
    }
}

/// A mark that ends a sentence: a full stop, an exclamation or a question mark, narrow or
/// wide.
pub open spec fn is_mark(c: char) -> bool {
    c == '.' || c == '!' || c == '?' || c == '。' || c == '！' || c == '？'
}

/// A quote or bracket that closes.
pub open spec fn closes(c: char) -> bool {
    c == '"' || c == '\'' || c == '”' || c == '’' || c == ')' || c == ']' || c == '}'
}

/// Text ends a sentence, for a recognizer with quotes, exactly if behind some mark there
/// is nothing but closing quotes and brackets and then whitespace, and the mark is no
/// full stop right behind a digit.
pub proof fn law_a_sentence_ends_with_a_mark(s: Seq<char>)
    ensures
        accumulator::sentence_end(s) <==> exists|i: int, j: int|
            #![trigger s[i], s[j - 1]]
            {
                &&& 0 <= i < j <= s.len()
                &&& is_mark(s[i])
                &&& !(s[i] == '.' && i > 0 && text::is_digit(s[i - 1]))
                &&& forall|k: int| i < k < j ==> closes(#[trigger] s[k])
                &&& forall|k: int| j <= k < s.len() ==> text::is_space(#[trigger] s[k])
            },
{
    let t = text::trim_end_of(s);
    law_trimming_the_end_takes_off_whitespace(s);
    lemma_without_closers(t);
    let core = accumulator::without_closers(t);
    let n = t.len() as int;
    assert forall|k: int| n <= k < s.len() implies text::is_space(#[trigger] s[k]) by {
        assert(s.skip(n)[k - n] == s[k]);
    }
    if accumulator::sentence_end(s) {
        let i = core.len() - 1;
        assert(core.last() == s[i]);
        if core.len() >= 2 {
            assert(core[core.len() - 2] == s[i - 1]);
        }
        assert forall|k: int| i < k < n implies closes(#[trigger] s[k]) by {
            assert(t[k] == s[k]);
        }
        assert(0 <= i < n <= s.len());
        let _ = (s[i], s[n - 1]);
    }
    if exists|i: int, j: int|
        #![trigger s[i], s[j - 1]]
        {
            &&& 0 <= i < j <= s.len()
            &&& is_mark(s[i])
            &&& !(s[i] == '.' && i > 0 && text::is_digit(s[i - 1]))
            &&& forall|k: int| i < k < j ==> closes(#[trigger] s[k])
            &&& forall|k: int| j <= k < s.len() ==> text::is_space(#[trigger] s[k])
        } {
        let (i, j) = choose|i: int, j: int|
            #![trigger s[i], s[j - 1]]
            {
                &&& 0 <= i < j <= s.len()
                &&& is_mark(s[i])
                &&& !(s[i] == '.' && i > 0 && text::is_digit(s[i - 1]))
                &&& forall|k: int| i < k < j ==> closes(#[trigger] s[k])
                &&& forall|k: int| j <= k < s.len() ==> text::is_space(#[trigger] s[k])
            };
        assert(!text::is_space(s[j - 1]));
        assert(ends_at(s, j - 1));
        lemma_trim_end_at(s, j - 1);
        assert(n == j);
        let c = core.len() as int;
        if c > 0 {
            assert(core.last() == s[c - 1]);
        }
        if c - 1 < i {
            assert(t[i] == s[i]);
            assert(accumulator::is_closer(t[i]));
            assert(false);
        } else if c - 1 > i {
            assert(closes(s[c - 1]));
            assert(false);
        }
        if i > 0 {
            assert(core[c - 2] == s[i - 1]);
        }
    }
}

/// Joining two fragments loses nothing and adds at most one space, which stands at the
/// seam: exactly where two words would run together. There is none where a fragment is
/// empty, where whitespace is there already, or ahead of punctuation that clings to
/// what precedes it.
pub proof fn law_joining_keeps_words_apart(left: Seq<char>, right: Seq<char>)
    ensures
        ({
            let whole = accumulator::joined(left, right);
            let clings = |c: char|
                c == '.' || c == ',' || c == '!' || c == '?' || c == ';' || c == ':' || c == ')'
                    || c == ']' || c == '}' || c == '”' || c == '’';
            &&& whole == left + right || whole == left + seq![' '] + right
            &&& whole.len() > left.len() + right.len() <==> left.len() > 0 && right.len() > 0
                && !text::is_space(left.last()) && !text::is_space(right[0]) && !clings(right[0])
            &&& laws::solid(whole) == laws::solid(left) + laws::solid(right)
        }),
{
    let whole = accumulator::joined(left, right);
    laws::lemma_solid_add(left, right);
    assert(left.push(' ') + right =~= left + seq![' '] + right);
    if left.len() == 0 {
        assert(whole =~= left + right);
    } else if right.len() == 0 {
        assert(whole =~= left + right);
    } else if whole.len() > left.len() + right.len() {
        laws::lemma_solid_add(left.push(' '), right);
        laws::lemma_solid_add(left, seq![' ']);
        assert(left.push(' ') =~= left + seq![' ']);
        laws::lemma_solid_blank(seq![' ']);
        assert(laws::solid(left) + Seq::<char>::empty() =~= laws::solid(left));
    }
}

// ---------------------------------------------------------------------------
// Pieces and numbers
// ---------------------------------------------------------------------------

/// Splitting loses nothing: joined by the separator again, the pieces are the text, and
/// no piece holds a separator.
pub proof fn law_splitting_loses_nothing(s: Seq<char>, separator: char)
    ensures
        ({
            let pieces = text::split_at(s, separator);
            &&& pieces.len() > 0
            &&& text::joined_by(seq![separator], pieces) == s
            &&& forall|i: int, k: int|
                0 <= i < pieces.len() && 0 <= k < pieces[i].len() ==> #[trigger] pieces[i][k]
                    != separator
        }),
    decreases s.len(),
{
    let pieces = text::split_at(s, separator);
    let sep = seq![separator];
    if s.len() == 0 {
        assert(text::joined_by(sep, pieces) =~= s);
    } else {
        let front = s.drop_last();
        law_splitting_loses_nothing(front, separator);
        let before = text::split_at(front, separator);
        if s.last() == separator {
            assert(pieces.drop_last() =~= before);
            assert(text::joined_by(sep, pieces) =~= s);
        } else {
            assert(pieces.drop_last() =~= before.drop_last());
            let c = s.last();
            assert(text::joined_by(sep, before) == front);
            assert(pieces.last() == before.last().push(c));
            if before.len() == 1 {
                assert(pieces[0] == before[0].push(c));
                assert(text::joined_by(sep, pieces) =~= front.push(c));
            } else {
                let head = text::joined_by(sep, before.drop_last());
                assert(text::joined_by(sep, pieces) == head + sep + pieces.last());
                assert(head + sep + before.last().push(c) =~= (head + sep + before.last()).push(c));
            }
            assert(front.push(c) =~= s);
            assert forall|i: int, k: int|
                0 <= i < pieces.len() && 0 <= k < pieces[i].len() implies #[trigger] pieces[i][k]
                != separator by {
                if i < pieces.len() - 1 {
                    assert(pieces[i] == before[i]);
                    assert(before[i][k] != separator);
                } else if k < pieces[i].len() - 1 {
                    assert(before[i][k] != separator);
                }
            }
        }
    }
}

/// A part occurs in a text exactly if the text is something, the part, and something.
pub proof fn law_a_part_has_its_place(s: Seq<char>, part: Seq<char>)
    ensures
        text::contains_text(s, part) <==> exists|i: int|
            0 <= i <= s.len() - part.len() && #[trigger] s.subrange(i, i + part.len()) == part,
{
    if text::contains_text(s, part) {
        let i = choose|i: int| 0 <= i <= s.len() && text::has_prefix(#[trigger] s.skip(i), part);
        assert(s.subrange(i, i + part.len()) =~= s.skip(i).take(part.len() as int));
    }
    if exists|i: int|
        0 <= i <= s.len() - part.len() && #[trigger] s.subrange(i, i + part.len()) == part {
        let i = choose|i: int|
            0 <= i <= s.len() - part.len() && #[trigger] s.subrange(i, i + part.len()) == part;
        assert(s.skip(i).take(part.len() as int) =~= s.subrange(i, i + part.len()));
        assert(text::has_prefix(s.skip(i), part));
    }
}

proof fn lemma_decimal(n: nat)
    ensures
        ({
            let s = text::decimal_of(n);
            &&& s.len() > 0
            &&& text::all_digits(s)
            &&& text::digits_value(s) == n
            &&& n > 0 ==> s[0] != '0'
        }),
    decreases n,
{
    let s = text::decimal_of(n);
    if n < 10 {
        assert(s.drop_last() =~= Seq::<char>::empty());
        assert(text::digits_value(Seq::<char>::empty()) == 0);
        assert(s.last() == text::digit_char(n as int));
    } else {
        let front = text::decimal_of(n / 10);
        lemma_decimal(n / 10);
        assert(s.drop_last() =~= front);
        assert(s.last() == text::digit_char((n % 10) as int));
        assert forall|i: int| 0 <= i < s.len() implies text::is_digit(#[trigger] s[i]) by {
            if i < front.len() {
                assert(s[i] == front[i]);
            }
        }
        assert(s[0] == front[0]);
    }
}

/// A number that is written down reads back: its decimal digits, with or without a plus
/// sign, are that number, and have no leading zero.
pub proof fn law_numbers_read_back(n: nat)
    ensures
        text::parsed_number(text::decimal_of(n)) == Some(n),
        text::parsed_number(seq!['+'] + text::decimal_of(n)) == Some(n),
        n > 0 ==> text::decimal_of(n)[0] != '0',
{
    lemma_decimal(n);
    let s = text::decimal_of(n);
    assert(text::is_digit(s[0]));
    assert((seq!['+'] + s).skip(1) =~= s);
}

/// Every digit counts, and nothing but digits makes a number.
pub proof fn law_numbers_are_made_of_digits(s: Seq<char>, c: char)
    requires
        text::parsed_number(s) is Some,
    ensures
        text::parsed_number(s.push(c)) == if '0' <= c && c <= '9' {
            Some((text::parsed_number(s)->0 * 10 + (c as int - '0' as int)) as nat)
        } else {
            None
        },
{
    let sign = s[0] == '+';
    let digits = if sign {
        s.skip(1)
    } else {
        s
    };
    let more = s.push(c);
    let all = if sign {
        more.skip(1)
    } else {
        more
    };
    assert(all =~= digits.push(c));
    assert(all.drop_last() =~= digits);
    assert(all[all.len() - 1] == c);
    if text::is_digit(c) {
        assert forall|i: int| 0 <= i < all.len() implies text::is_digit(#[trigger] all[i]) by {
            if i < digits.len() {
                assert(all[i] == digits[i]);
            }
        }
    }
}

// ---------------------------------------------------------------------------
// Floating-point values as bits
// ---------------------------------------------------------------------------

/// The order of the bit patterns is the order of the values: a NaN is in no order with
/// anything; of two values without a sign bit the larger pattern is the larger value,
/// of two with one the smaller pattern is; a value with a sign bit is never above one
/// without; and the two zeros are equal.
pub proof fn law_bit_patterns_are_ordered_as_values(a: u32, b: u32)
    ensures
        ({
            let x = Single { bits: a };
            let y = Single { bits: b };
            let sign = 0x8000_0000u32;
            let infinity = 0x7f80_0000u32;
            let nan = |n: u32| (n < sign && n > infinity) || (n >= sign && n - sign > infinity);
            &&& nan(a) || nan(b) ==> !x.le_spec(y)
            &&& !nan(a) && !nan(b) ==> {
                &&& a < sign && b < sign ==> x.le_spec(y) == (a <= b)
                &&& a >= sign && b >= sign ==> x.le_spec(y) == (b <= a)
                &&& a >= sign && b < sign ==> x.le_spec(y)
                &&& a < sign && b >= sign ==> x.le_spec(y) == (a == 0 && b == sign)
            }
        }),
{
}

/// Whitespace is what Unicode calls so: the blank, the controls that move on the page, the
/// spaces of a fixed width and the separators of lines and paragraphs; nothing that can be
/// seen. Digits are the ten of ASCII, and none of them is whitespace.
pub proof fn law_characters_are_of_their_kind(c: char)
    ensures
        c == ' ' || c == '\t' || c == '\n' || c == '\r' ==> text::is_space(c),
        0x21 <= c as u32 <= 0x7e ==> !text::is_space(c),
        c as u32 > 0x7f ==> (text::is_space(c) <==> c as u32 == 0x85 || c as u32 == 0xa0 || c as u32
            == 0x1680 || 0x2000 <= c as u32 <= 0x200a || c as u32 == 0x2028 || c as u32 == 0x2029
            || c as u32 == 0x202f || c as u32 == 0x205f || c as u32 == 0x3000),
        text::is_digit(c) <==> c == '0' || c == '1' || c == '2' || c == '3' || c == '4' || c == '5'
            || c == '6' || c == '7' || c == '8' || c == '9',
        text::is_digit(c) ==> !text::is_space(c),
{
}

} // verus!
