//! Character-level text routines.
//!
//! Strings are modelled by their characters, `Seq<char>`. Every routine here is
//! stated over that model; byte offsets never appear in a contract except where
//! a caller asks for a limit in bytes.

use vstd::prelude::*;
use vstd::utf8::encode_utf8;

verus! {

// ---------------------------------------------------------------------------
// Character classes
// ---------------------------------------------------------------------------

/// The Unicode `White_Space` property.
pub open spec fn is_space(c: char) -> bool {
    let u = c as u32;
    ||| 0x0009 <= u <= 0x000d
    ||| u == 0x0020
    ||| u == 0x0085
    ||| u == 0x00a0
    ||| u == 0x1680
    ||| 0x2000 <= u <= 0x200a
    ||| u == 0x2028
    ||| u == 0x2029
    ||| u == 0x202f
    ||| u == 0x205f
    ||| u == 0x3000
}

pub fn is_whitespace(c: char) -> (r: bool)
    ensures
        r == is_space(c),
{
    let u: u32 = c as u32;
    (0x0009 <= u && u <= 0x000d) || u == 0x0020 || u == 0x0085 || u == 0x00a0 || u == 0x1680 || (
    0x2000 <= u && u <= 0x200a) || u == 0x2028 || u == 0x2029 || u == 0x202f || u == 0x205f || u
        == 0x3000
}

/// `'0'` to `'9'`.
pub open spec fn is_digit(c: char) -> bool {
    '0' <= c && c <= '9'
}

pub fn is_ascii_digit(c: char) -> (r: bool)
    ensures
        r == is_digit(c),
{
    '0' <= c && c <= '9'
}

// ---------------------------------------------------------------------------
// Reading and building strings
// ---------------------------------------------------------------------------

pub fn chars_of(s: &str) -> (v: Vec<char>)
    ensures
        v@ == s@,
{
    let mut v: Vec<char> = Vec::new();
    for c in it: s.chars()
        invariant
            it.seq() == s@,
            v@ == s@.take(it.index()),
    {
        v.push(c);
        assert(s@.take(it.index() + 1) == s@.take(it.index()).push(c));
    }
    assert(s@.take(s@.len() as int) == s@);
    v
}

/// Whether two strings hold the same characters.
pub fn same_text(a: &str, b: &str) -> (r: bool)
    ensures
        r == (a@ == b@),
{
    let x = chars_of(a);
    let y = chars_of(b);
    if x.len() != y.len() {
        return false;
    }
    let mut i: usize = 0;
    while i < x.len()
        invariant
            i <= x@.len(),
            x@ == a@,
            y@ == b@,
            x@.len() == y@.len(),
            forall|k: int| 0 <= k < i ==> x@[k] == y@[k],
        decreases x@.len() - i,
    {
        if x[i] != y[i] {
            return false;
        }
        i += 1;
    }
    assert(x@ == y@);
    true
}

/// What an optional string holds.
pub open spec fn opt_view(s: Option<String>) -> Option<Seq<char>> {
    match s {
        Some(t) => Some(t@),
        None => None,
    }
}

pub fn clone_opt(s: &Option<String>) -> (r: Option<String>)
    ensures
        opt_view(r) == opt_view(*s),
{
    match s {
        Some(t) => Some(t.clone()),
        None => None,
    }
}

/// What a list of strings holds.
pub open spec fn list_view(v: Seq<String>) -> Seq<Seq<char>> {
    Seq::new(v.len(), |i: int| v[i]@)
}

pub fn clone_list(v: &Vec<String>) -> (r: Vec<String>)
    ensures
        list_view(r@) == list_view(v@),
{
    let mut r: Vec<String> = Vec::new();
    let mut i: usize = 0;
    while i < v.len()
        invariant
            i <= v@.len(),
            r@.len() == i,
            forall|k: int| 0 <= k < i ==> (#[trigger] r@[k])@ == v@[k]@,
        decreases v@.len() - i,
    {
        r.push(v[i].clone());
        i += 1;
    }
    assert(list_view(r@) == list_view(v@));
    r
}

pub fn is_empty(s: &str) -> (r: bool)
    ensures
        r == (s@.len() == 0),
{
    s.unicode_len() == 0
}

/// Moves the string out, leaving an empty one behind.
pub fn take(s: &mut String) -> (r: String)
    ensures
        r@ == old(s)@,
        final(s)@ == Seq::<char>::empty(),
{
    let mut r = String::new();
    std::mem::swap(&mut r, s);
    r
}

pub fn concat(a: &str, b: &str) -> (r: String)
    ensures
        r@ == a@ + b@,
{
    let mut r = a.to_owned();
    r.append(b);
    r
}

/// The texts of a list, in order.
pub open spec fn strs_view(v: Seq<&str>) -> Seq<Seq<char>> {
    Seq::new(v.len(), |i: int| v[i]@)
}

/// The parts with `separator` between each two of them.
pub open spec fn joined_by(separator: Seq<char>, parts: Seq<Seq<char>>) -> Seq<char>
    decreases parts.len(),
{
    if parts.len() == 0 {
        Seq::empty()
    } else if parts.len() == 1 {
        parts[0]
    } else {
        joined_by(separator, parts.drop_last()) + separator + parts.last()
    }
}

pub fn join(separator: &str, parts: &[&str]) -> (r: String)
    ensures
        r@ == joined_by(separator@, strs_view(parts@)),
{
    let ghost all = strs_view(parts@);
    let mut r = String::new();
    let mut i: usize = 0;
    assert(all.take(0) =~= Seq::<Seq<char>>::empty());
    while i < parts.len()
        invariant
            all == strs_view(parts@),
            i <= parts@.len(),
            r@ == joined_by(separator@, all.take(i as int)),
        decreases parts.len() - i,
    {
        if i > 0 {
            r.append(separator);
        }
        r.append(parts[i]);
        let ghost next = all.take(i + 1);
        assert(next.drop_last() =~= all.take(i as int));
        assert(r@ =~= joined_by(separator@, next));
        i += 1;
    }
    assert(all.take(i as int) =~= all);
    r
}

// ---------------------------------------------------------------------------
// Trimming
// ---------------------------------------------------------------------------

/// `s` without its trailing whitespace.
pub open spec fn trim_end_of(s: Seq<char>) -> Seq<char>
    decreases s.len(),
{
    if s.len() > 0 && is_space(s.last()) {
        trim_end_of(s.drop_last())
    } else {
        s
    }
}

/// `s` without its leading whitespace.
pub open spec fn trim_start_of(s: Seq<char>) -> Seq<char>
    decreases s.len(),
{
    if s.len() > 0 && is_space(s[0]) {
        trim_start_of(s.drop_first())
    } else {
        s
    }
}

/// `s` without leading and trailing whitespace.
pub open spec fn trim_of(s: Seq<char>) -> Seq<char> {
    trim_start_of(trim_end_of(s))
}

/// Nothing but whitespace; in particular, the empty string.
pub open spec fn is_blank_text(s: Seq<char>) -> bool {
    forall|i: int| 0 <= i < s.len() ==> is_space(#[trigger] s[i])
}

proof fn lemma_trim_start_suffix(s: Seq<char>, k: int)
    requires
        0 <= k <= s.len(),
        forall|i: int| 0 <= i < k ==> is_space(#[trigger] s[i]),
        k < s.len() ==> !is_space(s[k]),
    ensures
        trim_start_of(s) == s.skip(k),
    decreases k,
{
    if k == 0 {
        assert(s.skip(0) == s);
    } else {
        lemma_trim_start_suffix(s.drop_first(), k - 1);
        assert(s.drop_first().skip(k - 1) == s.skip(k));
    }
}

/// A string trims to nothing exactly when it is blank.
pub proof fn lemma_trim_empty_iff_blank(s: Seq<char>)
    ensures
        trim_end_of(s).len() == 0 <==> is_blank_text(s),
        trim_of(s).len() == 0 <==> is_blank_text(s),
    decreases s.len(),
{
    if s.len() > 0 && is_space(s.last()) {
        lemma_trim_empty_iff_blank(s.drop_last());
        if is_blank_text(s.drop_last()) {
            assert forall|i: int| 0 <= i < s.len() implies is_space(#[trigger] s[i]) by {
                if i < s.len() - 1 {
                    assert(s.drop_last()[i] == s[i]);
                }
            }
        }
        if is_blank_text(s) {
            assert forall|i: int| 0 <= i < s.len() - 1 implies is_space(
                #[trigger] s.drop_last()[i],
            ) by {
                assert(s.drop_last()[i] == s[i]);
            }
        }
    } else if s.len() > 0 {
        lemma_trim_start_keeps_last(s);
    }
}

proof fn lemma_trim_start_keeps_last(s: Seq<char>)
    requires
        s.len() > 0,
        !is_space(s.last()),
    ensures
        trim_start_of(s).len() > 0,
    decreases s.len(),
{
    if is_space(s[0]) {
        lemma_trim_start_keeps_last(s.drop_first());
    }
}

pub fn trim_end(s: &str) -> (r: &str)
    ensures
        r@ == trim_end_of(s@),
{
    let v = chars_of(s);
    let mut n: usize = v.len();
    assert(v@.take(n as int) == v@);
    while n > 0 && is_whitespace(v[n - 1])
        invariant
            n <= v@.len(),
            trim_end_of(v@.take(n as int)) == trim_end_of(v@),
        decreases n,
    {
        assert(v@.take(n as int).drop_last() == v@.take(n - 1));
        n -= 1;
    }
    assert(n > 0 ==> v@.take(n as int).last() == v@[n - 1]);
    s.substring_char(0, n)
}

pub fn trim_start(s: &str) -> (r: &str)
    ensures
        r@ == trim_start_of(s@),
{
    let v = chars_of(s);
    let mut n: usize = 0;
    while n < v.len() && is_whitespace(v[n])
        invariant
            n <= v@.len(),
            forall|i: int| 0 <= i < n ==> is_space(#[trigger] v@[i]),
        decreases v@.len() - n,
    {
        n += 1;
    }
    proof {
        lemma_trim_start_suffix(v@, n as int);
    }
    s.substring_char(n, v.len())
}

pub fn trim(s: &str) -> (r: &str)
    ensures
        r@ == trim_of(s@),
{
    trim_start(trim_end(s))
}

pub fn is_blank(s: &str) -> (r: bool)
    ensures
        r == is_blank_text(s@),
{
    let v = chars_of(s);
    let mut i: usize = 0;
    while i < v.len()
        invariant
            i <= v@.len(),
            v@ == s@,
            forall|k: int| 0 <= k < i ==> is_space(#[trigger] s@[k]),
        decreases v@.len() - i,
    {
        if !is_whitespace(v[i]) {
            assert(!is_space(s@[i as int]));
            return false;
        }
        i += 1;
    }
    true
}

// ---------------------------------------------------------------------------
// Sentence punctuation
// ---------------------------------------------------------------------------

/// The trimmed text ends in `?` or `!`, or in a `.` that neither closes an
/// ellipsis nor stands behind a digit.
pub open spec fn sentence_punctuated(s: Seq<char>) -> bool {
    let t = trim_end_of(s);
    let before = trim_end_of(t.drop_last());
    let n = t.len() as int;
    &&& n > 0
    &&& t[n - 1] == '?' || t[n - 1] == '!' || {
        &&& t[n - 1] == '.'
        &&& !(n >= 3 && t[n - 2] == '.' && t[n - 3] == '.')
        &&& !(before.len() > 0 && is_digit(before.last()))
    }
}

/// Check if text ends with sentence-ending punctuation (`.`, `?`, `!`),
/// filtering out ellipsis and decimal-looking patterns.
pub fn ends_with_sentence_punctuation(text: &str) -> (r: bool)
    ensures
        r == sentence_punctuated(text@),
{
    let trimmed = trim_end(text);
    let v = chars_of(trimmed);
    let n: usize = v.len();
    if n == 0 {
        return false;
    }
    if v[n - 1] == '?' || v[n - 1] == '!' {
        return true;
    }
    if v[n - 1] != '.' {
        return false;
    }
    if n >= 3 && v[n - 2] == '.' && v[n - 3] == '.' {
        return false;
    }
    let body = trimmed.substring_char(0, n - 1);
    assert(body@ == trimmed@.drop_last());
    let before = chars_of(trim_end(body));
    !(before.len() > 0 && is_ascii_digit(before[before.len() - 1]))
}

// ---------------------------------------------------------------------------
// Prefixes
// ---------------------------------------------------------------------------

pub open spec fn has_prefix(s: Seq<char>, prefix: Seq<char>) -> bool {
    prefix.len() <= s.len() && s.take(prefix.len() as int) == prefix
}

/// The rest of `s` behind `prefix`, or `None` if `s` does not start with it.
pub fn strip_prefix<'a>(s: &'a str, prefix: &str) -> (r: Option<&'a str>)
    ensures
        r is Some <==> has_prefix(s@, prefix@),
        r matches Some(rest) ==> rest@ == s@.skip(prefix@.len() as int),
{
    let v = chars_of(s);
    let p = chars_of(prefix);
    if p.len() > v.len() {
        return None;
    }
    let mut i: usize = 0;
    while i < p.len()
        invariant
            i <= p@.len() <= v@.len(),
            v@ == s@,
            p@ == prefix@,
            forall|k: int| 0 <= k < i ==> v@[k] == p@[k],
        decreases p@.len() - i,
    {
        if v[i] != p[i] {
            assert(s@.take(prefix@.len() as int)[i as int] != prefix@[i as int]);
            return None;
        }
        i += 1;
    }
    assert(s@.take(prefix@.len() as int) == prefix@);
    assert(s@.skip(prefix@.len() as int) == s@.subrange(p@.len() as int, v@.len() as int));
    Some(s.substring_char(p.len(), v.len()))
}

/// The longest run of whole characters at the start of `s` that takes at most
/// `max_bytes` bytes of UTF-8.
pub open spec fn preview_of(s: Seq<char>, max_bytes: nat) -> Seq<char>
    decreases s.len(),
{
    if s.len() == 0 || encode_utf8(s).len() <= max_bytes {
        s
    } else {
        preview_of(s.drop_last(), max_bytes)
    }
}

proof fn lemma_preview_cut(s: Seq<char>, n: int, max_bytes: nat)
    requires
        0 <= n < s.len(),
        encode_utf8(s.take(n)).len() <= max_bytes,
        encode_utf8(s.take(n + 1)).len() > max_bytes,
    ensures
        preview_of(s, max_bytes) == s.take(n),
    decreases s.len(),
{
    if n + 1 == s.len() {
        assert(s.take(n + 1) == s);
        assert(s.drop_last() == s.take(n));
        assert(preview_of(s.take(n), max_bytes) == s.take(n));
    } else {
        let shorter = s.drop_last();
        assert(shorter.take(n) == s.take(n));
        assert(shorter.take(n + 1) == s.take(n + 1));
        lemma_preview_cut(shorter, n, max_bytes);
        lemma_prefix_is_no_longer(s, n + 1);
    }
}

proof fn lemma_prefix_is_no_longer(s: Seq<char>, n: int)
    requires
        0 <= n <= s.len(),
    ensures
        encode_utf8(s.take(n)).len() <= encode_utf8(s).len(),
    decreases s.len() - n,
{
    if n == s.len() {
        assert(s.take(n) == s);
    } else {
        lemma_encode_push(s.take(n), s[n]);
        assert(s.take(n).push(s[n]) == s.take(n + 1));
        lemma_prefix_is_no_longer(s, n + 1);
    }
}

/// A preview is a prefix that fits, never splits a character, and could not be
/// one character longer.
pub proof fn law_preview_is_the_longest_prefix_that_fits(s: Seq<char>, max_bytes: nat)
    ensures
        ({
            let p = preview_of(s, max_bytes);
            &&& has_prefix(s, p)
            &&& encode_utf8(p).len() <= max_bytes
            &&& p.len() < s.len() ==> encode_utf8(s.take(p.len() as int + 1)).len() > max_bytes
        }),
    decreases s.len(),
{
    if s.len() == 0 || encode_utf8(s).len() <= max_bytes {
        assert(s.take(s.len() as int) == s);
    } else {
        let shorter = s.drop_last();
        law_preview_is_the_longest_prefix_that_fits(shorter, max_bytes);
        let p = preview_of(s, max_bytes);
        assert(s.take(p.len() as int) == shorter.take(p.len() as int));
        if p.len() < shorter.len() {
            assert(s.take(p.len() as int + 1) == shorter.take(p.len() as int + 1));
        } else {
            assert(s.take(p.len() as int + 1) == s);
        }
    }
}

/// The start of `text`, cut at a character boundary to at most `max_bytes` bytes.
pub fn text_preview(text: &str, max_bytes: usize) -> (r: String)
    ensures
        r@ == preview_of(text@, max_bytes as nat),
{
    let v = chars_of(text);
    let mut used: usize = 0;
    let mut n: usize = 0;
    assert(encode_utf8(v@.take(0)).len() == 0);
    while n < v.len()
        invariant
            n <= v@.len(),
            v@ == text@,
            used == encode_utf8(v@.take(n as int)).len(),
            used <= max_bytes,
        decreases v@.len() - n,
    {
        let w: usize = utf8_width(v[n]);
        proof {
            lemma_encode_push(v@.take(n as int), v@[n as int]);
            assert(v@.take(n as int).push(v@[n as int]) == v@.take(n + 1));
        }
        if w > max_bytes - used {
            proof {
                lemma_preview_cut(text@, n as int, max_bytes as nat);
            }
            return text.substring_char(0, n).to_owned();
        }
        used += w;
        n += 1;
    }
    assert(v@.take(n as int) == v@);
    text.to_owned()
}

/// How many bytes `c` takes in UTF-8.
pub fn utf8_width(c: char) -> (w: usize)
    ensures
        w == vstd::utf8::encode_scalar(c as u32).len(),
        1 <= w <= 4,
{
    let u: u32 = c as u32;
    if u <= 0x7f {
        1
    } else if u <= 0x7ff {
        2
    } else if u <= 0xffff {
        3
    } else {
        4
    }
}

proof fn lemma_encode_push(s: Seq<char>, c: char)
    ensures
        encode_utf8(s.push(c)).len() == encode_utf8(s).len() + vstd::utf8::encode_scalar(
            c as u32,
        ).len(),
    decreases s.len(),
{
    reveal_with_fuel(encode_utf8, 2);
    if s.len() > 0 {
        lemma_encode_push(s.drop_first(), c);
        assert(s.push(c).drop_first() == s.drop_first().push(c));
    } else {
        assert(s.push(c).drop_first() == Seq::<char>::empty());
    }
}

/// `part` occurs somewhere in `s`.
pub open spec fn contains_text(s: Seq<char>, part: Seq<char>) -> bool {
    exists|i: int| 0 <= i <= s.len() && has_prefix(#[trigger] s.skip(i), part)
}

pub fn contains(s: &str, part: &str) -> (r: bool)
    ensures
        r == contains_text(s@, part@),
{
    let n: usize = s.unicode_len();
    let mut i: usize = 0;
    while i <= n
        invariant
            n == s@.len(),
            i <= n + 1,
            forall|k: int| 0 <= k < i ==> !has_prefix(#[trigger] s@.skip(k), part@),
        decreases n + 1 - i,
    {
        let rest = s.substring_char(i, n);
        assert(rest@ =~= s@.skip(i as int));
        if strip_prefix(rest, part).is_some() {
            return true;
        }
        if i == n {
            return false;
        }
        i += 1;
    }
    false
}

// ---------------------------------------------------------------------------
// Numbers
// ---------------------------------------------------------------------------

pub open spec fn digit_char(d: int) -> char {
    (('0' as int) + d) as char
}

/// The decimal digits of `n`, without leading zeros.
pub open spec fn decimal_of(n: nat) -> Seq<char>
    decreases n,
{
    if n < 10 {
        seq![digit_char(n as int)]
    } else {
        decimal_of(n / 10).push(digit_char((n % 10) as int))
    }
}

fn digit_text(d: usize) -> (r: &'static str)
    requires
        d < 10,
    ensures
        r@ == seq![digit_char(d as int)],
{
    proof {
        reveal_strlit("0123456789");
    }
    let r = "0123456789".substring_char(d, d + 1);
    assert(r@ =~= seq![digit_char(d as int)]);
    r
}

pub fn decimal(n: u64) -> (r: String)
    ensures
        r@ == decimal_of(n as nat),
    decreases n,
{
    if n < 10 {
        digit_text(n as usize).to_owned()
    } else {
        let mut r = decimal(n / 10);
        r.append(digit_text((n % 10) as usize));
        assert(r@ =~= decimal_of(n as nat));
        r
    }
}

pub open spec fn digit_value(c: char) -> nat {
    (c as int - '0' as int) as nat
}

/// The number that a run of digits writes.
pub open spec fn digits_value(s: Seq<char>) -> nat
    decreases s.len(),
{
    if s.len() == 0 {
        0
    } else {
        digits_value(s.drop_last()) * 10 + digit_value(s.last())
    }
}

pub open spec fn all_digits(s: Seq<char>) -> bool {
    forall|i: int| 0 <= i < s.len() ==> is_digit(#[trigger] s[i])
}

/// The number that `s` writes: one or more digits, with or without a leading `+`.
pub open spec fn parsed_number(s: Seq<char>) -> Option<nat> {
    let digits = if s.len() > 0 && s[0] == '+' {
        s.skip(1)
    } else {
        s
    };
    if digits.len() > 0 && all_digits(digits) {
        Some(digits_value(digits))
    } else {
        None
    }
}

proof fn lemma_prefix_value(s: Seq<char>, n: int)
    requires
        0 <= n <= s.len(),
    ensures
        digits_value(s.take(n)) <= digits_value(s),
    decreases s.len() - n,
{
    if n == s.len() {
        assert(s.take(n) =~= s);
    } else {
        assert(s.take(n + 1).drop_last() =~= s.take(n));
        lemma_prefix_value(s, n + 1);
    }
}

/// Reads a number that fits `limit`; anything else is `None`.
fn parse_up_to(s: &str, limit: u64) -> (r: Option<u64>)
    ensures
        r == match parsed_number(s@) {
            Some(n) if n <= limit => Some(n as u64),
            _ => None,
        },
{
    let all = chars_of(s);
    let from: usize = if all.len() > 0 && all[0] == '+' {
        1
    } else {
        0
    };
    let ghost digits = all@.skip(from as int);
    assert(from == 0 ==> digits =~= s@);
    if from == all.len() {
        return None;
    }
    let mut value: u64 = 0;
    let mut i: usize = from;
    assert(digits.take(0) =~= Seq::<char>::empty());
    while i < all.len()
        invariant
            from <= i <= all@.len(),
            all@ == s@,
            digits == all@.skip(from as int),
            digits.len() > 0,
            parsed_number(s@) == (if all_digits(digits) {
                Some(digits_value(digits))
            } else {
                None
            }),
            forall|k: int| 0 <= k < i - from ==> is_digit(#[trigger] digits[k]),
            value == digits_value(digits.take(i - from)),
            value <= limit,
        decreases all@.len() - i,
    {
        let c = all[i];
        assert(digits[i - from] == c);
        if !is_ascii_digit(c) {
            return None;
        }
        let d: u64 = (c as u32 - '0' as u32) as u64;
        proof {
            assert(digits.take(i - from + 1).drop_last() =~= digits.take(i - from));
            lemma_prefix_value(digits, i - from + 1);
        }
        if d > limit || value > (limit - d) / 10 {
            assert(value * 10 + d > limit);
            return None;
        }
        value = value * 10 + d;
        i += 1;
    }
    assert(digits.take(i - from) =~= digits);
    Some(value)
}

/// Reads an unsigned number of the platform's word size.
pub fn parse_usize(s: &str) -> (r: Option<usize>)
    ensures
        r == match parsed_number(s@) {
            Some(n) if n <= usize::MAX => Some(n as usize),
            _ => None,
        },
{
    match parse_up_to(s, usize::MAX as u64) {
        Some(n) => Some(n as usize),
        None => None,
    }
}

/// Reads an unsigned 32-bit number.
pub fn parse_u32(s: &str) -> (r: Option<u32>)
    ensures
        r == match parsed_number(s@) {
            Some(n) if n <= u32::MAX => Some(n as u32),
            _ => None,
        },
{
    match parse_up_to(s, u32::MAX as u64) {
        Some(n) => Some(n as u32),
        None => None,
    }
}

// ---------------------------------------------------------------------------
// Words and lists
// ---------------------------------------------------------------------------

/// `c` is `w`, or its ASCII capital.
pub open spec fn folds_to(c: char, w: char) -> bool {
    c == w || ('A' <= c && c <= 'Z' && c as u32 + 32 == w as u32)
}

/// `s` is the lower-case `word`, in whatever capitalization.
pub open spec fn is_word(s: Seq<char>, word: Seq<char>) -> bool {
    s.len() == word.len() && forall|i: int| 0 <= i < s.len() ==> folds_to(#[trigger] s[i], word[i])
}

pub fn same_word(s: &str, word: &str) -> (r: bool)
    ensures
        r == is_word(s@, word@),
{
    let x = chars_of(s);
    let w = chars_of(word);
    if x.len() != w.len() {
        return false;
    }
    let mut i: usize = 0;
    while i < x.len()
        invariant
            i <= x@.len(),
            x@ == s@,
            w@ == word@,
            x@.len() == w@.len(),
            forall|k: int| 0 <= k < i ==> folds_to(#[trigger] x@[k], w@[k]),
        decreases x@.len() - i,
    {
        let c = x[i];
        let t = w[i];
        let capital = 'A' <= c && c <= 'Z' && c as u32 + 32 == t as u32;
        if c != t && !capital {
            assert(!folds_to(s@[i as int], word@[i as int]));
            return false;
        }
        i += 1;
    }
    true
}

/// The pieces of `s` between the separators.
pub open spec fn split_at(s: Seq<char>, separator: char) -> Seq<Seq<char>>
    decreases s.len(),
{
    if s.len() == 0 {
        seq![Seq::empty()]
    } else {
        let before = split_at(s.drop_last(), separator);
        if s.last() == separator {
            before.push(Seq::empty())
        } else {
            before.drop_last().push(before.last().push(s.last()))
        }
    }
}

proof fn lemma_split_has_a_piece(s: Seq<char>, separator: char)
    ensures
        split_at(s, separator).len() > 0,
    decreases s.len(),
{
    if s.len() > 0 {
        lemma_split_has_a_piece(s.drop_last(), separator);
    }
}

pub fn split(s: &str, separator: char) -> (r: Vec<&str>)
    ensures
        r@.len() == split_at(s@, separator).len(),
        forall|i: int| 0 <= i < r@.len() ==> (#[trigger] r@[i])@ == split_at(s@, separator)[i],
{
    let v = chars_of(s);
    let mut r: Vec<&str> = Vec::new();
    let mut start: usize = 0;
    let mut i: usize = 0;
    assert(v@.take(0) =~= Seq::<char>::empty());
    assert(v@.subrange(0, 0) =~= Seq::<char>::empty());
    while i < v.len()
        invariant
            start <= i <= v@.len(),
            v@ == s@,
            ({
                let pieces = split_at(v@.take(i as int), separator);
                &&& r@.len() + 1 == pieces.len()
                &&& forall|k: int| 0 <= k < r@.len() ==> (#[trigger] r@[k])@ == pieces[k]
                &&& pieces.last() == v@.subrange(start as int, i as int)
            }),
        decreases v@.len() - i,
    {
        proof {
            assert(v@.take(i + 1).drop_last() =~= v@.take(i as int));
            assert(v@.take(i + 1).last() == v@[i as int]);
            assert(v@.subrange(start as int, i as int).push(v@[i as int]) =~= v@.subrange(
                start as int,
                i + 1,
            ));
            assert(v@.subrange(i + 1, i + 1) =~= Seq::<char>::empty());
        }
        if v[i] == separator {
            r.push(s.substring_char(start, i));
            start = i + 1;
        }
        i += 1;
    }
    assert(v@.take(i as int) =~= v@);
    r.push(s.substring_char(start, i));
    r
}

} // verus!
