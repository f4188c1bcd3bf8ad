//! Moving runs of samples around.
//!
//! The pipeline never looks at a sample's value here, so these routines work on
//! any `Copy` type.

use vstd::prelude::*;

verus! {

/// The last `n` items of `s`, or all of them if there are fewer.
pub open spec fn newest<A>(s: Seq<A>, n: nat) -> Seq<A> {
    if s.len() <= n {
        s
    } else {
        s.skip(s.len() - n)
    }
}

/// Keeping the newest `n` as items arrive is the same as keeping them at the end.
pub proof fn lemma_newest_add<A>(a: Seq<A>, b: Seq<A>, n: nat)
    ensures
        newest(newest(a, n) + b, n) == newest(a + b, n),
{
    assert(newest(newest(a, n) + b, n) =~= newest(a + b, n));
}

pub fn copy_range<T: Copy>(s: &[T], from: usize, to: usize) -> (r: Vec<T>)
    requires
        from <= to <= s@.len(),
    ensures
        r@ == s@.subrange(from as int, to as int),
{
    let mut r: Vec<T> = Vec::with_capacity(to - from);
    let mut i: usize = from;
    while i < to
        invariant
            from <= i <= to <= s@.len(),
            r@ == s@.subrange(from as int, i as int),
        decreases to - i,
    {
        r.push(s[i]);
        i += 1;
        assert(r@ == s@.subrange(from as int, i as int));
    }
    r
}

pub fn copy_all<T: Copy>(s: &[T]) -> (r: Vec<T>)
    ensures
        r@ == s@,
{
    assert(s@.subrange(0, s@.len() as int) == s@);
    copy_range(s, 0, s.len())
}

/// Appends a copy of `s`.
pub fn extend_copy<T: Copy>(v: &mut Vec<T>, s: &[T])
    ensures
        final(v)@ == old(v)@ + s@,
{
    let mut tail = copy_all(s);
    v.append(&mut tail);
}

/// Removes the first `n` items.
pub fn drop_front<T>(v: &mut Vec<T>, n: usize)
    requires
        n <= old(v)@.len(),
    ensures
        final(v)@ == old(v)@.skip(n as int),
{
    let mut rest = v.split_off(n);
    std::mem::swap(v, &mut rest);
    assert(v@ == old(v)@.skip(n as int));
}

/// Pads a non-empty buffer with `fill` up to the next multiple of `chunk_size`.
pub open spec fn padded<A>(buffer: Seq<A>, chunk_size: nat, fill: A) -> Seq<A> {
    if chunk_size == 0 || buffer.len() % chunk_size == 0 {
        buffer
    } else {
        buffer + Seq::new((chunk_size - buffer.len() % chunk_size) as nat, |i: int| fill)
    }
}

/// Pads a partial chunk at the end of `buffer`; an empty or aligned buffer stays
/// as it is.
pub fn pad_to_chunk_boundary<T: Copy>(buffer: &mut Vec<T>, chunk_size: usize, fill: T)
    requires
        chunk_size > 0 && old(buffer)@.len() % chunk_size as nat != 0 ==> old(buffer)@.len()
            + chunk_size <= usize::MAX,
    ensures
        final(buffer)@ == padded(old(buffer)@, chunk_size as nat, fill),
{
    if buffer.len() == 0 || chunk_size == 0 {
        assert(chunk_size > 0 ==> 0nat % chunk_size as nat == 0) by (nonlinear_arith);
        return;
    }
    let remainder: usize = buffer.len() % chunk_size;
    if remainder != 0 {
        let missing: usize = chunk_size - remainder;
        let mut i: usize = 0;
        while i < missing
            invariant
                i <= missing,
                buffer@ == old(buffer)@ + Seq::new(i as nat, |k: int| fill),
            decreases missing - i,
        {
            buffer.push(fill);
            i += 1;
            assert(buffer@ == old(buffer)@ + Seq::new(i as nat, |k: int| fill));
        }
    }
}

/// A padded buffer is a whole number of chunks long and starts with what was
/// there.
pub proof fn law_padding_reaches_a_boundary<A>(buffer: Seq<A>, chunk_size: nat, fill: A)
    requires
        chunk_size > 0,
    ensures
        padded(buffer, chunk_size, fill).len() % chunk_size == 0,
        padded(buffer, chunk_size, fill).take(buffer.len() as int) == buffer,
        padded(buffer, chunk_size, fill).len() < buffer.len() + chunk_size,
        padded(padded(buffer, chunk_size, fill), chunk_size, fill) == padded(
            buffer,
            chunk_size,
            fill,
        ),
{
    let r = buffer.len() % chunk_size;
    assert(padded(buffer, chunk_size, fill).take(buffer.len() as int) =~= buffer);
    if r != 0 {
        let n = buffer.len() as int;
        let c = chunk_size as int;
        vstd::arithmetic::div_mod::lemma_fundamental_div_mod(n, c);
        let q = n / c;
        assert(n + (c - n % c) == c * (q + 1)) by (nonlinear_arith)
            requires
                n == c * q + n % c,
        ;
        vstd::arithmetic::div_mod::lemma_mod_multiples_basic(q + 1, c);
        assert((q + 1) * c == c * (q + 1)) by (nonlinear_arith);
    }
}

// ---------------------------------------------------------------------------
// Cutting a stream into frames
// ---------------------------------------------------------------------------

/// The whole frames of `n` items at the start of `s`.
pub open spec fn cut<A>(s: Seq<A>, n: int) -> Seq<Seq<A>> {
    Seq::new((s.len() as int / n) as nat, |i: int| s.subrange(i * n, i * n + n))
}

/// What is left of `s` behind its whole frames.
pub open spec fn uncut<A>(s: Seq<A>, n: int) -> Seq<A> {
    s.skip(s.len() as int / n * n)
}

pub proof fn lemma_cut_bounds<A>(s: Seq<A>, n: int)
    requires
        n > 0,
    ensures
        0 <= s.len() as int / n * n <= s.len(),
        s.len() - s.len() as int / n * n < n,
        uncut(s, n).len() < n,
        uncut(s, n).len() == s.len() % n as nat,
{
    vstd::arithmetic::div_mod::lemma_fundamental_div_mod(s.len() as int, n);
    vstd::arithmetic::div_mod::lemma_mod_bound(s.len() as int, n);
    vstd::arithmetic::div_mod::lemma_div_pos_is_pos(s.len() as int, n);
    assert(s.len() as int / n * n == n * (s.len() as int / n)) by (nonlinear_arith);
    assert(0 <= s.len() as int / n * n) by (nonlinear_arith)
        requires
            s.len() as int / n >= 0,
            n > 0,
    ;
}

/// Where a stream is broken into deliveries does not matter: cutting `a`, then
/// what `a` left over together with `b`, gives the frames and the rest of `a + b`.
pub proof fn law_cutting_ignores_delivery_boundaries<A>(a: Seq<A>, b: Seq<A>, n: int)
    requires
        n > 0,
    ensures
        cut(a, n) + cut(uncut(a, n) + b, n) == cut(a + b, n),
        uncut(uncut(a, n) + b, n) == uncut(a + b, n),
{
    lemma_cut_bounds(a, n);
    let p = a.len() as int / n;
    let rest = uncut(a, n) + b;
    lemma_cut_bounds(rest, n);
    lemma_cut_bounds(a + b, n);
    let q = rest.len() as int / n;
    assert((a + b).len() as int == p * n + rest.len());
    assert((p * n + rest.len()) / n == p + q) by {
        vstd::arithmetic::div_mod::lemma_div_multiples_vanish_fancy(p, 0, n);
        vstd::arithmetic::div_mod::lemma_fundamental_div_mod(rest.len() as int, n);
        vstd::arithmetic::div_mod::lemma_mod_bound(rest.len() as int, n);
        let r = rest.len() as int % n;
        assert(p * n + rest.len() == (p + q) * n + r) by (nonlinear_arith)
            requires
                rest.len() == n * q + r,
        ;
        vstd::arithmetic::div_mod::lemma_fundamental_div_mod_converse(
            p * n + rest.len(),
            n,
            p + q,
            r,
        );
    }
    assert((p + q) * n == p * n + q * n) by (nonlinear_arith);
    assert(p >= 0 && q >= 0) by {
        vstd::arithmetic::div_mod::lemma_div_pos_is_pos(a.len() as int, n);
        vstd::arithmetic::div_mod::lemma_div_pos_is_pos(rest.len() as int, n);
    }
    let whole = cut(a + b, n);
    let parts = cut(a, n) + cut(rest, n);
    assert forall|i: int| 0 <= i < whole.len() implies parts[i] == whole[i] by {
        assert(i * n + n <= (p + q) * n) by (nonlinear_arith)
            requires
                i < p + q,
                n > 0,
        ;
        assert(0 <= i * n) by (nonlinear_arith)
            requires
                0 <= i,
                n > 0,
        ;
        if i < p {
            assert(i * n + n <= p * n) by (nonlinear_arith)
                requires
                    i < p,
                    n > 0,
            ;
            assert(parts[i] =~= whole[i]);
        } else {
            assert((i - p) * n == i * n - p * n) by (nonlinear_arith);
            assert(0 <= (i - p) * n) by (nonlinear_arith)
                requires
                    p <= i,
                    n > 0,
            ;
            assert(parts[i] == rest.subrange((i - p) * n, (i - p) * n + n));
            assert(parts[i] =~= whole[i]);
        }
    }
    assert(parts =~= whole);
    assert(uncut(rest, n) =~= uncut(a + b, n));
}

/// The frames of a list, one behind the other.
pub open spec fn in_a_row<A>(frames: Seq<Seq<A>>) -> Seq<A>
    decreases frames.len(),
{
    if frames.len() == 0 {
        Seq::empty()
    } else {
        in_a_row(frames.drop_last()) + frames.last()
    }
}

proof fn lemma_frames_in_a_row<A>(s: Seq<A>, n: int, k: nat)
    requires
        n > 0,
        k * n <= s.len(),
    ensures
        in_a_row(Seq::new(k, |i: int| s.subrange(i * n, i * n + n))) == s.take(k * n),
    decreases k,
{
    let frames = Seq::new(k, |i: int| s.subrange(i * n, i * n + n));
    if k == 0 {
        assert(0 * n == 0);
        assert(s.take(0) =~= Seq::<A>::empty());
    } else {
        let j = (k - 1) as nat;
        assert(k * n == j * n + n) by (nonlinear_arith)
            requires
                k == j + 1,
        ;
        assert(0 <= j * n) by (nonlinear_arith)
            requires
                0 <= j,
                n > 0,
        ;
        lemma_frames_in_a_row(s, n, j);
        assert(frames.drop_last() =~= Seq::new(j, |i: int| s.subrange(i * n, i * n + n)));
        assert(frames.last() == s.subrange(j * n, j * n + n));
        assert(s.take(j * n) + s.subrange(j * n, j * n + n) =~= s.take(k * n));
    }
}

/// Cutting loses nothing and moves nothing: the frames, all of the same size, and what is
/// left behind them, less than a frame, make up the stream.
pub proof fn law_frames_make_up_the_stream<A>(s: Seq<A>, n: int)
    requires
        n > 0,
    ensures
        in_a_row(cut(s, n)) + uncut(s, n) == s,
        forall|i: int| 0 <= i < cut(s, n).len() ==> (#[trigger] cut(s, n)[i]).len() == n,
        uncut(s, n).len() < n,
{
    lemma_cut_bounds(s, n);
    let k = s.len() as int / n;
    vstd::arithmetic::div_mod::lemma_div_pos_is_pos(s.len() as int, n);
    lemma_frames_in_a_row(s, n, k as nat);
    assert(s.take(k * n) + s.skip(k * n) =~= s);
    assert forall|i: int| 0 <= i < cut(s, n).len() implies (#[trigger] cut(s, n)[i]).len() == n by {
        assert(0 <= i * n && i * n + n <= k * n) by (nonlinear_arith)
            requires
                0 <= i < k,
                n > 0,
        ;
    }
}

/// What is kept is the end: as many items as fit, in their order, up to the last one.
pub proof fn law_the_newest_are_the_last<A>(s: Seq<A>, n: nat, i: int)
    requires
        0 <= i < newest(s, n).len(),
    ensures
        newest(s, n).len() == if s.len() < n {
            s.len()
        } else {
            n
        },
        newest(s, n)[newest(s, n).len() - 1 - i] == s[s.len() - 1 - i],
{
}

/// What is padded is padded with the fill, and nothing is padded at a boundary.
pub proof fn law_padding_is_fill<A>(buffer: Seq<A>, chunk_size: nat, fill: A)
    ensures
        ({
            let p = padded(buffer, chunk_size, fill);
            &&& forall|i: int| buffer.len() <= i < p.len() ==> #[trigger] p[i] == fill
            &&& buffer.len() == 0 || chunk_size == 0 ==> p == buffer
            &&& chunk_size > 0 && buffer.len() % chunk_size == 0 ==> p == buffer
        }),
{
    if buffer.len() == 0 && chunk_size > 0 {
        vstd::arithmetic::div_mod::lemma_small_mod(0, chunk_size);
    }
}

} // verus!
