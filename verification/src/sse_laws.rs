//! What holds of the event-stream framing across chunks: how the stream is cut into
//! chunks does not change what is left in the buffer, nor, when its complete blocks are
//! valid UTF-8, the data handed on.
use vstd::prelude::*;
use vstd::utf8::{
    decode_first_scalar, decode_utf8, decode_utf8_split, is_char_boundary_iff_not_is_continuation_byte,
    pop_first_scalar, valid_utf8, valid_utf8_split,
};

use crate::sse::{
    block_data, crlf2, drain_spec, event_of_data_fn, events_of, lemma_drain_step, lemma_separator_bounds,
    lemma_separator_first, lemma_separator_is, lemma_split_lines_nonempty, lf2, line_data,
    line_data_fn, matches_at, separator_of, split_lines,
};

verus! {

/// A match in a suffix is a match in the whole, shifted.
proof fn lemma_match_suffix(w: Seq<u8>, n: Seq<u8>, k: int, i: int)
    requires
        0 <= k <= w.len(),
    ensures
        matches_at(w.subrange(k, w.len() as int), n, i) <==> (i >= 0 && matches_at(w, n, i + k)),
{
    let s = w.subrange(k, w.len() as int);
    if matches_at(s, n, i) {
        assert(w.subrange(i + k, i + k + n.len()) =~= s.subrange(i, i + n.len()));
    }
    if i >= 0 && matches_at(w, n, i + k) {
        assert(w.subrange(i + k, i + k + n.len()) =~= s.subrange(i, i + n.len()));
    }
}

/// A match inside `x` is a match in `x + b`, and a match in `x + b` that ends inside `x` is
/// a match in `x`.
proof fn lemma_match_prefix(x: Seq<u8>, b: Seq<u8>, n: Seq<u8>, i: int)
    ensures
        matches_at(x, n, i) ==> matches_at(x + b, n, i),
        matches_at(x + b, n, i) && i + n.len() <= x.len() ==> matches_at(x, n, i),
{
    if 0 <= i && i + n.len() <= x.len() {
        assert((x + b).subrange(i, i + n.len()) =~= x.subrange(i, i + n.len()));
    }
}

/// The bytes of a match.
proof fn lemma_match_bytes(w: Seq<u8>, n: Seq<u8>, i: int, t: int)
    requires
        matches_at(w, n, i),
        0 <= t < n.len(),
    ensures
        w[i + t] == n[t],
{
    assert(w.subrange(i, i + n.len())[t] == w[i + t]);
}

/// How the first separator of `x + b` relates to that of `x`: the same one, or, when `x`
/// has only `\n\n` separators and `x + b` has a `\r\n\r\n` that `x` lacks, that `\r\n\r\n`,
/// which lies after the first `\n\n` and is the first separator of what follows it.
proof fn lemma_separator_concat(x: Seq<u8>, b: Seq<u8>)
    ensures
        match separator_of(x) {
            Some((e, l)) => separator_of(x + b) == Some((e, l)) || (l == 2 && match separator_of(
                x + b,
            ) {
                Some((p, q)) => q == 4 && p >= e + 2 && separator_of(
                    (x + b).subrange(e + 2, (x + b).len() as int),
                ) == Some((p - e - 2, 4int)),
                None => false,
            }),
            None => true,
        },
{
    let w = x + b;
    lemma_separator_first(x);
    lemma_separator_first(w);
    match separator_of(x) {
        None => {},
        Some((e, l)) => {
            if l == 4 {
                lemma_match_prefix(x, b, crlf2(), e);
                assert forall|j: int| 0 <= j < e implies !matches_at(w, crlf2(), j) by {
                    lemma_match_prefix(x, b, crlf2(), j);
                }
                lemma_separator_is(w, e, 4int);
            } else {
                lemma_match_prefix(x, b, lf2(), e);
                assert(e + 2 <= x.len());
                assert forall|j: int| 0 <= j < e implies !matches_at(w, lf2(), j) by {
                    lemma_match_prefix(x, b, lf2(), j);
                }
                if forall|j: int| !matches_at(w, crlf2(), j) {
                    lemma_separator_is(w, e, 2int);
                } else {
                    let (p, q) = separator_of(w)->0;
                    assert(q == 4 && matches_at(w, crlf2(), p));
                    // The `\r\n\r\n` does not lie inside `x`.
                    lemma_match_prefix(x, b, crlf2(), p);
                    assert(p + 4 > x.len());
                    // It cannot overlap the `\n\n` at `e`.
                    lemma_match_bytes(w, lf2(), e, 0);
                    lemma_match_bytes(w, lf2(), e, 1);
                    if p <= e + 1 {
                        if p == e - 1 {
                            lemma_match_bytes(w, crlf2(), p, 2);
                        } else if p == e {
                            lemma_match_bytes(w, crlf2(), p, 0);
                        } else {
                            assert(p == e + 1);
                            lemma_match_bytes(w, crlf2(), p, 0);
                        }
                    }
                    assert(p >= e + 2);
                    let s = w.subrange(e + 2, w.len() as int);
                    lemma_match_suffix(w, crlf2(), e + 2, p - e - 2);
                    assert forall|j: int| 0 <= j < p - e - 2 implies !matches_at(s, crlf2(), j) by {
                        lemma_match_suffix(w, crlf2(), e + 2, j);
                    }
                    lemma_separator_is(s, p - e - 2, 4int);
                }
            }
        },
    }
}

/// How a stream is cut into chunks does not change what stays in the buffer: draining `x`
/// and then its rest followed by `b` leaves what draining `x + b` leaves.
pub proof fn lemma_chunks_leave_same_rest(x: Seq<u8>, b: Seq<u8>)
    ensures
        drain_spec(drain_spec(x).1 + b).1 == drain_spec(x + b).1,
    decreases x.len(),
{
    let w = x + b;
    lemma_drain_step(x);
    lemma_separator_bounds(x);
    lemma_separator_concat(x, b);
    match separator_of(x) {
        None => {},
        Some((e, l)) => {
            let x1 = x.subrange(e + l, x.len() as int);
            lemma_chunks_leave_same_rest(x1, b);
            assert(x1 + b =~= w.subrange(e + l, w.len() as int));
            lemma_drain_step(w);
            lemma_separator_bounds(w);
            if separator_of(w) == Some((e, l)) {
            } else {
                let (p, q) = separator_of(w)->0;
                let s = w.subrange(e + 2, w.len() as int);
                lemma_drain_step(s);
                assert(s.subrange(p - e - 2 + 4, s.len() as int) =~= w.subrange(p + 4, w.len() as int));
            }
        },
    }
}

/// What draining leaves is the end of the buffer.
proof fn lemma_rest_is_suffix(w: Seq<u8>)
    ensures
        drain_spec(w).1.len() <= w.len(),
        drain_spec(w).1 == w.subrange(w.len() - drain_spec(w).1.len(), w.len() as int),
    decreases w.len(),
{
    lemma_drain_step(w);
    lemma_separator_bounds(w);
    match separator_of(w) {
        None => {
            assert(w.subrange(0, w.len() as int) =~= w);
        },
        Some((e, l)) => {
            let w1 = w.subrange(e + l, w.len() as int);
            lemma_rest_is_suffix(w1);
            assert(w1.subrange(w1.len() - drain_spec(w1).1.len(), w1.len() as int) =~= w.subrange(
                w.len() - drain_spec(w1).1.len(),
                w.len() as int,
            ));
        },
    }
}

/// The bytes that draining takes off the buffer: every complete block with the blank line
/// after it.
pub open spec fn drained_bytes(w: Seq<u8>) -> Seq<u8> {
    w.subrange(0, w.len() - drain_spec(w).1.len())
}

/// A valid UTF-8 text split at a `\n`: both sides are valid and decode to the two sides of
/// the line break.
proof fn lemma_split_at_newline(s: Seq<u8>, k: int)
    requires
        valid_utf8(s),
        0 <= k < s.len(),
        s[k] == 10,
    ensures
        valid_utf8(s.subrange(0, k)),
        valid_utf8(s.subrange(k + 1, s.len() as int)),
        decode_utf8(s) == decode_utf8(s.subrange(0, k)) + seq!['\n'] + decode_utf8(
            s.subrange(k + 1, s.len() as int),
        ),
{
    is_char_boundary_iff_not_is_continuation_byte(s, k);
    valid_utf8_split(s, k);
    decode_utf8_split(s, k);
    let t = s.subrange(k, s.len() as int);
    assert(t[0] == 10);
    assert(pop_first_scalar(t) =~= s.subrange(k + 1, s.len() as int));
    assert(valid_utf8(pop_first_scalar(t)));
    assert((10u8 & 0x7Fu8) == 10u8) by (bit_vector);
    assert(decode_first_scalar(t) == 10u32);
    assert(decode_first_scalar(t) as char == '\n');
    assert(decode_utf8(t) == seq![decode_first_scalar(t) as char] + decode_utf8(pop_first_scalar(t)));
}

/// Splitting a text at a line break splits its lines there.
proof fn lemma_split_lines_concat(a: Seq<char>, b: Seq<char>)
    ensures
        split_lines(a + seq!['\n'] + b) == split_lines(a) + split_lines(b),
    decreases b.len(),
{
    let s = a + seq!['\n'] + b;
    if b.len() == 0 {
        assert(s.drop_last() =~= a);
        assert(split_lines(a) + split_lines(b) =~= split_lines(a).push(Seq::empty()));
    } else {
        let b1 = b.drop_last();
        lemma_split_lines_concat(a, b1);
        assert(s.drop_last() =~= a + seq!['\n'] + b1);
        assert(s.last() == b.last());
        lemma_split_lines_nonempty(b1);
        let y = split_lines(b1);
        if b.last() == '\n' {
            assert(split_lines(a) + split_lines(b) =~= (split_lines(a) + y).push(Seq::empty()));
        } else {
            let p = split_lines(a) + y;
            assert(p.update(p.len() - 1, p.last().push(b.last())) =~= split_lines(a) + y.update(
                y.len() - 1,
                y.last().push(b.last()),
            ));
        }
    }
}

/// `filter_map` of a concatenation is the concatenation of the `filter_map`s.
proof fn lemma_filter_map_concat<A, B>(x: Seq<A>, y: Seq<A>, f: spec_fn(A) -> Option<B>)
    ensures
        (x + y).filter_map(f) == x.filter_map(f) + y.filter_map(f),
    decreases y.len(),
{
    if y.len() == 0 {
        assert(x + y =~= x);
        assert(x.filter_map(f) + y.filter_map(f) =~= x.filter_map(f));
    } else {
        let y1 = y.drop_last();
        lemma_filter_map_concat(x, y1, f);
        assert((x + y).drop_last() =~= x + y1);
        assert((x + y).last() == y.last());
        match f(y.last()) {
            Some(v) => {
                assert(x.filter_map(f) + y.filter_map(f) =~= (x.filter_map(f) + y1.filter_map(f))
                    + seq![v]);
            },
            None => {},
        }
    }
}

/// Two blocks joined by a blank `\n\n` line, when valid UTF-8, give the data of the first
/// and then of the second.
proof fn lemma_block_data_split(u: Seq<u8>, v: Seq<u8>)
    requires
        valid_utf8(u + lf2() + v),
    ensures
        valid_utf8(u),
        valid_utf8(v),
        block_data(u + lf2() + v) == block_data(u) + block_data(v),
{
    let s = u + lf2() + v;
    let m = u.len() as int;
    assert(s[m] == 10);
    lemma_split_at_newline(s, m);
    assert(s.subrange(0, m) =~= u);
    let t = s.subrange(m + 1, s.len() as int);
    assert(t =~= seq![10u8] + v);
    lemma_split_at_newline(t, 0);
    assert(t.subrange(1, t.len() as int) =~= v);
    assert(t.subrange(0, 0) =~= Seq::<u8>::empty());
    let du = decode_utf8(u);
    let dv = decode_utf8(v);
    assert(decode_utf8(Seq::<u8>::empty()) =~= Seq::<char>::empty());
    assert(decode_utf8(t) =~= seq!['\n'] + dv);
    assert(decode_utf8(s) =~= du + seq!['\n'] + (seq!['\n'] + dv));
    lemma_split_lines_concat(du, seq!['\n'] + dv);
    lemma_split_lines_concat(Seq::empty(), dv);
    assert(Seq::<char>::empty() + seq!['\n'] + dv =~= seq!['\n'] + dv);
    let f = line_data_fn();
    lemma_filter_map_concat(split_lines(du), split_lines(seq!['\n'] + dv), f);
    lemma_filter_map_concat(split_lines(Seq::<char>::empty()), split_lines(dv), f);
    assert(split_lines(Seq::<char>::empty()) == seq![Seq::<char>::empty()]);
    assert(line_data(Seq::<char>::empty()) is None);
    assert(f(Seq::<char>::empty()) is None);
    Seq::lemma_filter_map_singleton(Seq::<char>::empty(), f);
    assert(block_data(s) =~= block_data(u) + block_data(v));
}

/// What draining takes, after the first block and its blank line, is what draining the
/// rest of the buffer takes.
proof fn lemma_drained_step(w: Seq<u8>)
    ensures
        match separator_of(w) {
            Some((e, l)) => 0 <= e && e + l <= w.len() - drain_spec(w).1.len() && drained_bytes(
                w,
            ).subrange(e + l, drained_bytes(w).len() as int) == drained_bytes(
                w.subrange(e + l, w.len() as int),
            ) && drained_bytes(w).subrange(0, e + l) == w.subrange(0, e + l),
            None => drained_bytes(w).len() == 0,
        },
{
    lemma_drain_step(w);
    lemma_separator_bounds(w);
    lemma_rest_is_suffix(w);
    match separator_of(w) {
        Some((e, l)) => {
            let w1 = w.subrange(e + l, w.len() as int);
            lemma_rest_is_suffix(w1);
            let d = drained_bytes(w);
            assert(d.subrange(e + l, d.len() as int) =~= drained_bytes(w1));
            assert(d.subrange(0, e + l) =~= w.subrange(0, e + l));
        },
        None => {},
    }
}

/// How a stream is cut into chunks does not change the data handed on, when its complete
/// blocks are valid UTF-8: draining `x` and then its rest followed by `b` gives, in order,
/// the data that draining `x + b` gives.
pub proof fn lemma_chunks_give_same_data(x: Seq<u8>, b: Seq<u8>)
    requires
        valid_utf8(drained_bytes(x + b)),
    ensures
        drain_spec(x).0 + drain_spec(drain_spec(x).1 + b).0 == drain_spec(x + b).0,
    decreases x.len(),
{
    let w = x + b;
    lemma_drain_step(x);
    lemma_separator_bounds(x);
    lemma_separator_first(x);
    lemma_separator_concat(x, b);
    match separator_of(x) {
        None => {
            assert(Seq::<Seq<char>>::empty() + drain_spec(w).0 =~= drain_spec(w).0);
        },
        Some((e, l)) => {
            let x1 = x.subrange(e + l, x.len() as int);
            assert(x1 + b =~= w.subrange(e + l, w.len() as int));
            assert(w.subrange(0, e) =~= x.subrange(0, e));
            lemma_drain_step(w);
            lemma_separator_bounds(w);
            lemma_drained_step(w);
            let d = drained_bytes(w);
            if separator_of(w) == Some((e, l)) {
                // The blank line ends with `\n`: what follows it is valid on its own.
                if l == 4 {
                    lemma_match_bytes(x, crlf2(), e, 3);
                } else {
                    lemma_match_bytes(x, lf2(), e, 1);
                }
                assert(d[e + l - 1] == d.subrange(0, e + l)[e + l - 1]);
                lemma_split_at_newline(d, e + l - 1);
                lemma_chunks_give_same_data(x1, b);
                assert(drain_spec(x).0 + drain_spec(drain_spec(x).1 + b).0 =~= drain_spec(w).0);
            } else {
                let (p, q) = separator_of(w)->0;
                lemma_separator_first(w);
                let s = w.subrange(e + 2, w.len() as int);
                assert(s =~= x1 + b);
                lemma_drain_step(s);
                lemma_separator_bounds(s);
                lemma_drained_step(s);
                assert(s.subrange(p - e + 2, s.len() as int) =~= w.subrange(p + 4, w.len() as int));
                assert(s.subrange(0, p - e - 2) =~= w.subrange(e + 2, p));
                // What draining `s` takes is what draining `w` takes after the `\n\n`.
                lemma_drained_step(w.subrange(p + 4, w.len() as int));
                lemma_rest_is_suffix(w);
                lemma_rest_is_suffix(s);
                assert(drain_spec(s).1 == drain_spec(w).1);
                assert(d.subrange(e + 2, d.len() as int) =~= drained_bytes(s));
                lemma_match_bytes(x, lf2(), e, 1);
                assert(d[e + 1] == x[e + 1]);
                lemma_split_at_newline(d, e + 1);
                lemma_chunks_give_same_data(x1, b);
                // The merged block is valid UTF-8: it ends where `\r\n\r\n` begins.
                lemma_match_bytes(w, crlf2(), p, 0);
                assert(d[p] == w[p]);
                is_char_boundary_iff_not_is_continuation_byte(d, p);
                valid_utf8_split(d, p);
                assert(d.subrange(0, p) =~= w.subrange(0, p));
                assert(w.subrange(0, p) =~= x.subrange(0, e) + lf2() + w.subrange(e + 2, p)) by {
                    lemma_match_bytes(x, lf2(), e, 0);
                }
                lemma_block_data_split(x.subrange(0, e), w.subrange(e + 2, p));
                let bx = block_data(x.subrange(0, e));
                let bm = block_data(w.subrange(e + 2, p));
                let dt = drain_spec(w.subrange(p + 4, w.len() as int)).0;
                assert(drain_spec(x).0 == bx + drain_spec(x1).0);
                assert(drain_spec(x).1 == drain_spec(x1).1);
                assert(drain_spec(x1).0 + drain_spec(drain_spec(x1).1 + b).0 == drain_spec(s).0);
                assert(drain_spec(s).0 == bm + dt);
                assert(drain_spec(w).0 == block_data(w.subrange(0, p)) + dt);
                assert(block_data(w.subrange(0, p)) == bx + bm);
                let r1 = drain_spec(drain_spec(x1).1 + b).0;
                assert((bx + drain_spec(x1).0) + r1 =~= bx + (drain_spec(x1).0 + r1));
                assert(bx + (bm + dt) =~= (bx + bm) + dt);
            }
        },
    }
}

/// How a stream is cut into chunks does not change the events handed on, when its complete
/// blocks are valid UTF-8.
pub proof fn lemma_chunks_give_same_events(x: Seq<u8>, b: Seq<u8>)
    requires
        valid_utf8(drained_bytes(x + b)),
    ensures
        events_of(drain_spec(x).0) + events_of(drain_spec(drain_spec(x).1 + b).0) == events_of(
            drain_spec(x + b).0,
        ),
{
    lemma_chunks_give_same_data(x, b);
    lemma_filter_map_concat(
        drain_spec(x).0,
        drain_spec(drain_spec(x).1 + b).0,
        event_of_data_fn(),
    );
}

} // verus!
