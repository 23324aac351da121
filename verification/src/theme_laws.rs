//! Properties of animation-list normalization.
use vstd::prelude::*;

use crate::text::{trim_by, trim_end_by, trim_spec, trim_start_by, white_space_fn};
use crate::theme::{is_normal_list, normalize_names, raw_names, AnimationList, RawAnimationValue};

verus! {

proof fn lemma_trim_start_head(s: Seq<char>, p: spec_fn(char) -> bool)
    ensures
        trim_start_by(s, p).len() == 0 || !p(trim_start_by(s, p)[0]),
    decreases s.len(),
{
    if s.len() > 0 && p(s[0]) {
        lemma_trim_start_head(s.drop_first(), p);
    }
}

proof fn lemma_trim_end_prefix(s: Seq<char>, p: spec_fn(char) -> bool)
    ensures
        trim_end_by(s, p).len() <= s.len(),
        trim_end_by(s, p) == s.subrange(0, trim_end_by(s, p).len() as int),
        trim_end_by(s, p).len() == 0 || !p(trim_end_by(s, p).last()),
    decreases s.len(),
{
    if s.len() > 0 && p(s.last()) {
        lemma_trim_end_prefix(s.drop_last(), p);
        let r = trim_end_by(s.drop_last(), p);
        assert(s.drop_last().subrange(0, r.len() as int) =~= s.subrange(0, r.len() as int));
    } else {
        assert(s.subrange(0, s.len() as int) =~= s);
    }
}

/// Trimming a trimmed text changes nothing.
pub proof fn lemma_trim_idempotent(s: Seq<char>, p: spec_fn(char) -> bool)
    ensures
        trim_by(trim_by(s, p), p) == trim_by(s, p),
        trim_by(s, p).len() == 0 || (!p(trim_by(s, p)[0]) && !p(trim_by(s, p).last())),
{
    let t = trim_start_by(s, p);
    lemma_trim_start_head(s, p);
    lemma_trim_end_prefix(t, p);
    let r = trim_end_by(t, p);
    if r.len() > 0 {
        assert(r[0] == t[0]);
    }
    assert(trim_start_by(r, p) == r);
    assert(trim_end_by(r, p) == r);
}

/// A normalized list is in normal form.
pub proof fn lemma_normalize_is_normal(items: Seq<Seq<char>>)
    ensures
        is_normal_list(normalize_names(items)),
    decreases items.len(),
{
    if items.len() > 0 {
        lemma_normalize_is_normal(items.drop_last());
        let acc = normalize_names(items.drop_last());
        let t = trim_spec(items.last());
        lemma_trim_idempotent(items.last(), white_space_fn());
        if !(t.len() == 0 || acc.contains(t)) {
            let r = acc.push(t);
            assert forall|i: int, j: int|
                0 <= i < r.len() && 0 <= j < r.len() && i != j implies #[trigger] r[i]
                != #[trigger] r[j] by {
                if i < acc.len() && j < acc.len() {
                    assert(acc[i] != acc[j]);
                } else if i < acc.len() {
                    assert(acc.contains(acc[i]));
                } else {
                    assert(acc.contains(acc[j]));
                }
            }
            assert forall|i: int| 0 <= i < r.len() implies (#[trigger] r[i]).len() > 0 by {
                if i < acc.len() {
                    assert(acc[i].len() > 0);
                }
            }
            assert forall|i: int| 0 <= i < r.len() implies trim_spec(#[trigger] r[i]) == r[i] by {
                if i < acc.len() {
                    assert(trim_spec(acc[i]) == acc[i]);
                }
            }
        }
    }
}

/// A name is in the normalized list exactly when it is non-empty and the trim of some
/// given name.
pub proof fn lemma_normalize_members(items: Seq<Seq<char>>, x: Seq<char>)
    ensures
        normalize_names(items).contains(x) <==> (x.len() > 0 && exists|i: int|
            0 <= i < items.len() && trim_spec(#[trigger] items[i]) == x),
    decreases items.len(),
{
    if items.len() > 0 {
        let rest = items.drop_last();
        lemma_normalize_members(rest, x);
        let acc = normalize_names(rest);
        let t = trim_spec(items.last());
        if exists|i: int| 0 <= i < rest.len() && trim_spec(#[trigger] rest[i]) == x {
            let i = choose|i: int| 0 <= i < rest.len() && trim_spec(#[trigger] rest[i]) == x;
            assert(items[i] == rest[i]);
        }
        if exists|i: int| 0 <= i < items.len() && trim_spec(#[trigger] items[i]) == x {
            let i = choose|i: int| 0 <= i < items.len() && trim_spec(#[trigger] items[i]) == x;
            if i < rest.len() {
                assert(rest[i] == items[i]);
            } else {
                assert(t == x);
            }
        }
        if !(t.len() == 0 || acc.contains(t)) {
            if acc.push(t).contains(x) && x != t {
                let j = choose|j: int| 0 <= j < acc.push(t).len() && acc.push(t)[j] == x;
                assert(acc[j] == x);
            }
            if x == t {
                assert(acc.push(t)[acc.len() as int] == x);
            }
            if acc.contains(x) {
                let j = choose|j: int| 0 <= j < acc.len() && acc[j] == x;
                assert(acc.push(t)[j] == x);
            }
        }
    }
}

/// Normalizing a list already in normal form gives it back unchanged.
pub proof fn lemma_normalize_normal_list(l: Seq<Seq<char>>)
    requires
        is_normal_list(l),
    ensures
        normalize_names(l) == l,
    decreases l.len(),
{
    if l.len() > 0 {
        let rest = l.drop_last();
        assert(is_normal_list(rest)) by {
            assert forall|i: int, j: int|
                0 <= i < rest.len() && 0 <= j < rest.len() && i != j implies #[trigger] rest[i]
                != #[trigger] rest[j] by {
                assert(l[i] != l[j]);
            }
            assert forall|i: int| 0 <= i < rest.len() implies (#[trigger] rest[i]).len() > 0 by {
                assert(l[i].len() > 0);
            }
            assert forall|i: int| 0 <= i < rest.len() implies trim_spec(#[trigger] rest[i])
                == rest[i] by {
                assert(trim_spec(l[i]) == l[i]);
            }
        }
        lemma_normalize_normal_list(rest);
        let last = l.last();
        assert(trim_spec(l[l.len() - 1]) == l[l.len() - 1]);
        assert(l[l.len() - 1].len() > 0);
        if rest.contains(last) {
            let j = choose|j: int| 0 <= j < rest.len() && rest[j] == last;
            assert(l[j] != l[l.len() - 1]);
        }
        assert(rest.push(last) =~= l);
    }
}

/// Normalizing twice is normalizing once.
pub proof fn lemma_normalize_idempotent(items: Seq<Seq<char>>)
    ensures
        normalize_names(normalize_names(items)) == normalize_names(items),
{
    lemma_normalize_is_normal(items);
    lemma_normalize_normal_list(normalize_names(items));
}

/// Writing a normalized list back as an animation value (`AnimationList::to_raw`) and
/// normalizing that value again (`AnimationList::from_raw`) gives the same list.
pub proof fn lemma_raw_round_trip(list: AnimationList, raw: RawAnimationValue)
    requires
        is_normal_list(list.deep_view()),
        raw_names(raw) == list.deep_view(),
    ensures
        normalize_names(raw_names(raw)) == list.deep_view(),
{
    lemma_normalize_normal_list(list.deep_view());
}

} // verus!
