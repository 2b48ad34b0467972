//! Facts about finding and filtering in sequences.

use vstd::prelude::*;

verus! {

/// The index of the first element of `s` that meets `p`, or the length of `s`
/// when there is none.
pub open spec fn position<T>(s: Seq<T>, p: spec_fn(T) -> bool) -> int
    decreases s.len(),
{
    if s.len() == 0 || p(s[0]) {
        0
    } else {
        1 + position(s.drop_first(), p)
    }
}

/// `position` is the least index whose element meets the predicate.
pub proof fn lemma_position<T>(s: Seq<T>, p: spec_fn(T) -> bool)
    ensures
        0 <= position(s, p) <= s.len(),
        forall|j: int| 0 <= j < position(s, p) ==> !p(#[trigger] s[j]),
        position(s, p) < s.len() ==> p(s[position(s, p)]),
    decreases s.len(),
{
    if s.len() == 0 || p(s[0]) {
    } else {
        let t = s.drop_first();
        lemma_position(t, p);
        assert forall|j: int| 0 <= j < position(s, p) implies !p(#[trigger] s[j]) by {
            if j > 0 {
                assert(s[j] == t[j - 1]);
            }
        }
    }
}

/// An index before which no element meets the predicate, and which holds one
/// that does or is the end of `s`, is `position`.
pub proof fn lemma_position_is<T>(s: Seq<T>, p: spec_fn(T) -> bool, n: int)
    requires
        0 <= n <= s.len(),
        forall|j: int| 0 <= j < n ==> !p(#[trigger] s[j]),
        n < s.len() ==> p(s[n]),
    ensures
        position(s, p) == n,
    decreases n,
{
    if n == 0 {
    } else {
        let t = s.drop_first();
        assert(!p(s[0]));
        assert forall|j: int| 0 <= j < n - 1 implies !p(#[trigger] t[j]) by {
            assert(t[j] == s[j + 1]);
        }
        lemma_position_is(t, p, n - 1);
    }
}

/// Filtering a sequence of which no element meets the predicate leaves
/// nothing; filtering one of which every element meets it leaves all.
pub proof fn lemma_filter_none_or_all<T>(s: Seq<T>, p: spec_fn(T) -> bool)
    ensures
        (forall|j: int| 0 <= j < s.len() ==> !p(#[trigger] s[j])) ==> s.filter(p).len() == 0,
        (forall|j: int| 0 <= j < s.len() ==> p(#[trigger] s[j])) ==> s.filter(p) == s,
    decreases s.len(),
{
    reveal(Seq::filter);
    if s.len() > 0 {
        let t = s.drop_last();
        lemma_filter_none_or_all(t, p);
        if forall|j: int| 0 <= j < s.len() ==> !p(#[trigger] s[j]) {
            assert forall|j: int| 0 <= j < t.len() implies !p(#[trigger] t[j]) by {
                assert(t[j] == s[j]);
            }
            assert(!p(s[s.len() - 1]));
        }
        if forall|j: int| 0 <= j < s.len() ==> p(#[trigger] s[j]) {
            assert forall|j: int| 0 <= j < t.len() implies p(#[trigger] t[j]) by {
                assert(t[j] == s[j]);
            }
            assert(p(s[s.len() - 1]));
            assert(t.push(s.last()) =~= s);
        }
    }
}

/// The elements that meet a predicate start with the first element that meets
/// it; there are none where no element meets it.
pub proof fn lemma_filter_first<T>(s: Seq<T>, p: spec_fn(T) -> bool)
    ensures
        position(s, p) < s.len() ==> s.filter(p).len() > 0 && s.filter(p)[0] == s[position(s, p)],
        position(s, p) >= s.len() ==> s.filter(p).len() == 0,
    decreases s.len(),
{
    lemma_position(s, p);
    if s.len() == 0 {
        lemma_filter_none_or_all(s, p);
    } else {
        let t = s.drop_first();
        assert(s =~= seq![s[0]] + t);
        t.lemma_filter_prepend(s[0], p);
        lemma_filter_first(t, p);
        lemma_position(t, p);
        if !p(s[0]) {
            assert(s.filter(p) =~= t.filter(p));
            if position(t, p) < t.len() {
                assert(t[position(t, p)] == s[position(s, p)]);
            }
        }
    }
}

/// After the elements that meet `gone` were filtered out, none that meets it
/// is left; filtering again changes nothing; and where none met it, nothing
/// was filtered out.
pub proof fn lemma_filter_out<T>(s: Seq<T>, keep: spec_fn(T) -> bool, gone: spec_fn(T) -> bool)
    requires
        forall|x: T| #[trigger] keep(x) <==> !gone(x),
    ensures
        position(s.filter(keep), gone) == s.filter(keep).len(),
        s.filter(keep).filter(gone).len() == 0,
        s.filter(keep).filter(keep) == s.filter(keep),
        position(s, gone) >= s.len() ==> s.filter(keep) == s,
{
    let rest = s.filter(keep);
    assert forall|j: int| 0 <= j < rest.len() implies keep(#[trigger] rest[j]) by {
        s.lemma_filter_pred(keep, j);
    }
    lemma_filter_none_or_all(rest, keep);
    assert forall|j: int| 0 <= j < rest.len() implies !gone(#[trigger] rest[j]) by {
        assert(keep(rest[j]));
    }
    lemma_filter_none_or_all(rest, gone);
    lemma_position_is(rest, gone, rest.len() as int);
    lemma_position(s, gone);
    if position(s, gone) >= s.len() {
        assert forall|j: int| 0 <= j < s.len() implies keep(#[trigger] s[j]) by {
            assert(!gone(s[j]));
        }
        lemma_filter_none_or_all(s, keep);
    }
}

} // verus!
