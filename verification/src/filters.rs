//! Facts about keeping the elements of a list that pass a test.

use vstd::prelude::*;

verus! {

/// Filtering twice keeps what passes both tests.
pub proof fn lemma_filter_twice<A>(s: Seq<A>, p: spec_fn(A) -> bool, q: spec_fn(A) -> bool)
    ensures
        s.filter(p).filter(q) == s.filter(|x: A| p(x) && q(x)),
    decreases s.len(),
{
    reveal(Seq::filter);
    if s.len() > 0 {
        lemma_filter_twice(s.drop_last(), p, q);
        if p(s.last()) {
            assert(s.filter(p).drop_last() =~= s.drop_last().filter(p));
        }
    }
}

/// Two tests that agree on every element keep the same elements.
pub proof fn lemma_filter_agrees<A>(s: Seq<A>, p: spec_fn(A) -> bool, q: spec_fn(A) -> bool)
    requires
        forall|i: int| 0 <= i < s.len() ==> p(#[trigger] s[i]) == q(s[i]),
    ensures
        s.filter(p) == s.filter(q),
    decreases s.len(),
{
    reveal(Seq::filter);
    if s.len() > 0 {
        assert forall|i: int| 0 <= i < s.drop_last().len() implies p(#[trigger] s.drop_last()[i])
            == q(s.drop_last()[i]) by {
            assert(s.drop_last()[i] == s[i]);
        }
        lemma_filter_agrees(s.drop_last(), p, q);
    }
}

/// A test that every element passes keeps the whole list.
pub proof fn lemma_filter_all<A>(s: Seq<A>, p: spec_fn(A) -> bool)
    requires
        forall|i: int| 0 <= i < s.len() ==> p(#[trigger] s[i]),
    ensures
        s.filter(p) == s,
    decreases s.len(),
{
    reveal(Seq::filter);
    if s.len() > 0 {
        assert forall|i: int| 0 <= i < s.drop_last().len() implies p(#[trigger] s.drop_last()[i]) by {
            assert(s.drop_last()[i] == s[i]);
        }
        lemma_filter_all(s.drop_last(), p);
        assert(s.drop_last().push(s.last()) =~= s);
    }
}

/// A test that no element passes keeps nothing.
pub proof fn lemma_filter_none<A>(s: Seq<A>, p: spec_fn(A) -> bool)
    requires
        forall|i: int| 0 <= i < s.len() ==> !p(#[trigger] s[i]),
    ensures
        s.filter(p) == Seq::<A>::empty(),
    decreases s.len(),
{
    reveal(Seq::filter);
    if s.len() > 0 {
        assert forall|i: int| 0 <= i < s.drop_last().len() implies !p(#[trigger] s.drop_last()[i]) by {
            assert(s.drop_last()[i] == s[i]);
        }
        lemma_filter_none(s.drop_last(), p);
    } else {
        assert(s =~= Seq::<A>::empty());
    }
}

/// What holds of every element holds of every element that a test keeps.
pub proof fn lemma_filter_keeps_property<A>(
    s: Seq<A>,
    p: spec_fn(A) -> bool,
    property: spec_fn(A) -> bool,
)
    requires
        forall|i: int| 0 <= i < s.len() ==> property(#[trigger] s[i]),
    ensures
        forall|i: int| 0 <= i < s.filter(p).len() ==> property(#[trigger] s.filter(p)[i]),
    decreases s.len(),
{
    reveal(Seq::filter);
    if s.len() > 0 {
        assert forall|i: int| 0 <= i < s.drop_last().len() implies property(
            #[trigger] s.drop_last()[i],
        ) by {
            assert(s.drop_last()[i] == s[i]);
        }
        lemma_filter_keeps_property(s.drop_last(), p, property);
        let front = s.drop_last().filter(p);
        assert forall|i: int| 0 <= i < s.filter(p).len() implies property(
            #[trigger] s.filter(p)[i],
        ) by {
            if i < front.len() {
                assert(s.filter(p)[i] == front[i]);
            } else {
                assert(s.filter(p)[i] == s[s.len() - 1]);
            }
        }
    }
}

/// Every element that a test keeps passes the test.
pub proof fn lemma_filter_passes<A>(s: Seq<A>, p: spec_fn(A) -> bool)
    ensures
        forall|i: int| 0 <= i < s.filter(p).len() ==> p(#[trigger] s.filter(p)[i]),
    decreases s.len(),
{
    reveal(Seq::filter);
    if s.len() > 0 {
        lemma_filter_passes(s.drop_last(), p);
    }
}

/// No two elements of the list are the same in the given sense.
pub open spec fn pairwise_apart<A>(s: Seq<A>, same: spec_fn(A, A) -> bool) -> bool {
    forall|i: int, j: int| 0 <= i < j < s.len() ==> !same(s[i], s[j])
}

/// Keeping some elements of a list whose elements are pairwise apart leaves
/// a list whose elements are pairwise apart.
pub proof fn lemma_filter_keeps_apart<A>(
    s: Seq<A>,
    p: spec_fn(A) -> bool,
    same: spec_fn(A, A) -> bool,
)
    requires
        pairwise_apart(s, same),
    ensures
        pairwise_apart(s.filter(p), same),
    decreases s.len(),
{
    reveal(Seq::filter);
    if s.len() > 0 {
        let front = s.drop_last();
        let last = s.last();
        assert(pairwise_apart(front, same)) by {
            assert forall|i: int, j: int| 0 <= i < j < front.len() implies !same(
                front[i],
                front[j],
            ) by {
                assert(!same(s[i], s[j]));
            }
        }
        lemma_filter_keeps_apart(front, p, same);
        let other = |a: A| !same(a, last);
        assert forall|i: int| 0 <= i < front.len() implies other(#[trigger] front[i]) by {
            assert(!same(s[i], s[s.len() - 1]));
        }
        lemma_filter_keeps_property(front, p, other);
        let kept = front.filter(p);
        assert forall|i: int, j: int| 0 <= i < j < s.filter(p).len() implies !same(
            s.filter(p)[i],
            s.filter(p)[j],
        ) by {
            if j < kept.len() {
                assert(!same(kept[i], kept[j]));
            } else {
                assert(other(kept[i]));
            }
        }
    }
}

/// Replacing whatever is the same as a new element by that element keeps
/// the elements of a list pairwise apart.
pub proof fn lemma_replace_keeps_apart<A>(
    s: Seq<A>,
    p: spec_fn(A) -> bool,
    same: spec_fn(A, A) -> bool,
    element: A,
)
    requires
        pairwise_apart(s, same),
        forall|a: A| #[trigger] p(a) ==> !same(a, element),
    ensures
        pairwise_apart(s.filter(p).push(element), same),
{
    lemma_filter_keeps_apart(s, p, same);
    lemma_filter_passes(s, p);
    let kept = s.filter(p);
    let after = kept.push(element);
    assert forall|i: int, j: int| 0 <= i < j < after.len() implies !same(after[i], after[j]) by {
        if j < kept.len() {
            assert(!same(kept[i], kept[j]));
        } else {
            assert(p(kept[i]));
        }
    }
}

} // verus!
