//! Selecting from a sequence and mapping what was selected.

use vstd::prelude::*;

verus! {

/// The images under `f` of the elements of `s` that satisfy `pred`, in the
/// order in which the elements stand in `s`.
pub open spec fn selected<A, B>(s: Seq<A>, pred: spec_fn(A) -> bool, f: spec_fn(A) -> B) -> Seq<B> {
    s.filter(pred).map_values(f)
}

/// Nothing is selected from the empty sequence.
pub proof fn lemma_selected_empty<A, B>(pred: spec_fn(A) -> bool, f: spec_fn(A) -> B)
    ensures
        selected(Seq::<A>::empty(), pred, f) == Seq::<B>::empty(),
{
    reveal(Seq::filter);
}

/// An element appended to the sequence comes last in the selection if it
/// satisfies `pred`, and leaves the selection unchanged if it does not.
pub proof fn lemma_selected_push<A, B>(
    s: Seq<A>,
    a: A,
    pred: spec_fn(A) -> bool,
    f: spec_fn(A) -> B,
)
    ensures
        selected(s.push(a), pred, f) == if pred(a) {
            selected(s, pred, f).push(f(a))
        } else {
            selected(s, pred, f)
        },
{
    s.lemma_filter_push(a, pred);
}

/// The selection from two sequences, one after the other, is the selection
/// from the first followed by the selection from the second.
pub proof fn lemma_selected_concat<A, B>(
    s1: Seq<A>,
    s2: Seq<A>,
    pred: spec_fn(A) -> bool,
    f: spec_fn(A) -> B,
)
    ensures
        selected(s1 + s2, pred, f) == selected(s1, pred, f) + selected(s2, pred, f),
{
    Seq::filter_distributes_over_add(s1, s2, pred);
}

/// Where every element satisfies `pred`, the selection is the image of the
/// whole sequence.
pub proof fn lemma_selected_all<A, B>(s: Seq<A>, pred: spec_fn(A) -> bool, f: spec_fn(A) -> B)
    requires
        forall|i: int| 0 <= i < s.len() ==> pred(#[trigger] s[i]),
    ensures
        selected(s, pred, f) == s.map_values(f),
    decreases s.len(),
{
    if s.len() == 0 {
        lemma_selected_empty(pred, f);
    } else {
        lemma_selected_all(s.drop_last(), pred, f);
        lemma_selected_push(s.drop_last(), s.last(), pred, f);
        assert(s.drop_last().push(s.last()) =~= s);
    }
}

/// Where no element satisfies `pred`, nothing is selected.
pub proof fn lemma_selected_none<A, B>(s: Seq<A>, pred: spec_fn(A) -> bool, f: spec_fn(A) -> B)
    requires
        forall|i: int| 0 <= i < s.len() ==> !pred(#[trigger] s[i]),
    ensures
        selected(s, pred, f) == Seq::<B>::empty(),
    decreases s.len(),
{
    if s.len() == 0 {
        lemma_selected_empty(pred, f);
    } else {
        lemma_selected_none(s.drop_last(), pred, f);
        lemma_selected_push(s.drop_last(), s.last(), pred, f);
        assert(s.drop_last().push(s.last()) =~= s);
    }
}

/// Whatever stands in the selection is the image of an element of the
/// sequence that satisfies `pred`: of the one that stands at the same place
/// among the elements that do.
pub proof fn lemma_selected_origin<A, B>(
    s: Seq<A>,
    pred: spec_fn(A) -> bool,
    f: spec_fn(A) -> B,
    k: int,
)
    requires
        0 <= k < selected(s, pred, f).len(),
    ensures
        exists|i: int|
            0 <= i < s.len() && pred(#[trigger] s[i]) && s.filter(pred)[k] == s[i] && selected(
                s,
                pred,
                f,
            )[k] == f(s[i]),
    decreases s.len(),
{
    if s.len() == 0 {
        lemma_selected_empty(pred, f);
    } else {
        let front = s.drop_last();
        lemma_selected_push(front, s.last(), pred, f);
        front.lemma_filter_push(s.last(), pred);
        assert(front.push(s.last()) =~= s);
        if !pred(s.last()) || k < selected(front, pred, f).len() {
            lemma_selected_origin(front, pred, f, k);
        }
    }
}

/// Two sequences that agree, place by place, on which elements satisfy
/// `pred` and on the images of those that do, give the same selection.
pub proof fn lemma_selected_pointwise<A, B>(
    s1: Seq<A>,
    s2: Seq<A>,
    pred: spec_fn(A) -> bool,
    f: spec_fn(A) -> B,
)
    requires
        s1.len() == s2.len(),
        forall|i: int| 0 <= i < s1.len() ==> pred(#[trigger] s1[i]) == pred(s2[i]),
        forall|i: int| 0 <= i < s1.len() && pred(#[trigger] s1[i]) ==> f(s1[i]) == f(s2[i]),
    ensures
        selected(s1, pred, f) == selected(s2, pred, f),
    decreases s1.len(),
{
    if s1.len() > 0 {
        lemma_selected_pointwise(s1.drop_last(), s2.drop_last(), pred, f);
        lemma_selected_push(s1.drop_last(), s1.last(), pred, f);
        lemma_selected_push(s2.drop_last(), s2.last(), pred, f);
        assert(s1.drop_last().push(s1.last()) =~= s1);
        assert(s2.drop_last().push(s2.last()) =~= s2);
    }
}

} // verus!
