//! Facts about filtered sequences shared by the repository and the
//! workflow correlator, both of which expose a filtered view of one
//! insertion-ordered list.

use vstd::prelude::*;

verus! {

/// Filtering a sequence extended by one element keeps the old result and
/// appends the element exactly when it matches.
pub proof fn lemma_filter_push<A>(s: Seq<A>, x: A, pred: spec_fn(A) -> bool)
    ensures
        s.push(x).filter(pred) == if pred(x) {
            s.filter(pred).push(x)
        } else {
            s.filter(pred)
        },
{
    reveal(Seq::filter);
    assert(s.push(x).drop_last() =~= s);
    assert(s.push(x).last() == x);
}

/// Filtering by `q` after filtering by a weaker `p` equals filtering by
/// `q` alone.
pub proof fn lemma_filter_subsumed<A>(s: Seq<A>, p: spec_fn(A) -> bool, q: spec_fn(A) -> bool)
    requires
        forall|x: A| #[trigger] q(x) ==> p(x),
    ensures
        s.filter(p).filter(q) == s.filter(q),
    decreases s.len(),
{
    reveal(Seq::filter);
    if s.len() > 0 {
        lemma_filter_subsumed(s.drop_last(), p, q);
        if p(s.last()) {
            lemma_filter_push(s.drop_last().filter(p), s.last(), q);
        }
    }
}

/// Filtering by `q` after filtering by a `p` that excludes everything `q`
/// accepts yields the empty sequence.
pub proof fn lemma_filter_excluded<A>(s: Seq<A>, p: spec_fn(A) -> bool, q: spec_fn(A) -> bool)
    requires
        forall|x: A| #[trigger] p(x) ==> !q(x),
    ensures
        s.filter(p).filter(q) == Seq::<A>::empty(),
    decreases s.len(),
{
    reveal(Seq::filter);
    if s.len() > 0 {
        lemma_filter_excluded(s.drop_last(), p, q);
        if p(s.last()) {
            lemma_filter_push(s.drop_last().filter(p), s.last(), q);
        }
    }
}

/// Every element of a filtered sequence occurs in the original.
pub proof fn lemma_filter_is_subseq_elem<A>(s: Seq<A>, p: spec_fn(A) -> bool, i: int)
    requires
        0 <= i < s.filter(p).len(),
    ensures
        exists|j: int| 0 <= j < s.len() && s[j] == s.filter(p)[i],
    decreases s.len(),
{
    reveal(Seq::filter);
    if s.len() > 0 {
        let fprev = s.drop_last().filter(p);
        if p(s.last()) && i == fprev.len() {
            assert(s[s.len() - 1] == s.filter(p)[i]);
        } else {
            lemma_filter_is_subseq_elem(s.drop_last(), p, i);
            let j = choose|j: int| 0 <= j < s.drop_last().len() && s.drop_last()[j] == fprev[i];
            assert(s[j] == s.filter(p)[i]);
        }
    }
}

/// A sequence in which nothing matches filters to the empty sequence.
pub proof fn lemma_filter_none<A>(s: Seq<A>, p: spec_fn(A) -> bool)
    requires
        forall|j: int| 0 <= j < s.len() ==> !p(#[trigger] s[j]),
    ensures
        s.filter(p) == Seq::<A>::empty(),
    decreases s.len(),
{
    reveal(Seq::filter);
    if s.len() > 0 {
        lemma_filter_none(s.drop_last(), p);
    }
}

} // verus!
