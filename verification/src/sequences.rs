//! Facts about filtered sequences.

use vstd::prelude::*;

verus! {

/// Filtering a sequence keeps or drops its first element and filters the
/// rest.
pub proof fn lemma_filter_first<A>(x: A, rest: Seq<A>, keep: spec_fn(A) -> bool)
    ensures
        (seq![x] + rest).filter(keep) == if keep(x) {
            seq![x] + rest.filter(keep)
        } else {
            rest.filter(keep)
        },
{
    reveal(Seq::filter);
    Seq::filter_distributes_over_add(seq![x], rest, keep);
    assert(seq![x].drop_last() =~= Seq::<A>::empty());
    assert(Seq::<A>::empty().filter(keep) =~= Seq::<A>::empty());
    if keep(x) {
        assert(seq![x].filter(keep) =~= seq![x]);
    } else {
        assert(seq![x].filter(keep) + rest.filter(keep) =~= rest.filter(keep));
    }
}

/// Filtering twice is filtering once by both conditions.
pub proof fn lemma_filter_twice<A>(s: Seq<A>, p: spec_fn(A) -> bool, q: spec_fn(A) -> bool)
    ensures
        s.filter(p).filter(q) == s.filter(|x: A| p(x) && q(x)),
    decreases s.len(),
{
    reveal(Seq::filter);
    if s.len() > 0 {
        lemma_filter_twice(s.drop_last(), p, q);
        let before = s.drop_last().filter(p);
        if p(s.last()) {
            assert(before.push(s.last()).drop_last() =~= before);
        }
    }
}

/// Conditions that agree on every value filter alike.
pub proof fn lemma_filter_same<A>(s: Seq<A>, p: spec_fn(A) -> bool, q: spec_fn(A) -> bool)
    requires
        forall|x: A| #[trigger] p(x) == q(x),
    ensures
        s.filter(p) == s.filter(q),
    decreases s.len(),
{
    reveal(Seq::filter);
    if s.len() > 0 {
        lemma_filter_same(s.drop_last(), p, q);
    }
}

} // verus!
