//! Sequences that are put together piece by piece.

use vstd::prelude::*;

verus! {

pub(crate) proof fn lemma_flat_empty<A, B>(s: Seq<A>, f: spec_fn(A) -> Seq<B>)
    requires
        s.len() == 0,
    ensures
        s.flat_map(f) == Seq::<B>::empty(),
{
    assert(s.map_values(f).len() == 0);
}

pub(crate) proof fn lemma_flat_last<A, B>(s: Seq<A>, f: spec_fn(A) -> Seq<B>)
    requires
        s.len() > 0,
    ensures
        s.flat_map(f) == s.drop_last().flat_map(f) + f(s.last()),
{
    s.drop_last().lemma_flat_map_push(f, s.last());
    assert(s.drop_last().push(s.last()) =~= s);
}

pub(crate) proof fn lemma_flat_push<A, B>(s: Seq<A>, x: A, f: spec_fn(A) -> Seq<B>)
    ensures
        s.push(x).flat_map(f) == s.flat_map(f) + f(x),
{
    s.lemma_flat_map_push(f, x);
}

pub(crate) proof fn lemma_flat_one<A, B>(x: A, f: spec_fn(A) -> Seq<B>)
    ensures
        seq![x].flat_map(f) == f(x),
{
    lemma_flat_last(seq![x], f);
    lemma_flat_empty(seq![x].drop_last(), f);
    assert(Seq::<B>::empty() + f(x) =~= f(x));
}

pub(crate) proof fn lemma_flat_join<A, B>(a: Seq<A>, b: Seq<A>, f: spec_fn(A) -> Seq<B>)
    ensures
        (a + b).flat_map(f) == a.flat_map(f) + b.flat_map(f),
    decreases b.len(),
{
    if b.len() == 0 {
        assert(a + b =~= a);
        lemma_flat_empty(b, f);
        assert(a.flat_map(f) + Seq::<B>::empty() =~= a.flat_map(f));
    } else {
        lemma_flat_join(a, b.drop_last(), f);
        assert((a + b).drop_last() =~= a + b.drop_last());
        lemma_flat_last(a + b, f);
        lemma_flat_last(b, f);
        assert((a + b).flat_map(f) =~= a.flat_map(f) + b.flat_map(f));
    }
}

} // verus!
