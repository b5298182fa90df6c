//! Facts about sequences.

use vstd::prelude::*;

verus! {

/// What a filter keeps was there.
pub proof fn lemma_filter_within<A>(s: Seq<A>, p: spec_fn(A) -> bool, i: int)
    requires
        0 <= i < s.filter(p).len(),
    ensures
        s.contains(s.filter(p)[i]),
    decreases s.len(),
{
    reveal(Seq::filter);
    if s.len() > 0 {
        let rest = s.drop_last();
        if i < rest.filter(p).len() {
            lemma_filter_within(rest, p, i);
            let k = choose|k: int| 0 <= k < rest.len() && rest[k] == rest.filter(p)[i];
            assert(s[k] == s.filter(p)[i]);
        } else {
            assert(s[s.len() - 1] == s.filter(p)[i]);
        }
    }
}

/// A filter of one value.
pub proof fn lemma_filter_one<A>(x: A, p: spec_fn(A) -> bool)
    ensures
        p(x) ==> seq![x].filter(p) == seq![x],
        !p(x) ==> seq![x].filter(p) == Seq::<A>::empty(),
{
    reveal_with_fuel(Seq::filter, 2);
    assert(seq![x].drop_last() =~= Seq::<A>::empty());
    assert(Seq::<A>::empty().push(x) =~= seq![x]);
}

/// A filter of a sequence, from the filter of what follows its first value.
pub proof fn lemma_filter_first<A>(s: Seq<A>, p: spec_fn(A) -> bool)
    requires
        s.len() > 0,
    ensures
        p(s.first()) ==> s.filter(p) == seq![s.first()] + s.drop_first().filter(p),
        !p(s.first()) ==> s.filter(p) == s.drop_first().filter(p),
{
    assert(s =~= seq![s.first()] + s.drop_first());
    Seq::filter_distributes_over_add(seq![s.first()], s.drop_first(), p);
    lemma_filter_one(s.first(), p);
    assert(Seq::<A>::empty() + s.drop_first().filter(p) =~= s.drop_first().filter(p));
}

} // verus!
