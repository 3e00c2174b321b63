//! Facts about sequences that several modules use.

use vstd::prelude::*;

verus! {

/// Filtering a sequence that grew by one element at its end.
pub proof fn lemma_filter_push<A>(s: Seq<A>, e: A, pred: spec_fn(A) -> bool)
    ensures
        s.push(e).filter(pred) == if pred(e) {
            s.filter(pred).push(e)
        } else {
            s.filter(pred)
        },
{
    reveal(Seq::filter);
    assert(s.push(e).drop_last() =~= s);
}

} // verus!
