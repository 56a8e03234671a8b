//! Picking items out of a list.
use vstd::prelude::*;

verus! {

/// Whether `chosen` are the items of `all` at the positions `at`, and these are, in order, all the
/// positions of items that are wanted.
pub open spec fn are_those_at<A>(
    all: Seq<A>,
    wanted: spec_fn(A) -> bool,
    chosen: Seq<A>,
    at: Seq<int>,
) -> bool {
    &&& at.len() == chosen.len()
    &&& forall|i: int|
        0 <= i < at.len() ==> 0 <= #[trigger] at[i] < all.len() && chosen[i] == all[at[i]] && wanted(
            all[at[i]],
        )
    &&& forall|i: int, j: int| 0 <= i < j < at.len() ==> #[trigger] at[i] < #[trigger] at[j]
    &&& forall|k: int| 0 <= k < all.len() && wanted(#[trigger] all[k]) ==> at.contains(k)
}

/// Whether `chosen` are the items of `all` that are wanted, each as often as it occurs, in order.
pub open spec fn are_those<A>(all: Seq<A>, wanted: spec_fn(A) -> bool, chosen: Seq<A>) -> bool {
    exists|at: Seq<int>| are_those_at(all, wanted, chosen, at)
}

/// A filter picks the items that its condition holds of.
pub proof fn filter_picks<A>(all: Seq<A>, wanted: spec_fn(A) -> bool)
    ensures
        are_those(all, wanted, all.filter(wanted)),
    decreases all.len(),
{
    let chosen = all.filter(wanted);
    if all.len() == 0 {
        reveal(Seq::filter);
        assert(are_those_at(all, wanted, chosen, Seq::empty()));
    } else {
        let fewer = all.drop_last();
        filter_picks(fewer, wanted);
        fewer.lemma_filter_push(all.last(), wanted);
        assert(fewer.push(all.last()) =~= all);
        let before = choose|at: Seq<int>| are_those_at(fewer, wanted, fewer.filter(wanted), at);
        let last = all.len() - 1;
        let at = if wanted(all.last()) {
            before.push(last)
        } else {
            before
        };
        assert forall|k: int| 0 <= k < all.len() && wanted(#[trigger] all[k]) implies at.contains(
            k,
        ) by {
            if k < last {
                assert(fewer[k] == all[k]);
                assert(before.contains(k));
                let i = choose|i: int| 0 <= i < before.len() && before[i] == k;
                assert(at[i] == k);
            } else {
                assert(at[at.len() - 1] == k);
            }
        }
        assert(are_those_at(all, wanted, chosen, at));
    }
}

} // verus!
