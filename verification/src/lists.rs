//! What is left of a list when some items are taken out.
use vstd::prelude::*;

verus! {

/// An item that is left was in the list, and is one to keep.
pub proof fn lemma_filter_at<A>(items: Seq<A>, keep: spec_fn(A) -> bool, i: int) -> (at: int)
    requires
        0 <= i < items.filter(keep).len(),
    ensures
        0 <= at < items.len(),
        items[at] == items.filter(keep)[i],
        keep(items[at]),
    decreases items.len(),
{
    reveal(Seq::filter);
    let rest = items.drop_last();
    if i < rest.filter(keep).len() {
        lemma_filter_at(rest, keep, i)
    } else {
        items.len() - 1
    }
}

/// Two items that are left were in the list in the same order.
pub proof fn lemma_filter_order<A>(
    items: Seq<A>,
    keep: spec_fn(A) -> bool,
    i: int,
    j: int,
) -> (at: (int, int))
    requires
        0 <= i < j < items.filter(keep).len(),
    ensures
        0 <= at.0 < at.1 < items.len(),
        items[at.0] == items.filter(keep)[i],
        items[at.1] == items.filter(keep)[j],
    decreases items.len(),
{
    reveal(Seq::filter);
    let rest = items.drop_last();
    if j < rest.filter(keep).len() {
        lemma_filter_order(rest, keep, i, j)
    } else {
        (lemma_filter_at(rest, keep, i), items.len() - 1)
    }
}

/// An item to keep is left, with no more items behind it than before.
pub proof fn lemma_filter_keeps<A>(items: Seq<A>, keep: spec_fn(A) -> bool, at: int) -> (i: int)
    requires
        0 <= at < items.len(),
        keep(items[at]),
    ensures
        0 <= i < items.filter(keep).len(),
        items.filter(keep)[i] == items[at],
        items.filter(keep).len() - i <= items.len() - at,
    decreases items.len(),
{
    reveal(Seq::filter);
    let rest = items.drop_last();
    if at < rest.len() {
        lemma_filter_keeps(rest, keep, at)
    } else {
        items.filter(keep).len() - 1
    }
}

/// A list whose items are all to be kept stays as it is.
pub proof fn lemma_filter_all<A>(items: Seq<A>, keep: spec_fn(A) -> bool)
    requires
        forall|i: int| 0 <= i < items.len() ==> keep(#[trigger] items[i]),
    ensures
        items.filter(keep) == items,
    decreases items.len(),
{
    reveal(Seq::filter);
    if items.len() > 0 {
        let rest = items.drop_last();
        assert forall|i: int| 0 <= i < rest.len() implies keep(#[trigger] rest[i]) by {
            assert(rest[i] == items[i]);
        }
        lemma_filter_all(rest, keep);
        assert(keep(items[items.len() - 1]));
        assert(rest.push(items.last()) == items);
    }
}

/// What is taken out of a list once cannot be taken out again.
pub proof fn lemma_filter_again<A>(items: Seq<A>, keep: spec_fn(A) -> bool)
    ensures
        items.filter(keep).filter(keep) == items.filter(keep),
{
    let left = items.filter(keep);
    assert forall|i: int| 0 <= i < left.len() implies keep(#[trigger] left[i]) by {
        items.lemma_filter_pred(keep, i);
    }
    lemma_filter_all(left, keep);
}

/// It does not matter which items are taken out first.
pub proof fn lemma_filters_commute<A>(
    items: Seq<A>,
    keep: spec_fn(A) -> bool,
    also: spec_fn(A) -> bool,
)
    ensures
        items.filter(keep).filter(also) == items.filter(also).filter(keep),
    decreases items.len(),
{
    reveal(Seq::filter);
    if items.len() > 0 {
        let rest = items.drop_last();
        let last = items.last();
        lemma_filters_commute(rest, keep, also);
        assert(rest.filter(keep).push(last).drop_last() == rest.filter(keep));
        assert(rest.filter(also).push(last).drop_last() == rest.filter(also));
    }
}

} // verus!
