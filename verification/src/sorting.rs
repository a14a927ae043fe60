//! Ordered lists: what it is to sort a list so that items of equal rank keep
//! their order, and why the result is in order and holds the same items.

use vstd::prelude::*;

verus! {

broadcast use vstd::seq_lib::group_to_multiset_ensures;

/// Every two items can be ranked, and the ranking is transitive.
/// `before(a, b)` says that `a` may stand in front of `b`.
pub open spec fn ranks<T>(before: spec_fn(T, T) -> bool) -> bool {
    &&& forall|a: T, b: T| #[trigger] before(a, b) || #[trigger] before(b, a)
    &&& forall|a: T, b: T, c: T| #[trigger] before(a, b) && #[trigger] before(b, c) ==> before(a, c)
}

/// Each item may stand in front of all that follow it.
pub open spec fn in_order<T>(list: Seq<T>, before: spec_fn(T, T) -> bool) -> bool {
    forall|i: int, j: int| 0 <= i < j < list.len() ==> before(list[i], list[j])
}

/// `item` put into an ordered list, behind every item that may stand in front of it.
pub open spec fn placed<T>(ordered: Seq<T>, item: T, before: spec_fn(T, T) -> bool) -> Seq<T>
    decreases ordered.len(),
{
    if ordered.len() == 0 {
        seq![item]
    } else if before(ordered.last(), item) {
        ordered.push(item)
    } else {
        placed(ordered.drop_last(), item, before).push(ordered.last())
    }
}

/// The list in order; items that may stand in front of each other keep their order.
pub open spec fn sorted_by<T>(list: Seq<T>, before: spec_fn(T, T) -> bool) -> Seq<T>
    decreases list.len(),
{
    if list.len() == 0 {
        list
    } else {
        placed(sorted_by(list.drop_last(), before), list.last(), before)
    }
}

/// `placed` puts the item at the place behind which nothing may stand in front of it.
pub proof fn lemma_placed_at<T>(
    ordered: Seq<T>,
    item: T,
    before: spec_fn(T, T) -> bool,
    p: int,
)
    requires
        0 <= p <= ordered.len(),
        forall|k: int| p <= k < ordered.len() ==> !before(#[trigger] ordered[k], item),
        p > 0 ==> before(ordered[p - 1], item),
    ensures
        placed(ordered, item, before) == ordered.insert(p, item),
    decreases ordered.len(),
{
    if ordered.len() == 0 {
        assert(ordered.insert(p, item) =~= seq![item]);
    } else if p == ordered.len() {
        assert(ordered.insert(p, item) =~= ordered.push(item));
    } else {
        assert(!before(ordered[ordered.len() - 1], item));
        lemma_placed_at(ordered.drop_last(), item, before, p);
        assert(ordered.drop_last().insert(p, item).push(ordered.last()) =~= ordered.insert(
            p,
            item,
        ));
    }
}

/// `placed` keeps a list in order and adds just the item to it.
pub proof fn lemma_placed_keeps_order<T>(ordered: Seq<T>, item: T, before: spec_fn(T, T) -> bool)
    requires
        ranks(before),
        in_order(ordered, before),
    ensures
        in_order(placed(ordered, item, before), before),
        placed(ordered, item, before).to_multiset() == ordered.to_multiset().insert(item),
        placed(ordered, item, before).len() == ordered.len() + 1,
    decreases ordered.len(),
{
    if ordered.len() == 0 {
        assert(seq![item] =~= Seq::<T>::empty().push(item));
    } else if before(ordered.last(), item) {
        let out = ordered.push(item);
        assert forall|i: int, j: int| 0 <= i < j < out.len() implies before(out[i], out[j]) by {
            if j == ordered.len() && i < ordered.len() - 1 {
                assert(before(ordered[i], ordered[ordered.len() - 1]));
            }
        }
    } else {
        let front = ordered.drop_last();
        assert(in_order(front, before)) by {
            assert forall|i: int, j: int| 0 <= i < j < front.len() implies before(
                front[i],
                front[j],
            ) by {
                assert(before(ordered[i], ordered[j]));
            }
        }
        lemma_placed_keeps_order(front, item, before);
        let inner = placed(front, item, before);
        let out = inner.push(ordered.last());
        assert(ordered =~= front.push(ordered.last()));
        assert(out.to_multiset() =~= ordered.to_multiset().insert(item));
        assert(before(item, ordered.last()));
        assert forall|i: int, j: int| 0 <= i < j < out.len() implies before(out[i], out[j]) by {
            if j == inner.len() {
                assert(inner.to_multiset().count(inner[i]) > 0);
                if inner[i] != item {
                    assert(front.to_multiset().count(inner[i]) > 0);
                    let k = choose|k: int| 0 <= k < front.len() && front[k] == inner[i];
                    assert(before(ordered[k], ordered[ordered.len() - 1]));
                }
            }
        }
    }
}

/// The list that `sorted_by` gives is in order and holds the same items as often.
pub proof fn lemma_sorted_by_sorts<T>(list: Seq<T>, before: spec_fn(T, T) -> bool)
    requires
        ranks(before),
    ensures
        in_order(sorted_by(list, before), before),
        sorted_by(list, before).to_multiset() == list.to_multiset(),
        sorted_by(list, before).len() == list.len(),
    decreases list.len(),
{
    if list.len() > 0 {
        lemma_sorted_by_sorts(list.drop_last(), before);
        lemma_placed_keeps_order(sorted_by(list.drop_last(), before), list.last(), before);
        assert(list =~= list.drop_last().push(list.last()));
    }
}

} // verus!
