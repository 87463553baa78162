//! What sequences hold.
use vstd::prelude::*;
use crate::sort::{deduplicated, sorted, sorting_orders_and_keeps, Identified, Sortable};

verus! {

/// One more item is held, and no other is lost or added.
pub proof fn push_holds<A>(items: Seq<A>, last: A, item: A)
    ensures
        items.push(last).contains(item) == (items.contains(item) || item == last),
{
    let all = items.push(last);
    if all.contains(item) {
        let i = choose|i: int| 0 <= i < all.len() && all[i] == item;
        if i < items.len() {
            assert(items[i] == item);
        }
    }
    if items.contains(item) {
        let i = choose|i: int| 0 <= i < items.len() && items[i] == item;
        assert(all[i] == item);
    }
    assert(all[items.len() as int] == last);
}

/// Two sequences one behind the other hold what either holds.
pub proof fn sum_holds<A>(left: Seq<A>, right: Seq<A>, item: A)
    ensures
        (left + right).contains(item) == (left.contains(item) || right.contains(item)),
{
    let all = left + right;
    if all.contains(item) {
        let i = choose|i: int| 0 <= i < all.len() && all[i] == item;
        if i < left.len() {
            assert(left[i] == item);
        } else {
            assert(right[i - left.len()] == item);
        }
    }
    if left.contains(item) {
        let i = choose|i: int| 0 <= i < left.len() && left[i] == item;
        assert(all[i] == item);
    }
    if right.contains(item) {
        let i = choose|i: int| 0 <= i < right.len() && right[i] == item;
        assert(all[left.len() + i] == item);
    }
}

/// Sorting neither loses an item nor adds one.
pub proof fn sorted_holds<T: Sortable>(items: Seq<T::V>, item: T::V)
    ensures
        sorted::<T>(items).contains(item) == items.contains(item),
{
    let ordered = sorted::<T>(items);
    sorting_orders_and_keeps::<T>(items);
    ordered.to_multiset_ensures();
    items.to_multiset_ensures();
    assert(ordered.contains(item) == (ordered.to_multiset().count(item) > 0));
    assert(items.contains(item) == (items.to_multiset().count(item) > 0));
}

/// Leaving out what follows its like keeps, for every item, one that stands for the same, and adds
/// none.
pub proof fn deduplicated_holds<T: Identified>(items: Seq<T::V>, item: T::V)
    ensures
        deduplicated::<T>(items).contains(item) ==> items.contains(item),
        items.contains(item) ==> exists|i: int|
            0 <= i < deduplicated::<T>(items).len() && T::identity(#[trigger] deduplicated::<T>(items)[i])
                == T::identity(item),
    decreases items.len(),
{
    let kept = deduplicated::<T>(items);
    if items.len() > 0 {
        let rest = items.drop_last();
        let before = deduplicated::<T>(rest);
        deduplicated_holds::<T>(rest, item);
        assert(items =~= rest.push(items.last()));
        push_holds(rest, items.last(), item);
        if kept.contains(item) && kept.len() > before.len() {
            push_holds(before, items.last(), item);
        }
        if rest.contains(item) {
            let i = choose|i: int|
                0 <= i < before.len() && T::identity(#[trigger] before[i]) == T::identity(item);
            assert(kept[i] == before[i]);
        }
        if item == items.last() {
            if kept.len() > before.len() {
                assert(kept[before.len() as int] == item);
            } else {
                assert(T::identity(kept[kept.len() - 1]) == T::identity(item));
            }
        }
    }
}

}
