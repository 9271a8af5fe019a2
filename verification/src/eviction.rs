//! Which files leave a directory so that another one fits: the most recently accessed first, and
//! no more of them than needed.
use vstd::prelude::*;

use crate::items::{total_size, Item};

verus! {

/// Whether no item of `order` was accessed later than one behind it.
pub open spec fn oldest_first<P>(order: Seq<Item<P>>) -> bool {
    forall|i: int, j: int|
        0 <= i <= j < order.len() ==> order[i].access_time <= order[j].access_time
}

/// Whether `order` holds the items of `items`, each as often, the least recently accessed first.
pub open spec fn arranged<P>(items: Seq<Item<P>>, order: Seq<Item<P>>) -> bool {
    &&& order.to_multiset() == items.to_multiset()
    &&& oldest_first(order)
}

/// Whether a file of `need` bytes fits next to `items` within `limit` bytes.
pub open spec fn fits<P>(items: Seq<Item<P>>, need: nat, limit: nat) -> bool {
    total_size(items) + need <= limit
}

/// Whether `kept` is the longest part at the front of `order` next to which a file of `need`
/// bytes fits within `limit` bytes.
pub open spec fn longest_fitting<P>(
    order: Seq<Item<P>>,
    kept: Seq<Item<P>>,
    need: nat,
    limit: nat,
) -> bool {
    &&& kept.len() <= order.len()
    &&& kept == order.take(kept.len() as int)
    &&& fits(kept, need, limit)
    &&& forall|n: int|
        kept.len() < n <= order.len() ==> !fits(#[trigger] order.take(n), need, limit)
}

/// Brings the least recently accessed items to the front.
///
/// Stands on `slice::sort_unstable_by_key` of the standard library with the access time as the
/// key: the slice then holds the same items in ascending order of their keys. Where two items
/// were accessed at the same time, nothing is claimed of which of them comes first.
#[verifier::external_body]
pub(crate) fn sort_by_access_time<P>(models: &mut Vec<Item<P>>)
    ensures
        arranged(old(models)@, final(models)@),
{
    models.sort_unstable_by_key(|v| v.access_time)
}

/// Taking one item out of a sequence takes its size off the room.
proof fn lemma_total_size_remove<P>(items: Seq<Item<P>>, k: int)
    requires
        0 <= k < items.len(),
    ensures
        total_size(items) == total_size(items.remove(k)) + items[k].file_size,
    decreases items.len(),
{
    if k == items.len() - 1 {
        assert(items.remove(k) =~= items.drop_last());
    } else {
        lemma_total_size_remove(items.drop_last(), k);
        assert(items.remove(k).drop_last() =~= items.drop_last().remove(k));
        assert(items.remove(k).last() == items.last());
    }
}

/// The room that items take does not depend on their order.
pub proof fn lemma_total_size_of_arrangement<P>(items: Seq<Item<P>>, order: Seq<Item<P>>)
    requires
        order.to_multiset() == items.to_multiset(),
    ensures
        order.len() == items.len(),
        total_size(order) == total_size(items),
    decreases items.len(),
{
    broadcast use vstd::seq_lib::group_to_multiset_ensures;

    order.to_multiset_ensures();
    items.to_multiset_ensures();
    if items.len() > 0 {
        let n = items.len() - 1;
        let last = items[n];
        assert(items.to_multiset().contains(last));
        assert(order.to_multiset().contains(last));
        assert(order.contains(last));
        let k = choose|k: int| 0 <= k < order.len() && order[k] == last;
        assert(items.remove(n) =~= items.drop_last());
        assert(order.remove(k).to_multiset() =~= items.drop_last().to_multiset());
        lemma_total_size_of_arrangement(items.drop_last(), order.remove(k));
        lemma_total_size_remove(order, k);
    }
}

/// Whether no two of `items` were accessed at the same time.
pub open spec fn distinct_times<P>(items: Seq<Item<P>>) -> bool {
    forall|i: int, j: int|
        0 <= i < items.len() && 0 <= j < items.len() && i != j ==> items[i].access_time
            != items[j].access_time
}

/// Where no two items were accessed at the same time, there is only one order in which they can
/// leave.
pub proof fn law_distinct_times_fix_the_order<P>(
    items: Seq<Item<P>>,
    first: Seq<Item<P>>,
    second: Seq<Item<P>>,
)
    requires
        distinct_times(items),
        arranged(items, first),
        arranged(items, second),
    ensures
        first == second,
    decreases items.len(),
{
    items.to_multiset_ensures();
    first.to_multiset_ensures();
    second.to_multiset_ensures();
    if items.len() == 0 {
        assert(first =~= second);
    } else {
        let n = items.len() - 1;
        let x = first[n];
        let y = second[n];
        assert(first.contains(x) && second.contains(y));
        assert(first.to_multiset().count(x) > 0 && second.to_multiset().count(y) > 0);
        assert(items.contains(x) && items.contains(y));
        assert(items.to_multiset().count(x) > 0 && items.to_multiset().count(y) > 0);
        assert(second.contains(x) && first.contains(y));
        let i = choose|i: int| 0 <= i < second.len() && second[i] == x;
        let j = choose|j: int| 0 <= j < first.len() && first[j] == y;
        assert(second[i].access_time <= second[n].access_time);
        assert(first[j].access_time <= first[n].access_time);
        let k = choose|k: int| 0 <= k < items.len() && items[k] == x;
        let m = choose|m: int| 0 <= m < items.len() && items[m] == y;
        assert(k == m);
        let rest = items.remove(k);
        assert(first.drop_last() =~= first.remove(n));
        assert(second.drop_last() =~= second.remove(n));
        assert(first.remove(n).to_multiset() =~= items.to_multiset().remove(x));
        assert(second.remove(n).to_multiset() =~= items.to_multiset().remove(y));
        assert(rest.to_multiset() =~= items.to_multiset().remove(x));
        assert(distinct_times(rest));
        law_distinct_times_fix_the_order(rest, first.drop_last(), second.drop_last());
        assert(first =~= first.drop_last().push(x));
        assert(second =~= second.drop_last().push(y));
    }
}

} // verus!
