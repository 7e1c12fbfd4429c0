//! Lists in order of rank, with equals left as they were.
use vstd::prelude::*;

verus! {

/// Things with a place in a list: some must stand before others.
pub trait Ranked: Sized {
    /// Whether `self` must stand before `other`.
    spec fn outranks(self, other: Self) -> bool;

    /// Nothing stands before itself.
    proof fn irreflexive(a: Self)
        ensures
            !a.outranks(a),
    ;

    /// The order is transitive, and so is being no better placed.
    proof fn transitive(a: Self, b: Self, c: Self)
        ensures
            a.outranks(b) && b.outranks(c) ==> a.outranks(c),
            !a.outranks(b) && !b.outranks(c) ==> !a.outranks(c),
    ;
}

/// Things whose places can be computed.
pub trait Sortable: Ranked {
    /// Tests whether `self` must stand before `other`.
    fn is_ahead_of(&self, other: &Self) -> (ahead: bool)
        ensures
            ahead == self.outranks(*other),
    ;
}

/// A list with one more item, put behind the last one that it need not stand before.
pub open spec fn placed<T: Ranked>(items: Seq<T>, item: T) -> Seq<T>
    decreases items.len(),
{
    if items.len() > 0 && item.outranks(items.last()) {
        placed(items.drop_last(), item).push(items.last())
    } else {
        items.push(item)
    }
}

/// A list in order of rank, in which items of equal rank keep their order.
pub open spec fn ranked<T: Ranked>(items: Seq<T>) -> Seq<T>
    decreases items.len(),
{
    if items.len() == 0 {
        items
    } else {
        placed(ranked(items.drop_last()), items.last())
    }
}

/// Whether no item of a list must stand before one that stands before it.
pub open spec fn is_ranked<T: Ranked>(items: Seq<T>) -> bool {
    forall|i: int, j: int|
        0 <= i < j < items.len() ==> !(#[trigger] items[j]).outranks(#[trigger] items[i])
}

/// Puts an item into a list at the place that its rank gives it.
fn place<T: Sortable>(items: &mut Vec<T>, item: T)
    ensures
        final(items)@ == placed(old(items)@, item),
{
    let ghost before = items@;
    let mut at: usize = items.len();
    assert(before.subrange(0, before.len() as int) =~= before);
    while at > 0 && item.is_ahead_of(&items[at - 1])
        invariant
            at <= items@.len(),
            items@ == before,
            placed(before, item) == placed(before.take(at as int), item) + before.skip(at as int),
        decreases at,
    {
        proof {
            let front = before.take(at as int);
            assert(front.last() == before[at - 1]);
            assert(front.drop_last() =~= before.take(at - 1));
            assert(placed(before.take(at - 1), item).push(front.last()) + before.skip(at as int)
                =~= placed(before.take(at - 1), item) + before.skip(at - 1));
        }
        at = at - 1;
    }
    if at > 0 {
        assert(before.take(at as int).last() == before[at - 1]);
    }
    items.insert(at, item);
    assert(items@ =~= before.take(at as int).push(item) + before.skip(at as int));
}

/// Puts a list in order of rank. Items of equal rank keep their order.
pub fn rank<T: Sortable>(items: Vec<T>) -> (result: Vec<T>)
    ensures
        result@ == ranked(items@),
{
    let ghost all = items@;
    let mut result: Vec<T> = Vec::new();
    for item in it: items
        invariant
            it.seq() == all,
            result@ == ranked(all.take(it.index())),
    {
        assert(all.take(it.index() + 1).drop_last() =~= all.take(it.index()));
        place(&mut result, item);
    }
    assert(all.take(all.len() as int) =~= all);
    result
}

proof fn lemma_placed_len<T: Ranked>(items: Seq<T>, item: T)
    ensures
        placed(items, item).len() == items.len() + 1,
    decreases items.len(),
{
    if items.len() > 0 && item.outranks(items.last()) {
        lemma_placed_len(items.drop_last(), item);
    }
}

proof fn lemma_placed_multiset<T: Ranked>(items: Seq<T>, item: T)
    ensures
        placed(items, item).to_multiset() =~= items.to_multiset().insert(item),
    decreases items.len(),
{
    broadcast use vstd::seq_lib::group_to_multiset_ensures;

    if items.len() > 0 && item.outranks(items.last()) {
        let shorter = items.drop_last();
        lemma_placed_multiset(shorter, item);
        assert(items =~= shorter.push(items.last()));
    }
}

proof fn lemma_placed_ranked<T: Ranked>(items: Seq<T>, item: T)
    requires
        is_ranked(items),
    ensures
        is_ranked(placed(items, item)),
        forall|k: int|
            #![trigger placed(items, item)[k]]
            0 <= k < placed(items, item).len() ==> placed(items, item)[k] == item || exists|m: int|
                0 <= m < items.len() && placed(items, item)[k] == #[trigger] items[m],
    decreases items.len(),
{
    let result = placed(items, item);
    lemma_placed_len(items, item);
    if items.len() > 0 && item.outranks(items.last()) {
        let shorter = items.drop_last();
        let last = items.last();
        lemma_placed_ranked(shorter, item);
        let front = placed(shorter, item);
        lemma_placed_len(shorter, item);
        assert forall|i: int, j: int| 0 <= i < j < result.len() implies !(
        #[trigger] result[j]).outranks(#[trigger] result[i]) by {
            if j < front.len() {
                assert(result[j] == front[j] && result[i] == front[i]);
            } else {
                assert(result[j] == last);
                assert(result[i] == front[i]);
                if front[i] == item {
                    T::transitive(item, last, item);
                    T::irreflexive(item);
                } else {
                    let m = choose|m: int| 0 <= m < shorter.len() && front[i] == shorter[m];
                    assert(items[m] == shorter[m]);
                    assert(items[items.len() - 1] == last);
                }
            }
        }
        assert forall|k: int| 0 <= k < result.len() implies #[trigger] result[k] == item || exists|
            m: int,
        | 0 <= m < items.len() && result[k] == #[trigger] items[m] by {
            if k < front.len() {
                assert(result[k] == front[k]);
                if front[k] != item {
                    let m = choose|m: int| 0 <= m < shorter.len() && front[k] == shorter[m];
                    assert(items[m] == shorter[m]);
                }
            } else {
                assert(result[k] == items[items.len() - 1]);
            }
        }
    } else {
        assert forall|i: int, j: int| 0 <= i < j < result.len() implies !(
        #[trigger] result[j]).outranks(#[trigger] result[i]) by {
            if j < items.len() {
                assert(result[j] == items[j] && result[i] == items[i]);
            } else {
                assert(result[j] == item && result[i] == items[i]);
                let last = items.len() - 1;
                if i < last {
                    assert(!items[last].outranks(items[i]));
                    T::transitive(item, items[last], items[i]);
                }
            }
        }
        assert forall|k: int| 0 <= k < result.len() implies #[trigger] result[k] == item || exists|
            m: int,
        | 0 <= m < items.len() && result[k] == #[trigger] items[m] by {
            if k < items.len() {
                assert(result[k] == items[k]);
            }
        }
    }
}

/// Two items of which neither must stand before the other.
pub open spec fn equally_ranked<T: Ranked>(a: T, b: T) -> bool {
    !a.outranks(b) && !b.outranks(a)
}

/// The items of a list that are ranked like a given one, in their order.
pub open spec fn peers<T: Ranked>(items: Seq<T>, like: T) -> Seq<T> {
    items.filter(|other: T| equally_ranked(other, like))
}

proof fn lemma_placed_stable<T: Ranked>(items: Seq<T>, item: T, like: T)
    requires
        is_ranked(items),
    ensures
        peers(placed(items, item), like) == peers(items.push(item), like),
    decreases items.len(),
{
    let keep = |other: T| equally_ranked(other, like);
    if items.len() > 0 && item.outranks(items.last()) {
        let shorter = items.drop_last();
        let last = items.last();
        lemma_placed_stable(shorter, item, like);
        lemma_filter_push(placed(shorter, item), last, keep);
        lemma_filter_push(shorter, item, keep);
        lemma_filter_push(shorter, last, keep);
        assert(items =~= shorter.push(last));
        lemma_filter_push(items, item, keep);
        if keep(item) && keep(last) {
            T::transitive(item, like, last);
        }
    }
}

/// Putting a list in order of rank keeps exactly its items, leaves no item in front of one that
/// must stand before it, and keeps the order among items of equal rank.
pub proof fn law_ranked<T: Ranked>(items: Seq<T>)
    ensures
        ranked(items).to_multiset() == items.to_multiset(),
        is_ranked(ranked(items)),
        forall|like: T| #[trigger] peers(ranked(items), like) == peers(items, like),
    decreases items.len(),
{
    broadcast use vstd::seq_lib::group_to_multiset_ensures;

    if items.len() > 0 {
        let shorter = items.drop_last();
        let last = items.last();
        law_ranked(shorter);
        lemma_placed_multiset(ranked(shorter), last);
        lemma_placed_ranked(ranked(shorter), last);
        assert(items =~= shorter.push(last));
        assert forall|like: T| #[trigger] peers(ranked(items), like) == peers(items, like) by {
            let keep = |other: T| equally_ranked(other, like);
            lemma_placed_stable(ranked(shorter), last, like);
            lemma_filter_push(ranked(shorter), last, keep);
            lemma_filter_push(shorter, last, keep);
            assert(peers(ranked(shorter), like) == peers(shorter, like));
        }
    }
}

/// What a test keeps of a list with one more item.
pub proof fn lemma_filter_push<T>(items: Seq<T>, item: T, keep: spec_fn(T) -> bool)
    ensures
        items.push(item).filter(keep) == if keep(item) {
            items.filter(keep).push(item)
        } else {
            items.filter(keep)
        },
{
    reveal(Seq::filter);
    assert(items.push(item).drop_last() =~= items);
}

/// A test keeps an item if and only if it is in the list and passes.
pub proof fn lemma_filter_contains<T>(items: Seq<T>, keep: spec_fn(T) -> bool, item: T)
    ensures
        items.filter(keep).contains(item) <==> items.contains(item) && keep(item),
    decreases items.len(),
{
    reveal(Seq::filter);
    if items.len() > 0 {
        let rest = items.drop_last();
        let last = items.last();
        lemma_filter_contains(rest, keep, item);
        assert(items[items.len() - 1] == last);
        if items.contains(item) && item != last {
            let k = choose|k: int| 0 <= k < items.len() && items[k] == item;
            assert(rest[k] == item);
        }
        if rest.contains(item) {
            let k = choose|k: int| 0 <= k < rest.len() && rest[k] == item;
            assert(items[k] == item);
        }
        let kept = rest.filter(keep);
        if keep(last) {
            let all = kept.push(last);
            assert(all[kept.len() as int] == last);
            if kept.contains(item) {
                let k = choose|k: int| 0 <= k < kept.len() && kept[k] == item;
                assert(all[k] == item);
            }
            if all.contains(item) && item != last {
                let k = choose|k: int| 0 <= k < all.len() && all[k] == item;
                assert(kept[k] == item);
            }
        }
    }
}

/// Putting a list in order keeps its items.
pub proof fn lemma_ranked_contains<T: Ranked>(items: Seq<T>, item: T)
    ensures
        ranked(items).contains(item) <==> items.contains(item),
        ranked(items).len() == items.len(),
{
    broadcast use vstd::seq_lib::group_to_multiset_ensures;

    law_ranked(items);
    assert(ranked(items).to_multiset().len() == items.to_multiset().len());
    assert(ranked(items).to_multiset().count(item) == items.to_multiset().count(item));
}

proof fn lemma_placed_mapped<T: Ranked>(items: Seq<T>, item: T, change: spec_fn(T) -> T)
    requires
        forall|a: T, b: T| #[trigger] change(a).outranks(change(b)) == a.outranks(b),
    ensures
        placed(items.map_values(change), change(item)) == placed(items, item).map_values(change),
    decreases items.len(),
{
    let mapped = items.map_values(change);
    if items.len() > 0 {
        assert(mapped.last() == change(items.last()));
        assert(change(item).outranks(change(items.last())) == item.outranks(items.last()));
        if item.outranks(items.last()) {
            lemma_placed_mapped(items.drop_last(), item, change);
            assert(mapped.drop_last() =~= items.drop_last().map_values(change));
        }
    }
    assert(placed(mapped, change(item)) =~= placed(items, item).map_values(change));
}

/// A change that keeps the ranks of items keeps their order.
pub proof fn lemma_ranked_mapped<T: Ranked>(items: Seq<T>, change: spec_fn(T) -> T)
    requires
        forall|a: T, b: T| #[trigger] change(a).outranks(change(b)) == a.outranks(b),
    ensures
        ranked(items.map_values(change)) == ranked(items).map_values(change),
    decreases items.len(),
{
    let mapped = items.map_values(change);
    if items.len() > 0 {
        lemma_ranked_mapped(items.drop_last(), change);
        assert(mapped.drop_last() =~= items.drop_last().map_values(change));
        lemma_placed_mapped(ranked(items.drop_last()), items.last(), change);
    }
    assert(ranked(mapped) =~= ranked(items).map_values(change));
}

/// A change that a test does not notice can be made before the items are chosen, or after.
pub proof fn lemma_filter_mapped<T>(
    items: Seq<T>,
    change: spec_fn(T) -> T,
    test: spec_fn(T) -> bool,
    changed_test: spec_fn(T) -> bool,
)
    requires
        forall|a: T| changed_test(#[trigger] change(a)) == test(a),
    ensures
        items.map_values(change).filter(changed_test) == items.filter(test).map_values(change),
    decreases items.len(),
{
    reveal(Seq::filter);
    let mapped = items.map_values(change);
    if items.len() > 0 {
        lemma_filter_mapped(items.drop_last(), change, test, changed_test);
        assert(mapped.drop_last() =~= items.drop_last().map_values(change));
        assert(mapped.last() == change(items.last()));
    }
    assert(mapped.filter(changed_test) =~= items.filter(test).map_values(change));
}

/// What is chosen from a list in order of rank is in order of rank.
pub proof fn lemma_filter_ranked<T: Ranked>(items: Seq<T>, test: spec_fn(T) -> bool)
    requires
        is_ranked(items),
    ensures
        is_ranked(items.filter(test)),
    decreases items.len(),
{
    reveal(Seq::filter);
    if items.len() > 0 {
        let rest = items.drop_last();
        let chosen = items.filter(test);
        assert forall|i: int, j: int| 0 <= i < j < rest.len() implies !(
        #[trigger] rest[j]).outranks(#[trigger] rest[i]) by {
            assert(rest[i] == items[i] && rest[j] == items[j]);
        }
        lemma_filter_ranked(rest, test);
        let before = rest.filter(test);
        assert forall|i: int, j: int| 0 <= i < j < chosen.len() implies !(
        #[trigger] chosen[j]).outranks(#[trigger] chosen[i]) by {
            assert(chosen[i] == before[i]);
            if j < before.len() {
                assert(chosen[j] == before[j]);
            } else {
                assert(before.contains(before[i]));
                lemma_filter_contains(rest, test, before[i]);
                let k = choose|k: int| 0 <= k < rest.len() && rest[k] == before[i];
                assert(rest[k] == items[k]);
                assert(!items[items.len() - 1].outranks(items[k]));
            }
        }
    }
}

} // verus!
