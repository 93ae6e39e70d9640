//! Facts about sequences that the crawl model rests on.

use vstd::prelude::*;

verus! {

/// The views of the members of `items`, in order.
pub open spec fn views<T: View>(items: Seq<T>) -> Seq<T::V> {
    Seq::new(items.len(), |i: int| items[i]@)
}

/// The view of a pushed item is pushed onto the views.
pub proof fn lemma_views_push<T: View>(items: Seq<T>, x: T)
    ensures
        views(items.push(x)) == views(items).push(x@),
{
    assert(views(items.push(x)) =~= views(items).push(x@));
}

/// The sum of the members of `items`.
pub open spec fn sum(items: Seq<nat>) -> nat
    decreases items.len(),
{
    if items.len() == 0 {
        0
    } else {
        sum(items.drop_last()) + items.last()
    }
}

/// One more item adds itself to the sum.
pub proof fn lemma_sum_push(items: Seq<nat>, x: nat)
    ensures
        sum(items.push(x)) == sum(items) + x,
{
    assert(items.push(x).drop_last() =~= items);
}

/// A sum is at most the number of items times a bound on each.
pub proof fn lemma_sum_bound(items: Seq<nat>, bound: nat)
    requires
        forall|i: int| 0 <= i < items.len() ==> items[i] <= bound,
    ensures
        sum(items) <= items.len() * bound,
    decreases items.len(),
{
    if items.len() > 0 {
        lemma_sum_bound(items.drop_last(), bound);
        assert(items.len() * bound == (items.len() - 1) * bound + bound) by (nonlinear_arith);
    }
}

/// A predicate and its negation split a sequence between them.
pub proof fn lemma_filter_split<A>(items: Seq<A>, keep: spec_fn(A) -> bool, drop: spec_fn(A) -> bool)
    requires
        forall|x: A| #[trigger] drop(x) == !keep(x),
    ensures
        items.filter(keep).len() + items.filter(drop).len() == items.len(),
    decreases items.len(),
{
    reveal(Seq::filter);
    if items.len() > 0 {
        lemma_filter_split(items.drop_last(), keep, drop);
    }
}

/// The members of `items` that are new: not in `seen` and not earlier in
/// `items`. Each appears once, in the order of its first appearance.
pub open spec fn fresh<A>(items: Seq<A>, seen: Set<A>) -> Seq<A>
    decreases items.len(),
{
    if items.len() == 0 {
        Seq::empty()
    } else {
        let earlier = items.drop_last();
        let last = items.last();
        if seen.contains(last) || earlier.contains(last) {
            fresh(earlier, seen)
        } else {
            fresh(earlier, seen).push(last)
        }
    }
}

/// How one more item extends the new members.
pub proof fn lemma_fresh_push<A>(items: Seq<A>, x: A, seen: Set<A>)
    ensures
        fresh(items.push(x), seen) == if seen.contains(x) || items.contains(x) {
            fresh(items, seen)
        } else {
            fresh(items, seen).push(x)
        },
{
    assert(items.push(x).drop_last() =~= items);
}

/// The new members are exactly the items outside `seen`, without repetition.
pub proof fn lemma_fresh_members<A>(items: Seq<A>, seen: Set<A>)
    ensures
        forall|x: A| #[trigger]
            fresh(items, seen).contains(x) <==> items.contains(x) && !seen.contains(x),
        fresh(items, seen).no_duplicates(),
        fresh(items, seen).len() <= items.len(),
    decreases items.len(),
{
    if items.len() > 0 {
        let earlier = items.drop_last();
        let last = items.last();
        let before = fresh(earlier, seen);
        lemma_fresh_members(earlier, seen);
        assert forall|x: A| #[trigger]
            fresh(items, seen).contains(x) <==> items.contains(x) && !seen.contains(x) by {
            if items.contains(x) {
                let i = choose|i: int| 0 <= i < items.len() && items[i] == x;
                if i < items.len() - 1 {
                    assert(earlier[i] == x);
                }
            }
            if earlier.contains(x) {
                let i = choose|i: int| 0 <= i < earlier.len() && earlier[i] == x;
                assert(items[i] == x);
            }
            if seen.contains(last) || earlier.contains(last) {
            } else {
                let now = before.push(last);
                assert(now[before.len() as int] == last);
                if before.contains(x) {
                    let i = choose|i: int| 0 <= i < before.len() && before[i] == x;
                    assert(now[i] == x);
                }
                if now.contains(x) {
                    let i = choose|i: int| 0 <= i < now.len() && now[i] == x;
                    if i < before.len() {
                        assert(before[i] == x);
                    }
                }
                assert(items[items.len() - 1] == last);
            }
        }
        if !(seen.contains(last) || earlier.contains(last)) {
            assert(!before.contains(last));
            let now = before.push(last);
            assert forall|i: int, j: int|
                0 <= i < now.len() && 0 <= j < now.len() && i != j implies now[i] != now[j] by {
                if i < before.len() && j < before.len() {
                } else if i < before.len() {
                    assert(before[i] == now[i]);
                } else {
                    assert(before[j] == now[j]);
                }
            }
        }
    }
}

/// After the new members have joined `seen`, every item is in it.
pub proof fn lemma_fresh_covers<A>(items: Seq<A>, seen: Set<A>)
    ensures
        seen.union(fresh(items, seen).to_set()) == seen.union(items.to_set()),
{
    lemma_fresh_members(items, seen);
    assert(seen.union(fresh(items, seen).to_set()) =~= seen.union(items.to_set()));
}

} // verus!
