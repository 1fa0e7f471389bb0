//! Sorting by insertion: each item goes behind the last item that does not
//! come after it, so items that count the same keep their order.

use vstd::prelude::*;

verus! {

/// An order on the content of items of type `T`.
pub trait Order<T: DeepView> {
    /// `a` comes before `b`, or counts the same.
    spec fn le(a: T::V, b: T::V) -> bool;

    /// Of two items one comes before the other, or they count the same.
    proof fn lemma_total(a: T::V, b: T::V)
        ensures
            Self::le(a, b) || Self::le(b, a),
    ;

    fn compare(a: &T, b: &T) -> (r: bool)
        ensures
            r == Self::le(a.deep_view(), b.deep_view()),
    ;
}

/// `sorted` with `item` put behind the last item that does not come after it.
pub open spec fn insert_in_order<T: DeepView, O: Order<T>>(sorted: Seq<T::V>, item: T::V) -> Seq<
    T::V,
>
    decreases sorted.len(),
{
    if sorted.len() == 0 {
        seq![item]
    } else if O::le(sorted.last(), item) {
        sorted.push(item)
    } else {
        insert_in_order::<T, O>(sorted.drop_last(), item).push(sorted.last())
    }
}

/// The items in order; items that count the same keep their order.
pub open spec fn in_order<T: DeepView, O: Order<T>>(items: Seq<T::V>) -> Seq<T::V>
    decreases items.len(),
{
    if items.len() == 0 {
        Seq::empty()
    } else {
        insert_in_order::<T, O>(in_order::<T, O>(items.drop_last()), items.last())
    }
}

/// Each item comes before the next, or counts the same.
pub open spec fn is_ordered<T: DeepView, O: Order<T>>(items: Seq<T::V>) -> bool {
    forall|i: int| 0 <= i < items.len() - 1 ==> O::le(#[trigger] items[i], items[i + 1])
}

/// Where `item` goes: behind the items up to `i`, when those from `i` on come
/// after it and the one before `i` does not.
pub proof fn lemma_insert_position<T: DeepView, O: Order<T>>(
    sorted: Seq<T::V>,
    item: T::V,
    i: int,
)
    requires
        0 <= i <= sorted.len(),
        forall|j: int| i <= j < sorted.len() ==> !O::le(sorted[j], item),
        i > 0 ==> O::le(sorted[i - 1], item),
    ensures
        insert_in_order::<T, O>(sorted, item) == sorted.insert(i, item),
    decreases sorted.len() - i,
{
    if sorted.len() == 0 {
        assert(seq![item] =~= sorted.insert(i, item));
    } else if i == sorted.len() {
        assert(sorted.push(item) =~= sorted.insert(i, item));
    } else {
        lemma_insert_position::<T, O>(sorted.drop_last(), item, i);
        assert(sorted.drop_last().insert(i, item).push(sorted.last()) =~= sorted.insert(i, item));
    }
}

/// Putting an item into ordered items leaves them ordered, and adds the item
/// and nothing else.
pub proof fn lemma_insert_in_order<T: DeepView, O: Order<T>>(sorted: Seq<T::V>, item: T::V)
    requires
        is_ordered::<T, O>(sorted),
    ensures
        is_ordered::<T, O>(insert_in_order::<T, O>(sorted, item)),
        insert_in_order::<T, O>(sorted, item).len() == sorted.len() + 1,
        insert_in_order::<T, O>(sorted, item).to_multiset() == sorted.to_multiset().insert(item),
        insert_in_order::<T, O>(sorted, item).last() == item || (sorted.len() > 0
            && insert_in_order::<T, O>(sorted, item).last() == sorted.last()),
    decreases sorted.len(),
{
    broadcast use vstd::seq_lib::to_multiset_build;

    if sorted.len() == 0 {
        assert(seq![item] =~= Seq::<T::V>::empty().push(item));
        assert(sorted =~= Seq::<T::V>::empty());
    } else if O::le(sorted.last(), item) {
        let r = sorted.push(item);
        assert forall|i: int| 0 <= i < r.len() - 1 implies O::le(#[trigger] r[i], r[i + 1]) by {
            if i < sorted.len() - 1 {
                assert(r[i] == sorted[i]);
                assert(r[i + 1] == sorted[i + 1]);
            }
        }
    } else {
        let front = sorted.drop_last();
        assert forall|i: int| 0 <= i < front.len() - 1 implies O::le(
            #[trigger] front[i],
            front[i + 1],
        ) by {
            assert(front[i] == sorted[i]);
            assert(front[i + 1] == sorted[i + 1]);
        }
        lemma_insert_in_order::<T, O>(front, item);
        let inner = insert_in_order::<T, O>(front, item);
        let r = inner.push(sorted.last());
        O::lemma_total(sorted.last(), item);
        assert forall|i: int| 0 <= i < r.len() - 1 implies O::le(#[trigger] r[i], r[i + 1]) by {
            if i < inner.len() - 1 {
                assert(r[i] == inner[i]);
                assert(r[i + 1] == inner[i + 1]);
            } else {
                assert(r[i] == inner.last());
                if inner.last() != item {
                    assert(front.len() > 0);
                    assert(front.last() == sorted[sorted.len() - 2]);
                }
            }
        }
        assert(sorted =~= front.push(sorted.last()));
        assert(r.to_multiset() =~= sorted.to_multiset().insert(item));
    }
}

/// The items in order are ordered, and are the items: each as often as it
/// was given.
pub proof fn lemma_in_order<T: DeepView, O: Order<T>>(items: Seq<T::V>)
    ensures
        is_ordered::<T, O>(in_order::<T, O>(items)),
        in_order::<T, O>(items).len() == items.len(),
        in_order::<T, O>(items).to_multiset() == items.to_multiset(),
    decreases items.len(),
{
    broadcast use vstd::seq_lib::to_multiset_build;

    if items.len() > 0 {
        lemma_in_order::<T, O>(items.drop_last());
        lemma_insert_in_order::<T, O>(in_order::<T, O>(items.drop_last()), items.last());
        assert(items =~= items.drop_last().push(items.last()));
    } else {
        assert(items =~= Seq::<T::V>::empty());
    }
}

/// The items in the order `O`.
pub fn sort<T: DeepView, O: Order<T>>(items: Vec<T>) -> (r: Vec<T>)
    ensures
        r.deep_view() == in_order::<T, O>(items.deep_view()),
{
    let ghost all = items.deep_view();
    let mut rest = items;
    let total = rest.len();
    let mut sorted: Vec<T> = Vec::new();
    assert(sorted.deep_view() =~= in_order::<T, O>(all.subrange(0, 0)));
    let mut k: usize = 0;
    while rest.len() > 0
        invariant
            all.len() == total,
            k + rest@.len() == all.len(),
            forall|j: int| 0 <= j < rest@.len() ==> rest@[j].deep_view() == all[k + j],
            sorted@.len() == k,
            sorted.deep_view() == in_order::<T, O>(all.subrange(0, k as int)),
        decreases rest@.len(),
    {
        let item = rest.remove(0);
        let ghost before = sorted.deep_view();
        let mut i: usize = sorted.len();
        while i > 0 && !O::compare(&sorted[i - 1], &item)
            invariant
                i <= sorted@.len(),
                before == sorted.deep_view(),
                forall|j: int| i <= j < sorted@.len() ==> !O::le(before[j], item.deep_view()),
            decreases i,
        {
            i -= 1;
        }
        proof {
            lemma_insert_position::<T, O>(before, item.deep_view(), i as int);
            assert(all.subrange(0, k + 1).drop_last() =~= all.subrange(0, k as int));
            assert(all.subrange(0, k + 1).last() == item.deep_view());
        }
        sorted.insert(i, item);
        assert(sorted.deep_view() =~= before.insert(i as int, all[k as int]));
        k += 1;
    }
    assert(all.subrange(0, k as int) =~= all);
    sorted
}

} // verus!
