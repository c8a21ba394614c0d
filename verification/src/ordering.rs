//! Putting things in the order of their keys, without changing the order of
//! things that have the same key.

use vstd::prelude::*;

verus! {

/// A way of giving every `T` an integer key by which it is ordered.
pub trait SortKey<T> {
    /// The key of `item`.
    spec fn key(item: &T) -> int;

    /// The key of `item` as a number that can be compared.
    fn of(item: &T) -> (key: i128)
        ensures
            key == Self::key(item),
    ;
}

/// No item stands before an item with a smaller key.
pub open spec fn ascending<T, K: SortKey<T>>(items: Seq<T>) -> bool {
    forall|i: int, j: int| 0 <= i < j < items.len() ==> K::key(&items[i]) <= K::key(&items[j])
}

/// The test for the key `key`.
pub open spec fn has_key<T, K: SortKey<T>>(key: int) -> spec_fn(T) -> bool {
    |item: T| K::key(&item) == key
}

/// The items with the key `key`, in the order in which they stand.
pub open spec fn keyed<T, K: SortKey<T>>(items: Seq<T>, key: int) -> Seq<T> {
    items.filter(has_key::<T, K>(key))
}

/// `sorted` holds the items of `items` in ascending order of their keys, and
/// those of one key in the order that they have in `items`.
pub open spec fn is_stable_sort<T, K: SortKey<T>>(sorted: Seq<T>, items: Seq<T>) -> bool {
    &&& ascending::<T, K>(sorted)
    &&& forall|key: int| #[trigger] keyed::<T, K>(sorted, key) == keyed::<T, K>(items, key)
}

/// All keys of `items` are below `key`.
spec fn all_below<T, K: SortKey<T>>(items: Seq<T>, key: int) -> bool {
    forall|i: int| 0 <= i < items.len() ==> K::key(&items[i]) < key
}

/// No key of `items` is below `key`.
spec fn none_below<T, K: SortKey<T>>(items: Seq<T>, key: int) -> bool {
    forall|i: int| 0 <= i < items.len() ==> K::key(&items[i]) >= key
}

/// Items none of which has the key `key` have no item with that key.
proof fn lemma_keyed_is_empty<T, K: SortKey<T>>(items: Seq<T>, key: int)
    requires
        forall|i: int| 0 <= i < items.len() ==> K::key(&items[i]) != key,
    ensures
        keyed::<T, K>(items, key) == Seq::<T>::empty(),
    decreases items.len(),
{
    reveal(Seq::filter);
    if items.len() > 0 {
        let front = items.drop_last();
        assert forall|i: int| 0 <= i < front.len() implies K::key(&front[i]) != key by {
            assert(front[i] == items[i]);
        }
        lemma_keyed_is_empty::<T, K>(front, key);
    }
}

/// The items with a key, taken from a row of three parts, are those of the
/// first part, then those of the second, then those of the third.
proof fn lemma_keyed_of_parts<T, K: SortKey<T>>(a: Seq<T>, b: Seq<T>, c: Seq<T>, key: int)
    ensures
        keyed::<T, K>(a + b + c, key) == keyed::<T, K>(a, key) + keyed::<T, K>(b, key)
            + keyed::<T, K>(c, key),
{
    let pred = has_key::<T, K>(key);
    Seq::filter_distributes_over_add(a + b, c, pred);
    Seq::filter_distributes_over_add(a, b, pred);
}

/// The one item `item`, if its key is `key`, and nothing otherwise.
proof fn lemma_keyed_of_one<T, K: SortKey<T>>(item: T, key: int)
    ensures
        keyed::<T, K>(seq![item], key) == if K::key(&item) == key {
            seq![item]
        } else {
            Seq::<T>::empty()
        },
{
    reveal(Seq::filter);
    assert(keyed::<T, K>(seq![item].drop_last(), key) =~= Seq::<T>::empty());
}

/// Moving the last of the waiting items to its place among the sorted ones,
/// before the first sorted item whose key is not below its own, changes the
/// items of no key.
proof fn lemma_place_keeps_keyed<T, K: SortKey<T>>(
    waiting: Seq<T>,
    item: T,
    low: Seq<T>,
    high: Seq<T>,
    key: int,
)
    requires
        all_below::<T, K>(low, K::key(&item)),
        none_below::<T, K>(high, K::key(&item)),
    ensures
        keyed::<T, K>(waiting + (low + seq![item] + high), key) == keyed::<T, K>(
            waiting.push(item) + (low + high),
            key,
        ),
{
    let pred = has_key::<T, K>(key);
    let one = seq![item];
    lemma_keyed_of_parts::<T, K>(low, one, high, key);
    Seq::filter_distributes_over_add(waiting, low + one + high, pred);
    Seq::filter_distributes_over_add(waiting, one, pred);
    Seq::filter_distributes_over_add(waiting.push(item), low + high, pred);
    Seq::filter_distributes_over_add(low, high, pred);
    assert(waiting.push(item) =~= waiting + one);
    lemma_keyed_of_one::<T, K>(item, key);
    if K::key(&item) == key {
        // `item` passes no item of its own key: those of `low` are all below.
        lemma_keyed_is_empty::<T, K>(low, key);
    }
}

/// Sorts `items` by their keys; items with the same key keep their order.
///
/// The items are taken from the end of the row, and each is put among those
/// already sorted before the first whose key is not below its own.
pub fn stable_sort<T, K: SortKey<T>>(items: Vec<T>) -> (sorted: Vec<T>)
    ensures
        is_stable_sort::<T, K>(sorted@, items@),
        sorted@.len() == items@.len(),
{
    let mut waiting = items;
    let mut sorted: Vec<T> = Vec::new();
    assert(waiting@ + sorted@ =~= items@);
    while waiting.len() > 0
        invariant
            ascending::<T, K>(sorted@),
            waiting@.len() + sorted@.len() == items@.len(),
            forall|key: int| #[trigger]
                keyed::<T, K>(waiting@ + sorted@, key) == keyed::<T, K>(items@, key),
        decreases waiting.len(),
    {
        let ghost before = waiting@;
        let ghost placed = sorted@;
        let item = waiting.pop().unwrap();
        let item_key = K::of(&item);
        let mut at: usize = 0;
        while at < sorted.len() && K::of(&sorted[at]) < item_key
            invariant
                at <= sorted@.len(),
                sorted@ == placed,
                ascending::<T, K>(placed),
                item_key == K::key(&item),
                forall|i: int| 0 <= i < at ==> K::key(&placed[i]) < K::key(&item),
            decreases sorted@.len() - at,
        {
            at += 1;
        }
        let ghost low = placed.take(at as int);
        let ghost high = placed.skip(at as int);
        sorted.insert(at, item);
        proof {
            assert(sorted@ =~= low + seq![item] + high);
            assert(placed =~= low + high);
            assert(before =~= waiting@.push(item));
            assert forall|key: int| #[trigger]
                keyed::<T, K>(waiting@ + sorted@, key) == keyed::<T, K>(items@, key) by {
                lemma_place_keeps_keyed::<T, K>(waiting@, item, low, high, key);
                assert(keyed::<T, K>(before + placed, key) == keyed::<T, K>(items@, key));
            }
        }
    }
    assert(waiting@ + sorted@ =~= sorted@);
    sorted
}

/// Items that have an item with the key `key` have one at some place.
proof fn lemma_keyed_has_place<T, K: SortKey<T>>(items: Seq<T>, key: int) -> (at: int)
    requires
        keyed::<T, K>(items, key).len() > 0,
    ensures
        0 <= at < items.len(),
        K::key(&items[at]) == key,
{
    let pred = has_key::<T, K>(key);
    let found = items.filter(pred)[0];
    items.lemma_filter_pred(pred, 0);
    items.lemma_filter_contains_rev(pred, found);
    choose|at: int| 0 <= at < items.len() && items[at] == found
}

/// Two rows in ascending order that have the same items of each key, in the
/// same order, are the same row.
proof fn lemma_ascending_rows_agree<T, K: SortKey<T>>(a: Seq<T>, b: Seq<T>)
    requires
        ascending::<T, K>(a),
        ascending::<T, K>(b),
        forall|key: int| #[trigger] keyed::<T, K>(a, key) == keyed::<T, K>(b, key),
    ensures
        a == b,
    decreases a.len(),
{
    reveal(Seq::filter);
    if a.len() == 0 {
        if b.len() > 0 {
            // The last item of `b` would be among those of its key in `a`.
            let key = K::key(&b.last());
            assert(keyed::<T, K>(a, key) == keyed::<T, K>(b, key));
        }
        assert(a =~= b);
    } else {
        // Both rows end with the largest key, and the last item of a row is
        // the last of the items with that key: so the rows end alike.
        let top = K::key(&a.last());
        let top_b = K::key(&b.last());
        assert(keyed::<T, K>(a, top) == keyed::<T, K>(b, top));
        assert(keyed::<T, K>(a, top_b) == keyed::<T, K>(b, top_b));
        let in_a = lemma_keyed_has_place::<T, K>(a, top_b);
        let in_b = lemma_keyed_has_place::<T, K>(b, top);
        assert(top == top_b);
        assert(a.last() == keyed::<T, K>(a, top).last());
        assert(b.last() == keyed::<T, K>(b, top).last());
        // Without their last items the rows still agree key by key.
        let front_a = a.drop_last();
        let front_b = b.drop_last();
        assert forall|key: int| #[trigger]
            keyed::<T, K>(front_a, key) == keyed::<T, K>(front_b, key) by {
            assert(keyed::<T, K>(a, key) == keyed::<T, K>(b, key));
            if key == top {
                assert(keyed::<T, K>(front_a, key) =~= keyed::<T, K>(a, key).drop_last());
                assert(keyed::<T, K>(front_b, key) =~= keyed::<T, K>(b, key).drop_last());
            }
        }
        lemma_ascending_rows_agree::<T, K>(front_a, front_b);
        assert(a =~= front_a.push(a.last()));
        assert(b =~= front_b.push(b.last()));
    }
}

/// There is only one way to sort a row without changing the order of the
/// items that have the same key.
pub proof fn lemma_stable_sort_is_unique<T, K: SortKey<T>>(
    first: Seq<T>,
    second: Seq<T>,
    items: Seq<T>,
)
    requires
        is_stable_sort::<T, K>(first, items),
        is_stable_sort::<T, K>(second, items),
    ensures
        first == second,
{
    assert forall|key: int| #[trigger]
        keyed::<T, K>(first, key) == keyed::<T, K>(second, key) by {
        assert(keyed::<T, K>(first, key) == keyed::<T, K>(items, key));
        assert(keyed::<T, K>(second, key) == keyed::<T, K>(items, key));
    }
    lemma_ascending_rows_agree::<T, K>(first, second);
}

/// `index` is the first place in `items` at which an item with the key `key`
/// stands.
pub open spec fn is_first_with_key<T, K: SortKey<T>>(items: Seq<T>, key: int, index: int) -> bool {
    &&& 0 <= index < items.len()
    &&& K::key(&items[index]) == key
    &&& forall|i: int| 0 <= i < index ==> K::key(&items[i]) != key
}

/// Adds `item` to `items` and sorts them by their keys, items with the same
/// key keeping their order, `item` being the last to have come. Returns the
/// first place at which an item with the key of `item` then stands.
pub fn insert_sorted<T, K: SortKey<T>>(items: &mut Vec<T>, item: T) -> (index: usize)
    ensures
        is_stable_sort::<T, K>(final(items)@, old(items)@.push(item)),
        final(items)@.len() == old(items)@.len() + 1,
        is_first_with_key::<T, K>(final(items)@, K::key(&item), index as int),
{
    let key = K::of(&item);
    let mut all: Vec<T> = Vec::new();
    core::mem::swap(&mut all, items);
    all.push(item);
    let ghost unsorted = all@;
    let sorted = stable_sort::<T, K>(all);
    proof {
        // `item` is among the items of its key, before the sort and after.
        reveal(Seq::filter);
        assert(unsorted.last() == item);
        assert(keyed::<T, K>(sorted@, key as int) == keyed::<T, K>(unsorted, key as int));
    }
    let mut index: usize = 0;
    while index < sorted.len() && K::of(&sorted[index]) != key
        invariant
            index <= sorted@.len(),
            keyed::<T, K>(sorted@, key as int).len() > 0,
            forall|i: int| 0 <= i < index ==> K::key(&sorted@[i]) != key,
        decreases sorted@.len() - index,
    {
        index += 1;
    }
    proof {
        if index == sorted@.len() {
            lemma_keyed_is_empty::<T, K>(sorted@, key as int);
        }
    }
    *items = sorted;
    index
}

} // verus!
