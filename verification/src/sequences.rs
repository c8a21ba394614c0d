//! Facts about rows of things that the other modules lean on.

use vstd::prelude::*;

verus! {

/// `log` with `item` behind it, if there is one.
pub open spec fn with_optional<A>(log: Seq<A>, item: Option<A>) -> Seq<A> {
    match item {
        Some(a) => log.push(a),
        None => log,
    }
}

/// What `pick` keeps of a row is what it keeps of the first item, then what
/// it keeps of the rest.
pub proof fn lemma_filter_map_first<A, B>(items: Seq<A>, pick: spec_fn(A) -> Option<B>)
    requires
        items.len() > 0,
    ensures
        items.filter_map(pick) == with_optional(Seq::empty(), pick(items[0]))
            + items.drop_first().filter_map(pick),
    decreases items.len(),
{
    if items.len() == 1 {
        assert(items.drop_last().filter_map(pick) =~= Seq::<B>::empty());
        assert(items.drop_first().filter_map(pick) =~= Seq::<B>::empty());
        assert(items.filter_map(pick) =~= with_optional(Seq::empty(), pick(items[0])));
    } else {
        let front = items.drop_last();
        lemma_filter_map_first(front, pick);
        assert(front.drop_first() =~= items.drop_first().drop_last());
        assert(items.filter_map(pick) =~= with_optional(Seq::empty(), pick(items[0]))
            + items.drop_first().filter_map(pick));
    }
}

/// When `pick` keeps something of every item, it keeps as many as there are
/// items, and what it keeps at each place is what it keeps of the item there.
pub proof fn lemma_filter_map_keeps_all<A, B>(items: Seq<A>, pick: spec_fn(A) -> Option<B>)
    requires
        forall|i: int| 0 <= i < items.len() ==> pick(#[trigger] items[i]) is Some,
    ensures
        items.filter_map(pick).len() == items.len(),
        forall|i: int|
            0 <= i < items.len() ==> pick(items[i]) == Some(#[trigger] items.filter_map(pick)[i]),
    decreases items.len(),
{
    if items.len() > 0 {
        let front = items.drop_last();
        assert forall|i: int| 0 <= i < front.len() implies pick(#[trigger] front[i]) is Some by {
            assert(front[i] == items[i]);
        }
        lemma_filter_map_keeps_all(front, pick);
    }
}

/// `pick` never keeps more than there are items, and it keeps nothing exactly
/// when it keeps nothing of any item.
pub proof fn lemma_filter_map_keeps_none<A, B>(items: Seq<A>, pick: spec_fn(A) -> Option<B>)
    ensures
        items.filter_map(pick).len() <= items.len(),
        items.filter_map(pick).len() == 0 <==> forall|i: int|
            0 <= i < items.len() ==> pick(#[trigger] items[i]) is None,
    decreases items.len(),
{
    if items.len() > 0 {
        let front = items.drop_last();
        lemma_filter_map_keeps_none(front, pick);
        if items.filter_map(pick).len() == 0 {
            assert forall|i: int| 0 <= i < items.len() implies pick(
                #[trigger] items[i],
            ) is None by {
                if i < front.len() {
                    assert(items[i] == front[i]);
                }
            }
        } else if pick(items.last()) is None {
            let i = choose|i: int| 0 <= i < front.len() && !(pick(#[trigger] front[i]) is None);
            assert(front[i] == items[i]);
        }
    }
}

} // verus!
