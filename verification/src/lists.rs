//! Facts about picking items out of sequences.
use vstd::prelude::*;

verus! {

/// What is picked out of two sequences in a row is what is picked out of each of them.
pub proof fn lemma_picked_in_a_row<A, B>(a: Seq<A>, b: Seq<A>, pick: spec_fn(A) -> Option<B>)
    ensures
        (a + b).filter_map(pick) == a.filter_map(pick) + b.filter_map(pick),
    decreases b.len(),
{
    let whole = a + b;
    if b.len() == 0 {
        assert(whole =~= a);
        assert(a.filter_map(pick) + b.filter_map(pick) =~= a.filter_map(pick));
    } else {
        assert(whole.drop_last() =~= a + b.drop_last());
        assert(whole.last() == b.last());
        lemma_picked_in_a_row(a, b.drop_last(), pick);
        assert(whole.filter_map(pick) =~= a.filter_map(pick) + b.filter_map(pick));
    }
}

/// Where every item is picked, none is left out and none changes its place.
pub proof fn lemma_all_picked<A, B>(items: Seq<A>, pick: spec_fn(A) -> Option<B>)
    requires
        forall|i: int| 0 <= i < items.len() ==> pick(#[trigger] items[i]) is Some,
    ensures
        items.filter_map(pick).len() == items.len(),
        forall|i: int|
            0 <= i < items.len() ==> Some(#[trigger] items.filter_map(pick)[i]) == pick(items[i]),
    decreases items.len(),
{
    if items.len() > 0 {
        let rest = items.drop_last();
        assert forall|i: int| 0 <= i < rest.len() implies pick(#[trigger] rest[i]) is Some by {
            assert(rest[i] == items[i]);
        }
        lemma_all_picked(rest, pick);
        assert(pick(items.last()) is Some) by {
            assert(items[items.len() - 1] == items.last());
        }
        let found = items.filter_map(pick);
        assert(found == rest.filter_map(pick).push(pick(items.last())->0));
        assert forall|i: int| 0 <= i < items.len() implies Some(#[trigger] found[i]) == pick(
            items[i],
        ) by {
            if i < rest.len() {
                assert(found[i] == rest.filter_map(pick)[i]);
                assert(rest[i] == items[i]);
            }
        }
    }
}

/// An item that is picked is found among what is picked.
pub proof fn lemma_picked_is_found<A, B>(items: Seq<A>, pick: spec_fn(A) -> Option<B>, at: int)
    requires
        0 <= at < items.len(),
        pick(items[at]) is Some,
    ensures
        items.filter_map(pick).contains(pick(items[at])->0),
    decreases items.len(),
{
    let found = items.filter_map(pick);
    let rest = items.drop_last();
    if at == rest.len() {
        assert(found.last() == pick(items[at])->0);
        assert(found[found.len() - 1] == pick(items[at])->0);
    } else {
        lemma_picked_is_found(rest, pick, at);
        let kept = rest.filter_map(pick);
        let j = choose|j: int| 0 <= j < kept.len() && kept[j] == pick(items[at])->0;
        assert(found[j] == kept[j]);
    }
}

} // verus!
