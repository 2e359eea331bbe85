//! Taking from the front of a queue to whose end is added.
use vstd::prelude::*;

verus! {

/// The items that are left after `count` of them have been taken, each time the oldest.
pub open spec fn left_after<T>(items: Seq<T>, count: nat) -> Seq<T>
    decreases count,
{
    if count == 0 {
        items
    } else {
        left_after(items, (count - 1) as nat).drop_first()
    }
}

/// Items are taken in the order in which they were added, whatever is added after them: an
/// item is the next when exactly those before it have been taken.
pub proof fn law_first_in_first_out<T>(items: Seq<T>, later: Seq<T>, at: nat)
    requires
        at < items.len(),
    ensures
        left_after(items + later, at).len() > 0,
        left_after(items + later, at)[0] == items[at as int],
{
    lemma_left_after(items + later, at);
}

proof fn lemma_left_after<T>(items: Seq<T>, count: nat)
    requires
        count <= items.len(),
    ensures
        left_after(items, count) == items.skip(count as int),
    decreases count,
{
    if count > 0 {
        lemma_left_after(items, (count - 1) as nat);
        assert(items.skip(count - 1).drop_first() =~= items.skip(count as int));
    } else {
        assert(items.skip(0) =~= items);
    }
}

} // verus!
