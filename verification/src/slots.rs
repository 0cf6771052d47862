//! Tables of slots that are handed out once: a slot is found by its index for as long as
//! it is live, and a slot that was taken stays empty.

use vstd::prelude::*;

verus! {

/// Slot `index` exists and has not been taken.
pub open spec fn live<V>(slots: Seq<Option<V>>, index: int) -> bool {
    0 <= index < slots.len() && slots[index] is Some
}

/// `slots` without the taken slots at its end.
pub open spec fn trimmed<V>(slots: Seq<Option<V>>) -> Seq<Option<V>>
    decreases slots.len(),
{
    if slots.len() > 0 && slots.last() is None {
        trimmed(slots.drop_last())
    } else {
        slots
    }
}

/// No taken slot stands at the end of the table.
pub open spec fn compact<V>(slots: Seq<Option<V>>) -> bool {
    slots.len() > 0 ==> slots.last() is Some
}

/// The table after slot `index` was taken; a slot that is not live leaves it unchanged.
pub open spec fn taken<V>(slots: Seq<Option<V>>, index: int) -> Seq<Option<V>> {
    if live(slots, index) {
        trimmed(slots.update(index, None))
    } else {
        slots
    }
}

/// What taking slot `index` hands out.
pub open spec fn contents<V>(slots: Seq<Option<V>>, index: int) -> Option<V> {
    if live(slots, index) {
        slots[index]
    } else {
        None
    }
}

/// Trimming drops taken slots only: every live slot keeps its index and its contents.
pub proof fn lemma_trimmed<V>(slots: Seq<Option<V>>)
    ensures
        compact(trimmed(slots)),
        trimmed(slots).len() <= slots.len(),
        forall|i: int| #[trigger] live(trimmed(slots), i) == live(slots, i),
        forall|i: int| #[trigger] contents(trimmed(slots), i) == contents(slots, i),
    decreases slots.len(),
{
    if slots.len() > 0 && slots.last() is None {
        let shorter = slots.drop_last();
        lemma_trimmed(shorter);
        assert forall|i: int| #[trigger] live(trimmed(slots), i) == live(slots, i) by {
            assert(live(trimmed(shorter), i) == live(shorter, i));
        }
        assert forall|i: int| #[trigger] contents(trimmed(slots), i) == contents(slots, i) by {
            assert(contents(trimmed(shorter), i) == contents(shorter, i));
        }
    }
}

/// Live slots keep their index and their contents when another slot is taken.
pub proof fn lemma_take_keeps_others<V>(slots: Seq<Option<V>>, index: int, other: int)
    requires
        other != index,
    ensures
        live(taken(slots, index), other) == live(slots, other),
        contents(taken(slots, index), other) == contents(slots, other),
{
    if live(slots, index) {
        let emptied = slots.update(index, None);
        lemma_trimmed(emptied);
        assert(live(trimmed(emptied), other) == live(emptied, other));
        assert(contents(trimmed(emptied), other) == contents(emptied, other));
    }
}

/// A slot is consumed exactly once: after a successful take, taking the same index again
/// hands out nothing and changes nothing.
pub proof fn lemma_take_once<V>(slots: Seq<Option<V>>, index: int)
    requires
        live(slots, index),
    ensures
        contents(slots, index) is Some,
        !live(taken(slots, index), index),
        contents(taken(slots, index), index) is None,
        taken(taken(slots, index), index) == taken(slots, index),
{
    let emptied = slots.update(index, None);
    lemma_trimmed(emptied);
    assert(live(trimmed(emptied), index) == live(emptied, index));
}

/// Takes slot `index` out of `slots` and drops the taken slots at the end of the table;
/// `None`, and no change, when the slot is not live.
pub fn take_slot<V>(slots: &mut Vec<Option<V>>, index: usize) -> (value: Option<V>)
    ensures
        final(slots)@ == taken(old(slots)@, index as int),
        value == contents(old(slots)@, index as int),
        !live(final(slots)@, index as int),
        compact(old(slots)@) ==> compact(final(slots)@),
{
    if index >= slots.len() {
        return None;
    }
    if slots[index].is_none() {
        return None;
    }
    slots.push(None);
    let value: Option<V> = slots.swap_remove(index);
    let ghost emptied = old(slots)@.update(index as int, None);
    assert(slots@ =~= emptied);
    while slots.len() > 0 && slots[slots.len() - 1].is_none()
        invariant
            trimmed(slots@) == trimmed(emptied),
        decreases slots.len(),
    {
        let ghost before = slots@;
        slots.pop();
        assert(slots@ =~= before.drop_last());
    }
    proof {
        lemma_trimmed(emptied);
        assert(live(trimmed(emptied), index as int) == live(emptied, index as int));
    }
    value
}

} // verus!
