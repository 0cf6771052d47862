//! The allocation table: guest-owned buffers that receive variable-length host output.
//!
//! A slot is reserved by index, written by the host, and taken exactly once. Indices of
//! live slots never move; a taken slot stays empty until the table has shrunk past it.

use vstd::prelude::*;
use crate::slots::compact;
use crate::slots::contents;
use crate::slots::lemma_trimmed;
use crate::slots::live;
use crate::slots::taken;
use crate::slots::trimmed;

verus! {

/// A table of slots as the contracts see it: `None` marks a slot that was taken.
pub type Slots = Seq<Option<Seq<u8>>>;

/// `size` zero bytes.
pub open spec fn zeros(size: nat) -> Seq<u8> {
    Seq::new(size, |i: int| 0u8)
}

/// The table after a zero-filled buffer of `size` bytes was appended.
pub open spec fn reserved(slots: Slots, size: nat) -> Slots {
    slots.push(Some(zeros(size)))
}

/// A freshly reserved slot is live, zero-filled, and gets the index that follows the table.
pub proof fn lemma_reserve_is_live(slots: Slots, size: nat)
    ensures
        live(reserved(slots, size), slots.len() as int),
        contents(reserved(slots, size), slots.len() as int) == Some(zeros(size)),
        forall|i: int| 0 <= i < slots.len() ==> reserved(slots, size)[i] == slots[i],
{
}

/// The allocation table.
pub struct Allocations {
    slots: Vec<Option<Vec<u8>>>,
}

impl View for Allocations {
    type V = Slots;

    closed spec fn view(&self) -> Slots {
        Seq::new(
            self.slots@.len(),
            |i: int|
                match self.slots@[i] {
                    Some(buffer) => Some(buffer@),
                    None => None,
                },
        )
    }
}

impl Allocations {
    /// The table holds no taken slot at its end, so it is empty once every slot was taken.
    pub open spec fn wf(&self) -> bool {
        compact(self@)
    }

    pub fn new() -> (table: Self)
        ensures
            table@ == Slots::empty(),
            table.wf(),
    {
        let table = Allocations { slots: Vec::new() };
        assert(table@ =~= Slots::empty());
        table
    }

    /// The number of slots, taken ones before the last live slot included.
    pub fn len(&self) -> (n: usize)
        ensures
            n == self@.len(),
    {
        self.slots.len()
    }

    /// Whether slot `index` was reserved and not yet taken.
    pub fn is_live(&self, index: u32) -> (b: bool)
        ensures
            b == live(self@, index as int),
    {
        let i: usize = index as usize;
        if i < self.slots.len() {
            self.slots[i].is_some()
        } else {
            false
        }
    }

    /// Overwrites the live slot `index`, as the host does through the slot's address.
    pub fn write(&mut self, index: u32, data: Vec<u8>)
        requires
            live(old(self)@, index as int),
        ensures
            final(self)@ == old(self)@.update(index as int, Some(data@)),
            old(self).wf() ==> final(self).wf(),
    {
        let i: usize = index as usize;
        self.slots.set(i, Some(data));
        assert(self@ =~= old(self)@.update(index as int, Some(data@)));
    }

    /// Removes slot `index` and hands its buffer out; `None` when the slot is not live.
    pub fn take(&mut self, index: u32) -> (buffer: Option<Vec<u8>>)
        ensures
            final(self)@ == taken(old(self)@, index as int),
            match buffer {
                Some(bytes) => contents(old(self)@, index as int) == Some(bytes@),
                None => contents(old(self)@, index as int) is None,
            },
            !live(final(self)@, index as int),
            old(self).wf() ==> final(self).wf(),
    {
        let i: usize = index as usize;
        if i >= self.slots.len() {
            return None;
        }
        if self.slots[i].is_none() {
            return None;
        }
        self.slots.push(None);
        let slot: Option<Vec<u8>> = self.slots.swap_remove(i);
        let ghost emptied = old(self)@.update(index as int, None);
        assert(self@ =~= emptied);
        while self.slots.len() > 0 && self.slots[self.slots.len() - 1].is_none()
            invariant
                trimmed(self@) == trimmed(emptied),
            decreases self.slots.len(),
        {
            let ghost before = self@;
            self.slots.pop();
            assert(self@ =~= before.drop_last());
        }
        proof {
            lemma_trimmed(emptied);
            assert(live(trimmed(emptied), index as int) == live(emptied, index as int));
        }
        slot
    }
}

/// Appends a zero-filled buffer of `size` bytes and returns its index.
pub fn create_allocation(allocations: &mut Allocations, size: u32) -> (index: u32)
    requires
        old(allocations)@.len() <= u32::MAX,
    ensures
        final(allocations)@ == reserved(old(allocations)@, size as nat),
        index == old(allocations)@.len(),
        old(allocations).wf() ==> final(allocations).wf(),
{
    let index: usize = allocations.slots.len();
    let allocation: Vec<u8> = vec![0u8; size as usize];
    assert(allocation@ =~= zeros(size as nat));
    allocations.slots.push(Some(allocation));
    assert(allocations@ =~= reserved(old(allocations)@, size as nat));
    index as u32
}

/// The buffer in the live slot `allocation_id`, for the host to fill.
pub fn get_allocation(allocations: &Allocations, allocation_id: u32) -> (buffer: &Vec<u8>)
    requires
        live(allocations@, allocation_id as int),
    ensures
        Some(buffer@) == allocations@[allocation_id as int],
{
    let slot: &Option<Vec<u8>> = &allocations.slots[allocation_id as usize];
    slot.as_ref().unwrap()
}

} // verus!
