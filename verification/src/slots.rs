//! The dock: three fixed ship slots, each empty, awaiting an arriving
//! ship, or occupied by a docked one.

use vstd::prelude::*;
use vstd::pervasive::VecAdditionalExecFns;

verus! {

/// How many dock positions the harbour has.
pub const NUM_SLOTS: usize = 3;

/// The state of one dock position. A slot is in exactly one of the three
/// states and holds at most one ship.
#[derive(Clone, Copy, Debug, PartialEq, Eq, Structural)]
pub enum ShipSlotType {
    /// No ship is associated with the slot.
    Empty,
    /// A ship has been assigned and its entry travel is under way.
    Arriving(u64),
    /// The ship is docked and can be loaded and launched.
    Occupied(u64),
}

impl ShipSlotType {
    /// The ship associated with the slot, if any.
    pub open spec fn ship(self) -> Option<u64> {
        match self {
            ShipSlotType::Empty => None,
            ShipSlotType::Arriving(s) => Some(s),
            ShipSlotType::Occupied(s) => Some(s),
        }
    }
}

/// The three dock slots, in fixed index order.
#[derive(Clone, Debug)]
pub struct ShipSlots {
    pub slots: Vec<ShipSlotType>,
}

impl ShipSlots {
    /// Slot exclusivity: there are exactly three slots and no ship is
    /// associated with two of them.
    pub open spec fn wf(self) -> bool {
        &&& self.slots@.len() == NUM_SLOTS
        &&& forall|i: int, j: int|
            0 <= i < j < self.slots@.len() && self.slots@[i].ship() is Some
                && self.slots@[j].ship() is Some
                ==> self.slots@[i].ship() != self.slots@[j].ship()
    }

    /// Is `ship` associated with some slot?
    pub open spec fn holds_ship(self, ship: u64) -> bool {
        exists|i: int| 0 <= i < self.slots@.len() && (#[trigger] self.slots@[i]).ship() == Some(ship)
    }

    /// An empty dock.
    pub fn new() -> (s: ShipSlots)
        ensures
            s.wf(),
            s.slots@ =~= seq![ShipSlotType::Empty, ShipSlotType::Empty, ShipSlotType::Empty],
    {
        let mut slots: Vec<ShipSlotType> = Vec::new();
        slots.push(ShipSlotType::Empty);
        slots.push(ShipSlotType::Empty);
        slots.push(ShipSlotType::Empty);
        ShipSlots { slots }
    }

    /// The first free slot in fixed index order, or `None` when every
    /// slot has a ship.
    pub fn find_free_slot(&self) -> (r: Option<usize>)
        requires
            self.wf(),
        ensures
            r matches Some(i) ==> 0 <= i < self.slots@.len() && self.slots@[i as int] is Empty
                && (forall|j: int| 0 <= j < i ==> !((#[trigger] self.slots@[j]) is Empty)),
            r is None ==> forall|j: int|
                0 <= j < self.slots@.len() ==> !((#[trigger] self.slots@[j]) is Empty),
    {
        let mut i: usize = 0;
        #[verifier::loop_isolation(false)]
        while i < self.slots.len()
            invariant
                0 <= i <= self.slots@.len(),
                forall|j: int| 0 <= j < i ==> !((#[trigger] self.slots@[j]) is Empty),
            decreases self.slots@.len() - i,
        {
            if matches!(self.slots[i], ShipSlotType::Empty) {
                return Some(i);
            }
            i = i + 1;
        }
        None
    }

    /// Assigns an arriving ship to the first free slot; when no slot is
    /// free, the request is deferred and nothing changes.
    pub fn assign_arriving(&mut self, ship: u64) -> (slot: Option<usize>)
        requires
            old(self).wf(),
            !old(self).holds_ship(ship),
        ensures
            final(self).wf(),
            slot matches Some(i) ==> 0 <= i < old(self).slots@.len()
                && old(self).slots@[i as int] is Empty
                && (forall|j: int| 0 <= j < i ==> !((#[trigger] old(self).slots@[j]) is Empty))
                && final(self).slots@ == old(self).slots@.update(
                i as int,
                ShipSlotType::Arriving(ship),
            ),
            slot is None ==> final(self).slots@ == old(self).slots@ && (forall|j: int|
                0 <= j < old(self).slots@.len() ==> !((#[trigger] old(self).slots@[j]) is Empty)),
    {
        match self.find_free_slot() {
            Some(i) => {
                self.slots.set(i, ShipSlotType::Arriving(ship));
                Some(i)
            },
            None => None,
        }
    }

    /// Records that the ship assigned to `slot_id` has finished its entry
    /// travel: the slot turns from arriving to occupied. A stale index or
    /// a slot not awaiting a ship is ignored.
    pub fn mark_arrived(&mut self, slot_id: usize) -> (docked: Option<u64>)
        requires
            old(self).wf(),
        ensures
            final(self).wf(),
            docked matches Some(s) ==> slot_id < old(self).slots@.len()
                && old(self).slots@[slot_id as int] == ShipSlotType::Arriving(s)
                && final(self).slots@ == old(self).slots@.update(
                slot_id as int,
                ShipSlotType::Occupied(s),
            ),
            docked is None ==> final(self).slots@ == old(self).slots@
                && (slot_id < old(self).slots@.len()
                ==> !(old(self).slots@[slot_id as int] is Arriving)),
    {
        if slot_id >= self.slots.len() {
            return None;
        }
        match self.slots[slot_id] {
            ShipSlotType::Arriving(s) => {
                self.slots.set(slot_id, ShipSlotType::Occupied(s));
                Some(s)
            },
            _ => None,
        }
    }

    /// Frees the slot on launch, handing back the ship that occupied it.
    /// The slot empties immediately, not when the departure travel ends.
    /// A stale index or a slot without a docked ship is ignored.
    pub fn free_slot(&mut self, slot_id: usize) -> (launched: Option<u64>)
        requires
            old(self).wf(),
        ensures
            final(self).wf(),
            launched matches Some(s) ==> slot_id < old(self).slots@.len()
                && old(self).slots@[slot_id as int] == ShipSlotType::Occupied(s)
                && final(self).slots@ == old(self).slots@.update(slot_id as int, ShipSlotType::Empty),
            launched is None ==> final(self).slots@ == old(self).slots@
                && (slot_id < old(self).slots@.len()
                ==> !(old(self).slots@[slot_id as int] is Occupied)),
    {
        if slot_id >= self.slots.len() {
            return None;
        }
        match self.slots[slot_id] {
            ShipSlotType::Occupied(s) => {
                self.slots.set(slot_id, ShipSlotType::Empty);
                Some(s)
            },
            _ => None,
        }
    }
}

/// Slot exclusivity: in a well-formed dock no ship is associated with two
/// slot indices, whatever their order.
pub proof fn lemma_slot_exclusivity(dock: ShipSlots, i: int, j: int)
    requires
        dock.wf(),
        0 <= i < dock.slots@.len(),
        0 <= j < dock.slots@.len(),
        i != j,
        dock.slots@[i].ship() is Some,
    ensures
        dock.slots@[i].ship() != dock.slots@[j].ship(),
{
}

} // verus!
