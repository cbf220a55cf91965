//! Dragging: the player carries at most one crate at a time, picked off a
//! cart slot or a loose crate, and releases it back into the world where
//! the router then resolves its landing.

use vstd::prelude::*;
use crate::carts::Cart;
use crate::kinds::BoxType;

verus! {

/// What the player is dragging, if anything.
#[derive(Clone, Copy, Debug, PartialEq, Eq, Structural)]
pub struct DraggingBox {
    /// The kind in hand; `None` while nothing is dragged.
    pub box_type: Option<BoxType>,
    /// Whether the crate came off a cart's front slot.
    pub is_front_slot: bool,
}

impl Default for DraggingBox {
    /// The player starts empty-handed.
    fn default() -> (d: DraggingBox)
        ensures
            d.box_type is None,
            d.is_front_slot,
    {
        DraggingBox { box_type: None, is_front_slot: true }
    }
}

impl DraggingBox {
    /// Starts dragging the crate in a cart slot: the slot empties and its
    /// crate is in hand. An empty slot leaves the player empty-handed;
    /// a crate already in hand is never overwritten.
    pub fn start_dragging_from_cart(&mut self, cart: &mut Cart, is_front_slot: bool)
        requires
            old(self).box_type is None,
        ensures
            is_front_slot ==> final(self).box_type == old(cart).front && final(cart).front is None
                && final(cart).back == old(cart).back,
            !is_front_slot ==> final(self).box_type == old(cart).back && final(cart).back is None
                && final(cart).front == old(cart).front,
            final(self).box_type is Some ==> final(self).is_front_slot == is_front_slot,
    {
        self.box_type = cart.take_crate(is_front_slot);
        if self.box_type.is_some() {
            self.is_front_slot = is_front_slot;
        }
    }

    /// Starts dragging a loose crate already in the world (the physical
    /// crate is consumed; its kind is in hand).
    pub fn start_dragging_crate(&mut self, box_type: BoxType)
        requires
            old(self).box_type is None,
        ensures
            final(self).box_type == Some(box_type),
    {
        self.box_type = Some(box_type);
    }

    /// Releases the dragged crate: the hand empties and the kind goes
    /// back into the world as a physical crate for the router to resolve.
    /// Empty-handed, a release does nothing.
    pub fn handle_drop(&mut self) -> (dropped: Option<BoxType>)
        ensures
            dropped == old(self).box_type,
            final(self).box_type is None,
            final(self).is_front_slot == old(self).is_front_slot,
    {
        let dropped = self.box_type;
        self.box_type = None;
        dropped
    }
}

} // verus!
