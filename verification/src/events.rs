//! The tagged event values the subsystems exchange. Inbound events come
//! from the excluded collaborators (collision detection, animation
//! completion, player input); outbound events are consumed by them
//! (audio, animation, UI).

use vstd::prelude::*;
use crate::kinds::BoxType;

verus! {

/// A crate was dropped into the factory input.
#[derive(Clone, Copy, Debug, PartialEq, Eq, Structural)]
pub struct OnDropInFactoryInput {
    pub box_type: BoxType,
}

/// The factory began building a queued item.
#[derive(Clone, Copy, Debug, PartialEq, Eq, Structural)]
pub struct OnFactoryStartProducing {
    pub box_type: BoxType,
}

/// The factory finished building the head of its queue; the kind is
/// emitted as a new physical crate at the factory output.
#[derive(Clone, Copy, Debug, PartialEq, Eq, Structural)]
pub struct OnFactoryFinishProducing {
    pub box_type: BoxType,
}

/// A completed pair matched a recipe and its output joined the queue.
#[derive(Clone, Copy, Debug, PartialEq, Eq, Structural)]
pub struct OnFactoryQueueItem {
    pub box_type: BoxType,
}

/// A completed pair matched no recipe; the two inputs are ejected back
/// into the world as loose crates.
#[derive(Clone, Copy, Debug, PartialEq, Eq, Structural)]
pub struct OnIncorrectFactoryRecipe(pub BoxType, pub BoxType);

/// A crate landed in a ship's hold. `was_demanded` reports whether the
/// kind was still among the ship's unmet demands when it arrived.
#[derive(Clone, Copy, Debug, PartialEq, Eq, Structural)]
pub struct OnDropCrateOnShip {
    pub ship_entity: u64,
    pub box_type: BoxType,
    pub was_demanded: bool,
}

/// A crate fell into the water or out of bounds: a pure loss.
#[derive(Clone, Copy, Debug, PartialEq, Eq, Structural)]
pub struct OnCrateSplashedInWater {
    pub box_type: BoxType,
}

/// The player earned coins; played back as an audio/visual cue.
#[derive(Clone, Copy, Debug, PartialEq, Eq, Structural)]
pub struct OnCoinsReceived;

/// Player command: launch the ship docked in this slot.
#[derive(Clone, Copy, Debug, PartialEq, Eq, Structural)]
pub struct OnLaunchShip {
    pub slot_id: usize,
}

/// A ship's travel animation reached its final waypoint: either the ship
/// finished arriving at its slot or it finished departing.
#[derive(Clone, Copy, Debug, PartialEq, Eq, Structural)]
pub struct OnShipArrivedAtDestination(pub u64);

/// A requested ship was actually spawned into the world.
#[derive(Clone, Copy, Debug, PartialEq, Eq, Structural)]
pub struct OnShipSpawned;

} // verus!
