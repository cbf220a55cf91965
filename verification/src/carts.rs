//! Carts: the supply side. The player queues crate kinds; when two are
//! waiting and a cart is free, a cart rolls in carrying them in its front
//! and back slots, and the player drags crates off it.

use vstd::prelude::*;
use crate::kinds::BoxType;

verus! {

/// The least time between two cart spawns, in milliseconds.
pub const CART_SPAWN_DELAY_MS: u64 = 5000;

/// A cart in the world, with a crate in its front and back slot until the
/// player picks them up.
#[derive(Clone, Copy, Debug, PartialEq, Eq, Structural)]
pub struct Cart {
    pub front: Option<BoxType>,
    pub back: Option<BoxType>,
}

impl Cart {
    /// Picks the crate out of the chosen slot, leaving it empty. An
    /// already-empty slot yields nothing and nothing changes.
    pub fn take_crate(&mut self, is_front_slot: bool) -> (taken: Option<BoxType>)
        ensures
            is_front_slot ==> taken == old(self).front && final(self).front is None
                && final(self).back == old(self).back,
            !is_front_slot ==> taken == old(self).back && final(self).back is None
                && final(self).front == old(self).front,
    {
        if is_front_slot {
            let item = self.front;
            self.front = None;
            item
        } else {
            let item = self.back;
            self.back = None;
            item
        }
    }
}

/// The pending crate requests and the carts already on the road.
#[derive(Clone, Debug)]
pub struct CartSpawningState {
    /// Crate kinds the player asked for, oldest first.
    pub items: Vec<BoxType>,
    /// Carts currently in the world.
    pub active_carts: usize,
    /// The most carts allowed in the world at once.
    pub max_carts: usize,
    /// When the last cart spawned, in milliseconds.
    pub last_spawn_ms: u64,
}

impl Default for CartSpawningState {
    /// No requests, no carts, room for five.
    fn default() -> (s: CartSpawningState)
        ensures
            s.items@ == Seq::<BoxType>::empty(),
            s.active_carts == 0,
            s.max_carts == 5,
            s.last_spawn_ms == 0,
    {
        let s = CartSpawningState {
            items: Vec::new(),
            active_carts: 0,
            max_carts: 5,
            last_spawn_ms: 0,
        };
        proof {
            assert(s.items@ =~= Seq::<BoxType>::empty());
        }
        s
    }
}

impl CartSpawningState {
    /// The player asked for a crate of this kind: it joins the back of
    /// the request queue.
    pub fn queue_crate(&mut self, box_type: BoxType)
        ensures
            final(self).items@ == old(self).items@.push(box_type),
            final(self).active_carts == old(self).active_carts,
            final(self).max_carts == old(self).max_carts,
            final(self).last_spawn_ms == old(self).last_spawn_ms,
    {
        self.items.push(box_type);
    }

    /// Spawns a cart when two requests are waiting, a cart is free, and
    /// the spawn delay has passed; the two oldest requests board the
    /// cart's front and back slots. Otherwise nothing changes.
    pub fn cart_spawning_system(&mut self, now_ms: u64) -> (cart: Option<Cart>)
        requires
            old(self).last_spawn_ms <= now_ms,
        ensures
            final(self).max_carts == old(self).max_carts,
            cart is Some <==> (old(self).active_carts < old(self).max_carts
                && old(self).items@.len() >= 2
                && now_ms - old(self).last_spawn_ms >= CART_SPAWN_DELAY_MS),
            cart matches Some(c) ==> {
                &&& c == (Cart {
                    front: Some(old(self).items@[0]),
                    back: Some(old(self).items@[1]),
                })
                &&& final(self).items@ == old(self).items@.skip(2)
                &&& final(self).active_carts == old(self).active_carts + 1
                &&& final(self).last_spawn_ms == now_ms
            },
            cart is None ==> *final(self) == *old(self),
    {
        if self.active_carts >= self.max_carts || self.items.len() < 2 {
            return None;
        }
        if now_ms - self.last_spawn_ms < CART_SPAWN_DELAY_MS {
            return None;
        }
        let front = self.items.remove(0);
        let back = self.items.remove(0);
        proof {
            assert(self.items@ =~= old(self).items@.skip(2));
        }
        self.active_carts = self.active_carts + 1;
        self.last_spawn_ms = now_ms;
        Some(Cart { front: Some(front), back: Some(back) })
    }

    /// A cart reached the end of its road and left the world.
    pub fn cart_departed(&mut self)
        requires
            old(self).active_carts > 0,
        ensures
            final(self).active_carts == old(self).active_carts - 1,
            final(self).items@ == old(self).items@,
            final(self).max_carts == old(self).max_carts,
            final(self).last_spawn_ms == old(self).last_spawn_ms,
    {
        self.active_carts = self.active_carts - 1;
    }
}

} // verus!
