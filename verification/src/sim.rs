//! The top-level simulation context: one struct owns the market, score,
//! factory, dock and scheduler state, and each frame's update calls walk
//! it in a fixed dependency order — spawn scheduling, routing, factory
//! and ship updates, market tick, scoring. Exactly one writer mutates
//! each piece per frame; there is no concurrency.

use vstd::prelude::*;
use crate::carts::CartSpawningState;
use crate::events::{
    OnCoinsReceived,
    OnCrateSplashedInWater,
    OnDropCrateOnShip,
    OnDropInFactoryInput,
    OnFactoryFinishProducing,
    OnFactoryStartProducing,
    OnLaunchShip,
    OnShipArrivedAtDestination,
};
use crate::factory::{Factory, FactoryDropOutcome, FactoryModel, add_item_outcome_spec, add_item_spec, new_timer};
use crate::hold::{ShipHold, unmet_demands_spec};
use crate::kinds::BoxType;
use crate::market::{Market, update_price_spec};
use crate::recipes::Recipes;
use crate::rng::RandomSpawnTimer;
use crate::router::{ContactTarget, RouteDecision, route_crate, route_spec};
use crate::scheduler::{
    MAX_SPAWN_REQUESTS,
    SpawnShipRequest,
    keep_unexpired,
    queue_timer_wf,
    ship_queuing_system,
    ship_request_expiry_system,
};
use crate::score::{Score, deliveries_delta, count_demanded, score_update};
use crate::ship_launch::{
    LaunchModel,
    ShipRecord,
    find_ship,
    find_ship_index,
    launch_model,
    launch_steps,
    slot_ids_of,
    trigger_launch,
};
use crate::slots::{ShipSlots, ShipSlotType};
use crate::timer::CountDownTimer;

verus! {

/// Where one crate's delivery resolved this step.
pub enum RouteOutcome {
    /// The crate went into the factory input and was consumed.
    ToFactory(FactoryDropOutcome),
    /// The crate splashed down: consumed, a pure loss.
    Splashed(OnCrateSplashedInWater),
    /// The crate landed in a ship's hold.
    Delivered(OnDropCrateOnShip),
    /// No usable target (or a stale one): the crate stays in flight.
    InFlight,
}

/// What a ship's travel-completion signal turned out to mean.
#[derive(Clone, Copy, Debug, PartialEq, Eq, Structural)]
pub enum ArrivalOutcome {
    /// The ship finished arriving and now occupies this slot.
    Docked(usize),
    /// The ship finished departing and left the world.
    Despawned,
    /// The signal did not match a known ship: dropped silently.
    Ignored,
}

/// The whole logistics and economy state of one playthrough.
pub struct GameSim {
    pub recipes: Recipes,
    pub factory: Factory,
    /// The running production countdown, present exactly while the
    /// factory is producing.
    pub production_timer: Option<CountDownTimer>,
    pub market: Market,
    /// When the market next moves, in milliseconds.
    pub next_market_update_ms: u64,
    pub score: Score,
    pub game_over: bool,
    pub slots: ShipSlots,
    /// Every ship in the world: arriving, docked or departing.
    pub ships: Vec<ShipRecord>,
    /// Outstanding, un-actioned ship requests.
    pub spawn_requests: Vec<SpawnShipRequest>,
    pub spawn_timer: RandomSpawnTimer,
    /// When the scheduler next checks its timer, in milliseconds.
    pub next_queue_check_ms: u64,
    pub carts: CartSpawningState,
    /// The identity the next spawned ship receives.
    pub next_ship_id: u64,
}

impl GameSim {
    /// The simulation's working shape: the dock, factory, market and
    /// scheduler are each well-formed, the production countdown exists
    /// exactly while the factory produces, ship identities are unique and
    /// below the next fresh one, and demand lists stay small.
    pub open spec fn wf(self) -> bool {
        &&& self.slots.wf()
        &&& self.factory.wf()
        &&& self.market.wf()
        &&& queue_timer_wf(self.spawn_timer)
        &&& (self.factory.is_producing <==> self.production_timer is Some)
        &&& (self.production_timer matches Some(t) ==> t.wf())
        &&& forall|i: int, j: int|
            0 <= i < j < self.ships@.len() ==> (#[trigger] self.ships@[i]).id != (
            #[trigger] self.ships@[j]).id
        &&& forall|i: int| 0 <= i < self.ships@.len() ==> (#[trigger] self.ships@[i]).id < self.next_ship_id
        &&& forall|i: int|
            0 <= i < self.slots.slots@.len() && (#[trigger] self.slots.slots@[i]).ship() is Some
                ==> self.slots.slots@[i].ship().unwrap() < self.next_ship_id
        &&& forall|i: int|
            0 <= i < self.ships@.len() ==> (#[trigger] self.ships@[i]).hold.demands@.len() <= 64
        &&& forall|i: int|
            0 <= i < self.spawn_requests@.len() ==> (#[trigger] self.spawn_requests@[i]).demands@.len()
                <= 64
        &&& forall|i: int, j: int|
            0 <= i < self.slots.slots@.len() && 0 <= j < self.ships@.len() && (
            #[trigger] self.slots.slots@[i]).ship() == Some((#[trigger] self.ships@[j]).id)
                ==> !self.ships@[j].departing
        &&& forall|i: int|
            0 <= i < self.slots.slots@.len() && (#[trigger] self.slots.slots@[i]).ship() is Some
                ==> find_ship(self.ships@, self.slots.slots@[i].ship().unwrap()) is Some
        &&& self.next_ship_id < 0xFFFF_FFFF_FFFF_FFFF
    }

    /// A fresh playthrough: empty dock and factory, the standard recipe
    /// table and market, score at zero.
    pub fn new() -> (sim: GameSim)
        ensures
            sim.wf(),
            sim.score.0 == 0,
            !sim.game_over,
            sim.ships@.len() == 0,
            sim.spawn_requests@.len() == 0,
            sim.factory@ == (FactoryModel {
                input0: None,
                input1: None,
                queue: Seq::<BoxType>::empty(),
                is_producing: false,
            }),
            sim.recipes.0@ == crate::recipes::default_recipes(),
            forall|i: int|
                0 <= i < sim.slots.slots@.len() ==> (#[trigger] sim.slots.slots@[i]) is Empty,
            sim.market.kinds() =~= seq![
                BoxType::MedicalSupplies,
                BoxType::Fruit,
                BoxType::Iron,
                BoxType::Rum,
            ],
            sim.market.market@.len() == 4,
            sim.market.market@[0].1@.sp == 8500,
            sim.market.market@[1].1@.sp == 3500,
            sim.market.market@[2].1@.sp == 7200,
            sim.market.market@[3].1@.sp == 1500,
            sim.market.market@[1].1@.price == 3500 && sim.market.market@[1].1@.accel == 0,
            sim.next_ship_id == 1,
            sim.production_timer is None,
            sim.next_market_update_ms == 0,
            sim.next_queue_check_ms == 0,
            sim.spawn_timer.spawn_min_ms == 15000,
            sim.spawn_timer.spawn_max_ms == 20000,
            sim.spawn_timer.next_spawn_ms == 5000,
            sim.carts.items@.len() == 0,
            sim.carts.active_carts == 0,
            sim.carts.max_carts == 5,
            sim.carts.last_spawn_ms == 0,
    {
        let sim = GameSim {
            recipes: Recipes::default(),
            factory: Factory::default(),
            production_timer: None,
            market: Market::default(),
            next_market_update_ms: 0,
            score: Score::default(),
            game_over: false,
            slots: ShipSlots::new(),
            ships: Vec::new(),
            spawn_requests: Vec::new(),
            spawn_timer: RandomSpawnTimer::default(),
            next_queue_check_ms: 0,
            carts: CartSpawningState::default(),
            next_ship_id: 1,
        };
        proof {
            assert(sim.ships@ =~= Seq::<ShipRecord>::empty());
            assert(sim.spawn_requests@ =~= Seq::<SpawnShipRequest>::empty());
            assert(sim.market.market@.len() == sim.market.kinds().len());
        }
        sim
    }

    /// The restart transition: the score, the ships, the dock, the
    /// factory and all pending requests reset in one step — no partial
    /// application — while the market keeps running across playthroughs.
    pub fn reset(&mut self)
        requires
            old(self).wf(),
        ensures
            final(self).wf(),
            final(self).score.0 == 0,
            !final(self).game_over,
            final(self).ships@.len() == 0,
            final(self).spawn_requests@.len() == 0,
            final(self).factory@ == (FactoryModel {
                input0: None,
                input1: None,
                queue: Seq::<BoxType>::empty(),
                is_producing: false,
            }),
            final(self).market == old(self).market,
            final(self).next_market_update_ms == old(self).next_market_update_ms,
            final(self).recipes.0@ == old(self).recipes.0@,
            forall|i: int|
                0 <= i < final(self).slots.slots@.len() ==> (#[trigger] final(self).slots.slots@[i]) is Empty,
            final(self).next_ship_id == 1,
            final(self).production_timer is None,
            final(self).next_queue_check_ms == 0,
            final(self).spawn_timer.spawn_min_ms == 15000,
            final(self).spawn_timer.spawn_max_ms == 20000,
            final(self).spawn_timer.next_spawn_ms == 5000,
            final(self).carts.items@.len() == 0,
            final(self).carts.active_carts == 0,
            final(self).carts.max_carts == 5,
            final(self).carts.last_spawn_ms == 0,
    {
        self.factory = Factory::default();
        self.production_timer = None;
        self.score = Score::default();
        self.game_over = false;
        self.slots = ShipSlots::new();
        self.ships = Vec::new();
        self.spawn_requests = Vec::new();
        self.spawn_timer = RandomSpawnTimer::default();
        self.next_queue_check_ms = 0;
        self.carts = CartSpawningState::default();
        self.next_ship_id = 1;
        proof {
            assert(self.ships@ =~= Seq::<ShipRecord>::empty());
            assert(self.spawn_requests@ =~= Seq::<SpawnShipRequest>::empty());
        }
    }

    /// Spawn scheduling: may queue one new ship request this frame,
    /// unless the outstanding-request cap suspends the scheduler.
    pub fn ship_queuing_system(&mut self, now_ms: u64, rng: &mut rand::rngs::ThreadRng) -> (queued:
        bool)
        requires
            old(self).wf(),
            now_ms <= 0x1000_0000_0000,
        ensures
            final(self).wf(),
            queued ==> final(self).spawn_requests@.len() == old(self).spawn_requests@.len() + 1
                && final(self).spawn_requests@.drop_last() == old(self).spawn_requests@
                && 1 <= final(self).spawn_requests@.last().demands@.len() <= 3,
            !queued ==> final(self).spawn_requests@ == old(self).spawn_requests@,
            queued <==> (now_ms >= old(self).next_queue_check_ms && old(self).spawn_requests@.len()
                < MAX_SPAWN_REQUESTS && old(self).spawn_timer.next_spawn_ms < now_ms),
            old(self).spawn_requests@.len() >= MAX_SPAWN_REQUESTS ==> !queued
                && final(self).spawn_timer == old(self).spawn_timer,
            queued ==> (forall|i: int|
                0 <= i < final(self).spawn_requests@.last().demands@.len()
                    ==> crate::kinds::box_demands_spec().contains(
                    #[trigger] final(self).spawn_requests@.last().demands@[i],
                )),
            queued ==> final(self).spawn_requests@.last().expiry_ms == now_ms + final(self).spawn_timer.spawn_min_ms,
            final(self).ships@ == old(self).ships@,
            final(self).score == old(self).score,
            final(self).slots.slots@ == old(self).slots.slots@,
            final(self).recipes.0@ == old(self).recipes.0@,
            final(self).factory@ == old(self).factory@,
            final(self).production_timer == old(self).production_timer,
            final(self).market == old(self).market,
            final(self).next_market_update_ms == old(self).next_market_update_ms,
            final(self).game_over == old(self).game_over,
            final(self).carts == old(self).carts,
            final(self).next_ship_id == old(self).next_ship_id,
    {
        let n = self.spawn_requests.len();
        let request = ship_queuing_system(
            &mut self.spawn_timer,
            &mut self.next_queue_check_ms,
            n,
            now_ms,
            rng,
        );
        match request {
            Some(req) => {
                self.spawn_requests.push(req);
                true
            },
            None => false,
        }
    }

    /// Discards the ship requests whose deadline has passed; the
    /// survivors keep their order. An expired request costs nothing.
    pub fn ship_request_expiry_system(&mut self, now_ms: u64)
        requires
            old(self).wf(),
        ensures
            final(self).wf(),
            final(self).spawn_requests@ == keep_unexpired(old(self).spawn_requests@, now_ms),
            final(self).ships@ == old(self).ships@,
            final(self).score == old(self).score,
            final(self).slots.slots@ == old(self).slots.slots@,
            final(self).recipes.0@ == old(self).recipes.0@,
            final(self).factory@ == old(self).factory@,
            final(self).production_timer == old(self).production_timer,
            final(self).market == old(self).market,
            final(self).next_market_update_ms == old(self).next_market_update_ms,
            final(self).game_over == old(self).game_over,
            final(self).carts == old(self).carts,
            final(self).spawn_timer == old(self).spawn_timer,
            final(self).next_queue_check_ms == old(self).next_queue_check_ms,
            final(self).next_ship_id == old(self).next_ship_id,
    {
        let ghost orig = self.spawn_requests@;
        ship_request_expiry_system(&mut self.spawn_requests, now_ms);
        proof {
            lemma_keep_unexpired_bounds(orig, now_ms);
        }
    }

    /// Actions a pending request: the requested ship spawns with the
    /// request's demands and starts arriving at the first free slot. With
    /// no free slot the request is deferred, untouched. A stale index is
    /// ignored.
    pub fn ship_spawn_handler(&mut self, request_index: usize) -> (spawned: Option<(usize, u64)>)
        requires
            old(self).wf(),
        ensures
            final(self).wf(),
            spawned matches Some((slot, ship)) ==> {
                &&& ship == old(self).next_ship_id
                &&& slot < old(self).slots.slots@.len()
                &&& old(self).slots.slots@[slot as int] is Empty
                &&& (forall|j: int|
                    0 <= j < slot ==> !((#[trigger] old(self).slots.slots@[j]) is Empty))
                &&& final(self).slots.slots@ == old(self).slots.slots@.update(
                    slot as int,
                    ShipSlotType::Arriving(ship),
                )
                &&& request_index < old(self).spawn_requests@.len()
                &&& final(self).spawn_requests@ == old(self).spawn_requests@.remove(
                    request_index as int,
                )
                &&& final(self).ships@.len() == old(self).ships@.len() + 1
                &&& final(self).ships@.drop_last() == old(self).ships@
                &&& final(self).ships@.last().id == ship
                &&& final(self).ships@.last().hold.demands@ == old(self).spawn_requests@[request_index as int].demands@
                &&& final(self).ships@.last().hold.crates@.len() == 0
                &&& !final(self).ships@.last().departing
                &&& final(self).ships@.last().demand_markers
            },
            spawned is None ==> {
                &&& final(self).slots.slots@ == old(self).slots.slots@
                &&& final(self).ships@ == old(self).ships@
                &&& final(self).spawn_requests@ == old(self).spawn_requests@
                &&& (request_index >= old(self).spawn_requests@.len() || (forall|j: int|
                    0 <= j < old(self).slots.slots@.len() ==> !((#[trigger] old(self).slots.slots@[j]) is Empty)) || old(self).next_ship_id
                    >= 0xFFFF_FFFF_FFFF_FFFE)
            },
            spawned is Some ==> final(self).next_ship_id == old(self).next_ship_id + 1,
            spawned is None ==> final(self).next_ship_id == old(self).next_ship_id,
            final(self).score == old(self).score,
            final(self).recipes.0@ == old(self).recipes.0@,
            final(self).factory@ == old(self).factory@,
            final(self).production_timer == old(self).production_timer,
            final(self).market == old(self).market,
            final(self).next_market_update_ms == old(self).next_market_update_ms,
            final(self).game_over == old(self).game_over,
            final(self).carts == old(self).carts,
            final(self).spawn_timer == old(self).spawn_timer,
            final(self).next_queue_check_ms == old(self).next_queue_check_ms,
    {
        if request_index >= self.spawn_requests.len() {
            return None;
        }
        if self.next_ship_id >= 0xFFFF_FFFF_FFFF_FFFE {
            // the identity space is exhausted: defer the request
            return None;
        }
        let ship_id = self.next_ship_id;
        proof {
            assert(!self.slots.holds_ship(ship_id)) by {
                if self.slots.holds_ship(ship_id) {
                    let i = choose|i: int|
                        0 <= i < self.slots.slots@.len() && (#[trigger] self.slots.slots@[i]).ship()
                            == Some(ship_id);
                    assert(self.slots.slots@[i].ship().unwrap() < self.next_ship_id);
                }
            }
        }
        let slot = match self.slots.assign_arriving(ship_id) {
            Some(slot) => slot,
            None => {
                return None;
            },
        };
        let request = self.spawn_requests.remove(request_index);
        let record = ShipRecord {
            id: ship_id,
            hold: ShipHold::new(request.demands),
            departing: false,
            demand_markers: true,
        };
        self.ships.push(record);
        self.next_ship_id = self.next_ship_id + 1;
        proof {
            let pre = old(self).ships@;
            let reqs = old(self).spawn_requests@;
            assert(self.ships@.drop_last() =~= pre);
            assert forall|i: int| 0 <= i < self.spawn_requests@.len() implies (
            #[trigger] self.spawn_requests@[i]).demands@.len() <= 64 by {
                if i < request_index {
                    assert(self.spawn_requests@[i] == reqs[i]);
                } else {
                    assert(self.spawn_requests@[i] == reqs[i + 1]);
                }
            }
            assert forall|i: int| 0 <= i < self.ships@.len() implies (
            #[trigger] self.ships@[i]).hold.demands@.len() <= 64 by {
                if i < pre.len() {
                    assert(self.ships@[i] == pre[i]);
                } else {
                    assert(self.ships@[i] == record);
                    assert(record.hold.demands@.len() == reqs[request_index as int].demands@.len());
                }
            }
            assert forall|i: int| 0 <= i < self.ships@.len() implies (
            #[trigger] self.ships@[i]).id < self.next_ship_id by {
                if i < pre.len() {
                    assert(self.ships@[i] == pre[i]);
                }
            }
            assert forall|i: int, j: int| 0 <= i < j < self.ships@.len() implies (
            #[trigger] self.ships@[i]).id != (#[trigger] self.ships@[j]).id by {
                if j == self.ships@.len() - 1 {
                    assert(self.ships@[i] == pre[i]);
                    assert(pre[i].id < ship_id);
                }
            }
            assert forall|i: int|
                0 <= i < self.slots.slots@.len() && (#[trigger] self.slots.slots@[i]).ship()
                    is Some implies self.slots.slots@[i].ship().unwrap() < self.next_ship_id by {
                if i != slot as int {
                    assert(self.slots.slots@[i] == old(self).slots.slots@[i]);
                }
            }
            assert forall|i: int|
                0 <= i < self.slots.slots@.len() && (#[trigger] self.slots.slots@[i]).ship()
                    is Some implies find_ship(
                self.ships@,
                self.slots.slots@[i].ship().unwrap(),
            ) is Some by {
                let id = self.slots.slots@[i].ship().unwrap();
                if i == slot as int {
                    assert(self.ships@[pre.len() as int] == record);
                    assert forall|m: int| 0 <= m < pre.len() implies self.ships@[m].id
                        != ship_id by {
                        assert(self.ships@[m] == pre[m]);
                    }
                    crate::ship_launch::lemma_find_ship_found(
                        self.ships@,
                        ship_id,
                        pre.len() as int,
                    );
                } else {
                    assert(self.slots.slots@[i] == old(self).slots.slots@[i]);
                    crate::ship_launch::lemma_find_ship_push_keeps(pre, record, id);
                    assert(self.ships@ =~= pre.push(record));
                }
            }
        }
        Some((slot, ship_id))
    }

    /// Handles a ship's travel-completion signal: a ship still arriving
    /// docks (its slot turns occupied); a departing ship despawns; an
    /// unknown ship is ignored silently.
    pub fn ship_despawn(&mut self, evt: OnShipArrivedAtDestination) -> (outcome: ArrivalOutcome)
        requires
            old(self).wf(),
        ensures
            final(self).wf(),
            outcome matches ArrivalOutcome::Docked(slot) ==> {
                &&& slot < old(self).slots.slots@.len()
                &&& old(self).slots.slots@[slot as int] == ShipSlotType::Arriving(evt.0)
                &&& final(self).slots.slots@ == old(self).slots.slots@.update(
                    slot as int,
                    ShipSlotType::Occupied(evt.0),
                )
                &&& final(self).ships@ == old(self).ships@
            },
            outcome is Despawned ==> {
                &&& final(self).slots.slots@ == old(self).slots.slots@
                &&& find_ship(old(self).ships@, evt.0) matches Some(k) && old(self).ships@[k].departing && final(self).ships@ == old(self).ships@.remove(k)
            },
            outcome is Ignored ==> {
                &&& final(self).slots.slots@ == old(self).slots.slots@
                &&& final(self).ships@ == old(self).ships@
                &&& forall|j: int|
                    0 <= j < old(self).slots.slots@.len() ==> (#[trigger] old(self).slots.slots@[j])
                        != ShipSlotType::Arriving(evt.0)
                &&& (find_ship(old(self).ships@, evt.0) matches Some(k) ==> !old(self).ships@[k].departing)
            },
            final(self).score == old(self).score,
            final(self).spawn_requests@ == old(self).spawn_requests@,
            final(self).recipes.0@ == old(self).recipes.0@,
            final(self).factory@ == old(self).factory@,
            final(self).production_timer == old(self).production_timer,
            final(self).market == old(self).market,
            final(self).next_market_update_ms == old(self).next_market_update_ms,
            final(self).game_over == old(self).game_over,
            final(self).carts == old(self).carts,
            final(self).spawn_timer == old(self).spawn_timer,
            final(self).next_queue_check_ms == old(self).next_queue_check_ms,
            final(self).next_ship_id == old(self).next_ship_id,
    {
        let ship_id = evt.0;
        // a ship still arriving: its slot turns occupied
        let mut arriving_slot: Option<usize> = None;
        let mut slot_idx: usize = 0;
        #[verifier::loop_isolation(false)]
        while slot_idx < self.slots.slots.len()
            invariant
                0 <= slot_idx <= self.slots.slots@.len(),
                arriving_slot matches Some(s) ==> s < self.slots.slots@.len()
                    && self.slots.slots@[s as int] == ShipSlotType::Arriving(ship_id),
                arriving_slot is None ==> forall|j: int|
                    0 <= j < slot_idx ==> (#[trigger] self.slots.slots@[j])
                        != ShipSlotType::Arriving(ship_id),
            decreases self.slots.slots@.len() - slot_idx,
        {
            let here = self.slots.slots[slot_idx];
            if here == ShipSlotType::Arriving(ship_id) && arriving_slot.is_none() {
                arriving_slot = Some(slot_idx);
            }
            slot_idx = slot_idx + 1;
        }
        match arriving_slot {
            Some(s) => {
                let docked = self.slots.mark_arrived(s);
                proof {
                    assert(docked == Some(ship_id));
                    assert forall|i: int|
                        0 <= i < self.slots.slots@.len() && (#[trigger] self.slots.slots@[i]).ship()
                            is Some implies find_ship(
                        self.ships@,
                        self.slots.slots@[i].ship().unwrap(),
                    ) is Some by {
                        if i != s as int {
                            assert(self.slots.slots@[i] == old(self).slots.slots@[i]);
                        } else {
                            assert(old(self).slots.slots@[i].ship() == Some(ship_id));
                        }
                    }
                }
                return ArrivalOutcome::Docked(s);
            },
            None => {},
        }

        // otherwise: a departing ship reaching open water despawns
        match find_ship_index(&self.ships, ship_id) {
            Some(k) => {
                if self.ships[k].departing {
                    let ghost pre = self.ships@;
                    let _rec = self.ships.remove(k);
                    proof {
                        lemma_remove_keeps_ship_wf(pre, k as int, self.next_ship_id);
                        assert forall|i: int|
                            0 <= i < self.slots.slots@.len() && (
                            #[trigger] self.slots.slots@[i]).ship() is Some implies find_ship(
                            self.ships@,
                            self.slots.slots@[i].ship().unwrap(),
                        ) is Some by {
                            let id = self.slots.slots@[i].ship().unwrap();
                            crate::ship_launch::lemma_find_ship_id(pre, id);
                            let j = find_ship(pre, id).unwrap();
                            // the slot ship's record is not departing, so it
                            // is not the record being despawned
                            assert(!pre[j].departing);
                            crate::ship_launch::lemma_find_ship_remove_keeps(pre, k as int, id);
                        }
                    }
                    ArrivalOutcome::Despawned
                } else {
                    ArrivalOutcome::Ignored
                }
            },
            None => ArrivalOutcome::Ignored,
        }
    }

    /// Routes one crate's contact signals: the factory input wins, then
    /// the splash catcher, then a ship hold; a ship hold accepts the
    /// crate unconditionally and reports whether it was still demanded.
    /// A stale ship reference leaves the crate in flight.
    pub fn detect_crate_drop_on_ship(&mut self, box_type: BoxType, targets: &Vec<ContactTarget>) -> (outcome:
        RouteOutcome)
        requires
            old(self).wf(),
        ensures
            final(self).wf(),
            outcome matches RouteOutcome::ToFactory(fo) ==> {
                &&& route_spec(targets@) is ToFactory
                &&& final(self).factory@ == add_item_spec(
                    old(self).factory@,
                    old(self).recipes.0@,
                    box_type,
                )
                &&& fo == add_item_outcome_spec(old(self).factory@, old(self).recipes.0@, box_type)
                &&& !final(self).factory@.both_inputs_filled()
                &&& final(self).ships@ == old(self).ships@
            },
            outcome is Splashed ==> route_spec(targets@) is Splash && final(self).factory@ == old(self).factory@ && final(self).ships@ == old(self).ships@,
            outcome matches RouteOutcome::Delivered(evt) ==> {
                &&& route_spec(targets@) == RouteDecision::ToShip(evt.ship_entity)
                &&& evt.box_type == box_type
                &&& find_ship(old(self).ships@, evt.ship_entity) matches Some(k) && {
                    let hold = old(self).ships@[k].hold;
                    &&& evt.was_demanded == unmet_demands_spec(hold.demands@, hold.crates@).contains(
                        box_type,
                    )
                    &&& final(self).ships@.len() == old(self).ships@.len()
                    &&& (forall|j: int|
                        0 <= j < final(self).ships@.len() && j != k ==> #[trigger] final(self).ships@[j] == old(self).ships@[j])
                    &&& final(self).ships@[k].id == old(self).ships@[k].id
                    &&& final(self).ships@[k].departing == old(self).ships@[k].departing
                    &&& final(self).ships@[k].demand_markers == old(self).ships@[k].demand_markers
                    &&& final(self).ships@[k].hold.demands@ == hold.demands@
                    &&& final(self).ships@[k].hold.crates@ == hold.crates@.push(box_type)
                }
                &&& final(self).factory@ == old(self).factory@
            },
            outcome is InFlight ==> final(self).factory@ == old(self).factory@ && final(self).ships@ == old(self).ships@ && (route_spec(targets@) is NoTarget || (route_spec(
                targets@,
            ) is ToShip && find_ship(old(self).ships@, route_spec(targets@)->ToShip_0) is None)),
            final(self).score == old(self).score,
            final(self).slots.slots@ == old(self).slots.slots@,
            final(self).recipes.0@ == old(self).recipes.0@,
            final(self).production_timer == old(self).production_timer,
            final(self).market == old(self).market,
            final(self).next_market_update_ms == old(self).next_market_update_ms,
            final(self).game_over == old(self).game_over,
            final(self).carts == old(self).carts,
            final(self).spawn_timer == old(self).spawn_timer,
            final(self).next_queue_check_ms == old(self).next_queue_check_ms,
            final(self).next_ship_id == old(self).next_ship_id,
            final(self).spawn_requests@ == old(self).spawn_requests@,
    {
        match route_crate(targets) {
            RouteDecision::ToFactory => {
                let fo = crate::factory::add_item_to_factory(
                    &mut self.factory,
                    &self.recipes,
                    box_type,
                );
                RouteOutcome::ToFactory(fo)
            },
            RouteDecision::Splash => RouteOutcome::Splashed(OnCrateSplashedInWater { box_type }),
            RouteDecision::ToShip(ship_id) => {
                match find_ship_index(&self.ships, ship_id) {
                    Some(k) => {
                        let ghost pre = self.ships@;
                        let mut rec = self.ships.remove(k);
                        let was_demanded = rec.hold.receive_crate(box_type);
                        self.ships.insert(k, rec);
                        proof {
                            assert(self.ships@ =~= pre.update(k as int, self.ships@[k as int]));
                            assert forall|i: int|
                                0 <= i < self.slots.slots@.len() && (
                                #[trigger] self.slots.slots@[i]).ship() is Some implies find_ship(
                                self.ships@,
                                self.slots.slots@[i].ship().unwrap(),
                            ) is Some by {
                                crate::ship_launch::lemma_find_ship_ids_equal(
                                    pre,
                                    self.ships@,
                                    self.slots.slots@[i].ship().unwrap(),
                                );
                            }
                        }
                        RouteOutcome::Delivered(
                            OnDropCrateOnShip { ship_entity: ship_id, box_type, was_demanded },
                        )
                    },
                    None => RouteOutcome::InFlight,
                }
            },
            RouteDecision::NoTarget => RouteOutcome::InFlight,
        }
    }

    /// Applies a frame's delivery outcomes to the score and runs the
    /// game-over check once, after the batch.
    pub fn score_update(&mut self, deliveries: &Vec<OnDropCrateOnShip>) -> (coins: Vec<
        OnCoinsReceived,
    >)
        requires
            old(self).wf(),
            old(self).score.in_range(),
            deliveries@.len() <= 0x1000_0000,
        ensures
            final(self).wf(),
            final(self).score.0 == old(self).score.0 + deliveries_delta(deliveries@),
            coins@.len() == count_demanded(deliveries@),
            final(self).game_over == (old(self).game_over || final(self).score.0 < 0),
            final(self).ships@ == old(self).ships@,
            final(self).slots.slots@ == old(self).slots.slots@,
            final(self).recipes.0@ == old(self).recipes.0@,
            final(self).factory@ == old(self).factory@,
            final(self).production_timer == old(self).production_timer,
            final(self).market == old(self).market,
            final(self).next_market_update_ms == old(self).next_market_update_ms,
            final(self).carts == old(self).carts,
            final(self).spawn_timer == old(self).spawn_timer,
            final(self).next_queue_check_ms == old(self).next_queue_check_ms,
            final(self).next_ship_id == old(self).next_ship_id,
            final(self).spawn_requests@ == old(self).spawn_requests@,
    {
        let (coins, game_over_now) = score_update(&mut self.score, deliveries);
        if game_over_now {
            self.game_over = true;
        }
        coins
    }

    /// Handles a frame's launch commands: each slot launches at most
    /// once, the penalty for unmet demands lands exactly once per
    /// launched ship, and the game-over check runs after the batch.
    pub fn trigger_launch(&mut self, events: &Vec<OnLaunchShip>) -> (launched: Vec<u64>)
        requires
            old(self).wf(),
            -0x0800_0000_0000 <= old(self).score.0 <= 0x0800_0000_0000,
            events@.len() <= 1000,
        ensures
            final(self).wf(),
            launch_model(final(self).slots, final(self).ships@, final(self).score) == launch_steps(
                launch_model(old(self).slots, old(self).ships@, old(self).score),
                slot_ids_of(events@),
            ),
            old(self).score.0 - 2560 * events@.len() <= final(self).score.0 <= old(self).score.0,
            final(self).game_over == (old(self).game_over || (launched@.len() > 0 && final(self).score.0 < 0)),
            final(self).factory@ == old(self).factory@,
            final(self).spawn_requests@ == old(self).spawn_requests@,
            final(self).recipes.0@ == old(self).recipes.0@,
            final(self).production_timer == old(self).production_timer,
            final(self).market == old(self).market,
            final(self).next_market_update_ms == old(self).next_market_update_ms,
            final(self).carts == old(self).carts,
            final(self).spawn_timer == old(self).spawn_timer,
            final(self).next_queue_check_ms == old(self).next_queue_check_ms,
            final(self).next_ship_id == old(self).next_ship_id,
    {
        let launched = trigger_launch(&mut self.slots, &mut self.ships, &mut self.score, events);
        proof {
            assert forall|i: int|
                0 <= i < self.slots.slots@.len() && (#[trigger] self.slots.slots@[i]).ship()
                    is Some implies find_ship(
                self.ships@,
                self.slots.slots@[i].ship().unwrap(),
            ) is Some by {
                assert(self.slots.slots@[i] == old(self).slots.slots@[i]);
                crate::ship_launch::lemma_find_ship_ids_equal(
                    old(self).ships@,
                    self.ships@,
                    self.slots.slots@[i].ship().unwrap(),
                );
            }
        }
        if launched.len() > 0 && self.score.0 < 0 {
            self.game_over = true;
        }
        launched
    }

    /// The market tick: moves every price once per update interval, not
    /// every frame.
    pub fn market_movement(&mut self, now_ms: u64, rng: &mut rand::rngs::ThreadRng) -> (moved:
        bool)
        requires
            old(self).wf(),
            old(self).next_market_update_ms <= 0xFFFF_FFFF_FFFF_0000,
        ensures
            final(self).wf(),
            moved == (now_ms >= old(self).next_market_update_ms),
            !moved ==> final(self).market == old(self).market && final(self).next_market_update_ms == old(self).next_market_update_ms,
            moved ==> final(self).next_market_update_ms == old(self).next_market_update_ms
                + crate::market::MARKET_UPDATE_FREQUENCY_MS,
            final(self).market.market@.len() == old(self).market.market@.len(),
            forall|i: int|
                0 <= i < final(self).market.market@.len() ==> (#[trigger] final(self).market.market@[i]).0 == old(self).market.market@[i].0,
            moved ==> forall|i: int|
                0 <= i < final(self).market.market@.len() ==> {
                    &&& (#[trigger] final(self).market.market@[i]).1@.sp == old(
                        self,
                    ).market.market@[i].1@.sp
                    &&& final(self).market.market@[i].1@.vol == old(self).market.market@[i].1@.vol
                    &&& exists|delta: int|
                        -old(self).market.market@[i].1@.vol <= delta <= old(
                            self,
                        ).market.market@[i].1@.vol && final(self).market.market@[i].1@
                            == update_price_spec(old(self).market.market@[i].1@, delta)
                },
            final(self).score == old(self).score,
            final(self).ships@ == old(self).ships@,
            final(self).recipes.0@ == old(self).recipes.0@,
            final(self).factory@ == old(self).factory@,
            final(self).production_timer == old(self).production_timer,
            final(self).game_over == old(self).game_over,
            final(self).carts == old(self).carts,
            final(self).spawn_timer == old(self).spawn_timer,
            final(self).next_queue_check_ms == old(self).next_queue_check_ms,
            final(self).next_ship_id == old(self).next_ship_id,
            final(self).slots.slots@ == old(self).slots.slots@,
            final(self).spawn_requests@ == old(self).spawn_requests@,
    {
        if now_ms < self.next_market_update_ms {
            return false;
        }
        self.next_market_update_ms = self.next_market_update_ms
            + crate::market::MARKET_UPDATE_FREQUENCY_MS;
        self.market.market_movement(rng);
        true
    }

    /// Forwards a dropped crate's kind into the factory (the physical
    /// crate was already consumed by the router).
    pub fn add_item_to_factory(&mut self, evt: OnDropInFactoryInput) -> (outcome: FactoryDropOutcome)
        requires
            old(self).wf(),
        ensures
            final(self).wf(),
            final(self).factory@ == add_item_spec(
                old(self).factory@,
                old(self).recipes.0@,
                evt.box_type,
            ),
            outcome == add_item_outcome_spec(old(self).factory@, old(self).recipes.0@, evt.box_type),
            !final(self).factory@.both_inputs_filled(),
            final(self).ships@ == old(self).ships@,
            final(self).score == old(self).score,
            final(self).recipes.0@ == old(self).recipes.0@,
            final(self).production_timer == old(self).production_timer,
            final(self).market == old(self).market,
            final(self).next_market_update_ms == old(self).next_market_update_ms,
            final(self).game_over == old(self).game_over,
            final(self).carts == old(self).carts,
            final(self).spawn_timer == old(self).spawn_timer,
            final(self).next_queue_check_ms == old(self).next_queue_check_ms,
            final(self).next_ship_id == old(self).next_ship_id,
            final(self).slots.slots@ == old(self).slots.slots@,
            final(self).spawn_requests@ == old(self).spawn_requests@,
    {
        crate::factory::add_item_to_factory(&mut self.factory, &self.recipes, evt.box_type)
    }

    /// Starts the next production cycle when the queue is non-empty and
    /// nothing is producing: the countdown starts at the full production
    /// duration.
    pub fn start_factory_production(&mut self) -> (started: Option<OnFactoryStartProducing>)
        requires
            old(self).wf(),
        ensures
            final(self).wf(),
            started is Some <==> (old(self).factory@.queue.len() > 0
                && !old(self).factory@.is_producing),
            started matches Some(evt) ==> {
                &&& evt.box_type == old(self).factory@.queue[0]
                &&& final(self).factory@ == (FactoryModel {
                    is_producing: true,
                    ..old(self).factory@
                })
                &&& final(self).production_timer matches Some(t) && t.elapsed_ms == 0
                    && t.duration_ms == crate::factory::PRODUCTION_DURATION_MS
            },
            started is None ==> final(self).factory@ == old(self).factory@ && final(self).production_timer == old(self).production_timer,
            final(self).ships@ == old(self).ships@,
            final(self).score == old(self).score,
            final(self).recipes.0@ == old(self).recipes.0@,
            final(self).market == old(self).market,
            final(self).next_market_update_ms == old(self).next_market_update_ms,
            final(self).game_over == old(self).game_over,
            final(self).carts == old(self).carts,
            final(self).spawn_timer == old(self).spawn_timer,
            final(self).next_queue_check_ms == old(self).next_queue_check_ms,
            final(self).next_ship_id == old(self).next_ship_id,
            final(self).slots.slots@ == old(self).slots.slots@,
            final(self).spawn_requests@ == old(self).spawn_requests@,
    {
        match crate::factory::start_factory_production(&mut self.factory) {
            Some(bt) => {
                self.production_timer = Some(new_timer());
                Some(OnFactoryStartProducing { box_type: bt })
            },
            None => None,
        }
    }

    /// Advances the production countdown by the frame delta; on the tick
    /// that completes it, the head of the FIFO queue is emitted as a new
    /// crate and the countdown is cleared (the next cycle starts on a
    /// later frame, serially).
    pub fn finish_factory_production(&mut self, delta_ms: u64) -> (finished: Option<
        OnFactoryFinishProducing,
    >)
        requires
            old(self).wf(),
            delta_ms <= 0x1000_0000,
        ensures
            final(self).wf(),
            finished is Some <==> (old(self).production_timer matches Some(t)
                && !t.spec_finished() && t.elapsed_ms + delta_ms >= t.duration_ms),
            finished matches Some(evt) ==> {
                &&& old(self).factory@.is_producing
                &&& evt.box_type == old(self).factory@.queue[0]
                &&& final(self).factory@.queue == old(self).factory@.queue.drop_first()
                &&& !final(self).factory@.is_producing
                &&& final(self).production_timer is None
            },
            finished is None ==> final(self).factory@ == old(self).factory@,
            (finished is None && old(self).production_timer is Some) ==> {
                let t = old(self).production_timer.unwrap();
                final(self).production_timer == Some(
                    CountDownTimer {
                        elapsed_ms: if t.elapsed_ms + delta_ms <= t.duration_ms {
                            (t.elapsed_ms + delta_ms) as u64
                        } else {
                            t.duration_ms
                        },
                        duration_ms: t.duration_ms,
                    },
                )
            },
            old(self).production_timer is None ==> final(self).production_timer is None,
            final(self).ships@ == old(self).ships@,
            final(self).score == old(self).score,
            final(self).recipes.0@ == old(self).recipes.0@,
            final(self).market == old(self).market,
            final(self).next_market_update_ms == old(self).next_market_update_ms,
            final(self).game_over == old(self).game_over,
            final(self).carts == old(self).carts,
            final(self).spawn_timer == old(self).spawn_timer,
            final(self).next_queue_check_ms == old(self).next_queue_check_ms,
            final(self).next_ship_id == old(self).next_ship_id,
            final(self).slots.slots@ == old(self).slots.slots@,
            final(self).spawn_requests@ == old(self).spawn_requests@,
    {
        match self.production_timer {
            Some(mut timer) => {
                let just_finished = timer.tick(delta_ms);
                self.production_timer = Some(timer);
                if just_finished {
                    let built = crate::factory::finish_factory_production(&mut self.factory);
                    self.production_timer = None;
                    Some(OnFactoryFinishProducing { box_type: built })
                } else {
                    None
                }
            },
            None => None,
        }
    }
}

/// Dropping expired requests can only shrink the list, and each survivor
/// is one of the originals.
proof fn lemma_keep_unexpired_bounds(s: Seq<SpawnShipRequest>, now_ms: u64)
    ensures
        keep_unexpired(s, now_ms).len() <= s.len(),
        forall|i: int|
            0 <= i < keep_unexpired(s, now_ms).len() ==> exists|j: int|
                0 <= j < s.len() && #[trigger] keep_unexpired(s, now_ms)[i] == s[j],
    decreases s.len(),
{
    if s.len() > 0 {
        lemma_keep_unexpired_bounds(s.drop_first(), now_ms);
        let kept = keep_unexpired(s, now_ms);
        let rest = keep_unexpired(s.drop_first(), now_ms);
        assert forall|i: int| 0 <= i < kept.len() implies exists|j: int|
            0 <= j < s.len() && #[trigger] kept[i] == s[j] by {
            if s[0].expiry_ms > now_ms {
                if i == 0 {
                    assert(kept[0] == s[0]);
                } else {
                    assert(kept[i] == rest[i - 1]);
                    let j = choose|j: int|
                        0 <= j < s.drop_first().len() && rest[i - 1] == s.drop_first()[j];
                    assert(s.drop_first()[j] == s[j + 1]);
                }
            } else {
                assert(kept[i] == rest[i]);
                let j = choose|j: int|
                    0 <= j < s.drop_first().len() && rest[i] == s.drop_first()[j];
                assert(s.drop_first()[j] == s[j + 1]);
            }
        }
    }
}

/// Removing one record keeps identities unique, bounded and small.
proof fn lemma_remove_keeps_ship_wf(ships: Seq<ShipRecord>, k: int, bound: u64)
    requires
        0 <= k < ships.len(),
        forall|i: int, j: int|
            0 <= i < j < ships.len() ==> (#[trigger] ships[i]).id != (#[trigger] ships[j]).id,
        forall|i: int| 0 <= i < ships.len() ==> (#[trigger] ships[i]).id < bound,
        forall|i: int| 0 <= i < ships.len() ==> (#[trigger] ships[i]).hold.demands@.len() <= 64,
    ensures
        forall|i: int, j: int|
            0 <= i < j < ships.remove(k).len() ==> (#[trigger] ships.remove(k)[i]).id != (
            #[trigger] ships.remove(k)[j]).id,
        forall|i: int| 0 <= i < ships.remove(k).len() ==> (#[trigger] ships.remove(k)[i]).id < bound,
        forall|i: int|
            0 <= i < ships.remove(k).len() ==> (#[trigger] ships.remove(k)[i]).hold.demands@.len()
                <= 64,
{
    let r = ships.remove(k);
    assert forall|i: int| 0 <= i < r.len() implies (#[trigger] r[i]).id < bound
        && r[i].hold.demands@.len() <= 64 by {
        if i < k {
            assert(r[i] == ships[i]);
        } else {
            assert(r[i] == ships[i + 1]);
        }
    }
    assert forall|i: int, j: int| 0 <= i < j < r.len() implies (#[trigger] r[i]).id != (
    #[trigger] r[j]).id by {
        let oi = if i < k { i } else { i + 1 };
        let oj = if j < k { j } else { j + 1 };
        assert(r[i] == ships[oi]);
        assert(r[j] == ships[oj]);
    }
}

} // verus!
