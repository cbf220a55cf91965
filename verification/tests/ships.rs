use dockside::events::{OnLaunchShip, OnShipArrivedAtDestination};
use dockside::kinds::BoxType;
use dockside::router::ContactTarget;
use dockside::scheduler::SpawnShipRequest;
use dockside::score::{CRATE_PENALTY, CRATE_REWARD, UNMET_DEMAND_PENALTY};
use dockside::sim::{ArrivalOutcome, GameSim, RouteOutcome};
use dockside::slots::ShipSlotType;

/// Puts a docked ship with the given demands into the first free slot.
fn dock_ship(sim: &mut GameSim, demands: Vec<BoxType>) -> (usize, u64) {
    sim.spawn_requests.push(SpawnShipRequest { demands, expiry_ms: u64::MAX });
    let idx = sim.spawn_requests.len() - 1;
    let (slot, ship) = sim.ship_spawn_handler(idx).expect("a slot should be free");
    assert_eq!(sim.ship_despawn(OnShipArrivedAtDestination(ship)), ArrivalOutcome::Docked(slot));
    (slot, ship)
}

#[test]
fn ships_dock_in_first_free_slot_order() {
    let mut sim = GameSim::new();
    let (slot_a, ship_a) = dock_ship(&mut sim, vec![BoxType::Rum]);
    let (slot_b, ship_b) = dock_ship(&mut sim, vec![BoxType::Iron]);
    let (slot_c, ship_c) = dock_ship(&mut sim, vec![BoxType::Fruit]);
    assert_eq!((slot_a, slot_b, slot_c), (0, 1, 2));
    assert_eq!(sim.slots.slots[0], ShipSlotType::Occupied(ship_a));
    assert_eq!(sim.slots.slots[1], ShipSlotType::Occupied(ship_b));
    assert_eq!(sim.slots.slots[2], ShipSlotType::Occupied(ship_c));
}

#[test]
fn freed_slot_is_reused_first() {
    let mut sim = GameSim::new();
    let (slot_a, _ship_a) = dock_ship(&mut sim, vec![BoxType::Rum]);
    dock_ship(&mut sim, vec![BoxType::Iron]);
    // slot 0 frees on launch and, being the lowest empty index, is the
    // next one an arriving ship gets
    sim.trigger_launch(&vec![OnLaunchShip { slot_id: slot_a }]);
    let (slot_d, _ship_d) = dock_ship(&mut sim, vec![BoxType::Fruit]);
    assert_eq!(slot_d, slot_a);
}

#[test]
fn spawn_deferred_when_no_slot_free() {
    let mut sim = GameSim::new();
    dock_ship(&mut sim, vec![BoxType::Rum]);
    dock_ship(&mut sim, vec![BoxType::Rum]);
    dock_ship(&mut sim, vec![BoxType::Rum]);
    // a fourth request finds no free slot and stays pending
    sim.spawn_requests.push(SpawnShipRequest { demands: vec![BoxType::Iron], expiry_ms: u64::MAX });
    assert!(sim.ship_spawn_handler(0).is_none());
    assert_eq!(sim.spawn_requests.len(), 1);
}

#[test]
fn arriving_ship_occupies_slot_only_after_travel() {
    let mut sim = GameSim::new();
    sim.spawn_requests.push(SpawnShipRequest { demands: vec![BoxType::Rum], expiry_ms: u64::MAX });
    let (slot, ship) = sim.ship_spawn_handler(0).unwrap();
    assert_eq!(sim.slots.slots[slot], ShipSlotType::Arriving(ship));
    assert_eq!(sim.ship_despawn(OnShipArrivedAtDestination(ship)), ArrivalOutcome::Docked(slot));
    assert_eq!(sim.slots.slots[slot], ShipSlotType::Occupied(ship));
}

#[test]
fn scenario_b_fruit_then_rum_nets_plus_five() {
    let mut sim = GameSim::new();
    let (_slot, ship) = dock_ship(&mut sim, vec![BoxType::Rum]);

    // a fruit crate lands on the ship: not demanded
    let outcome = sim.detect_crate_drop_on_ship(BoxType::Fruit, &vec![ContactTarget::Ship(ship)]);
    let evt = match outcome {
        RouteOutcome::Delivered(evt) => evt,
        _ => panic!("crate should be delivered"),
    };
    assert!(!evt.was_demanded);
    sim.score_update(&vec![evt]);
    assert_eq!(sim.score.0, -CRATE_PENALTY);

    // a rum crate lands: demanded
    let outcome = sim.detect_crate_drop_on_ship(BoxType::Rum, &vec![ContactTarget::Ship(ship)]);
    let evt = match outcome {
        RouteOutcome::Delivered(evt) => evt,
        _ => panic!("crate should be delivered"),
    };
    assert!(evt.was_demanded);
    sim.score_update(&vec![evt]);
    assert_eq!(sim.score.0, CRATE_REWARD - CRATE_PENALTY);
}

#[test]
fn scenario_c_launch_with_unmet_iron_demand() {
    let mut sim = GameSim::new();
    let (slot, ship) = dock_ship(&mut sim, vec![BoxType::Iron]);

    let launched = sim.trigger_launch(&vec![OnLaunchShip { slot_id: slot }]);
    assert_eq!(launched, vec![ship]);
    // the departure penalty lands once, and the slot frees immediately
    assert_eq!(sim.score.0, -UNMET_DEMAND_PENALTY);
    assert_eq!(sim.slots.slots[slot], ShipSlotType::Empty);
    // the ship is still in the world, sailing away without its markers
    let record = sim.ships.iter().find(|r| r.id == ship).unwrap();
    assert!(record.departing);
    assert!(!record.demand_markers);
    // reaching open water despawns it
    assert_eq!(sim.ship_despawn(OnShipArrivedAtDestination(ship)), ArrivalOutcome::Despawned);
    assert!(sim.ships.iter().all(|r| r.id != ship));
}

#[test]
fn double_launch_in_one_frame_penalises_once() {
    let mut sim = GameSim::new();
    let (slot, ship) = dock_ship(&mut sim, vec![BoxType::Iron, BoxType::Rum]);

    let events = vec![OnLaunchShip { slot_id: slot }, OnLaunchShip { slot_id: slot }];
    let launched = sim.trigger_launch(&events);
    assert_eq!(launched, vec![ship]);
    assert_eq!(sim.score.0, -2 * UNMET_DEMAND_PENALTY);
}

#[test]
fn launch_of_empty_slot_is_ignored() {
    let mut sim = GameSim::new();
    let launched = sim.trigger_launch(&vec![OnLaunchShip { slot_id: 1 }]);
    assert!(launched.is_empty());
    assert_eq!(sim.score.0, 0);
    // a stale slot index is ignored too
    let launched = sim.trigger_launch(&vec![OnLaunchShip { slot_id: 99 }]);
    assert!(launched.is_empty());
}

#[test]
fn router_priority_factory_then_splash_then_ship() {
    let mut sim = GameSim::new();
    let (_slot, ship) = dock_ship(&mut sim, vec![BoxType::Mead]);

    // the factory input wins over everything
    let targets = vec![
        ContactTarget::Ship(ship),
        ContactTarget::SplashCatcher,
        ContactTarget::FactoryInput,
    ];
    assert!(matches!(
        sim.detect_crate_drop_on_ship(BoxType::Glassware, &targets),
        RouteOutcome::ToFactory(_)
    ));

    // the splash catcher beats a ship
    let targets = vec![ContactTarget::Ship(ship), ContactTarget::SplashCatcher];
    assert!(matches!(
        sim.detect_crate_drop_on_ship(BoxType::Mead, &targets),
        RouteOutcome::Splashed(_)
    ));
    // the splash was a pure loss: nothing was delivered
    assert!(sim.ships[0].hold.crates.is_empty());

    // no usable target leaves the crate in flight
    assert!(matches!(
        sim.detect_crate_drop_on_ship(BoxType::Mead, &vec![]),
        RouteOutcome::InFlight
    ));
}

#[test]
fn stale_ship_contact_is_dropped_silently() {
    let mut sim = GameSim::new();
    let outcome = sim.detect_crate_drop_on_ship(BoxType::Mead, &vec![ContactTarget::Ship(4242)]);
    assert!(matches!(outcome, RouteOutcome::InFlight));
    // an unknown ship's travel-completion signal is ignored too
    assert_eq!(sim.ship_despawn(OnShipArrivedAtDestination(4242)), ArrivalOutcome::Ignored);
}

#[test]
fn reset_clears_playthrough_but_keeps_market() {
    let mut sim = GameSim::new();
    let (slot, _ship) = dock_ship(&mut sim, vec![BoxType::Iron]);
    sim.trigger_launch(&vec![OnLaunchShip { slot_id: slot }]);
    assert!(sim.score.0 < 0);
    let market_before: Vec<i64> = sim.market.market.iter().map(|e| e.1.current_price).collect();

    sim.reset();
    assert_eq!(sim.score.0, 0);
    assert!(!sim.game_over);
    assert!(sim.ships.is_empty());
    assert!(sim.spawn_requests.is_empty());
    assert!(sim.factory.output_queue.is_empty());
    let market_after: Vec<i64> = sim.market.market.iter().map(|e| e.1.current_price).collect();
    assert_eq!(market_before, market_after);
}
