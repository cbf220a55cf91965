use dockside::factory::{
    Factory, FactoryDropOutcome, PRODUCTION_DURATION_MS, add_item_to_factory, new_timer,
};
use dockside::events::OnDropInFactoryInput;
use dockside::kinds::BoxType;
use dockside::recipes::Recipes;
use dockside::sim::GameSim;

#[test]
fn drop_fills_first_empty_slot() {
    let mut factory = Factory::default();
    factory.drop(BoxType::Glassware);
    assert_eq!(factory.inputs, [Some(BoxType::Glassware), None]);
    assert!(!factory.has_completed_recipe());
    factory.drop(BoxType::Wheat);
    assert_eq!(factory.inputs, [Some(BoxType::Glassware), Some(BoxType::Wheat)]);
    assert!(factory.has_completed_recipe());
    factory.reset();
    assert_eq!(factory.inputs, [None, None]);
}

#[test]
fn conservation_inputs_cleared_after_pair() {
    let recipes = Recipes::default();
    let mut factory = Factory::default();
    // a matching pair
    add_item_to_factory(&mut factory, &recipes, BoxType::Glassware);
    assert_eq!(factory.inputs, [Some(BoxType::Glassware), None]);
    add_item_to_factory(&mut factory, &recipes, BoxType::Wheat);
    assert_eq!(factory.inputs, [None, None]);
    // a non-matching pair is also cleared
    add_item_to_factory(&mut factory, &recipes, BoxType::Grapes);
    add_item_to_factory(&mut factory, &recipes, BoxType::Wheat);
    assert_eq!(factory.inputs, [None, None]);
}

#[test]
fn no_recipe_pair_is_discarded_not_queued() {
    let recipes = Recipes::default();
    let mut factory = Factory::default();
    add_item_to_factory(&mut factory, &recipes, BoxType::Grapes);
    let outcome = add_item_to_factory(&mut factory, &recipes, BoxType::Wheat);
    assert_eq!(
        outcome,
        FactoryDropOutcome::Rejected(BoxType::Grapes, BoxType::Wheat)
    );
    assert_eq!(factory.output_queue.len(), 0);
}

#[test]
fn matching_pair_queues_output() {
    let recipes = Recipes::default();
    let mut factory = Factory::default();
    add_item_to_factory(&mut factory, &recipes, BoxType::Glassware);
    let outcome = add_item_to_factory(&mut factory, &recipes, BoxType::Honey);
    assert_eq!(outcome, FactoryDropOutcome::Queued(BoxType::Mead));
    assert_eq!(factory.output_queue, vec![BoxType::Mead]);
}

#[test]
fn production_timer_duration() {
    let timer = new_timer();
    assert_eq!(timer.duration_ms, PRODUCTION_DURATION_MS);
    assert_eq!(timer.elapsed_ms, 0);
    assert!(!timer.finished());
}

#[test]
fn scenario_a_glassware_then_wheat_produces_beer() {
    let mut sim = GameSim::new();
    // empty factory receives glassware then wheat: recipe match
    sim.add_item_to_factory(OnDropInFactoryInput { box_type: BoxType::Glassware });
    let outcome = sim.add_item_to_factory(OnDropInFactoryInput { box_type: BoxType::Wheat });
    assert_eq!(outcome, FactoryDropOutcome::Queued(BoxType::Beer));
    assert_eq!(sim.factory.output_queue, vec![BoxType::Beer]);

    // production starts, and after the timer duration the crate appears
    let started = sim.start_factory_production();
    assert!(started.is_some());
    assert_eq!(started.unwrap().box_type, BoxType::Beer);

    let finished = sim.finish_factory_production(PRODUCTION_DURATION_MS);
    assert!(finished.is_some());
    assert_eq!(finished.unwrap().box_type, BoxType::Beer);
    assert_eq!(sim.factory.output_queue.len(), 0);
    assert!(!sim.factory.is_producing);
}

#[test]
fn factory_fifo_beer_then_wine() {
    let mut sim = GameSim::new();
    // queue [Beer, Wine]
    sim.add_item_to_factory(OnDropInFactoryInput { box_type: BoxType::Glassware });
    sim.add_item_to_factory(OnDropInFactoryInput { box_type: BoxType::Wheat });
    sim.add_item_to_factory(OnDropInFactoryInput { box_type: BoxType::Glassware });
    sim.add_item_to_factory(OnDropInFactoryInput { box_type: BoxType::Grapes });
    assert_eq!(sim.factory.output_queue, vec![BoxType::Beer, BoxType::Wine]);

    // one full timer duration emits only the head: the beer
    let started = sim.start_factory_production().unwrap();
    assert_eq!(started.box_type, BoxType::Beer);
    let finished = sim.finish_factory_production(PRODUCTION_DURATION_MS).unwrap();
    assert_eq!(finished.box_type, BoxType::Beer);

    // the wine is still queued, and the timer restarts for it
    assert_eq!(sim.factory.output_queue, vec![BoxType::Wine]);
    let restarted = sim.start_factory_production().unwrap();
    assert_eq!(restarted.box_type, BoxType::Wine);
    assert_eq!(sim.production_timer.unwrap().elapsed_ms, 0);
}

#[test]
fn inputs_accepted_while_producing() {
    let mut sim = GameSim::new();
    sim.add_item_to_factory(OnDropInFactoryInput { box_type: BoxType::Glassware });
    sim.add_item_to_factory(OnDropInFactoryInput { box_type: BoxType::Wheat });
    sim.start_factory_production();
    // the factory keeps collecting while the beer is in production
    sim.add_item_to_factory(OnDropInFactoryInput { box_type: BoxType::Glassware });
    let outcome = sim.add_item_to_factory(OnDropInFactoryInput { box_type: BoxType::Apples });
    assert_eq!(outcome, FactoryDropOutcome::Queued(BoxType::Cider));
    assert_eq!(sim.factory.output_queue, vec![BoxType::Beer, BoxType::Cider]);
}

#[test]
fn production_waits_for_full_duration() {
    let mut sim = GameSim::new();
    sim.add_item_to_factory(OnDropInFactoryInput { box_type: BoxType::Glassware });
    sim.add_item_to_factory(OnDropInFactoryInput { box_type: BoxType::Wheat });
    sim.start_factory_production();
    assert!(sim.finish_factory_production(PRODUCTION_DURATION_MS / 2).is_none());
    assert!(sim
        .finish_factory_production(PRODUCTION_DURATION_MS - PRODUCTION_DURATION_MS / 2)
        .is_some());
}
