use dockside::events::OnDropCrateOnShip;
use dockside::hold::{DEFAULT_VOLUME_CAPACITY, DEFAULT_WEIGHT_CAPACITY, ShipHold};
use dockside::kinds::BoxType;
use dockside::score::{
    CRATE_PENALTY, CRATE_REWARD, Score, UNMET_DEMAND_PENALTY, penalise_unmet_demands, score_update,
};

#[test]
fn unmet_demands_are_a_multiset_difference() {
    // demands [Apples, Apples, Grapes], delivered [Apples]
    let hold = ShipHold {
        crates: vec![BoxType::Apples],
        demands: vec![BoxType::Apples, BoxType::Apples, BoxType::Grapes],
        weight_capacity: DEFAULT_WEIGHT_CAPACITY,
        volume_capacity: DEFAULT_VOLUME_CAPACITY,
    };
    assert_eq!(hold.get_unmet_demands(), vec![BoxType::Apples, BoxType::Grapes]);
}

#[test]
fn second_duplicate_delivery_is_still_demanded() {
    let mut hold = ShipHold::new(vec![BoxType::Apples, BoxType::Apples, BoxType::Grapes]);
    assert!(hold.receive_crate(BoxType::Apples));
    // one apple delivered; the duplicated demand still wants another
    assert!(hold.receive_crate(BoxType::Apples));
    // both apple demands met now
    assert!(!hold.receive_crate(BoxType::Apples));
    assert_eq!(hold.get_unmet_demands(), vec![BoxType::Grapes]);
}

#[test]
fn undemanded_kind_is_accepted_but_not_demanded() {
    let mut hold = ShipHold::new(vec![BoxType::Rum]);
    assert!(!hold.receive_crate(BoxType::Fruit));
    // acceptance is unconditional: the crate is in the hold anyway
    assert_eq!(hold.crates, vec![BoxType::Fruit]);
    assert_eq!(hold.get_unmet_demands(), vec![BoxType::Rum]);
}

#[test]
fn capacity_overflow_is_allowed() {
    let mut hold = ShipHold::new(vec![]);
    for _ in 0..10 {
        assert!(!hold.receive_crate(BoxType::Iron));
    }
    assert_eq!(hold.crates.len(), 10);
}

#[test]
fn score_update_applies_reward_and_penalty() {
    let mut score = Score::default();
    let deliveries = vec![
        OnDropCrateOnShip { ship_entity: 1, box_type: BoxType::Rum, was_demanded: true },
        OnDropCrateOnShip { ship_entity: 1, box_type: BoxType::Fruit, was_demanded: false },
    ];
    let (coins, game_over) = score_update(&mut score, &deliveries);
    assert_eq!(score.0, CRATE_REWARD - CRATE_PENALTY);
    assert_eq!(coins.len(), 1);
    assert!(!game_over);
}

#[test]
fn score_below_zero_is_game_over() {
    let mut score = Score::default();
    let deliveries = vec![OnDropCrateOnShip {
        ship_entity: 1,
        box_type: BoxType::Fruit,
        was_demanded: false,
    }];
    let (_, game_over) = score_update(&mut score, &deliveries);
    assert_eq!(score.0, -CRATE_PENALTY);
    assert!(game_over);
}

#[test]
fn zero_score_is_not_game_over() {
    let mut score = Score::default();
    let (_, game_over) = score_update(&mut score, &vec![]);
    assert_eq!(score.0, 0);
    assert!(!game_over);
}

#[test]
fn launch_penalty_counts_unmet_demands() {
    let mut score = Score(100);
    let hold = ShipHold {
        crates: vec![BoxType::Apples],
        demands: vec![BoxType::Apples, BoxType::Iron, BoxType::Rum],
        weight_capacity: DEFAULT_WEIGHT_CAPACITY,
        volume_capacity: DEFAULT_VOLUME_CAPACITY,
    };
    let (penalty, game_over) = penalise_unmet_demands(&mut score, &hold);
    assert_eq!(penalty, 2 * UNMET_DEMAND_PENALTY);
    assert_eq!(score.0, 100 - 80);
    assert!(!game_over);
}

#[test]
fn launch_penalty_of_satisfied_ship_is_zero() {
    let mut score = Score(7);
    let hold = ShipHold {
        crates: vec![BoxType::Rum],
        demands: vec![BoxType::Rum],
        weight_capacity: DEFAULT_WEIGHT_CAPACITY,
        volume_capacity: DEFAULT_VOLUME_CAPACITY,
    };
    let (penalty, _) = penalise_unmet_demands(&mut score, &hold);
    assert_eq!(penalty, 0);
    assert_eq!(score.0, 7);
}

#[test]
fn hold_totals_sum_the_loaded_crates() {
    let mut hold = ShipHold::new(vec![]);
    assert_eq!(hold.hold_totals(), (0, 0));
    hold.receive_crate(BoxType::Iron); // weight 20, volume 5
    hold.receive_crate(BoxType::Wheat); // weight 3, volume 8
    assert_eq!(hold.current_weight(), 23);
    assert_eq!(hold.current_volume(), 13);
    assert_eq!(hold.over_capacity(), (false, false));
}

#[test]
fn overfull_hold_is_flagged_not_rejected() {
    let mut hold = ShipHold::new(vec![]);
    for _ in 0..4 {
        hold.receive_crate(BoxType::Iron); // 4 x weight 20 > 60
    }
    assert_eq!(hold.crates.len(), 4);
    let (over_weight, over_volume) = hold.over_capacity();
    assert!(over_weight);
    assert!(!over_volume); // 4 x volume 5 = 20 fits
}
