use dockside::carts::{CART_SPAWN_DELAY_MS, CartSpawningState};
use dockside::kinds::{BoxType, box_demands};
use dockside::market::{ACCELERATION_LIMIT, MARKET_UPDATE_FREQUENCY_MS, Market, MarketPrice};
use dockside::rng::RandomSpawnTimer;
use dockside::scheduler::{MAX_SPAWN_REQUESTS, SpawnShipRequest};
use dockside::sim::GameSim;
use dockside::timer::CountDownTimer;

#[test]
fn market_default_trades_the_four_commodities() {
    let market = Market::default();
    let kinds: Vec<BoxType> = market.market.iter().map(|e| e.0).collect();
    assert_eq!(
        kinds,
        vec![BoxType::MedicalSupplies, BoxType::Fruit, BoxType::Iron, BoxType::Rum]
    );
    // fruit's first sale is kept safe: price at its starting price, no momentum
    assert_eq!(market.get_price(BoxType::Fruit), Some(3500));
    assert_eq!(market.market[1].1.price_acceleration, 0);
    // kinds the market does not trade have no price
    assert_eq!(market.get_price(BoxType::Apples), None);
}

#[test]
fn market_prices_stay_within_bounds() {
    let mut rng = rand::thread_rng();
    let mut market = Market::default();
    let starting: Vec<i64> = market.market.iter().map(|e| e.1.starting_price).collect();
    for _ in 0..200 {
        market.market_movement(&mut rng);
        for (i, entry) in market.market.iter().enumerate() {
            let sp = starting[i];
            assert!(entry.1.current_price >= 2 * sp / 5);
            assert!(entry.1.current_price <= 7 * sp / 5);
            assert!(entry.1.price_acceleration >= -ACCELERATION_LIMIT);
            assert!(entry.1.price_acceleration <= ACCELERATION_LIMIT);
        }
    }
}

#[test]
fn market_price_update_is_the_clamped_walk() {
    let mut price = MarketPrice {
        current_price: 1390,
        price_acceleration: 50,
        volatility: 5,
        starting_price: 1000,
    };
    // 1390 + 50 exceeds the ceiling of 7 * 1000 / 5 = 1400: it clamps
    price.update_with(3);
    assert_eq!(price.current_price, 1400);
    assert_eq!(price.price_acceleration, 53);

    let mut price = MarketPrice {
        current_price: 410,
        price_acceleration: -99,
        volatility: 5,
        starting_price: 1000,
    };
    // 410 - 99 falls below the floor of 2 * 1000 / 5 = 400: it clamps,
    // and the acceleration clamps at -100
    price.update_with(-5);
    assert_eq!(price.current_price, 400);
    assert_eq!(price.price_acceleration, -100);
}

#[test]
fn market_ticks_on_its_interval_not_every_frame() {
    let mut rng = rand::thread_rng();
    let mut sim = GameSim::new();
    assert!(sim.market_movement(0, &mut rng));
    assert_eq!(sim.next_market_update_ms, MARKET_UPDATE_FREQUENCY_MS);
    // too early: no movement
    assert!(!sim.market_movement(MARKET_UPDATE_FREQUENCY_MS - 1, &mut rng));
    assert!(sim.market_movement(MARKET_UPDATE_FREQUENCY_MS, &mut rng));
}

#[test]
fn spawn_timer_fires_after_deadline_with_gap_in_range() {
    let mut rng = rand::thread_rng();
    let mut timer = RandomSpawnTimer::default();
    assert!(!timer.tick(&mut rng, 4000));
    assert!(timer.tick(&mut rng, 6000));
    let gap = timer.next_spawn_ms - 6000;
    assert!((timer.spawn_min_ms..timer.spawn_max_ms).contains(&gap));
}

#[test]
fn queued_request_draws_demands_from_the_pool() {
    let mut rng = rand::thread_rng();
    let mut sim = GameSim::new();
    let pool = box_demands();
    let mut now: u64 = 6000;
    let mut queued = 0;
    while queued == 0 && now < 2_000_000 {
        if sim.ship_queuing_system(now, &mut rng) {
            queued += 1;
        }
        now += 1000;
    }
    assert_eq!(queued, 1);
    let req = sim.spawn_requests.last().unwrap();
    assert!((1..=3).contains(&req.demands.len()));
    for d in &req.demands {
        assert!(pool.contains(d));
    }
    // the request expires one minimum gap after the frame that queued it
    assert_eq!(req.expiry_ms, now - 1000 + sim.spawn_timer.spawn_min_ms);
}

#[test]
fn scheduler_suspends_at_the_request_cap() {
    let mut rng = rand::thread_rng();
    let mut sim = GameSim::new();
    for _ in 0..MAX_SPAWN_REQUESTS {
        sim.spawn_requests.push(SpawnShipRequest { demands: vec![BoxType::Rum], expiry_ms: 1 });
    }
    let timer_before = sim.spawn_timer.next_spawn_ms;
    for now in (6000..60000).step_by(1000) {
        assert!(!sim.ship_queuing_system(now, &mut rng));
    }
    // at the cap the timer is not even advanced
    assert_eq!(sim.spawn_timer.next_spawn_ms, timer_before);
    assert_eq!(sim.spawn_requests.len(), MAX_SPAWN_REQUESTS);
}

#[test]
fn spawn_gap_narrows_toward_its_floor() {
    let mut rng = rand::thread_rng();
    let mut sim = GameSim::new();
    assert_eq!(sim.spawn_timer.spawn_min_ms, 15000);
    let mut now: u64 = 1000;
    for _ in 0..500 {
        sim.ship_queuing_system(now, &mut rng);
        // keep the queue from hitting the cap
        sim.spawn_requests.clear();
        now += 1000;
    }
    assert_eq!(sim.spawn_timer.spawn_min_ms, 8000);
    assert!(sim.spawn_timer.spawn_max_ms >= 9000);
    assert!(sim.spawn_timer.spawn_min_ms < sim.spawn_timer.spawn_max_ms);
}

#[test]
fn expired_requests_are_discarded_without_penalty() {
    let mut sim = GameSim::new();
    sim.spawn_requests.push(SpawnShipRequest { demands: vec![BoxType::Rum], expiry_ms: 5000 });
    sim.spawn_requests.push(SpawnShipRequest { demands: vec![BoxType::Iron], expiry_ms: 9000 });
    sim.ship_request_expiry_system(5000);
    assert_eq!(sim.spawn_requests.len(), 1);
    assert_eq!(sim.spawn_requests[0].demands, vec![BoxType::Iron]);
    assert_eq!(sim.score.0, 0);
}

#[test]
fn carts_spawn_from_queued_requests() {
    let mut state = CartSpawningState::default();
    state.queue_crate(BoxType::Glassware);
    assert!(state.cart_spawning_system(CART_SPAWN_DELAY_MS).is_none());
    state.queue_crate(BoxType::Wheat);
    let mut cart = state
        .cart_spawning_system(CART_SPAWN_DELAY_MS)
        .expect("two queued crates make a cart");
    assert_eq!(cart.front, Some(BoxType::Glassware));
    assert_eq!(cart.back, Some(BoxType::Wheat));
    assert_eq!(state.active_carts, 1);
    assert!(state.items.is_empty());

    // dragging takes a crate out of its slot once
    assert_eq!(cart.take_crate(true), Some(BoxType::Glassware));
    assert_eq!(cart.take_crate(true), None);
    assert_eq!(cart.take_crate(false), Some(BoxType::Wheat));

    state.cart_departed();
    assert_eq!(state.active_carts, 0);
}

#[test]
fn cart_spawning_respects_the_delay() {
    let mut state = CartSpawningState::default();
    state.queue_crate(BoxType::Apples);
    state.queue_crate(BoxType::Honey);
    state.cart_spawning_system(CART_SPAWN_DELAY_MS).unwrap();
    state.queue_crate(BoxType::Apples);
    state.queue_crate(BoxType::Honey);
    // too soon after the last spawn
    assert!(state.cart_spawning_system(CART_SPAWN_DELAY_MS + 1).is_none());
    assert!(state.cart_spawning_system(2 * CART_SPAWN_DELAY_MS).is_some());
}

#[test]
fn countdown_timer_finishes_exactly_once() {
    let mut timer = CountDownTimer::new(5000);
    assert!(!timer.tick(2000));
    assert!(!timer.tick(2000));
    assert!(timer.tick(1000));
    assert!(timer.finished());
    // already finished: no second completion
    assert!(!timer.tick(1000));
}

#[test]
fn demand_pool_has_sixteen_weighted_entries() {
    let pool = box_demands();
    assert_eq!(pool.len(), 16);
    assert_eq!(pool.iter().filter(|k| **k == BoxType::Beer).count(), 3);
    assert_eq!(pool.iter().filter(|k| **k == BoxType::Apples).count(), 1);
    assert!(!pool.contains(&BoxType::Glassware));
}
