use dockside::carts::Cart;
use dockside::dragging::DraggingBox;
use dockside::kinds::BoxType;
use dockside::market::Market;

#[test]
fn dragging_takes_a_crate_off_a_cart_slot() {
    let mut cart = Cart { front: Some(BoxType::Glassware), back: Some(BoxType::Honey) };
    let mut dragging = DraggingBox::default();
    assert!(dragging.box_type.is_none());

    dragging.start_dragging_from_cart(&mut cart, true);
    assert_eq!(dragging.box_type, Some(BoxType::Glassware));
    assert!(dragging.is_front_slot);
    assert_eq!(cart.front, None);
    assert_eq!(cart.back, Some(BoxType::Honey));

    // releasing empties the hand and hands the kind to the router
    assert_eq!(dragging.handle_drop(), Some(BoxType::Glassware));
    assert!(dragging.box_type.is_none());

    dragging.start_dragging_from_cart(&mut cart, false);
    assert_eq!(dragging.box_type, Some(BoxType::Honey));
    assert!(!dragging.is_front_slot);
}

#[test]
fn dragging_from_an_empty_slot_leaves_the_hand_empty() {
    let mut cart = Cart { front: None, back: Some(BoxType::Wheat) };
    let mut dragging = DraggingBox::default();
    dragging.start_dragging_from_cart(&mut cart, true);
    assert!(dragging.box_type.is_none());
    assert_eq!(dragging.handle_drop(), None);
}

#[test]
fn dragging_a_loose_crate() {
    let mut dragging = DraggingBox::default();
    dragging.start_dragging_crate(BoxType::Beer);
    assert_eq!(dragging.box_type, Some(BoxType::Beer));
    assert_eq!(dragging.handle_drop(), Some(BoxType::Beer));
}

#[test]
fn sale_value_sums_current_prices() {
    let market = Market::default();
    // fruit's price starts pinned at its starting price
    let crates = vec![BoxType::Fruit, BoxType::Fruit];
    assert_eq!(market.sale_value(&crates), 7000);
    // a kind the market does not trade fetches nothing
    let crates = vec![BoxType::Fruit, BoxType::Glassware];
    assert_eq!(market.sale_value(&crates), 3500);
    assert_eq!(market.sale_value(&vec![]), 0);
}

#[test]
fn sale_value_matches_listed_prices() {
    let market = Market::default();
    let iron = market.get_price(BoxType::Iron).unwrap();
    let rum = market.get_price(BoxType::Rum).unwrap();
    let crates = vec![BoxType::Iron, BoxType::Rum, BoxType::Iron];
    assert_eq!(market.sale_value(&crates), 2 * iron + rum);
}
