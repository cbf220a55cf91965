use dockside::kinds::BoxType;
use dockside::recipes::{RecipeInputs, Recipes};

#[test]
fn lookup_glassware_wheat_is_beer() {
    let recipes = Recipes::default();
    assert_eq!(
        recipes.get_output(&[Some(BoxType::Glassware), Some(BoxType::Wheat)]),
        Some(BoxType::Beer)
    );
}

#[test]
fn lookup_all_default_recipes() {
    let recipes = Recipes::default();
    assert_eq!(
        recipes.get_output(&[Some(BoxType::Glassware), Some(BoxType::Grapes)]),
        Some(BoxType::Wine)
    );
    assert_eq!(
        recipes.get_output(&[Some(BoxType::Glassware), Some(BoxType::Apples)]),
        Some(BoxType::Cider)
    );
    assert_eq!(
        recipes.get_output(&[Some(BoxType::Glassware), Some(BoxType::Honey)]),
        Some(BoxType::Mead)
    );
}

#[test]
fn lookup_is_symmetric() {
    let recipes = Recipes::default();
    let kinds = [
        BoxType::Glassware,
        BoxType::Grapes,
        BoxType::Apples,
        BoxType::Wheat,
        BoxType::Honey,
        BoxType::Beer,
    ];
    for a in kinds {
        for b in kinds {
            assert_eq!(
                recipes.get_output(&[Some(a), Some(b)]),
                recipes.get_output(&[Some(b), Some(a)])
            );
        }
    }
}

#[test]
fn lookup_missing_input_is_none() {
    let recipes = Recipes::default();
    assert_eq!(recipes.get_output(&[Some(BoxType::Glassware), None]), None);
    assert_eq!(recipes.get_output(&[None, Some(BoxType::Wheat)]), None);
    assert_eq!(recipes.get_output(&[None, None]), None);
}

#[test]
fn lookup_no_recipe_is_none() {
    let recipes = Recipes::default();
    assert_eq!(
        recipes.get_output(&[Some(BoxType::Grapes), Some(BoxType::Wheat)]),
        None
    );
    assert_eq!(
        recipes.get_output(&[Some(BoxType::Beer), Some(BoxType::Beer)]),
        None
    );
}

#[test]
fn recipe_inputs_unordered_equality() {
    let a = RecipeInputs(BoxType::Glassware, BoxType::Wheat);
    let b = RecipeInputs(BoxType::Wheat, BoxType::Glassware);
    assert_eq!(a, b);
    let c = RecipeInputs(BoxType::Glassware, BoxType::Grapes);
    assert!(a != c);
}

#[test]
fn from_inputs_needs_both_slots() {
    assert!(RecipeInputs::from_inputs(&[Some(BoxType::Honey), None]).is_none());
    assert!(RecipeInputs::from_inputs(&[None, Some(BoxType::Honey)]).is_none());
    let pair = RecipeInputs::from_inputs(&[Some(BoxType::Honey), Some(BoxType::Glassware)]);
    assert!(pair.is_some());
}
