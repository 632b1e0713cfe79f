use alchimera::{
    crafting::{AvailableIngredient, CraftingError, Recipe, RecipeInput},
    ids::{IdError, ItemId},
    item::MaterialClass,
};

fn item_id(value: &str) -> ItemId {
    ItemId::new(value).expect("valid item id")
}

fn ingredient(item: &str, class: MaterialClass, quantity: u16) -> AvailableIngredient {
    AvailableIngredient::new(item_id(item), class, quantity)
}

#[test]
fn recipe_matches_exact_item_inputs() {
    let recipe = Recipe::new(
        "tool.torch",
        vec![RecipeInput::exact_item(item_id("item.stick"), 2)],
        item_id("item.torch"),
        4,
    )
    .expect("valid recipe");
    let available = [ingredient("item.stick", MaterialClass::Wood, 3)];

    let plan = recipe.match_inputs(&available).expect("recipe should match");

    assert_eq!(plan.output().item_id(), &item_id("item.torch"));
    assert_eq!(plan.output().quantity(), 4);
    assert_eq!(plan.consumed()[0].item_id(), &item_id("item.stick"));
    assert_eq!(plan.consumed()[0].quantity(), 2);
}

#[test]
fn recipe_matches_material_class_inputs() {
    let recipe = Recipe::new(
        "tool.stone_axe",
        vec![
            RecipeInput::material_class(MaterialClass::Stone, 1),
            RecipeInput::material_class(MaterialClass::Wood, 1),
            RecipeInput::material_class(MaterialClass::Fiber, 1),
        ],
        item_id("item.stone_axe"),
        1,
    )
    .expect("valid recipe");
    let available = [
        ingredient("item.flint", MaterialClass::Stone, 1),
        ingredient("item.branch", MaterialClass::Wood, 2),
        ingredient("item.vine", MaterialClass::Fiber, 3),
    ];

    let plan = recipe.match_inputs(&available).expect("recipe should match");

    assert_eq!(plan.consumed().len(), 3);
    assert_eq!(plan.consumed()[0].item_id(), &item_id("item.flint"));
    assert_eq!(plan.output().item_id(), &item_id("item.stone_axe"));
}

#[test]
fn recipe_rejects_missing_required_input() {
    let recipe = Recipe::new(
        "tool.stone_axe",
        vec![
            RecipeInput::material_class(MaterialClass::Stone, 2),
            RecipeInput::material_class(MaterialClass::Wood, 1),
        ],
        item_id("item.stone_axe"),
        1,
    )
    .expect("valid recipe");
    let available = [ingredient("item.flint", MaterialClass::Stone, 1)];

    assert_eq!(
        recipe.match_inputs(&available),
        Err(CraftingError::MissingInput { input_index: 0, required: 2, available: 1 })
    );
}

#[test]
fn crafting_consumes_inputs_and_returns_output_plan() {
    let recipe = Recipe::new(
        "tool.stone_axe",
        vec![
            RecipeInput::material_class(MaterialClass::Stone, 1),
            RecipeInput::exact_item(item_id("item.handle"), 1),
        ],
        item_id("item.stone_axe"),
        1,
    )
    .expect("valid recipe");
    let available = [
        ingredient("item.flint", MaterialClass::Stone, 3),
        ingredient("item.handle", MaterialClass::Wood, 1),
    ];

    let plan = recipe.match_inputs(&available).expect("recipe should match");

    assert_eq!(plan.consumed().len(), 2);
    assert_eq!(plan.consumed()[0].item_id(), &item_id("item.flint"));
    assert_eq!(plan.consumed()[0].quantity(), 1);
    assert_eq!(plan.consumed()[1].item_id(), &item_id("item.handle"));
    assert_eq!(plan.consumed()[1].quantity(), 1);
    assert_eq!(plan.output().item_id(), &item_id("item.stone_axe"));
    assert_eq!(plan.output().quantity(), 1);
}

#[test]
fn recipe_rejects_zero_output_quantity_before_checking_id() {
    assert_eq!(
        Recipe::new("  ", vec![], item_id("item.torch"), 0),
        Err(CraftingError::InvalidQuantity)
    );
}

#[test]
fn recipe_rejects_blank_id() {
    assert_eq!(
        Recipe::new(" \t", vec![], item_id("item.torch"), 1),
        Err(CraftingError::InvalidRecipeId(IdError::Empty { kind: "RecipeId" }))
    );
}

#[test]
fn later_inputs_claim_what_earlier_inputs_left() {
    let recipe = Recipe::new(
        "tool.double",
        vec![
            RecipeInput::material_class(MaterialClass::Wood, 3),
            RecipeInput::exact_item(item_id("item.branch"), 2),
        ],
        item_id("item.double"),
        1,
    )
    .unwrap();
    let available = [
        ingredient("item.branch", MaterialClass::Wood, 2),
        ingredient("item.log", MaterialClass::Wood, 2),
    ];

    assert_eq!(
        recipe.match_inputs(&available),
        Err(CraftingError::MissingInput { input_index: 1, required: 2, available: 0 })
    );
}

#[test]
fn input_draws_from_several_ingredients_in_order() {
    let recipe = Recipe::new(
        "tool.bundle",
        vec![RecipeInput::material_class(MaterialClass::Wood, 5)],
        item_id("item.bundle"),
        1,
    )
    .unwrap();
    let available = [
        ingredient("item.branch", MaterialClass::Wood, 2),
        ingredient("item.flint", MaterialClass::Stone, 9),
        ingredient("item.log", MaterialClass::Wood, 4),
    ];

    let plan = recipe.match_inputs(&available).unwrap();

    assert_eq!(plan.consumed().len(), 2);
    assert_eq!(plan.consumed()[0].item_id(), &item_id("item.branch"));
    assert_eq!(plan.consumed()[0].quantity(), 2);
    assert_eq!(plan.consumed()[1].item_id(), &item_id("item.log"));
    assert_eq!(plan.consumed()[1].quantity(), 3);
}

#[test]
fn availability_sums_beyond_u16_are_reported_as_none() {
    let recipe = Recipe::new(
        "tool.plank",
        vec![RecipeInput::material_class(MaterialClass::Wood, 65_000)],
        item_id("item.plank"),
        1,
    )
    .expect("valid recipe");
    let available = [
        ingredient("item.oak", MaterialClass::Wood, 40_000),
        ingredient("item.pine", MaterialClass::Wood, 40_000),
    ];
    assert!(recipe.plan_checked(&available).is_none());

    let fits = [
        ingredient("item.oak", MaterialClass::Wood, 40_000),
        ingredient("item.pine", MaterialClass::Wood, 25_000),
    ];
    let plan = recipe.plan_checked(&fits).expect("sums fit").expect("input satisfied");
    assert_eq!(plan.consumed()[0].quantity(), 40_000);
    assert_eq!(plan.consumed()[1].quantity(), 25_000);
}
