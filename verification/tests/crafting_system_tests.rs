use alchimera::{
    crafting::{CraftingError, Recipe, RecipeInput},
    game::{
        crafting::{
            apply_craft_recipe, available_ingredients, craft_runs_check, CraftRecipe, HandCraftingFailure, HandCraftingFailures,
            ItemCraftingDefinition, ItemCraftingDefinitions,
        },
        harvesting::PlayerInventory,
    },
    ids::ItemId,
    item::MaterialClass,
};

fn item_id(value: &str) -> ItemId {
    ItemId::new(value).unwrap()
}

fn register_item(definitions: &mut ItemCraftingDefinitions, item_id: ItemId, material_class: MaterialClass, stack_limit: u16) {
    definitions.insert(ItemCraftingDefinition::new(item_id, material_class, stack_limit));
}

#[test]
fn craft_event_consumes_inventory_inputs() {
    let wood = item_id("alchimera:wood");
    let stone_axe = item_id("alchimera:stone_axe");
    let recipe = Recipe::new("alchimera:stone_axe", vec![RecipeInput::exact_item(wood.clone(), 2)], stone_axe.clone(), 1)
        .unwrap();
    let mut definitions = ItemCraftingDefinitions::default();
    let mut inventory = PlayerInventory::default();
    let mut failures = HandCraftingFailures::default();
    register_item(&mut definitions, wood.clone(), MaterialClass::Wood, 64);
    register_item(&mut definitions, stone_axe, MaterialClass::Stone, 1);
    inventory.add_items(wood.clone(), 3, 64);

    let event = CraftRecipe::new(recipe);
    apply_craft_recipe(event.recipe(), &definitions, &mut inventory, &mut failures);

    assert_eq!(inventory.total_quantity(&wood), 1);
}

#[test]
fn craft_event_adds_output_item() {
    let wood = item_id("alchimera:wood");
    let stone_axe = item_id("alchimera:stone_axe");
    let recipe = Recipe::new(
        "alchimera:stone_axe",
        vec![RecipeInput::material_class(MaterialClass::Wood, 2)],
        stone_axe.clone(),
        1,
    )
    .unwrap();
    let mut definitions = ItemCraftingDefinitions::default();
    let mut inventory = PlayerInventory::default();
    let mut failures = HandCraftingFailures::default();
    register_item(&mut definitions, wood.clone(), MaterialClass::Wood, 64);
    register_item(&mut definitions, stone_axe.clone(), MaterialClass::Stone, 1);
    inventory.add_items(wood, 2, 64);

    apply_craft_recipe(&recipe, &definitions, &mut inventory, &mut failures);

    assert_eq!(inventory.total_quantity(&stone_axe), 1);
    assert!(failures.is_empty());
}

#[test]
fn craft_event_fails_without_required_inputs() {
    let wood = item_id("alchimera:wood");
    let stone_axe = item_id("alchimera:stone_axe");
    let recipe = Recipe::new("alchimera:stone_axe", vec![RecipeInput::exact_item(wood, 2)], stone_axe, 1).unwrap();
    let definitions = ItemCraftingDefinitions::default();
    let mut inventory = PlayerInventory::default();
    let mut failures = HandCraftingFailures::default();

    apply_craft_recipe(&recipe, &definitions, &mut inventory, &mut failures);

    assert_eq!(failures.len(), 1);
    assert_eq!(
        failures.failures()[0],
        HandCraftingFailure::Crafting(CraftingError::MissingInput { input_index: 0, required: 2, available: 0 })
    );
}

#[test]
fn stack_without_definition_is_reported() {
    let herb = item_id("alchimera:herb");
    let definitions = ItemCraftingDefinitions::default();
    let mut inventory = PlayerInventory::with_slot_count(2);
    let mut failures = HandCraftingFailures::default();
    inventory.add_items(herb.clone(), 1, 8);

    assert!(available_ingredients(&inventory, &definitions, &mut failures).is_none());
    assert_eq!(failures.failures(), &[HandCraftingFailure::MissingItemDefinition(herb)]);
}

#[test]
fn full_inventory_reports_output_overflow() {
    let wood = item_id("alchimera:wood");
    let plank = item_id("alchimera:plank");
    let stone = item_id("alchimera:stone");
    let recipe = Recipe::new("alchimera:plank", vec![RecipeInput::exact_item(wood.clone(), 1)], plank.clone(), 5).unwrap();
    let mut definitions = ItemCraftingDefinitions::default();
    register_item(&mut definitions, wood.clone(), MaterialClass::Wood, 64);
    register_item(&mut definitions, plank.clone(), MaterialClass::Wood, 3);
    register_item(&mut definitions, stone.clone(), MaterialClass::Stone, 64);
    let mut inventory = PlayerInventory::with_slot_count(2);
    let mut failures = HandCraftingFailures::default();
    inventory.add_items(wood.clone(), 2, 64);
    inventory.add_items(stone, 1, 64);

    apply_craft_recipe(&recipe, &definitions, &mut inventory, &mut failures);

    assert_eq!(inventory.total_quantity(&wood), 1);
    assert_eq!(inventory.total_quantity(&plank), 0);
    assert_eq!(failures.failures(), &[HandCraftingFailure::InventoryFull { item_id: plank, overflow: 5 }]);
}

#[test]
fn definitions_insert_replaces_and_get_finds() {
    let wood = item_id("alchimera:wood");
    let mut definitions = ItemCraftingDefinitions::default();
    register_item(&mut definitions, wood.clone(), MaterialClass::Wood, 64);
    register_item(&mut definitions, wood.clone(), MaterialClass::Plant, 16);

    let found = definitions.get(&wood).unwrap();
    assert_eq!(found.material_class(), MaterialClass::Plant);
    assert_eq!(found.stack_limit(), 16);
    assert!(definitions.get(&item_id("alchimera:none")).is_none());
}

#[test]
fn craft_runs_check_accepts_ordinary_crafts_and_refuses_zero_output_limit() {
    let wood = item_id("alchimera:wood");
    let plank = item_id("alchimera:plank");
    let recipe = Recipe::new("alchimera:plank", vec![RecipeInput::exact_item(wood.clone(), 1)], plank.clone(), 2).unwrap();
    let mut definitions = ItemCraftingDefinitions::default();
    let mut inventory = PlayerInventory::default();
    register_item(&mut definitions, wood.clone(), MaterialClass::Wood, 64);
    inventory.add_items(wood.clone(), 5, 64);

    // No definition for the output yet: the craft runs and records the gap.
    assert!(craft_runs_check(&recipe, &definitions, &inventory));
    register_item(&mut definitions, plank.clone(), MaterialClass::Wood, 0);
    assert!(!craft_runs_check(&recipe, &definitions, &inventory));
    register_item(&mut definitions, plank, MaterialClass::Wood, 16);
    assert!(craft_runs_check(&recipe, &definitions, &inventory));
}
