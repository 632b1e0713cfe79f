use alchimera::crafting::CraftingError;
use alchimera::error::ValidationError;
use alchimera::ids::{IdError, ItemId, ObjectId, PrototypeId};
use alchimera::inventory::InventoryError;
use alchimera::item::ItemDefinitionError;
use alchimera::material::MaterialDefinitionError;
use alchimera::save::SaveError;
use alchimera::seed::WorldSeed;

#[test]
fn id_error_names_the_id_kind() {
    let error = PrototypeId::new("  ").unwrap_err();
    assert_eq!(error.to_string(), "PrototypeId cannot be empty");
    assert_eq!(ItemId::new("").unwrap_err().to_string(), "ItemId cannot be empty");
}

#[test]
fn object_id_displays_as_sixteen_hex_digits() {
    let id = ObjectId::from_seed_chunk_and_index(WorldSeed::new(0x1A7E), [3, -2], 9);
    assert_eq!(id.to_string(), format!("object.{:016x}", id.as_u64()));
    assert_eq!(id.to_string().len(), "object.".len() + 16);
}

#[test]
fn inventory_error_messages() {
    assert_eq!(InventoryError::InvalidStackLimit.to_string(), "stack_limit must be greater than zero");
    assert_eq!(
        InventoryError::InsufficientQuantity { available: 3, requested: 12 }.to_string(),
        "insufficient quantity: available 3, requested 12"
    );
}

#[test]
fn crafting_error_messages() {
    assert_eq!(CraftingError::InvalidQuantity.to_string(), "recipe quantities must be greater than zero");
    assert_eq!(
        CraftingError::MissingInput { input_index: 1, required: 20, available: 0 }.to_string(),
        "missing recipe input 1: required 20, available 0"
    );
    assert_eq!(
        CraftingError::InvalidRecipeId(IdError::Empty { kind: "RecipeId" }).to_string(),
        "invalid recipe id: RecipeId cannot be empty"
    );
}

#[test]
fn definition_error_messages() {
    assert_eq!(ItemDefinitionError::InvalidStackLimit.to_string(), "item stack_limit must be greater than zero");
    assert_eq!(
        ItemDefinitionError::InvalidId(IdError::Empty { kind: "ItemId" }).to_string(),
        "invalid item id: ItemId cannot be empty"
    );
    assert_eq!(
        MaterialDefinitionError::InvalidId(IdError::Empty { kind: "MaterialId" }).to_string(),
        "invalid material id: MaterialId cannot be empty"
    );
    assert_eq!(
        MaterialDefinitionError::NumericOutOfRange { field: "hardness" }.to_string(),
        "material field hardness is out of range"
    );
}

#[test]
fn validation_and_save_error_messages() {
    assert_eq!(
        ValidationError::DuplicateId { id: "item.stone".to_string(), context: "item definitions".to_string() }.to_string(),
        "duplicate id item.stone in item definitions"
    );
    assert_eq!(
        ValidationError::MissingReference { id: "material.copper".to_string(), context: "item.pickaxe.material".to_string() }
            .to_string(),
        "missing reference material.copper in item.pickaxe.material"
    );
    assert_eq!(
        SaveError::UnsupportedVersion { found: 99, supported: 1 }.to_string(),
        "unsupported save version 99; supported version is 1"
    );
}
