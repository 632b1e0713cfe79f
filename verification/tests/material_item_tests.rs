use alchimera::{
    ids::IdError,
    item::{ItemDefinition, ItemDefinitionError, MaterialClass},
    material::{AlchemyTrait, MaterialDefinition, MaterialDefinitionError},
};

#[test]
fn material_can_store_alchemy_traits() {
    let material = MaterialDefinition::new("wood.oak", "Oak Wood", vec![AlchemyTrait::Growth, AlchemyTrait::Heat])
        .expect("valid material");

    assert_eq!(material.traits(), &[AlchemyTrait::Growth, AlchemyTrait::Heat]);
}

#[test]
fn item_definition_references_material_class() {
    let item = ItemDefinition::new("item.log", "Log", MaterialClass::Wood, 64).expect("valid item");

    assert_eq!(item.material_class(), MaterialClass::Wood);
    assert_eq!(item.stack_limit(), 64);
}

#[test]
fn item_definition_rejects_zero_stack_limit_first() {
    assert_eq!(ItemDefinition::new("", "Log", MaterialClass::Wood, 0), Err(ItemDefinitionError::InvalidStackLimit));
    assert_eq!(
        ItemDefinition::new(" ", "Log", MaterialClass::Wood, 1),
        Err(ItemDefinitionError::InvalidId(IdError::Empty { kind: "ItemId" }))
    );
}

#[test]
fn material_definition_rejects_blank_id() {
    assert_eq!(
        MaterialDefinition::new("", "Nothing", vec![]),
        Err(MaterialDefinitionError::InvalidId(IdError::Empty { kind: "MaterialId" }))
    );
}
