use alchimera::{
    alchemy::{AlchemyExperiment, AlchemyExperimentRule, AlchemyExperimentStatus, AlchemyKnowledge},
    ids::{ItemId, MaterialId},
    inventory::ItemStack,
    material::{AlchemyTrait, MaterialDefinition},
};

fn material(id: &str, traits: Vec<AlchemyTrait>) -> MaterialDefinition {
    MaterialDefinition::new(id, id, traits).expect("valid material")
}

fn item_id(value: &str) -> ItemId {
    ItemId::new(value).expect("valid item id")
}

#[test]
fn inspecting_material_discovers_trait() {
    let moss = material("moss", vec![AlchemyTrait::Growth, AlchemyTrait::Cold]);
    let mut knowledge = AlchemyKnowledge::default();

    let discovery = knowledge.inspect_material(&moss);

    assert_eq!(discovery.material_id(), moss.id());
    assert_eq!(discovery.discovered_traits(), &[AlchemyTrait::Growth, AlchemyTrait::Cold]);
    assert!(knowledge.has_discovered_trait(moss.id(), AlchemyTrait::Growth));
    assert!(knowledge.has_discovered_trait(moss.id(), AlchemyTrait::Cold));
}

#[test]
fn combining_compatible_traits_produces_reagent() {
    let ember = material("embercap", vec![AlchemyTrait::Heat]);
    let crystal = material("sky_crystal", vec![AlchemyTrait::Conductive]);
    let reagent = item_id("charged_ember_dust");
    let experiment = AlchemyExperiment::new(vec![AlchemyExperimentRule::new(
        AlchemyTrait::Heat,
        AlchemyTrait::Conductive,
        ItemStack::new(reagent.clone(), 2),
    )]);

    let result = experiment.combine(&ember, &crystal);

    assert_eq!(result.status(), AlchemyExperimentStatus::Success);
    assert_eq!(result.output(), Some(&ItemStack::new(reagent, 2)));
    assert_eq!(result.matched_traits(), Some((AlchemyTrait::Heat, AlchemyTrait::Conductive)));
}

#[test]
fn unknown_combination_returns_failed_experiment_result() {
    let stone = material("river_stone", vec![AlchemyTrait::Stability]);
    let frost = material("frost_leaf", vec![AlchemyTrait::Cold]);
    let experiment = AlchemyExperiment::new(vec![AlchemyExperimentRule::new(
        AlchemyTrait::Heat,
        AlchemyTrait::Conductive,
        ItemStack::new(item_id("charged_ember_dust"), 1),
    )]);

    let result = experiment.combine(&stone, &frost);

    assert_eq!(result.status(), AlchemyExperimentStatus::Failed);
    assert_eq!(result.output(), None);
    assert_eq!(result.matched_traits(), None);
}

#[test]
fn rule_matches_traits_in_either_order() {
    let ember = material("embercap", vec![AlchemyTrait::Heat]);
    let crystal = material("sky_crystal", vec![AlchemyTrait::Conductive]);
    let experiment = AlchemyExperiment::new(vec![AlchemyExperimentRule::new(
        AlchemyTrait::Heat,
        AlchemyTrait::Conductive,
        ItemStack::new(item_id("charged_ember_dust"), 2),
    )]);

    let forward = experiment.combine(&ember, &crystal);
    let backward = experiment.combine(&crystal, &ember);

    assert_eq!(forward.status(), AlchemyExperimentStatus::Success);
    assert_eq!(backward.status(), AlchemyExperimentStatus::Success);
    assert_eq!(backward.matched_traits(), Some((AlchemyTrait::Conductive, AlchemyTrait::Heat)));
}

#[test]
fn first_matching_pair_and_first_rule_win() {
    let first = material("mix_a", vec![AlchemyTrait::Cold, AlchemyTrait::Heat]);
    let second = material("mix_b", vec![AlchemyTrait::Growth, AlchemyTrait::Volatility]);
    let experiment = AlchemyExperiment::new(vec![
        AlchemyExperimentRule::new(AlchemyTrait::Heat, AlchemyTrait::Growth, ItemStack::new(item_id("ash"), 1)),
        AlchemyExperimentRule::new(AlchemyTrait::Cold, AlchemyTrait::Volatility, ItemStack::new(item_id("frost_bomb"), 3)),
        AlchemyExperimentRule::new(AlchemyTrait::Volatility, AlchemyTrait::Cold, ItemStack::new(item_id("ice"), 5)),
    ]);

    let result = experiment.combine(&first, &second);

    assert_eq!(result.matched_traits(), Some((AlchemyTrait::Cold, AlchemyTrait::Volatility)));
    assert_eq!(result.output(), Some(&ItemStack::new(item_id("frost_bomb"), 3)));
}

#[test]
fn reinspecting_material_replaces_its_discovery() {
    let mut knowledge = AlchemyKnowledge::default();
    knowledge.inspect_material(&material("moss", vec![AlchemyTrait::Growth]));
    knowledge.inspect_material(&material("ember", vec![AlchemyTrait::Heat]));
    knowledge.inspect_material(&material("moss", vec![AlchemyTrait::Cold]));

    let moss = MaterialId::new("moss").unwrap();
    let ember = MaterialId::new("ember").unwrap();
    assert_eq!(knowledge.discoveries().len(), 2);
    assert!(!knowledge.has_discovered_trait(&moss, AlchemyTrait::Growth));
    assert!(knowledge.has_discovered_trait(&moss, AlchemyTrait::Cold));
    assert!(knowledge.has_discovered_trait(&ember, AlchemyTrait::Heat));
    assert!(!knowledge.has_discovered_trait(&MaterialId::new("unknown").unwrap(), AlchemyTrait::Heat));
}
