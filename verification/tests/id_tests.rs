use alchimera::{
    ids::{IdError, ItemId, MaterialId, ObjectId, PrototypeId},
    seed::WorldSeed,
};

#[test]
fn id_prototype_id_rejects_empty_string() {
    assert!(PrototypeId::new("").is_err());
    assert!(PrototypeId::new("   ").is_err());
}

#[test]
fn id_material_id_preserves_namespaced_value() {
    let id = MaterialId::new("wood.oak").expect("valid material id");

    assert_eq!(id.as_str(), "wood.oak");
    assert_eq!(id.to_string(), "wood.oak");
}

#[test]
fn id_object_id_is_stable_from_seed_chunk_and_index() {
    let seed = WorldSeed::new(42);

    let first = ObjectId::from_seed_chunk_and_index(seed, [3, -7], 11);
    let second = ObjectId::from_seed_chunk_and_index(seed, [3, -7], 11);
    let different_index = ObjectId::from_seed_chunk_and_index(seed, [3, -7], 12);

    assert_eq!(first, second);
    assert_ne!(first, different_index);
}

#[test]
fn id_rejects_unicode_whitespace_only() {
    assert_eq!(ItemId::new("\u{3000}\u{a0}\n"), Err(IdError::Empty { kind: "ItemId" }));
    assert!(ItemId::new(" x ").is_ok());
}

#[test]
fn object_id_is_the_object_instance_child_seed() {
    let seed = WorldSeed::new(42);

    let id = ObjectId::from_seed_chunk_and_index(seed, [3, -7], 11);

    assert_eq!(id.as_u64(), seed.derive_child("object.instance", &[3, -7], 11).as_u64());
}
