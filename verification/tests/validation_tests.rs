use alchimera::{
    error::ValidationError,
    validation::{ensure_reference_exists, ensure_unique_ids},
};

#[test]
fn duplicate_ids_are_rejected() {
    let ids = ["item.stone", "item.branch", "item.stone"];

    assert_eq!(
        ensure_unique_ids(&ids, "item definitions"),
        Err(ValidationError::DuplicateId { id: "item.stone".to_string(), context: "item definitions".to_string() })
    );
}

#[test]
fn missing_reference_is_reported_with_context() {
    let known_materials = ["material.oak", "material.flint"];

    assert_eq!(
        ensure_reference_exists("material.copper", &known_materials, "item.pickaxe.material"),
        Err(ValidationError::MissingReference {
            id: "material.copper".to_string(),
            context: "item.pickaxe.material".to_string(),
        })
    );
}

#[test]
fn distinct_ids_and_known_references_pass() {
    assert_eq!(ensure_unique_ids(&["a", "b", "c"], "ctx"), Ok(()));
    assert_eq!(ensure_reference_exists("b", &["a", "b"], "ctx"), Ok(()));
}

#[test]
fn first_repeated_id_is_reported() {
    assert_eq!(
        ensure_unique_ids(&["a", "b", "b", "a"], "ctx"),
        Err(ValidationError::DuplicateId { id: "b".to_string(), context: "ctx".to_string() })
    );
}
