use alchimera::game::interaction::{update_interaction_target, CurrentInteractionTarget, InteractionRaycast};
use alchimera::ids::ObjectId;
use alchimera::seed::WorldSeed;
use bevy::ecs::entity::Entity;

fn seed() -> WorldSeed {
    WorldSeed::new(0x1A7E)
}

#[test]
fn raycast_hit_updates_current_interaction_target() {
    let mut current = CurrentInteractionTarget::default();
    let object_id = ObjectId::from_seed_chunk_and_index(seed(), [0, 0], 0);
    let entity = Entity::from_raw(7);

    update_interaction_target(&mut current, InteractionRaycast::Hit(entity), Some(object_id));

    assert_eq!(current.entity(), Some(entity));
    assert_eq!(current.object_id(), Some(object_id));
}

#[test]
fn no_hit_clears_current_interaction_target() {
    let mut current = CurrentInteractionTarget::default();
    let object_id = ObjectId::from_seed_chunk_and_index(seed(), [1, 0], 0);
    let entity = Entity::from_raw(3);

    update_interaction_target(&mut current, InteractionRaycast::Hit(entity), Some(object_id));
    update_interaction_target(&mut current, InteractionRaycast::Miss, None);

    assert_eq!(current.entity(), None);
    assert_eq!(current.object_id(), None);
}

#[test]
fn hit_on_a_non_object_clears_the_target() {
    let mut current = CurrentInteractionTarget::default();
    let object_id = ObjectId::from_seed_chunk_and_index(seed(), [2, 2], 1);

    update_interaction_target(&mut current, InteractionRaycast::Hit(Entity::from_raw(1)), Some(object_id));
    update_interaction_target(&mut current, InteractionRaycast::Hit(Entity::from_raw(2)), None);

    assert_eq!(current.target(), None);
}
