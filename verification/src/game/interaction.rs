//! Interaction targeting: which world object the player currently aims at.

use vstd::prelude::*;

use bevy::ecs::entity::Entity;

use crate::ids::ObjectId;

verus! {

/// A world entity, carried through as an opaque handle.
#[verifier::external_type_specification]
#[verifier::external_body]
pub struct ExEntity(Entity);

/// Raycast result emitted by the input/camera layer for interaction targeting.
#[derive(Debug, Clone, Copy, PartialEq, Eq)]
pub enum InteractionRaycast {
    Hit(Entity),
    Miss,
}

/// Current object selected as the interaction target.
#[derive(Debug, Clone, Copy, PartialEq, Eq)]
pub struct InteractionTarget {
    pub entity: Entity,
    pub object_id: ObjectId,
}

/// The current interaction target, if any.
#[derive(Debug, Clone, Copy, PartialEq, Eq)]
pub struct CurrentInteractionTarget {
    target: Option<InteractionTarget>,
}

impl Default for CurrentInteractionTarget {
    fn default() -> (r: Self)
        ensures
            r.target_view() is None,
    {
        CurrentInteractionTarget { target: None }
    }
}

impl CurrentInteractionTarget {
    /// The current target.
    pub closed spec fn target_view(self) -> Option<InteractionTarget> {
        self.target
    }

    pub fn target(self) -> (r: Option<InteractionTarget>)
        ensures
            r == self.target_view(),
    {
        self.target
    }

    pub fn entity(&self) -> (r: Option<Entity>)
        ensures
            r == match self.target_view() {
                Some(target) => Some(target.entity),
                None => None::<Entity>,
            },
    {
        match self.target {
            Some(target) => Some(target.entity),
            None => None,
        }
    }

    pub fn object_id(&self) -> (r: Option<ObjectId>)
        ensures
            r == match self.target_view() {
                Some(target) => Some(target.object_id),
                None => None::<ObjectId>,
            },
    {
        match self.target {
            Some(target) => Some(target.object_id),
            None => None,
        }
    }
}

/// Applies one raycast result. A hit on an entity that is a world object (whose id
/// is `hit_object`) targets it; a hit on anything else, or a miss, clears the target.
pub fn update_interaction_target(current: &mut CurrentInteractionTarget, event: InteractionRaycast, hit_object: Option<ObjectId>)
    ensures
        final(current).target_view() == match event {
            InteractionRaycast::Hit(entity) => match hit_object {
                Some(object_id) => Some(InteractionTarget { entity, object_id }),
                None => None::<InteractionTarget>,
            },
            InteractionRaycast::Miss => None::<InteractionTarget>,
        },
{
    current.target = match event {
        InteractionRaycast::Hit(entity) => match hit_object {
            Some(object_id) => Some(InteractionTarget { entity, object_id }),
            None => None,
        },
        InteractionRaycast::Miss => None,
    };
}

} // verus!
