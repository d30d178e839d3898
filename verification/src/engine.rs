//! What the rules take on trust from the game engine `bevy` and from its
//! physics plugin `bevy_xpbd_2d`. Nothing in this file is proved.

use crate::input::{ActionButton, SteeringKey};
use bevy::ecs::entity::Entity;
use bevy::input::keyboard::KeyCode;
use bevy::input::mouse::MouseButton;
use bevy::input::ButtonInput;
use bevy_xpbd_2d::plugins::collision::Collisions;
use std::hash::Hash;
use vstd::prelude::*;

verus! {

/// `bevy::ecs::entity::Entity`, the engine's handle for one game object.
///
/// The rules never look inside an entity: they receive it from the engine
/// and hand it back unchanged, so nothing is claimed about its contents.
#[verifier::external_type_specification]
#[verifier::external_body]
pub struct ExEntity(bevy::ecs::entity::Entity);

/// `bevy::input::keyboard::KeyCode`, the engine's name for a key.
#[verifier::external_type_specification]
#[verifier::external_body]
pub struct ExKeyCode(bevy::input::keyboard::KeyCode);

/// `bevy::input::mouse::MouseButton`, the engine's name for a mouse button.
#[verifier::external_type_specification]
#[verifier::external_body]
pub struct ExMouseButton(bevy::input::mouse::MouseButton);

/// `bevy::input::ButtonInput`, the engine's record of the buttons of one
/// kind: which are down, and which went down or up in this frame.
#[verifier::external_type_specification]
#[verifier::external_body]
#[verifier::reject_recursive_types(T)]
pub struct ExButtonInput<T: Copy + Eq + Hash + Send + Sync + 'static>(bevy::input::ButtonInput<T>);

/// The steering keys that `keys` records as down.
pub uninterp spec fn pressed_keys(keys: ButtonInput<KeyCode>) -> Set<SteeringKey>;

/// The action buttons that `mouse` records as having gone down in this
/// frame.
pub uninterp spec fn just_pressed_buttons(mouse: ButtonInput<MouseButton>) -> Set<ActionButton>;

/// Whether a steering key is down.
///
/// Calls `ButtonInput::pressed` with the engine's code for `key`, which
/// looks the code up among the keys that are down.
#[verifier::external_body]
pub(crate) fn pressed(keys: &ButtonInput<KeyCode>, key: SteeringKey) -> (down: bool)
    ensures
        down == pressed_keys(*keys).contains(key),
{
    keys.pressed(
        match key {
            SteeringKey::KeyW => KeyCode::KeyW,
            SteeringKey::ArrowUp => KeyCode::ArrowUp,
            SteeringKey::KeyS => KeyCode::KeyS,
            SteeringKey::ArrowDown => KeyCode::ArrowDown,
            SteeringKey::KeyA => KeyCode::KeyA,
            SteeringKey::ArrowLeft => KeyCode::ArrowLeft,
            SteeringKey::KeyD => KeyCode::KeyD,
            SteeringKey::ArrowRight => KeyCode::ArrowRight,
        },
    )
}

/// Whether an action button went down in this frame.
///
/// Calls `ButtonInput::just_pressed` with the engine's code for `button`,
/// which looks the code up among the buttons that have just gone down.
#[verifier::external_body]
pub(crate) fn just_pressed(mouse: &ButtonInput<MouseButton>, button: ActionButton) -> (down: bool)
    ensures
        down == just_pressed_buttons(*mouse).contains(button),
{
    mouse.just_pressed(
        match button {
            ActionButton::Left => MouseButton::Left,
            ActionButton::Right => MouseButton::Right,
        },
    )
}

/// `bevy_xpbd_2d::plugins::collision::Collisions`, the physics plugin's
/// table of the collisions of a frame: one entry for a pair of entities.
#[verifier::external_type_specification]
#[verifier::external_body]
pub struct ExCollisions(bevy_xpbd_2d::plugins::collision::Collisions);

/// The pairs of entities that `collisions` has an entry for, each pair as
/// its entry names it: first entity, second entity.
pub uninterp spec fn collision_pairs(collisions: Collisions) -> Set<(Entity, Entity)>;

/// `pairs` without the entry for `pair`: without `pair` itself where it is
/// there, and else without `pair` turned round.
pub open spec fn without_pair(pairs: Set<(Entity, Entity)>, pair: (Entity, Entity)) -> Set<
    (Entity, Entity),
> {
    if pairs.contains(pair) {
        pairs.remove(pair)
    } else {
        pairs.remove((pair.1, pair.0))
    }
}

/// Drops the collision between two entities from the table.
///
/// Calls `Collisions::remove_collision_pair`, which removes the entry made
/// for `(entity1, entity2)` and, only if there was none, the entry made for
/// `(entity2, entity1)`. It leaves every other entry in the table. The
/// contacts that it returns are dropped.
#[verifier::external_body]
pub(crate) fn remove_collision_pair(collisions: &mut Collisions, entity1: Entity, entity2: Entity)
    ensures
        collision_pairs(*final(collisions)) == without_pair(
            collision_pairs(*old(collisions)),
            (entity1, entity2),
        ),
{
    collisions.remove_collision_pair(entity1, entity2);
}

} // verus!
