//! The action resolver: applies one atomic game action — wait, move, attack,
//! open a door — against the current world, mutating it on success only and
//! reporting whether the action applied.

use vstd::prelude::*;

use crate::direction::GridDirection;
use crate::model::CharacterType;
use crate::vector::{in_bounds, GridVector};
use crate::world::{
    door_match, first_char_from, first_door_from, lemma_first_door_from,
    lemma_wf_update, solid_at_seq, EntityKind, GameEntity, GridPosition, WorldModel,
};

verus! {

/// Cooldown added by a standard action, in tenths of a turn.
pub const TURN_COST: u64 = 10;

/// Cooldown added by walking one tile.
pub const WALK_COST: u64 = 10;

/// Cooldown added by running one tile: running is cheaper per tile.
pub const RUN_COST: u64 = 5;

/// How a character covers ground.
#[derive(Clone, Copy, Debug, Eq, PartialEq, Structural)]
pub enum MoveType {
    Walk,
    Run,
}

/// The cooldown cost of one tile under the given speed class.
pub open spec fn move_cost(move_type: MoveType) -> u64 {
    match move_type {
        MoveType::Walk => WALK_COST,
        MoveType::Run => RUN_COST,
    }
}

/// `e` with `amount` more cooldown.
pub open spec fn with_added_cooldown(e: GameEntity, amount: u64) -> GameEntity {
    GameEntity { cooldown: (e.cooldown + amount) as u64, ..e }
}

/// `e` moved to `c`, refaced along `d` if it had a facing, and charged the
/// given cost.
pub open spec fn moved_entity(e: GameEntity, c: GridVector, d: GridDirection, cost: u64) -> GameEntity {
    GameEntity {
        position: GridPosition {
            coordinates: c,
            direction: if e.position.direction is Some {
                Some(d)
            } else {
                e.position.direction
            },
        },
        cooldown: (e.cooldown + cost) as u64,
        ..e
    }
}

/// `e` destroyed.
pub open spec fn despawned_entity(e: GameEntity) -> GameEntity {
    GameEntity { alive: false, ..e }
}

/// `e` as an opened door: no longer closed, no longer solid.
pub open spec fn opened_door_entity(e: GameEntity) -> GameEntity {
    GameEntity { kind: EntityKind::Door(false), solid: false, ..e }
}

/// Whether `e` is a closed door.
pub open spec fn door_is_closed(e: GameEntity) -> bool {
    e.kind == EntityKind::Door(true)
}

/// Adds `amount` to an entity's cooldown.
fn update_cooldown(entity: usize, amount: u64, world: &mut WorldModel)
    requires
        entity < old(world).entities.len(),
        old(world).entities@[entity as int].cooldown + amount <= u64::MAX,
    ensures
        final(world).entities@ == old(world).entities@.update(
            entity as int,
            with_added_cooldown(old(world).entities@[entity as int], amount),
        ),
{
    let e = world.entity_at_mut(entity);
    e.cooldown = e.cooldown + amount;
}

/// Waiting always succeeds and costs one full turn.
pub fn wait(entity: usize, world: &mut WorldModel) -> (b: bool)
    requires
        old(world).wf(),
        old(world).is_actor(entity as int),
        old(world).entities@[entity as int].cooldown + TURN_COST <= u64::MAX,
    ensures
        final(world).wf(),
        b,
        final(world).entities@ == old(world).entities@.update(
            entity as int,
            with_added_cooldown(old(world).entities@[entity as int], TURN_COST),
        ),
{
    update_cooldown(entity, TURN_COST, world);
    proof {
        lemma_wf_update(
            old(world).entities@,
            entity as int,
            with_added_cooldown(old(world).entities@[entity as int], TURN_COST),
        );
    }
    true
}

/// Moving succeeds exactly when no solid entity occupies the target cell; on
/// success the actor stands there, is refaced if it had a facing, and pays
/// the speed class's cost; on failure the world is unchanged.
pub fn attempt_to_move(
    entity: usize,
    coordinates: GridVector,
    direction: GridDirection,
    move_type: MoveType,
    world: &mut WorldModel,
) -> (b: bool)
    requires
        old(world).wf(),
        old(world).is_actor(entity as int),
        in_bounds(coordinates),
        old(world).entities@[entity as int].cooldown + move_cost(move_type) <= u64::MAX,
    ensures
        final(world).wf(),
        b == !old(world).solid_at(coordinates),
        !b ==> final(world).entities@ == old(world).entities@,
        b ==> final(world).entities@ == old(world).entities@.update(
            entity as int,
            moved_entity(
                old(world).entities@[entity as int],
                coordinates,
                direction,
                move_cost(move_type),
            ),
        ),
{
    if crate::world::is_solids_at(coordinates, world) {
        return false;
    }
    let cost = match move_type {
        MoveType::Walk => WALK_COST,
        MoveType::Run => RUN_COST,
    };
    let e = world.entity_at_mut(entity);
    e.position.coordinates = coordinates;
    if e.position.direction.is_some() {
        e.position.direction = Some(direction);
    }
    e.cooldown = e.cooldown + cost;
    proof {
        lemma_wf_update(
            old(world).entities@,
            entity as int,
            moved_entity(
                old(world).entities@[entity as int],
                coordinates,
                direction,
                move_cost(move_type),
            ),
        );
    }
    true
}

/// Attacking succeeds exactly when a living character of the expected type
/// occupies the target cell; the lowest-id such character is destroyed
/// outright and the actor pays one turn.  The actor cannot be its own
/// target.
pub fn attempt_to_attack(
    entity: usize,
    coordinates: GridVector,
    character_type: CharacterType,
    world: &mut WorldModel,
) -> (b: bool)
    requires
        old(world).wf(),
        old(world).is_actor(entity as int),
        old(world).entities@[entity as int].cooldown + TURN_COST <= u64::MAX,
        first_char_from(old(world).entities@, character_type, coordinates, 0) != Some(
            entity as int,
        ),
    ensures
        final(world).wf(),
        b == (first_char_from(old(world).entities@, character_type, coordinates, 0) is Some),
        !b ==> final(world).entities@ == old(world).entities@,
        (first_char_from(old(world).entities@, character_type, coordinates, 0) matches Some(t)
            ==> final(world).entities@ == old(world).entities@.update(
            t,
            despawned_entity(old(world).entities@[t]),
        ).update(
            entity as int,
            with_added_cooldown(old(world).entities@[entity as int], TURN_COST),
        )),
{
    proof {
        crate::world::lemma_first_char_from(world.entities@, character_type, coordinates, 0);
    }
    let target = match crate::world::get_character_at(character_type, coordinates, world) {
        Some(t) => t,
        None => {
            return false;
        },
    };
    let e = world.entity_at_mut(target);
    e.alive = false;
    proof {
        lemma_wf_update(
            old(world).entities@,
            target as int,
            despawned_entity(old(world).entities@[target as int]),
        );
    }
    update_cooldown(entity, TURN_COST, world);
    proof {
        lemma_wf_update(
            old(world).entities@.update(
                target as int,
                despawned_entity(old(world).entities@[target as int]),
            ),
            entity as int,
            with_added_cooldown(old(world).entities@[entity as int], TURN_COST),
        );
    }
    true
}

/// Opening succeeds exactly when the lowest-id living door at the target
/// cell is closed; it becomes open and passable and the actor pays one turn;
/// on an open door or no door the world is unchanged.
pub fn attempt_to_open_door(entity: usize, coordinates: GridVector, world: &mut WorldModel) -> (b:
    bool)
    requires
        old(world).wf(),
        old(world).is_actor(entity as int),
        old(world).entities@[entity as int].cooldown + TURN_COST <= u64::MAX,
    ensures
        final(world).wf(),
        b == (first_door_from(old(world).entities@, coordinates, 0) matches Some(d)
            && door_is_closed(old(world).entities@[d])),
        !b ==> final(world).entities@ == old(world).entities@,
        (b ==> (first_door_from(old(world).entities@, coordinates, 0) matches Some(d)
            ==> final(world).entities@ == old(world).entities@.update(
            d,
            opened_door_entity(old(world).entities@[d]),
        ).update(
            entity as int,
            with_added_cooldown(old(world).entities@[entity as int], TURN_COST),
        ))),
{
    proof {
        crate::world::lemma_first_door_from(world.entities@, coordinates, 0);
    }
    let door = match crate::world::get_door_at(coordinates, world) {
        Some(d) => d,
        None => {
            return false;
        },
    };
    let closed = match world.entities[door].kind {
        EntityKind::Door(closed) => closed,
        _ => false,
    };
    if closed {
        let e = world.entity_at_mut(door);
        e.kind = EntityKind::Door(false);
        e.solid = false;
        proof {
            lemma_wf_update(
                old(world).entities@,
                door as int,
                opened_door_entity(old(world).entities@[door as int]),
            );
        }
        update_cooldown(entity, TURN_COST, world);
        proof {
            lemma_wf_update(
                old(world).entities@.update(
                    door as int,
                    opened_door_entity(old(world).entities@[door as int]),
                ),
                entity as int,
                with_added_cooldown(old(world).entities@[entity as int], TURN_COST),
            );
        }
        true
    } else {
        false
    }
}

/// Two tables whose entries agree on being a living door at `c` agree on
/// which entry is the first living door at `c`.
proof fn lemma_first_door_same(s1: Seq<GameEntity>, s2: Seq<GameEntity>, c: GridVector, i: int)
    requires
        s1.len() == s2.len(),
        forall|k: int| 0 <= k < s1.len() ==> door_match(#[trigger] s1[k], c) == door_match(s2[k], c),
    ensures
        first_door_from(s1, c, i) == first_door_from(s2, c, i),
    decreases s1.len() - i,
{
    if 0 <= i < s1.len() && !door_match(s1[i], c) {
        lemma_first_door_same(s1, s2, c, i + 1);
    } else if 0 <= i < s1.len() {
    } else {
    }
}

/// A door opens exactly once: in the world `attempt_to_open_door` produces
/// from a closed door, the same door is the first door of its cell but is
/// now open, so an immediate second attempt fails; and if that door was the
/// only solid in its cell, the cell no longer blocks movement.
pub proof fn lemma_door_opens_once(pre: Seq<GameEntity>, entity: int, c: GridVector)
    requires
        0 <= entity < pre.len(),
        pre[entity].kind is Character,
        first_door_from(pre, c, 0) matches Some(d) && door_is_closed(pre[d]),
        pre[entity].cooldown + TURN_COST <= u64::MAX,
    ensures
        (first_door_from(pre, c, 0) matches Some(d) ==> {
            let post = pre.update(d, opened_door_entity(pre[d])).update(
                entity,
                with_added_cooldown(pre[entity], TURN_COST),
            );
            &&& first_door_from(post, c, 0) == Some(d)
            &&& !(first_door_from(post, c, 0) matches Some(d2) && door_is_closed(post[d2]))
            &&& ((forall|i: int|
                0 <= i < pre.len() && (#[trigger] pre[i]).alive && pre[i].solid
                    && pre[i].position.coordinates == c ==> i == d) ==> !solid_at_seq(post, c))
        }),
{
    lemma_first_door_from(pre, c, 0);
    match first_door_from(pre, c, 0) {
        Some(d) => {
            let post = pre.update(d, opened_door_entity(pre[d])).update(
                entity,
                with_added_cooldown(pre[entity], TURN_COST),
            );
            assert(entity != d);
            assert forall|k: int| 0 <= k < pre.len() implies door_match(#[trigger] pre[k], c)
                == door_match(post[k], c) by {}
            lemma_first_door_same(pre, post, c, 0);
            if forall|i: int|
                0 <= i < pre.len() && (#[trigger] pre[i]).alive && pre[i].solid
                    && pre[i].position.coordinates == c ==> i == d {
                assert forall|i: int|
                    0 <= i < post.len() implies !((#[trigger] post[i]).alive && post[i].solid
                        && post[i].position.coordinates == c) by {
                    if i != d && i != entity {
                        assert(post[i] == pre[i]);
                    }
                }
            }
        },
        None => {},
    }
}

} // verus!
