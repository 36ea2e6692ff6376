//! Behavior selection: turns a discrete intent (the player's input, or the
//! AI's random choice) into resolved actions, trying attack, then door
//! opening, then movement, and using the first that succeeds.

use vstd::prelude::*;

use crate::actions::{
    attempt_to_attack, attempt_to_move, attempt_to_open_door, despawned_entity, door_is_closed,
    moved_entity, opened_door_entity, wait, with_added_cooldown, MoveType, RUN_COST, TURN_COST,
    WALK_COST,
};
use crate::direction::{lemma_all_directions_complete, GridDirection};
use crate::model::CharacterType;
use crate::random::RandomSource;
use crate::vector::{coordinate_in_bounds, in_bounds, lemma_direction_vector_nonzero, GridVector};
use crate::world::{
    first_char_from, first_door_from, get_character_at, is_static_solids_at,
    lemma_first_char_from, lemma_first_door_from, shifted_spec, solid_at_seq,
    static_solid_at_seq, EntityKind, GameEntity, WorldModel,
};

verus! {

broadcast use vstd::seq_lib::lemma_seq_contains_after_push;

/// A discrete input intent handed in by the input layer.
#[derive(Clone, Copy, Debug, Eq, PartialEq, Structural)]
pub enum PlayerAction {
    Wait,
    MoveAttack(GridDirection),
    Run(GridDirection),
}

/// Whether the attack → open-door → move chain toward `c` consumes a turn:
/// it does unless no target character stands there, no closed door stands
/// there, and the move itself is blocked or out of range.
pub open spec fn move_attack_succeeds(
    pre: Seq<GameEntity>,
    entity: int,
    c: GridVector,
    t: CharacterType,
) -> bool {
    ||| first_char_from(pre, t, c, 0) is Some
    ||| (first_door_from(pre, c, 0) matches Some(d) && door_is_closed(pre[d]))
    ||| (in_bounds(c) && !solid_at_seq(pre, c))
}

/// The world after resolving the attack → open-door → move chain from
/// `entity` toward `c` along `d`: the first applicable action decides.
pub open spec fn move_attack_post(
    pre: Seq<GameEntity>,
    post: Seq<GameEntity>,
    entity: int,
    c: GridVector,
    d: GridDirection,
    t: CharacterType,
) -> bool {
    match first_char_from(pre, t, c, 0) {
        Some(tg) => post == pre.update(tg, despawned_entity(pre[tg])).update(
            entity,
            with_added_cooldown(pre[entity], TURN_COST),
        ),
        None => match first_door_from(pre, c, 0) {
            Some(dr) => {
                if door_is_closed(pre[dr]) {
                    post == pre.update(dr, opened_door_entity(pre[dr])).update(
                        entity,
                        with_added_cooldown(pre[entity], TURN_COST),
                    )
                } else {
                    walk_or_unchanged(pre, post, entity, c, d)
                }
            },
            None => walk_or_unchanged(pre, post, entity, c, d),
        },
    }
}

/// The world after the bare move attempt: the actor walks onto `c` if the
/// cell is in range and free of solids, otherwise nothing changes.
pub open spec fn walk_or_unchanged(
    pre: Seq<GameEntity>,
    post: Seq<GameEntity>,
    entity: int,
    c: GridVector,
    d: GridDirection,
) -> bool {
    if in_bounds(c) && !solid_at_seq(pre, c) {
        post == pre.update(entity, moved_entity(pre[entity], c, d, WALK_COST))
    } else {
        post == pre
    }
}

/// What any single resolved behavior may do to the table: entry by entry,
/// each record is unchanged, despawned, opened as a door, or — only the
/// actor itself — repositioned and charged at most one turn of cooldown.
pub open spec fn behavior_step(pre: Seq<GameEntity>, post: Seq<GameEntity>, entity: int) -> bool {
    &&& post.len() == pre.len()
    &&& forall|i: int| 0 <= i < pre.len() ==> #[trigger] behavior_step_at(pre, post, entity, i)
}

/// The per-record alternatives a resolved behavior allows.
pub open spec fn behavior_step_at(
    pre: Seq<GameEntity>,
    post: Seq<GameEntity>,
    entity: int,
    i: int,
) -> bool {
    ||| post[i] == pre[i]
    ||| (i == entity && post[i] == (GameEntity {
        cooldown: post[i].cooldown,
        position: post[i].position,
        ..pre[i]
    }) && pre[i].cooldown <= post[i].cooldown <= pre[i].cooldown + TURN_COST)
    ||| (i != entity && post[i] == (GameEntity { alive: false, ..pre[i] }))
    ||| (i != entity && pre[i].kind is Door && post[i] == (GameEntity {
        kind: EntityKind::Door(false),
        solid: false,
        ..pre[i]
    }))
}

/// An unchanged table is a (vacuous) behavior step.
proof fn lemma_step_unchanged(pre: Seq<GameEntity>, post: Seq<GameEntity>, entity: int)
    requires
        post == pre,
    ensures
        behavior_step(pre, post, entity),
{
    assert forall|i: int| 0 <= i < pre.len() implies #[trigger] behavior_step_at(
        pre,
        post,
        entity,
        i,
    ) by {
        assert(post[i] == pre[i]);
    }
}

/// Charging the actor at most one turn is a behavior step.
proof fn lemma_step_cooldown(pre: Seq<GameEntity>, post: Seq<GameEntity>, entity: int, cost: u64)
    requires
        0 <= entity < pre.len(),
        cost <= TURN_COST,
        pre[entity].cooldown + cost <= u64::MAX,
        post == pre.update(entity, with_added_cooldown(pre[entity], cost)),
    ensures
        behavior_step(pre, post, entity),
{
    assert forall|i: int| 0 <= i < pre.len() implies #[trigger] behavior_step_at(
        pre,
        post,
        entity,
        i,
    ) by {
        if i != entity {
            assert(post[i] == pre[i]);
        }
    }
}

/// Moving the actor is a behavior step.
proof fn lemma_step_move(
    pre: Seq<GameEntity>,
    post: Seq<GameEntity>,
    entity: int,
    c: GridVector,
    d: GridDirection,
    cost: u64,
)
    requires
        0 <= entity < pre.len(),
        cost <= TURN_COST,
        pre[entity].cooldown + cost <= u64::MAX,
        post == pre.update(entity, moved_entity(pre[entity], c, d, cost)),
    ensures
        behavior_step(pre, post, entity),
{
    assert forall|i: int| 0 <= i < pre.len() implies #[trigger] behavior_step_at(
        pre,
        post,
        entity,
        i,
    ) by {
        if i != entity {
            assert(post[i] == pre[i]);
        }
    }
}

/// Whatever branch the attack → open-door → move chain takes is a behavior
/// step.
proof fn lemma_step_move_attack(
    pre: Seq<GameEntity>,
    post: Seq<GameEntity>,
    entity: int,
    c: GridVector,
    d: GridDirection,
    t: CharacterType,
)
    requires
        0 <= entity < pre.len(),
        pre[entity].kind is Character,
        pre[entity].cooldown + TURN_COST <= u64::MAX,
        move_attack_post(pre, post, entity, c, d, t),
    ensures
        behavior_step(pre, post, entity),
{
    lemma_first_char_from(pre, t, c, 0);
    lemma_first_door_from(pre, c, 0);
    match first_char_from(pre, t, c, 0) {
        Some(tg) => {
            assert forall|i: int| 0 <= i < pre.len() implies #[trigger] behavior_step_at(
                pre,
                post,
                entity,
                i,
            ) by {
                if i != entity && i != tg {
                    assert(post[i] == pre[i]);
                }
            }
        },
        None => {
            match first_door_from(pre, c, 0) {
                Some(dr) => {
                    if door_is_closed(pre[dr]) {
                        assert(dr != entity);
                        assert forall|i: int| 0 <= i < pre.len() implies #[trigger]
                            behavior_step_at(pre, post, entity, i) by {
                            if i != entity && i != dr {
                                assert(post[i] == pre[i]);
                            }
                        }
                    } else {
                        lemma_step_walk_or_unchanged(pre, post, entity, c, d);
                    }
                },
                None => {
                    lemma_step_walk_or_unchanged(pre, post, entity, c, d);
                },
            }
        },
    }
}

/// The bare move attempt is a behavior step.
proof fn lemma_step_walk_or_unchanged(
    pre: Seq<GameEntity>,
    post: Seq<GameEntity>,
    entity: int,
    c: GridVector,
    d: GridDirection,
)
    requires
        0 <= entity < pre.len(),
        pre[entity].cooldown + TURN_COST <= u64::MAX,
        walk_or_unchanged(pre, post, entity, c, d),
    ensures
        behavior_step(pre, post, entity),
{
    if in_bounds(c) && !solid_at_seq(pre, c) {
        lemma_step_move(pre, post, entity, c, d, WALK_COST);
    } else {
        lemma_step_unchanged(pre, post, entity);
    }
}

/// Resolves one step toward `direction` with the attack → open-door → move
/// priority; `target_type` names which characters are attackable.
pub fn move_attack(
    entity: usize,
    direction: GridDirection,
    target_type: CharacterType,
    world: &mut WorldModel,
) -> (acted: bool)
    requires
        old(world).wf(),
        old(world).is_actor(entity as int),
        old(world).entities@[entity as int].cooldown + TURN_COST <= u64::MAX,
    ensures
        final(world).wf(),
        acted == move_attack_succeeds(
            old(world).entities@,
            entity as int,
            shifted_spec(old(world).entities@, entity as int, direction),
            target_type,
        ),
        move_attack_post(
            old(world).entities@,
            final(world).entities@,
            entity as int,
            shifted_spec(old(world).entities@, entity as int, direction),
            direction,
            target_type,
        ),
{
    let pos = world.entities[entity].position.coordinates;
    let offset = GridVector::from_direction(&direction);
    let coordinates = pos.add(&offset);
    proof {
        lemma_direction_vector_nonzero(direction);
        assert(coordinates != pos);
        lemma_first_char_from(world.entities@, target_type, coordinates, 0);
        match first_char_from(world.entities@, target_type, coordinates, 0) {
            Some(j) => {
                assert(world.entities@[j].position.coordinates == coordinates);
                assert(j != entity as int);
            },
            None => {},
        }
    }
    if attempt_to_attack(entity, coordinates, target_type, world) {
        return true;
    }
    if attempt_to_open_door(entity, coordinates, world) {
        return true;
    }
    if coordinate_in_bounds(&coordinates) {
        attempt_to_move(entity, coordinates, direction, MoveType::Walk, world)
    } else {
        false
    }
}

/// Resolves the player's intent, if any: `Wait` always consumes the turn,
/// `MoveAttack` runs the attack → open-door → move chain against monsters,
/// `Run` only moves, at half cost.  Without an intent nothing happens and
/// the turn is not consumed.
pub fn player_behavior(
    entity: usize,
    world: &mut WorldModel,
    action: Option<PlayerAction>,
) -> (acted: bool)
    requires
        old(world).wf(),
        old(world).is_actor(entity as int),
        old(world).entities@[entity as int].cooldown + TURN_COST <= u64::MAX,
    ensures
        final(world).wf(),
        action is None ==> !acted && final(world).entities@ == old(world).entities@,
        action == Some(PlayerAction::Wait) ==> acted && final(world).entities@ == old(
            world,
        ).entities@.update(
            entity as int,
            with_added_cooldown(old(world).entities@[entity as int], TURN_COST),
        ),
        (action matches Some(PlayerAction::MoveAttack(d)) ==> acted == move_attack_succeeds(
            old(world).entities@,
            entity as int,
            shifted_spec(old(world).entities@, entity as int, d),
            CharacterType::Monster,
        ) && move_attack_post(
            old(world).entities@,
            final(world).entities@,
            entity as int,
            shifted_spec(old(world).entities@, entity as int, d),
            d,
            CharacterType::Monster,
        )),
        (action matches Some(PlayerAction::Run(d)) ==> {
            let c = shifted_spec(old(world).entities@, entity as int, d);
            if in_bounds(c) && !solid_at_seq(old(world).entities@, c) {
                acted && final(world).entities@ == old(world).entities@.update(
                    entity as int,
                    moved_entity(old(world).entities@[entity as int], c, d, RUN_COST),
                )
            } else {
                !acted && final(world).entities@ == old(world).entities@
            }
        }),
        behavior_step(old(world).entities@, final(world).entities@, entity as int),
{
    let player_action = match action {
        Some(a) => a,
        None => {
            proof {
                lemma_step_unchanged(world.entities@, world.entities@, entity as int);
            }
            return false;
        },
    };
    let acted = match player_action {
        PlayerAction::Wait => {
            let b = wait(entity, world);
            proof {
                lemma_step_cooldown(
                    old(world).entities@,
                    world.entities@,
                    entity as int,
                    TURN_COST,
                );
            }
            b
        },
        PlayerAction::MoveAttack(direction) => {
            let b = move_attack(entity, direction, CharacterType::Monster, world);
            proof {
                lemma_step_move_attack(
                    old(world).entities@,
                    world.entities@,
                    entity as int,
                    shifted_spec(old(world).entities@, entity as int, direction),
                    direction,
                    CharacterType::Monster,
                );
            }
            b
        },
        PlayerAction::Run(direction) => {
            let pos = world.entities[entity].position.coordinates;
            let offset = GridVector::from_direction(&direction);
            let coordinates = pos.add(&offset);
            let b = if coordinate_in_bounds(&coordinates) {
                attempt_to_move(entity, coordinates, direction, MoveType::Run, world)
            } else {
                false
            };
            proof {
                if b {
                    lemma_step_move(
                        old(world).entities@,
                        world.entities@,
                        entity as int,
                        coordinates,
                        direction,
                        RUN_COST,
                    );
                } else {
                    lemma_step_unchanged(world.entities@, world.entities@, entity as int);
                }
            }
            b
        },
    };
    acted
}

/// Whether the AI may pick direction `d` from `entity`'s cell: the step
/// lands on an attackable player, or on a cell in range that is free of
/// wall-like solids (doors and characters do not disqualify a direction;
/// a blocking character simply makes the move fail).
pub open spec fn ai_candidate(pre: Seq<GameEntity>, entity: int, d: GridDirection) -> bool {
    let c = shifted_spec(pre, entity, d);
    ||| first_char_from(pre, CharacterType::Player, c, 0) is Some
    ||| (in_bounds(c) && !static_solid_at_seq(pre, c))
}

/// The AI turn: look at all eight directions, keep those that qualify,
/// choose one uniformly at random and run the attack → open-door → move
/// chain against the player; with no qualifying direction, wait.
pub fn ai_behavior(entity: usize, world: &mut WorldModel, rng: &mut RandomSource)
    requires
        old(world).wf(),
        old(world).is_actor(entity as int),
        old(world).entities@[entity as int].cooldown + TURN_COST <= u64::MAX,
        old(rng).wf(),
    ensures
        final(world).wf(),
        final(rng).wf(),
        (exists|d: GridDirection| #[trigger]
            ai_candidate(old(world).entities@, entity as int, d) && move_attack_post(
                old(world).entities@,
                final(world).entities@,
                entity as int,
                shifted_spec(old(world).entities@, entity as int, d),
                d,
                CharacterType::Player,
            )) || ((forall|d: GridDirection|
            !(#[trigger] ai_candidate(old(world).entities@, entity as int, d)))
            && final(world).entities@ == old(world).entities@.update(
            entity as int,
            with_added_cooldown(old(world).entities@[entity as int], TURN_COST),
        )),
        behavior_step(old(world).entities@, final(world).entities@, entity as int),
{
    let directions = GridDirection::all();
    let pos = world.entities[entity].position.coordinates;
    let mut candidates: Vec<GridDirection> = Vec::new();
    let mut k: usize = 0;
    while k < directions.len()
        invariant
            world.wf(),
            world.is_actor(entity as int),
            pos == world.entities@[entity as int].position.coordinates,
            directions@ == GridDirection::all_spec(),
            k <= directions.len(),
            forall|j: int|
                0 <= j < candidates.len() ==> ai_candidate(
                    world.entities@,
                    entity as int,
                    #[trigger] candidates@[j],
                ),
            forall|j: int|
                0 <= j < k ==> (ai_candidate(world.entities@, entity as int, directions@[j])
                    ==> candidates@.contains(#[trigger] directions@[j])),
        decreases directions.len() - k,
    {
        let d = directions[k];
        let offset = GridVector::from_direction(&d);
        let c = pos.add(&offset);
        let has_player = match get_character_at(CharacterType::Player, c, world) {
            Some(_) => true,
            None => false,
        };
        let open_ground = coordinate_in_bounds(&c) && !is_static_solids_at(c, world);
        if has_player || open_ground {
            candidates.push(d);
            proof {
                assert(candidates@.last() == d);
            }
        }
        k = k + 1;
    }
    if candidates.len() == 0 {
        proof {
            assert forall|d: GridDirection|
                !(#[trigger] ai_candidate(world.entities@, entity as int, d)) by {
                lemma_all_directions_complete(d);
                let j = choose|j: int|
                    0 <= j < GridDirection::all_spec().len() && GridDirection::all_spec()[j] == d;
                assert(directions@[j] == d);
            }
        }
        wait(entity, world);
        proof {
            lemma_step_cooldown(old(world).entities@, world.entities@, entity as int, TURN_COST);
        }
    } else {
        let idx = rng.next_below(candidates.len() as u64) as usize;
        let d = candidates[idx];
        move_attack(entity, d, CharacterType::Player, world);
        proof {
            lemma_step_move_attack(
                old(world).entities@,
                world.entities@,
                entity as int,
                shifted_spec(old(world).entities@, entity as int, d),
                d,
                CharacterType::Player,
            );
        }
    }
}

/// Attack precedence: when an attackable character of the target type
/// stands on the destination cell, the resolved intent attacks and never
/// moves the actor — the actor keeps its position and the lowest-id target
/// is destroyed — even if the cell would otherwise be open floor.
pub proof fn lemma_attack_precedence(
    pre: Seq<GameEntity>,
    post: Seq<GameEntity>,
    entity: int,
    c: GridVector,
    d: GridDirection,
    t: CharacterType,
)
    requires
        0 <= entity < pre.len(),
        pre[entity].position.coordinates != c,
        move_attack_post(pre, post, entity, c, d, t),
        first_char_from(pre, t, c, 0) is Some,
    ensures
        post[entity].position == pre[entity].position,
        (first_char_from(pre, t, c, 0) matches Some(tg) ==> !post[tg].alive),
{
    lemma_first_char_from(pre, t, c, 0);
    match first_char_from(pre, t, c, 0) {
        Some(tg) => {
            assert(pre[tg].position.coordinates == c);
            assert(tg != entity);
        },
        None => {},
    }
}

} // verus!
