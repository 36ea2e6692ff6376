//! The turn scheduler: picks the living character with the globally minimal
//! cooldown (lowest id among ties — ids are creation order), rebases every
//! cooldown so the chosen actor reaches exactly zero, and drives behavior
//! selection until the tick cannot progress.

use vstd::prelude::*;

use crate::actions::TURN_COST;
use crate::behaviors::{ai_behavior, behavior_step, behavior_step_at, player_behavior, PlayerAction};
use crate::random::RandomSource;
use crate::world::{entity_wf, same_identity, Controller, EntityKind, GameEntity, WorldModel};

verus! {

/// `e` with its cooldown replaced.
pub open spec fn with_cooldown(e: GameEntity, cooldown: u64) -> GameEntity {
    GameEntity { cooldown: cooldown, ..e }
}

/// Whether every living, not yet processed character can still pay a full
/// turn without overflowing its counter.
pub open spec fn unprocessed_cooldowns_fit(s: Seq<GameEntity>, flags: Seq<bool>) -> bool {
    forall|i: int|
        0 <= i < s.len() && (#[trigger] s[i]).alive && s[i].kind is Character && !flags[i]
            ==> s[i].cooldown + TURN_COST <= u64::MAX
}

/// Whether `entity` is controlled by the player.
pub fn is_player(entity: usize, world: &WorldModel) -> (r: bool)
    requires
        entity < world.entities.len(),
    ensures
        r == (world.entities@[entity as int].controller == Some(Controller::PlayerControlled)),
{
    match world.entities[entity].controller {
        Some(Controller::PlayerControlled) => true,
        _ => false,
    }
}

/// Selects the living character with the minimal cooldown — the lowest id
/// among ties — and subtracts that minimum from every living character, so
/// the chosen actor reaches exactly zero and nobody goes negative.  With no
/// living character, returns `None` and changes nothing.
pub fn select_next_entity(world: &mut WorldModel) -> (r: Option<usize>)
    requires
        old(world).wf(),
    ensures
        final(world).wf(),
        final(world).entities.len() == old(world).entities.len(),
        r is None ==> (forall|i: int| !old(world).is_actor(i)) && *final(world) == *old(world),
        (r matches Some(u) ==> {
            let m = old(world).entities@[u as int].cooldown;
            &&& old(world).is_actor(u as int)
            &&& forall|j: int| old(world).is_actor(j) ==> old(world).entities@[j].cooldown >= m
            &&& forall|j: int|
                old(world).is_actor(j) && j < u as int ==> old(world).entities@[j].cooldown > m
            &&& forall|j: int|
                0 <= j < old(world).entities.len() ==> final(world).entities@[j] == (
                if old(world).is_actor(j) {
                    with_cooldown(
                        old(world).entities@[j],
                        (old(world).entities@[j].cooldown - m) as u64,
                    )
                } else {
                    old(world).entities@[j]
                })
            &&& final(world).entities@[u as int].cooldown == 0
            &&& final(world).is_actor(u as int)
        }),
{
    let mut next_entity: Option<usize> = None;
    let mut min_cooldown: u64 = 0;
    let mut i: usize = 0;
    while i < world.entities.len()
        invariant
            i <= world.entities.len(),
            match next_entity {
                None => forall|j: int| 0 <= j < i ==> !world.is_actor(j),
                Some(u) => {
                    &&& (u as int) < i
                    &&& world.is_actor(u as int)
                    &&& min_cooldown == world.entities@[u as int].cooldown
                    &&& forall|j: int|
                        0 <= j < i && world.is_actor(j) ==> world.entities@[j].cooldown
                            >= min_cooldown
                    &&& forall|j: int|
                        0 <= j < u as int && world.is_actor(j) ==> world.entities@[j].cooldown
                            > min_cooldown
                },
            },
        decreases world.entities.len() - i,
    {
        let e = &world.entities[i];
        let is_char = match e.kind {
            EntityKind::Character(_) => true,
            _ => false,
        };
        if e.alive && is_char {
            let take_it = match next_entity {
                None => true,
                Some(_) => e.cooldown < min_cooldown,
            };
            if take_it {
                next_entity = Some(i);
                min_cooldown = e.cooldown;
            }
        }
        i = i + 1;
    }
    let selected = match next_entity {
        None => {
            return None;
        },
        Some(u) => u,
    };
    if min_cooldown > 0 {
        let ghost pre = *world;
        let mut j: usize = 0;
        while j < world.entities.len()
            invariant
                world.entities.len() == pre.entities.len(),
                j <= world.entities.len(),
                forall|k: int|
                    0 <= k < pre.entities.len() && pre.is_actor(k)
                        ==> pre.entities@[k].cooldown >= min_cooldown,
                forall|k: int|
                    j <= k < pre.entities.len() ==> world.entities@[k] == pre.entities@[k],
                forall|k: int|
                    0 <= k < j ==> world.entities@[k] == (if pre.is_actor(k) {
                        with_cooldown(
                            pre.entities@[k],
                            (pre.entities@[k].cooldown - min_cooldown) as u64,
                        )
                    } else {
                        pre.entities@[k]
                    }),
            decreases world.entities.len() - j,
        {
            let e = world.entity_at_mut(j);
            let is_char = match e.kind {
                EntityKind::Character(_) => true,
                _ => false,
            };
            if e.alive && is_char {
                proof {
                    assert(pre.is_actor(j as int));
                    assert(pre.entities@[j as int].cooldown >= min_cooldown);
                }
                e.cooldown = e.cooldown - min_cooldown;
            }
            j = j + 1;
        }
        proof {
            assert forall|k: int|
                0 <= k < world.entities.len() implies entity_wf(
                #[trigger] world.entities@[k],
            ) by {
                assert(entity_wf(pre.entities@[k]));
            }
        }
    }
    Some(selected)
}

/// Runs one scheduling tick: repeatedly select an actor (keeping a pending
/// one), resolve its behavior — the player acts on the handed-in intent and
/// at most once per tick, AI actors act at random — until no actor can be
/// selected, an actor comes up a second time without progress (the cycle
/// guard), or the player would act twice.  Returns whether the player's
/// turn was consumed; a pending player stays selected for the next tick.
pub fn process_turn(
    world: &mut WorldModel,
    selected: &mut Option<usize>,
    action: Option<PlayerAction>,
    rng: &mut RandomSource,
) -> (player_acted: bool)
    requires
        old(world).wf(),
        old(rng).wf(),
        (*old(selected) matches Some(u) ==> old(world).is_actor(u as int)),
        forall|i: int|
            0 <= i < old(world).entities.len() && (#[trigger] old(world).entities@[i]).alive
                && old(world).entities@[i].kind is Character
                ==> old(world).entities@[i].cooldown + TURN_COST <= u64::MAX,
    ensures
        final(world).wf(),
        final(rng).wf(),
        final(world).entities.len() == old(world).entities.len(),
        forall|i: int|
            0 <= i < old(world).entities.len() ==> same_identity(
                old(world).entities@[i],
                #[trigger] final(world).entities@[i],
            ),
        (*final(selected) matches Some(u) ==> final(world).is_actor(u as int)),
        player_acted ==> action is Some,
        (forall|i: int| !old(world).is_actor(i)) ==> !player_acted && final(world).entities@
            == old(world).entities@ && *final(selected) is None,
        ((exists|i: int| old(world).is_actor(i)) && (forall|i: int|
            old(world).is_actor(i) ==> old(world).entities@[i].controller == Some(
                Controller::PlayerControlled,
            )) && action == Some(PlayerAction::Wait) && *old(selected) is None
            ==> player_acted),
        forall|i: int|
            0 <= i < old(world).entities.len() ==> (#[trigger] final(world).entities@[i]).cooldown
                <= old(world).entities@[i].cooldown + TURN_COST,
        (action is None && (*old(selected) matches Some(u)
            && old(world).entities@[u as int].controller == Some(Controller::PlayerControlled))
            ==> *final(selected) == *old(selected) && final(world).entities@ == old(
            world,
        ).entities@),
{
    let ghost n0 = world.entities.len() as int;
    let mut player_acted = false;
    let mut processed: Vec<bool> = Vec::new();
    let mut f: usize = 0;
    while f < world.entities.len()
        invariant
            processed.len() == f,
            f <= world.entities.len(),
            forall|i: int| 0 <= i < f ==> !processed@[i],
            count_true(processed@) == 0,
        decreases world.entities.len() - f,
    {
        proof {
            assert(processed@.push(false).drop_last() =~= processed@);
        }
        processed.push(false);
        f = f + 1;
    }
    let ghost no_actors = forall|i: int| !old(world).is_actor(i);
    let ghost all_players_waiting = (exists|i: int| old(world).is_actor(i)) && (forall|i: int|
        old(world).is_actor(i) ==> old(world).entities@[i].controller == Some(
            Controller::PlayerControlled,
        )) && action == Some(PlayerAction::Wait) && *old(selected) is None;
    let ghost pending_player_no_intent = action is None && (*old(selected) matches Some(u)
        && old(world).entities@[u as int].controller == Some(Controller::PlayerControlled));
    let mut processed_count: usize = 0;
    loop
        invariant
            world.wf(),
            rng.wf(),
            world.entities.len() == n0,
            processed.len() == n0,
            processed_count == count_true(processed@),
            unprocessed_cooldowns_fit(world.entities@, processed@),
            (*selected matches Some(u) ==> world.is_actor(u as int)),
            forall|i: int|
                0 <= i < n0 ==> same_identity(
                    old(world).entities@[i],
                    #[trigger] world.entities@[i],
                ),
            player_acted ==> action is Some,
            no_actors == (forall|i: int| !old(world).is_actor(i)),
            all_players_waiting == ((exists|i: int| old(world).is_actor(i)) && (forall|i: int|
                old(world).is_actor(i) ==> old(world).entities@[i].controller == Some(
                    Controller::PlayerControlled,
                )) && action == Some(PlayerAction::Wait) && *old(selected) is None),
            no_actors ==> !player_acted && world.entities@ == old(world).entities@ && *selected
                is None,
            all_players_waiting ==> (player_acted || (processed_count == 0 && world.entities@
                == old(world).entities@ && *selected is None)),
            all_players_waiting ==> (forall|i: int|
                world.is_actor(i) ==> (#[trigger] world.entities@[i]).controller == Some(
                    Controller::PlayerControlled,
                )),
            forall|i: int|
                0 <= i < n0 ==> (#[trigger] world.entities@[i]).cooldown
                    <= old(world).entities@[i].cooldown + (if processed@[i] {
                    TURN_COST as int
                } else {
                    0int
                }),
            pending_player_no_intent == (action is None && (*old(selected) matches Some(u)
                && old(world).entities@[u as int].controller == Some(
                Controller::PlayerControlled,
            ))),
            pending_player_no_intent ==> !player_acted && world.entities@ == old(
                world,
            ).entities@ && *selected == *old(selected),
        ensures
            all_players_waiting ==> player_acted,
        decreases n0 - processed_count,
    {
        let ghost top = *world;
        let entity = match *selected {
            Some(e) => {
                proof {
                    assert(characters_preserved(top.entities@, world.entities@));
                }
                e
            },
            None => {
                match select_next_entity(world) {
                    Some(e) => {
                        proof {
                            assert(characters_preserved(top.entities@, world.entities@));
                            assert forall|i: int| 0 <= i < n0 implies (#[trigger]
                                world.entities@[i]).cooldown <= top.entities@[i].cooldown by {}
                        }
                        *selected = Some(e);
                        e
                    },
                    None => {
                        proof {
                            if all_players_waiting && !player_acted {
                                assert(world.entities@ == old(world).entities@);
                                let j = choose|j: int| old(world).is_actor(j);
                                assert(!world.is_actor(j));
                                assert(old(world).entities@[j] == world.entities@[j]);
                                assert(false);
                            }
                        }
                        break ;
                    },
                }
            },
        };
        proof {
            assert(world.is_actor(entity as int) && top.is_actor(entity as int));
            if no_actors {
                assert(top.entities@ == old(world).entities@);
                assert(old(world).entities@[entity as int] == top.entities@[entity as int]);
                assert(old(world).is_actor(entity as int));
                assert(false);
            }
        }
        if processed[entity] {
            proof {
                if all_players_waiting && !player_acted {
                    lemma_count_true_zero(processed@);
                    assert(false);
                }
            }
            break ;
        }
        proof {
            lemma_count_true_update(processed@, entity as int);
            lemma_count_true_le(processed@.update(entity as int, true));
        }
        let slot = &mut processed[entity];
        *slot = true;
        processed_count = processed_count + 1;
        let ghost pre = *world;
        if is_player(entity, world) {
            if player_acted {
                break ;
            }
            let acted = player_behavior(entity, world, action);
            proof {
                lemma_behavior_preserves_tick_invariants(
                    pre.entities@,
                    world.entities@,
                    entity as int,
                    processed@,
                );
                if all_players_waiting {
                    lemma_characters_preserved_actors(top.entities@, pre.entities@, world.entities@);
                }
            }
            if acted {
                player_acted = true;
                *selected = None;
            }
        } else {
            proof {
                if all_players_waiting {
                    assert(top.entities@[entity as int].controller == Some(
                        Controller::PlayerControlled,
                    ));
                    assert(world.entities@[entity as int].controller == Some(
                        Controller::PlayerControlled,
                    ));
                    assert(false);
                }
                if pending_player_no_intent {
                    match *old(selected) {
                        Some(u) => {
                            assert(entity == u);
                            assert(world.entities@[entity as int].controller == Some(
                                Controller::PlayerControlled,
                            ));
                            assert(false);
                        },
                        None => {},
                    }
                }
            }
            ai_behavior(entity, world, rng);
            proof {
                lemma_behavior_preserves_tick_invariants(
                    pre.entities@,
                    world.entities@,
                    entity as int,
                    processed@,
                );
                if all_players_waiting {
                    lemma_characters_preserved_actors(top.entities@, pre.entities@, world.entities@);
                }
            }
            *selected = None;
        }
    }
    player_acted
}

/// Whether every record keeps its kind, its liveness and its controller
/// between two tables — cooldown rebasing does exactly that.
pub open spec fn characters_preserved(a: Seq<GameEntity>, b: Seq<GameEntity>) -> bool {
    &&& b.len() == a.len()
    &&& forall|i: int|
        0 <= i < a.len() ==> (#[trigger] b[i]).kind == a[i].kind && b[i].alive == a[i].alive
            && b[i].controller == a[i].controller
}

/// If every living character of `top` is player-controlled, the same holds
/// after a cooldown rebase followed by one resolved behavior.
proof fn lemma_characters_preserved_actors(
    top: Seq<GameEntity>,
    pre: Seq<GameEntity>,
    post: Seq<GameEntity>,
)
    requires
        characters_preserved(top, pre),
        exists|entity: int| #[trigger] behavior_step(pre, post, entity),
        forall|i: int|
            0 <= i < top.len() && (#[trigger] top[i]).alive && top[i].kind is Character
                ==> top[i].controller == Some(Controller::PlayerControlled),
    ensures
        forall|i: int|
            0 <= i < post.len() && (#[trigger] post[i]).alive && post[i].kind is Character
                ==> post[i].controller == Some(Controller::PlayerControlled),
{
    let entity = choose|entity: int| #[trigger] behavior_step(pre, post, entity);
    assert forall|i: int|
        0 <= i < post.len() && (#[trigger] post[i]).alive && post[i].kind is Character implies
        post[i].controller == Some(Controller::PlayerControlled) by {
        assert(behavior_step_at(pre, post, entity, i));
    }
}

/// A count of zero means no entry is set.
pub proof fn lemma_count_true_zero(s: Seq<bool>)
    requires
        count_true(s) == 0,
    ensures
        forall|i: int| 0 <= i < s.len() ==> !s[i],
    decreases s.len(),
{
    if s.len() > 0 {
        lemma_count_true_le(s.drop_last());
        lemma_count_true_zero(s.drop_last());
        assert forall|i: int| 0 <= i < s.len() implies !s[i] by {
            if i < s.len() - 1 {
                assert(s.drop_last()[i] == s[i]);
            }
        }
    }
}

/// How many entries of `s` are set.
pub open spec fn count_true(s: Seq<bool>) -> int
    decreases s.len(),
{
    if s.len() == 0 {
        0
    } else {
        count_true(s.drop_last()) + if s.last() {
            1int
        } else {
            0int
        }
    }
}

/// No more entries are set than there are entries.
pub proof fn lemma_count_true_le(s: Seq<bool>)
    ensures
        count_true(s) <= s.len(),
        count_true(s) >= 0,
    decreases s.len(),
{
    if s.len() > 0 {
        lemma_count_true_le(s.drop_last());
    }
}

/// Setting an unset entry raises the count by one.
pub proof fn lemma_count_true_update(s: Seq<bool>, i: int)
    requires
        0 <= i < s.len(),
        !s[i],
    ensures
        count_true(s.update(i, true)) == count_true(s) + 1,
    decreases s.len(),
{
    let t = s.update(i, true);
    if i == s.len() - 1 {
        assert(t.drop_last() =~= s.drop_last());
    } else {
        assert(t.drop_last() =~= s.drop_last().update(i, true));
        lemma_count_true_update(s.drop_last(), i);
    }
}

/// One resolved behavior — whatever branch of the attack → open-door → move
/// chain it took, or a wait — changes no unprocessed character's cooldown
/// and keeps every entity's identity, provided the actor itself is marked
/// processed.
proof fn lemma_behavior_preserves_tick_invariants(
    pre: Seq<GameEntity>,
    post: Seq<GameEntity>,
    entity: int,
    flags: Seq<bool>,
)
    requires
        pre.len() == flags.len(),
        0 <= entity < pre.len(),
        flags[entity],
        unprocessed_cooldowns_fit(pre, flags),
        behavior_step(pre, post, entity),
    ensures
        post.len() == pre.len(),
        unprocessed_cooldowns_fit(post, flags),
        forall|i: int| 0 <= i < pre.len() ==> same_identity(pre[i], #[trigger] post[i]),
        forall|i: int|
            0 <= i < pre.len() && i != entity ==> (#[trigger] post[i]).cooldown
                == pre[i].cooldown,
        post[entity].cooldown <= pre[entity].cooldown + TURN_COST,
{
    assert forall|i: int| 0 <= i < pre.len() implies same_identity(pre[i], #[trigger] post[i]) by {
        assert(behavior_step_at(pre, post, entity, i));
    }
    assert forall|i: int|
        0 <= i < post.len() && (#[trigger] post[i]).alive && post[i].kind is Character
            && !flags[i] implies post[i].cooldown + TURN_COST <= u64::MAX by {
        assert(behavior_step_at(pre, post, entity, i));
    }
    assert forall|i: int|
        0 <= i < pre.len() && i != entity implies (#[trigger] post[i]).cooldown
            == pre[i].cooldown by {
        assert(behavior_step_at(pre, post, entity, i));
    }
    assert(behavior_step_at(pre, post, entity, entity));
}

} // verus!
