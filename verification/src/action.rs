//! Low-level world effects as values: the resolver's extension point for
//! chained consequences.  Executing an effect may hand back follow-up
//! effects, and a batch is drained to exhaustion before a step ends.

use vstd::prelude::*;

use crate::direction::GridDirection;
use crate::vector::{coordinate_in_bounds, in_bounds, GridVector};
use crate::world::{lemma_wf_update, same_identity, GameEntity, GridPosition, WorldModel};

verus! {

/// One atomic world effect.
#[derive(Clone, Copy, Debug)]
pub enum Action {
    SetCoordinates(usize, GridVector),
    SetDirection(usize, GridDirection),
}

/// Whether an action's payload is admissible: a target coordinate must lie
/// in range.
pub open spec fn action_in_bounds(a: Action) -> bool {
    match a {
        Action::SetCoordinates(_, c) => in_bounds(c),
        Action::SetDirection(_, _) => true,
    }
}

/// Whether an action's subject exists in the table and is alive.
pub open spec fn action_applies_seq(a: Action, s: Seq<GameEntity>) -> bool {
    match a {
        Action::SetCoordinates(e, _) => 0 <= e < s.len() && s[e as int].alive,
        Action::SetDirection(e, _) => 0 <= e < s.len() && s[e as int].alive,
    }
}

/// Whether an action's subject exists and is alive.
pub open spec fn action_applies(a: Action, w: &WorldModel) -> bool {
    action_applies_seq(a, w.entities@)
}

/// The table after an action applied.
pub open spec fn action_post(a: Action, pre: Seq<GameEntity>) -> Seq<GameEntity> {
    match a {
        Action::SetCoordinates(e, c) => pre.update(
            e as int,
            GameEntity {
                position: GridPosition { coordinates: c, ..pre[e as int].position },
                ..pre[e as int]
            },
        ),
        Action::SetDirection(e, d) => pre.update(
            e as int,
            GameEntity {
                position: GridPosition {
                    direction: if pre[e as int].position.direction is Some {
                        Some(d)
                    } else {
                        pre[e as int].position.direction
                    },
                    ..pre[e as int].position
                },
                ..pre[e as int]
            },
        ),
    }
}

/// The table after one effect: applied if admissible and its subject is
/// alive, untouched otherwise (failures are recovered locally).
pub open spec fn apply_one(a: Action, s: Seq<GameEntity>) -> Seq<GameEntity> {
    if action_in_bounds(a) && action_applies_seq(a, s) {
        action_post(a, s)
    } else {
        s
    }
}

/// The table after a whole batch of effects, applied front to back.
pub open spec fn apply_all(actions: Seq<Action>, s: Seq<GameEntity>) -> Seq<GameEntity>
    decreases actions.len(),
{
    if actions.len() == 0 {
        s
    } else {
        apply_all(actions.skip(1), apply_one(actions[0], s))
    }
}

/// Appending one effect to a batch applies it after the rest.
pub proof fn lemma_apply_all_push(actions: Seq<Action>, a: Action, s: Seq<GameEntity>)
    ensures
        apply_all(actions.push(a), s) == apply_one(a, apply_all(actions, s)),
    decreases actions.len(),
{
    if actions.len() == 0 {
        assert(actions.push(a).skip(1) =~= Seq::<Action>::empty());
        assert(actions.push(a)[0] == a);
        assert(apply_all(actions.push(a), s) == apply_all(
            actions.push(a).skip(1),
            apply_one(a, s),
        ));
    } else {
        assert(actions.push(a).skip(1) =~= actions.skip(1).push(a));
        assert(actions.push(a)[0] == actions[0]);
        assert(apply_all(actions.push(a), s) == apply_all(
            actions.skip(1).push(a),
            apply_one(actions[0], s),
        ));
        lemma_apply_all_push(actions.skip(1), a, apply_one(actions[0], s));
    }
}

impl Action {
    /// Applies the effect: repositions or refaces its subject, returning
    /// any follow-up effects; an effect whose subject is gone, or whose
    /// coordinate is out of range, reports an error and changes nothing.
    pub fn execute(&self, world: &mut WorldModel) -> (r: Result<Vec<Action>, ()>)
        requires
            old(world).wf(),
        ensures
            final(world).wf(),
            r matches Ok(follow) ==> follow@.len() == 0,
            if action_in_bounds(*self) && action_applies(*self, old(world)) {
                r is Ok && final(world).entities@ == action_post(*self, old(world).entities@)
            } else {
                r is Err && final(world).entities@ == old(world).entities@
            },
    {
        match self {
            Action::SetCoordinates(entity, coordinates) => {
                if !coordinate_in_bounds(coordinates) {
                    return Err(());
                }
                if *entity >= world.entities.len() || !world.entities[*entity].alive {
                    return Err(());
                }
                let e = world.entity_at_mut(*entity);
                e.position.coordinates = *coordinates;
                proof {
                    lemma_wf_update(
                        old(world).entities@,
                        *entity as int,
                        GameEntity {
                            position: GridPosition {
                                coordinates: *coordinates,
                                ..old(world).entities@[*entity as int].position
                            },
                            ..old(world).entities@[*entity as int]
                        },
                    );
                }
                Ok(Vec::new())
            },
            Action::SetDirection(entity, direction) => {
                if *entity >= world.entities.len() || !world.entities[*entity].alive {
                    return Err(());
                }
                let e = world.entity_at_mut(*entity);
                if e.position.direction.is_some() {
                    e.position.direction = Some(*direction);
                }
                proof {
                    lemma_wf_update(
                        old(world).entities@,
                        *entity as int,
                        GameEntity {
                            position: GridPosition {
                                direction: if old(world).entities@[*entity as int].position.direction
                                    is Some {
                                    Some(*direction)
                                } else {
                                    old(world).entities@[*entity as int].position.direction
                                },
                                ..old(world).entities@[*entity as int].position
                            },
                            ..old(world).entities@[*entity as int]
                        },
                    );
                }
                Ok(Vec::new())
            },
        }
    }
}

/// Drains a batch of effects to exhaustion: each effect is executed in
/// order, follow-up effects are queued behind it, and the step ends only
/// when the queue is empty.  Failed effects are recovered locally.  The
/// final table is exactly the batch folded over the initial one, and every
/// entity keeps its identity.
pub fn execute_actions(actions: Vec<Action>, world: &mut WorldModel)
    requires
        old(world).wf(),
        forall|k: int| 0 <= k < actions.len() ==> action_in_bounds(#[trigger] actions@[k]),
    ensures
        final(world).wf(),
        final(world).entities@ == apply_all(actions@, old(world).entities@),
        final(world).entities.len() == old(world).entities.len(),
        forall|i: int|
            0 <= i < old(world).entities.len() ==> same_identity(
                old(world).entities@[i],
                #[trigger] final(world).entities@[i],
            ),
{
    let mut queue = actions;
    let ghost batch = queue@;
    let mut k: usize = 0;
    while k < queue.len()
        invariant
            world.wf(),
            world.entities.len() == old(world).entities.len(),
            k <= queue.len(),
            queue@ == batch,
            world.entities@ == apply_all(batch.take(k as int), old(world).entities@),
            forall|k2: int| 0 <= k2 < queue.len() ==> action_in_bounds(#[trigger] queue@[k2]),
            forall|i: int|
                0 <= i < old(world).entities.len() ==> same_identity(
                    old(world).entities@[i],
                    #[trigger] world.entities@[i],
                ),
        decreases queue.len() - k,
    {
        let ghost pre = *world;
        let action = queue[k];
        match action.execute(world) {
            Ok(mut follow) => {
                proof {
                    assert(follow@.len() == 0);
                }
                queue.append(&mut follow);
                proof {
                    assert(queue@ =~= batch);
                }
            },
            Err(_) => {},
        }
        proof {
            assert(batch.take(k as int + 1) =~= batch.take(k as int).push(batch[k as int]));
            lemma_apply_all_push(batch.take(k as int), batch[k as int], old(world).entities@);
            assert(world.entities@ == apply_one(batch[k as int], pre.entities@));
            assert forall|i: int| 0 <= i < old(world).entities.len() implies same_identity(
                old(world).entities@[i],
                #[trigger] world.entities@[i],
            ) by {
                assert(same_identity(pre.entities@[i], world.entities@[i]));
            }
        }
        k = k + 1;
    }
    proof {
        assert(batch.take(batch.len() as int) =~= batch);
    }
}

} // verus!
