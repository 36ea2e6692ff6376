//! Staging map the dungeon generator writes into: a tile layer of floors,
//! walls and doors plus initial character placements.  Each placement call is
//! idempotent and clears whatever previously occupied the coordinate.

use vstd::prelude::*;

use crate::model::CharacterType;
use crate::vector::{in_bounds, GridVector};
use crate::world::{
    character_entity, door_entity, floor_entity, spawn_door, spawn_floor, spawn_monster,
    spawn_player, spawn_wall, wall_entity, Controller, GameEntity, WorldModel,
};

verus! {

broadcast use vstd::seq_lib::lemma_seq_contains_after_push;

/// Removes every occurrence of `v` from the vector.
fn remove_coord(vs: &mut Vec<GridVector>, v: GridVector)
    ensures
        forall|w: GridVector| #[trigger]
            final(vs)@.contains(w) <==> (old(vs)@.contains(w) && w != v),
{
    let mut out: Vec<GridVector> = Vec::new();
    let mut i: usize = 0;
    while i < vs.len()
        invariant
            i <= vs.len(),
            forall|w: GridVector| #[trigger]
                out@.contains(w) <==> (vs@.take(i as int).contains(w) && w != v),
        decreases vs.len() - i,
    {
        let x = vs[i];
        proof {
            assert(vs@.take(i as int + 1) =~= vs@.take(i as int).push(vs@[i as int]));
        }
        if x.x != v.x || x.y != v.y {
            out.push(x);
        }
        i = i + 1;
    }
    proof {
        assert(vs@.take(vs@.len() as int) =~= vs@);
    }
    *vs = out;
}

/// Pushes `v` onto the vector.
fn insert_coord(vs: &mut Vec<GridVector>, v: GridVector)
    ensures
        final(vs)@ == old(vs)@.push(v),
        forall|w: GridVector| #[trigger]
            final(vs)@.contains(w) <==> (old(vs)@.contains(w) || w == v),
{
    vs.push(v);
}

/// The staging map: which tile stands at each coordinate, and where the
/// characters start.
pub struct GameWorld {
    floors: Vec<GridVector>,
    walls: Vec<GridVector>,
    doors_closed: Vec<GridVector>,
    doors_open: Vec<GridVector>,
    player: Option<GridVector>,
    monsters: Vec<GridVector>,
}

impl GameWorld {
    /// Every stored coordinate lies in the admitted range.
    pub closed spec fn wf(&self) -> bool {
        &&& forall|w: GridVector| self.floors@.contains(w) ==> in_bounds(w)
        &&& forall|w: GridVector| self.walls@.contains(w) ==> in_bounds(w)
        &&& forall|w: GridVector| self.doors_closed@.contains(w) ==> in_bounds(w)
        &&& forall|w: GridVector| self.doors_open@.contains(w) ==> in_bounds(w)
        &&& forall|w: GridVector| self.monsters@.contains(w) ==> in_bounds(w)
        &&& (self.player matches Some(p) ==> in_bounds(p))
    }

    /// Whether a floor has been laid at `v` (every placement lays one).
    pub closed spec fn has_floor(&self, v: GridVector) -> bool {
        self.floors@.contains(v)
    }

    /// Whether a wall stands at `v`.
    pub closed spec fn has_wall(&self, v: GridVector) -> bool {
        self.walls@.contains(v)
    }

    /// The door at `v`: `Some(closed)` if one stands there, `None` otherwise.
    pub closed spec fn door_state(&self, v: GridVector) -> Option<bool> {
        if self.doors_closed@.contains(v) {
            Some(true)
        } else if self.doors_open@.contains(v) {
            Some(false)
        } else {
            None
        }
    }

    /// Whether a monster starts at `v`.
    pub closed spec fn has_monster(&self, v: GridVector) -> bool {
        self.monsters@.contains(v)
    }

    /// Where the player starts, if placed.
    pub closed spec fn player_pos(&self) -> Option<GridVector> {
        self.player
    }

    /// The coordinates where monsters start.
    pub closed spec fn monster_seq(&self) -> Seq<GridVector> {
        self.monsters@
    }

    /// Whether `a` and `b` agree at coordinate `v` on the tile layer and on
    /// monster placement.
    pub open spec fn tiles_same_at(a: &GameWorld, b: &GameWorld, v: GridVector) -> bool {
        &&& a.has_floor(v) == b.has_floor(v)
        &&& a.has_wall(v) == b.has_wall(v)
        &&& a.door_state(v) == b.door_state(v)
        &&& a.has_monster(v) == b.has_monster(v)
    }

    /// Whether `a` and `b` agree at coordinate `v` in every respect.
    pub open spec fn same_at(a: &GameWorld, b: &GameWorld, v: GridVector) -> bool {
        &&& GameWorld::tiles_same_at(a, b, v)
        &&& ((a.player_pos() == Some(v)) == (b.player_pos() == Some(v)))
    }

    /// Clears everything but the floor at `v`: the effect `add_floor` and
    /// every other placement has at its own coordinate.
    pub open spec fn floor_placed(old_w: &GameWorld, new_w: &GameWorld, v: GridVector) -> bool {
        &&& new_w.has_floor(v)
        &&& !new_w.has_wall(v)
        &&& new_w.door_state(v) is None
        &&& !new_w.has_monster(v)
        &&& new_w.player_pos() != Some(v)
        &&& forall|w: GridVector| w != v ==> #[trigger] GameWorld::same_at(old_w, new_w, w)
        &&& new_w.player_pos() == (if old_w.player_pos() == Some(v) {
            None::<GridVector>
        } else {
            old_w.player_pos()
        })
    }

    pub fn empty() -> (r: Self)
        ensures
            r.wf(),
            forall|w: GridVector| !(#[trigger] r.has_floor(w)),
            forall|w: GridVector| !(#[trigger] r.has_wall(w)),
            forall|w: GridVector| (#[trigger] r.door_state(w)) is None,
            forall|w: GridVector| !(#[trigger] r.has_monster(w)),
            r.player_pos() is None,
            r.monster_seq() == Seq::<GridVector>::empty(),
    {
        Self {
            floors: Vec::new(),
            walls: Vec::new(),
            doors_closed: Vec::new(),
            doors_open: Vec::new(),
            player: None,
            monsters: Vec::new(),
        }
    }

    /// Lays open floor at `v`, clearing any wall, door or character there.
    pub fn add_floor(&mut self, vec: GridVector)
        requires
            old(self).wf(),
            in_bounds(vec),
        ensures
            final(self).wf(),
            GameWorld::floor_placed(old(self), final(self), vec),
            final(self).monster_seq() == old(self).monster_seq().filter(
                |w: GridVector| w != vec,
            ),
    {
        insert_coord(&mut self.floors, vec);
        remove_coord(&mut self.walls, vec);
        remove_coord(&mut self.doors_closed, vec);
        remove_coord(&mut self.doors_open, vec);
        match self.player {
            Some(player_vec) if player_vec.x == vec.x && player_vec.y == vec.y => {
                self.player = None;
            },
            _ => {},
        }
        self.remove_monster(vec);
    }

    /// Removes every monster placement at `v`.
    fn remove_monster(&mut self, vec: GridVector)
        ensures
            *final(self) == (GameWorld {
                monsters: final(self).monsters,
                ..*old(self)
            }),
            forall|w: GridVector| #[trigger]
                final(self).monsters@.contains(w) <==> (old(self).monsters@.contains(w) && w
                    != vec),
            final(self).monsters@ == old(self).monsters@.filter(|w: GridVector| w != vec),
    {
        let mut out: Vec<GridVector> = Vec::new();
        let mut i: usize = 0;
        while i < self.monsters.len()
            invariant
                i <= self.monsters.len(),
                out@ == self.monsters@.take(i as int).filter(|w: GridVector| w != vec),
                forall|w: GridVector| #[trigger]
                    out@.contains(w) <==> (self.monsters@.take(i as int).contains(w) && w
                        != vec),
            decreases self.monsters.len() - i,
        {
            let x = self.monsters[i];
            proof {
                reveal(Seq::filter);
                let t = self.monsters@.take(i as int);
                let t1 = self.monsters@.take(i as int + 1);
                assert(t1 =~= t.push(self.monsters@[i as int]));
                assert(t1.drop_last() =~= t);
                assert(t1.last() == self.monsters@[i as int]);
            }
            if x.x != vec.x || x.y != vec.y {
                out.push(x);
            }
            i = i + 1;
        }
        proof {
            assert(self.monsters@.take(self.monsters@.len() as int) =~= self.monsters@);
        }
        self.monsters = out;
    }

    /// Lays floor, then a wall on top of it.
    pub fn add_wall(&mut self, vec: GridVector)
        requires
            old(self).wf(),
            in_bounds(vec),
        ensures
            final(self).wf(),
            final(self).has_floor(vec),
            final(self).has_wall(vec),
            final(self).door_state(vec) is None,
            !final(self).has_monster(vec),
            final(self).player_pos() != Some(vec),
            forall|w: GridVector| w != vec ==> #[trigger] GameWorld::same_at(
                old(self),
                final(self),
                w,
            ),
            final(self).player_pos() == (if old(self).player_pos() == Some(vec) {
                None::<GridVector>
            } else {
                old(self).player_pos()
            }),
            final(self).monster_seq() == old(self).monster_seq().filter(
                |w: GridVector| w != vec,
            ),
    {
        self.add_floor(vec);
        let ghost mid = *self;
        insert_coord(&mut self.walls, vec);
        proof {
            assert forall|w: GridVector| w != vec implies #[trigger] GameWorld::same_at(
                old(self),
                self,
                w,
            ) by {
                assert(GameWorld::same_at(old(self), &mid, w));
            }
        }
    }

    /// Lays floor, then places a door; `close` gives its initial state.
    pub fn add_door(&mut self, vec: GridVector, close: bool)
        requires
            old(self).wf(),
            in_bounds(vec),
        ensures
            final(self).wf(),
            final(self).has_floor(vec),
            !final(self).has_wall(vec),
            final(self).door_state(vec) == Some(close),
            !final(self).has_monster(vec),
            final(self).player_pos() != Some(vec),
            forall|w: GridVector| w != vec ==> #[trigger] GameWorld::same_at(
                old(self),
                final(self),
                w,
            ),
            final(self).player_pos() == (if old(self).player_pos() == Some(vec) {
                None::<GridVector>
            } else {
                old(self).player_pos()
            }),
            final(self).monster_seq() == old(self).monster_seq().filter(
                |w: GridVector| w != vec,
            ),
    {
        self.add_floor(vec);
        let ghost mid = *self;
        if close {
            insert_coord(&mut self.doors_closed, vec);
        } else {
            insert_coord(&mut self.doors_open, vec);
        }
        proof {
            assert forall|w: GridVector| w != vec implies #[trigger] GameWorld::same_at(
                old(self),
                self,
                w,
            ) by {
                assert(GameWorld::same_at(old(self), &mid, w));
            }
        }
    }

    /// Lays floor and puts the player there; any earlier player placement is
    /// superseded.
    pub fn add_player(&mut self, vec: GridVector)
        requires
            old(self).wf(),
            in_bounds(vec),
        ensures
            final(self).wf(),
            final(self).has_floor(vec),
            !final(self).has_wall(vec),
            final(self).door_state(vec) is None,
            !final(self).has_monster(vec),
            final(self).player_pos() == Some(vec),
            forall|w: GridVector| w != vec ==> #[trigger] GameWorld::tiles_same_at(
                old(self),
                final(self),
                w,
            ),
            final(self).monster_seq() == old(self).monster_seq().filter(
                |w: GridVector| w != vec,
            ),
    {
        self.add_floor(vec);
        let ghost mid = *self;
        self.player = Some(vec);
        proof {
            assert forall|w: GridVector| w != vec implies #[trigger] GameWorld::tiles_same_at(
                old(self),
                self,
                w,
            ) by {
                assert(GameWorld::same_at(old(self), &mid, w));
            }
        }
    }

    /// Lays floor and puts a monster there.
    pub fn add_monster(&mut self, vec: GridVector)
        requires
            old(self).wf(),
            in_bounds(vec),
        ensures
            final(self).wf(),
            final(self).has_floor(vec),
            !final(self).has_wall(vec),
            final(self).door_state(vec) is None,
            final(self).has_monster(vec),
            final(self).player_pos() != Some(vec),
            forall|w: GridVector| w != vec ==> #[trigger] GameWorld::same_at(
                old(self),
                final(self),
                w,
            ),
            final(self).player_pos() == (if old(self).player_pos() == Some(vec) {
                None::<GridVector>
            } else {
                old(self).player_pos()
            }),
            final(self).monster_seq() == old(self).monster_seq().filter(
                |w: GridVector| w != vec,
            ).push(vec),
    {
        self.add_floor(vec);
        let ghost mid = *self;
        insert_coord(&mut self.monsters, vec);
        proof {
            assert forall|w: GridVector| w != vec implies #[trigger] GameWorld::same_at(
                old(self),
                self,
                w,
            ) by {
                assert(GameWorld::same_at(old(self), &mid, w));
            }
        }
    }

    /// Whether a floor has been laid at `v`.
    pub fn is_floor(&self, vec: GridVector) -> (r: bool)
        ensures
            r == self.has_floor(vec),
    {
        contains_coord(&self.floors, vec)
    }

    /// Whether a wall stands at `v`.
    pub fn is_wall(&self, vec: GridVector) -> (r: bool)
        ensures
            r == self.has_wall(vec),
    {
        contains_coord(&self.walls, vec)
    }

    /// The door at `v`, if any: `Some(closed)`.
    pub fn door_at(&self, vec: GridVector) -> (r: Option<bool>)
        ensures
            r == self.door_state(vec),
    {
        if contains_coord(&self.doors_closed, vec) {
            Some(true)
        } else if contains_coord(&self.doors_open, vec) {
            Some(false)
        } else {
            None
        }
    }

    /// Whether a monster starts at `v`.
    pub fn is_monster(&self, vec: GridVector) -> (r: bool)
        ensures
            r == self.has_monster(vec),
    {
        contains_coord(&self.monsters, vec)
    }

    /// Where the player starts, if placed.
    pub fn get_player(&self) -> (r: Option<GridVector>)
        ensures
            r == self.player_pos(),
    {
        self.player
    }

    /// The raw floor placements.
    pub closed spec fn floor_seq(&self) -> Seq<GridVector> {
        self.floors@
    }

    /// The raw wall placements.
    pub closed spec fn wall_seq(&self) -> Seq<GridVector> {
        self.walls@
    }

    /// The raw closed-door placements.
    pub closed spec fn doors_closed_seq(&self) -> Seq<GridVector> {
        self.doors_closed@
    }

    /// The raw open-door placements.
    pub closed spec fn doors_open_seq(&self) -> Seq<GridVector> {
        self.doors_open@
    }

    /// The entity table this staging map spawns: floor tiles, walls, doors,
    /// then the player (cooldown zero) and the monsters (one cooldown unit,
    /// so the player moves first), in placement order.
    pub open spec fn spawned_entities(&self) -> Seq<GameEntity> {
        self.floor_seq().map_values(|v: GridVector| floor_entity(v)) + self.wall_seq().map_values(
            |v: GridVector| wall_entity(v),
        ) + self.doors_closed_seq().map_values(|v: GridVector| door_entity(v, true))
            + self.doors_open_seq().map_values(|v: GridVector| door_entity(v, false)) + (
        match self.player_pos() {
            Some(p) => seq![
                character_entity(p, CharacterType::Player, Controller::PlayerControlled, 0u64),
            ],
            None => Seq::<GameEntity>::empty(),
        }) + self.monster_seq().map_values(
            |v: GridVector|
                character_entity(v, CharacterType::Monster, Controller::AIControlled, 1u64),
        )
    }

    /// Builds the live entity table from the staging map.
    pub fn spawn_world(&self) -> (w: WorldModel)
        requires
            self.wf(),
        ensures
            w.wf(),
            w.entities@ == self.spawned_entities(),
    {
        let mut world = WorldModel::new();
        spawn_batch(&self.floors, BatchKind::Floor, &mut world);
        spawn_batch(&self.walls, BatchKind::Wall, &mut world);
        spawn_batch(&self.doors_closed, BatchKind::ClosedDoor, &mut world);
        spawn_batch(&self.doors_open, BatchKind::OpenDoor, &mut world);
        if let Some(p) = self.player {
            spawn_player(p, 0, &mut world);
        }
        spawn_batch(&self.monsters, BatchKind::Monster, &mut world);
        proof {
            assert(world.entities@ =~= self.spawned_entities());
        }
        world
    }

    /// The monster placements, in placement order.
    pub fn monster_coords(&self) -> (r: &Vec<GridVector>)
        ensures
            r@ == self.monster_seq(),
    {
        &self.monsters
    }
}

/// Whether `vs` contains `v`.
fn contains_coord(vs: &Vec<GridVector>, v: GridVector) -> (r: bool)
    ensures
        r == vs@.contains(v),
{
    let mut i: usize = 0;
    while i < vs.len()
        invariant
            i <= vs.len(),
            forall|j: int| 0 <= j < i ==> vs@[j] != v,
        decreases vs.len() - i,
    {
        let x = vs[i];
        if x.x == v.x && x.y == v.y {
            return true;
        }
        i = i + 1;
    }
    false
}

/// What one batched spawn call places.
#[derive(Clone, Copy, Debug, Eq, PartialEq, Structural)]
enum BatchKind {
    Floor,
    Wall,
    ClosedDoor,
    OpenDoor,
    Monster,
}

/// The record a batched spawn call of the given kind creates at `v`.
spec fn batch_entity(kind: BatchKind, v: GridVector) -> GameEntity {
    match kind {
        BatchKind::Floor => floor_entity(v),
        BatchKind::Wall => wall_entity(v),
        BatchKind::ClosedDoor => door_entity(v, true),
        BatchKind::OpenDoor => door_entity(v, false),
        BatchKind::Monster => character_entity(
            v,
            CharacterType::Monster,
            Controller::AIControlled,
            1u64,
        ),
    }
}

/// Spawns one entity of the given kind per coordinate, in order.
fn spawn_batch(vs: &Vec<GridVector>, kind: BatchKind, world: &mut WorldModel)
    requires
        old(world).wf(),
        forall|w: GridVector| vs@.contains(w) ==> in_bounds(w),
    ensures
        final(world).wf(),
        final(world).entities@ == old(world).entities@ + vs@.map_values(
            |v: GridVector| batch_entity(kind, v),
        ),
{
    let mut i: usize = 0;
    while i < vs.len()
        invariant
            world.wf(),
            i <= vs.len(),
            forall|w: GridVector| vs@.contains(w) ==> in_bounds(w),
            world.entities@ == old(world).entities@ + vs@.take(i as int).map_values(
                |v: GridVector| batch_entity(kind, v),
            ),
        decreases vs.len() - i,
    {
        let v = vs[i];
        proof {
            assert(vs@.contains(vs@[i as int]));
        }
        match kind {
            BatchKind::Floor => spawn_floor(v, world),
            BatchKind::Wall => spawn_wall(v, world),
            BatchKind::ClosedDoor => spawn_door(v, true, world),
            BatchKind::OpenDoor => spawn_door(v, false, world),
            BatchKind::Monster => spawn_monster(v, 1, world),
        };
        proof {
            let f = |v2: GridVector| batch_entity(kind, v2);
            assert(vs@.take(i as int + 1) =~= vs@.take(i as int).push(vs@[i as int]));
            assert(vs@.take(i as int + 1).map_values(f) =~= vs@.take(i as int).map_values(
                f,
            ).push(f(vs@[i as int])));
        }
        i = i + 1;
    }
    proof {
        assert(vs@.take(vs@.len() as int) =~= vs@);
    }
}

} // verus!