//! The live world: an entity table (arena of ids) whose records carry the
//! facets of the data model — kind, grid position, solidity, cooldown and
//! controller.  Defeated entities stay in the table with `alive == false`, so
//! ids are stable and iteration order is creation order.

use vstd::prelude::*;

use crate::direction::GridDirection;
use crate::model::CharacterType;
use crate::vector::{in_bounds, GridVector};

verus! {

broadcast use vstd::seq_lib::lemma_seq_contains_after_push;

/// What an entity is; interior state (a door's closed flag, a switch's on
/// flag) mutates, the variant itself never changes.
#[derive(Clone, Copy, Debug, Eq, PartialEq, Structural)]
pub enum EntityKind {
    Static,
    Character(CharacterType),
    /// The payload is true while the door is closed.
    Door(bool),
    /// The payload is true while the switch is on.
    Switch(bool),
}

/// Who decides a character's actions.
#[derive(Clone, Copy, Debug, Eq, PartialEq, Structural)]
pub enum Controller {
    PlayerControlled,
    AIControlled,
}

/// Where an entity stands and, for oriented entities, which way it faces.
#[derive(Clone, Copy, Debug)]
pub struct GridPosition {
    pub coordinates: GridVector,
    pub direction: Option<GridDirection>,
}

/// One row of the entity table.
#[derive(Clone, Copy, Debug)]
pub struct GameEntity {
    pub alive: bool,
    pub kind: EntityKind,
    pub position: GridPosition,
    /// Whether the entity blocks movement into its cell.
    pub solid: bool,
    /// Turns until ready, in tenths of a turn; meaningful for characters.
    pub cooldown: u64,
    /// Meaningful for characters only.
    pub controller: Option<Controller>,
}

/// The entity table.
pub struct WorldModel {
    pub entities: Vec<GameEntity>,
}

/// Whether `e` is a living character of type `t` standing at `c`.
pub open spec fn char_match(e: GameEntity, t: CharacterType, c: GridVector) -> bool {
    &&& e.alive
    &&& e.kind == EntityKind::Character(t)
    &&& e.position.coordinates == c
}

/// Whether `e` is a living door standing at `c`.
pub open spec fn door_match(e: GameEntity, c: GridVector) -> bool {
    &&& e.alive
    &&& e.kind is Door
    &&& e.position.coordinates == c
}

/// The index of the first entry from `i` on that is a living character of
/// type `t` at `c`.
pub open spec fn first_char_from(
    s: Seq<GameEntity>,
    t: CharacterType,
    c: GridVector,
    i: int,
) -> Option<int>
    decreases s.len() - i,
{
    if i < 0 || i >= s.len() {
        None
    } else if char_match(s[i], t, c) {
        Some(i)
    } else {
        first_char_from(s, t, c, i + 1)
    }
}

/// The index of the first entry from `i` on that is a living door at `c`.
pub open spec fn first_door_from(s: Seq<GameEntity>, c: GridVector, i: int) -> Option<int>
    decreases s.len() - i,
{
    if i < 0 || i >= s.len() {
        None
    } else if door_match(s[i], c) {
        Some(i)
    } else {
        first_door_from(s, c, i + 1)
    }
}

/// What a `Some` or `None` result of `first_char_from` means about the
/// entries of the table.
pub proof fn lemma_first_char_from(s: Seq<GameEntity>, t: CharacterType, c: GridVector, i: int)
    requires
        0 <= i <= s.len(),
    ensures
        match first_char_from(s, t, c, i) {
            Some(j) => i <= j < s.len() && char_match(s[j], t, c) && (forall|k: int|
                i <= k < j ==> !char_match(#[trigger] s[k], t, c)),
            None => forall|k: int| i <= k < s.len() ==> !char_match(#[trigger] s[k], t, c),
        },
    decreases s.len() - i,
{
    if i < s.len() && !char_match(s[i], t, c) {
        lemma_first_char_from(s, t, c, i + 1);
    }
}

/// What a `Some` or `None` result of `first_door_from` means about the
/// entries of the table.
pub proof fn lemma_first_door_from(s: Seq<GameEntity>, c: GridVector, i: int)
    requires
        0 <= i <= s.len(),
    ensures
        match first_door_from(s, c, i) {
            Some(j) => i <= j < s.len() && door_match(s[j], c) && (forall|k: int|
                i <= k < j ==> !door_match(#[trigger] s[k], c)),
            None => forall|k: int| i <= k < s.len() ==> !door_match(#[trigger] s[k], c),
        },
    decreases s.len() - i,
{
    if i < s.len() && !door_match(s[i], c) {
        lemma_first_door_from(s, c, i + 1);
    }
}

/// Whether `a` and `b` are the same entity in identity: the kind variant
/// (and a character's type) never changes, only interior state does.
pub open spec fn same_identity(a: GameEntity, b: GameEntity) -> bool {
    match (a.kind, b.kind) {
        (EntityKind::Static, EntityKind::Static) => true,
        (EntityKind::Character(x), EntityKind::Character(y)) => x == y,
        (EntityKind::Door(_), EntityKind::Door(_)) => true,
        (EntityKind::Switch(_), EntityKind::Switch(_)) => true,
        _ => false,
    }
}

/// Well-formedness of one record: coordinates stay in range, a character is
/// solid, faces somewhere and has a controller, nothing else has one, and a
/// door is solid exactly while it is closed.
pub open spec fn entity_wf(e: GameEntity) -> bool {
    &&& in_bounds(e.position.coordinates)
    &&& (e.kind is Character ==> e.solid && e.position.direction is Some && e.controller is Some)
    &&& (e.kind !is Character ==> e.controller is None)
    &&& (e.kind matches EntityKind::Door(closed) ==> e.solid == closed)
}

/// Replacing a record with another well-formed one keeps a table well-formed.
pub proof fn lemma_wf_update(s: Seq<GameEntity>, i: int, e: GameEntity)
    requires
        forall|j: int| 0 <= j < s.len() ==> entity_wf(#[trigger] s[j]),
        0 <= i < s.len(),
        entity_wf(e),
    ensures
        forall|j: int| 0 <= j < s.update(i, e).len() ==> entity_wf(#[trigger] s.update(i, e)[j]),
{
}

/// Whether some living solid entity of `s` occupies `c`.
pub open spec fn solid_at_seq(s: Seq<GameEntity>, c: GridVector) -> bool {
    exists|i: int|
        0 <= i < s.len() && (#[trigger] s[i]).alive && s[i].solid && s[i].position.coordinates
            == c
}

/// Whether a living solid of `s` that is neither a character nor a door — a
/// wall-like obstacle — occupies `c`.
pub open spec fn static_solid_at_seq(s: Seq<GameEntity>, c: GridVector) -> bool {
    exists|i: int|
        0 <= i < s.len() && (#[trigger] s[i]).alive && s[i].solid && s[i].kind !is Character
            && s[i].kind !is Door && s[i].position.coordinates == c
}

/// The cell one step from entity `entity`'s position along `d`.
pub open spec fn shifted_spec(s: Seq<GameEntity>, entity: int, d: GridDirection) -> GridVector {
    GridVector {
        x: (s[entity].position.coordinates.x + GridVector::spec_from_direction(d).x) as i32,
        y: (s[entity].position.coordinates.y + GridVector::spec_from_direction(d).y) as i32,
    }
}

impl WorldModel {
    /// Structural invariant of the table: every record is well-formed.
    pub open spec fn wf(&self) -> bool {
        forall|i: int| 0 <= i < self.entities.len() ==> entity_wf(#[trigger] self.entities@[i])
    }

    /// Whether `id` names a living character.
    pub open spec fn is_actor(&self, id: int) -> bool {
        &&& 0 <= id < self.entities.len()
        &&& self.entities@[id].alive
        &&& self.entities@[id].kind is Character
    }

    /// Whether some living solid entity occupies `c`.
    pub open spec fn solid_at(&self, c: GridVector) -> bool {
        solid_at_seq(self.entities@, c)
    }

    /// Whether a living solid that is neither a character nor a door — a
    /// wall-like obstacle — occupies `c`.
    pub open spec fn static_solid_at(&self, c: GridVector) -> bool {
        static_solid_at_seq(self.entities@, c)
    }

    pub fn new() -> (r: Self)
        ensures
            r.wf(),
            r.entities@ == Seq::<GameEntity>::empty(),
    {
        Self { entities: Vec::new() }
    }

    /// A mutable reference to one row of the table.
    pub fn entity_at_mut(&mut self, i: usize) -> (e: &mut GameEntity)
        requires
            i < old(self).entities.len(),
        ensures
            *e == old(self).entities@[i as int],
            final(self).entities@ == old(self).entities@.update(i as int, *final(e)),
    {
        &mut self.entities[i]
    }
}

/// The record of a plain floor tile at `vec`.
pub open spec fn floor_entity(vec: GridVector) -> GameEntity {
    GameEntity {
        alive: true,
        kind: EntityKind::Static,
        position: GridPosition { coordinates: vec, direction: None },
        solid: false,
        cooldown: 0,
        controller: None,
    }
}

/// The record of a wall at `vec`.
pub open spec fn wall_entity(vec: GridVector) -> GameEntity {
    GameEntity {
        alive: true,
        kind: EntityKind::Static,
        position: GridPosition { coordinates: vec, direction: None },
        solid: true,
        cooldown: 0,
        controller: None,
    }
}

/// The record of a door at `vec`; solid exactly while closed.
pub open spec fn door_entity(vec: GridVector, closed: bool) -> GameEntity {
    GameEntity {
        alive: true,
        kind: EntityKind::Door(closed),
        position: GridPosition { coordinates: vec, direction: None },
        solid: closed,
        cooldown: 0,
        controller: None,
    }
}

/// The record of a freshly spawned character at `vec`, facing north.
pub open spec fn character_entity(
    vec: GridVector,
    t: CharacterType,
    controller: Controller,
    cooldown: u64,
) -> GameEntity {
    GameEntity {
        alive: true,
        kind: EntityKind::Character(t),
        position: GridPosition { coordinates: vec, direction: Some(GridDirection::North) },
        solid: true,
        cooldown: cooldown,
        controller: Some(controller),
    }
}

/// Spawns a floor tile; returns its id.
pub fn spawn_floor(vec: GridVector, world: &mut WorldModel) -> (id: usize)
    requires
        old(world).wf(),
        in_bounds(vec),
    ensures
        final(world).wf(),
        id == old(world).entities.len(),
        final(world).entities@ == old(world).entities@.push(floor_entity(vec)),
{
    let id = world.entities.len();
    world.entities.push(
        GameEntity {
            alive: true,
            kind: EntityKind::Static,
            position: GridPosition { coordinates: vec, direction: None },
            solid: false,
            cooldown: 0,
            controller: None,
        },
    );
    id
}

/// Spawns a wall; returns its id.
pub fn spawn_wall(vec: GridVector, world: &mut WorldModel) -> (id: usize)
    requires
        old(world).wf(),
        in_bounds(vec),
    ensures
        final(world).wf(),
        id == old(world).entities.len(),
        final(world).entities@ == old(world).entities@.push(wall_entity(vec)),
{
    let id = world.entities.len();
    world.entities.push(
        GameEntity {
            alive: true,
            kind: EntityKind::Static,
            position: GridPosition { coordinates: vec, direction: None },
            solid: true,
            cooldown: 0,
            controller: None,
        },
    );
    id
}

/// Spawns a door, solid exactly while closed; returns its id.
pub fn spawn_door(vec: GridVector, closed: bool, world: &mut WorldModel) -> (id: usize)
    requires
        old(world).wf(),
        in_bounds(vec),
    ensures
        final(world).wf(),
        id == old(world).entities.len(),
        final(world).entities@ == old(world).entities@.push(door_entity(vec, closed)),
{
    let id = world.entities.len();
    world.entities.push(
        GameEntity {
            alive: true,
            kind: EntityKind::Door(closed),
            position: GridPosition { coordinates: vec, direction: None },
            solid: closed,
            cooldown: 0,
            controller: None,
        },
    );
    id
}

/// Spawns the player character; returns its id.
pub fn spawn_player(vec: GridVector, cooldown: u64, world: &mut WorldModel) -> (id: usize)
    requires
        old(world).wf(),
        in_bounds(vec),
    ensures
        final(world).wf(),
        id == old(world).entities.len(),
        final(world).entities@ == old(world).entities@.push(
            character_entity(vec, CharacterType::Player, Controller::PlayerControlled, cooldown),
        ),
{
    let id = world.entities.len();
    world.entities.push(
        GameEntity {
            alive: true,
            kind: EntityKind::Character(CharacterType::Player),
            position: GridPosition { coordinates: vec, direction: Some(GridDirection::North) },
            solid: true,
            cooldown: cooldown,
            controller: Some(Controller::PlayerControlled),
        },
    );
    id
}

/// Spawns a monster character; returns its id.
pub fn spawn_monster(vec: GridVector, cooldown: u64, world: &mut WorldModel) -> (id: usize)
    requires
        old(world).wf(),
        in_bounds(vec),
    ensures
        final(world).wf(),
        id == old(world).entities.len(),
        final(world).entities@ == old(world).entities@.push(
            character_entity(vec, CharacterType::Monster, Controller::AIControlled, cooldown),
        ),
{
    let id = world.entities.len();
    world.entities.push(
        GameEntity {
            alive: true,
            kind: EntityKind::Character(CharacterType::Monster),
            position: GridPosition { coordinates: vec, direction: Some(GridDirection::North) },
            solid: true,
            cooldown: cooldown,
            controller: Some(Controller::AIControlled),
        },
    );
    id
}

/// The cell one step from `entity`'s position in `direction`, or `None` for
/// an id that names no living entity.
pub fn get_shifted_coordinates(
    entity: usize,
    direction: GridDirection,
    world: &WorldModel,
) -> (r: Option<GridVector>)
    requires
        world.wf(),
    ensures
        r == (if 0 <= entity < world.entities.len() && world.entities@[entity as int].alive {
            Some(
                GridVector {
                    x: (world.entities@[entity as int].position.coordinates.x
                        + GridVector::spec_from_direction(direction).x) as i32,
                    y: (world.entities@[entity as int].position.coordinates.y
                        + GridVector::spec_from_direction(direction).y) as i32,
                },
            )
        } else {
            None
        }),
{
    if entity < world.entities.len() && world.entities[entity].alive {
        let pos = world.entities[entity].position.coordinates;
        let offset = GridVector::from_direction(&direction);
        Some(pos.add(&offset))
    } else {
        None
    }
}

/// The coordinates of every living solid entity.
pub fn get_solids(world: &WorldModel) -> (r: Vec<GridVector>)
    ensures
        forall|c: GridVector| #[trigger] r@.contains(c) <==> world.solid_at(c),
{
    let mut out: Vec<GridVector> = Vec::new();
    let mut i: usize = 0;
    while i < world.entities.len()
        invariant
            i <= world.entities.len(),
            forall|c: GridVector| #[trigger]
                out@.contains(c) <==> exists|j: int|
                    0 <= j < i && (#[trigger] world.entities@[j]).alive
                        && world.entities@[j].solid && world.entities@[j].position.coordinates
                        == c,
        decreases world.entities.len() - i,
    {
        let e = &world.entities[i];
        if e.alive && e.solid {
            out.push(e.position.coordinates);
        }
        i = i + 1;
    }
    out
}

/// The coordinates of every living wall-like solid: solid entities that are
/// neither characters nor doors.
pub fn get_static_solids(world: &WorldModel) -> (r: Vec<GridVector>)
    ensures
        forall|c: GridVector| #[trigger] r@.contains(c) <==> world.static_solid_at(c),
{
    let mut out: Vec<GridVector> = Vec::new();
    let mut i: usize = 0;
    while i < world.entities.len()
        invariant
            i <= world.entities.len(),
            forall|c: GridVector| #[trigger]
                out@.contains(c) <==> exists|j: int|
                    0 <= j < i && (#[trigger] world.entities@[j]).alive
                        && world.entities@[j].solid && world.entities@[j].kind !is Character
                        && world.entities@[j].kind !is Door
                        && world.entities@[j].position.coordinates == c,
        decreases world.entities.len() - i,
    {
        let e = &world.entities[i];
        let is_static = match e.kind {
            EntityKind::Character(_) => false,
            EntityKind::Door(_) => false,
            _ => true,
        };
        if e.alive && e.solid && is_static {
            out.push(e.position.coordinates);
        }
        i = i + 1;
    }
    out
}

/// Whether some living solid entity occupies `coordinates`.
pub fn is_solids_at(coordinates: GridVector, world: &WorldModel) -> (r: bool)
    ensures
        r == world.solid_at(coordinates),
{
    let mut i: usize = 0;
    while i < world.entities.len()
        invariant
            i <= world.entities.len(),
            forall|j: int|
                0 <= j < i ==> !((#[trigger] world.entities@[j]).alive
                    && world.entities@[j].solid && world.entities@[j].position.coordinates
                    == coordinates),
        decreases world.entities.len() - i,
    {
        let e = &world.entities[i];
        if e.alive && e.solid && e.position.coordinates.x == coordinates.x
            && e.position.coordinates.y == coordinates.y {
            return true;
        }
        i = i + 1;
    }
    false
}

/// Whether a living wall-like solid occupies `coordinates`.
pub fn is_static_solids_at(coordinates: GridVector, world: &WorldModel) -> (r: bool)
    ensures
        r == world.static_solid_at(coordinates),
{
    let mut i: usize = 0;
    while i < world.entities.len()
        invariant
            i <= world.entities.len(),
            forall|j: int|
                0 <= j < i ==> !((#[trigger] world.entities@[j]).alive
                    && world.entities@[j].solid && world.entities@[j].kind !is Character
                    && world.entities@[j].kind !is Door
                    && world.entities@[j].position.coordinates == coordinates),
        decreases world.entities.len() - i,
    {
        let e = &world.entities[i];
        let is_static = match e.kind {
            EntityKind::Character(_) => false,
            EntityKind::Door(_) => false,
            _ => true,
        };
        if e.alive && e.solid && is_static && e.position.coordinates.x == coordinates.x
            && e.position.coordinates.y == coordinates.y {
            return true;
        }
        i = i + 1;
    }
    false
}

/// The lowest id of a living character of `character_type` at `coordinates`.
pub fn get_character_at(
    character_type: CharacterType,
    coordinates: GridVector,
    world: &WorldModel,
) -> (r: Option<usize>)
    ensures
        match r {
            Some(u) => first_char_from(world.entities@, character_type, coordinates, 0) == Some(
                u as int,
            ),
            None => first_char_from(world.entities@, character_type, coordinates, 0) is None,
        },
{
    let mut i: usize = 0;
    while i < world.entities.len()
        invariant
            i <= world.entities.len(),
            first_char_from(world.entities@, character_type, coordinates, 0) == first_char_from(
                world.entities@,
                character_type,
                coordinates,
                i as int,
            ),
        decreases world.entities.len() - i,
    {
        let e = &world.entities[i];
        let type_match = match (&e.kind, &character_type) {
            (EntityKind::Character(CharacterType::Player), CharacterType::Player) => true,
            (EntityKind::Character(CharacterType::Monster), CharacterType::Monster) => true,
            _ => false,
        };
        if e.alive && type_match && e.position.coordinates.x == coordinates.x
            && e.position.coordinates.y == coordinates.y {
            return Some(i);
        }
        i = i + 1;
    }
    None
}

/// The lowest id of a living door at `coordinates`.
pub fn get_door_at(coordinates: GridVector, world: &WorldModel) -> (r: Option<usize>)
    ensures
        match r {
            Some(u) => first_door_from(world.entities@, coordinates, 0) == Some(u as int),
            None => first_door_from(world.entities@, coordinates, 0) is None,
        },
{
    let mut i: usize = 0;
    while i < world.entities.len()
        invariant
            i <= world.entities.len(),
            first_door_from(world.entities@, coordinates, 0) == first_door_from(
                world.entities@,
                coordinates,
                i as int,
            ),
        decreases world.entities.len() - i,
    {
        let e = &world.entities[i];
        let is_door = match e.kind {
            EntityKind::Door(_) => true,
            _ => false,
        };
        if e.alive && is_door && e.position.coordinates.x == coordinates.x
            && e.position.coordinates.y == coordinates.y {
            return Some(i);
        }
        i = i + 1;
    }
    None
}

} // verus!
