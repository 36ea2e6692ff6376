use rusty_dungeon::actions::{
    attempt_to_attack, attempt_to_move, attempt_to_open_door, wait, MoveType, RUN_COST, TURN_COST,
    WALK_COST,
};
use rusty_dungeon::direction::GridDirection;
use rusty_dungeon::model::CharacterType;
use rusty_dungeon::vector::GridVector;
use rusty_dungeon::world::{
    spawn_door, spawn_floor, spawn_monster, spawn_player, spawn_wall, EntityKind, WorldModel,
};

fn v(x: i32, y: i32) -> GridVector {
    GridVector::new(x, y)
}

#[test]
fn wait_always_succeeds_and_costs_one_turn() {
    let mut w = WorldModel::new();
    let p = spawn_player(v(0, 0), 3, &mut w);
    assert!(wait(p, &mut w));
    assert_eq!(w.entities[p].cooldown, 3 + TURN_COST);
}

#[test]
fn move_onto_solid_fails_and_leaves_position_unchanged() {
    let mut w = WorldModel::new();
    let p = spawn_player(v(0, 0), 0, &mut w);
    spawn_wall(v(1, 0), &mut w);
    let moved = attempt_to_move(p, v(1, 0), GridDirection::East, MoveType::Walk, &mut w);
    assert!(!moved);
    assert_eq!(w.entities[p].position.coordinates, v(0, 0));
    assert_eq!(w.entities[p].position.direction, Some(GridDirection::North));
    assert_eq!(w.entities[p].cooldown, 0);
}

#[test]
fn move_onto_open_cell_succeeds_and_updates_position_and_facing() {
    let mut w = WorldModel::new();
    let p = spawn_player(v(0, 0), 0, &mut w);
    spawn_floor(v(1, 0), &mut w);
    let moved = attempt_to_move(p, v(1, 0), GridDirection::East, MoveType::Walk, &mut w);
    assert!(moved);
    assert_eq!(w.entities[p].position.coordinates, v(1, 0));
    assert_eq!(w.entities[p].position.direction, Some(GridDirection::East));
    assert_eq!(w.entities[p].cooldown, WALK_COST);
}

#[test]
fn running_costs_half_a_walk() {
    let mut w = WorldModel::new();
    let p = spawn_player(v(0, 0), 0, &mut w);
    let moved = attempt_to_move(p, v(0, 1), GridDirection::North, MoveType::Run, &mut w);
    assert!(moved);
    assert_eq!(w.entities[p].cooldown, RUN_COST);
    assert_eq!(RUN_COST * 2, WALK_COST);
}

#[test]
fn attack_destroys_the_target_outright() {
    let mut w = WorldModel::new();
    let p = spawn_player(v(0, 0), 0, &mut w);
    let m = spawn_monster(v(1, 0), 0, &mut w);
    let hit = attempt_to_attack(p, v(1, 0), CharacterType::Monster, &mut w);
    assert!(hit);
    assert!(!w.entities[m].alive);
    assert_eq!(w.entities[p].cooldown, TURN_COST);
    // a second attack finds nothing
    let hit_again = attempt_to_attack(p, v(1, 0), CharacterType::Monster, &mut w);
    assert!(!hit_again);
    assert_eq!(w.entities[p].cooldown, TURN_COST);
}

#[test]
fn attack_needs_the_expected_character_type() {
    let mut w = WorldModel::new();
    let m = spawn_monster(v(0, 0), 0, &mut w);
    let p = spawn_player(v(1, 0), 0, &mut w);
    // the monster looks for a player on an empty cell
    assert!(!attempt_to_attack(m, v(0, 1), CharacterType::Player, &mut w));
    // a monster standing there is not a valid player target
    let m2 = spawn_monster(v(0, 1), 0, &mut w);
    assert!(!attempt_to_attack(m, v(0, 1), CharacterType::Player, &mut w));
    assert!(w.entities[m2].alive);
    // but the player is
    assert!(attempt_to_attack(m, v(1, 0), CharacterType::Player, &mut w));
    assert!(!w.entities[p].alive);
}

#[test]
fn door_opens_exactly_once() {
    let mut w = WorldModel::new();
    let p = spawn_player(v(0, 0), 0, &mut w);
    let d = spawn_door(v(1, 0), true, &mut w);
    assert!(is_solid_at(&w, v(1, 0)));

    let opened = attempt_to_open_door(p, v(1, 0), &mut w);
    assert!(opened);
    assert!(matches!(w.entities[d].kind, EntityKind::Door(false)));
    assert!(!w.entities[d].solid);
    assert!(!is_solid_at(&w, v(1, 0)));
    assert_eq!(w.entities[p].cooldown, TURN_COST);

    // the second immediate attempt fails: the door is no longer closed
    let opened_again = attempt_to_open_door(p, v(1, 0), &mut w);
    assert!(!opened_again);
    assert_eq!(w.entities[p].cooldown, TURN_COST);
}

#[test]
fn opening_needs_a_door() {
    let mut w = WorldModel::new();
    let p = spawn_player(v(0, 0), 0, &mut w);
    spawn_wall(v(1, 0), &mut w);
    assert!(!attempt_to_open_door(p, v(1, 0), &mut w));
    assert!(!attempt_to_open_door(p, v(0, 1), &mut w));
}

fn is_solid_at(w: &WorldModel, c: GridVector) -> bool {
    rusty_dungeon::world::is_solids_at(c, w)
}
