use rusty_dungeon::actions::{RUN_COST, TURN_COST, WALK_COST};
use rusty_dungeon::behaviors::{ai_behavior, move_attack, player_behavior, PlayerAction};
use rusty_dungeon::direction::GridDirection;
use rusty_dungeon::model::CharacterType;
use rusty_dungeon::random::RandomSource;
use rusty_dungeon::vector::GridVector;
use rusty_dungeon::world::{
    spawn_door, spawn_floor, spawn_monster, spawn_player, spawn_wall, EntityKind, WorldModel,
};

fn v(x: i32, y: i32) -> GridVector {
    GridVector::new(x, y)
}

#[test]
fn no_intent_consumes_nothing() {
    let mut w = WorldModel::new();
    let p = spawn_player(v(0, 0), 0, &mut w);
    let acted = player_behavior(p, &mut w, None);
    assert!(!acted);
    assert_eq!(w.entities[p].cooldown, 0);
}

#[test]
fn wait_intent_consumes_the_turn() {
    let mut w = WorldModel::new();
    let p = spawn_player(v(0, 0), 0, &mut w);
    let acted = player_behavior(p, &mut w, Some(PlayerAction::Wait));
    assert!(acted);
    assert_eq!(w.entities[p].cooldown, TURN_COST);
}

#[test]
fn attack_takes_precedence_over_moving_onto_open_floor() {
    let mut w = WorldModel::new();
    let p = spawn_player(v(0, 0), 0, &mut w);
    // the cell east of the player holds a monster standing on a floor tile
    spawn_floor(v(1, 0), &mut w);
    let m = spawn_monster(v(1, 0), 0, &mut w);
    let acted = player_behavior(p, &mut w, Some(PlayerAction::MoveAttack(GridDirection::East)));
    assert!(acted);
    // attacked, never moved
    assert!(!w.entities[m].alive);
    assert_eq!(w.entities[p].position.coordinates, v(0, 0));
    assert_eq!(w.entities[p].cooldown, TURN_COST);
}

#[test]
fn door_opening_takes_precedence_over_moving() {
    let mut w = WorldModel::new();
    let p = spawn_player(v(0, 0), 0, &mut w);
    let d = spawn_door(v(1, 0), true, &mut w);
    let acted = player_behavior(p, &mut w, Some(PlayerAction::MoveAttack(GridDirection::East)));
    assert!(acted);
    assert!(matches!(w.entities[d].kind, EntityKind::Door(false)));
    assert_eq!(w.entities[p].position.coordinates, v(0, 0));
}

#[test]
fn move_attack_falls_back_to_walking() {
    let mut w = WorldModel::new();
    let p = spawn_player(v(0, 0), 0, &mut w);
    let acted = player_behavior(p, &mut w, Some(PlayerAction::MoveAttack(GridDirection::North)));
    assert!(acted);
    assert_eq!(w.entities[p].position.coordinates, v(0, 1));
    assert_eq!(w.entities[p].position.direction, Some(GridDirection::North));
    assert_eq!(w.entities[p].cooldown, WALK_COST);
}

#[test]
fn move_attack_against_a_wall_does_nothing() {
    let mut w = WorldModel::new();
    let p = spawn_player(v(0, 0), 0, &mut w);
    spawn_wall(v(0, 1), &mut w);
    let acted = player_behavior(p, &mut w, Some(PlayerAction::MoveAttack(GridDirection::North)));
    assert!(!acted);
    assert_eq!(w.entities[p].position.coordinates, v(0, 0));
    assert_eq!(w.entities[p].cooldown, 0);
}

#[test]
fn run_moves_at_half_cost_and_never_attacks() {
    let mut w = WorldModel::new();
    let p = spawn_player(v(0, 0), 0, &mut w);
    let acted = player_behavior(p, &mut w, Some(PlayerAction::Run(GridDirection::East)));
    assert!(acted);
    assert_eq!(w.entities[p].position.coordinates, v(1, 0));
    assert_eq!(w.entities[p].cooldown, RUN_COST);

    // running into a monster fails instead of attacking
    let m = spawn_monster(v(2, 0), 0, &mut w);
    let acted = player_behavior(p, &mut w, Some(PlayerAction::Run(GridDirection::East)));
    assert!(!acted);
    assert!(w.entities[m].alive);
    assert_eq!(w.entities[p].position.coordinates, v(1, 0));
}

#[test]
fn move_attack_helper_attacks_the_given_type() {
    let mut w = WorldModel::new();
    let m = spawn_monster(v(0, 0), 0, &mut w);
    let p = spawn_player(v(1, 0), 0, &mut w);
    let acted = move_attack(m, GridDirection::East, CharacterType::Player, &mut w);
    assert!(acted);
    assert!(!w.entities[p].alive);
    assert_eq!(w.entities[m].position.coordinates, v(0, 0));
}

#[test]
fn boxed_in_ai_waits() {
    let mut w = WorldModel::new();
    let m = spawn_monster(v(0, 0), 0, &mut w);
    for x in -1..=1 {
        for y in -1..=1 {
            if x != 0 || y != 0 {
                spawn_wall(v(x, y), &mut w);
            }
        }
    }
    let mut rng = RandomSource::fixed(vec![0]);
    ai_behavior(m, &mut w, &mut rng);
    assert_eq!(w.entities[m].position.coordinates, v(0, 0));
    assert_eq!(w.entities[m].cooldown, TURN_COST);
}

#[test]
fn cornered_ai_attacks_the_adjacent_player() {
    let mut w = WorldModel::new();
    let m = spawn_monster(v(0, 0), 0, &mut w);
    let p = spawn_player(v(1, 0), 0, &mut w);
    for x in -1..=1 {
        for y in -1..=1 {
            if (x != 0 || y != 0) && !(x == 1 && y == 0) {
                spawn_wall(v(x, y), &mut w);
            }
        }
    }
    let mut rng = RandomSource::fixed(vec![0]);
    ai_behavior(m, &mut w, &mut rng);
    assert!(!w.entities[p].alive);
    assert_eq!(w.entities[m].position.coordinates, v(0, 0));
    assert_eq!(w.entities[m].cooldown, TURN_COST);
}

#[test]
fn ai_with_one_open_cell_walks_there() {
    let mut w = WorldModel::new();
    let m = spawn_monster(v(0, 0), 0, &mut w);
    for x in -1..=1 {
        for y in -1..=1 {
            if (x != 0 || y != 0) && !(x == 0 && y == 1) {
                spawn_wall(v(x, y), &mut w);
            }
        }
    }
    let mut rng = RandomSource::fixed(vec![0]);
    ai_behavior(m, &mut w, &mut rng);
    assert_eq!(w.entities[m].position.coordinates, v(0, 1));
    assert_eq!(w.entities[m].cooldown, WALK_COST);
}
