use rusty_dungeon::actions::{wait, TURN_COST};
use rusty_dungeon::behaviors::PlayerAction;
use rusty_dungeon::direction::GridDirection;
use rusty_dungeon::random::RandomSource;
use rusty_dungeon::scheduler::{is_player, process_turn, select_next_entity};
use rusty_dungeon::vector::GridVector;
use rusty_dungeon::world::{spawn_floor, spawn_monster, spawn_player, spawn_wall, WorldModel};

fn v(x: i32, y: i32) -> GridVector {
    GridVector::new(x, y)
}

#[test]
fn selection_rebases_cooldowns_to_the_minimum() {
    let mut w = WorldModel::new();
    let a = spawn_player(v(0, 0), 30, &mut w);
    let b = spawn_monster(v(5, 5), 10, &mut w);
    let picked = select_next_entity(&mut w);
    assert_eq!(picked, Some(b));
    // the selected actor reaches exactly zero, nobody goes negative
    assert_eq!(w.entities[b].cooldown, 0);
    assert_eq!(w.entities[a].cooldown, 20);
}

#[test]
fn selection_breaks_ties_by_lowest_id() {
    let mut w = WorldModel::new();
    let a = spawn_monster(v(0, 0), 5, &mut w);
    let _b = spawn_monster(v(1, 1), 5, &mut w);
    assert_eq!(select_next_entity(&mut w), Some(a));
}

#[test]
fn selection_ignores_tiles_and_the_dead() {
    let mut w = WorldModel::new();
    spawn_floor(v(0, 0), &mut w);
    spawn_wall(v(1, 0), &mut w);
    assert_eq!(select_next_entity(&mut w), None);
    let m = spawn_monster(v(2, 0), 7, &mut w);
    assert_eq!(select_next_entity(&mut w), Some(m));
    assert_eq!(w.entities[m].cooldown, 0);
}

#[test]
fn two_characters_alternate_by_energy() {
    // the end-to-end scheduling scenario: cooldowns 0.0 and 0.3 turns
    let mut w = WorldModel::new();
    let a = spawn_player(v(0, 0), 0, &mut w);
    let b = spawn_monster(v(5, 5), 3, &mut w);

    let first = select_next_entity(&mut w);
    assert_eq!(first, Some(a));
    assert_eq!(w.entities[a].cooldown, 0);
    assert_eq!(w.entities[b].cooldown, 3);

    // A acts with a full-turn wait
    assert!(wait(a, &mut w));
    assert_eq!(w.entities[a].cooldown, TURN_COST);
    assert_eq!(w.entities[b].cooldown, 3);

    let second = select_next_entity(&mut w);
    assert_eq!(second, Some(b));
    assert_eq!(w.entities[b].cooldown, 0);
    assert_eq!(w.entities[a].cooldown, TURN_COST - 3);
}

#[test]
fn is_player_checks_the_controller() {
    let mut w = WorldModel::new();
    let p = spawn_player(v(0, 0), 0, &mut w);
    let m = spawn_monster(v(1, 1), 0, &mut w);
    assert!(is_player(p, &w));
    assert!(!is_player(m, &w));
}

#[test]
fn tick_without_intent_leaves_the_player_pending() {
    let mut w = WorldModel::new();
    let p = spawn_player(v(0, 0), 0, &mut w);
    let mut selected = None;
    let mut rng = RandomSource::fixed(vec![0]);
    let acted = process_turn(&mut w, &mut selected, None, &mut rng);
    assert!(!acted);
    assert_eq!(selected, Some(p));
    assert_eq!(w.entities[p].cooldown, 0);
}

#[test]
fn tick_with_intent_consumes_one_player_turn() {
    let mut w = WorldModel::new();
    let p = spawn_player(v(0, 0), 0, &mut w);
    let mut selected = None;
    let mut rng = RandomSource::fixed(vec![0]);
    let acted = process_turn(
        &mut w,
        &mut selected,
        Some(PlayerAction::MoveAttack(GridDirection::North)),
        &mut rng,
    );
    assert!(acted);
    // the next actor is already picked for the following tick
    assert_eq!(selected, Some(p));
    assert_eq!(w.entities[p].position.coordinates, v(0, 1));
}

#[test]
fn tick_lets_cheaper_monsters_act_until_the_player_is_due() {
    let mut w = WorldModel::new();
    let p = spawn_player(v(0, 0), 5, &mut w);
    // a boxed-in monster that can only wait
    let m = spawn_monster(v(10, 10), 0, &mut w);
    for x in 9..=11 {
        for y in 9..=11 {
            if x != 10 || y != 10 {
                spawn_wall(v(x, y), &mut w);
            }
        }
    }
    let mut selected = None;
    let mut rng = RandomSource::fixed(vec![0]);
    let acted = process_turn(&mut w, &mut selected, Some(PlayerAction::Wait), &mut rng);
    assert!(acted);
    // the monster acted first (cooldown 0 against 5) and waited for a full
    // turn; the player then acted after a rebase of 5; the closing
    // selection rebased once more and left the monster pending at zero
    assert_eq!(w.entities[m].cooldown, 0);
    assert_eq!(w.entities[p].cooldown, 5);
    assert_eq!(selected, Some(m));
}

#[test]
fn pending_player_without_intent_stays_selected() {
    let mut w = WorldModel::new();
    let p = spawn_player(v(0, 0), 7, &mut w);
    let m = spawn_monster(v(5, 5), 9, &mut w);
    let mut selected = Some(p);
    let mut rng = RandomSource::fixed(vec![0]);
    let acted = process_turn(&mut w, &mut selected, None, &mut rng);
    assert!(!acted);
    // the scheduler yields without consuming the slot: the player stays
    // selected and the world is untouched, cooldowns included
    assert_eq!(selected, Some(p));
    assert_eq!(w.entities[p].cooldown, 7);
    assert_eq!(w.entities[m].cooldown, 9);
}

#[test]
fn tick_with_no_characters_ends_at_once() {
    let mut w = WorldModel::new();
    spawn_floor(v(0, 0), &mut w);
    let mut selected = None;
    let mut rng = RandomSource::fixed(vec![0]);
    let acted = process_turn(&mut w, &mut selected, Some(PlayerAction::Wait), &mut rng);
    assert!(!acted);
    assert_eq!(selected, None);
}
