use rusty_dungeon::action::{execute_actions, Action};
use rusty_dungeon::direction::GridDirection;
use rusty_dungeon::vector::GridVector;
use rusty_dungeon::world::{spawn_floor, spawn_player, WorldModel};

fn v(x: i32, y: i32) -> GridVector {
    GridVector::new(x, y)
}

#[test]
fn set_coordinates_moves_the_subject() {
    let mut w = WorldModel::new();
    let p = spawn_player(v(0, 0), 0, &mut w);
    let r = Action::SetCoordinates(p, v(4, 5)).execute(&mut w);
    assert!(matches!(r, Ok(ref follow) if follow.is_empty()));
    assert_eq!(w.entities[p].position.coordinates, v(4, 5));
}

#[test]
fn set_direction_refaces_only_oriented_subjects() {
    let mut w = WorldModel::new();
    let p = spawn_player(v(0, 0), 0, &mut w);
    let f = spawn_floor(v(1, 0), &mut w);
    assert!(Action::SetDirection(p, GridDirection::West).execute(&mut w).is_ok());
    assert_eq!(w.entities[p].position.direction, Some(GridDirection::West));
    // a plain tile has no facing and never acquires one
    assert!(Action::SetDirection(f, GridDirection::West).execute(&mut w).is_ok());
    assert_eq!(w.entities[f].position.direction, None);
}

#[test]
fn effects_on_missing_subjects_fail_and_change_nothing() {
    let mut w = WorldModel::new();
    let p = spawn_player(v(0, 0), 0, &mut w);
    assert!(Action::SetCoordinates(7, v(1, 1)).execute(&mut w).is_err());
    assert!(Action::SetDirection(7, GridDirection::East).execute(&mut w).is_err());
    assert_eq!(w.entities[p].position.coordinates, v(0, 0));
}

#[test]
fn a_batch_is_drained_in_order() {
    let mut w = WorldModel::new();
    let p = spawn_player(v(0, 0), 0, &mut w);
    execute_actions(
        vec![
            Action::SetCoordinates(p, v(1, 0)),
            Action::SetDirection(p, GridDirection::East),
            Action::SetCoordinates(p, v(1, 1)),
        ],
        &mut w,
    );
    assert_eq!(w.entities[p].position.coordinates, v(1, 1));
    assert_eq!(w.entities[p].position.direction, Some(GridDirection::East));
}

#[test]
fn failed_effects_are_recovered_locally() {
    let mut w = WorldModel::new();
    let p = spawn_player(v(0, 0), 0, &mut w);
    execute_actions(
        vec![
            Action::SetCoordinates(42, v(9, 9)),
            Action::SetCoordinates(p, v(2, 2)),
        ],
        &mut w,
    );
    assert_eq!(w.entities[p].position.coordinates, v(2, 2));
}
