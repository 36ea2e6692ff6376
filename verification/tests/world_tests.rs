use rusty_dungeon::direction::GridDirection;
use rusty_dungeon::model::CharacterType;
use rusty_dungeon::vector::GridVector;
use rusty_dungeon::world::{
    get_character_at, get_door_at, get_shifted_coordinates, get_solids, get_static_solids,
    is_solids_at, is_static_solids_at, spawn_door, spawn_floor, spawn_monster, spawn_player,
    spawn_wall, Controller, EntityKind, WorldModel,
};

fn v(x: i32, y: i32) -> GridVector {
    GridVector::new(x, y)
}

#[test]
fn spawned_records_carry_their_facets() {
    let mut w = WorldModel::new();
    let floor = spawn_floor(v(0, 0), &mut w);
    let wall = spawn_wall(v(1, 0), &mut w);
    let door = spawn_door(v(2, 0), true, &mut w);
    let player = spawn_player(v(3, 0), 0, &mut w);
    let monster = spawn_monster(v(4, 0), 1, &mut w);
    assert_eq!((floor, wall, door, player, monster), (0, 1, 2, 3, 4));

    assert!(!w.entities[floor].solid);
    assert!(w.entities[wall].solid);
    assert!(matches!(w.entities[wall].kind, EntityKind::Static));
    assert!(w.entities[door].solid);
    assert!(matches!(w.entities[door].kind, EntityKind::Door(true)));
    assert!(matches!(
        w.entities[player].kind,
        EntityKind::Character(CharacterType::Player)
    ));
    assert_eq!(w.entities[player].controller, Some(Controller::PlayerControlled));
    assert_eq!(w.entities[player].cooldown, 0);
    assert_eq!(w.entities[player].position.direction, Some(GridDirection::North));
    assert_eq!(w.entities[monster].controller, Some(Controller::AIControlled));
    assert_eq!(w.entities[monster].cooldown, 1);
}

#[test]
fn open_door_is_not_solid() {
    let mut w = WorldModel::new();
    let door = spawn_door(v(0, 0), false, &mut w);
    assert!(!w.entities[door].solid);
    assert!(!is_solids_at(v(0, 0), &w));
}

#[test]
fn shifted_coordinates_follow_the_direction() {
    let mut w = WorldModel::new();
    let p = spawn_player(v(2, 3), 0, &mut w);
    assert_eq!(
        get_shifted_coordinates(p, GridDirection::NorthEast, &w),
        Some(v(3, 4))
    );
    assert_eq!(
        get_shifted_coordinates(p, GridDirection::South, &w),
        Some(v(2, 2))
    );
    assert_eq!(get_shifted_coordinates(99, GridDirection::North, &w), None);
}

#[test]
fn solidity_queries_see_living_solids_only() {
    let mut w = WorldModel::new();
    spawn_floor(v(0, 0), &mut w);
    spawn_wall(v(1, 0), &mut w);
    spawn_door(v(2, 0), true, &mut w);
    spawn_monster(v(3, 0), 0, &mut w);
    assert!(!is_solids_at(v(0, 0), &w));
    assert!(is_solids_at(v(1, 0), &w));
    assert!(is_solids_at(v(2, 0), &w));
    assert!(is_solids_at(v(3, 0), &w));
    assert!(!is_solids_at(v(4, 0), &w));

    // wall-like solids exclude characters and doors
    assert!(is_static_solids_at(v(1, 0), &w));
    assert!(!is_static_solids_at(v(2, 0), &w));
    assert!(!is_static_solids_at(v(3, 0), &w));

    let solids = get_solids(&w);
    assert!(solids.contains(&v(1, 0)));
    assert!(solids.contains(&v(2, 0)));
    assert!(solids.contains(&v(3, 0)));
    assert!(!solids.contains(&v(0, 0)));

    let statics = get_static_solids(&w);
    assert!(statics.contains(&v(1, 0)));
    assert!(!statics.contains(&v(2, 0)));
    assert!(!statics.contains(&v(3, 0)));
}

#[test]
fn character_lookup_takes_the_lowest_id_of_the_right_type() {
    let mut w = WorldModel::new();
    let m1 = spawn_monster(v(5, 5), 0, &mut w);
    let m2 = spawn_monster(v(5, 5), 0, &mut w);
    let p = spawn_player(v(6, 5), 0, &mut w);
    assert_eq!(get_character_at(CharacterType::Monster, v(5, 5), &w), Some(m1));
    assert!(m2 > m1);
    assert_eq!(get_character_at(CharacterType::Player, v(5, 5), &w), None);
    assert_eq!(get_character_at(CharacterType::Player, v(6, 5), &w), Some(p));
    assert_eq!(get_character_at(CharacterType::Monster, v(7, 7), &w), None);
}

#[test]
fn door_lookup_finds_doors_only() {
    let mut w = WorldModel::new();
    spawn_wall(v(0, 0), &mut w);
    let d = spawn_door(v(1, 0), false, &mut w);
    assert_eq!(get_door_at(v(0, 0), &w), None);
    assert_eq!(get_door_at(v(1, 0), &w), Some(d));
}
