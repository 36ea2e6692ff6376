use rusty_dungeon::game_world::GameWorld;
use rusty_dungeon::model::CharacterType;
use rusty_dungeon::vector::GridVector;
use rusty_dungeon::world::{Controller, EntityKind};

fn v(x: i32, y: i32) -> GridVector {
    GridVector::new(x, y)
}

#[test]
fn empty_map_has_nothing() {
    let w = GameWorld::empty();
    assert!(!w.is_floor(v(0, 0)));
    assert!(!w.is_wall(v(0, 0)));
    assert_eq!(w.door_at(v(0, 0)), None);
    assert!(!w.is_monster(v(0, 0)));
    assert_eq!(w.get_player(), None);
}

#[test]
fn placements_lay_floor_and_their_own_layer() {
    let mut w = GameWorld::empty();
    w.add_floor(v(0, 0));
    w.add_wall(v(1, 0));
    w.add_door(v(2, 0), true);
    w.add_door(v(3, 0), false);
    w.add_player(v(4, 0));
    w.add_monster(v(5, 0));
    for x in 0..=5 {
        assert!(w.is_floor(v(x, 0)));
    }
    assert!(w.is_wall(v(1, 0)));
    assert_eq!(w.door_at(v(2, 0)), Some(true));
    assert_eq!(w.door_at(v(3, 0)), Some(false));
    assert_eq!(w.get_player(), Some(v(4, 0)));
    assert!(w.is_monster(v(5, 0)));
}

#[test]
fn each_placement_clears_what_stood_there() {
    let mut w = GameWorld::empty();
    w.add_wall(v(0, 0));
    w.add_floor(v(0, 0));
    assert!(!w.is_wall(v(0, 0)));
    assert!(w.is_floor(v(0, 0)));

    w.add_door(v(0, 0), true);
    assert_eq!(w.door_at(v(0, 0)), Some(true));
    w.add_wall(v(0, 0));
    assert_eq!(w.door_at(v(0, 0)), None);
    assert!(w.is_wall(v(0, 0)));

    w.add_monster(v(0, 0));
    assert!(!w.is_wall(v(0, 0)));
    assert!(w.is_monster(v(0, 0)));
    w.add_floor(v(0, 0));
    assert!(!w.is_monster(v(0, 0)));

    w.add_player(v(0, 0));
    assert_eq!(w.get_player(), Some(v(0, 0)));
    w.add_floor(v(0, 0));
    assert_eq!(w.get_player(), None);
}

#[test]
fn a_new_player_placement_supersedes_the_old() {
    let mut w = GameWorld::empty();
    w.add_player(v(0, 0));
    w.add_player(v(3, 3));
    assert_eq!(w.get_player(), Some(v(3, 3)));
}

#[test]
fn spawn_world_builds_the_matching_entity_table() {
    let mut staged = GameWorld::empty();
    staged.add_floor(v(0, 0));
    staged.add_wall(v(1, 0));
    staged.add_door(v(2, 0), true);
    staged.add_player(v(3, 0));
    staged.add_monster(v(4, 0));

    let world = staged.spawn_world();
    // every placement lays a floor tile beneath itself, so five floors
    // precede the wall, the door, the player and the monster
    assert_eq!(world.entities.len(), 9);

    let wall = world
        .entities
        .iter()
        .find(|e| matches!(e.kind, EntityKind::Static) && e.solid)
        .unwrap();
    assert_eq!(wall.position.coordinates, v(1, 0));

    let door = world
        .entities
        .iter()
        .find(|e| matches!(e.kind, EntityKind::Door(_)))
        .unwrap();
    assert_eq!(door.position.coordinates, v(2, 0));
    assert!(door.solid);

    let player = world
        .entities
        .iter()
        .find(|e| matches!(e.kind, EntityKind::Character(CharacterType::Player)))
        .unwrap();
    assert_eq!(player.position.coordinates, v(3, 0));
    assert_eq!(player.cooldown, 0);
    assert_eq!(player.controller, Some(Controller::PlayerControlled));

    let monster = world
        .entities
        .iter()
        .find(|e| matches!(e.kind, EntityKind::Character(CharacterType::Monster)))
        .unwrap();
    assert_eq!(monster.position.coordinates, v(4, 0));
    // monsters start one cooldown unit behind the player
    assert_eq!(monster.cooldown, 1);
    assert_eq!(monster.controller, Some(Controller::AIControlled));
}
