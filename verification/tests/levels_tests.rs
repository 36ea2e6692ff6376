use rusty_dungeon::levels::{spawn_level, spawn_level_2};
use rusty_dungeon::random::RandomSource;
use rusty_dungeon::vector::GridVector;

fn v(x: i32, y: i32) -> GridVector {
    GridVector::new(x, y)
}

#[test]
fn fixed_arena_layout() {
    let w = spawn_level();
    for x in -10..=10 {
        for y in -10..=10 {
            assert!(w.is_floor(v(x, y)));
            let border = x == -10 || x == 10 || y == -10 || y == 10;
            assert_eq!(w.is_wall(v(x, y)), border, "tile ({}, {})", x, y);
            assert_eq!(w.door_at(v(x, y)), None);
        }
    }
    assert!(!w.is_floor(v(11, 0)));
    assert_eq!(w.get_player(), Some(v(0, 0)));
    for (x, y) in [(5, 5), (5, -5), (-5, 5), (-5, -5)] {
        assert!(w.is_monster(v(x, y)));
    }
    assert!(!w.is_monster(v(0, 0)));
}

#[test]
fn generated_level_places_characters_and_rim() {
    let mut rng = RandomSource::entropy();
    let w = spawn_level_2(&mut rng);
    assert_eq!(w.get_player(), Some(v(18, 18)));
    assert!(w.is_monster(v(2, 2)));
    for t in 0..=36 {
        assert!(w.is_wall(v(t, 0)));
        assert!(w.is_wall(v(t, 36)));
        assert!(w.is_wall(v(0, t)));
        assert!(w.is_wall(v(36, t)));
    }
}

#[test]
fn generated_level_spawns_a_playable_world() {
    let mut rng = RandomSource::entropy();
    let staged = spawn_level_2(&mut rng);
    let world = staged.spawn_world();
    assert!(world.entities.len() > 0);
    let players = world
        .entities
        .iter()
        .filter(|e| e.controller == Some(rusty_dungeon::world::Controller::PlayerControlled))
        .count();
    assert_eq!(players, 1);
}
