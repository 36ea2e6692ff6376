use rusty_dungeon::game_world::GameWorld;
use rusty_dungeon::generator::{
    create_dungeon, generate_dungeon, select_border_type, select_room_type, BorderType,
    DungeonSettings, RoomType, PROBABILITY_SCALE,
};
use rusty_dungeon::random::RandomSource;
use rusty_dungeon::vector::GridVector;

fn v(x: i32, y: i32) -> GridVector {
    GridVector::new(x, y)
}

fn settings(
    rooms: usize,
    wall: u32,
    passage: u32,
    door: u32,
    fill: u32,
    closed_rooms: bool,
) -> DungeonSettings {
    DungeonSettings {
        anchor: GridVector::zero(),
        rooms_horizontal: rooms,
        rooms_vertical: rooms,
        rooms_width: 3,
        rooms_height: 3,
        spawn_wall_probability: wall,
        spawn_passage_probability: passage,
        spawn_door_probability: door,
        fill_room_probability: fill,
        always_fill_outer_borders: true,
        always_fill_lone_columns: false,
        always_fill_closed_rooms: closed_rooms,
    }
}

#[test]
fn forced_weights_force_the_border_type() {
    let mut rng = RandomSource::entropy();
    for _ in 0..20 {
        let b = select_border_type(&mut rng, &settings(2, PROBABILITY_SCALE, 0, 0, 0, false));
        assert_eq!(b, BorderType::Wall);
        let b = select_border_type(&mut rng, &settings(2, 0, PROBABILITY_SCALE, 0, 0, false));
        assert_eq!(b, BorderType::Passage);
        let b = select_border_type(&mut rng, &settings(2, 0, 0, PROBABILITY_SCALE, 0, false));
        assert_eq!(b, BorderType::Door);
        let b = select_border_type(&mut rng, &settings(2, 0, 0, 0, 0, false));
        assert_eq!(b, BorderType::Nothing);
    }
}

#[test]
fn forced_weights_force_the_room_type() {
    let mut rng = RandomSource::entropy();
    for _ in 0..20 {
        let r = select_room_type(&mut rng, &settings(2, 0, 0, 0, 0, false));
        assert_eq!(r, RoomType::Empty);
        let r = select_room_type(&mut rng, &settings(2, 0, 0, 0, PROBABILITY_SCALE, false));
        assert_eq!(r, RoomType::AttemptedToFill);
    }
}

#[test]
fn outer_borders_are_forced_to_walls_in_the_drawn_lattice() {
    let mut rng = RandomSource::entropy();
    let s = settings(4, 300, 300, 300, 500, true);
    let d = generate_dungeon(&s, &mut rng);
    for x in 0..4usize {
        assert_eq!(d.horizontal_borders[x * 5], BorderType::Wall);
        assert_eq!(d.horizontal_borders[x * 5 + 4], BorderType::Wall);
    }
    for y in 0..4usize {
        assert_eq!(d.vertical_borders[y], BorderType::Wall);
        assert_eq!(d.vertical_borders[4 * 4 + y], BorderType::Wall);
    }
}

#[test]
fn perimeter_tiles_are_all_walls() {
    let mut rng = RandomSource::entropy();
    let mut w = GameWorld::empty();
    // arbitrary interior weights; only the outer border flag matters
    create_dungeon(&mut w, settings(3, 250, 250, 250, 500, true), &mut rng);
    // 3 rooms of width 3 at pitch 4: tiles 0..=12 on each axis
    for t in 0..=12 {
        assert!(w.is_wall(v(t, 0)), "south rim at {}", t);
        assert!(w.is_wall(v(t, 12)), "north rim at {}", t);
        assert!(w.is_wall(v(0, t)), "west rim at {}", t);
        assert!(w.is_wall(v(12, t)), "east rim at {}", t);
    }
}

#[test]
fn forced_passages_leave_exactly_one_gap_per_interior_edge() {
    let mut rng = RandomSource::entropy();
    let mut w = GameWorld::empty();
    create_dungeon(&mut w, settings(3, 0, PROBABILITY_SCALE, 0, 0, false), &mut rng);
    // interior horizontal edges run at y = 4 and y = 8; each run spans
    // three tiles and opens only at its middle one
    for y in [4, 8] {
        for x in 0..3 {
            let run = [v(4 * x + 1, y), v(4 * x + 2, y), v(4 * x + 3, y)];
            assert!(w.is_wall(run[0]));
            assert!(!w.is_wall(run[1]) && w.is_floor(run[1]));
            assert!(w.is_wall(run[2]));
        }
    }
    // and the vertical ones at x = 4 and x = 8
    for x in [4, 8] {
        for y in 0..3 {
            let run = [v(x, 4 * y + 1), v(x, 4 * y + 2), v(x, 4 * y + 3)];
            assert!(w.is_wall(run[0]));
            assert!(!w.is_wall(run[1]) && w.is_floor(run[1]));
            assert!(w.is_wall(run[2]));
        }
    }
}

#[test]
fn forced_doors_stand_closed_at_run_midpoints() {
    let mut rng = RandomSource::entropy();
    let mut w = GameWorld::empty();
    create_dungeon(&mut w, settings(2, 0, 0, PROBABILITY_SCALE, 0, false), &mut rng);
    // the single interior vertical edge of the lower row runs at x = 4
    assert_eq!(w.door_at(v(4, 2)), Some(true));
    assert!(w.is_wall(v(4, 1)));
    assert!(w.is_wall(v(4, 3)));
}

#[test]
fn single_hollow_room() {
    // a 1 by 1 room grid with forced outer borders and no room fill
    // produces exactly a hollow room: walled perimeter, empty interior,
    // no doors and no characters
    let mut rng = RandomSource::entropy();
    let mut w = GameWorld::empty();
    create_dungeon(&mut w, settings(1, 0, 0, 0, 0, false), &mut rng);
    for x in 0..=4 {
        for y in 0..=4 {
            let on_rim = x == 0 || x == 4 || y == 0 || y == 4;
            assert_eq!(w.is_wall(v(x, y)), on_rim, "tile ({}, {})", x, y);
            assert!(w.is_floor(v(x, y)));
            assert_eq!(w.door_at(v(x, y)), None);
            assert!(!w.is_monster(v(x, y)));
        }
    }
    assert_eq!(w.get_player(), None);
    // nothing outside the rectangle was touched
    assert!(!w.is_floor(v(5, 2)));
    assert!(!w.is_floor(v(-1, 0)));
}

#[test]
fn equal_fixed_sources_reproduce_the_dungeon() {
    let raws = vec![5u64, 17, 994, 3, 42, 618, 77, 250, 901, 11, 499, 750];
    let mut r1 = RandomSource::fixed(raws.clone());
    let mut r2 = RandomSource::fixed(raws);
    let mut w1 = GameWorld::empty();
    let mut w2 = GameWorld::empty();
    create_dungeon(&mut w1, settings(3, 300, 250, 200, 400, true), &mut r1);
    create_dungeon(&mut w2, settings(3, 300, 250, 200, 400, true), &mut r2);
    for x in 0..=12 {
        for y in 0..=12 {
            assert_eq!(w1.is_wall(v(x, y)), w2.is_wall(v(x, y)), "wall ({}, {})", x, y);
            assert_eq!(w1.is_floor(v(x, y)), w2.is_floor(v(x, y)));
            assert_eq!(w1.door_at(v(x, y)), w2.door_at(v(x, y)), "door ({}, {})", x, y);
        }
    }
    // and both sources were advanced identically
    assert_eq!(r1.next_below(1000), r2.next_below(1000));
}

#[test]
fn generation_places_no_characters() {
    let mut rng = RandomSource::entropy();
    let mut w = GameWorld::empty();
    create_dungeon(&mut w, settings(2, 300, 300, 300, 500, true), &mut rng);
    assert_eq!(w.get_player(), None);
    for x in 0..=8 {
        for y in 0..=8 {
            assert!(!w.is_monster(v(x, y)));
        }
    }
}

#[test]
fn sealed_rooms_are_fill_attempted_when_forced() {
    // all borders walls and closed-room fill forced: the lone room of a
    // 1 by 1 grid is fully enclosed, so its whole 3 by 3 interior is
    // obstructed (every corner, edge and the centre qualify)
    let mut rng = RandomSource::entropy();
    let mut w = GameWorld::empty();
    create_dungeon(&mut w, settings(1, PROBABILITY_SCALE, 0, 0, 0, true), &mut rng);
    for x in 1..=3 {
        for y in 1..=3 {
            assert!(w.is_wall(v(x, y)), "interior tile ({}, {})", x, y);
        }
    }
}

#[test]
fn degenerate_grid_produces_a_single_corner() {
    let mut rng = RandomSource::entropy();
    let mut w = GameWorld::empty();
    create_dungeon(&mut w, settings(0, 0, 0, 0, 0, false), &mut rng);
    // a zero-room grid still writes its lone corner point
    assert!(w.is_floor(v(0, 0)) || w.is_wall(v(0, 0)));
    assert!(!w.is_floor(v(1, 0)));
}
