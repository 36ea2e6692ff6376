//! Level builders: a fixed bordered arena, and a generated dungeon with the
//! player at the centre room and a monster in the far corner.

use vstd::prelude::*;

use crate::game_world::GameWorld;
use crate::generator::{
    create_dungeon, generated_ok, lemma_outer_perimeter_walls, placed_ok, Dungeon,
    DungeonSettings,
};
use crate::random::RandomSource;
use crate::vector::GridVector;

verus! {

/// Whether `v` lies in the fixed arena's square.
pub open spec fn arena_square(v: GridVector) -> bool {
    -10 <= v.x <= 10 && -10 <= v.y <= 10
}

/// Whether `v` lies on the fixed arena's border.
pub open spec fn arena_border(v: GridVector) -> bool {
    arena_square(v) && (v.x == -10 || v.x == 10 || v.y == -10 || v.y == 10)
}

/// Whether `v` is one of the fixed arena's monster posts.
pub open spec fn arena_monster_post(v: GridVector) -> bool {
    (v.x == 5 || v.x == -5) && (v.y == 5 || v.y == -5)
}

/// Builds the fixed arena: a 21 by 21 floor with a walled border, the
/// player at the centre and four monsters at the diagonal posts.
pub fn spawn_level() -> (w: GameWorld)
    ensures
        w.wf(),
        forall|v: GridVector| #[trigger] w.has_floor(v) <==> arena_square(v),
        forall|v: GridVector| #[trigger] w.has_wall(v) <==> arena_border(v),
        forall|v: GridVector| (#[trigger] w.door_state(v)) is None,
        w.player_pos() == Some(GridVector { x: 0, y: 0 }),
        forall|v: GridVector| #[trigger] w.has_monster(v) <==> arena_monster_post(v),
{
    let mut game_world = GameWorld::empty();
    let mut y: i32 = -10;
    while y <= 10
        invariant
            game_world.wf(),
            -10 <= y <= 11,
            forall|v: GridVector| #[trigger]
                game_world.has_floor(v) <==> (-10 <= v.x <= 10 && -10 <= v.y < y),
            forall|v: GridVector| #[trigger]
                game_world.has_wall(v) <==> (-10 <= v.x <= 10 && -10 <= v.y < y && (v.x == -10
                    || v.x == 10 || v.y == -10 || v.y == 10)),
            forall|v: GridVector| (#[trigger] game_world.door_state(v)) is None,
            game_world.player_pos() is None,
            forall|v: GridVector| !(#[trigger] game_world.has_monster(v)),
        decreases 11 - y,
    {
        let mut x: i32 = -10;
        while x <= 10
            invariant
                game_world.wf(),
                -10 <= y <= 10,
                -10 <= x <= 11,
                forall|v: GridVector| #[trigger]
                    game_world.has_floor(v) <==> ((-10 <= v.x <= 10 && -10 <= v.y < y) || (-10
                        <= v.x < x && v.y == y)),
                forall|v: GridVector| #[trigger]
                    game_world.has_wall(v) <==> (((-10 <= v.x <= 10 && -10 <= v.y < y) || (-10
                        <= v.x < x && v.y == y)) && (v.x == -10 || v.x == 10 || v.y == -10
                        || v.y == 10)),
                forall|v: GridVector| (#[trigger] game_world.door_state(v)) is None,
                game_world.player_pos() is None,
                forall|v: GridVector| !(#[trigger] game_world.has_monster(v)),
            decreases 11 - x,
        {
            let vec = GridVector::new(x, y);
            let ghost before = game_world;
            game_world.add_floor(vec);
            let ghost mid = game_world;
            if x == -10 || y == -10 || x == 10 || y == 10 {
                game_world.add_wall(vec);
            }
            proof {
                assert forall|v: GridVector| #[trigger]
                    game_world.has_floor(v) <==> ((-10 <= v.x <= 10 && -10 <= v.y < y) || (-10
                        <= v.x < x + 1 && v.y == y)) by {
                    if v != vec {
                        assert(GameWorld::same_at(&before, &mid, v));
                        assert(GameWorld::same_at(&mid, &game_world, v));
                    }
                }
                assert forall|v: GridVector| #[trigger]
                    game_world.has_wall(v) <==> (((-10 <= v.x <= 10 && -10 <= v.y < y) || (-10
                        <= v.x < x + 1 && v.y == y)) && (v.x == -10 || v.x == 10 || v.y == -10
                        || v.y == 10)) by {
                    if v != vec {
                        assert(GameWorld::same_at(&before, &mid, v));
                        assert(GameWorld::same_at(&mid, &game_world, v));
                    }
                }
                assert forall|v: GridVector| (#[trigger] game_world.door_state(v)) is None by {
                    if v != vec {
                        assert(GameWorld::same_at(&before, &mid, v));
                        assert(GameWorld::same_at(&mid, &game_world, v));
                    }
                }
                assert forall|v: GridVector| !(#[trigger] game_world.has_monster(v)) by {
                    if v != vec {
                        assert(GameWorld::same_at(&before, &mid, v));
                        assert(GameWorld::same_at(&mid, &game_world, v));
                    }
                }
            }
            x = x + 1;
        }
        y = y + 1;
    }
    let ghost g0 = game_world;
    game_world.add_player(GridVector::new(0, 0));
    let ghost g1 = game_world;
    game_world.add_monster(GridVector::new(5, 5));
    let ghost g2 = game_world;
    game_world.add_monster(GridVector::new(5, -5));
    let ghost g3 = game_world;
    game_world.add_monster(GridVector::new(-5, 5));
    let ghost g4 = game_world;
    game_world.add_monster(GridVector::new(-5, -5));
    proof {
        let player_spot = GridVector { x: 0i32, y: 0i32 };
        let m1 = GridVector { x: 5i32, y: 5i32 };
        let m2 = GridVector { x: 5i32, y: -5i32 };
        let m3 = GridVector { x: -5i32, y: 5i32 };
        let m4 = GridVector { x: -5i32, y: -5i32 };
        assert forall|v: GridVector| #[trigger] game_world.has_floor(v) <==> arena_square(v) by {
            if v != player_spot {
                assert(GameWorld::same_at(&g0, &g1, v));
            }
            if v != m1 {
                assert(GameWorld::same_at(&g1, &g2, v));
            }
            if v != m2 {
                assert(GameWorld::same_at(&g2, &g3, v));
            }
            if v != m3 {
                assert(GameWorld::same_at(&g3, &g4, v));
            }
            if v != m4 {
                assert(GameWorld::same_at(&g4, &game_world, v));
            }
        }
        assert forall|v: GridVector| #[trigger] game_world.has_wall(v) <==> arena_border(v) by {
            if v != player_spot {
                assert(GameWorld::same_at(&g0, &g1, v));
            }
            if v != m1 {
                assert(GameWorld::same_at(&g1, &g2, v));
            }
            if v != m2 {
                assert(GameWorld::same_at(&g2, &g3, v));
            }
            if v != m3 {
                assert(GameWorld::same_at(&g3, &g4, v));
            }
            if v != m4 {
                assert(GameWorld::same_at(&g4, &game_world, v));
            }
        }
        assert forall|v: GridVector| (#[trigger] game_world.door_state(v)) is None by {
            if v != player_spot {
                assert(GameWorld::same_at(&g0, &g1, v));
            }
            if v != m1 {
                assert(GameWorld::same_at(&g1, &g2, v));
            }
            if v != m2 {
                assert(GameWorld::same_at(&g2, &g3, v));
            }
            if v != m3 {
                assert(GameWorld::same_at(&g3, &g4, v));
            }
            if v != m4 {
                assert(GameWorld::same_at(&g4, &game_world, v));
            }
        }
        assert forall|v: GridVector| #[trigger]
            game_world.has_monster(v) <==> arena_monster_post(v) by {
            if v != player_spot {
                assert(GameWorld::same_at(&g0, &g1, v));
            }
            if v != m1 {
                assert(GameWorld::same_at(&g1, &g2, v));
            }
            if v != m2 {
                assert(GameWorld::same_at(&g2, &g3, v));
            }
            if v != m3 {
                assert(GameWorld::same_at(&g3, &g4, v));
            }
            if v != m4 {
                assert(GameWorld::same_at(&g4, &game_world, v));
            }
        }
    }
    game_world
}

/// The configuration of the generated level: a 9 by 9 room grid of 3 by 3
/// rooms, each border type at a quarter weight, half the rooms
/// fill-attempted, forced outer borders and forced fill of sealed rooms.
pub open spec fn level_2_settings() -> DungeonSettings {
    DungeonSettings {
        anchor: GridVector { x: 0, y: 0 },
        rooms_horizontal: 9,
        rooms_vertical: 9,
        rooms_width: 3,
        rooms_height: 3,
        spawn_wall_probability: 250,
        spawn_passage_probability: 250,
        spawn_door_probability: 250,
        fill_room_probability: 500,
        always_fill_outer_borders: true,
        always_fill_lone_columns: false,
        always_fill_closed_rooms: true,
    }
}

/// Builds the generated level: a drawn dungeon, the player in the centre
/// room, a monster in the south-west corner room.  The outer perimeter of
/// the 37 by 37 tile rectangle is all wall.
pub fn spawn_level_2(rng: &mut RandomSource) -> (w: GameWorld)
    requires
        old(rng).wf(),
    ensures
        final(rng).wf(),
        w.wf(),
        w.player_pos() == Some(GridVector { x: 18, y: 18 }),
        w.has_monster(GridVector { x: 2, y: 2 }),
        forall|v: GridVector|
            0 <= v.x <= 36 && 0 <= v.y <= 36 && (v.x == 0 || v.x == 36 || v.y == 0 || v.y == 36)
                ==> #[trigger] w.has_wall(v),
{
    let rooms_horizontal: usize = 9;
    let rooms_vertical: usize = 9;
    let mut game_world = GameWorld::empty();
    let settings = DungeonSettings {
        anchor: GridVector::zero(),
        rooms_horizontal: rooms_horizontal,
        rooms_vertical: rooms_vertical,
        rooms_width: 3,
        rooms_height: 3,
        spawn_wall_probability: 250,
        spawn_passage_probability: 250,
        spawn_door_probability: 250,
        fill_room_probability: 500,
        always_fill_outer_borders: true,
        always_fill_lone_columns: false,
        always_fill_closed_rooms: true,
    };
    let ghost gs = settings;
    let ghost w0 = game_world;
    create_dungeon(&mut game_world, settings, rng);
    let ghost placed = game_world;
    let ghost d = choose|d: Dungeon|
        #[trigger] generated_ok(&d, &gs) && placed_ok(&w0, &placed, &d, &gs);
    let player_x = 4 * (rooms_horizontal as i32 / 2) + 2;
    let player_y = 4 * (rooms_vertical as i32 / 2) + 2;
    game_world.add_player(GridVector::new(player_x, player_y));
    let ghost after_player = game_world;
    game_world.add_monster(GridVector::new(2, 2));
    proof {
        assert forall|v: GridVector|
            0 <= v.x <= 36 && 0 <= v.y <= 36 && (v.x == 0 || v.x == 36 || v.y == 0 || v.y == 36)
                implies #[trigger] game_world.has_wall(v) by {
            lemma_outer_perimeter_walls(&w0, &placed, &d, &gs, v);
            assert(v != (GridVector { x: 18i32, y: 18i32 }) && v != (GridVector {
                x: 2i32,
                y: 2i32,
            }));
            assert(GameWorld::tiles_same_at(&placed, &after_player, v));
            assert(GameWorld::same_at(&after_player, &game_world, v));
        }
    }
    game_world
}

} // verus!
