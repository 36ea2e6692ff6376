//! The constraint-based dungeon generator: two edge lattices (horizontal and
//! vertical room borders) and a cell lattice are drawn by weighted choice,
//! corner columns are forced wherever an adjacent edge is not open, and the
//! result is written into the staging map at a fixed tile pitch.

use vstd::prelude::*;

use crate::game_world::GameWorld;
use crate::random::{lemma_weight_sum_push, weighted_pick, RandomSource};
use crate::vector::{in_bounds, GridVector};

verus! {

/// Weights are expressed in thousandths: a probability of one is this many
/// weight units.
pub const PROBABILITY_SCALE: u32 = 1000;

/// Largest admitted room-grid dimension and room size.
pub const MAX_ROOM_GRID: usize = 512;

/// Largest admitted anchor magnitude.
pub const MAX_ANCHOR: i32 = 0x10_0000;

/// What stands on one room-boundary edge.
#[derive(Clone, Copy, Debug, Eq, PartialEq, Structural)]
pub enum BorderType {
    /// Open floor along the whole edge.
    Nothing,
    Wall,
    /// A wall with a single open gap at its middle tile.
    Passage,
    /// A wall with a closed door at its middle tile.
    Door,
}

/// Whether a room cell is left open or partially obstructed.
#[derive(Clone, Copy, Debug, Eq, PartialEq, Structural)]
pub enum RoomType {
    Empty,
    AttemptedToFill,
}

/// A lattice point of the room grid.
#[derive(Clone, Copy, Debug, Eq, PartialEq, Hash, Structural)]
pub struct Point(pub i32, pub i32);

/// Configuration of one generator run.  The probability fields are weights
/// in thousandths; whatever the three border weights leave short of one is
/// the weight of an open edge, floored at zero.
pub struct DungeonSettings {
    pub anchor: GridVector,
    pub rooms_horizontal: usize,
    pub rooms_vertical: usize,
    pub rooms_width: usize,
    pub rooms_height: usize,
    pub spawn_wall_probability: u32,
    pub spawn_passage_probability: u32,
    pub spawn_door_probability: u32,
    pub fill_room_probability: u32,
    pub always_fill_outer_borders: bool,
    pub always_fill_lone_columns: bool,
    pub always_fill_closed_rooms: bool,
}

impl DungeonSettings {
    /// Machine limits on a run: dimensions and anchor small enough that
    /// every tile coordinate stays in range.
    pub open spec fn wf(&self) -> bool {
        &&& self.rooms_horizontal <= MAX_ROOM_GRID
        &&& self.rooms_vertical <= MAX_ROOM_GRID
        &&& self.rooms_width <= MAX_ROOM_GRID
        &&& self.rooms_height <= MAX_ROOM_GRID
        &&& -MAX_ANCHOR <= self.anchor.x <= MAX_ANCHOR
        &&& -MAX_ANCHOR <= self.anchor.y <= MAX_ANCHOR
    }
}

/// The weight of an open edge: whatever the three others leave short of the
/// scale, floored at zero.
pub open spec fn nothing_weight(s: &DungeonSettings) -> u64 {
    if s.spawn_wall_probability as int + s.spawn_passage_probability as int
        + s.spawn_door_probability as int >= PROBABILITY_SCALE as int {
        0u64
    } else {
        (PROBABILITY_SCALE as int - s.spawn_wall_probability as int
            - s.spawn_passage_probability as int - s.spawn_door_probability as int) as u64
    }
}

/// The weight under which each border type is drawn.
pub open spec fn border_weight(s: &DungeonSettings, b: BorderType) -> u64 {
    match b {
        BorderType::Nothing => nothing_weight(s),
        BorderType::Wall => s.spawn_wall_probability as u64,
        BorderType::Passage => s.spawn_passage_probability as u64,
        BorderType::Door => s.spawn_door_probability as u64,
    }
}

/// The weight of an empty room: whatever the fill weight leaves short of
/// the scale, floored at zero.
pub open spec fn empty_room_weight(s: &DungeonSettings) -> u64 {
    if s.fill_room_probability as int >= PROBABILITY_SCALE as int {
        0u64
    } else {
        (PROBABILITY_SCALE as int - s.fill_room_probability as int) as u64
    }
}

/// The weight under which each room type is drawn.
pub open spec fn room_weight(s: &DungeonSettings, r: RoomType) -> u64 {
    match r {
        RoomType::Empty => empty_room_weight(s),
        RoomType::AttemptedToFill => s.fill_room_probability as u64,
    }
}

/// The total border weight; always positive, since the open edge absorbs
/// whatever the scale leaves over.
pub open spec fn border_total_weight(s: &DungeonSettings) -> int {
    s.spawn_wall_probability as int + s.spawn_door_probability as int
        + s.spawn_passage_probability as int + nothing_weight(s) as int
}

/// The border type a raw draw selects: the draw is reduced modulo the total
/// weight and mapped through the cumulative intervals, in the order wall,
/// door, passage, open.  This makes every choice a function of the settings
/// and the raw value alone, so fixed sources reproduce a run exactly.
pub open spec fn drawn_border(s: &DungeonSettings, raw: u64) -> BorderType {
    let w0 = s.spawn_wall_probability as int;
    let w1 = s.spawn_door_probability as int;
    let w2 = s.spawn_passage_probability as int;
    let r = raw as int % border_total_weight(s);
    if r < w0 {
        BorderType::Wall
    } else if r < w0 + w1 {
        BorderType::Door
    } else if r < w0 + w1 + w2 {
        BorderType::Passage
    } else {
        BorderType::Nothing
    }
}

/// The total room weight; always positive, since the empty room absorbs
/// whatever the scale leaves over.
pub open spec fn room_total_weight(s: &DungeonSettings) -> int {
    empty_room_weight(s) as int + s.fill_room_probability as int
}

/// The room type a raw draw selects, as a function of the settings and the
/// raw value alone.
pub open spec fn drawn_room(s: &DungeonSettings, raw: u64) -> RoomType {
    let r = raw as int % room_total_weight(s);
    if r < empty_room_weight(s) as int {
        RoomType::Empty
    } else {
        RoomType::AttemptedToFill
    }
}

/// Draws a border type under the settings' weights.  Whatever is drawn has
/// positive weight, so forcing one weight to the whole scale and the others
/// to zero forces the outcome.
pub fn select_border_type(rng: &mut RandomSource, settings: &DungeonSettings) -> (b: BorderType)
    requires
        old(rng).wf(),
    ensures
        final(rng).wf(),
        border_weight(settings, b) > 0,
        final(rng).is_fixed() == old(rng).is_fixed(),
        old(rng).is_fixed() ==> b == drawn_border(settings, old(rng).spec_next_raw())
            && *final(rng) == old(rng).spec_advanced(),
        !old(rng).is_fixed() ==> *final(rng) == *old(rng),
{
    let nothing: u64 = {
        let used = settings.spawn_wall_probability as u64 + settings.spawn_passage_probability
            as u64 + settings.spawn_door_probability as u64;
        if used >= PROBABILITY_SCALE as u64 {
            0
        } else {
            PROBABILITY_SCALE as u64 - used
        }
    };
    let mut weights: Vec<u64> = Vec::new();
    proof {
        lemma_weight_sum_push(weights@, settings.spawn_wall_probability as u64);
    }
    weights.push(settings.spawn_wall_probability as u64);
    proof {
        lemma_weight_sum_push(weights@, settings.spawn_door_probability as u64);
    }
    weights.push(settings.spawn_door_probability as u64);
    proof {
        lemma_weight_sum_push(weights@, settings.spawn_passage_probability as u64);
    }
    weights.push(settings.spawn_passage_probability as u64);
    proof {
        lemma_weight_sum_push(weights@, nothing);
    }
    weights.push(nothing);
    let total = settings.spawn_wall_probability as u64 + settings.spawn_door_probability as u64
        + settings.spawn_passage_probability as u64 + nothing;
    let r = rng.next_below(total);
    let idx = weighted_pick(&weights, r);
    proof {
        let ws = weights@;
        assert(ws.take(0) =~= Seq::<u64>::empty());
        assert(ws.take(1) =~= ws.take(0).push(ws[0]));
        lemma_weight_sum_push(ws.take(0), ws[0]);
        assert(ws.take(2) =~= ws.take(1).push(ws[1]));
        lemma_weight_sum_push(ws.take(1), ws[1]);
        assert(ws.take(3) =~= ws.take(2).push(ws[2]));
        lemma_weight_sum_push(ws.take(2), ws[2]);
    }
    if idx == 0 {
        BorderType::Wall
    } else if idx == 1 {
        BorderType::Door
    } else if idx == 2 {
        BorderType::Passage
    } else {
        BorderType::Nothing
    }
}

/// Draws a room type under the settings' weights; a drawn type has positive
/// weight, so a fill weight of zero forces an empty room.
pub fn select_room_type(rng: &mut RandomSource, settings: &DungeonSettings) -> (r: RoomType)
    requires
        old(rng).wf(),
    ensures
        final(rng).wf(),
        room_weight(settings, r) > 0,
        final(rng).is_fixed() == old(rng).is_fixed(),
        old(rng).is_fixed() ==> r == drawn_room(settings, old(rng).spec_next_raw())
            && *final(rng) == old(rng).spec_advanced(),
        !old(rng).is_fixed() ==> *final(rng) == *old(rng),
{
    let empty: u64 = if settings.fill_room_probability >= PROBABILITY_SCALE {
        0
    } else {
        (PROBABILITY_SCALE - settings.fill_room_probability) as u64
    };
    let mut weights: Vec<u64> = Vec::new();
    proof {
        lemma_weight_sum_push(weights@, empty);
    }
    weights.push(empty);
    proof {
        lemma_weight_sum_push(weights@, settings.fill_room_probability as u64);
    }
    weights.push(settings.fill_room_probability as u64);
    let total = empty + settings.fill_room_probability as u64;
    let rand = rng.next_below(total);
    let idx = weighted_pick(&weights, rand);
    proof {
        let ws = weights@;
        assert(ws.take(0) =~= Seq::<u64>::empty());
        assert(ws.take(1) =~= ws.take(0).push(ws[0]));
        lemma_weight_sum_push(ws.take(0), ws[0]);
    }
    if idx == 0 {
        RoomType::Empty
    } else {
        RoomType::AttemptedToFill
    }
}

/// The horizontal border a lattice of dimensions `rh` by `rv` holds at
/// `(x, y)`; everything outside the lattice reads as open.
pub open spec fn hborder_of(hbs: Seq<BorderType>, rh: int, rv: int, x: int, y: int) -> BorderType {
    if 0 <= x < rh && 0 <= y <= rv {
        hbs[x * (rv + 1) + y]
    } else {
        BorderType::Nothing
    }
}

/// The vertical border a lattice of dimensions `rh` by `rv` holds at
/// `(x, y)`; everything outside the lattice reads as open.
pub open spec fn vborder_of(vbs: Seq<BorderType>, rh: int, rv: int, x: int, y: int) -> BorderType {
    if 0 <= x <= rh && 0 <= y < rv {
        vbs[x * rv + y]
    } else {
        BorderType::Nothing
    }
}

/// Whether the room cell at `(x, y)` is walled in on all four sides, read
/// off raw border lattices.
pub open spec fn closed_room_of(
    s: &DungeonSettings,
    hbs: Seq<BorderType>,
    vbs: Seq<BorderType>,
    x: int,
    y: int,
) -> bool {
    let rh = s.rooms_horizontal as int;
    let rv = s.rooms_vertical as int;
    &&& hborder_of(hbs, rh, rv, x, y) is Wall
    &&& hborder_of(hbs, rh, rv, x, y + 1) is Wall
    &&& vborder_of(vbs, rh, rv, x, y) is Wall
    &&& vborder_of(vbs, rh, rv, x + 1, y) is Wall
}

/// The horizontal borders drawn from lattice point `(x, y)` on, with the
/// source that remains: forced outer rows consume no draw, every interior
/// edge consumes exactly one.  For fixed sources this makes the whole phase
/// a function of the settings and the source's state.
pub open spec fn spec_hborders(
    s: &DungeonSettings,
    rng: RandomSource,
    x: int,
    y: int,
) -> (Seq<BorderType>, RandomSource)
    decreases s.rooms_horizontal - x, s.rooms_vertical + 1 - y,
{
    if x >= s.rooms_horizontal {
        (Seq::<BorderType>::empty(), rng)
    } else if y > s.rooms_vertical {
        spec_hborders(s, rng, x + 1, 0)
    } else {
        let drawn = if s.always_fill_outer_borders && (y == 0 || y == s.rooms_vertical) {
            (BorderType::Wall, rng)
        } else {
            (drawn_border(s, rng.spec_next_raw()), rng.spec_advanced())
        };
        let rest = spec_hborders(s, drawn.1, x, y + 1);
        (seq![drawn.0] + rest.0, rest.1)
    }
}

/// The vertical borders drawn from lattice point `(x, y)` on, with the
/// source that remains.
pub open spec fn spec_vborders(
    s: &DungeonSettings,
    rng: RandomSource,
    x: int,
    y: int,
) -> (Seq<BorderType>, RandomSource)
    decreases s.rooms_horizontal + 1 - x, s.rooms_vertical - y,
{
    if x > s.rooms_horizontal {
        (Seq::<BorderType>::empty(), rng)
    } else if y >= s.rooms_vertical {
        spec_vborders(s, rng, x + 1, 0)
    } else {
        let drawn = if s.always_fill_outer_borders && (x == 0 || x == s.rooms_horizontal) {
            (BorderType::Wall, rng)
        } else {
            (drawn_border(s, rng.spec_next_raw()), rng.spec_advanced())
        };
        let rest = spec_vborders(s, drawn.1, x, y + 1);
        (seq![drawn.0] + rest.0, rest.1)
    }
}

/// The room cells drawn from `(x, y)` on, with the source that remains:
/// forced sealed rooms consume no draw.
pub open spec fn spec_rooms(
    s: &DungeonSettings,
    hbs: Seq<BorderType>,
    vbs: Seq<BorderType>,
    rng: RandomSource,
    x: int,
    y: int,
) -> (Seq<RoomType>, RandomSource)
    decreases s.rooms_horizontal - x, s.rooms_vertical - y,
{
    if x >= s.rooms_horizontal {
        (Seq::<RoomType>::empty(), rng)
    } else if y >= s.rooms_vertical {
        spec_rooms(s, hbs, vbs, rng, x + 1, 0)
    } else {
        let drawn = if s.always_fill_closed_rooms && closed_room_of(s, hbs, vbs, x, y) {
            (RoomType::AttemptedToFill, rng)
        } else {
            (drawn_room(s, rng.spec_next_raw()), rng.spec_advanced())
        };
        let rest = spec_rooms(s, hbs, vbs, drawn.1, x, y + 1);
        (seq![drawn.0] + rest.0, rest.1)
    }
}

/// The drawn lattices of one generator run: two edge lattices, the corner
/// columns, and the room cells, each stored row by row.
pub struct Dungeon {
    pub rooms_horizontal: usize,
    pub rooms_vertical: usize,
    /// Edges running east-west, indexed `x * (rooms_vertical + 1) + y` with
    /// `x < rooms_horizontal`, `y <= rooms_vertical`.
    pub horizontal_borders: Vec<BorderType>,
    /// Edges running north-south, indexed `x * rooms_vertical + y` with
    /// `x <= rooms_horizontal`, `y < rooms_vertical`.
    pub vertical_borders: Vec<BorderType>,
    /// Corner points, indexed `x * (rooms_vertical + 1) + y`.
    pub columns: Vec<bool>,
    /// Room cells, indexed `x * rooms_vertical + y`.
    pub rooms: Vec<RoomType>,
}

impl Dungeon {
    /// The edge lattices have the sizes the dimensions demand.
    pub open spec fn borders_ok(&self) -> bool {
        &&& self.rooms_horizontal <= MAX_ROOM_GRID
        &&& self.rooms_vertical <= MAX_ROOM_GRID
        &&& self.horizontal_borders.len() == self.rooms_horizontal * (self.rooms_vertical + 1)
        &&& self.vertical_borders.len() == (self.rooms_horizontal + 1) * self.rooms_vertical
    }

    /// All four lattices have the sizes the dimensions demand.
    pub open spec fn dims_ok(&self) -> bool {
        &&& self.borders_ok()
        &&& self.columns.len() == (self.rooms_horizontal + 1) * (self.rooms_vertical + 1)
        &&& self.rooms.len() == self.rooms_horizontal * self.rooms_vertical
    }

    /// The horizontal border at lattice point `(x, y)`; everything outside
    /// the lattice reads as open.
    pub open spec fn hborder(&self, x: int, y: int) -> BorderType {
        hborder_of(
            self.horizontal_borders@,
            self.rooms_horizontal as int,
            self.rooms_vertical as int,
            x,
            y,
        )
    }

    /// The vertical border at lattice point `(x, y)`; everything outside
    /// the lattice reads as open.
    pub open spec fn vborder(&self, x: int, y: int) -> BorderType {
        vborder_of(
            self.vertical_borders@,
            self.rooms_horizontal as int,
            self.rooms_vertical as int,
            x,
            y,
        )
    }

    /// Whether the corner at `(x, y)` carries a column.
    pub open spec fn column_at(&self, x: int, y: int) -> bool {
        self.columns@[x * (self.rooms_vertical + 1) + y]
    }

    /// The room cell at `(x, y)`.
    pub open spec fn room_at(&self, x: int, y: int) -> RoomType {
        self.rooms@[x * self.rooms_vertical + y]
    }
}

/// Whether the corner at `(x, y)` must carry a column: always when lone
/// columns are forced or the corner lies on the outer boundary, and
/// otherwise whenever any of its four adjacent edges is not open — no
/// column may float free of every wall it touches.
pub open spec fn forced_column(d: &Dungeon, s: &DungeonSettings, x: int, y: int) -> bool {
    ||| s.always_fill_lone_columns
    ||| x == 0
    ||| x == s.rooms_horizontal
    ||| y == 0
    ||| y == s.rooms_vertical
    ||| !(d.hborder(x - 1, y) is Nothing && d.hborder(x, y) is Nothing && d.vborder(x, y - 1)
        is Nothing && d.vborder(x, y) is Nothing)
}

/// Whether the room cell at `(x, y)` is walled in on all four sides.
pub open spec fn closed_room(d: &Dungeon, x: int, y: int) -> bool {
    &&& d.hborder(x, y) is Wall
    &&& d.hborder(x, y + 1) is Wall
    &&& d.vborder(x, y) is Wall
    &&& d.vborder(x + 1, y) is Wall
}

/// What one drawn horizontal border must satisfy: forced outer rows are
/// walls, every other drawn edge has positive weight.
pub open spec fn hborder_ok(s: &DungeonSettings, b: BorderType, y: int) -> bool {
    if s.always_fill_outer_borders && (y == 0 || y == s.rooms_vertical) {
        b is Wall
    } else {
        border_weight(s, b) > 0
    }
}

/// What one drawn vertical border must satisfy: forced outer columns are
/// walls, every other drawn edge has positive weight.
pub open spec fn vborder_ok(s: &DungeonSettings, b: BorderType, x: int) -> bool {
    if s.always_fill_outer_borders && (x == 0 || x == s.rooms_horizontal) {
        b is Wall
    } else {
        border_weight(s, b) > 0
    }
}

/// What one drawn room cell must satisfy: a sealed room is fill-attempted
/// when so configured, every other drawn cell has positive weight.
pub open spec fn room_ok(d: &Dungeon, s: &DungeonSettings, r: RoomType, x: int, y: int) -> bool {
    if s.always_fill_closed_rooms && closed_room(d, x, y) {
        r == RoomType::AttemptedToFill
    } else {
        room_weight(s, r) > 0
    }
}

/// What generation promises of a drawn dungeon: outer borders are walls
/// when so configured and every drawn edge or room has positive weight;
/// columns stand exactly where they are forced; sealed rooms are
/// fill-attempted when so configured.
pub open spec fn generated_ok(d: &Dungeon, s: &DungeonSettings) -> bool {
    &&& d.rooms_horizontal == s.rooms_horizontal
    &&& d.rooms_vertical == s.rooms_vertical
    &&& d.dims_ok()
    &&& forall|x: int, y: int|
        0 <= x < s.rooms_horizontal && 0 <= y <= s.rooms_vertical ==> hborder_ok(
            s,
            #[trigger] d.hborder(x, y),
            y,
        )
    &&& forall|x: int, y: int|
        0 <= x <= s.rooms_horizontal && 0 <= y < s.rooms_vertical ==> vborder_ok(
            s,
            #[trigger] d.vborder(x, y),
            x,
        )
    &&& forall|x: int, y: int|
        0 <= x <= s.rooms_horizontal && 0 <= y <= s.rooms_vertical ==> #[trigger] d.column_at(
            x,
            y,
        ) == forced_column(d, s, x, y)
    &&& forall|x: int, y: int|
        0 <= x < s.rooms_horizontal && 0 <= y < s.rooms_vertical ==> room_ok(
            d,
            s,
            #[trigger] d.room_at(x, y),
            x,
            y,
        )
}

/// Flat grid indices of lex-ordered points are injective.
proof fn lemma_grid_index_inj(w: int, x1: int, y1: int, x2: int, y2: int)
    by (nonlinear_arith)
    requires
        0 <= y1 < w,
        0 <= y2 < w,
        x1 * w + y1 == x2 * w + y2,
    ensures
        x1 == x2,
        y1 == y2,
{
}

/// A flat grid index stays below the grid's size.
proof fn lemma_grid_index_bound(w: int, x: int, y: int, xmax: int)
    by (nonlinear_arith)
    requires
        0 <= y < w,
        0 <= x < xmax,
    ensures
        0 <= x * w + y < xmax * w,
{
}

/// Tests the horizontal border at a lattice point; points outside the
/// lattice read as open.
pub fn test_horizontal_border(dungeon: &Dungeon, point: &Point, border_type: &BorderType) -> (r:
    bool)
    requires
        dungeon.borders_ok(),
    ensures
        r == (dungeon.hborder(point.0 as int, point.1 as int) == *border_type),
{
    let x = point.0;
    let y = point.1;
    if 0 <= x && (x as usize) < dungeon.rooms_horizontal && 0 <= y && (y as usize)
        <= dungeon.rooms_vertical {
        proof {
            lemma_grid_index_bound(
                dungeon.rooms_vertical as int + 1,
                x as int,
                y as int,
                dungeon.rooms_horizontal as int,
            );
        }
        let idx = (x as usize) * (dungeon.rooms_vertical + 1) + (y as usize);
        border_eq(&dungeon.horizontal_borders[idx], border_type)
    } else {
        border_eq(&BorderType::Nothing, border_type)
    }
}

/// Tests the vertical border at a lattice point; points outside the lattice
/// read as open.
pub fn test_vertical_border(dungeon: &Dungeon, point: &Point, border_type: &BorderType) -> (r:
    bool)
    requires
        dungeon.borders_ok(),
    ensures
        r == (dungeon.vborder(point.0 as int, point.1 as int) == *border_type),
{
    let x = point.0;
    let y = point.1;
    if 0 <= x && (x as usize) <= dungeon.rooms_horizontal && 0 <= y && (y as usize)
        < dungeon.rooms_vertical {
        proof {
            lemma_grid_index_bound(
                dungeon.rooms_vertical as int,
                x as int,
                y as int,
                dungeon.rooms_horizontal as int + 1,
            );
        }
        let idx = (x as usize) * dungeon.rooms_vertical + (y as usize);
        border_eq(&dungeon.vertical_borders[idx], border_type)
    } else {
        border_eq(&BorderType::Nothing, border_type)
    }
}

/// Whether two border types are the same.
fn border_eq(a: &BorderType, b: &BorderType) -> (r: bool)
    ensures
        r == (*a == *b),
{
    match (a, b) {
        (BorderType::Nothing, BorderType::Nothing) => true,
        (BorderType::Wall, BorderType::Wall) => true,
        (BorderType::Passage, BorderType::Passage) => true,
        (BorderType::Door, BorderType::Door) => true,
        _ => false,
    }
}

/// Draws a whole dungeon: horizontal edges, vertical edges, then the forced
/// columns and the room cells.
pub fn generate_dungeon(settings: &DungeonSettings, rng: &mut RandomSource) -> (d: Dungeon)
    requires
        settings.wf(),
        old(rng).wf(),
    ensures
        final(rng).wf(),
        generated_ok(&d, settings),
        final(rng).is_fixed() == old(rng).is_fixed(),
        !old(rng).is_fixed() ==> *final(rng) == *old(rng),
        old(rng).is_fixed() ==> {
            let hp = spec_hborders(settings, *old(rng), 0, 0);
            let vp = spec_vborders(settings, hp.1, 0, 0);
            let rp = spec_rooms(settings, hp.0, vp.0, vp.1, 0, 0);
            &&& d.horizontal_borders@ == hp.0
            &&& d.vertical_borders@ == vp.0
            &&& d.rooms@ == rp.0
            &&& *final(rng) == rp.1
        },
{
    let rh = settings.rooms_horizontal;
    let rv = settings.rooms_vertical;

    // horizontal borders
    let mut hb: Vec<BorderType> = Vec::new();
    let mut x: usize = 0;
    proof {
        assert(Seq::<BorderType>::empty() + spec_hborders(settings, *old(rng), 0, 0).0
            =~= spec_hborders(settings, *old(rng), 0, 0).0);
    }
    while x < rh
        invariant
            settings.wf(),
            rng.wf(),
            rng.is_fixed() == old(rng).is_fixed(),
            !old(rng).is_fixed() ==> *rng == *old(rng),
            old(rng).is_fixed() ==> spec_hborders(settings, *old(rng), 0, 0) == (hb@
                + spec_hborders(settings, *rng, x as int, 0).0, spec_hborders(
                settings,
                *rng,
                x as int,
                0,
            ).1),
            rh == settings.rooms_horizontal,
            rv == settings.rooms_vertical,
            x <= rh,
            hb.len() == x * (rv + 1),
            forall|a: int, b: int|
                0 <= a < x && 0 <= b <= rv ==> hborder_ok(
                    settings,
                    #[trigger] hb@[a * (rv + 1) + b],
                    b,
                ),
        decreases rh - x,
    {
        let mut y: usize = 0;
        while y <= rv
            invariant
                settings.wf(),
                rng.wf(),
                rng.is_fixed() == old(rng).is_fixed(),
                !old(rng).is_fixed() ==> *rng == *old(rng),
                old(rng).is_fixed() ==> spec_hborders(settings, *old(rng), 0, 0) == (hb@
                    + spec_hborders(settings, *rng, x as int, y as int).0, spec_hborders(
                    settings,
                    *rng,
                    x as int,
                    y as int,
                ).1),
                rh == settings.rooms_horizontal,
                rv == settings.rooms_vertical,
                x < rh,
                y <= rv + 1,
                hb.len() == x * (rv + 1) + y,
                forall|a: int, b: int|
                    0 <= a < x && 0 <= b <= rv ==> hborder_ok(
                        settings,
                        #[trigger] hb@[a * (rv + 1) + b],
                        b,
                    ),
                forall|b: int|
                    0 <= b < y ==> hborder_ok(
                        settings,
                        #[trigger] hb@[x as int * (rv + 1) + b],
                        b,
                    ),
        decreases rv + 1 - y,
        {
            let ghost rng_pre = *rng;
            let ghost hb_pre = hb@;
            let border = if settings.always_fill_outer_borders && (y == 0 || y == rv) {
                BorderType::Wall
            } else {
                select_border_type(rng, settings)
            };
            proof {
                assert forall|a: int, b: int| 0 <= a < x && 0 <= b <= rv implies 0 <= #[trigger] (a * (rv + 1) + b) < hb@.len() by {
                    lemma_grid_index_bound(rv as int + 1, a, b, x as int);
                }
            }
            hb.push(border);
            proof {
                if old(rng).is_fixed() {
                    let rest = spec_hborders(settings, *rng, x as int, y as int + 1);
                    assert(spec_hborders(settings, rng_pre, x as int, y as int) == (seq![border]
                        + rest.0, rest.1));
                    assert(hb_pre + (seq![border] + rest.0) =~= hb@ + rest.0);
                }
            }
            y = y + 1;
        }
        proof {
            assert((x as int + 1) * (rv as int + 1) == x as int * (rv as int + 1) + (rv as int
                + 1)) by (nonlinear_arith);
            if old(rng).is_fixed() {
                assert(spec_hborders(settings, *rng, x as int, rv as int + 1) == spec_hborders(
                    settings,
                    *rng,
                    x as int + 1,
                    0,
                ));
            }
        }
        x = x + 1;
    }
    let ghost hp = spec_hborders(settings, *old(rng), 0, 0);
    proof {
        assert(hb.len() == rh * (rv + 1));
        if old(rng).is_fixed() {
            assert(spec_hborders(settings, *rng, rh as int, 0) == (
                Seq::<BorderType>::empty(),
                *rng,
            ));
            assert(hb@ + Seq::<BorderType>::empty() =~= hb@);
            assert(hp == (hb@, *rng));
        }
    }
    let ghost rng_h = *rng;

    // vertical borders
    let mut vb: Vec<BorderType> = Vec::new();
    let mut x2: usize = 0;
    proof {
        assert(Seq::<BorderType>::empty() + spec_vborders(settings, rng_h, 0, 0).0
            =~= spec_vborders(settings, rng_h, 0, 0).0);
    }
    while x2 <= rh
        invariant
            settings.wf(),
            rng.wf(),
            rng.is_fixed() == old(rng).is_fixed(),
            !old(rng).is_fixed() ==> *rng == rng_h && rng_h == *old(rng),
            old(rng).is_fixed() ==> spec_vborders(settings, rng_h, 0, 0) == (vb@
                + spec_vborders(settings, *rng, x2 as int, 0).0, spec_vborders(
                settings,
                *rng,
                x2 as int,
                0,
            ).1),
            rh == settings.rooms_horizontal,
            rv == settings.rooms_vertical,
            x2 <= rh + 1,
            vb.len() == x2 * rv,
            forall|a: int, b: int|
                0 <= a < x2 && 0 <= b < rv ==> vborder_ok(
                    settings,
                    #[trigger] vb@[a * rv + b],
                    a,
                ),
        decreases rh + 1 - x2,
    {
        let mut y: usize = 0;
        while y < rv
            invariant
                settings.wf(),
                rng.wf(),
                rng.is_fixed() == old(rng).is_fixed(),
                !old(rng).is_fixed() ==> *rng == rng_h && rng_h == *old(rng),
                old(rng).is_fixed() ==> spec_vborders(settings, rng_h, 0, 0) == (vb@
                    + spec_vborders(settings, *rng, x2 as int, y as int).0, spec_vborders(
                    settings,
                    *rng,
                    x2 as int,
                    y as int,
                ).1),
                rh == settings.rooms_horizontal,
                rv == settings.rooms_vertical,
                x2 <= rh,
                y <= rv,
                vb.len() == x2 * rv + y,
                forall|a: int, b: int|
                    0 <= a < x2 && 0 <= b < rv ==> vborder_ok(
                        settings,
                        #[trigger] vb@[a * rv + b],
                        a,
                    ),
                forall|b: int|
                    0 <= b < y ==> vborder_ok(settings, #[trigger] vb@[x2 as int * rv + b], x2 as int),
            decreases rv - y,
        {
            let ghost rng_pre = *rng;
            let ghost vb_pre = vb@;
            let border = if settings.always_fill_outer_borders && (x2 == 0 || x2 == rh) {
                BorderType::Wall
            } else {
                select_border_type(rng, settings)
            };
            proof {
                assert forall|a: int, b: int| 0 <= a < x2 && 0 <= b < rv implies 0 <= #[trigger] (a * rv + b) < vb@.len() by {
                    lemma_grid_index_bound(rv as int, a, b, x2 as int);
                }
            }
            vb.push(border);
            proof {
                if old(rng).is_fixed() {
                    let rest = spec_vborders(settings, *rng, x2 as int, y as int + 1);
                    assert(spec_vborders(settings, rng_pre, x2 as int, y as int) == (seq![border]
                        + rest.0, rest.1));
                    assert(vb_pre + (seq![border] + rest.0) =~= vb@ + rest.0);
                }
            }
            y = y + 1;
        }
        proof {
            assert((x2 as int + 1) * rv as int == x2 as int * rv as int + rv as int)
                by (nonlinear_arith);
            if old(rng).is_fixed() {
                assert(spec_vborders(settings, *rng, x2 as int, rv as int) == spec_vborders(
                    settings,
                    *rng,
                    x2 as int + 1,
                    0,
                ));
            }
        }
        x2 = x2 + 1;
    }

    let ghost vp = spec_vborders(settings, rng_h, 0, 0);
    proof {
        if old(rng).is_fixed() {
            assert(spec_vborders(settings, *rng, rh as int + 1, 0) == (
                Seq::<BorderType>::empty(),
                *rng,
            ));
            assert(vb@ + Seq::<BorderType>::empty() =~= vb@);
            assert(vp == (vb@, *rng));
        }
    }
    let ghost rng_v = *rng;

    let mut dungeon = Dungeon {
        rooms_horizontal: rh,
        rooms_vertical: rv,
        horizontal_borders: hb,
        vertical_borders: vb,
        columns: Vec::new(),
        rooms: Vec::new(),
    };
    let ghost hbs = dungeon.horizontal_borders@;
    let ghost vbs = dungeon.vertical_borders@;

    // columns
    let mut columns: Vec<bool> = Vec::new();
    let mut x3: usize = 0;
    while x3 <= rh
        invariant
            settings.wf(),
            rh == settings.rooms_horizontal,
            rv == settings.rooms_vertical,
            dungeon.rooms_horizontal == rh,
            dungeon.rooms_vertical == rv,
            dungeon.horizontal_borders.len() == rh * (rv + 1),
            dungeon.vertical_borders.len() == (rh + 1) * rv,
            x3 <= rh + 1,
            columns.len() == x3 * (rv + 1),
            forall|a: int, b: int|
                0 <= a < x3 && 0 <= b <= rv ==> #[trigger] columns@[a * (rv + 1) + b]
                    == forced_column(&dungeon, settings, a, b),
        decreases rh + 1 - x3,
    {
        let mut y: usize = 0;
        while y <= rv
            invariant
                settings.wf(),
                rh == settings.rooms_horizontal,
                rv == settings.rooms_vertical,
                dungeon.rooms_horizontal == rh,
                dungeon.rooms_vertical == rv,
                dungeon.horizontal_borders.len() == rh * (rv + 1),
                dungeon.vertical_borders.len() == (rh + 1) * rv,
                x3 <= rh,
                y <= rv + 1,
                columns.len() == x3 * (rv + 1) + y,
                forall|a: int, b: int|
                    0 <= a < x3 && 0 <= b <= rv ==> #[trigger] columns@[a * (rv + 1) + b]
                        == forced_column(&dungeon, settings, a, b),
                forall|b: int|
                    0 <= b < y ==> #[trigger] columns@[x3 as int * (rv + 1) + b]
                        == forced_column(&dungeon, settings, x3 as int, b),
            decreases rv + 1 - y,
        {
            let xi = x3 as i32;
            let yi = y as i32;
            let need_column = !(test_horizontal_border(
                &dungeon,
                &Point(xi - 1, yi),
                &BorderType::Nothing,
            ) && test_horizontal_border(&dungeon, &Point(xi, yi), &BorderType::Nothing)
                && test_vertical_border(&dungeon, &Point(xi, yi - 1), &BorderType::Nothing)
                && test_vertical_border(&dungeon, &Point(xi, yi), &BorderType::Nothing));
            let forced = settings.always_fill_lone_columns || x3 == 0 || x3 == rh || y == 0 || y
                == rv || need_column;
            proof {
                assert forall|a: int, b: int| 0 <= a < x3 && 0 <= b <= rv implies 0 <= #[trigger] (a * (rv + 1) + b) < columns@.len() by {
                    lemma_grid_index_bound(rv as int + 1, a, b, x3 as int);
                }
            }
            columns.push(forced);
            y = y + 1;
        }
        proof {
            assert((x3 as int + 1) * (rv as int + 1) == x3 as int * (rv as int + 1) + (rv as int
                + 1)) by (nonlinear_arith);
        }
        x3 = x3 + 1;
    }
    dungeon.columns = columns;

    // rooms
    let mut rooms: Vec<RoomType> = Vec::new();
    let mut x4: usize = 0;
    proof {
        assert(Seq::<RoomType>::empty() + spec_rooms(settings, hbs, vbs, rng_v, 0, 0).0
            =~= spec_rooms(settings, hbs, vbs, rng_v, 0, 0).0);
    }
    while x4 < rh
        invariant
            settings.wf(),
            rng.wf(),
            rng.is_fixed() == old(rng).is_fixed(),
            !old(rng).is_fixed() ==> *rng == rng_v && rng_v == *old(rng),
            old(rng).is_fixed() ==> spec_rooms(settings, hbs, vbs, rng_v, 0, 0) == (rooms@
                + spec_rooms(settings, hbs, vbs, *rng, x4 as int, 0).0, spec_rooms(
                settings,
                hbs,
                vbs,
                *rng,
                x4 as int,
                0,
            ).1),
            dungeon.horizontal_borders@ == hbs,
            dungeon.vertical_borders@ == vbs,
            rh == settings.rooms_horizontal,
            rv == settings.rooms_vertical,
            dungeon.rooms_horizontal == rh,
            dungeon.rooms_vertical == rv,
            dungeon.horizontal_borders.len() == rh * (rv + 1),
            dungeon.vertical_borders.len() == (rh + 1) * rv,
            x4 <= rh,
            rooms.len() == x4 * rv,
            forall|a: int, b: int|
                0 <= a < x4 && 0 <= b < rv ==> room_ok(
                    &dungeon,
                    settings,
                    #[trigger] rooms@[a * rv + b],
                    a,
                    b,
                ),
        decreases rh - x4,
    {
        let mut y: usize = 0;
        while y < rv
            invariant
                settings.wf(),
                rng.wf(),
                rng.is_fixed() == old(rng).is_fixed(),
                !old(rng).is_fixed() ==> *rng == rng_v && rng_v == *old(rng),
                old(rng).is_fixed() ==> spec_rooms(settings, hbs, vbs, rng_v, 0, 0) == (rooms@
                    + spec_rooms(settings, hbs, vbs, *rng, x4 as int, y as int).0, spec_rooms(
                    settings,
                    hbs,
                    vbs,
                    *rng,
                    x4 as int,
                    y as int,
                ).1),
                dungeon.horizontal_borders@ == hbs,
                dungeon.vertical_borders@ == vbs,
                rh == settings.rooms_horizontal,
                rv == settings.rooms_vertical,
                dungeon.rooms_horizontal == rh,
                dungeon.rooms_vertical == rv,
                dungeon.horizontal_borders.len() == rh * (rv + 1),
                dungeon.vertical_borders.len() == (rh + 1) * rv,
                x4 < rh,
                y <= rv,
                rooms.len() == x4 * rv + y,
                forall|a: int, b: int|
                    0 <= a < x4 && 0 <= b < rv ==> room_ok(
                        &dungeon,
                        settings,
                        #[trigger] rooms@[a * rv + b],
                        a,
                        b,
                    ),
                forall|b: int|
                    0 <= b < y ==> room_ok(
                        &dungeon,
                        settings,
                        #[trigger] rooms@[x4 as int * rv + b],
                        x4 as int,
                        b,
                    ),
            decreases rv - y,
        {
            let xi = x4 as i32;
            let yi = y as i32;
            let is_closed = test_horizontal_border(&dungeon, &Point(xi, yi), &BorderType::Wall)
                && test_horizontal_border(&dungeon, &Point(xi, yi + 1), &BorderType::Wall)
                && test_vertical_border(&dungeon, &Point(xi, yi), &BorderType::Wall)
                && test_vertical_border(&dungeon, &Point(xi + 1, yi), &BorderType::Wall);
            let ghost rng_pre = *rng;
            let ghost rooms_pre = rooms@;
            let room = if settings.always_fill_closed_rooms && is_closed {
                RoomType::AttemptedToFill
            } else {
                select_room_type(rng, settings)
            };
            proof {
                assert forall|a: int, b: int| 0 <= a < x4 && 0 <= b < rv implies 0 <= #[trigger] (a * rv + b) < rooms@.len() by {
                    lemma_grid_index_bound(rv as int, a, b, x4 as int);
                }
            }
            rooms.push(room);
            proof {
                if old(rng).is_fixed() {
                    assert(is_closed == closed_room_of(settings, hbs, vbs, x4 as int, y as int));
                    let rest = spec_rooms(settings, hbs, vbs, *rng, x4 as int, y as int + 1);
                    assert(spec_rooms(settings, hbs, vbs, rng_pre, x4 as int, y as int) == (
                        seq![room] + rest.0,
                        rest.1,
                    ));
                    assert(rooms_pre + (seq![room] + rest.0) =~= rooms@ + rest.0);
                }
            }
            y = y + 1;
        }
        proof {
            assert((x4 as int + 1) * rv as int == x4 as int * rv as int + rv as int)
                by (nonlinear_arith);
            if old(rng).is_fixed() {
                assert(spec_rooms(settings, hbs, vbs, *rng, x4 as int, rv as int) == spec_rooms(
                    settings,
                    hbs,
                    vbs,
                    *rng,
                    x4 as int + 1,
                    0,
                ));
            }
        }
        x4 = x4 + 1;
    }
    dungeon.rooms = rooms;
    proof {
        if old(rng).is_fixed() {
            assert(spec_rooms(settings, hbs, vbs, *rng, rh as int, 0) == (
                Seq::<RoomType>::empty(),
                *rng,
            ));
            assert(dungeon.rooms@ + Seq::<RoomType>::empty() =~= dungeon.rooms@);
            assert(spec_rooms(settings, hbs, vbs, rng_v, 0, 0) == (dungeon.rooms@, *rng));
        }
    }

    proof {
        assert forall|a: int, b: int|
            0 <= a <= rh && 0 <= b <= rv implies #[trigger] dungeon.column_at(a, b)
            == forced_column(&dungeon, settings, a, b) by {
            lemma_grid_index_bound(rv as int + 1, a, b, rh as int + 1);
        }
    }
    dungeon
}

/// Horizontal tile pitch: one lattice line plus one room width.
pub open spec fn pitch_x(s: &DungeonSettings) -> int {
    s.rooms_width + 1
}

/// Vertical tile pitch: one lattice line plus one room height.
pub open spec fn pitch_y(s: &DungeonSettings) -> int {
    s.rooms_height + 1
}

/// The tile at relative offset `(rx, ry)` from the anchor.
pub open spec fn tile_of(s: &DungeonSettings, rx: int, ry: int) -> GridVector {
    GridVector { x: (s.anchor.x + rx) as i32, y: (s.anchor.y + ry) as i32 }
}

/// The tile of corner point `(x, y)`.
pub open spec fn column_tile(s: &DungeonSettings, x: int, y: int) -> GridVector {
    tile_of(s, pitch_x(s) * x, pitch_y(s) * y)
}

/// Tile `i` of the run of horizontal border `(x, y)`.
pub open spec fn hborder_tile(s: &DungeonSettings, x: int, y: int, i: int) -> GridVector {
    tile_of(s, pitch_x(s) * x + 1 + i, pitch_y(s) * y)
}

/// Tile `j` of the run of vertical border `(x, y)`.
pub open spec fn vborder_tile(s: &DungeonSettings, x: int, y: int, j: int) -> GridVector {
    tile_of(s, pitch_x(s) * x, pitch_y(s) * y + 1 + j)
}

/// Tile `(dx, dy)` of room cell `(x, y)`.
pub open spec fn room_tile(s: &DungeonSettings, x: int, y: int, dx: int, dy: int) -> GridVector {
    tile_of(s, pitch_x(s) * x + 1 + dx, pitch_y(s) * y + 1 + dy)
}

/// Whether `v` lies in the rectangle of tiles the generator writes.
pub open spec fn covered(s: &DungeonSettings, v: GridVector) -> bool {
    &&& 0 <= v.x - s.anchor.x <= pitch_x(s) * s.rooms_horizontal
    &&& 0 <= v.y - s.anchor.y <= pitch_y(s) * s.rooms_vertical
}

/// Whether `v` is a corner-point tile.
pub open spec fn column_region(s: &DungeonSettings, v: GridVector) -> bool {
    &&& covered(s, v)
    &&& (v.x - s.anchor.x) % pitch_x(s) == 0
    &&& (v.y - s.anchor.y) % pitch_y(s) == 0
}

/// Whether `v` lies on a horizontal border run.
pub open spec fn hborder_region(s: &DungeonSettings, v: GridVector) -> bool {
    &&& covered(s, v)
    &&& (v.x - s.anchor.x) % pitch_x(s) != 0
    &&& (v.y - s.anchor.y) % pitch_y(s) == 0
}

/// Whether `v` lies on a vertical border run.
pub open spec fn vborder_region(s: &DungeonSettings, v: GridVector) -> bool {
    &&& covered(s, v)
    &&& (v.x - s.anchor.x) % pitch_x(s) == 0
    &&& (v.y - s.anchor.y) % pitch_y(s) != 0
}

/// Whether `v` lies inside a room cell.
pub open spec fn room_region(s: &DungeonSettings, v: GridVector) -> bool {
    &&& covered(s, v)
    &&& (v.x - s.anchor.x) % pitch_x(s) != 0
    &&& (v.y - s.anchor.y) % pitch_y(s) != 0
}

/// What the generator intends a tile to be.
#[derive(Clone, Copy, Debug, Eq, PartialEq, Structural)]
pub enum TilePlan {
    OpenFloor,
    SolidWall,
    ClosedDoor,
}

/// Whether the staging map holds the planned tile at `v`; a written tile
/// never carries a monster or the player.
pub open spec fn plan_holds(w: &GameWorld, v: GridVector, p: TilePlan) -> bool {
    &&& !w.has_monster(v)
    &&& w.player_pos() != Some(v)
    &&& match p {
        TilePlan::OpenFloor => w.has_floor(v) && !w.has_wall(v) && w.door_state(v) is None,
        TilePlan::SolidWall => w.has_floor(v) && w.has_wall(v) && w.door_state(v) is None,
        TilePlan::ClosedDoor => w.has_floor(v) && !w.has_wall(v) && w.door_state(v) == Some(
            true,
        ),
    }
}

/// The plan of a corner tile: a wall where a column stands, floor elsewhere.
pub open spec fn column_plan(d: &Dungeon, x: int, y: int) -> TilePlan {
    if d.column_at(x, y) {
        TilePlan::SolidWall
    } else {
        TilePlan::OpenFloor
    }
}

/// The plan of tile `i` in a border run of length `len`: open edges are all
/// floor; walls are solid; a passage opens its middle tile; a door stands
/// closed at its middle tile.
pub open spec fn run_tile(b: BorderType, i: int, len: int) -> TilePlan {
    match b {
        BorderType::Nothing => TilePlan::OpenFloor,
        BorderType::Wall => TilePlan::SolidWall,
        BorderType::Passage => if i == len / 2 {
            TilePlan::OpenFloor
        } else {
            TilePlan::SolidWall
        },
        BorderType::Door => if i == len / 2 {
            TilePlan::ClosedDoor
        } else {
            TilePlan::SolidWall
        },
    }
}

/// Whether the room's north-east corner quarter is obstructed.
pub open spec fn room_ne(d: &Dungeon, x: int, y: int) -> bool {
    !(d.hborder(x, y + 1) is Nothing) && !(d.vborder(x + 1, y) is Nothing)
}

/// Whether the room's south-east corner quarter is obstructed.
pub open spec fn room_se(d: &Dungeon, x: int, y: int) -> bool {
    !(d.hborder(x, y) is Nothing) && !(d.vborder(x + 1, y) is Nothing)
}

/// Whether the room's south-west corner quarter is obstructed.
pub open spec fn room_sw(d: &Dungeon, x: int, y: int) -> bool {
    !(d.hborder(x, y) is Nothing) && !(d.vborder(x, y) is Nothing)
}

/// Whether the room's north-west corner quarter is obstructed.
pub open spec fn room_nw(d: &Dungeon, x: int, y: int) -> bool {
    !(d.hborder(x, y + 1) is Nothing) && !(d.vborder(x, y) is Nothing)
}

/// Whether the room's north edge strip is obstructed: both neighbouring
/// corners are, and the boundary is exactly a wall.
pub open spec fn room_n(d: &Dungeon, x: int, y: int) -> bool {
    room_ne(d, x, y) && room_nw(d, x, y) && d.hborder(x, y + 1) is Wall
}

/// Whether the room's east edge strip is obstructed.
pub open spec fn room_e(d: &Dungeon, x: int, y: int) -> bool {
    room_ne(d, x, y) && room_se(d, x, y) && d.vborder(x + 1, y) is Wall
}

/// Whether the room's south edge strip is obstructed.
pub open spec fn room_s(d: &Dungeon, x: int, y: int) -> bool {
    room_se(d, x, y) && room_sw(d, x, y) && d.hborder(x, y) is Wall
}

/// Whether the room's west edge strip is obstructed.
pub open spec fn room_w(d: &Dungeon, x: int, y: int) -> bool {
    room_nw(d, x, y) && room_sw(d, x, y) && d.vborder(x, y) is Wall
}

/// Whether the room's centre is obstructed: only when all four edge strips
/// are.
pub open spec fn room_center(d: &Dungeon, x: int, y: int) -> bool {
    room_n(d, x, y) && room_e(d, x, y) && room_s(d, x, y) && room_w(d, x, y)
}

/// Whether tile `(dx, dy)` of a fill-attempted room is walled, by which
/// ninth of the room it falls into.
pub open spec fn room_fill(d: &Dungeon, s: &DungeonSettings, x: int, y: int, dx: int, dy: int) -> bool {
    let cx = s.rooms_width as int / 2;
    let cy = s.rooms_height as int / 2;
    if dx < cx && dy < cy {
        room_sw(d, x, y)
    } else if dx > cx && dy < cy {
        room_se(d, x, y)
    } else if dx < cx && dy > cy {
        room_nw(d, x, y)
    } else if dx > cx && dy > cy {
        room_ne(d, x, y)
    } else if dx == cx && dy < cy {
        room_s(d, x, y)
    } else if dx == cx && dy > cy {
        room_n(d, x, y)
    } else if dx < cx && dy == cy {
        room_w(d, x, y)
    } else if dx > cx && dy == cy {
        room_e(d, x, y)
    } else {
        room_center(d, x, y)
    }
}

/// The plan of a room tile: empty rooms are all floor; a fill-attempted
/// room is walled where its ninth is obstructed.
pub open spec fn room_plan(d: &Dungeon, s: &DungeonSettings, x: int, y: int, dx: int, dy: int) -> TilePlan {
    if d.room_at(x, y) is Empty {
        TilePlan::OpenFloor
    } else if room_fill(d, s, x, y, dx, dy) {
        TilePlan::SolidWall
    } else {
        TilePlan::OpenFloor
    }
}

/// What placement promises: every corner, border-run and room tile carries
/// its planned value, and tiles outside the written rectangle are
/// untouched.
pub open spec fn placed_ok(
    w0: &GameWorld,
    w: &GameWorld,
    d: &Dungeon,
    s: &DungeonSettings,
) -> bool {
    &&& forall|x: int, y: int|
        0 <= x <= s.rooms_horizontal && 0 <= y <= s.rooms_vertical ==> plan_holds(
            w,
            #[trigger] column_tile(s, x, y),
            column_plan(d, x, y),
        )
    &&& forall|x: int, y: int, i: int|
        0 <= x < s.rooms_horizontal && 0 <= y <= s.rooms_vertical && 0 <= i < s.rooms_width
            ==> plan_holds(
            w,
            #[trigger] hborder_tile(s, x, y, i),
            run_tile(d.hborder(x, y), i, s.rooms_width as int),
        )
    &&& forall|x: int, y: int, j: int|
        0 <= x <= s.rooms_horizontal && 0 <= y < s.rooms_vertical && 0 <= j < s.rooms_height
            ==> plan_holds(
            w,
            #[trigger] vborder_tile(s, x, y, j),
            run_tile(d.vborder(x, y), j, s.rooms_height as int),
        )
    &&& forall|x: int, y: int, dx: int, dy: int|
        0 <= x < s.rooms_horizontal && 0 <= y < s.rooms_vertical && 0 <= dx < s.rooms_width && 0
            <= dy < s.rooms_height ==> plan_holds(
            w,
            #[trigger] room_tile(s, x, y, dx, dy),
            room_plan(d, s, x, y, dx, dy),
        )
    &&& forall|v: GridVector|
        !covered(s, v) ==> #[trigger] GameWorld::same_at(w0, w, v)
}

/// Relative axis offsets stay small and below the rectangle's edge.
proof fn lemma_axis_range(p: int, x: int, m: int, xmax: int)
    by (nonlinear_arith)
    requires
        1 <= p <= 513,
        0 <= m < p,
        0 <= x <= xmax,
        xmax <= 512,
        m > 0 ==> x < xmax,
    ensures
        0 <= p * x + m <= p * xmax,
        p * x + m < 0x10_0000,
        m > 0 ==> p * x + m < p * xmax,
{
}

/// The axis decomposition of `p * x + m` is `(x, m)`.
proof fn lemma_axis_divmod(p: int, x: int, m: int)
    requires
        1 <= p,
        0 <= m < p,
        0 <= x,
    ensures
        (p * x + m) % p == m,
        (p * x + m) / p == x,
{
    assert(p * x + m == x * p + m) by (nonlinear_arith);
    vstd::arithmetic::div_mod::lemma_fundamental_div_mod_converse(p * x + m, p, x, m);
}

/// Tiles of distinct relative offsets are distinct, and relative offsets
/// can be read back off a tile.
proof fn lemma_tile_of(s: &DungeonSettings, rx: int, ry: int)
    requires
        s.wf(),
        0 <= rx < 0x10_0001,
        0 <= ry < 0x10_0001,
    ensures
        tile_of(s, rx, ry).x == s.anchor.x + rx,
        tile_of(s, rx, ry).y == s.anchor.y + ry,
        in_bounds(tile_of(s, rx, ry)),
{
}

/// Reads the horizontal border at an in-range lattice point.
fn hborder_at(dungeon: &Dungeon, x: usize, y: usize) -> (b: BorderType)
    requires
        dungeon.borders_ok(),
        x < dungeon.rooms_horizontal,
        y <= dungeon.rooms_vertical,
    ensures
        b == dungeon.hborder(x as int, y as int),
{
    proof {
        lemma_grid_index_bound(
            dungeon.rooms_vertical as int + 1,
            x as int,
            y as int,
            dungeon.rooms_horizontal as int,
        );
    }
    dungeon.horizontal_borders[x * (dungeon.rooms_vertical + 1) + y]
}

/// Reads the vertical border at an in-range lattice point.
fn vborder_at(dungeon: &Dungeon, x: usize, y: usize) -> (b: BorderType)
    requires
        dungeon.borders_ok(),
        x <= dungeon.rooms_horizontal,
        y < dungeon.rooms_vertical,
    ensures
        b == dungeon.vborder(x as int, y as int),
{
    proof {
        lemma_grid_index_bound(
            dungeon.rooms_vertical as int,
            x as int,
            y as int,
            dungeon.rooms_horizontal as int + 1,
        );
    }
    dungeon.vertical_borders[x * dungeon.rooms_vertical + y]
}

/// Reads whether a column stands at an in-range corner point.
fn column_at_exec(dungeon: &Dungeon, x: usize, y: usize) -> (b: bool)
    requires
        dungeon.dims_ok(),
        x <= dungeon.rooms_horizontal,
        y <= dungeon.rooms_vertical,
    ensures
        b == dungeon.column_at(x as int, y as int),
{
    proof {
        lemma_grid_index_bound(
            dungeon.rooms_vertical as int + 1,
            x as int,
            y as int,
            dungeon.rooms_horizontal as int + 1,
        );
    }
    dungeon.columns[x * (dungeon.rooms_vertical + 1) + y]
}

/// Reads the room type at an in-range cell.
fn room_at_exec(dungeon: &Dungeon, x: usize, y: usize) -> (r: RoomType)
    requires
        dungeon.dims_ok(),
        x < dungeon.rooms_horizontal,
        y < dungeon.rooms_vertical,
    ensures
        r == dungeon.room_at(x as int, y as int),
{
    proof {
        lemma_grid_index_bound(
            dungeon.rooms_vertical as int,
            x as int,
            y as int,
            dungeon.rooms_horizontal as int,
        );
    }
    dungeon.rooms[x * dungeon.rooms_vertical + y]
}

/// Computes the tile at relative offset `(rx, ry)` from the anchor.
fn tile_at(settings: &DungeonSettings, rx: i32, ry: i32) -> (v: GridVector)
    requires
        settings.wf(),
        0 <= rx < 0x10_0001,
        0 <= ry < 0x10_0001,
    ensures
        v == tile_of(settings, rx as int, ry as int),
        in_bounds(v),
{
    proof {
        lemma_tile_of(settings, rx as int, ry as int);
    }
    GridVector::new(settings.anchor.x + rx, settings.anchor.y + ry)
}

/// Places one border run: open edges lay floor along the run, all others
/// lay wall, and a passage or door then reopens the middle tile — as floor,
/// or as a closed door.
pub fn add_border(game_world: &mut GameWorld, border_type: &BorderType, vecs: Vec<GridVector>)
    requires
        old(game_world).wf(),
        forall|k: int| 0 <= k < vecs.len() ==> in_bounds(#[trigger] vecs@[k]),
        forall|k1: int, k2: int|
            #![trigger vecs@[k1], vecs@[k2]]
            0 <= k1 < k2 < vecs.len() ==> vecs@[k1] != vecs@[k2],
    ensures
        final(game_world).wf(),
        forall|k: int|
            0 <= k < vecs.len() ==> plan_holds(
                final(game_world),
                #[trigger] vecs@[k],
                run_tile(*border_type, k, vecs.len() as int),
            ),
        forall|v: GridVector|
            !vecs@.contains(v) ==> #[trigger] GameWorld::same_at(
                old(game_world),
                final(game_world),
                v,
            ),
{
    let open_run = match border_type {
        BorderType::Nothing => true,
        _ => false,
    };
    let mut k: usize = 0;
    while k < vecs.len()
        invariant
            game_world.wf(),
            k <= vecs.len(),
            open_run == (*border_type is Nothing),
            forall|k2: int| 0 <= k2 < vecs.len() ==> in_bounds(#[trigger] vecs@[k2]),
            forall|k1: int, k2: int|
                #![trigger vecs@[k1], vecs@[k2]]
                0 <= k1 < k2 < vecs.len() ==> vecs@[k1] != vecs@[k2],
            forall|k2: int|
                0 <= k2 < k ==> plan_holds(
                    game_world,
                    #[trigger] vecs@[k2],
                    if open_run {
                        TilePlan::OpenFloor
                    } else {
                        TilePlan::SolidWall
                    },
                ),
            forall|v: GridVector|
                !vecs@.contains(v) ==> #[trigger] GameWorld::same_at(
                    old(game_world),
                    game_world,
                    v,
                ),
        decreases vecs.len() - k,
    {
        let ghost prev = *game_world;
        let vec = vecs[k];
        if open_run {
            game_world.add_floor(vec);
        } else {
            game_world.add_wall(vec);
        }
        proof {
            assert(vecs@.contains(vecs@[k as int]));
            assert forall|v: GridVector| !vecs@.contains(v) implies #[trigger]
                GameWorld::same_at(old(game_world), game_world, v) by {
                assert(GameWorld::same_at(old(game_world), &prev, v));
                assert(v != vecs@[k as int]);
                assert(GameWorld::same_at(&prev, game_world, v));
            }
            assert forall|k2: int| 0 <= k2 < k + 1 implies plan_holds(
                game_world,
                #[trigger] vecs@[k2],
                if open_run {
                    TilePlan::OpenFloor
                } else {
                    TilePlan::SolidWall
                },
            ) by {
                if k2 < k as int {
                    assert(vecs@[k2] != vecs@[k as int]);
                    assert(GameWorld::same_at(&prev, game_world, vecs@[k2]));
                }
            }
        }
        k = k + 1;
    }
    let mid_kind = match border_type {
        BorderType::Passage => 1usize,
        BorderType::Door => 2usize,
        _ => 0usize,
    };
    if mid_kind > 0 && vecs.len() > 0 {
        let ghost prev = *game_world;
        let mid = vecs.len() / 2;
        let vec = vecs[mid];
        if mid_kind == 1 {
            game_world.add_floor(vec);
        } else {
            game_world.add_door(vec, true);
        }
        proof {
            assert(vecs@.contains(vecs@[mid as int]));
            assert forall|v: GridVector| !vecs@.contains(v) implies #[trigger]
                GameWorld::same_at(old(game_world), game_world, v) by {
                assert(GameWorld::same_at(old(game_world), &prev, v));
                assert(v != vecs@[mid as int]);
                assert(GameWorld::same_at(&prev, game_world, v));
            }
            assert forall|k2: int| 0 <= k2 < vecs.len() implies plan_holds(
                game_world,
                #[trigger] vecs@[k2],
                run_tile(*border_type, k2, vecs.len() as int),
            ) by {
                if k2 != mid as int {
                    assert(vecs@[k2] != vecs@[mid as int]);
                    assert(GameWorld::same_at(&prev, game_world, vecs@[k2]));
                }
            }
        }
    }
}

/// A corner tile lies in the corner region, and its lattice point can be
/// read back off it.
proof fn lemma_column_tile_region(s: &DungeonSettings, x: int, y: int)
    requires
        s.wf(),
        0 <= x <= s.rooms_horizontal,
        0 <= y <= s.rooms_vertical,
    ensures
        column_region(s, column_tile(s, x, y)),
        !hborder_region(s, column_tile(s, x, y)),
        !vborder_region(s, column_tile(s, x, y)),
        !room_region(s, column_tile(s, x, y)),
        column_tile(s, x, y).x - s.anchor.x == pitch_x(s) * x,
        column_tile(s, x, y).y - s.anchor.y == pitch_y(s) * y,
        in_bounds(column_tile(s, x, y)),
{
    lemma_axis_range(pitch_x(s), x, 0, s.rooms_horizontal as int);
    lemma_axis_range(pitch_y(s), y, 0, s.rooms_vertical as int);
    lemma_tile_of(s, pitch_x(s) * x, pitch_y(s) * y);
    lemma_axis_divmod(pitch_x(s), x, 0);
    lemma_axis_divmod(pitch_y(s), y, 0);
}

/// Distinct corner points have distinct tiles.
proof fn lemma_column_tile_inj(s: &DungeonSettings, a: int, b: int, x: int, y: int)
    requires
        s.wf(),
        0 <= a <= s.rooms_horizontal,
        0 <= b <= s.rooms_vertical,
        0 <= x <= s.rooms_horizontal,
        0 <= y <= s.rooms_vertical,
        !(a == x && b == y),
    ensures
        column_tile(s, a, b) != column_tile(s, x, y),
{
    lemma_column_tile_region(s, a, b);
    lemma_column_tile_region(s, x, y);
    if column_tile(s, a, b) == column_tile(s, x, y) {
        assert(pitch_x(s) * a == pitch_x(s) * x);
        assert(pitch_y(s) * b == pitch_y(s) * y);
        lemma_axis_divmod(pitch_x(s), a, 0);
        lemma_axis_divmod(pitch_x(s), x, 0);
        lemma_axis_divmod(pitch_y(s), b, 0);
        lemma_axis_divmod(pitch_y(s), y, 0);
    }
}

/// A horizontal-run tile lies in the horizontal-border region, and its run
/// can be read back off it.
proof fn lemma_hborder_tile_region(s: &DungeonSettings, x: int, y: int, i: int)
    requires
        s.wf(),
        0 <= x < s.rooms_horizontal,
        0 <= y <= s.rooms_vertical,
        0 <= i < s.rooms_width,
    ensures
        hborder_region(s, hborder_tile(s, x, y, i)),
        !column_region(s, hborder_tile(s, x, y, i)),
        !vborder_region(s, hborder_tile(s, x, y, i)),
        !room_region(s, hborder_tile(s, x, y, i)),
        hborder_tile(s, x, y, i).x - s.anchor.x == pitch_x(s) * x + 1 + i,
        hborder_tile(s, x, y, i).y - s.anchor.y == pitch_y(s) * y,
        in_bounds(hborder_tile(s, x, y, i)),
{
    lemma_axis_range(pitch_x(s), x, 1 + i, s.rooms_horizontal as int);
    lemma_axis_range(pitch_y(s), y, 0, s.rooms_vertical as int);
    lemma_tile_of(s, pitch_x(s) * x + 1 + i, pitch_y(s) * y);
    lemma_axis_divmod(pitch_x(s), x, 1 + i);
    lemma_axis_divmod(pitch_y(s), y, 0);
}

/// Distinct horizontal-run positions have distinct tiles.
proof fn lemma_hborder_tile_inj(
    s: &DungeonSettings,
    x1: int,
    y1: int,
    i1: int,
    x2: int,
    y2: int,
    i2: int,
)
    requires
        s.wf(),
        0 <= x1 < s.rooms_horizontal,
        0 <= y1 <= s.rooms_vertical,
        0 <= i1 < s.rooms_width,
        0 <= x2 < s.rooms_horizontal,
        0 <= y2 <= s.rooms_vertical,
        0 <= i2 < s.rooms_width,
        !(x1 == x2 && y1 == y2 && i1 == i2),
    ensures
        hborder_tile(s, x1, y1, i1) != hborder_tile(s, x2, y2, i2),
{
    lemma_hborder_tile_region(s, x1, y1, i1);
    lemma_hborder_tile_region(s, x2, y2, i2);
    if hborder_tile(s, x1, y1, i1) == hborder_tile(s, x2, y2, i2) {
        lemma_axis_divmod(pitch_x(s), x1, 1 + i1);
        lemma_axis_divmod(pitch_x(s), x2, 1 + i2);
        lemma_axis_divmod(pitch_y(s), y1, 0);
        lemma_axis_divmod(pitch_y(s), y2, 0);
    }
}

/// A vertical-run tile lies in the vertical-border region, and its run can
/// be read back off it.
proof fn lemma_vborder_tile_region(s: &DungeonSettings, x: int, y: int, j: int)
    requires
        s.wf(),
        0 <= x <= s.rooms_horizontal,
        0 <= y < s.rooms_vertical,
        0 <= j < s.rooms_height,
    ensures
        vborder_region(s, vborder_tile(s, x, y, j)),
        !column_region(s, vborder_tile(s, x, y, j)),
        !hborder_region(s, vborder_tile(s, x, y, j)),
        !room_region(s, vborder_tile(s, x, y, j)),
        vborder_tile(s, x, y, j).x - s.anchor.x == pitch_x(s) * x,
        vborder_tile(s, x, y, j).y - s.anchor.y == pitch_y(s) * y + 1 + j,
        in_bounds(vborder_tile(s, x, y, j)),
{
    lemma_axis_range(pitch_x(s), x, 0, s.rooms_horizontal as int);
    lemma_axis_range(pitch_y(s), y, 1 + j, s.rooms_vertical as int);
    lemma_tile_of(s, pitch_x(s) * x, pitch_y(s) * y + 1 + j);
    lemma_axis_divmod(pitch_x(s), x, 0);
    lemma_axis_divmod(pitch_y(s), y, 1 + j);
}

/// Distinct vertical-run positions have distinct tiles.
proof fn lemma_vborder_tile_inj(
    s: &DungeonSettings,
    x1: int,
    y1: int,
    j1: int,
    x2: int,
    y2: int,
    j2: int,
)
    requires
        s.wf(),
        0 <= x1 <= s.rooms_horizontal,
        0 <= y1 < s.rooms_vertical,
        0 <= j1 < s.rooms_height,
        0 <= x2 <= s.rooms_horizontal,
        0 <= y2 < s.rooms_vertical,
        0 <= j2 < s.rooms_height,
        !(x1 == x2 && y1 == y2 && j1 == j2),
    ensures
        vborder_tile(s, x1, y1, j1) != vborder_tile(s, x2, y2, j2),
{
    lemma_vborder_tile_region(s, x1, y1, j1);
    lemma_vborder_tile_region(s, x2, y2, j2);
    if vborder_tile(s, x1, y1, j1) == vborder_tile(s, x2, y2, j2) {
        lemma_axis_divmod(pitch_x(s), x1, 0);
        lemma_axis_divmod(pitch_x(s), x2, 0);
        lemma_axis_divmod(pitch_y(s), y1, 1 + j1);
        lemma_axis_divmod(pitch_y(s), y2, 1 + j2);
    }
}

/// A room tile lies in the room region, and its cell can be read back off
/// it.
proof fn lemma_room_tile_region(s: &DungeonSettings, x: int, y: int, dx: int, dy: int)
    requires
        s.wf(),
        0 <= x < s.rooms_horizontal,
        0 <= y < s.rooms_vertical,
        0 <= dx < s.rooms_width,
        0 <= dy < s.rooms_height,
    ensures
        room_region(s, room_tile(s, x, y, dx, dy)),
        !column_region(s, room_tile(s, x, y, dx, dy)),
        !hborder_region(s, room_tile(s, x, y, dx, dy)),
        !vborder_region(s, room_tile(s, x, y, dx, dy)),
        room_tile(s, x, y, dx, dy).x - s.anchor.x == pitch_x(s) * x + 1 + dx,
        room_tile(s, x, y, dx, dy).y - s.anchor.y == pitch_y(s) * y + 1 + dy,
        in_bounds(room_tile(s, x, y, dx, dy)),
{
    lemma_axis_range(pitch_x(s), x, 1 + dx, s.rooms_horizontal as int);
    lemma_axis_range(pitch_y(s), y, 1 + dy, s.rooms_vertical as int);
    lemma_tile_of(s, pitch_x(s) * x + 1 + dx, pitch_y(s) * y + 1 + dy);
    lemma_axis_divmod(pitch_x(s), x, 1 + dx);
    lemma_axis_divmod(pitch_y(s), y, 1 + dy);
}

/// Distinct room-tile positions have distinct tiles.
proof fn lemma_room_tile_inj(
    s: &DungeonSettings,
    x1: int,
    y1: int,
    dx1: int,
    dy1: int,
    x2: int,
    y2: int,
    dx2: int,
    dy2: int,
)
    requires
        s.wf(),
        0 <= x1 < s.rooms_horizontal,
        0 <= y1 < s.rooms_vertical,
        0 <= dx1 < s.rooms_width,
        0 <= dy1 < s.rooms_height,
        0 <= x2 < s.rooms_horizontal,
        0 <= y2 < s.rooms_vertical,
        0 <= dx2 < s.rooms_width,
        0 <= dy2 < s.rooms_height,
        !(x1 == x2 && y1 == y2 && dx1 == dx2 && dy1 == dy2),
    ensures
        room_tile(s, x1, y1, dx1, dy1) != room_tile(s, x2, y2, dx2, dy2),
{
    lemma_room_tile_region(s, x1, y1, dx1, dy1);
    lemma_room_tile_region(s, x2, y2, dx2, dy2);
    if room_tile(s, x1, y1, dx1, dy1) == room_tile(s, x2, y2, dx2, dy2) {
        lemma_axis_divmod(pitch_x(s), x1, 1 + dx1);
        lemma_axis_divmod(pitch_x(s), x2, 1 + dx2);
        lemma_axis_divmod(pitch_y(s), y1, 1 + dy1);
        lemma_axis_divmod(pitch_y(s), y2, 1 + dy2);
    }
}

/// Writes the corner tiles: a wall where a column stands, floor elsewhere.
fn place_columns(game_world: &mut GameWorld, dungeon: &Dungeon, settings: &DungeonSettings)
    requires
        old(game_world).wf(),
        settings.wf(),
        dungeon.dims_ok(),
        dungeon.rooms_horizontal == settings.rooms_horizontal,
        dungeon.rooms_vertical == settings.rooms_vertical,
    ensures
        final(game_world).wf(),
        forall|x: int, y: int|
            0 <= x <= settings.rooms_horizontal && 0 <= y <= settings.rooms_vertical
                ==> plan_holds(
                final(game_world),
                #[trigger] column_tile(settings, x, y),
                column_plan(dungeon, x, y),
            ),
        forall|v: GridVector|
            !column_region(settings, v) ==> #[trigger] GameWorld::same_at(
                old(game_world),
                final(game_world),
                v,
            ),
{
    let rh = settings.rooms_horizontal;
    let rv = settings.rooms_vertical;
    let mut x: usize = 0;
    while x <= rh
        invariant
            game_world.wf(),
            settings.wf(),
            dungeon.dims_ok(),
            dungeon.rooms_horizontal == rh,
            dungeon.rooms_vertical == rv,
            rh == settings.rooms_horizontal,
            rv == settings.rooms_vertical,
            x <= rh + 1,
            forall|a: int, b: int|
                0 <= a <= rh && 0 <= b <= rv && a < x ==> plan_holds(
                    game_world,
                    #[trigger] column_tile(settings, a, b),
                    column_plan(dungeon, a, b),
                ),
            forall|v: GridVector|
                !column_region(settings, v) ==> #[trigger] GameWorld::same_at(
                    old(game_world),
                    game_world,
                    v,
                ),
        decreases rh + 1 - x,
    {
        let mut y: usize = 0;
        while y <= rv
            invariant
                game_world.wf(),
                settings.wf(),
                dungeon.dims_ok(),
                dungeon.rooms_horizontal == rh,
                dungeon.rooms_vertical == rv,
                rh == settings.rooms_horizontal,
                rv == settings.rooms_vertical,
                x <= rh,
                y <= rv + 1,
                forall|a: int, b: int|
                    0 <= a <= rh && 0 <= b <= rv && (a < x || (a == x && b < y)) ==> plan_holds(
                        game_world,
                        #[trigger] column_tile(settings, a, b),
                        column_plan(dungeon, a, b),
                    ),
                forall|v: GridVector|
                    !column_region(settings, v) ==> #[trigger] GameWorld::same_at(
                        old(game_world),
                        game_world,
                        v,
                    ),
            decreases rv + 1 - y,
        {
            proof {
                lemma_axis_range(
                    pitch_x(settings),
                    x as int,
                    0,
                    settings.rooms_horizontal as int,
                );
                lemma_axis_range(pitch_y(settings), y as int, 0, settings.rooms_vertical as int);
            }
            let rx = ((settings.rooms_width + 1) * x) as i32;
            let ry = ((settings.rooms_height + 1) * y) as i32;
            let t = tile_at(settings, rx, ry);
            proof {
                assert(t == column_tile(settings, x as int, y as int));
                lemma_column_tile_region(settings, x as int, y as int);
            }
            let ghost prev = *game_world;
            if column_at_exec(dungeon, x, y) {
                game_world.add_wall(t);
            } else {
                game_world.add_floor(t);
            }
            proof {
                assert forall|v: GridVector| !column_region(settings, v) implies #[trigger]
                    GameWorld::same_at(old(game_world), game_world, v) by {
                    assert(GameWorld::same_at(old(game_world), &prev, v));
                    assert(v != t);
                    assert(GameWorld::same_at(&prev, game_world, v));
                }
                assert forall|a: int, b: int|
                    0 <= a <= rh && 0 <= b <= rv && (a < x || (a == x && b < y + 1)) implies
                    plan_holds(
                    game_world,
                    #[trigger] column_tile(settings, a, b),
                    column_plan(dungeon, a, b),
                ) by {
                    if !(a == x as int && b == y as int) {
                        lemma_column_tile_inj(settings, a, b, x as int, y as int);
                        assert(GameWorld::same_at(&prev, game_world, column_tile(settings, a, b)));
                    }
                }
            }
            y = y + 1;
        }
        x = x + 1;
    }
}

/// Writes the horizontal border runs.
fn place_hborders(game_world: &mut GameWorld, dungeon: &Dungeon, settings: &DungeonSettings)
    requires
        old(game_world).wf(),
        settings.wf(),
        dungeon.dims_ok(),
        dungeon.rooms_horizontal == settings.rooms_horizontal,
        dungeon.rooms_vertical == settings.rooms_vertical,
    ensures
        final(game_world).wf(),
        forall|x: int, y: int, i: int|
            0 <= x < settings.rooms_horizontal && 0 <= y <= settings.rooms_vertical && 0 <= i
                < settings.rooms_width ==> plan_holds(
                final(game_world),
                #[trigger] hborder_tile(settings, x, y, i),
                run_tile(dungeon.hborder(x, y), i, settings.rooms_width as int),
            ),
        forall|v: GridVector|
            !hborder_region(settings, v) ==> #[trigger] GameWorld::same_at(
                old(game_world),
                final(game_world),
                v,
            ),
{
    let rh = settings.rooms_horizontal;
    let rv = settings.rooms_vertical;
    let rw = settings.rooms_width;
    let mut x: usize = 0;
    while x < rh
        invariant
            game_world.wf(),
            settings.wf(),
            dungeon.dims_ok(),
            dungeon.rooms_horizontal == rh,
            dungeon.rooms_vertical == rv,
            rh == settings.rooms_horizontal,
            rv == settings.rooms_vertical,
            rw == settings.rooms_width,
            x <= rh,
            forall|a: int, b: int, i: int|
                0 <= a < rh && 0 <= b <= rv && 0 <= i < rw && a < x ==> plan_holds(
                    game_world,
                    #[trigger] hborder_tile(settings, a, b, i),
                    run_tile(dungeon.hborder(a, b), i, rw as int),
                ),
            forall|v: GridVector|
                !hborder_region(settings, v) ==> #[trigger] GameWorld::same_at(
                    old(game_world),
                    game_world,
                    v,
                ),
        decreases rh - x,
    {
        let mut y: usize = 0;
        while y <= rv
            invariant
                game_world.wf(),
                settings.wf(),
                dungeon.dims_ok(),
                dungeon.rooms_horizontal == rh,
                dungeon.rooms_vertical == rv,
                rh == settings.rooms_horizontal,
                rv == settings.rooms_vertical,
                rw == settings.rooms_width,
                x < rh,
                y <= rv + 1,
                forall|a: int, b: int, i: int|
                    0 <= a < rh && 0 <= b <= rv && 0 <= i < rw && (a < x || (a == x && b < y))
                        ==> plan_holds(
                        game_world,
                        #[trigger] hborder_tile(settings, a, b, i),
                        run_tile(dungeon.hborder(a, b), i, rw as int),
                    ),
                forall|v: GridVector|
                    !hborder_region(settings, v) ==> #[trigger] GameWorld::same_at(
                        old(game_world),
                        game_world,
                        v,
                    ),
            decreases rv + 1 - y,
        {
            let border = hborder_at(dungeon, x, y);
            let mut vecs: Vec<GridVector> = Vec::new();
            let mut i: usize = 0;
            while i < rw
                invariant
                    settings.wf(),
                    rh == settings.rooms_horizontal,
                    rv == settings.rooms_vertical,
                    rw == settings.rooms_width,
                    x < rh,
                    y <= rv,
                    i <= rw,
                    vecs.len() == i,
                    forall|k: int|
                        0 <= k < i ==> #[trigger] vecs@[k] == hborder_tile(
                            settings,
                            x as int,
                            y as int,
                            k,
                        ),
                decreases rw - i,
            {
                proof {
                    lemma_axis_range(pitch_x(settings), x as int, 1 + i as int, rh as int);
                    lemma_axis_range(pitch_y(settings), y as int, 0, rv as int);
                }
                let rx = ((settings.rooms_width + 1) * x + 1 + i) as i32;
                let ry = ((settings.rooms_height + 1) * y) as i32;
                let t = tile_at(settings, rx, ry);
                vecs.push(t);
                i = i + 1;
            }
            proof {
                assert forall|k1: int, k2: int|
                    #![trigger vecs@[k1], vecs@[k2]]
                    0 <= k1 < k2 < vecs.len() implies vecs@[k1] != vecs@[k2] by {
                    lemma_hborder_tile_inj(settings, x as int, y as int, k1, x as int, y as int, k2);
                }
                assert forall|k: int| 0 <= k < vecs.len() implies in_bounds(#[trigger] vecs@[k]) by {
                    lemma_hborder_tile_region(settings, x as int, y as int, k);
                }
            }
            let ghost gv = vecs@;
            let ghost prev = *game_world;
            add_border(game_world, &border, vecs);
            proof {
                assert forall|v: GridVector| !hborder_region(settings, v) implies #[trigger]
                    GameWorld::same_at(old(game_world), game_world, v) by {
                    assert(GameWorld::same_at(old(game_world), &prev, v));
                    assert(!gv.contains(v)) by {
                        if gv.contains(v) {
                            let k = choose|k: int| 0 <= k < gv.len() && gv[k] == v;
                            lemma_hborder_tile_region(settings, x as int, y as int, k);
                        }
                    }
                    assert(GameWorld::same_at(&prev, game_world, v));
                }
                assert forall|a: int, b: int, i2: int|
                    0 <= a < rh && 0 <= b <= rv && 0 <= i2 < rw && (a < x || (a == x && b < y
                        + 1)) implies plan_holds(
                    game_world,
                    #[trigger] hborder_tile(settings, a, b, i2),
                    run_tile(dungeon.hborder(a, b), i2, rw as int),
                ) by {
                    if a == x as int && b == y as int {
                        assert(gv[i2] == hborder_tile(settings, a, b, i2));
                        assert(plan_holds(
                            game_world,
                            gv[i2],
                            run_tile(border, i2, gv.len() as int),
                        ));
                    } else {
                        let t2 = hborder_tile(settings, a, b, i2);
                        assert(!gv.contains(t2)) by {
                            if gv.contains(t2) {
                                let k = choose|k: int| 0 <= k < gv.len() && gv[k] == t2;
                                lemma_hborder_tile_inj(
                                    settings,
                                    a,
                                    b,
                                    i2,
                                    x as int,
                                    y as int,
                                    k,
                                );
                            }
                        }
                        assert(GameWorld::same_at(&prev, game_world, t2));
                    }
                }
            }
            y = y + 1;
        }
        x = x + 1;
    }
}

/// Writes the vertical border runs.
fn place_vborders(game_world: &mut GameWorld, dungeon: &Dungeon, settings: &DungeonSettings)
    requires
        old(game_world).wf(),
        settings.wf(),
        dungeon.dims_ok(),
        dungeon.rooms_horizontal == settings.rooms_horizontal,
        dungeon.rooms_vertical == settings.rooms_vertical,
    ensures
        final(game_world).wf(),
        forall|x: int, y: int, j: int|
            0 <= x <= settings.rooms_horizontal && 0 <= y < settings.rooms_vertical && 0 <= j
                < settings.rooms_height ==> plan_holds(
                final(game_world),
                #[trigger] vborder_tile(settings, x, y, j),
                run_tile(dungeon.vborder(x, y), j, settings.rooms_height as int),
            ),
        forall|v: GridVector|
            !vborder_region(settings, v) ==> #[trigger] GameWorld::same_at(
                old(game_world),
                final(game_world),
                v,
            ),
{
    let rh = settings.rooms_horizontal;
    let rv = settings.rooms_vertical;
    let rht = settings.rooms_height;
    let mut x: usize = 0;
    while x <= rh
        invariant
            game_world.wf(),
            settings.wf(),
            dungeon.dims_ok(),
            dungeon.rooms_horizontal == rh,
            dungeon.rooms_vertical == rv,
            rh == settings.rooms_horizontal,
            rv == settings.rooms_vertical,
            rht == settings.rooms_height,
            x <= rh + 1,
            forall|a: int, b: int, j: int|
                0 <= a <= rh && 0 <= b < rv && 0 <= j < rht && a < x ==> plan_holds(
                    game_world,
                    #[trigger] vborder_tile(settings, a, b, j),
                    run_tile(dungeon.vborder(a, b), j, rht as int),
                ),
            forall|v: GridVector|
                !vborder_region(settings, v) ==> #[trigger] GameWorld::same_at(
                    old(game_world),
                    game_world,
                    v,
                ),
        decreases rh + 1 - x,
    {
        let mut y: usize = 0;
        while y < rv
            invariant
                game_world.wf(),
                settings.wf(),
                dungeon.dims_ok(),
                dungeon.rooms_horizontal == rh,
                dungeon.rooms_vertical == rv,
                rh == settings.rooms_horizontal,
                rv == settings.rooms_vertical,
                rht == settings.rooms_height,
                x <= rh,
                y <= rv,
                forall|a: int, b: int, j: int|
                    0 <= a <= rh && 0 <= b < rv && 0 <= j < rht && (a < x || (a == x && b < y))
                        ==> plan_holds(
                        game_world,
                        #[trigger] vborder_tile(settings, a, b, j),
                        run_tile(dungeon.vborder(a, b), j, rht as int),
                    ),
                forall|v: GridVector|
                    !vborder_region(settings, v) ==> #[trigger] GameWorld::same_at(
                        old(game_world),
                        game_world,
                        v,
                    ),
            decreases rv - y,
        {
            let border = vborder_at(dungeon, x, y);
            let mut vecs: Vec<GridVector> = Vec::new();
            let mut j: usize = 0;
            while j < rht
                invariant
                    settings.wf(),
                    rh == settings.rooms_horizontal,
                    rv == settings.rooms_vertical,
                    rht == settings.rooms_height,
                    x <= rh,
                    y < rv,
                    j <= rht,
                    vecs.len() == j,
                    forall|k: int|
                        0 <= k < j ==> #[trigger] vecs@[k] == vborder_tile(
                            settings,
                            x as int,
                            y as int,
                            k,
                        ),
                decreases rht - j,
            {
                proof {
                    lemma_axis_range(pitch_x(settings), x as int, 0, rh as int);
                    lemma_axis_range(pitch_y(settings), y as int, 1 + j as int, rv as int);
                }
                let rx = ((settings.rooms_width + 1) * x) as i32;
                let ry = ((settings.rooms_height + 1) * y + 1 + j) as i32;
                let t = tile_at(settings, rx, ry);
                vecs.push(t);
                j = j + 1;
            }
            proof {
                assert forall|k1: int, k2: int|
                    #![trigger vecs@[k1], vecs@[k2]]
                    0 <= k1 < k2 < vecs.len() implies vecs@[k1] != vecs@[k2] by {
                    lemma_vborder_tile_inj(settings, x as int, y as int, k1, x as int, y as int, k2);
                }
                assert forall|k: int| 0 <= k < vecs.len() implies in_bounds(#[trigger] vecs@[k]) by {
                    lemma_vborder_tile_region(settings, x as int, y as int, k);
                }
            }
            let ghost gv = vecs@;
            let ghost prev = *game_world;
            add_border(game_world, &border, vecs);
            proof {
                assert forall|v: GridVector| !vborder_region(settings, v) implies #[trigger]
                    GameWorld::same_at(old(game_world), game_world, v) by {
                    assert(GameWorld::same_at(old(game_world), &prev, v));
                    assert(!gv.contains(v)) by {
                        if gv.contains(v) {
                            let k = choose|k: int| 0 <= k < gv.len() && gv[k] == v;
                            lemma_vborder_tile_region(settings, x as int, y as int, k);
                        }
                    }
                    assert(GameWorld::same_at(&prev, game_world, v));
                }
                assert forall|a: int, b: int, j2: int|
                    0 <= a <= rh && 0 <= b < rv && 0 <= j2 < rht && (a < x || (a == x && b < y
                        + 1)) implies plan_holds(
                    game_world,
                    #[trigger] vborder_tile(settings, a, b, j2),
                    run_tile(dungeon.vborder(a, b), j2, rht as int),
                ) by {
                    if a == x as int && b == y as int {
                        assert(gv[j2] == vborder_tile(settings, a, b, j2));
                        assert(plan_holds(
                            game_world,
                            gv[j2],
                            run_tile(border, j2, gv.len() as int),
                        ));
                    } else {
                        let t2 = vborder_tile(settings, a, b, j2);
                        assert(!gv.contains(t2)) by {
                            if gv.contains(t2) {
                                let k = choose|k: int| 0 <= k < gv.len() && gv[k] == t2;
                                lemma_vborder_tile_inj(
                                    settings,
                                    a,
                                    b,
                                    j2,
                                    x as int,
                                    y as int,
                                    k,
                                );
                            }
                        }
                        assert(GameWorld::same_at(&prev, game_world, t2));
                    }
                }
            }
            y = y + 1;
        }
        x = x + 1;
    }
}

/// Writes a batch of distinct tiles, each to its planned value.
fn place_tiles(game_world: &mut GameWorld, tiles: Vec<GridVector>, plans: Vec<TilePlan>)
    requires
        old(game_world).wf(),
        plans.len() == tiles.len(),
        forall|k: int| 0 <= k < tiles.len() ==> in_bounds(#[trigger] tiles@[k]),
        forall|k1: int, k2: int|
            #![trigger tiles@[k1], tiles@[k2]]
            0 <= k1 < k2 < tiles.len() ==> tiles@[k1] != tiles@[k2],
    ensures
        final(game_world).wf(),
        forall|k: int|
            0 <= k < tiles.len() ==> plan_holds(final(game_world), #[trigger] tiles@[k], plans@[k]),
        forall|v: GridVector|
            !tiles@.contains(v) ==> #[trigger] GameWorld::same_at(
                old(game_world),
                final(game_world),
                v,
            ),
{
    let mut k: usize = 0;
    while k < tiles.len()
        invariant
            game_world.wf(),
            k <= tiles.len(),
            plans.len() == tiles.len(),
            forall|k2: int| 0 <= k2 < tiles.len() ==> in_bounds(#[trigger] tiles@[k2]),
            forall|k1: int, k2: int|
                #![trigger tiles@[k1], tiles@[k2]]
                0 <= k1 < k2 < tiles.len() ==> tiles@[k1] != tiles@[k2],
            forall|k2: int|
                0 <= k2 < k ==> plan_holds(game_world, #[trigger] tiles@[k2], plans@[k2]),
            forall|v: GridVector|
                !tiles@.contains(v) ==> #[trigger] GameWorld::same_at(
                    old(game_world),
                    game_world,
                    v,
                ),
        decreases tiles.len() - k,
    {
        let ghost prev = *game_world;
        let vec = tiles[k];
        match plans[k] {
            TilePlan::OpenFloor => game_world.add_floor(vec),
            TilePlan::SolidWall => game_world.add_wall(vec),
            TilePlan::ClosedDoor => game_world.add_door(vec, true),
        }
        proof {
            assert(tiles@.contains(tiles@[k as int]));
            assert forall|v: GridVector| !tiles@.contains(v) implies #[trigger]
                GameWorld::same_at(old(game_world), game_world, v) by {
                assert(GameWorld::same_at(old(game_world), &prev, v));
                assert(v != tiles@[k as int]);
                assert(GameWorld::same_at(&prev, game_world, v));
            }
            assert forall|k2: int| 0 <= k2 < k + 1 implies plan_holds(
                game_world,
                #[trigger] tiles@[k2],
                plans@[k2],
            ) by {
                if k2 < k as int {
                    assert(tiles@[k2] != tiles@[k as int]);
                    assert(GameWorld::same_at(&prev, game_world, tiles@[k2]));
                }
            }
        }
        k = k + 1;
    }
}

/// A flat index below `n * w` decomposes into a row below `n` and a
/// column below `w`.
proof fn lemma_flat_decompose(w: int, n: int, k: int)
    requires
        0 <= n,
        0 <= k < n * w,
    ensures
        w > 0,
        0 <= k / w < n,
        0 <= k % w < w,
        k == (k / w) * w + (k % w),
{
    assert(w > 0) by (nonlinear_arith)
        requires
            0 <= n,
            0 <= k < n * w,
    ;
    vstd::arithmetic::div_mod::lemma_fundamental_div_mod(k, w);
    vstd::arithmetic::div_mod::lemma_mod_pos_bound(k, w);
    let q = k / w;
    let r = k % w;
    assert(q >= 0 && q < n && k == q * w + r) by (nonlinear_arith)
        requires
            k == w * q + r,
            0 <= r < w,
            0 <= k < n * w,
    ;
}

/// Writes the room interiors: empty rooms become open floor, fill-attempted
/// rooms are walled corner by corner, edge by edge, centre last.
fn place_rooms(game_world: &mut GameWorld, dungeon: &Dungeon, settings: &DungeonSettings)
    requires
        old(game_world).wf(),
        settings.wf(),
        dungeon.dims_ok(),
        dungeon.rooms_horizontal == settings.rooms_horizontal,
        dungeon.rooms_vertical == settings.rooms_vertical,
    ensures
        final(game_world).wf(),
        forall|x: int, y: int, dx: int, dy: int|
            0 <= x < settings.rooms_horizontal && 0 <= y < settings.rooms_vertical && 0 <= dx
                < settings.rooms_width && 0 <= dy < settings.rooms_height ==> plan_holds(
                final(game_world),
                #[trigger] room_tile(settings, x, y, dx, dy),
                room_plan(dungeon, settings, x, y, dx, dy),
            ),
        forall|v: GridVector|
            !room_region(settings, v) ==> #[trigger] GameWorld::same_at(
                old(game_world),
                final(game_world),
                v,
            ),
{
    let rh = settings.rooms_horizontal;
    let rv = settings.rooms_vertical;
    let rw = settings.rooms_width;
    let rht = settings.rooms_height;
    let mut x: usize = 0;
    while x < rh
        invariant
            game_world.wf(),
            settings.wf(),
            dungeon.dims_ok(),
            dungeon.rooms_horizontal == rh,
            dungeon.rooms_vertical == rv,
            rh == settings.rooms_horizontal,
            rv == settings.rooms_vertical,
            rw == settings.rooms_width,
            rht == settings.rooms_height,
            x <= rh,
            forall|a: int, b: int, dx: int, dy: int|
                0 <= a < rh && 0 <= b < rv && 0 <= dx < rw && 0 <= dy < rht && a < x
                    ==> plan_holds(
                    game_world,
                    #[trigger] room_tile(settings, a, b, dx, dy),
                    room_plan(dungeon, settings, a, b, dx, dy),
                ),
            forall|v: GridVector|
                !room_region(settings, v) ==> #[trigger] GameWorld::same_at(
                    old(game_world),
                    game_world,
                    v,
                ),
        decreases rh - x,
    {
        let mut y: usize = 0;
        while y < rv
            invariant
                game_world.wf(),
                settings.wf(),
                dungeon.dims_ok(),
                dungeon.rooms_horizontal == rh,
                dungeon.rooms_vertical == rv,
                rh == settings.rooms_horizontal,
                rv == settings.rooms_vertical,
                rw == settings.rooms_width,
                rht == settings.rooms_height,
                x < rh,
                y <= rv,
                forall|a: int, b: int, dx: int, dy: int|
                    0 <= a < rh && 0 <= b < rv && 0 <= dx < rw && 0 <= dy < rht && (a < x || (a
                        == x && b < y)) ==> plan_holds(
                        game_world,
                        #[trigger] room_tile(settings, a, b, dx, dy),
                        room_plan(dungeon, settings, a, b, dx, dy),
                    ),
                forall|v: GridVector|
                    !room_region(settings, v) ==> #[trigger] GameWorld::same_at(
                        old(game_world),
                        game_world,
                        v,
                    ),
            decreases rv - y,
        {
            let xi = x as i32;
            let yi = y as i32;
            let ne = !test_horizontal_border(dungeon, &Point(xi, yi + 1), &BorderType::Nothing)
                && !test_vertical_border(dungeon, &Point(xi + 1, yi), &BorderType::Nothing);
            let se = !test_horizontal_border(dungeon, &Point(xi, yi), &BorderType::Nothing)
                && !test_vertical_border(dungeon, &Point(xi + 1, yi), &BorderType::Nothing);
            let sw = !test_horizontal_border(dungeon, &Point(xi, yi), &BorderType::Nothing)
                && !test_vertical_border(dungeon, &Point(xi, yi), &BorderType::Nothing);
            let nw = !test_horizontal_border(dungeon, &Point(xi, yi + 1), &BorderType::Nothing)
                && !test_vertical_border(dungeon, &Point(xi, yi), &BorderType::Nothing);
            let n_strip = ne && nw && test_horizontal_border(
                dungeon,
                &Point(xi, yi + 1),
                &BorderType::Wall,
            );
            let e_strip = ne && se && test_vertical_border(
                dungeon,
                &Point(xi + 1, yi),
                &BorderType::Wall,
            );
            let s_strip = se && sw && test_horizontal_border(
                dungeon,
                &Point(xi, yi),
                &BorderType::Wall,
            );
            let w_strip = nw && sw && test_vertical_border(
                dungeon,
                &Point(xi, yi),
                &BorderType::Wall,
            );
            let center = n_strip && e_strip && s_strip && w_strip;
            let is_empty = match room_at_exec(dungeon, x, y) {
                RoomType::Empty => true,
                RoomType::AttemptedToFill => false,
            };
            let cx = rw / 2;
            let cy = rht / 2;
            let mut tiles: Vec<GridVector> = Vec::new();
            let mut plans: Vec<TilePlan> = Vec::new();
            let mut dx: usize = 0;
            while dx < rw
                invariant
                    settings.wf(),
                    dungeon.dims_ok(),
                    dungeon.rooms_horizontal == rh,
                    dungeon.rooms_vertical == rv,
                    rh == settings.rooms_horizontal,
                    rv == settings.rooms_vertical,
                    rw == settings.rooms_width,
                    rht == settings.rooms_height,
                    x < rh,
                    y < rv,
                    dx <= rw,
                    cx == rw / 2,
                    cy == rht / 2,
                    ne == room_ne(dungeon, x as int, y as int),
                    se == room_se(dungeon, x as int, y as int),
                    sw == room_sw(dungeon, x as int, y as int),
                    nw == room_nw(dungeon, x as int, y as int),
                    n_strip == room_n(dungeon, x as int, y as int),
                    e_strip == room_e(dungeon, x as int, y as int),
                    s_strip == room_s(dungeon, x as int, y as int),
                    w_strip == room_w(dungeon, x as int, y as int),
                    center == room_center(dungeon, x as int, y as int),
                    is_empty == (dungeon.room_at(x as int, y as int) is Empty),
                    tiles.len() == dx * rht,
                    plans.len() == tiles.len(),
                    forall|k: int|
                        0 <= k < tiles.len() ==> #[trigger] tiles@[k] == room_tile(
                            settings,
                            x as int,
                            y as int,
                            k / rht as int,
                            k % rht as int,
                        ) && plans@[k] == room_plan(
                            dungeon,
                            settings,
                            x as int,
                            y as int,
                            k / rht as int,
                            k % rht as int,
                        ),
                decreases rw - dx,
            {
                let mut dy: usize = 0;
                while dy < rht
                    invariant
                        settings.wf(),
                        dungeon.dims_ok(),
                        dungeon.rooms_horizontal == rh,
                        dungeon.rooms_vertical == rv,
                        rh == settings.rooms_horizontal,
                        rv == settings.rooms_vertical,
                        rw == settings.rooms_width,
                        rht == settings.rooms_height,
                        x < rh,
                        y < rv,
                        dx < rw,
                        dy <= rht,
                        cx == rw / 2,
                        cy == rht / 2,
                        ne == room_ne(dungeon, x as int, y as int),
                        se == room_se(dungeon, x as int, y as int),
                        sw == room_sw(dungeon, x as int, y as int),
                        nw == room_nw(dungeon, x as int, y as int),
                        n_strip == room_n(dungeon, x as int, y as int),
                        e_strip == room_e(dungeon, x as int, y as int),
                        s_strip == room_s(dungeon, x as int, y as int),
                        w_strip == room_w(dungeon, x as int, y as int),
                        center == room_center(dungeon, x as int, y as int),
                        is_empty == (dungeon.room_at(x as int, y as int) is Empty),
                        tiles.len() == dx * rht + dy,
                        plans.len() == tiles.len(),
                        forall|k: int|
                            0 <= k < tiles.len() ==> #[trigger] tiles@[k] == room_tile(
                                settings,
                                x as int,
                                y as int,
                                k / rht as int,
                                k % rht as int,
                            ) && plans@[k] == room_plan(
                                dungeon,
                                settings,
                                x as int,
                                y as int,
                                k / rht as int,
                                k % rht as int,
                            ),
                    decreases rht - dy,
                {
                    let fill_point = if dx < cx && dy < cy {
                        sw
                    } else if dx > cx && dy < cy {
                        se
                    } else if dx < cx && dy > cy {
                        nw
                    } else if dx > cx && dy > cy {
                        ne
                    } else if dx == cx && dy < cy {
                        s_strip
                    } else if dx == cx && dy > cy {
                        n_strip
                    } else if dx < cx && dy == cy {
                        w_strip
                    } else if dx > cx && dy == cy {
                        e_strip
                    } else {
                        center
                    };
                    let wall = !is_empty && fill_point;
                    proof {
                        lemma_axis_range(pitch_x(settings), x as int, 1 + dx as int, rh as int);
                        lemma_axis_range(pitch_y(settings), y as int, 1 + dy as int, rv as int);
                    }
                    let rx = ((settings.rooms_width + 1) * x + 1 + dx) as i32;
                    let ry = ((settings.rooms_height + 1) * y + 1 + dy) as i32;
                    let t = tile_at(settings, rx, ry);
                    tiles.push(t);
                    plans.push(
                        if wall {
                            TilePlan::SolidWall
                        } else {
                            TilePlan::OpenFloor
                        },
                    );
                    proof {
                        assert(fill_point == room_fill(
                            dungeon,
                            settings,
                            x as int,
                            y as int,
                            dx as int,
                            dy as int,
                        ));
                        assert forall|k: int| 0 <= k < tiles.len() implies #[trigger] tiles@[k]
                            == room_tile(
                            settings,
                            x as int,
                            y as int,
                            k / rht as int,
                            k % rht as int,
                        ) && plans@[k] == room_plan(
                            dungeon,
                            settings,
                            x as int,
                            y as int,
                            k / rht as int,
                            k % rht as int,
                        ) by {
                            if k == tiles.len() - 1 {
                                assert(k == dx as int * rht as int + dy as int);
                                lemma_axis_divmod(rht as int, dx as int, dy as int);
                                assert(rht as int * dx as int + dy as int == dx as int * rht
                                    as int + dy as int) by (nonlinear_arith);
                                assert(k / rht as int == dx as int);
                                assert(k % rht as int == dy as int);
                                assert(tiles@[k] == t);
                                assert(t == room_tile(
                                    settings,
                                    x as int,
                                    y as int,
                                    dx as int,
                                    dy as int,
                                ));
                                assert(plans@[k] == room_plan(
                                    dungeon,
                                    settings,
                                    x as int,
                                    y as int,
                                    dx as int,
                                    dy as int,
                                ));
                            } else {
                                assert(0 <= k < tiles@.len() - 1);
                                assert(tiles@[k] == room_tile(
                                    settings,
                                    x as int,
                                    y as int,
                                    k / rht as int,
                                    k % rht as int,
                                ));
                            }
                        }
                    }
                    dy = dy + 1;
                }
                proof {
                    assert((dx as int + 1) * rht as int == dx as int * rht as int + rht as int)
                        by (nonlinear_arith);
                }
                dx = dx + 1;
            }
            proof {
                assert forall|k1: int, k2: int|
                    #![trigger tiles@[k1], tiles@[k2]]
                    0 <= k1 < k2 < tiles.len() implies tiles@[k1] != tiles@[k2] by {
                    lemma_flat_decompose(rht as int, rw as int, k1);
                    lemma_flat_decompose(rht as int, rw as int, k2);
                    lemma_room_tile_inj(
                        settings,
                        x as int,
                        y as int,
                        k1 / rht as int,
                        k1 % rht as int,
                        x as int,
                        y as int,
                        k2 / rht as int,
                        k2 % rht as int,
                    );
                }
                assert forall|k: int| 0 <= k < tiles.len() implies in_bounds(
                    #[trigger] tiles@[k],
                ) by {
                    lemma_flat_decompose(rht as int, rw as int, k);
                    lemma_room_tile_region(
                        settings,
                        x as int,
                        y as int,
                        k / rht as int,
                        k % rht as int,
                    );
                }
            }
            let ghost gt = tiles@;
            let ghost gp = plans@;
            let ghost prev = *game_world;
            place_tiles(game_world, tiles, plans);
            proof {
                assert forall|v: GridVector| !room_region(settings, v) implies #[trigger]
                    GameWorld::same_at(old(game_world), game_world, v) by {
                    assert(GameWorld::same_at(old(game_world), &prev, v));
                    assert(!gt.contains(v)) by {
                        if gt.contains(v) {
                            let k = choose|k: int| 0 <= k < gt.len() && gt[k] == v;
                            lemma_flat_decompose(rht as int, rw as int, k);
                            lemma_room_tile_region(
                                settings,
                                x as int,
                                y as int,
                                k / rht as int,
                                k % rht as int,
                            );
                        }
                    }
                    assert(GameWorld::same_at(&prev, game_world, v));
                }
                assert forall|a: int, b: int, dx2: int, dy2: int|
                    0 <= a < rh && 0 <= b < rv && 0 <= dx2 < rw && 0 <= dy2 < rht && (a < x || (
                    a == x && b < y + 1)) implies plan_holds(
                    game_world,
                    #[trigger] room_tile(settings, a, b, dx2, dy2),
                    room_plan(dungeon, settings, a, b, dx2, dy2),
                ) by {
                    if a == x as int && b == y as int {
                        lemma_grid_index_bound(rht as int, dx2, dy2, rw as int);
                        lemma_axis_divmod(rht as int, dx2, dy2);
                        assert(gt[dx2 * rht as int + dy2] == room_tile(settings, a, b, dx2, dy2));
                        assert(plan_holds(
                            game_world,
                            gt[dx2 * rht as int + dy2],
                            gp[dx2 * rht as int + dy2],
                        ));
                    } else {
                        let t2 = room_tile(settings, a, b, dx2, dy2);
                        assert(!gt.contains(t2)) by {
                            if gt.contains(t2) {
                                let k = choose|k: int| 0 <= k < gt.len() && gt[k] == t2;
                                lemma_flat_decompose(rht as int, rw as int, k);
                                lemma_room_tile_inj(
                                    settings,
                                    a,
                                    b,
                                    dx2,
                                    dy2,
                                    x as int,
                                    y as int,
                                    k / rht as int,
                                    k % rht as int,
                                );
                            }
                        }
                        assert(GameWorld::same_at(&prev, game_world, t2));
                    }
                }
            }
            y = y + 1;
        }
        x = x + 1;
    }
}

/// Writes a drawn dungeon into the staging map: corner points, then
/// horizontal runs, then vertical runs, then room interiors; the regions
/// are disjoint, so every tile ends with its planned value.
pub fn add_to_world(game_world: &mut GameWorld, dungeon: Dungeon, settings: &DungeonSettings)
    requires
        old(game_world).wf(),
        settings.wf(),
        dungeon.dims_ok(),
        dungeon.rooms_horizontal == settings.rooms_horizontal,
        dungeon.rooms_vertical == settings.rooms_vertical,
    ensures
        final(game_world).wf(),
        placed_ok(old(game_world), final(game_world), &dungeon, settings),
{
    let ghost w0 = *old(game_world);
    place_columns(game_world, &dungeon, settings);
    let ghost w1 = *game_world;
    place_hborders(game_world, &dungeon, settings);
    let ghost w2 = *game_world;
    place_vborders(game_world, &dungeon, settings);
    let ghost w3 = *game_world;
    place_rooms(game_world, &dungeon, settings);
    proof {
        assert forall|x: int, y: int|
            0 <= x <= settings.rooms_horizontal && 0 <= y <= settings.rooms_vertical implies
            plan_holds(
            game_world,
            #[trigger] column_tile(settings, x, y),
            column_plan(&dungeon, x, y),
        ) by {
            lemma_column_tile_region(settings, x, y);
            let t = column_tile(settings, x, y);
            assert(plan_holds(&w1, t, column_plan(&dungeon, x, y)));
            assert(GameWorld::same_at(&w1, &w2, t));
            assert(GameWorld::same_at(&w2, &w3, t));
            assert(GameWorld::same_at(&w3, game_world, t));
        }
        assert forall|x: int, y: int, i: int|
            0 <= x < settings.rooms_horizontal && 0 <= y <= settings.rooms_vertical && 0 <= i
                < settings.rooms_width implies plan_holds(
            game_world,
            #[trigger] hborder_tile(settings, x, y, i),
            run_tile(dungeon.hborder(x, y), i, settings.rooms_width as int),
        ) by {
            lemma_hborder_tile_region(settings, x, y, i);
            let t = hborder_tile(settings, x, y, i);
            assert(plan_holds(&w2, t, run_tile(dungeon.hborder(x, y), i, settings.rooms_width
                as int)));
            assert(GameWorld::same_at(&w2, &w3, t));
            assert(GameWorld::same_at(&w3, game_world, t));
        }
        assert forall|x: int, y: int, j: int|
            0 <= x <= settings.rooms_horizontal && 0 <= y < settings.rooms_vertical && 0 <= j
                < settings.rooms_height implies plan_holds(
            game_world,
            #[trigger] vborder_tile(settings, x, y, j),
            run_tile(dungeon.vborder(x, y), j, settings.rooms_height as int),
        ) by {
            lemma_vborder_tile_region(settings, x, y, j);
            let t = vborder_tile(settings, x, y, j);
            assert(plan_holds(&w3, t, run_tile(dungeon.vborder(x, y), j, settings.rooms_height
                as int)));
            assert(GameWorld::same_at(&w3, game_world, t));
        }
        assert forall|v: GridVector| !covered(settings, v) implies #[trigger]
            GameWorld::same_at(&w0, game_world, v) by {
            assert(GameWorld::same_at(&w0, &w1, v));
            assert(GameWorld::same_at(&w1, &w2, v));
            assert(GameWorld::same_at(&w2, &w3, v));
            assert(GameWorld::same_at(&w3, game_world, v));
        }
    }
}

/// Draws a dungeon under the settings and writes it into the staging map:
/// some dungeon satisfying the generation promises was placed tile by tile.
/// For a fixed source the drawn lattices and the source's final state are
/// exact functions of the settings and the source's starting state, so two
/// runs on equal inputs place the same dungeon; an entropy source is left
/// untouched as a value.
pub fn create_dungeon(
    game_world: &mut GameWorld,
    settings: DungeonSettings,
    rng: &mut RandomSource,
)
    requires
        old(game_world).wf(),
        settings.wf(),
        old(rng).wf(),
    ensures
        final(game_world).wf(),
        final(rng).wf(),
        final(rng).is_fixed() == old(rng).is_fixed(),
        !old(rng).is_fixed() ==> *final(rng) == *old(rng),
        exists|d: Dungeon|
            #[trigger] generated_ok(&d, &settings) && placed_ok(
                old(game_world),
                final(game_world),
                &d,
                &settings,
            ),
        old(rng).is_fixed() ==> {
            let hp = spec_hborders(&settings, *old(rng), 0, 0);
            let vp = spec_vborders(&settings, hp.1, 0, 0);
            let rp = spec_rooms(&settings, hp.0, vp.0, vp.1, 0, 0);
            &&& *final(rng) == rp.1
            &&& exists|d: Dungeon|
                #[trigger] generated_ok(&d, &settings) && placed_ok(
                    old(game_world),
                    final(game_world),
                    &d,
                    &settings,
                ) && d.horizontal_borders@ == hp.0 && d.vertical_borders@ == vp.0 && d.rooms@
                    == rp.0
        },
{
    let dungeon = generate_dungeon(&settings, rng);
    let ghost drawn = dungeon;
    add_to_world(game_world, dungeon, &settings);
    proof {
        assert(generated_ok(&drawn, &settings) && placed_ok(
            old(game_world),
            game_world,
            &drawn,
            &settings,
        ));
    }
}

/// Connectivity of the rim: with `always_fill_outer_borders` set, every
/// tile on the outer perimeter of the written rectangle is a wall.
pub proof fn lemma_outer_perimeter_walls(
    w0: &GameWorld,
    w: &GameWorld,
    d: &Dungeon,
    s: &DungeonSettings,
    v: GridVector,
)
    requires
        s.wf(),
        s.always_fill_outer_borders,
        generated_ok(d, s),
        placed_ok(w0, w, d, s),
        covered(s, v),
        v.x - s.anchor.x == 0 || v.x - s.anchor.x == pitch_x(s) * s.rooms_horizontal || v.y
            - s.anchor.y == 0 || v.y - s.anchor.y == pitch_y(s) * s.rooms_vertical,
    ensures
        w.has_wall(v),
        w.door_state(v) is None,
        !w.has_monster(v),
        w.player_pos() != Some(v),
{
    let px = pitch_x(s);
    let py = pitch_y(s);
    let rh = s.rooms_horizontal as int;
    let rv = s.rooms_vertical as int;
    let rx = v.x - s.anchor.x;
    let ry = v.y - s.anchor.y;
    let qx = rx / px;
    let mx = rx % px;
    let qy = ry / py;
    let my = ry % py;
    vstd::arithmetic::div_mod::lemma_fundamental_div_mod(rx, px);
    vstd::arithmetic::div_mod::lemma_mod_pos_bound(rx, px);
    vstd::arithmetic::div_mod::lemma_fundamental_div_mod(ry, py);
    vstd::arithmetic::div_mod::lemma_mod_pos_bound(ry, py);
    assert(0 <= qx <= rh && (mx > 0 ==> qx < rh) && rx == qx * px + mx) by (nonlinear_arith)
        requires
            rx == px * qx + mx,
            0 <= mx < px,
            0 <= rx <= px * rh,
            px >= 1,
            rh >= 0,
    ;
    assert(0 <= qy <= rv && (my > 0 ==> qy < rv) && ry == qy * py + my) by (nonlinear_arith)
        requires
            ry == py * qy + my,
            0 <= my < py,
            0 <= ry <= py * rv,
            py >= 1,
            rv >= 0,
    ;
    lemma_axis_divmod(px, qx, mx);
    lemma_axis_divmod(py, qy, my);
    if rx == 0 {
        lemma_axis_divmod(px, 0, 0);
        assert(qx == 0 && mx == 0);
    }
    if rx == px * rh {
        assert(px * rh == rh * px + 0) by (nonlinear_arith);
        lemma_axis_divmod(px, rh, 0);
        assert(qx == rh && mx == 0);
    }
    if ry == 0 {
        lemma_axis_divmod(py, 0, 0);
        assert(qy == 0 && my == 0);
    }
    if ry == py * rv {
        assert(py * rv == rv * py + 0) by (nonlinear_arith);
        lemma_axis_divmod(py, rv, 0);
        assert(qy == rv && my == 0);
    }
    if mx == 0 && my == 0 {
        assert(v == column_tile(s, qx, qy));
        assert(forced_column(d, s, qx, qy));
        assert(d.column_at(qx, qy));
        assert(plan_holds(w, column_tile(s, qx, qy), column_plan(d, qx, qy)));
    } else if mx != 0 && my == 0 {
        assert(v == hborder_tile(s, qx, qy, mx - 1));
        assert(qy == 0 || qy == rv);
        assert(hborder_ok(s, d.hborder(qx, qy), qy));
        assert(d.hborder(qx, qy) is Wall);
        assert(plan_holds(
            w,
            hborder_tile(s, qx, qy, mx - 1),
            run_tile(d.hborder(qx, qy), mx - 1, s.rooms_width as int),
        ));
    } else if mx == 0 && my != 0 {
        assert(v == vborder_tile(s, qx, qy, my - 1));
        assert(qx == 0 || qx == rh);
        assert(vborder_ok(s, d.vborder(qx, qy), qx));
        assert(d.vborder(qx, qy) is Wall);
        assert(plan_holds(
            w,
            vborder_tile(s, qx, qy, my - 1),
            run_tile(d.vborder(qx, qy), my - 1, s.rooms_height as int),
        ));
    } else {
        assert(false);
    }
}

/// Connectivity of the interior: with the passage weight at the whole scale
/// and the wall and door weights at zero, every interior horizontal border
/// becomes a passage, so its run is wall except for exactly one floor gap
/// at its middle tile.
pub proof fn lemma_forced_passage_gap_horizontal(
    w0: &GameWorld,
    w: &GameWorld,
    d: &Dungeon,
    s: &DungeonSettings,
    x: int,
    y: int,
    i: int,
)
    requires
        s.wf(),
        generated_ok(d, s),
        placed_ok(w0, w, d, s),
        s.spawn_wall_probability == 0,
        s.spawn_door_probability == 0,
        s.spawn_passage_probability >= PROBABILITY_SCALE,
        0 <= x < s.rooms_horizontal,
        0 < y < s.rooms_vertical,
        0 <= i < s.rooms_width,
    ensures
        d.hborder(x, y) is Passage,
        i == s.rooms_width as int / 2 ==> w.has_floor(hborder_tile(s, x, y, i)) && !w.has_wall(
            hborder_tile(s, x, y, i),
        ),
        i != s.rooms_width as int / 2 ==> w.has_wall(hborder_tile(s, x, y, i)),
{
    assert(hborder_ok(s, d.hborder(x, y), y));
    assert(border_weight(s, d.hborder(x, y)) > 0);
    assert(nothing_weight(s) == 0);
    assert(d.hborder(x, y) is Passage);
    assert(plan_holds(
        w,
        hborder_tile(s, x, y, i),
        run_tile(d.hborder(x, y), i, s.rooms_width as int),
    ));
}

/// The vertical counterpart: every interior vertical border becomes a
/// passage with exactly one floor gap at its middle tile.
pub proof fn lemma_forced_passage_gap_vertical(
    w0: &GameWorld,
    w: &GameWorld,
    d: &Dungeon,
    s: &DungeonSettings,
    x: int,
    y: int,
    j: int,
)
    requires
        s.wf(),
        generated_ok(d, s),
        placed_ok(w0, w, d, s),
        s.spawn_wall_probability == 0,
        s.spawn_door_probability == 0,
        s.spawn_passage_probability >= PROBABILITY_SCALE,
        0 < x < s.rooms_horizontal,
        0 <= y < s.rooms_vertical,
        0 <= j < s.rooms_height,
    ensures
        d.vborder(x, y) is Passage,
        j == s.rooms_height as int / 2 ==> w.has_floor(vborder_tile(s, x, y, j)) && !w.has_wall(
            vborder_tile(s, x, y, j),
        ),
        j != s.rooms_height as int / 2 ==> w.has_wall(vborder_tile(s, x, y, j)),
{
    assert(vborder_ok(s, d.vborder(x, y), x));
    assert(border_weight(s, d.vborder(x, y)) > 0);
    assert(nothing_weight(s) == 0);
    assert(d.vborder(x, y) is Passage);
    assert(plan_holds(
        w,
        vborder_tile(s, x, y, j),
        run_tile(d.vborder(x, y), j, s.rooms_height as int),
    ));
}

} // verus!