//! Eight-way compass directions with rotation and opposite helpers.

use vstd::prelude::*;

verus! {

/// One of the eight compass directions of the grid.
#[derive(Clone, Copy, Debug, Default, Eq, PartialEq, Structural)]
pub enum GridDirection {
    #[default]
    North,
    NorthEast,
    East,
    SouthEast,
    South,
    SouthWest,
    West,
    NorthWest,
}

impl GridDirection {
    /// The eight directions, in clockwise octant order starting at north.
    pub open spec fn all_spec() -> Seq<GridDirection> {
        seq![
            GridDirection::North,
            GridDirection::NorthEast,
            GridDirection::East,
            GridDirection::SouthEast,
            GridDirection::South,
            GridDirection::SouthWest,
            GridDirection::West,
            GridDirection::NorthWest,
        ]
    }

    /// The four cardinal directions, in clockwise order starting at north.
    pub open spec fn cardinal_spec() -> Seq<GridDirection> {
        seq![
            GridDirection::North,
            GridDirection::East,
            GridDirection::South,
            GridDirection::West,
        ]
    }

    /// The eight directions, in clockwise octant order starting at north.
    pub fn all() -> (v: Vec<GridDirection>)
        ensures
            v@ == GridDirection::all_spec(),
    {
        let v = vec![
            GridDirection::North,
            GridDirection::NorthEast,
            GridDirection::East,
            GridDirection::SouthEast,
            GridDirection::South,
            GridDirection::SouthWest,
            GridDirection::West,
            GridDirection::NorthWest,
        ];
        proof {
            assert(v@ =~= GridDirection::all_spec());
        }
        v
    }

    /// The four cardinal directions, in clockwise order starting at north.
    pub fn cardinal() -> (v: Vec<GridDirection>)
        ensures
            v@ == GridDirection::cardinal_spec(),
    {
        let v = vec![
            GridDirection::North,
            GridDirection::East,
            GridDirection::South,
            GridDirection::West,
        ];
        proof {
            assert(v@ =~= GridDirection::cardinal_spec());
        }
        v
    }

    pub open spec fn spec_is_cardinal(self) -> bool {
        self is North || self is East || self is South || self is West
    }

    pub fn is_cardinal(&self) -> (r: bool)
        ensures
            r == self.spec_is_cardinal(),
    {
        match self {
            GridDirection::North => true,
            GridDirection::East => true,
            GridDirection::South => true,
            GridDirection::West => true,
            _ => false,
        }
    }

    pub open spec fn spec_rotate_clockwise_45(self) -> GridDirection {
        match self {
            GridDirection::North => GridDirection::NorthEast,
            GridDirection::NorthEast => GridDirection::East,
            GridDirection::East => GridDirection::SouthEast,
            GridDirection::SouthEast => GridDirection::South,
            GridDirection::South => GridDirection::SouthWest,
            GridDirection::SouthWest => GridDirection::West,
            GridDirection::West => GridDirection::NorthWest,
            GridDirection::NorthWest => GridDirection::North,
        }
    }

    pub fn rotate_clockwise_45(&self) -> (r: GridDirection)
        ensures
            r == self.spec_rotate_clockwise_45(),
    {
        match self {
            GridDirection::North => GridDirection::NorthEast,
            GridDirection::NorthEast => GridDirection::East,
            GridDirection::East => GridDirection::SouthEast,
            GridDirection::SouthEast => GridDirection::South,
            GridDirection::South => GridDirection::SouthWest,
            GridDirection::SouthWest => GridDirection::West,
            GridDirection::West => GridDirection::NorthWest,
            GridDirection::NorthWest => GridDirection::North,
        }
    }

    pub open spec fn spec_rotate_clockwise_90(self) -> GridDirection {
        match self {
            GridDirection::North => GridDirection::East,
            GridDirection::NorthEast => GridDirection::SouthEast,
            GridDirection::East => GridDirection::South,
            GridDirection::SouthEast => GridDirection::SouthWest,
            GridDirection::South => GridDirection::West,
            GridDirection::SouthWest => GridDirection::NorthWest,
            GridDirection::West => GridDirection::North,
            GridDirection::NorthWest => GridDirection::NorthEast,
        }
    }

    pub fn rotate_clockwise_90(&self) -> (r: GridDirection)
        ensures
            r == self.spec_rotate_clockwise_90(),
    {
        match self {
            GridDirection::North => GridDirection::East,
            GridDirection::NorthEast => GridDirection::SouthEast,
            GridDirection::East => GridDirection::South,
            GridDirection::SouthEast => GridDirection::SouthWest,
            GridDirection::South => GridDirection::West,
            GridDirection::SouthWest => GridDirection::NorthWest,
            GridDirection::West => GridDirection::North,
            GridDirection::NorthWest => GridDirection::NorthEast,
        }
    }

    pub open spec fn spec_rotate_counterclockwise_45(self) -> GridDirection {
        match self {
            GridDirection::North => GridDirection::NorthWest,
            GridDirection::NorthEast => GridDirection::North,
            GridDirection::East => GridDirection::NorthEast,
            GridDirection::SouthEast => GridDirection::East,
            GridDirection::South => GridDirection::SouthEast,
            GridDirection::SouthWest => GridDirection::South,
            GridDirection::West => GridDirection::SouthWest,
            GridDirection::NorthWest => GridDirection::West,
        }
    }

    pub fn rotate_counterclockwise_45(&self) -> (r: GridDirection)
        ensures
            r == self.spec_rotate_counterclockwise_45(),
    {
        match self {
            GridDirection::North => GridDirection::NorthWest,
            GridDirection::NorthEast => GridDirection::North,
            GridDirection::East => GridDirection::NorthEast,
            GridDirection::SouthEast => GridDirection::East,
            GridDirection::South => GridDirection::SouthEast,
            GridDirection::SouthWest => GridDirection::South,
            GridDirection::West => GridDirection::SouthWest,
            GridDirection::NorthWest => GridDirection::West,
        }
    }

    pub open spec fn spec_rotate_counterclockwise_90(self) -> GridDirection {
        match self {
            GridDirection::North => GridDirection::West,
            GridDirection::NorthEast => GridDirection::NorthWest,
            GridDirection::East => GridDirection::North,
            GridDirection::SouthEast => GridDirection::NorthEast,
            GridDirection::South => GridDirection::East,
            GridDirection::SouthWest => GridDirection::SouthEast,
            GridDirection::West => GridDirection::South,
            GridDirection::NorthWest => GridDirection::SouthWest,
        }
    }

    pub fn rotate_counterclockwise_90(&self) -> (r: GridDirection)
        ensures
            r == self.spec_rotate_counterclockwise_90(),
    {
        match self {
            GridDirection::North => GridDirection::West,
            GridDirection::NorthEast => GridDirection::NorthWest,
            GridDirection::East => GridDirection::North,
            GridDirection::SouthEast => GridDirection::NorthEast,
            GridDirection::South => GridDirection::East,
            GridDirection::SouthWest => GridDirection::SouthEast,
            GridDirection::West => GridDirection::South,
            GridDirection::NorthWest => GridDirection::SouthWest,
        }
    }

    pub open spec fn spec_opposite(self) -> GridDirection {
        match self {
            GridDirection::North => GridDirection::South,
            GridDirection::NorthEast => GridDirection::SouthWest,
            GridDirection::East => GridDirection::West,
            GridDirection::SouthEast => GridDirection::NorthWest,
            GridDirection::South => GridDirection::North,
            GridDirection::SouthWest => GridDirection::NorthEast,
            GridDirection::West => GridDirection::East,
            GridDirection::NorthWest => GridDirection::SouthEast,
        }
    }

    pub fn opposite(&self) -> (r: GridDirection)
        ensures
            r == self.spec_opposite(),
    {
        match self {
            GridDirection::North => GridDirection::South,
            GridDirection::NorthEast => GridDirection::SouthWest,
            GridDirection::East => GridDirection::West,
            GridDirection::SouthEast => GridDirection::NorthWest,
            GridDirection::South => GridDirection::North,
            GridDirection::SouthWest => GridDirection::NorthEast,
            GridDirection::West => GridDirection::East,
            GridDirection::NorthWest => GridDirection::SouthEast,
        }
    }
}

/// Every direction occurs in the octant list.
pub proof fn lemma_all_directions_complete(d: GridDirection)
    ensures
        GridDirection::all_spec().contains(d),
{
    match d {
        GridDirection::North => assert(GridDirection::all_spec()[0] == d),
        GridDirection::NorthEast => assert(GridDirection::all_spec()[1] == d),
        GridDirection::East => assert(GridDirection::all_spec()[2] == d),
        GridDirection::SouthEast => assert(GridDirection::all_spec()[3] == d),
        GridDirection::South => assert(GridDirection::all_spec()[4] == d),
        GridDirection::SouthWest => assert(GridDirection::all_spec()[5] == d),
        GridDirection::West => assert(GridDirection::all_spec()[6] == d),
        GridDirection::NorthWest => assert(GridDirection::all_spec()[7] == d),
    }
}

/// Rotating clockwise by a quarter turn four times in a row returns every
/// direction to itself.
pub proof fn lemma_rotate_clockwise_90_four_times(d: GridDirection)
    ensures
        d.spec_rotate_clockwise_90().spec_rotate_clockwise_90().spec_rotate_clockwise_90()
            .spec_rotate_clockwise_90() == d,
{
}

/// Rotating clockwise by an eighth turn eight times in a row returns every
/// direction to itself.
pub proof fn lemma_rotate_clockwise_45_eight_times(d: GridDirection)
    ensures
        d.spec_rotate_clockwise_45().spec_rotate_clockwise_45().spec_rotate_clockwise_45()
            .spec_rotate_clockwise_45().spec_rotate_clockwise_45().spec_rotate_clockwise_45()
            .spec_rotate_clockwise_45().spec_rotate_clockwise_45() == d,
{
}

} // verus!
