//! Integer 2D grid coordinates with component-wise arithmetic and the
//! Chebyshev distance used for grid adjacency.

use vstd::prelude::*;

use crate::direction::GridDirection;

verus! {

/// Largest coordinate magnitude the simulation admits; keeps every
/// single-step move representable in an `i32` without overflow.
pub const COORD_LIMIT: i32 = 0x3fff_ffff;

/// An integer 2D coordinate on the grid.
#[derive(Clone, Copy, Debug, Default, Eq, PartialEq, Hash, Structural)]
pub struct GridVector {
    pub x: i32,
    pub y: i32,
}

/// Whether a coordinate lies inside the admitted range.
pub open spec fn in_bounds(v: GridVector) -> bool {
    &&& -COORD_LIMIT <= v.x <= COORD_LIMIT
    &&& -COORD_LIMIT <= v.y <= COORD_LIMIT
}

impl GridVector {
    pub fn zero() -> (r: Self)
        ensures
            r == (GridVector { x: 0, y: 0 }),
    {
        Self::new(0, 0)
    }

    pub fn new(x: i32, y: i32) -> (r: Self)
        ensures
            r == (GridVector { x: x, y: y }),
    {
        Self { x, y }
    }

    /// The unit offset of one step in the given direction: north is `(0, 1)`,
    /// east is `(1, 0)`.
    pub open spec fn spec_from_direction(d: GridDirection) -> GridVector {
        match d {
            GridDirection::North => GridVector { x: 0i32, y: 1i32 },
            GridDirection::NorthEast => GridVector { x: 1i32, y: 1i32 },
            GridDirection::East => GridVector { x: 1i32, y: 0i32 },
            GridDirection::SouthEast => GridVector { x: 1i32, y: -1i32 },
            GridDirection::South => GridVector { x: 0i32, y: -1i32 },
            GridDirection::SouthWest => GridVector { x: -1i32, y: -1i32 },
            GridDirection::West => GridVector { x: -1i32, y: 0i32 },
            GridDirection::NorthWest => GridVector { x: -1i32, y: 1i32 },
        }
    }

    pub fn from_direction(direction: &GridDirection) -> (r: Self)
        ensures
            r == Self::spec_from_direction(*direction),
    {
        match direction {
            GridDirection::North => Self::new(0, 1),
            GridDirection::NorthEast => Self::new(1, 1),
            GridDirection::East => Self::new(1, 0),
            GridDirection::SouthEast => Self::new(1, -1),
            GridDirection::South => Self::new(0, -1),
            GridDirection::SouthWest => Self::new(-1, -1),
            GridDirection::West => Self::new(-1, 0),
            GridDirection::NorthWest => Self::new(-1, 1),
        }
    }

    /// Chebyshev distance: the larger of the two coordinate differences.
    pub open spec fn spec_distance_max(self, rhs: GridVector) -> int {
        let dx = if self.x >= rhs.x {
            self.x - rhs.x
        } else {
            rhs.x - self.x
        };
        let dy = if self.y >= rhs.y {
            self.y - rhs.y
        } else {
            rhs.y - self.y
        };
        if dx >= dy {
            dx
        } else {
            dy
        }
    }

    pub fn distance_max(&self, rhs: &Self) -> (r: i32)
        requires
            -0x7fff_ffff <= self.x - rhs.x <= 0x7fff_ffff,
            -0x7fff_ffff <= self.y - rhs.y <= 0x7fff_ffff,
        ensures
            r == self.spec_distance_max(*rhs),
    {
        let x_dist = if self.x >= rhs.x {
            self.x - rhs.x
        } else {
            rhs.x - self.x
        };
        let y_dist = if self.y >= rhs.y {
            self.y - rhs.y
        } else {
            rhs.y - self.y
        };
        if x_dist >= y_dist {
            x_dist
        } else {
            y_dist
        }
    }

    /// Component-wise negation, truncated to `i32`; exact whenever neither
    /// component is `i32::MIN`.
    pub open spec fn spec_neg(self) -> GridVector {
        GridVector { x: (-self.x) as i32, y: (-self.y) as i32 }
    }

    pub fn neg(&self) -> (r: Self)
        requires
            self.x > i32::MIN,
            self.y > i32::MIN,
        ensures
            r == self.spec_neg(),
            r.x == -self.x,
            r.y == -self.y,
    {
        Self::new(-self.x, -self.y)
    }

    pub fn add(&self, rhs: &Self) -> (r: Self)
        requires
            i32::MIN <= self.x + rhs.x <= i32::MAX,
            i32::MIN <= self.y + rhs.y <= i32::MAX,
        ensures
            r.x == self.x + rhs.x,
            r.y == self.y + rhs.y,
    {
        Self::new(self.x + rhs.x, self.y + rhs.y)
    }

    pub fn add_assign(&mut self, rhs: &Self)
        requires
            i32::MIN <= old(self).x + rhs.x <= i32::MAX,
            i32::MIN <= old(self).y + rhs.y <= i32::MAX,
        ensures
            final(self).x == old(self).x + rhs.x,
            final(self).y == old(self).y + rhs.y,
    {
        self.x = self.x + rhs.x;
        self.y = self.y + rhs.y;
    }

    pub fn sub(&self, rhs: &Self) -> (r: Self)
        requires
            i32::MIN <= self.x - rhs.x <= i32::MAX,
            i32::MIN <= self.y - rhs.y <= i32::MAX,
        ensures
            r.x == self.x - rhs.x,
            r.y == self.y - rhs.y,
    {
        Self::new(self.x - rhs.x, self.y - rhs.y)
    }

    pub fn sub_assign(&mut self, rhs: &Self)
        requires
            i32::MIN <= old(self).x - rhs.x <= i32::MAX,
            i32::MIN <= old(self).y - rhs.y <= i32::MAX,
        ensures
            final(self).x == old(self).x - rhs.x,
            final(self).y == old(self).y - rhs.y,
    {
        self.x = self.x - rhs.x;
        self.y = self.y - rhs.y;
    }

    pub fn mul(&self, rhs: i32) -> (r: Self)
        requires
            i32::MIN <= self.x * rhs <= i32::MAX,
            i32::MIN <= self.y * rhs <= i32::MAX,
        ensures
            r.x == self.x * rhs,
            r.y == self.y * rhs,
    {
        Self::new(self.x * rhs, self.y * rhs)
    }

    pub fn mul_assign(&mut self, rhs: i32)
        requires
            i32::MIN <= old(self).x * rhs <= i32::MAX,
            i32::MIN <= old(self).y * rhs <= i32::MAX,
        ensures
            final(self).x == old(self).x * rhs,
            final(self).y == old(self).y * rhs,
    {
        self.x = self.x * rhs;
        self.y = self.y * rhs;
    }
}

/// Whether a coordinate lies inside the admitted range.
pub fn coordinate_in_bounds(v: &GridVector) -> (r: bool)
    ensures
        r == in_bounds(*v),
{
    -COORD_LIMIT <= v.x && v.x <= COORD_LIMIT && -COORD_LIMIT <= v.y && v.y <= COORD_LIMIT
}

/// For every direction, the unit offset of the opposite direction is the
/// negation of the direction's own unit offset.
pub proof fn lemma_opposite_direction_vector(d: GridDirection)
    ensures
        GridVector::spec_from_direction(d.spec_opposite())
            == GridVector::spec_from_direction(d).spec_neg(),
{
}

/// A step in any direction changes at least one coordinate: the unit offset
/// of a direction is never the zero vector.
pub proof fn lemma_direction_vector_nonzero(d: GridDirection)
    ensures
        GridVector::spec_from_direction(d) != (GridVector { x: 0, y: 0 }),
{
}

} // verus!
