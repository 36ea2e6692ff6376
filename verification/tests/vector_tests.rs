use rusty_dungeon::direction::GridDirection;
use rusty_dungeon::vector::{coordinate_in_bounds, GridVector, COORD_LIMIT};

#[test]
fn zero_and_new() {
    let z = GridVector::zero();
    assert_eq!(z.x, 0);
    assert_eq!(z.y, 0);
    let v = GridVector::new(3, -7);
    assert_eq!(v.x, 3);
    assert_eq!(v.y, -7);
}

#[test]
fn from_direction_unit_offsets() {
    let cases = [
        (GridDirection::North, 0, 1),
        (GridDirection::NorthEast, 1, 1),
        (GridDirection::East, 1, 0),
        (GridDirection::SouthEast, 1, -1),
        (GridDirection::South, 0, -1),
        (GridDirection::SouthWest, -1, -1),
        (GridDirection::West, -1, 0),
        (GridDirection::NorthWest, -1, 1),
    ];
    for (d, x, y) in cases {
        let v = GridVector::from_direction(&d);
        assert_eq!(v.x, x);
        assert_eq!(v.y, y);
    }
}

#[test]
fn arithmetic() {
    let a = GridVector::new(2, 3);
    let b = GridVector::new(-1, 5);
    let s = a.add(&b);
    assert_eq!(s, GridVector::new(1, 8));
    let d = a.sub(&b);
    assert_eq!(d, GridVector::new(3, -2));
    let m = a.mul(4);
    assert_eq!(m, GridVector::new(8, 12));
    let n = b.neg();
    assert_eq!(n, GridVector::new(1, -5));
}

#[test]
fn assigning_arithmetic() {
    let mut a = GridVector::new(2, 3);
    a.add_assign(&GridVector::new(1, 1));
    assert_eq!(a, GridVector::new(3, 4));
    a.sub_assign(&GridVector::new(5, 0));
    assert_eq!(a, GridVector::new(-2, 4));
    a.mul_assign(-3);
    assert_eq!(a, GridVector::new(6, -12));
}

#[test]
fn chebyshev_distance() {
    let a = GridVector::new(0, 0);
    assert_eq!(a.distance_max(&GridVector::new(3, 4)), 4);
    assert_eq!(a.distance_max(&GridVector::new(-3, 2)), 3);
    assert_eq!(a.distance_max(&a), 0);
    assert_eq!(GridVector::new(-2, -2).distance_max(&GridVector::new(1, -3)), 3);
}

#[test]
fn bounds_check() {
    assert!(coordinate_in_bounds(&GridVector::new(0, 0)));
    assert!(coordinate_in_bounds(&GridVector::new(COORD_LIMIT, -COORD_LIMIT)));
    assert!(!coordinate_in_bounds(&GridVector::new(COORD_LIMIT + 1, 0)));
    assert!(!coordinate_in_bounds(&GridVector::new(0, -COORD_LIMIT - 1)));
}
