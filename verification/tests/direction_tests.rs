use rusty_dungeon::direction::GridDirection;
use rusty_dungeon::vector::GridVector;

fn all_directions() -> Vec<GridDirection> {
    GridDirection::all()
}

#[test]
fn all_lists_eight_directions_clockwise() {
    let all = all_directions();
    assert_eq!(all.len(), 8);
    assert_eq!(all[0], GridDirection::North);
    assert_eq!(all[1], GridDirection::NorthEast);
    assert_eq!(all[2], GridDirection::East);
    assert_eq!(all[3], GridDirection::SouthEast);
    assert_eq!(all[4], GridDirection::South);
    assert_eq!(all[5], GridDirection::SouthWest);
    assert_eq!(all[6], GridDirection::West);
    assert_eq!(all[7], GridDirection::NorthWest);
}

#[test]
fn cardinal_lists_four_directions() {
    let cardinal = GridDirection::cardinal();
    assert_eq!(cardinal.len(), 4);
    assert_eq!(cardinal[0], GridDirection::North);
    assert_eq!(cardinal[1], GridDirection::East);
    assert_eq!(cardinal[2], GridDirection::South);
    assert_eq!(cardinal[3], GridDirection::West);
}

#[test]
fn is_cardinal_matches_the_cardinal_list() {
    for d in all_directions() {
        let expected = GridDirection::cardinal().contains(&d);
        assert_eq!(d.is_cardinal(), expected);
    }
}

#[test]
fn opposite_of_opposite_is_identity() {
    for d in all_directions() {
        assert_eq!(d.opposite().opposite(), d);
    }
}

#[test]
fn opposite_direction_vector_is_negation() {
    for d in all_directions() {
        let v = GridVector::from_direction(&d);
        let o = GridVector::from_direction(&d.opposite());
        assert_eq!(o.x, -v.x);
        assert_eq!(o.y, -v.y);
    }
}

#[test]
fn rotate_clockwise_90_four_times_is_identity() {
    for d in all_directions() {
        let r = d
            .rotate_clockwise_90()
            .rotate_clockwise_90()
            .rotate_clockwise_90()
            .rotate_clockwise_90();
        assert_eq!(r, d);
    }
}

#[test]
fn rotate_clockwise_45_eight_times_is_identity() {
    for d in all_directions() {
        let mut r = d;
        for _ in 0..8 {
            r = r.rotate_clockwise_45();
        }
        assert_eq!(r, d);
    }
}

#[test]
fn rotations_cancel() {
    for d in all_directions() {
        assert_eq!(d.rotate_clockwise_45().rotate_counterclockwise_45(), d);
        assert_eq!(d.rotate_clockwise_90().rotate_counterclockwise_90(), d);
    }
}

#[test]
fn rotate_clockwise_90_is_two_eighth_turns() {
    for d in all_directions() {
        assert_eq!(d.rotate_clockwise_45().rotate_clockwise_45(), d.rotate_clockwise_90());
    }
}

#[test]
fn sample_rotations() {
    assert_eq!(GridDirection::North.rotate_clockwise_45(), GridDirection::NorthEast);
    assert_eq!(GridDirection::North.rotate_clockwise_90(), GridDirection::East);
    assert_eq!(GridDirection::North.rotate_counterclockwise_45(), GridDirection::NorthWest);
    assert_eq!(GridDirection::North.rotate_counterclockwise_90(), GridDirection::West);
    assert_eq!(GridDirection::North.opposite(), GridDirection::South);
    assert_eq!(GridDirection::SouthWest.opposite(), GridDirection::NorthEast);
}
