use rusty_dungeon::random::{weighted_pick, RandomSource};

#[test]
fn fixed_source_replays_its_sequence() {
    let mut rng = RandomSource::fixed(vec![0, 7, 12]);
    assert_eq!(rng.next_below(10), 0);
    assert_eq!(rng.next_below(10), 7);
    assert_eq!(rng.next_below(10), 2);
    // the cursor wraps around
    assert_eq!(rng.next_below(10), 0);
    assert_eq!(rng.next_below(5), 2);
}

#[test]
fn fixed_source_with_empty_sequence_yields_zero() {
    let mut rng = RandomSource::fixed(Vec::new());
    for _ in 0..5 {
        assert_eq!(rng.next_below(9), 0);
    }
}

#[test]
fn entropy_source_stays_below_the_bound() {
    // would fail if the draw handed its bound (or anything larger) back
    let mut rng = RandomSource::entropy();
    assert_eq!(rng.next_below(1), 0);
    for n in 2..50u64 {
        let r = rng.next_below(n);
        assert!(r < n);
    }
}

#[test]
fn weighted_pick_lands_in_the_cumulative_interval() {
    let weights = vec![2u64, 0, 3];
    assert_eq!(weighted_pick(&weights, 0), 0);
    assert_eq!(weighted_pick(&weights, 1), 0);
    assert_eq!(weighted_pick(&weights, 2), 2);
    assert_eq!(weighted_pick(&weights, 3), 2);
    assert_eq!(weighted_pick(&weights, 4), 2);
}

#[test]
fn weighted_pick_never_picks_a_zero_weight() {
    let weights = vec![0u64, 5, 0, 1];
    for r in 0..6 {
        let idx = weighted_pick(&weights, r);
        assert!(weights[idx] > 0);
    }
    assert_eq!(weighted_pick(&weights, 5), 3);
}
