use halo::angle::{circular_distance, normalize};
use halo::trig::{atan2_units, isqrt};
use halo::{EIGHTH_TURN, FULL_TURN, HALF_TURN, QUARTER_TURN};

#[test]
fn test_normalize_values() {
    assert_eq!(normalize(0), 0);
    assert_eq!(normalize(HALF_TURN), HALF_TURN);
    // The seam: minus a half turn is represented as plus a half turn.
    assert_eq!(normalize(-HALF_TURN), HALF_TURN);
    assert_eq!(normalize(FULL_TURN), 0);
    assert_eq!(normalize(-FULL_TURN), 0);
    assert_eq!(normalize(QUARTER_TURN + FULL_TURN), QUARTER_TURN);
    assert_eq!(normalize(-QUARTER_TURN - 3 * FULL_TURN), -QUARTER_TURN);
    // The NorthWest base angle wraps below the seam.
    assert_eq!(normalize(-QUARTER_TURN + 7 * EIGHTH_TURN), -QUARTER_TURN - EIGHTH_TURN);
}

#[test]
fn test_circular_distance_symmetric_bounded_zero() {
    let samples: [i64; 7] =
        [0, 1, -QUARTER_TURN, QUARTER_TURN, HALF_TURN, -HALF_TURN + 1, EIGHTH_TURN];
    for &a in samples.iter() {
        assert_eq!(circular_distance(a, a), 0);
        for &b in samples.iter() {
            let d1 = circular_distance(a, b);
            let d2 = circular_distance(b, a);
            assert_eq!(d1, d2);
            assert!(0 <= d1 && d1 <= HALF_TURN);
        }
    }
    // The shortest way between the two ends of the interval crosses the seam.
    assert_eq!(circular_distance(-HALF_TURN + 1, HALF_TURN), 1);
    assert_eq!(circular_distance(QUARTER_TURN, -QUARTER_TURN), HALF_TURN);
    assert_eq!(circular_distance(0, EIGHTH_TURN), EIGHTH_TURN);
}

#[test]
fn test_atan2_axes_and_diagonals() {
    assert_eq!(atan2_units(0, 1000), 0);
    assert_eq!(atan2_units(1000, 0), QUARTER_TURN);
    assert_eq!(atan2_units(0, -1000), HALF_TURN);
    assert_eq!(atan2_units(-1000, 0), -QUARTER_TURN);
    assert_eq!(atan2_units(700, 700), EIGHTH_TURN);
    assert_eq!(atan2_units(-700, 700), -EIGHTH_TURN);
    assert_eq!(atan2_units(0, 0), 0);
    // A general direction lands in the right octant.
    let a = atan2_units(10, 1000);
    assert!(0 < a && a < EIGHTH_TURN / 4);
}

#[test]
fn test_isqrt_values() {
    assert_eq!(isqrt(0), 0);
    assert_eq!(isqrt(1), 1);
    assert_eq!(isqrt(24), 4);
    assert_eq!(isqrt(25), 5);
    assert_eq!(isqrt(2_000_000), 1414);
    assert_eq!(isqrt(8_000_000), 2828);
}
