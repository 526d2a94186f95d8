use halo::direction::{base_angle, Direction};
use halo::{ANGLE_STEP, HALF_TURN, QUARTER_TURN};

#[test]
fn test_direction_deserialization() {
    let cases = vec![
        ("north", Direction::North),
        ("North", Direction::North),
        ("NORTH", Direction::North),
        ("n", Direction::North),
        ("N", Direction::North),
        ("0", Direction::North),
        ("nw", Direction::NorthWest),
        ("NorthWest", Direction::NorthWest),
    ];

    for (text, expected) in cases {
        let parsed: Direction = Direction::parse(text).unwrap();
        assert_eq!(parsed, expected);
    }
}

#[test]
fn test_parse_all_aliases() {
    let cases = vec![
        ("northeast", Direction::NorthEast),
        ("ne", Direction::NorthEast),
        ("1", Direction::NorthEast),
        ("east", Direction::East),
        ("E", Direction::East),
        ("2", Direction::East),
        ("SouthEast", Direction::SouthEast),
        ("se", Direction::SouthEast),
        ("3", Direction::SouthEast),
        ("south", Direction::South),
        ("S", Direction::South),
        ("4", Direction::South),
        ("southwest", Direction::SouthWest),
        ("SW", Direction::SouthWest),
        ("5", Direction::SouthWest),
        ("west", Direction::West),
        ("w", Direction::West),
        ("6", Direction::West),
        ("7", Direction::NorthWest),
    ];
    for (text, expected) in cases {
        assert_eq!(Direction::parse(text), Some(expected));
    }
    assert_eq!(Direction::parse("nowhere"), None);
    assert_eq!(Direction::parse(""), None);
    assert_eq!(Direction::parse("8"), None);
}

#[test]
fn test_index_round_trip() {
    let dirs = [
        Direction::North,
        Direction::NorthEast,
        Direction::East,
        Direction::SouthEast,
        Direction::South,
        Direction::SouthWest,
        Direction::West,
        Direction::NorthWest,
    ];
    for (i, d) in dirs.iter().enumerate() {
        assert_eq!(d.as_index(), i);
        assert_eq!(Direction::from_index(i), Some(*d));
    }
    // The index wraps modulo 8 and never fails.
    assert_eq!(Direction::from_index(9), Some(Direction::NorthEast));
    assert_eq!(Direction::from_index(16), Some(Direction::North));
}

#[test]
fn test_base_angle_values() {
    // North is a quarter turn up; each step is an eighth of a turn clockwise;
    // the last two wrap into the normalized interval.
    assert_eq!(base_angle(0), -QUARTER_TURN);
    assert_eq!(base_angle(1), -QUARTER_TURN + ANGLE_STEP);
    assert_eq!(base_angle(2), 0);
    assert_eq!(base_angle(3), ANGLE_STEP);
    assert_eq!(base_angle(4), QUARTER_TURN);
    assert_eq!(base_angle(5), QUARTER_TURN + ANGLE_STEP);
    assert_eq!(base_angle(6), HALF_TURN);
    assert_eq!(base_angle(7), -QUARTER_TURN - ANGLE_STEP);
    for i in 0..8 {
        let a = base_angle(i);
        assert!(-HALF_TURN < a && a <= HALF_TURN);
    }
}
