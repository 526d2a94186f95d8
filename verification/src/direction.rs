//! The eight compass directions, their slot indices and base angles.

use crate::angle::norm;
use crate::text::{eq_ignore_case, seq_eq_fold};
use crate::{ANGLE_STEP, QUARTER_TURN};
use vstd::prelude::*;

verus! {

/// One of the eight compass directions, in clockwise order starting at
/// North. Each is bound to a fixed slot index 0..8 and a fixed base angle.
#[derive(Clone, Copy, Debug, PartialEq, Eq, Hash, Structural)]
pub enum Direction {
    North,
    NorthEast,
    East,
    SouthEast,
    South,
    SouthWest,
    West,
    NorthWest,
}

impl Direction {
    /// The fixed slot index of this direction.
    pub open spec fn spec_index(self) -> int {
        match self {
            Direction::North => 0,
            Direction::NorthEast => 1,
            Direction::East => 2,
            Direction::SouthEast => 3,
            Direction::South => 4,
            Direction::SouthWest => 5,
            Direction::West => 6,
            Direction::NorthWest => 7,
        }
    }

    /// The direction with the given slot index.
    pub open spec fn spec_from_index(i: int) -> Direction
        recommends
            0 <= i < 8,
    {
        if i == 0 {
            Direction::North
        } else if i == 1 {
            Direction::NorthEast
        } else if i == 2 {
            Direction::East
        } else if i == 3 {
            Direction::SouthEast
        } else if i == 4 {
            Direction::South
        } else if i == 5 {
            Direction::SouthWest
        } else if i == 6 {
            Direction::West
        } else {
            Direction::NorthWest
        }
    }

    pub fn as_index(&self) -> (i: usize)
        ensures
            i == self.spec_index(),
            i < 8,
    {
        match self {
            Direction::North => 0,
            Direction::NorthEast => 1,
            Direction::East => 2,
            Direction::SouthEast => 3,
            Direction::South => 4,
            Direction::SouthWest => 5,
            Direction::West => 6,
            Direction::NorthWest => 7,
        }
    }

    /// Always yields a direction: the index is reduced modulo 8 first.
    pub fn from_index(idx: usize) -> (r: Option<Direction>)
        ensures
            r == Some(Direction::spec_from_index((idx % 8) as int)),
    {
        let i = idx % 8;
        if i == 0 {
            Some(Direction::North)
        } else if i == 1 {
            Some(Direction::NorthEast)
        } else if i == 2 {
            Some(Direction::East)
        } else if i == 3 {
            Some(Direction::SouthEast)
        } else if i == 4 {
            Some(Direction::South)
        } else if i == 5 {
            Some(Direction::SouthWest)
        } else if i == 6 {
            Some(Direction::West)
        } else {
            Some(Direction::NorthWest)
        }
    }
}

impl Direction {
    /// The direction a string names: the full name, the one- or two-letter
    /// abbreviation, or the decimal index, compared ignoring ASCII case.
    pub open spec fn spec_parse(s: Seq<char>) -> Option<Direction> {
        if seq_eq_fold(s, "north"@) || seq_eq_fold(s, "n"@) || seq_eq_fold(s, "0"@) {
            Some(Direction::North)
        } else if seq_eq_fold(s, "northeast"@) || seq_eq_fold(s, "ne"@) || seq_eq_fold(s, "1"@) {
            Some(Direction::NorthEast)
        } else if seq_eq_fold(s, "east"@) || seq_eq_fold(s, "e"@) || seq_eq_fold(s, "2"@) {
            Some(Direction::East)
        } else if seq_eq_fold(s, "southeast"@) || seq_eq_fold(s, "se"@) || seq_eq_fold(s, "3"@) {
            Some(Direction::SouthEast)
        } else if seq_eq_fold(s, "south"@) || seq_eq_fold(s, "s"@) || seq_eq_fold(s, "4"@) {
            Some(Direction::South)
        } else if seq_eq_fold(s, "southwest"@) || seq_eq_fold(s, "sw"@) || seq_eq_fold(s, "5"@) {
            Some(Direction::SouthWest)
        } else if seq_eq_fold(s, "west"@) || seq_eq_fold(s, "w"@) || seq_eq_fold(s, "6"@) {
            Some(Direction::West)
        } else if seq_eq_fold(s, "northwest"@) || seq_eq_fold(s, "nw"@) || seq_eq_fold(s, "7"@) {
            Some(Direction::NorthWest)
        } else {
            None
        }
    }

    /// Parses a direction from its full name, abbreviation or index,
    /// ignoring ASCII case.
    pub fn parse(s: &str) -> (r: Option<Direction>)
        ensures
            r == Direction::spec_parse(s@),
    {
        if eq_ignore_case(s, "north") || eq_ignore_case(s, "n") || eq_ignore_case(s, "0") {
            Some(Direction::North)
        } else if eq_ignore_case(s, "northeast") || eq_ignore_case(s, "ne") || eq_ignore_case(
            s,
            "1",
        ) {
            Some(Direction::NorthEast)
        } else if eq_ignore_case(s, "east") || eq_ignore_case(s, "e") || eq_ignore_case(s, "2") {
            Some(Direction::East)
        } else if eq_ignore_case(s, "southeast") || eq_ignore_case(s, "se") || eq_ignore_case(
            s,
            "3",
        ) {
            Some(Direction::SouthEast)
        } else if eq_ignore_case(s, "south") || eq_ignore_case(s, "s") || eq_ignore_case(s, "4") {
            Some(Direction::South)
        } else if eq_ignore_case(s, "southwest") || eq_ignore_case(s, "sw") || eq_ignore_case(
            s,
            "5",
        ) {
            Some(Direction::SouthWest)
        } else if eq_ignore_case(s, "west") || eq_ignore_case(s, "w") || eq_ignore_case(s, "6") {
            Some(Direction::West)
        } else if eq_ignore_case(s, "northwest") || eq_ignore_case(s, "nw") || eq_ignore_case(
            s,
            "7",
        ) {
            Some(Direction::NorthWest)
        } else {
            None
        }
    }
}

/// The normalized base angle of slot index `i`: a quarter turn above the
/// positive x axis (North on screen), stepping clockwise by one eighth of a
/// turn per index.
pub open spec fn spec_base_angle(i: int) -> int {
    norm(-QUARTER_TURN + i * ANGLE_STEP)
}

/// Computes the normalized base angle of a slot index.
pub fn base_angle(index: usize) -> (r: i64)
    requires
        index < 8,
    ensures
        r == spec_base_angle(index as int),
        -crate::HALF_TURN < r <= crate::HALF_TURN,
{
    crate::angle::normalize(-QUARTER_TURN + (index as i64) * ANGLE_STEP)
}

/// Every slot's base angle is the normal form of a quarter turn up plus the
/// index times the slot step, and lies in the normalized interval.
pub proof fn lemma_base_angle_law(i: int)
    ensures
        spec_base_angle(i) == norm(-QUARTER_TURN + i * ANGLE_STEP),
        -crate::HALF_TURN < spec_base_angle(i) <= crate::HALF_TURN,
{
    crate::angle::lemma_norm_range(-QUARTER_TURN + i * ANGLE_STEP);
}

/// Round trip between directions and indices: `from_index` inverts
/// `as_index`, and `as_index` of `from_index(i)` is `i` modulo 8.
pub proof fn lemma_direction_index_round_trip(d: Direction, i: int)
    requires
        0 <= i,
    ensures
        Direction::spec_from_index(d.spec_index()) == d,
        Direction::spec_from_index(i % 8).spec_index() == i % 8,
{
    vstd::arithmetic::div_mod::lemma_mod_division_less_than_divisor(i, 8);
}

} // verus!
