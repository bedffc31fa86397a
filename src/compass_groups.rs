use crate::occupied_squares::{file_of, rank_of};
use crate::squares::{square_index, Square};
use vstd::prelude::*;

verus! {

/// The sixteen points of the compass. The eight full winds (`N`, `NE`, ...)
/// are the lines along which a queen, rook, bishop, king or pawn acts; the
/// eight half winds between them (`NNE`, `ENE`, ...) are a knight's leaps.
#[derive(Debug, PartialEq, Eq, Hash, Copy, Clone, Structural)]
pub enum Direction {
    N,
    NNE,
    NE,
    ENE,
    E,
    ESE,
    SE,
    SSE,
    S,
    SSW,
    SW,
    WSW,
    W,
    WNW,
    NW,
    NNW,
}

/// The position of a direction in compass order, `N` first.
pub open spec fn dir_index(d: Direction) -> int {
    match d {
        Direction::N => 0,
        Direction::NNE => 1,
        Direction::NE => 2,
        Direction::ENE => 3,
        Direction::E => 4,
        Direction::ESE => 5,
        Direction::SE => 6,
        Direction::SSE => 7,
        Direction::S => 8,
        Direction::SSW => 9,
        Direction::SW => 10,
        Direction::WSW => 11,
        Direction::W => 12,
        Direction::WNW => 13,
        Direction::NW => 14,
        Direction::NNW => 15,
    }
}

/// The direction at a position in compass order (`NNW` for positions past the last).
pub open spec fn dir_at(i: int) -> Direction {
    if i == 0 {
        Direction::N
    } else if i == 1 {
        Direction::NNE
    } else if i == 2 {
        Direction::NE
    } else if i == 3 {
        Direction::ENE
    } else if i == 4 {
        Direction::E
    } else if i == 5 {
        Direction::ESE
    } else if i == 6 {
        Direction::SE
    } else if i == 7 {
        Direction::SSE
    } else if i == 8 {
        Direction::S
    } else if i == 9 {
        Direction::SSW
    } else if i == 10 {
        Direction::SW
    } else if i == 11 {
        Direction::WSW
    } else if i == 12 {
        Direction::W
    } else if i == 13 {
        Direction::WNW
    } else if i == 14 {
        Direction::NW
    } else {
        Direction::NNW
    }
}

/// How many files one step in this direction moves (east positive).
pub open spec fn file_step(d: Direction) -> int {
    match d {
        Direction::N => 0,
        Direction::NNE => 1,
        Direction::NE => 1,
        Direction::ENE => 2,
        Direction::E => 1,
        Direction::ESE => 2,
        Direction::SE => 1,
        Direction::SSE => 1,
        Direction::S => 0,
        Direction::SSW => -1,
        Direction::SW => -1,
        Direction::WSW => -2,
        Direction::W => -1,
        Direction::WNW => -2,
        Direction::NW => -1,
        Direction::NNW => -1,
    }
}

/// How many ranks one step in this direction moves (north positive).
pub open spec fn rank_step(d: Direction) -> int {
    match d {
        Direction::N => 1,
        Direction::NNE => 2,
        Direction::NE => 1,
        Direction::ENE => 1,
        Direction::E => 0,
        Direction::ESE => -1,
        Direction::SE => -1,
        Direction::SSE => -2,
        Direction::S => -1,
        Direction::SSW => -2,
        Direction::SW => -1,
        Direction::WSW => -1,
        Direction::W => 0,
        Direction::WNW => 1,
        Direction::NW => 1,
        Direction::NNW => 2,
    }
}

/// The direction pointing the other way.
pub open spec fn opposite_of(d: Direction) -> Direction {
    match d {
        Direction::N => Direction::S,
        Direction::NNE => Direction::SSW,
        Direction::NE => Direction::SW,
        Direction::ENE => Direction::WSW,
        Direction::E => Direction::W,
        Direction::ESE => Direction::WNW,
        Direction::SE => Direction::NW,
        Direction::SSE => Direction::NNW,
        Direction::S => Direction::N,
        Direction::SSW => Direction::NNE,
        Direction::SW => Direction::NE,
        Direction::WSW => Direction::ENE,
        Direction::W => Direction::E,
        Direction::WNW => Direction::ESE,
        Direction::NW => Direction::SE,
        Direction::NNW => Direction::SSE,
    }
}

/// The name of a direction, such as `NNE`.
pub open spec fn dir_name(d: Direction) -> Seq<char> {
    match d {
        Direction::N => "N"@,
        Direction::NNE => "NNE"@,
        Direction::NE => "NE"@,
        Direction::ENE => "ENE"@,
        Direction::E => "E"@,
        Direction::ESE => "ESE"@,
        Direction::SE => "SE"@,
        Direction::SSE => "SSE"@,
        Direction::S => "S"@,
        Direction::SSW => "SSW"@,
        Direction::SW => "SW"@,
        Direction::WSW => "WSW"@,
        Direction::W => "W"@,
        Direction::WNW => "WNW"@,
        Direction::NW => "NW"@,
        Direction::NNW => "NNW"@,
    }
}

/// A half wind: one of the eight knight leaps, taken as a single step only.
pub open spec fn is_half_wind(d: Direction) -> bool {
    dir_index(d) % 2 == 1
}

/// Straight up or down the board.
pub open spec fn is_vertical(d: Direction) -> bool {
    d == Direction::N || d == Direction::S
}

/// Facts about the compass that the ray geometry relies on: the steps of
/// opposite directions cancel, opposite is an involution, and full winds move
/// at most one file and one rank per step.
pub proof fn lemma_direction_facts(d: Direction)
    ensures
        opposite_of(opposite_of(d)) == d,
        file_step(opposite_of(d)) == -file_step(d),
        rank_step(opposite_of(d)) == -rank_step(d),
        is_half_wind(opposite_of(d)) == is_half_wind(d),
        is_vertical(opposite_of(d)) == is_vertical(d),
        0 <= dir_index(d) < 16,
        dir_at(dir_index(d)) == d,
        file_step(d) != 0 || rank_step(d) != 0,
        !is_half_wind(d) ==> -1 <= file_step(d) <= 1 && -1 <= rank_step(d) <= 1,
        -2 <= file_step(d) <= 2 && -2 <= rank_step(d) <= 2,
{
}

/// Positions in compass order name each direction once.
pub proof fn lemma_dir_at_index(i: int)
    requires
        0 <= i < 16,
    ensures
        dir_index(dir_at(i)) == i,
{
}

impl Direction {
    /// Returns the opposite direction for a given 16-point compass direction.
    pub fn opposite(&self) -> (r: Self)
        ensures
            r == opposite_of(*self),
    {
        match self {
            Direction::N => Direction::S,
            Direction::NNE => Direction::SSW,
            Direction::NE => Direction::SW,
            Direction::ENE => Direction::WSW,
            Direction::E => Direction::W,
            Direction::ESE => Direction::WNW,
            Direction::SE => Direction::NW,
            Direction::SSE => Direction::NNW,
            Direction::S => Direction::N,
            Direction::SSW => Direction::NNE,
            Direction::SW => Direction::NE,
            Direction::WSW => Direction::ENE,
            Direction::W => Direction::E,
            Direction::WNW => Direction::ESE,
            Direction::NW => Direction::SE,
            Direction::NNW => Direction::SSE,
        }
    }

    /// The position of this direction in compass order.
    pub fn index(&self) -> (r: u8)
        ensures
            r as int == dir_index(*self),
            r < 16,
    {
        match self {
            Direction::N => 0,
            Direction::NNE => 1,
            Direction::NE => 2,
            Direction::ENE => 3,
            Direction::E => 4,
            Direction::ESE => 5,
            Direction::SE => 6,
            Direction::SSE => 7,
            Direction::S => 8,
            Direction::SSW => 9,
            Direction::SW => 10,
            Direction::WSW => 11,
            Direction::W => 12,
            Direction::WNW => 13,
            Direction::NW => 14,
            Direction::NNW => 15,
        }
    }

    /// The direction at position `i` in compass order.
    pub fn from_index(i: u8) -> (r: Self)
        requires
            i < 16,
        ensures
            dir_index(r) == i,
            r == dir_at(i as int),
    {
        match i {
            0 => Direction::N,
            1 => Direction::NNE,
            2 => Direction::NE,
            3 => Direction::ENE,
            4 => Direction::E,
            5 => Direction::ESE,
            6 => Direction::SE,
            7 => Direction::SSE,
            8 => Direction::S,
            9 => Direction::SSW,
            10 => Direction::SW,
            11 => Direction::WSW,
            12 => Direction::W,
            13 => Direction::WNW,
            14 => Direction::NW,
            _ => Direction::NNW,
        }
    }

    /// The name of this direction, such as `NNE`.
    pub fn name(&self) -> (r: &'static str)
        ensures
            r@ == dir_name(*self),
    {
        match self {
            Direction::N => "N",
            Direction::NNE => "NNE",
            Direction::NE => "NE",
            Direction::ENE => "ENE",
            Direction::E => "E",
            Direction::ESE => "ESE",
            Direction::SE => "SE",
            Direction::SSE => "SSE",
            Direction::S => "S",
            Direction::SSW => "SSW",
            Direction::SW => "SW",
            Direction::WSW => "WSW",
            Direction::W => "W",
            Direction::WNW => "WNW",
            Direction::NW => "NW",
            Direction::NNW => "NNW",
        }
    }

    /// Whether this is one of the eight knight leaps.
    pub fn is_half_wind(&self) -> (r: bool)
        ensures
            r == is_half_wind(*self),
    {
        self.index() % 2 == 1
    }

    /// Whether this direction is straight up or down the board.
    pub fn is_vertical(&self) -> (r: bool)
        ensures
            r == is_vertical(*self),
    {
        match self {
            Direction::N | Direction::S => true,
            _ => false,
        }
    }

    /// The file step of this direction.
    pub fn file_step(&self) -> (r: i8)
        ensures
            r == file_step(*self),
    {
        match self {
            Direction::N => 0,
            Direction::NNE => 1,
            Direction::NE => 1,
            Direction::ENE => 2,
            Direction::E => 1,
            Direction::ESE => 2,
            Direction::SE => 1,
            Direction::SSE => 1,
            Direction::S => 0,
            Direction::SSW => -1,
            Direction::SW => -1,
            Direction::WSW => -2,
            Direction::W => -1,
            Direction::WNW => -2,
            Direction::NW => -1,
            Direction::NNW => -1,
        }
    }

    /// The rank step of this direction.
    pub fn rank_step(&self) -> (r: i8)
        ensures
            r == rank_step(*self),
    {
        match self {
            Direction::N => 1,
            Direction::NNE => 2,
            Direction::NE => 1,
            Direction::ENE => 1,
            Direction::E => 0,
            Direction::ESE => -1,
            Direction::SE => -1,
            Direction::SSE => -2,
            Direction::S => -1,
            Direction::SSW => -2,
            Direction::SW => -1,
            Direction::WSW => -1,
            Direction::W => 0,
            Direction::WNW => 1,
            Direction::NW => 1,
            Direction::NNW => 2,
        }
    }
}

/// The sign of an integer: -1, 0 or 1.
pub open spec fn sign(x: int) -> int {
    if x > 0 {
        1
    } else if x < 0 {
        -1
    } else {
        0
    }
}

/// The full wind that moves by the given signs of file and rank.
pub open spec fn full_wind_towards(sf: int, sr: int) -> Direction {
    if sf == 0 && sr == 1 {
        Direction::N
    } else if sf == 1 && sr == 1 {
        Direction::NE
    } else if sf == 1 && sr == 0 {
        Direction::E
    } else if sf == 1 && sr == -1 {
        Direction::SE
    } else if sf == 0 && sr == -1 {
        Direction::S
    } else if sf == -1 && sr == -1 {
        Direction::SW
    } else if sf == -1 && sr == 0 {
        Direction::W
    } else {
        Direction::NW
    }
}

/// The direction in which one square lies from another: the knight leap when
/// the two are a leap apart, else the full wind along whose file, rank or
/// diagonal they lie; none when they are the same square or share no line.
pub open spec fn direction_between(from: int, to: int) -> Option<Direction> {
    let df = file_of(to) - file_of(from);
    let dr = rank_of(to) - rank_of(from);
    if df == 1 && dr == 2 {
        Some(Direction::NNE)
    } else if df == 2 && dr == 1 {
        Some(Direction::ENE)
    } else if df == 2 && dr == -1 {
        Some(Direction::ESE)
    } else if df == 1 && dr == -2 {
        Some(Direction::SSE)
    } else if df == -1 && dr == -2 {
        Some(Direction::SSW)
    } else if df == -2 && dr == -1 {
        Some(Direction::WSW)
    } else if df == -2 && dr == 1 {
        Some(Direction::WNW)
    } else if df == -1 && dr == 2 {
        Some(Direction::NNW)
    } else if (df != 0 || dr != 0) && (df == dr || df == -dr || df == 0 || dr == 0) {
        Some(full_wind_towards(sign(df), sign(dr)))
    } else {
        None
    }
}

/// The direction in which `to` lies from `from`, if they share a line or are a
/// knight's leap apart.
pub fn get_direction(from: Square, to: Square) -> (r: Option<Direction>)
    ensures
        r == direction_between(square_index(from), square_index(to)),
{
    let fi = from.index();
    let ti = to.index();
    let df: i8 = (ti % 8) as i8 - (fi % 8) as i8;
    let dr: i8 = (ti / 8) as i8 - (fi / 8) as i8;
    if df == 1 && dr == 2 {
        Some(Direction::NNE)
    } else if df == 2 && dr == 1 {
        Some(Direction::ENE)
    } else if df == 2 && dr == -1 {
        Some(Direction::ESE)
    } else if df == 1 && dr == -2 {
        Some(Direction::SSE)
    } else if df == -1 && dr == -2 {
        Some(Direction::SSW)
    } else if df == -2 && dr == -1 {
        Some(Direction::WSW)
    } else if df == -2 && dr == 1 {
        Some(Direction::WNW)
    } else if df == -1 && dr == 2 {
        Some(Direction::NNW)
    } else if (df != 0 || dr != 0) && (df == dr || df == -dr || df == 0 || dr == 0) {
        let sf: i8 = if df > 0 { 1 } else if df < 0 { -1 } else { 0 };
        let sr: i8 = if dr > 0 { 1 } else if dr < 0 { -1 } else { 0 };
        if sf == 0 && sr == 1 {
            Some(Direction::N)
        } else if sf == 1 && sr == 1 {
            Some(Direction::NE)
        } else if sf == 1 && sr == 0 {
            Some(Direction::E)
        } else if sf == 1 && sr == -1 {
            Some(Direction::SE)
        } else if sf == 0 && sr == -1 {
            Some(Direction::S)
        } else if sf == -1 && sr == -1 {
            Some(Direction::SW)
        } else if sf == -1 && sr == 0 {
            Some(Direction::W)
        } else {
            Some(Direction::NW)
        }
    } else {
        None
    }
}

} // verus!
