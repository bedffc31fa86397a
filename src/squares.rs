use vstd::prelude::*;

verus! {
/// The sixty-four squares, named by file letter and rank digit, in the order
/// of their bit in an occupancy word: `a1` is bit 0, `h1` bit 7, `h8` bit 63.
#[allow(non_camel_case_types)]
#[derive(Debug, PartialEq, Eq, Hash, Copy, Clone, Structural)]
pub enum Square {
    a1,
    b1,
    c1,
    d1,
    e1,
    f1,
    g1,
    h1,
    a2,
    b2,
    c2,
    d2,
    e2,
    f2,
    g2,
    h2,
    a3,
    b3,
    c3,
    d3,
    e3,
    f3,
    g3,
    h3,
    a4,
    b4,
    c4,
    d4,
    e4,
    f4,
    g4,
    h4,
    a5,
    b5,
    c5,
    d5,
    e5,
    f5,
    g5,
    h5,
    a6,
    b6,
    c6,
    d6,
    e6,
    f6,
    g6,
    h6,
    a7,
    b7,
    c7,
    d7,
    e7,
    f7,
    g7,
    h7,
    a8,
    b8,
    c8,
    d8,
    e8,
    f8,
    g8,
    h8,
}

/// The bit index of a square: eight times its rank plus its file, both counted from zero.
pub open spec fn square_index(s: Square) -> int {
    match s {
        Square::a1 => 0,
        Square::b1 => 1,
        Square::c1 => 2,
        Square::d1 => 3,
        Square::e1 => 4,
        Square::f1 => 5,
        Square::g1 => 6,
        Square::h1 => 7,
        Square::a2 => 8,
        Square::b2 => 9,
        Square::c2 => 10,
        Square::d2 => 11,
        Square::e2 => 12,
        Square::f2 => 13,
        Square::g2 => 14,
        Square::h2 => 15,
        Square::a3 => 16,
        Square::b3 => 17,
        Square::c3 => 18,
        Square::d3 => 19,
        Square::e3 => 20,
        Square::f3 => 21,
        Square::g3 => 22,
        Square::h3 => 23,
        Square::a4 => 24,
        Square::b4 => 25,
        Square::c4 => 26,
        Square::d4 => 27,
        Square::e4 => 28,
        Square::f4 => 29,
        Square::g4 => 30,
        Square::h4 => 31,
        Square::a5 => 32,
        Square::b5 => 33,
        Square::c5 => 34,
        Square::d5 => 35,
        Square::e5 => 36,
        Square::f5 => 37,
        Square::g5 => 38,
        Square::h5 => 39,
        Square::a6 => 40,
        Square::b6 => 41,
        Square::c6 => 42,
        Square::d6 => 43,
        Square::e6 => 44,
        Square::f6 => 45,
        Square::g6 => 46,
        Square::h6 => 47,
        Square::a7 => 48,
        Square::b7 => 49,
        Square::c7 => 50,
        Square::d7 => 51,
        Square::e7 => 52,
        Square::f7 => 53,
        Square::g7 => 54,
        Square::h7 => 55,
        Square::a8 => 56,
        Square::b8 => 57,
        Square::c8 => 58,
        Square::d8 => 59,
        Square::e8 => 60,
        Square::f8 => 61,
        Square::g8 => 62,
        Square::h8 => 63,
    }
}

/// The square whose bit index is `i` (`h8` stands in for indices off the board).
pub open spec fn square_at(i: int) -> Square {
    if i == 0 {
        Square::a1
    } else if i == 1 {
        Square::b1
    } else if i == 2 {
        Square::c1
    } else if i == 3 {
        Square::d1
    } else if i == 4 {
        Square::e1
    } else if i == 5 {
        Square::f1
    } else if i == 6 {
        Square::g1
    } else if i == 7 {
        Square::h1
    } else if i == 8 {
        Square::a2
    } else if i == 9 {
        Square::b2
    } else if i == 10 {
        Square::c2
    } else if i == 11 {
        Square::d2
    } else if i == 12 {
        Square::e2
    } else if i == 13 {
        Square::f2
    } else if i == 14 {
        Square::g2
    } else if i == 15 {
        Square::h2
    } else if i == 16 {
        Square::a3
    } else if i == 17 {
        Square::b3
    } else if i == 18 {
        Square::c3
    } else if i == 19 {
        Square::d3
    } else if i == 20 {
        Square::e3
    } else if i == 21 {
        Square::f3
    } else if i == 22 {
        Square::g3
    } else if i == 23 {
        Square::h3
    } else if i == 24 {
        Square::a4
    } else if i == 25 {
        Square::b4
    } else if i == 26 {
        Square::c4
    } else if i == 27 {
        Square::d4
    } else if i == 28 {
        Square::e4
    } else if i == 29 {
        Square::f4
    } else if i == 30 {
        Square::g4
    } else if i == 31 {
        Square::h4
    } else if i == 32 {
        Square::a5
    } else if i == 33 {
        Square::b5
    } else if i == 34 {
        Square::c5
    } else if i == 35 {
        Square::d5
    } else if i == 36 {
        Square::e5
    } else if i == 37 {
        Square::f5
    } else if i == 38 {
        Square::g5
    } else if i == 39 {
        Square::h5
    } else if i == 40 {
        Square::a6
    } else if i == 41 {
        Square::b6
    } else if i == 42 {
        Square::c6
    } else if i == 43 {
        Square::d6
    } else if i == 44 {
        Square::e6
    } else if i == 45 {
        Square::f6
    } else if i == 46 {
        Square::g6
    } else if i == 47 {
        Square::h6
    } else if i == 48 {
        Square::a7
    } else if i == 49 {
        Square::b7
    } else if i == 50 {
        Square::c7
    } else if i == 51 {
        Square::d7
    } else if i == 52 {
        Square::e7
    } else if i == 53 {
        Square::f7
    } else if i == 54 {
        Square::g7
    } else if i == 55 {
        Square::h7
    } else if i == 56 {
        Square::a8
    } else if i == 57 {
        Square::b8
    } else if i == 58 {
        Square::c8
    } else if i == 59 {
        Square::d8
    } else if i == 60 {
        Square::e8
    } else if i == 61 {
        Square::f8
    } else if i == 62 {
        Square::g8
    } else {
        Square::h8
    }
}

/// Naming a square by its index and then taking the index back is the identity.
pub proof fn lemma_square_index_round_trip(s: Square)
    ensures
        0 <= square_index(s) < 64,
        square_at(square_index(s)) == s,
{
}

/// Taking the square at an index on the board and then its index is the identity.
pub proof fn lemma_square_at_round_trip(i: int)
    requires
        0 <= i < 64,
    ensures
        square_index(square_at(i)) == i,
{
}

impl Square {
    /// The bit index of this square in an occupancy word.
    pub fn index(&self) -> (r: u8)
        ensures
            r as int == square_index(*self),
            r < 64,
    {
        match self {
            Square::a1 => 0,
            Square::b1 => 1,
            Square::c1 => 2,
            Square::d1 => 3,
            Square::e1 => 4,
            Square::f1 => 5,
            Square::g1 => 6,
            Square::h1 => 7,
            Square::a2 => 8,
            Square::b2 => 9,
            Square::c2 => 10,
            Square::d2 => 11,
            Square::e2 => 12,
            Square::f2 => 13,
            Square::g2 => 14,
            Square::h2 => 15,
            Square::a3 => 16,
            Square::b3 => 17,
            Square::c3 => 18,
            Square::d3 => 19,
            Square::e3 => 20,
            Square::f3 => 21,
            Square::g3 => 22,
            Square::h3 => 23,
            Square::a4 => 24,
            Square::b4 => 25,
            Square::c4 => 26,
            Square::d4 => 27,
            Square::e4 => 28,
            Square::f4 => 29,
            Square::g4 => 30,
            Square::h4 => 31,
            Square::a5 => 32,
            Square::b5 => 33,
            Square::c5 => 34,
            Square::d5 => 35,
            Square::e5 => 36,
            Square::f5 => 37,
            Square::g5 => 38,
            Square::h5 => 39,
            Square::a6 => 40,
            Square::b6 => 41,
            Square::c6 => 42,
            Square::d6 => 43,
            Square::e6 => 44,
            Square::f6 => 45,
            Square::g6 => 46,
            Square::h6 => 47,
            Square::a7 => 48,
            Square::b7 => 49,
            Square::c7 => 50,
            Square::d7 => 51,
            Square::e7 => 52,
            Square::f7 => 53,
            Square::g7 => 54,
            Square::h7 => 55,
            Square::a8 => 56,
            Square::b8 => 57,
            Square::c8 => 58,
            Square::d8 => 59,
            Square::e8 => 60,
            Square::f8 => 61,
            Square::g8 => 62,
            Square::h8 => 63,
        }
    }

    /// The square with bit index `i`.
    pub fn from_index(i: u8) -> (r: Square)
        requires
            i < 64,
        ensures
            square_index(r) == i,
            r == square_at(i as int),
    {
        match i {
            0 => Square::a1,
            1 => Square::b1,
            2 => Square::c1,
            3 => Square::d1,
            4 => Square::e1,
            5 => Square::f1,
            6 => Square::g1,
            7 => Square::h1,
            8 => Square::a2,
            9 => Square::b2,
            10 => Square::c2,
            11 => Square::d2,
            12 => Square::e2,
            13 => Square::f2,
            14 => Square::g2,
            15 => Square::h2,
            16 => Square::a3,
            17 => Square::b3,
            18 => Square::c3,
            19 => Square::d3,
            20 => Square::e3,
            21 => Square::f3,
            22 => Square::g3,
            23 => Square::h3,
            24 => Square::a4,
            25 => Square::b4,
            26 => Square::c4,
            27 => Square::d4,
            28 => Square::e4,
            29 => Square::f4,
            30 => Square::g4,
            31 => Square::h4,
            32 => Square::a5,
            33 => Square::b5,
            34 => Square::c5,
            35 => Square::d5,
            36 => Square::e5,
            37 => Square::f5,
            38 => Square::g5,
            39 => Square::h5,
            40 => Square::a6,
            41 => Square::b6,
            42 => Square::c6,
            43 => Square::d6,
            44 => Square::e6,
            45 => Square::f6,
            46 => Square::g6,
            47 => Square::h6,
            48 => Square::a7,
            49 => Square::b7,
            50 => Square::c7,
            51 => Square::d7,
            52 => Square::e7,
            53 => Square::f7,
            54 => Square::g7,
            55 => Square::h7,
            56 => Square::a8,
            57 => Square::b8,
            58 => Square::c8,
            59 => Square::d8,
            60 => Square::e8,
            61 => Square::f8,
            62 => Square::g8,
            _ => Square::h8,
        }
    }
}

} // verus!
