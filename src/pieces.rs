use crate::compass_groups::{dir_at, dir_index, dir_name, is_half_wind, lemma_dir_at_index, Direction};
use crate::exchangers::{exchange_text, opt_view, Exchange, ExchangeView};
use crate::pid::{pid_text, Pid, PidView};
use crate::text::{push_str, square_name};
use vstd::prelude::*;

verus! {

/// The two sides; White's piece letters are upper case, Black's lower case.
#[derive(Debug, PartialEq, Eq, Copy, Clone, Structural)]
pub enum Side {
    White,
    Black,
}

/// A piece's kind without its side.
#[derive(Debug, PartialEq, Eq, Copy, Clone, Structural)]
pub enum BasicPieceType {
    King,
    Queen,
    Rook,
    Bishop,
    Knight,
    Pawn,
}

/// A piece's kind together with its side: one of the twelve piece letters.
#[derive(Debug, PartialEq, Eq, Copy, Clone, Structural)]
pub enum PieceType {
    WhiteKing,
    BlackKing,
    WhiteQueen,
    BlackQueen,
    WhiteRook,
    BlackRook,
    WhiteBishop,
    BlackBishop,
    WhiteKnight,
    BlackKnight,
    WhitePawn,
    BlackPawn,
}

/// The kind of a piece type without its side.
pub open spec fn basic_of(t: PieceType) -> BasicPieceType {
    match t {
        PieceType::WhiteKing => BasicPieceType::King,
        PieceType::BlackKing => BasicPieceType::King,
        PieceType::WhiteQueen => BasicPieceType::Queen,
        PieceType::BlackQueen => BasicPieceType::Queen,
        PieceType::WhiteRook => BasicPieceType::Rook,
        PieceType::BlackRook => BasicPieceType::Rook,
        PieceType::WhiteBishop => BasicPieceType::Bishop,
        PieceType::BlackBishop => BasicPieceType::Bishop,
        PieceType::WhiteKnight => BasicPieceType::Knight,
        PieceType::BlackKnight => BasicPieceType::Knight,
        PieceType::WhitePawn => BasicPieceType::Pawn,
        PieceType::BlackPawn => BasicPieceType::Pawn,
    }
}

/// The side a piece type belongs to.
pub open spec fn side_of(t: PieceType) -> Side {
    match t {
        PieceType::WhiteKing => Side::White,
        PieceType::BlackKing => Side::Black,
        PieceType::WhiteQueen => Side::White,
        PieceType::BlackQueen => Side::Black,
        PieceType::WhiteRook => Side::White,
        PieceType::BlackRook => Side::Black,
        PieceType::WhiteBishop => Side::White,
        PieceType::BlackBishop => Side::Black,
        PieceType::WhiteKnight => Side::White,
        PieceType::BlackKnight => Side::Black,
        PieceType::WhitePawn => Side::White,
        PieceType::BlackPawn => Side::Black,
    }
}

/// The letter that names a piece type.
pub open spec fn type_char(t: PieceType) -> char {
    match t {
        PieceType::WhiteKing => 'K',
        PieceType::BlackKing => 'k',
        PieceType::WhiteQueen => 'Q',
        PieceType::BlackQueen => 'q',
        PieceType::WhiteRook => 'R',
        PieceType::BlackRook => 'r',
        PieceType::WhiteBishop => 'B',
        PieceType::BlackBishop => 'b',
        PieceType::WhiteKnight => 'N',
        PieceType::BlackKnight => 'n',
        PieceType::WhitePawn => 'P',
        PieceType::BlackPawn => 'p',
    }
}

/// The piece type that a letter names, if any.
pub open spec fn type_of_char(c: char) -> Option<PieceType> {
    if c == 'K' {
        Some(PieceType::WhiteKing)
    } else if c == 'k' {
        Some(PieceType::BlackKing)
    } else if c == 'Q' {
        Some(PieceType::WhiteQueen)
    } else if c == 'q' {
        Some(PieceType::BlackQueen)
    } else if c == 'R' {
        Some(PieceType::WhiteRook)
    } else if c == 'r' {
        Some(PieceType::BlackRook)
    } else if c == 'B' {
        Some(PieceType::WhiteBishop)
    } else if c == 'b' {
        Some(PieceType::BlackBishop)
    } else if c == 'N' {
        Some(PieceType::WhiteKnight)
    } else if c == 'n' {
        Some(PieceType::BlackKnight)
    } else if c == 'P' {
        Some(PieceType::WhitePawn)
    } else if c == 'p' {
        Some(PieceType::BlackPawn)
    } else {
        None
    }
}

/// The kind that a letter names in either case, if any.
pub open spec fn basic_of_char(c: char) -> Option<BasicPieceType> {
    match type_of_char(c) {
        Some(t) => Some(basic_of(t)),
        None => None,
    }
}

/// Queens, rooks and bishops act at any distance along their lines.
pub open spec fn is_sliding(t: PieceType) -> bool {
    match basic_of(t) {
        BasicPieceType::Queen | BasicPieceType::Rook | BasicPieceType::Bishop => true,
        _ => false,
    }
}

/// The piece type of a kind and a side.
pub open spec fn type_of(b: BasicPieceType, s: Side) -> PieceType {
    match (b, s) {
        (BasicPieceType::King, Side::White) => PieceType::WhiteKing,
        (BasicPieceType::King, Side::Black) => PieceType::BlackKing,
        (BasicPieceType::Queen, Side::White) => PieceType::WhiteQueen,
        (BasicPieceType::Queen, Side::Black) => PieceType::BlackQueen,
        (BasicPieceType::Rook, Side::White) => PieceType::WhiteRook,
        (BasicPieceType::Rook, Side::Black) => PieceType::BlackRook,
        (BasicPieceType::Bishop, Side::White) => PieceType::WhiteBishop,
        (BasicPieceType::Bishop, Side::Black) => PieceType::BlackBishop,
        (BasicPieceType::Knight, Side::White) => PieceType::WhiteKnight,
        (BasicPieceType::Knight, Side::Black) => PieceType::BlackKnight,
        (BasicPieceType::Pawn, Side::White) => PieceType::WhitePawn,
        (BasicPieceType::Pawn, Side::Black) => PieceType::BlackPawn,
    }
}

/// The directions in which a piece type moves, in the order the rule table lists them.
pub open spec fn direction_list(t: PieceType) -> Seq<Direction> {
    match t {
        PieceType::WhiteKing => seq![Direction::N, Direction::NE, Direction::E, Direction::SE, Direction::S, Direction::SW, Direction::W, Direction::NW],
        PieceType::BlackKing => seq![Direction::N, Direction::NE, Direction::E, Direction::SE, Direction::S, Direction::SW, Direction::W, Direction::NW],
        PieceType::WhiteQueen => seq![Direction::N, Direction::NE, Direction::E, Direction::SE, Direction::S, Direction::SW, Direction::W, Direction::NW],
        PieceType::BlackQueen => seq![Direction::N, Direction::NE, Direction::E, Direction::SE, Direction::S, Direction::SW, Direction::W, Direction::NW],
        PieceType::WhiteRook => seq![Direction::N, Direction::E, Direction::S, Direction::W],
        PieceType::BlackRook => seq![Direction::N, Direction::E, Direction::S, Direction::W],
        PieceType::WhiteBishop => seq![Direction::NE, Direction::SE, Direction::SW, Direction::NW],
        PieceType::BlackBishop => seq![Direction::NE, Direction::SE, Direction::SW, Direction::NW],
        PieceType::WhiteKnight => seq![Direction::NNE, Direction::ENE, Direction::ESE, Direction::SSE, Direction::SSW, Direction::WSW, Direction::WNW, Direction::NNW],
        PieceType::BlackKnight => seq![Direction::NNE, Direction::ENE, Direction::ESE, Direction::SSE, Direction::SSW, Direction::WSW, Direction::WNW, Direction::NNW],
        PieceType::WhitePawn => seq![Direction::N, Direction::NE, Direction::NW],
        PieceType::BlackPawn => seq![Direction::S, Direction::SW, Direction::SE],
    }
}

/// Whether a piece type moves along a direction: kings and queens along every
/// full wind, rooks along files and ranks, bishops along diagonals, knights
/// along the half winds, and pawns forward and diagonally forward.
pub open spec fn moves_along(t: PieceType, d: Direction) -> bool {
    match basic_of(t) {
        BasicPieceType::King | BasicPieceType::Queen => !is_half_wind(d),
        BasicPieceType::Rook => d == Direction::N || d == Direction::E || d == Direction::S || d
            == Direction::W,
        BasicPieceType::Bishop => d == Direction::NE || d == Direction::SE || d == Direction::SW
            || d == Direction::NW,
        BasicPieceType::Knight => is_half_wind(d),
        BasicPieceType::Pawn => match side_of(t) {
            Side::White => d == Direction::N || d == Direction::NE || d == Direction::NW,
            Side::Black => d == Direction::S || d == Direction::SE || d == Direction::SW,
        },
    }
}

/// The rule table lists exactly the directions a piece type moves along.
pub proof fn lemma_direction_list(t: PieceType, d: Direction)
    ensures
        direction_list(t).contains(d) <==> moves_along(t, d),
{
    let l = direction_list(t);
    if moves_along(t, d) {
        assert(exists|i: int| 0 <= i < l.len() && l[i] == d) by {
            match t {
                PieceType::WhiteKing | PieceType::BlackKing | PieceType::WhiteQueen
                | PieceType::BlackQueen => {
                    match d {
                        Direction::N => assert(l[0] == d),
                        Direction::NE => assert(l[1] == d),
                        Direction::E => assert(l[2] == d),
                        Direction::SE => assert(l[3] == d),
                        Direction::S => assert(l[4] == d),
                        Direction::SW => assert(l[5] == d),
                        Direction::W => assert(l[6] == d),
                        _ => assert(l[7] == d),
                    }
                },
                PieceType::WhiteRook | PieceType::BlackRook => {
                    match d {
                        Direction::N => assert(l[0] == d),
                        Direction::E => assert(l[1] == d),
                        Direction::S => assert(l[2] == d),
                        _ => assert(l[3] == d),
                    }
                },
                PieceType::WhiteBishop | PieceType::BlackBishop => {
                    match d {
                        Direction::NE => assert(l[0] == d),
                        Direction::SE => assert(l[1] == d),
                        Direction::SW => assert(l[2] == d),
                        _ => assert(l[3] == d),
                    }
                },
                PieceType::WhiteKnight | PieceType::BlackKnight => {
                    match d {
                        Direction::NNE => assert(l[0] == d),
                        Direction::ENE => assert(l[1] == d),
                        Direction::ESE => assert(l[2] == d),
                        Direction::SSE => assert(l[3] == d),
                        Direction::SSW => assert(l[4] == d),
                        Direction::WSW => assert(l[5] == d),
                        Direction::WNW => assert(l[6] == d),
                        _ => assert(l[7] == d),
                    }
                },
                PieceType::WhitePawn => {
                    match d {
                        Direction::N => assert(l[0] == d),
                        Direction::NE => assert(l[1] == d),
                        _ => assert(l[2] == d),
                    }
                },
                PieceType::BlackPawn => {
                    match d {
                        Direction::S => assert(l[0] == d),
                        Direction::SW => assert(l[1] == d),
                        _ => assert(l[2] == d),
                    }
                },
            }
        }
    }
}

impl BasicPieceType {
    /// The kind that a piece letter names, in either case.
    pub fn from_char(c: char) -> (r: Option<Self>)
        ensures
            r == basic_of_char(c),
    {
        match c {
            'K' | 'k' => Some(BasicPieceType::King),
            'Q' | 'q' => Some(BasicPieceType::Queen),
            'R' | 'r' => Some(BasicPieceType::Rook),
            'B' | 'b' => Some(BasicPieceType::Bishop),
            'N' | 'n' => Some(BasicPieceType::Knight),
            'P' | 'p' => Some(BasicPieceType::Pawn),
            _ => None,
        }
    }
}

/// The fixed description of a piece type: its kind, side, whether it slides,
/// and the directions it moves along.
#[derive(Debug)]
pub struct PieceTypeData {
    pub basic_piece_type: BasicPieceType,
    pub side: Side,
    pub is_sliding: bool,
    pub directions: Vec<Direction>,
}

impl PieceType {
    /// The piece type that a letter names: upper case for White, lower case for Black.
    pub fn from_char(c: char) -> (r: Option<Self>)
        ensures
            r == type_of_char(c),
    {
        match c {
            'K' => Some(PieceType::WhiteKing),
            'k' => Some(PieceType::BlackKing),
            'Q' => Some(PieceType::WhiteQueen),
            'q' => Some(PieceType::BlackQueen),
            'R' => Some(PieceType::WhiteRook),
            'r' => Some(PieceType::BlackRook),
            'B' => Some(PieceType::WhiteBishop),
            'b' => Some(PieceType::BlackBishop),
            'N' => Some(PieceType::WhiteKnight),
            'n' => Some(PieceType::BlackKnight),
            'P' => Some(PieceType::WhitePawn),
            'p' => Some(PieceType::BlackPawn),
            _ => None,
        }
    }

    /// The piece type that a letter names; the same lookup as `from_char`.
    pub fn get_piece_type(c: char) -> (r: Option<Self>)
        ensures
            r == type_of_char(c),
    {
        PieceType::from_char(c)
    }

    /// The rule descriptor of this piece type.
    pub fn get_data(&self) -> (r: PieceTypeData)
        ensures
            r.basic_piece_type == basic_of(*self),
            r.side == side_of(*self),
            r.is_sliding == is_sliding(*self),
            r.directions@ == direction_list(*self),
            forall|d: Direction| r.directions@.contains(d) <==> moves_along(*self, d),
    {
        proof {
            assert forall|d: Direction| direction_list(*self).contains(d) <==> moves_along(*self, d) by {
                lemma_direction_list(*self, d);
            }
        }
        let directions = match self {
            PieceType::WhiteKing => vec![Direction::N, Direction::NE, Direction::E, Direction::SE, Direction::S, Direction::SW, Direction::W, Direction::NW],
            PieceType::BlackKing => vec![Direction::N, Direction::NE, Direction::E, Direction::SE, Direction::S, Direction::SW, Direction::W, Direction::NW],
            PieceType::WhiteQueen => vec![Direction::N, Direction::NE, Direction::E, Direction::SE, Direction::S, Direction::SW, Direction::W, Direction::NW],
            PieceType::BlackQueen => vec![Direction::N, Direction::NE, Direction::E, Direction::SE, Direction::S, Direction::SW, Direction::W, Direction::NW],
            PieceType::WhiteRook => vec![Direction::N, Direction::E, Direction::S, Direction::W],
            PieceType::BlackRook => vec![Direction::N, Direction::E, Direction::S, Direction::W],
            PieceType::WhiteBishop => vec![Direction::NE, Direction::SE, Direction::SW, Direction::NW],
            PieceType::BlackBishop => vec![Direction::NE, Direction::SE, Direction::SW, Direction::NW],
            PieceType::WhiteKnight => vec![Direction::NNE, Direction::ENE, Direction::ESE, Direction::SSE, Direction::SSW, Direction::WSW, Direction::WNW, Direction::NNW],
            PieceType::BlackKnight => vec![Direction::NNE, Direction::ENE, Direction::ESE, Direction::SSE, Direction::SSW, Direction::WSW, Direction::WNW, Direction::NNW],
            PieceType::WhitePawn => vec![Direction::N, Direction::NE, Direction::NW],
            PieceType::BlackPawn => vec![Direction::S, Direction::SW, Direction::SE],
        };
        proof {
            assert(directions@ =~= direction_list(*self));
        }
        PieceTypeData {
            basic_piece_type: self.basic(),
            side: self.side(),
            is_sliding: self.is_sliding(),
            directions,
        }
    }

    /// The kind of this piece type.
    pub fn basic(&self) -> (r: BasicPieceType)
        ensures
            r == basic_of(*self),
    {
        match self {
            PieceType::WhiteKing => BasicPieceType::King,
            PieceType::BlackKing => BasicPieceType::King,
            PieceType::WhiteQueen => BasicPieceType::Queen,
            PieceType::BlackQueen => BasicPieceType::Queen,
            PieceType::WhiteRook => BasicPieceType::Rook,
            PieceType::BlackRook => BasicPieceType::Rook,
            PieceType::WhiteBishop => BasicPieceType::Bishop,
            PieceType::BlackBishop => BasicPieceType::Bishop,
            PieceType::WhiteKnight => BasicPieceType::Knight,
            PieceType::BlackKnight => BasicPieceType::Knight,
            PieceType::WhitePawn => BasicPieceType::Pawn,
            PieceType::BlackPawn => BasicPieceType::Pawn,
        }
    }

    /// The side of this piece type.
    pub fn side(&self) -> (r: Side)
        ensures
            r == side_of(*self),
    {
        match self {
            PieceType::WhiteKing => Side::White,
            PieceType::BlackKing => Side::Black,
            PieceType::WhiteQueen => Side::White,
            PieceType::BlackQueen => Side::Black,
            PieceType::WhiteRook => Side::White,
            PieceType::BlackRook => Side::Black,
            PieceType::WhiteBishop => Side::White,
            PieceType::BlackBishop => Side::Black,
            PieceType::WhiteKnight => Side::White,
            PieceType::BlackKnight => Side::Black,
            PieceType::WhitePawn => Side::White,
            PieceType::BlackPawn => Side::Black,
        }
    }

    /// The letter of this piece type.
    pub fn to_char(&self) -> (r: char)
        ensures
            r == type_char(*self),
    {
        match self {
            PieceType::WhiteKing => 'K',
            PieceType::BlackKing => 'k',
            PieceType::WhiteQueen => 'Q',
            PieceType::BlackQueen => 'q',
            PieceType::WhiteRook => 'R',
            PieceType::BlackRook => 'r',
            PieceType::WhiteBishop => 'B',
            PieceType::BlackBishop => 'b',
            PieceType::WhiteKnight => 'N',
            PieceType::BlackKnight => 'n',
            PieceType::WhitePawn => 'P',
            PieceType::BlackPawn => 'p',
        }
    }

    /// The piece type of a kind and a side.
    pub fn of(b: BasicPieceType, s: Side) -> (r: Self)
        ensures
            r == type_of(b, s),
    {
        match (b, s) {
            (BasicPieceType::King, Side::White) => PieceType::WhiteKing,
            (BasicPieceType::King, Side::Black) => PieceType::BlackKing,
            (BasicPieceType::Queen, Side::White) => PieceType::WhiteQueen,
            (BasicPieceType::Queen, Side::Black) => PieceType::BlackQueen,
            (BasicPieceType::Rook, Side::White) => PieceType::WhiteRook,
            (BasicPieceType::Rook, Side::Black) => PieceType::BlackRook,
            (BasicPieceType::Bishop, Side::White) => PieceType::WhiteBishop,
            (BasicPieceType::Bishop, Side::Black) => PieceType::BlackBishop,
            (BasicPieceType::Knight, Side::White) => PieceType::WhiteKnight,
            (BasicPieceType::Knight, Side::Black) => PieceType::BlackKnight,
            (BasicPieceType::Pawn, Side::White) => PieceType::WhitePawn,
            (BasicPieceType::Pawn, Side::Black) => PieceType::BlackPawn,
        }
    }

    /// Whether this piece type acts at any distance along its lines.
    pub fn is_sliding(&self) -> (r: bool)
        ensures
            r == is_sliding(*self),
    {
        match self.basic() {
            BasicPieceType::Queen | BasicPieceType::Rook | BasicPieceType::Bishop => true,
            _ => false,
        }
    }

    /// Whether this piece type moves along `d`.
    pub fn moves_along(&self, d: Direction) -> (r: bool)
        ensures
            r == moves_along(*self, d),
    {
        match self.basic() {
            BasicPieceType::King | BasicPieceType::Queen => !d.is_half_wind(),
            BasicPieceType::Rook => match d {
                Direction::N | Direction::E | Direction::S | Direction::W => true,
                _ => false,
            },
            BasicPieceType::Bishop => match d {
                Direction::NE | Direction::SE | Direction::SW | Direction::NW => true,
                _ => false,
            },
            BasicPieceType::Knight => d.is_half_wind(),
            BasicPieceType::Pawn => match self.side() {
                Side::White => match d {
                    Direction::N | Direction::NE | Direction::NW => true,
                    _ => false,
                },
                Side::Black => match d {
                    Direction::S | Direction::SE | Direction::SW => true,
                    _ => false,
                },
            },
        }
    }
}

/// What a resident piece denotes: its identifier and, for each of the sixteen
/// directions in compass order, its exchanger sequence along that ray, if any.
pub struct PieceView {
    pub pid: PidView,
    pub exchangers: Seq<Option<ExchangeView>>,
}

/// A piece on the board: its identifier and its cached exchanger sequences,
/// one slot per direction. An exchanger sequence records who could capture
/// on this piece's square along that ray, not what this piece could capture.
#[derive(Debug)]
pub struct Piece {
    pid: Pid,
    exchangers: Vec<Option<Exchange>>,
}

impl View for Piece {
    type V = PieceView;

    closed spec fn view(&self) -> PieceView {
        PieceView {
            pid: self.pid@,
            exchangers: self.exchangers@.map_values(|o: Option<Exchange>| opt_view(o)),
        }
    }
}

/// The text of one direction's entry, such as `N:e6re7r`.
pub open spec fn entry_text(d: Direction, x: ExchangeView) -> Seq<char> {
    dir_name(d) + ":"@ + exchange_text(x)
}

/// The entries among the first `n` directions, joined by `, `.
pub open spec fn entries_text(ex: Seq<Option<ExchangeView>>, n: int) -> Seq<char>
    decreases n,
{
    if n <= 0 {
        Seq::empty()
    } else {
        let prev = entries_text(ex, n - 1);
        match ex[n - 1] {
            None => prev,
            Some(x) => if prev.len() == 0 {
                entry_text(dir_at(n - 1), x)
            } else {
                prev + ", "@ + entry_text(dir_at(n - 1), x)
            },
        }
    }
}

/// A piece's line in the board's dump: its identifier, a bar, and its
/// entries in compass order.
pub open spec fn piece_text(p: PieceView) -> Seq<char> {
    let e = entries_text(p.exchangers, 16);
    if e.len() == 0 {
        pid_text(p.pid) + " |"@
    } else {
        pid_text(p.pid) + " |"@ + " "@ + e
    }
}

/// No exchanger sequence in any direction.
pub open spec fn no_exchangers() -> Seq<Option<ExchangeView>> {
    Seq::new(16, |j: int| None)
}

impl Piece {
    /// A piece with the given identifier and no exchanger sequences yet.
    pub fn new(pid: Pid) -> (r: Self)
        ensures
            r@ == (PieceView { pid: pid@, exchangers: no_exchangers() }),
    {
        let mut exchangers: Vec<Option<Exchange>> = Vec::new();
        let mut i: usize = 0;
        while i < 16
            invariant
                i <= 16,
                exchangers@.len() == i,
                forall|j: int| 0 <= j < i ==> #[trigger] exchangers@[j] is None,
            decreases 16 - i,
        {
            exchangers.push(None);
            i = i + 1;
        }
        let r = Piece { pid, exchangers };
        proof {
            assert(r@.exchangers =~= no_exchangers());
        }
        r
    }

    /// Whether the piece has a slot for each of the sixteen directions, as
    /// every piece made by this library does.
    pub open spec fn wf(&self) -> bool {
        self@.exchangers.len() == 16
    }

    /// A piece with the given identifier and exchanger sequences.
    pub(crate) fn with_exchangers(pid: Pid, exchangers: Vec<Option<Exchange>>) -> (r: Self)
        ensures
            r@ == (PieceView {
                pid: pid@,
                exchangers: exchangers@.map_values(|o: Option<Exchange>| opt_view(o)),
            }),
    {
        Piece { pid, exchangers }
    }

    /// The piece's identifier.
    pub fn pid(&self) -> (r: &Pid)
        ensures
            r@ == self@.pid,
    {
        &self.pid
    }

    /// The rule descriptor of the piece's type.
    pub fn get_piece_data(&self) -> (r: PieceTypeData)
        ensures
            r.basic_piece_type == basic_of(self@.pid.kind),
            r.side == side_of(self@.pid.kind),
            r.is_sliding == is_sliding(self@.pid.kind),
            r.directions@ == direction_list(self@.pid.kind),
    {
        self.pid.kind().get_data()
    }

    /// The identifier's text, such as `e1K`.
    pub fn get_pid(&self) -> (r: &str)
        ensures
            r@ == pid_text(self@.pid),
    {
        self.pid.as_str()
    }

    /// The name of the piece's square.
    pub fn get_square(&self) -> (r: &str)
        ensures
            r@ == square_name(self@.pid.square),
    {
        self.pid.get_square()
    }

    /// The letter of the piece's type.
    pub fn get_piece_type_as_char(&self) -> (r: char)
        ensures
            r == type_char(self@.pid.kind),
    {
        self.pid.kind().to_char()
    }

    /// The side the piece belongs to.
    pub fn get_piece_side(&self) -> (r: Side)
        ensures
            r == side_of(self@.pid.kind),
    {
        self.pid.kind().side()
    }

    /// The exchanger sequence along `d`, if any.
    pub fn exchanger(&self, d: Direction) -> (r: Option<&Exchange>)
        ensures
            self@.exchangers.len() == 16 ==> match r {
                Some(x) => self@.exchangers[dir_index(d)] == Some(x@),
                None => self@.exchangers[dir_index(d)] is None,
            },
    {
        let i = d.index() as usize;
        if i < self.exchangers.len() {
            match &self.exchangers[i] {
                Some(x) => Some(x),
                None => None,
            }
        } else {
            None
        }
    }

    /// Appends this piece's line of the board's dump to `out`.
    pub fn push_display(&self, out: &mut String)
        requires
            self.wf(),
        ensures
            final(out)@ == old(out)@ + piece_text(self@),
    {
        let ghost start = out@;
        let mut ents = String::new();
        let mut any = false;
        let mut j: u8 = 0;
        while j < 16
            invariant
                self.wf(),
                j <= 16,
                ents@ == entries_text(self@.exchangers, j as int),
                any == (ents@.len() > 0),
            decreases 16 - j,
        {
            let d = Direction::from_index(j);
            proof {
                lemma_dir_at_index(j as int);
            }
            if let Some(x) = self.exchanger(d) {
                let ghost prev = ents@;
                if any {
                    push_str(&mut ents, ", ");
                }
                push_str(&mut ents, d.name());
                push_str(&mut ents, ":");
                x.push_text(&mut ents);
                any = true;
                proof {
                    reveal_strlit(":");
                    if prev.len() == 0 {
                        assert(ents@ =~= entry_text(d, x@));
                    } else {
                        assert(ents@ =~= prev + ", "@ + entry_text(d, x@));
                    }
                    assert(ents@.len() > 0);
                }
            }
            j = j + 1;
        }
        push_str(out, self.pid.as_str());
        push_str(out, " |");
        if any {
            push_str(out, " ");
            push_str(out, ents.as_str());
        }
        proof {
            assert(out@ =~= start + piece_text(self@));
        }
    }

    /// This piece's line of the board's dump, such as `e4R | N:e5P, S:e3Re2Q`.
    pub fn to_display_string(&self) -> (r: String)
        requires
            self.wf(),
        ensures
            r@ == piece_text(self@),
    {
        let mut r = String::new();
        self.push_display(&mut r);
        proof {
            assert(r@ =~= piece_text(self@));
        }
        r
    }

    /// Replaces the exchanger sequence in direction slot `j`.
    pub(crate) fn set_exchanger(&mut self, j: usize, v: Option<Exchange>)
        requires
            j < old(self)@.exchangers.len(),
        ensures
            final(self)@ == (PieceView {
                pid: old(self)@.pid,
                exchangers: old(self)@.exchangers.update(j as int, opt_view(v)),
            }),
    {
        let ghost vv = opt_view(v);
        self.exchangers.set(j, v);
        proof {
            assert(self@.exchangers =~= old(self)@.exchangers.update(j as int, vv));
        }
    }
}

impl Clone for Piece {
    fn clone(&self) -> (r: Self)
        ensures
            r@ == self@,
    {
        let mut exchangers: Vec<Option<Exchange>> = Vec::new();
        let mut i: usize = 0;
        while i < self.exchangers.len()
            invariant
                i <= self.exchangers@.len(),
                exchangers@.map_values(|o: Option<Exchange>| opt_view(o)) == self.exchangers@.map_values(
                    |o: Option<Exchange>| opt_view(o),
                ).subrange(0, i as int),
            decreases self.exchangers@.len() - i,
        {
            let e = match &self.exchangers[i] {
                Some(x) => Some(x.clone()),
                None => None,
            };
            let ghost prev = exchangers@;
            let ghost ev = opt_view(e);
            assert(ev == opt_view(self.exchangers@[i as int]));
            exchangers.push(e);
            i = i + 1;
            proof {
                assert(exchangers@ == prev.push(e));
                assert(exchangers@.map_values(|o: Option<Exchange>| opt_view(o)) =~= prev.map_values(
                    |o: Option<Exchange>| opt_view(o),
                ).push(ev));
                assert(exchangers@.map_values(|o: Option<Exchange>| opt_view(o)) =~= self.exchangers@.map_values(
                    |o: Option<Exchange>| opt_view(o),
                ).subrange(0, i as int));
            }
        }
        let r = Piece { pid: self.pid.clone(), exchangers };
        proof {
            assert(r@.exchangers =~= self@.exchangers);
        }
        r
    }
}

} // verus!
