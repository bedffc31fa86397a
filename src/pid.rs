use crate::pieces::{side_of, type_char, type_of_char, PieceType, PieceTypeData, Side};
use crate::text::{
    file_from_letter, is_square_text, lemma_coordinate_chars, lemma_square_name_round_trip,
    push_char, push_square_name, push_str, rank_from_digit, square_name, square_of_text,
};
use vstd::prelude::*;

verus! {

/// The pattern a piece identifier matches: a square, then a piece letter.
pub const PID_PATTERN: &'static str = "^[a-h][1-8][PpNnBbRrQqKk]$";

/// The pattern a square's name matches.
pub const SQUARE_PATTERN: &'static str = "^[a-h][1-8]$";

/// Relies on `regex::Regex::new` and `regex::Regex::is_match`: both patterns
/// compile, and each, anchored at both ends, matches exactly the texts made of
/// one character of each bracketed class in turn.
#[verifier::external_body]
pub(crate) fn matches_whole(pattern: &str, text: &str) -> (r: bool)
    requires
        pattern@ == PID_PATTERN@ || pattern@ == SQUARE_PATTERN@,
    ensures
        pattern@ == PID_PATTERN@ ==> r == is_pid_text(text@),
        pattern@ == SQUARE_PATTERN@ ==> r == is_square_text(text@),
{
    match regex::Regex::new(pattern) {
        Ok(re) => re.is_match(text),
        Err(_) => false,
    }
}

/// What a piece identifier denotes: the square (its bit index) and the piece type.
pub struct PidView {
    pub square: int,
    pub kind: PieceType,
}

/// The three-character text of a piece identifier, such as `e1K`.
pub open spec fn pid_text(p: PidView) -> Seq<char> {
    square_name(p.square) + seq![type_char(p.kind)]
}

/// A valid identifier text: a square's name followed by one of the twelve piece letters.
pub open spec fn is_pid_text(s: Seq<char>) -> bool {
    s.len() == 3 && is_square_text(s.subrange(0, 2)) && type_of_char(s[2]) is Some
}

/// What a valid identifier text denotes.
pub open spec fn pid_of_text(s: Seq<char>) -> PidView {
    PidView { square: square_of_text(s.subrange(0, 2)), kind: type_of_char(s[2])->0 }
}

/// The text of an identifier reads back as the same identifier, and a valid
/// text is the text of what it reads as: encoding and decoding are inverse.
pub proof fn lemma_pid_text_round_trip(p: PidView, s: Seq<char>)
    ensures
        0 <= p.square < 64 ==> is_pid_text(pid_text(p)) && pid_of_text(pid_text(p)) == p,
        is_pid_text(s) ==> 0 <= pid_of_text(s).square < 64 && pid_text(pid_of_text(s)) =~= s,
{
    if 0 <= p.square < 64 {
        let t = pid_text(p);
        assert(t.subrange(0, 2) =~= square_name(p.square));
        lemma_square_name_round_trip(p.square, t.subrange(0, 2));
        assert(type_of_char(type_char(p.kind)) == Some(p.kind));
    }
    if is_pid_text(s) {
        lemma_square_name_round_trip(0, s.subrange(0, 2));
        assert(type_char(type_of_char(s[2])->0) == s[2]);
    }
}

/// A piece identifier: a square and a piece type, kept with their text.
#[derive(Debug)]
pub struct Pid {
    square: u8,
    kind: PieceType,
    text: String,
}

impl View for Pid {
    type V = PidView;

    closed spec fn view(&self) -> PidView {
        PidView { square: self.square as int, kind: self.kind }
    }
}

impl Pid {
    #[verifier::type_invariant]
    spec fn inv(&self) -> bool {
        self.square < 64 && self.text@ == pid_text(PidView {
            square: self.square as int,
            kind: self.kind,
        })
    }

    /// Parses a three-character identifier; any other text is refused with a message.
    pub fn new(s: &str) -> (r: Result<Self, String>)
        ensures
            r is Ok <==> is_pid_text(s@),
            r matches Ok(p) ==> p@ == pid_of_text(s@),
            r matches Err(e) ==> e@ == "'"@ + s@ + "' is not a valid 3-letter uppercase code."@,
    {
        if !matches_whole(PID_PATTERN, s) {
            let mut e = String::new();
            push_str(&mut e, "'");
            push_str(&mut e, s);
            push_str(&mut e, "' is not a valid 3-letter uppercase code.");
            proof {
                assert(e@ =~= "'"@ + s@ + "' is not a valid 3-letter uppercase code."@);
            }
            return Err(e);
        }
        proof {
            lemma_pid_text_round_trip(PidView { square: 0, kind: PieceType::WhiteKing }, s@);
            lemma_coordinate_chars(0, s@[0]);
            lemma_coordinate_chars(0, s@[1]);
            assert(s@.subrange(0, 2)[0] == s@[0] && s@.subrange(0, 2)[1] == s@[1]);
        }
        let c0 = s.get_char(0);
        let c1 = s.get_char(1);
        let c2 = s.get_char(2);
        let f = file_from_letter(c0).unwrap();
        let rk = rank_from_digit(c1).unwrap();
        let kind = PieceType::from_char(c2).unwrap();
        let p = Pid::from_parts(rk * 8 + f, kind);
        Ok(p)
    }

    /// The identifier of a piece of type `kind` on square `square`.
    pub fn from_parts(square: u8, kind: PieceType) -> (r: Self)
        requires
            square < 64,
        ensures
            r@ == (PidView { square: square as int, kind }),
    {
        let mut text = String::new();
        push_square_name(&mut text, square);
        push_char(&mut text, kind.to_char());
        proof {
            assert(text@ =~= pid_text(PidView { square: square as int, kind }));
        }
        Pid { square, kind, text }
    }

    /// The identifier's text.
    pub fn as_str(&self) -> (r: &str)
        ensures
            r@ == pid_text(self@),
    {
        proof {
            use_type_invariant(self);
        }
        self.text.as_str()
    }

    /// The identifier's text, taken out of it.
    pub fn into_string(self) -> (r: String)
        ensures
            r@ == pid_text(self@),
    {
        proof {
            use_type_invariant(&self);
        }
        self.text
    }

    /// The name of the identifier's square, its first two characters.
    pub fn get_square(&self) -> (r: &str)
        ensures
            r@ == square_name(self@.square),
    {
        proof {
            use_type_invariant(self);
            let t = self.text@;
            assert forall|i: int| 0 <= i < t.len() implies '\0' <= #[trigger] t[i] <= '\u{7f}' by {
                lemma_coordinate_chars(self.square as int % 8, 'a');
                lemma_coordinate_chars(self.square as int / 8, 'a');
            }
            assert(t.subrange(0, 2) =~= square_name(self@.square));
        }
        self.text.as_str().substring_ascii(0, 2)
    }

    /// The bit index of the identifier's square.
    pub fn square(&self) -> (r: u8)
        ensures
            r as int == self@.square,
            r < 64,
    {
        proof {
            use_type_invariant(self);
        }
        self.square
    }

    /// The identifier's piece type.
    pub fn kind(&self) -> (r: PieceType)
        ensures
            r == self@.kind,
    {
        self.kind
    }

    /// The side the identified piece belongs to: White for an upper-case letter.
    pub fn get_side(self) -> (r: Side)
        ensures
            r == side_of(self@.kind),
    {
        self.kind.side()
    }

    /// The rule descriptor of the identified piece's type.
    pub fn get_piece_data(self) -> (r: PieceTypeData)
        ensures
            r.basic_piece_type == crate::pieces::basic_of(self@.kind),
            r.side == side_of(self@.kind),
            r.is_sliding == crate::pieces::is_sliding(self@.kind),
            r.directions@ == crate::pieces::direction_list(self@.kind),
    {
        self.kind.get_data()
    }
}

impl Clone for Pid {
    fn clone(&self) -> (r: Self)
        ensures
            r@ == self@,
    {
        proof {
            use_type_invariant(self);
        }
        Pid { square: self.square, kind: self.kind, text: self.text.clone() }
    }
}

} // verus!
