use crate::occupied_squares::{file_of, rank_of, square_of};
use vstd::prelude::*;

verus! {

/// Relies on `String::push`: the character is appended at the end.
#[verifier::external_body]
pub(crate) fn push_char(s: &mut String, c: char)
    ensures
        final(s)@ == old(s)@.push(c),
{
    s.push(c);
}

/// The letter of a file, `a` for 0 to `h` for 7.
pub open spec fn file_char(f: int) -> char {
    if f == 0 {
        'a'
    } else if f == 1 {
        'b'
    } else if f == 2 {
        'c'
    } else if f == 3 {
        'd'
    } else if f == 4 {
        'e'
    } else if f == 5 {
        'f'
    } else if f == 6 {
        'g'
    } else {
        'h'
    }
}

/// The digit of a rank, `1` for 0 to `8` for 7.
pub open spec fn rank_char(r: int) -> char {
    if r == 0 {
        '1'
    } else if r == 1 {
        '2'
    } else if r == 2 {
        '3'
    } else if r == 3 {
        '4'
    } else if r == 4 {
        '5'
    } else if r == 5 {
        '6'
    } else if r == 6 {
        '7'
    } else {
        '8'
    }
}

/// The file that a letter names, if it is one of `a` to `h`.
pub open spec fn file_of_char(c: char) -> Option<int> {
    if c == 'a' {
        Some(0)
    } else if c == 'b' {
        Some(1)
    } else if c == 'c' {
        Some(2)
    } else if c == 'd' {
        Some(3)
    } else if c == 'e' {
        Some(4)
    } else if c == 'f' {
        Some(5)
    } else if c == 'g' {
        Some(6)
    } else if c == 'h' {
        Some(7)
    } else {
        None
    }
}

/// The rank that a digit names, if it is one of `1` to `8`.
pub open spec fn rank_of_char(c: char) -> Option<int> {
    if c == '1' {
        Some(0)
    } else if c == '2' {
        Some(1)
    } else if c == '3' {
        Some(2)
    } else if c == '4' {
        Some(3)
    } else if c == '5' {
        Some(4)
    } else if c == '6' {
        Some(5)
    } else if c == '7' {
        Some(6)
    } else if c == '8' {
        Some(7)
    } else {
        None
    }
}

/// The two-character name of a square index, such as `e4`.
pub open spec fn square_name(i: int) -> Seq<char> {
    seq![file_char(file_of(i)), rank_char(rank_of(i))]
}

/// A square's text: a file letter `a`-`h` followed by a rank digit `1`-`8`.
pub open spec fn is_square_text(s: Seq<char>) -> bool {
    s.len() == 2 && file_of_char(s[0]) is Some && rank_of_char(s[1]) is Some
}

/// The square index that a valid square text names.
pub open spec fn square_of_text(s: Seq<char>) -> int {
    square_of(file_of_char(s[0])->0, rank_of_char(s[1])->0)
}

/// Letters and digits name files and ranks one for one.
pub proof fn lemma_coordinate_chars(f: int, c: char)
    ensures
        0 <= f < 8 ==> file_of_char(file_char(f)) == Some(f) && rank_of_char(rank_char(f)) == Some(
            f,
        ),
        file_of_char(c) matches Some(x) ==> 0 <= x < 8 && file_char(x) == c,
        rank_of_char(c) matches Some(x) ==> 0 <= x < 8 && rank_char(x) == c,
{
}

/// Naming a square and reading the name back gives the square again, and
/// every square text is the name of the square it reads as.
pub proof fn lemma_square_name_round_trip(i: int, s: Seq<char>)
    ensures
        0 <= i < 64 ==> is_square_text(square_name(i)) && square_of_text(square_name(i)) == i,
        is_square_text(s) ==> 0 <= square_of_text(s) < 64 && square_name(square_of_text(s)) =~= s,
{
    if 0 <= i < 64 {
        crate::occupied_squares::lemma_index_coordinates(i);
        lemma_coordinate_chars(file_of(i), 'a');
        lemma_coordinate_chars(rank_of(i), 'a');
    }
    if is_square_text(s) {
        lemma_coordinate_chars(0, s[0]);
        lemma_coordinate_chars(0, s[1]);
        crate::occupied_squares::lemma_square_coordinates(
            file_of_char(s[0])->0,
            rank_of_char(s[1])->0,
        );
    }
}

/// The letter of a file.
pub fn file_letter(f: u8) -> (c: char)
    requires
        f < 8,
    ensures
        c == file_char(f as int),
{
    match f {
        0 => 'a',
        1 => 'b',
        2 => 'c',
        3 => 'd',
        4 => 'e',
        5 => 'f',
        6 => 'g',
        _ => 'h',
    }
}

/// The digit of a rank.
pub fn rank_digit(r: u8) -> (c: char)
    requires
        r < 8,
    ensures
        c == rank_char(r as int),
{
    match r {
        0 => '1',
        1 => '2',
        2 => '3',
        3 => '4',
        4 => '5',
        5 => '6',
        6 => '7',
        _ => '8',
    }
}

/// The file that a letter names.
pub fn file_from_letter(c: char) -> (r: Option<u8>)
    ensures
        r matches Some(x) ==> file_of_char(c) == Some(x as int),
        r is None ==> file_of_char(c) is None,
{
    match c {
        'a' => Some(0),
        'b' => Some(1),
        'c' => Some(2),
        'd' => Some(3),
        'e' => Some(4),
        'f' => Some(5),
        'g' => Some(6),
        'h' => Some(7),
        _ => None,
    }
}

/// The rank that a digit names.
pub fn rank_from_digit(c: char) -> (r: Option<u8>)
    ensures
        r matches Some(x) ==> rank_of_char(c) == Some(x as int),
        r is None ==> rank_of_char(c) is None,
{
    match c {
        '1' => Some(0),
        '2' => Some(1),
        '3' => Some(2),
        '4' => Some(3),
        '5' => Some(4),
        '6' => Some(5),
        '7' => Some(6),
        '8' => Some(7),
        _ => None,
    }
}

/// Appends the name of square `i` to `out`.
pub fn push_square_name(out: &mut String, i: u8)
    requires
        i < 64,
    ensures
        final(out)@ == old(out)@ + square_name(i as int),
{
    push_char(out, file_letter(i % 8));
    push_char(out, rank_digit(i / 8));
    proof {
        assert(final(out)@ =~= old(out)@ + square_name(i as int));
    }
}

/// The decimal digits of a natural number, most significant first.
pub open spec fn decimal(n: nat) -> Seq<char>
    decreases n,
{
    if n < 10 {
        seq![digit_char(n as int)]
    } else {
        decimal(n / 10) + seq![digit_char((n % 10) as int)]
    }
}

/// The character of a decimal digit.
pub open spec fn digit_char(d: int) -> char {
    if d == 0 {
        '0'
    } else if 1 <= d <= 8 {
        rank_char(d - 1)
    } else {
        '9'
    }
}

/// Appends the decimal digits of `n` to `out`.
pub fn push_decimal(out: &mut String, n: u64)
    ensures
        final(out)@ == old(out)@ + decimal(n as nat),
    decreases n,
{
    if n >= 10 {
        push_decimal(out, n / 10);
    }
    let d = (n % 10) as u8;
    let c = if d == 0 {
        '0'
    } else if d == 9 {
        '9'
    } else {
        rank_digit(d - 1)
    };
    push_char(out, c);
    proof {
        assert(final(out)@ =~= old(out)@ + decimal(n as nat));
    }
}

/// Appends a whole string slice to `out`.
pub fn push_str(out: &mut String, s: &str)
    ensures
        final(out)@ == old(out)@ + s@,
{
    out.append(s);
}

} // verus!
