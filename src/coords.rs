use vstd::prelude::*;
use vstd::string::StrSliceExecFns;

verus! {

/// The column that a file letter names: `a` to `i`, in either case, are 0 to 8.
pub open spec fn file_index(c: char) -> Option<usize> {
    if c == 'a' || c == 'A' {
        Some(0usize)
    } else if c == 'b' || c == 'B' {
        Some(1)
    } else if c == 'c' || c == 'C' {
        Some(2)
    } else if c == 'd' || c == 'D' {
        Some(3)
    } else if c == 'e' || c == 'E' {
        Some(4)
    } else if c == 'f' || c == 'F' {
        Some(5)
    } else if c == 'g' || c == 'G' {
        Some(6)
    } else if c == 'h' || c == 'H' {
        Some(7)
    } else if c == 'i' || c == 'I' {
        Some(8)
    } else {
        None
    }
}

/// The row that a rank digit names: `1` to `9` are 0 to 8.
pub open spec fn rank_index(c: char) -> Option<usize> {
    if c == '1' {
        Some(0usize)
    } else if c == '2' {
        Some(1)
    } else if c == '3' {
        Some(2)
    } else if c == '4' {
        Some(3)
    } else if c == '5' {
        Some(4)
    } else if c == '6' {
        Some(5)
    } else if c == '7' {
        Some(6)
    } else if c == '8' {
        Some(7)
    } else if c == '9' {
        Some(8)
    } else {
        None
    }
}

/// The file letter of column `x`, for `x < 9`.
pub open spec fn file_char(x: usize) -> char {
    if x == 0 {
        'a'
    } else if x == 1 {
        'b'
    } else if x == 2 {
        'c'
    } else if x == 3 {
        'd'
    } else if x == 4 {
        'e'
    } else if x == 5 {
        'f'
    } else if x == 6 {
        'g'
    } else if x == 7 {
        'h'
    } else {
        'i'
    }
}

/// The rank digit of row `y`, for `y < 9`.
pub open spec fn rank_char(y: usize) -> char {
    if y == 0 {
        '1'
    } else if y == 1 {
        '2'
    } else if y == 2 {
        '3'
    } else if y == 3 {
        '4'
    } else if y == 4 {
        '5'
    } else if y == 5 {
        '6'
    } else if y == 6 {
        '7'
    } else if y == 7 {
        '8'
    } else {
        '9'
    }
}

/// The position that a text names: exactly two characters, a file letter and a rank
/// digit.
pub open spec fn parse_pos(s: Seq<char>) -> Option<(usize, usize)> {
    if s.len() != 2 {
        None
    } else {
        match (file_index(s[0]), rank_index(s[1])) {
            (Some(x), Some(y)) => Some((x, y)),
            _ => None,
        }
    }
}

fn file_of(c: char) -> (r: Option<usize>)
    ensures
        r == file_index(c),
{
    match c {
        'a' | 'A' => Some(0),
        'b' | 'B' => Some(1),
        'c' | 'C' => Some(2),
        'd' | 'D' => Some(3),
        'e' | 'E' => Some(4),
        'f' | 'F' => Some(5),
        'g' | 'G' => Some(6),
        'h' | 'H' => Some(7),
        'i' | 'I' => Some(8),
        _ => None,
    }
}

fn rank_of(c: char) -> (r: Option<usize>)
    ensures
        r == rank_index(c),
{
    match c {
        '1' => Some(0),
        '2' => Some(1),
        '3' => Some(2),
        '4' => Some(3),
        '5' => Some(4),
        '6' => Some(5),
        '7' => Some(6),
        '8' => Some(7),
        '9' => Some(8),
        _ => None,
    }
}

/// The file letter of column `x`.
pub fn file_letter(x: usize) -> (r: char)
    requires
        x < 9,
    ensures
        r == file_char(x),
{
    match x {
        0 => 'a',
        1 => 'b',
        2 => 'c',
        3 => 'd',
        4 => 'e',
        5 => 'f',
        6 => 'g',
        7 => 'h',
        _ => 'i',
    }
}

/// The rank digit of row `y`.
pub fn rank_digit(y: usize) -> (r: char)
    requires
        y < 9,
    ensures
        r == rank_char(y),
{
    match y {
        0 => '1',
        1 => '2',
        2 => '3',
        3 => '4',
        4 => '5',
        5 => '6',
        6 => '7',
        7 => '8',
        _ => '9',
    }
}

/// Relies on `format!` with `Display` for `char`: each character is written as itself.
#[verifier::external_body]
fn two_chars(a: char, b: char) -> (r: String)
    ensures
        r@ == seq![a, b],
{
    format!("{}{}", a, b)
}

/// The text of a position: its file letter, then its rank digit (`(0, 0)` is `a1`).
pub fn pos_as_string(pos: &(usize, usize)) -> (r: String)
    requires
        pos.0 < 9,
        pos.1 < 9,
    ensures
        r@ == seq![file_char(pos.0), rank_char(pos.1)],
        parse_pos(r@) == Some(*pos),
{
    two_chars(file_letter(pos.0), rank_digit(pos.1))
}

/// The position that a text names, case-insensitively (`a1` is `(0, 0)`, `I9` is
/// `(8, 8)`); `None` for any text that is not exactly a file letter and a rank digit.
pub fn string_as_pos(pos: &str) -> (r: Option<(usize, usize)>)
    ensures
        r == parse_pos(pos@),
        r matches Some((x, y)) ==> x < 9 && y < 9,
{
    if pos.unicode_len() != 2 {
        return None;
    }
    let file = pos.get_char(0);
    let rank = pos.get_char(1);
    match (file_of(file), rank_of(rank)) {
        (Some(x), Some(y)) => Some((x, y)),
        _ => None,
    }
}

/// The lowest position of the area that a move may go to: the first cell of the
/// active sub-board, or of the board.
pub fn move_min(active: &Option<(usize, usize)>) -> (r: (usize, usize))
    requires
        active matches Some((x, y)) ==> x < 3 && y < 3,
    ensures
        r == (match *active {
            Some((x, y)) => ((3 * x) as usize, (3 * y) as usize),
            None => (0usize, 0usize),
        }),
{
    match active {
        Some((x, y)) => (*x * 3, *y * 3),
        None => (0, 0),
    }
}

/// The highest position of the area that a move may go to: the last cell of the
/// active sub-board, or of the board.
pub fn move_max(active: &Option<(usize, usize)>) -> (r: (usize, usize))
    requires
        active matches Some((x, y)) ==> x < 3 && y < 3,
    ensures
        r == (match *active {
            Some((x, y)) => ((3 * x + 2) as usize, (3 * y + 2) as usize),
            None => (8usize, 8usize),
        }),
{
    match active {
        Some((x, y)) => (*x * 3 + 2, *y * 3 + 2),
        None => (8, 8),
    }
}

} // verus!
