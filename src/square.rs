use vstd::prelude::*;
use crate::bits::{sq, file_of, rank_of};

verus! {

// Squares and the move notation "<file><rank> <file><rank>" (e.g. "e2 e4").

/// The letter of file `i` (0 to 7); any larger index gives 'h'.
pub open spec fn file_char(i: int) -> char {
    if i == 0 {
        'a'
    } else if i == 1 {
        'b'
    } else if i == 2 {
        'c'
    } else if i == 3 {
        'd'
    } else if i == 4 {
        'e'
    } else if i == 5 {
        'f'
    } else if i == 6 {
        'g'
    } else {
        'h'
    }
}

/// The digit of rank `i` (0 to 7); any larger index gives '8'.
pub open spec fn rank_char(i: int) -> char {
    if i == 0 {
        '1'
    } else if i == 1 {
        '2'
    } else if i == 2 {
        '3'
    } else if i == 3 {
        '4'
    } else if i == 4 {
        '5'
    } else if i == 5 {
        '6'
    } else if i == 6 {
        '7'
    } else {
        '8'
    }
}

/// The file index a letter names, or -1.
pub open spec fn file_index(c: char) -> int {
    if c == 'a' {
        0
    } else if c == 'b' {
        1
    } else if c == 'c' {
        2
    } else if c == 'd' {
        3
    } else if c == 'e' {
        4
    } else if c == 'f' {
        5
    } else if c == 'g' {
        6
    } else if c == 'h' {
        7
    } else {
        -1
    }
}

/// The rank index a digit names, or -1.
pub open spec fn rank_index(c: char) -> int {
    if c == '1' {
        0
    } else if c == '2' {
        1
    } else if c == '3' {
        2
    } else if c == '4' {
        3
    } else if c == '5' {
        4
    } else if c == '6' {
        5
    } else if c == '7' {
        6
    } else if c == '8' {
        7
    } else {
        -1
    }
}

/// The notation of the move from square `from` to square `to`.
pub open spec fn notation(from: u64, to: u64) -> Seq<char> {
    seq![
        file_char(file_of(from)),
        rank_char(rank_of(from)),
        ' ',
        file_char(file_of(to)),
        rank_char(rank_of(to)),
    ]
}

/// The first five characters of `s` have the shape of a move.
pub open spec fn is_move_shape(s: Seq<char>) -> bool {
    &&& s.len() >= 5
    &&& file_index(s[0]) >= 0
    &&& rank_index(s[1]) >= 0
    &&& s[2] == ' '
    &&& file_index(s[3]) >= 0
    &&& rank_index(s[4]) >= 0
}

/// The origin and destination squares a move string names.
pub open spec fn parse_move(s: Seq<char>) -> Option<(u64, u64)> {
    if is_move_shape(s) {
        Some((sq(file_index(s[0]), rank_index(s[1])), sq(file_index(s[3]), rank_index(s[4]))))
    } else {
        None
    }
}

/// The square index of file `letter` and rank `number`.
pub fn pos_to_num(letter: u64, number: u64) -> (n: u64)
    requires
        letter < 8,
        number < 8,
    ensures
        n == sq(letter as int, number as int),
        n < 64,
{
    assert(number << 3u64 == number * 8) by (bit_vector)
        requires
            number < 8,
    ;
    letter + (number << 3)
}

/// The file and rank of square `num`.
pub fn num_to_pos(num: u64) -> (p: (u64, u64))
    ensures
        p.0 == num % 8,
        p.1 == num / 8,
{
    assert(num & 7 == num % 8 && num >> 3u64 == num / 8) by (bit_vector);
    (num & 7, num >> 3)
}

/// The letter of a file index.
pub fn get_letter(letter: usize) -> (c: char)
    ensures
        c == file_char(letter as int),
{
    match letter {
        0 => 'a',
        1 => 'b',
        2 => 'c',
        3 => 'd',
        4 => 'e',
        5 => 'f',
        6 => 'g',
        _ => 'h',
    }
}

/// The digit of a rank index.
pub fn get_number(number: usize) -> (c: char)
    ensures
        c == rank_char(number as int),
{
    match number {
        0 => '1',
        1 => '2',
        2 => '3',
        3 => '4',
        4 => '5',
        5 => '6',
        6 => '7',
        _ => '8',
    }
}

fn letter_index(c: char) -> (i: i64)
    ensures
        i == file_index(c),
{
    if c == 'a' {
        0
    } else if c == 'b' {
        1
    } else if c == 'c' {
        2
    } else if c == 'd' {
        3
    } else if c == 'e' {
        4
    } else if c == 'f' {
        5
    } else if c == 'g' {
        6
    } else if c == 'h' {
        7
    } else {
        -1
    }
}

fn digit_index(c: char) -> (i: i64)
    ensures
        i == rank_index(c),
{
    if c == '1' {
        0
    } else if c == '2' {
        1
    } else if c == '3' {
        2
    } else if c == '4' {
        3
    } else if c == '5' {
        4
    } else if c == '6' {
        5
    } else if c == '7' {
        6
    } else if c == '8' {
        7
    } else {
        -1
    }
}

/// Relies on `String::push`: appends one character.
#[verifier::external_body]
pub(crate) fn push_char(s: &mut String, c: char)
    ensures
        final(s)@ == old(s)@.push(c),
{
    s.push(c);
}

/// The notation of the move from `from` to `to`, e.g. "e2 e4".
pub fn move_notation(from: u64, to: u64) -> (s: String)
    requires
        from < 64,
        to < 64,
    ensures
        s@ == notation(from, to),
{
    let mut s = String::new();
    push_char(&mut s, get_letter((from % 8) as usize));
    push_char(&mut s, get_number((from / 8) as usize));
    push_char(&mut s, ' ');
    push_char(&mut s, get_letter((to % 8) as usize));
    push_char(&mut s, get_number((to / 8) as usize));
    assert(s@ =~= notation(from, to));
    s
}

/// Whether the first five characters of `move_str` have the shape of a
/// move: a file letter, a rank digit, a space, a file letter, a rank digit.
pub fn validate_move_string(move_str: &String) -> (r: bool)
    ensures
        r == is_move_shape(move_str@),
{
    let s = move_str.as_str();
    if s.unicode_len() < 5 {
        return false;
    }
    letter_index(s.get_char(0)) >= 0 && digit_index(s.get_char(1)) >= 0 && s.get_char(2) == ' '
        && letter_index(s.get_char(3)) >= 0 && digit_index(s.get_char(4)) >= 0
}

/// The origin and destination squares of a move string, or `None` when it
/// does not have the shape of a move.
pub fn parse_move_string(move_str: &str) -> (r: Option<(u64, u64)>)
    ensures
        r == parse_move(move_str@),
{
    if move_str.unicode_len() < 5 {
        return None;
    }
    let f1 = letter_index(move_str.get_char(0));
    let r1 = digit_index(move_str.get_char(1));
    let f2 = letter_index(move_str.get_char(3));
    let r2 = digit_index(move_str.get_char(4));
    if f1 >= 0 && r1 >= 0 && move_str.get_char(2) == ' ' && f2 >= 0 && r2 >= 0 {
        Some(((r1 * 8 + f1) as u64, (r2 * 8 + f2) as u64))
    } else {
        None
    }
}

/// Reading back the notation of a move gives its origin and destination.
pub proof fn lemma_notation_round_trip(from: u64, to: u64)
    requires
        from < 64,
        to < 64,
    ensures
        parse_move(notation(from, to)) == Some((from, to)),
{
    let n = notation(from, to);
    assert(n[0] == file_char(file_of(from)));
    assert(file_index(file_char(file_of(from))) == file_of(from));
    assert(rank_index(rank_char(rank_of(from))) == rank_of(from));
    assert(file_index(file_char(file_of(to))) == file_of(to));
    assert(rank_index(rank_char(rank_of(to))) == rank_of(to));
}

} // verus!
