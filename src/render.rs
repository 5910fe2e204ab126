use vstd::prelude::*;
use crate::bits::sq;
use crate::position::{BitBoard, kind_at, piece_kind_at, NO_PIECE};
use crate::square::{rank_char, get_number, push_char};
use crate::types::PieceColor;

verus! {

// Text drawing of a position, rank 8 at the top.

/// The text of a piece of kind `k` (White when `white`), in letters or in
/// chess symbols; `k == 6` is an empty square.
pub open spec fn glyph(k: int, white: bool, unicode: bool) -> Seq<char> {
    if !unicode {
        if k == 6 {
            " "@
        } else if white {
            if k == 0 {
                "p"@
            } else if k == 1 {
                "r"@
            } else if k == 2 {
                "n"@
            } else if k == 3 {
                "b"@
            } else if k == 4 {
                "q"@
            } else {
                "k"@
            }
        } else {
            if k == 0 {
                "P"@
            } else if k == 1 {
                "R"@
            } else if k == 2 {
                "N"@
            } else if k == 3 {
                "B"@
            } else if k == 4 {
                "Q"@
            } else {
                "K"@
            }
        }
    } else {
        if k == 6 {
            "  "@
        } else if white {
            if k == 0 {
                "\u{265F}"@
            } else if k == 1 {
                "\u{265C} "@
            } else if k == 2 {
                "\u{265E} "@
            } else if k == 3 {
                "\u{265D} "@
            } else if k == 4 {
                "\u{265B} "@
            } else {
                "\u{265A} "@
            }
        } else {
            if k == 0 {
                "\u{2659} "@
            } else if k == 1 {
                "\u{2656} "@
            } else if k == 2 {
                "\u{2658} "@
            } else if k == 3 {
                "\u{2657} "@
            } else if k == 4 {
                "\u{2655} "@
            } else {
                "\u{2654} "@
            }
        }
    }
}

/// The text of square `s`: White's piece if any, else Black's, else blank.
pub open spec fn square_text(b: Seq<u64>, s: u64, unicode: bool) -> Seq<char> {
    let w = kind_at(b, PieceColor::White, s);
    if w < 6 {
        glyph(w, true, unicode)
    } else {
        glyph(kind_at(b, PieceColor::Black, s), false, unicode)
    }
}

pub open spec fn separator(unicode: bool) -> Seq<char> {
    if unicode {
        "  +----+----+----+----+----+----+----+----+\n"@
    } else {
        "  +---+---+---+---+---+---+---+---+\n"@
    }
}

pub open spec fn footer(unicode: bool) -> Seq<char> {
    if unicode {
        "    A    B    C    D    E    F    G    H"@
    } else {
        "   A   B   C   D   E   F   G   H"@
    }
}

/// The first `n` cells of rank `r`.
pub open spec fn cells(b: Seq<u64>, r: int, n: nat, unicode: bool) -> Seq<char>
    decreases n,
{
    if n == 0 {
        Seq::empty()
    } else {
        cells(b, r, (n - 1) as nat, unicode) + "| "@ + square_text(b, sq(n - 1, r), unicode) + " "@
    }
}

/// The lines of rank `r`: the separator, then its number and cells.
pub open spec fn rank_text(b: Seq<u64>, r: int, unicode: bool) -> Seq<char> {
    separator(unicode) + seq![rank_char(r), ' '] + cells(b, r, 8, unicode) + "|\n"@
}

/// The top `k` ranks, from rank 8 down.
pub open spec fn ranks(b: Seq<u64>, k: nat, unicode: bool) -> Seq<char>
    decreases k,
{
    if k == 0 {
        Seq::empty()
    } else {
        ranks(b, (k - 1) as nat, unicode) + rank_text(b, 8 - k, unicode)
    }
}

/// The drawing of a position.
pub open spec fn drawing(b: Seq<u64>, unicode: bool) -> Seq<char> {
    ranks(b, 8, unicode) + separator(unicode) + footer(unicode)
}

/// Relies on `String::push_str`: appends the text.
#[verifier::external_body]
fn push_text(s: &mut String, t: &str)
    ensures
        final(s)@ == old(s)@ + t@,
{
    s.push_str(t);
}

fn glyph_text(k: usize, white: bool, unicode: bool) -> (t: &'static str)
    ensures
        t@ == glyph(k as int, white, unicode),
{
    if !unicode {
        if k == NO_PIECE {
            " "
        } else if white {
            if k == 0 {
                "p"
            } else if k == 1 {
                "r"
            } else if k == 2 {
                "n"
            } else if k == 3 {
                "b"
            } else if k == 4 {
                "q"
            } else {
                "k"
            }
        } else {
            if k == 0 {
                "P"
            } else if k == 1 {
                "R"
            } else if k == 2 {
                "N"
            } else if k == 3 {
                "B"
            } else if k == 4 {
                "Q"
            } else {
                "K"
            }
        }
    } else {
        if k == NO_PIECE {
            "  "
        } else if white {
            if k == 0 {
                "\u{265F}"
            } else if k == 1 {
                "\u{265C} "
            } else if k == 2 {
                "\u{265E} "
            } else if k == 3 {
                "\u{265D} "
            } else if k == 4 {
                "\u{265B} "
            } else {
                "\u{265A} "
            }
        } else {
            if k == 0 {
                "\u{2659} "
            } else if k == 1 {
                "\u{2656} "
            } else if k == 2 {
                "\u{2658} "
            } else if k == 3 {
                "\u{2657} "
            } else if k == 4 {
                "\u{2655} "
            } else {
                "\u{2654} "
            }
        }
    }
}

fn separator_text(unicode: bool) -> (t: &'static str)
    ensures
        t@ == separator(unicode),
{
    if unicode {
        "  +----+----+----+----+----+----+----+----+\n"
    } else {
        "  +---+---+---+---+---+---+---+---+\n"
    }
}

/// Draws a position as text, rank 8 at the top: letters (White lower
/// case) or, with `use_unicode`, chess symbols.
pub fn get_bitboard_ascii(board: &BitBoard, use_unicode: bool) -> (s: String)
    ensures
        s@ == drawing(board@, use_unicode),
{
    let mut string = String::new();
    let mut k: usize = 0;
    while k < 8
        invariant
            k <= 8,
            string@ == ranks(board@, k as nat, use_unicode),
        decreases 8 - k,
    {
        let r = 7 - k;
        push_text(&mut string, separator_text(use_unicode));
        push_char(&mut string, get_number(r));
        push_char(&mut string, ' ');
        let ghost head = string@;
        let mut j: usize = 0;
        while j < 8
            invariant
                k < 8,
                r == 7 - k,
                j <= 8,
                string@ == head + cells(board@, r as int, j as nat, use_unicode),
            decreases 8 - j,
        {
            push_text(&mut string, "| ");
            let s = (r * 8 + j) as u64;
            let w = piece_kind_at(board, PieceColor::White, s);
            let text = if w != NO_PIECE {
                glyph_text(w, true, use_unicode)
            } else {
                glyph_text(piece_kind_at(board, PieceColor::Black, s), false, use_unicode)
            };
            push_text(&mut string, text);
            push_text(&mut string, " ");
            proof {
                assert(s == sq(j as int, r as int));
                assert(string@ =~= head + cells(board@, r as int, (j + 1) as nat, use_unicode));
            }
            j = j + 1;
        }
        push_text(&mut string, "|\n");
        proof {
            assert(string@ =~= ranks(board@, (k + 1) as nat, use_unicode));
        }
        k = k + 1;
    }
    push_text(&mut string, separator_text(use_unicode));
    if use_unicode {
        push_text(&mut string, "    A    B    C    D    E    F    G    H");
    } else {
        push_text(&mut string, "   A   B   C   D   E   F   G   H");
    }
    string
}

} // verus!
