use vstd::prelude::*;
use crate::bits::{bit_set, lemma_has_or};
use crate::geometry::{rook_attacks, bishop_attacks, knight_attacks, king_attacks, pawn_attacks};
use crate::tables::Constants;
use crate::types::{PieceColor, opposite};

verus! {

/// A position: twelve bitboards, White's pawns, rooks, knights, bishops,
/// queens and king at indices 0 to 5, Black's at 6 to 11.
pub type BitBoard = [u64; 12];

pub const PAWN: usize = 0;
pub const ROOK: usize = 1;
pub const KNIGHT: usize = 2;
pub const BISHOP: usize = 3;
pub const QUEEN: usize = 4;
pub const KING: usize = 5;
/// Marks a square that holds no piece of the asked color.
pub const NO_PIECE: usize = 6;

/// Index of the first bitboard of color `c`.
pub open spec fn base(c: PieceColor) -> int {
    match c {
        PieceColor::White => 0,
        PieceColor::Black => 6,
    }
}

/// The direction pawns of `c` advance in: +1 rank for White, -1 for Black.
pub open spec fn dir(c: PieceColor) -> int {
    match c {
        PieceColor::White => 1,
        PieceColor::Black => -1,
    }
}

/// All squares holding a piece of color `c`.
pub open spec fn own(b: Seq<u64>, c: PieceColor) -> u64 {
    let i = base(c);
    b[i] | b[i + 1] | b[i + 2] | b[i + 3] | b[i + 4] | b[i + 5]
}

/// All occupied squares.
pub open spec fn occupied(b: Seq<u64>) -> u64 {
    own(b, PieceColor::White) | own(b, PieceColor::Black)
}

/// The kind (0 pawn, 1 rook, 2 knight, 3 bishop, 4 queen, 5 king) of the
/// piece of color `c` on `s`, or 6 when there is none. Should two sets
/// overlap, the first kind in this order wins.
pub open spec fn kind_at(b: Seq<u64>, c: PieceColor, s: u64) -> int {
    let i = base(c);
    if bit_set(b[i], s) {
        0
    } else if bit_set(b[i + 1], s) {
        1
    } else if bit_set(b[i + 2], s) {
        2
    } else if bit_set(b[i + 3], s) {
        3
    } else if bit_set(b[i + 4], s) {
        4
    } else if bit_set(b[i + 5], s) {
        5
    } else {
        6
    }
}

/// The squares a piece of kind `k` and color `c` on `s` attacks over the
/// blockers `occ`.
pub open spec fn piece_reach(k: int, c: PieceColor, s: u64, occ: u64) -> u64 {
    if k == 0 {
        pawn_attacks(dir(c), s)
    } else if k == 1 {
        rook_attacks(s, occ)
    } else if k == 2 {
        knight_attacks(s)
    } else if k == 3 {
        bishop_attacks(s, occ)
    } else if k == 4 {
        rook_attacks(s, occ) | bishop_attacks(s, occ)
    } else if k == 5 {
        king_attacks(s)
    } else {
        0
    }
}

/// The union of what the pieces of `c` on squares below `n` attack.
pub open spec fn reach_upto(b: Seq<u64>, c: PieceColor, occ: u64, n: nat) -> u64
    decreases n,
{
    if n == 0 {
        0
    } else {
        reach_upto(b, c, occ, (n - 1) as nat) | piece_reach(
            kind_at(b, c, (n - 1) as u64),
            c,
            (n - 1) as u64,
            occ,
        )
    }
}

/// Every square that some piece of `c` attacks, own pieces' squares included.
pub open spec fn reach(b: Seq<u64>, c: PieceColor) -> u64 {
    reach_upto(b, c, occupied(b), 64)
}

/// The king of `c` stands on a square the other side attacks.
pub open spec fn in_check(b: Seq<u64>, c: PieceColor) -> bool {
    reach(b, opposite(c)) & b[base(c) + 5] != 0
}

/// A well-formed position: twelve bitboards, no square in two of them.
pub open spec fn is_position(b: Seq<u64>) -> bool {
    &&& b.len() == 12
    &&& forall|i: int, j: int, s: u64|
        0 <= i < 12 && 0 <= j < 12 && i != j && s < 64 ==> !(#[trigger] bit_set(b[i], s)
            && #[trigger] bit_set(b[j], s))
}

/// A square holds a piece of `c` exactly when one of its six sets has it.
pub proof fn lemma_own_bit(b: Seq<u64>, c: PieceColor, s: u64)
    requires
        s < 64,
        b.len() == 12,
    ensures
        bit_set(own(b, c), s) == (bit_set(b[base(c)], s) || bit_set(b[base(c) + 1], s) || bit_set(
            b[base(c) + 2],
            s,
        ) || bit_set(b[base(c) + 3], s) || bit_set(b[base(c) + 4], s) || bit_set(b[base(c) + 5], s)),
        bit_set(occupied(b), s) == (bit_set(own(b, PieceColor::White), s) || bit_set(
            own(b, PieceColor::Black),
            s,
        )),
{
    let i = base(c);
    lemma_has_or(b[i], b[i + 1], s);
    lemma_has_or(b[i] | b[i + 1], b[i + 2], s);
    lemma_has_or(b[i] | b[i + 1] | b[i + 2], b[i + 3], s);
    lemma_has_or(b[i] | b[i + 1] | b[i + 2] | b[i + 3], b[i + 4], s);
    lemma_has_or(b[i] | b[i + 1] | b[i + 2] | b[i + 3] | b[i + 4], b[i + 5], s);
    lemma_has_or(own(b, PieceColor::White), own(b, PieceColor::Black), s);
}

/// The standard starting set of bitboard `i`.
pub open spec fn start_set(i: int) -> u64 {
    if i == 0 {
        0xff00
    } else if i == 1 {
        0x81
    } else if i == 2 {
        0x42
    } else if i == 3 {
        0x24
    } else if i == 4 {
        0x08
    } else if i == 5 {
        0x10
    } else if i == 6 {
        0x00ff_0000_0000_0000
    } else if i == 7 {
        0x8100_0000_0000_0000
    } else if i == 8 {
        0x4200_0000_0000_0000
    } else if i == 9 {
        0x2400_0000_0000_0000
    } else if i == 10 {
        0x0800_0000_0000_0000
    } else {
        0x1000_0000_0000_0000
    }
}

pub open spec fn is_start_position(b: Seq<u64>) -> bool {
    b.len() == 12 && forall|i: int| 0 <= i < 12 ==> #[trigger] b[i] == start_set(i)
}

/// No square holds two pieces in the starting position.
proof fn lemma_start_disjoint(s: u64)
    requires
        s < 64,
    ensures
        forall|i: int, j: int|
            0 <= i < 12 && 0 <= j < 12 && i != j ==> !(bit_set(start_set(i), s) && bit_set(
                start_set(j),
                s,
            )),
{
    assert(!(0xff00u64 & (1u64 << s) != 0 && 0x81u64 & (1u64 << s) != 0)
            && !(0xff00u64 & (1u64 << s) != 0 && 0x42u64 & (1u64 << s) != 0)
            && !(0xff00u64 & (1u64 << s) != 0 && 0x24u64 & (1u64 << s) != 0)
            && !(0xff00u64 & (1u64 << s) != 0 && 0x08u64 & (1u64 << s) != 0)
            && !(0xff00u64 & (1u64 << s) != 0 && 0x10u64 & (1u64 << s) != 0)
            && !(0xff00u64 & (1u64 << s) != 0 && 0x00ff_0000_0000_0000u64 & (1u64 << s) != 0)
            && !(0xff00u64 & (1u64 << s) != 0 && 0x8100_0000_0000_0000u64 & (1u64 << s) != 0)
            && !(0xff00u64 & (1u64 << s) != 0 && 0x4200_0000_0000_0000u64 & (1u64 << s) != 0)
            && !(0xff00u64 & (1u64 << s) != 0 && 0x2400_0000_0000_0000u64 & (1u64 << s) != 0)
            && !(0xff00u64 & (1u64 << s) != 0 && 0x0800_0000_0000_0000u64 & (1u64 << s) != 0)
            && !(0xff00u64 & (1u64 << s) != 0 && 0x1000_0000_0000_0000u64 & (1u64 << s) != 0)
            && !(0x81u64 & (1u64 << s) != 0 && 0x42u64 & (1u64 << s) != 0)
            && !(0x81u64 & (1u64 << s) != 0 && 0x24u64 & (1u64 << s) != 0)
            && !(0x81u64 & (1u64 << s) != 0 && 0x08u64 & (1u64 << s) != 0)
            && !(0x81u64 & (1u64 << s) != 0 && 0x10u64 & (1u64 << s) != 0)
            && !(0x81u64 & (1u64 << s) != 0 && 0x00ff_0000_0000_0000u64 & (1u64 << s) != 0)
            && !(0x81u64 & (1u64 << s) != 0 && 0x8100_0000_0000_0000u64 & (1u64 << s) != 0)
            && !(0x81u64 & (1u64 << s) != 0 && 0x4200_0000_0000_0000u64 & (1u64 << s) != 0)
            && !(0x81u64 & (1u64 << s) != 0 && 0x2400_0000_0000_0000u64 & (1u64 << s) != 0)
            && !(0x81u64 & (1u64 << s) != 0 && 0x0800_0000_0000_0000u64 & (1u64 << s) != 0)
            && !(0x81u64 & (1u64 << s) != 0 && 0x1000_0000_0000_0000u64 & (1u64 << s) != 0)
            && !(0x42u64 & (1u64 << s) != 0 && 0x24u64 & (1u64 << s) != 0)
            && !(0x42u64 & (1u64 << s) != 0 && 0x08u64 & (1u64 << s) != 0)
            && !(0x42u64 & (1u64 << s) != 0 && 0x10u64 & (1u64 << s) != 0)
            && !(0x42u64 & (1u64 << s) != 0 && 0x00ff_0000_0000_0000u64 & (1u64 << s) != 0)
            && !(0x42u64 & (1u64 << s) != 0 && 0x8100_0000_0000_0000u64 & (1u64 << s) != 0)
            && !(0x42u64 & (1u64 << s) != 0 && 0x4200_0000_0000_0000u64 & (1u64 << s) != 0)
            && !(0x42u64 & (1u64 << s) != 0 && 0x2400_0000_0000_0000u64 & (1u64 << s) != 0)
            && !(0x42u64 & (1u64 << s) != 0 && 0x0800_0000_0000_0000u64 & (1u64 << s) != 0)
            && !(0x42u64 & (1u64 << s) != 0 && 0x1000_0000_0000_0000u64 & (1u64 << s) != 0)
            && !(0x24u64 & (1u64 << s) != 0 && 0x08u64 & (1u64 << s) != 0)
            && !(0x24u64 & (1u64 << s) != 0 && 0x10u64 & (1u64 << s) != 0)
            && !(0x24u64 & (1u64 << s) != 0 && 0x00ff_0000_0000_0000u64 & (1u64 << s) != 0)
            && !(0x24u64 & (1u64 << s) != 0 && 0x8100_0000_0000_0000u64 & (1u64 << s) != 0)
            && !(0x24u64 & (1u64 << s) != 0 && 0x4200_0000_0000_0000u64 & (1u64 << s) != 0)
            && !(0x24u64 & (1u64 << s) != 0 && 0x2400_0000_0000_0000u64 & (1u64 << s) != 0)
            && !(0x24u64 & (1u64 << s) != 0 && 0x0800_0000_0000_0000u64 & (1u64 << s) != 0)
            && !(0x24u64 & (1u64 << s) != 0 && 0x1000_0000_0000_0000u64 & (1u64 << s) != 0)
            && !(0x08u64 & (1u64 << s) != 0 && 0x10u64 & (1u64 << s) != 0)
            && !(0x08u64 & (1u64 << s) != 0 && 0x00ff_0000_0000_0000u64 & (1u64 << s) != 0)
            && !(0x08u64 & (1u64 << s) != 0 && 0x8100_0000_0000_0000u64 & (1u64 << s) != 0)
            && !(0x08u64 & (1u64 << s) != 0 && 0x4200_0000_0000_0000u64 & (1u64 << s) != 0)
            && !(0x08u64 & (1u64 << s) != 0 && 0x2400_0000_0000_0000u64 & (1u64 << s) != 0)
            && !(0x08u64 & (1u64 << s) != 0 && 0x0800_0000_0000_0000u64 & (1u64 << s) != 0)
            && !(0x08u64 & (1u64 << s) != 0 && 0x1000_0000_0000_0000u64 & (1u64 << s) != 0)
            && !(0x10u64 & (1u64 << s) != 0 && 0x00ff_0000_0000_0000u64 & (1u64 << s) != 0)
            && !(0x10u64 & (1u64 << s) != 0 && 0x8100_0000_0000_0000u64 & (1u64 << s) != 0)
            && !(0x10u64 & (1u64 << s) != 0 && 0x4200_0000_0000_0000u64 & (1u64 << s) != 0)
            && !(0x10u64 & (1u64 << s) != 0 && 0x2400_0000_0000_0000u64 & (1u64 << s) != 0)
            && !(0x10u64 & (1u64 << s) != 0 && 0x0800_0000_0000_0000u64 & (1u64 << s) != 0)
            && !(0x10u64 & (1u64 << s) != 0 && 0x1000_0000_0000_0000u64 & (1u64 << s) != 0)
            && !(0x00ff_0000_0000_0000u64 & (1u64 << s) != 0 && 0x8100_0000_0000_0000u64 & (1u64 << s) != 0)
            && !(0x00ff_0000_0000_0000u64 & (1u64 << s) != 0 && 0x4200_0000_0000_0000u64 & (1u64 << s) != 0)
            && !(0x00ff_0000_0000_0000u64 & (1u64 << s) != 0 && 0x2400_0000_0000_0000u64 & (1u64 << s) != 0)
            && !(0x00ff_0000_0000_0000u64 & (1u64 << s) != 0 && 0x0800_0000_0000_0000u64 & (1u64 << s) != 0)
            && !(0x00ff_0000_0000_0000u64 & (1u64 << s) != 0 && 0x1000_0000_0000_0000u64 & (1u64 << s) != 0)
            && !(0x8100_0000_0000_0000u64 & (1u64 << s) != 0 && 0x4200_0000_0000_0000u64 & (1u64 << s) != 0)
            && !(0x8100_0000_0000_0000u64 & (1u64 << s) != 0 && 0x2400_0000_0000_0000u64 & (1u64 << s) != 0)
            && !(0x8100_0000_0000_0000u64 & (1u64 << s) != 0 && 0x0800_0000_0000_0000u64 & (1u64 << s) != 0)
            && !(0x8100_0000_0000_0000u64 & (1u64 << s) != 0 && 0x1000_0000_0000_0000u64 & (1u64 << s) != 0)
            && !(0x4200_0000_0000_0000u64 & (1u64 << s) != 0 && 0x2400_0000_0000_0000u64 & (1u64 << s) != 0)
            && !(0x4200_0000_0000_0000u64 & (1u64 << s) != 0 && 0x0800_0000_0000_0000u64 & (1u64 << s) != 0)
            && !(0x4200_0000_0000_0000u64 & (1u64 << s) != 0 && 0x1000_0000_0000_0000u64 & (1u64 << s) != 0)
            && !(0x2400_0000_0000_0000u64 & (1u64 << s) != 0 && 0x0800_0000_0000_0000u64 & (1u64 << s) != 0)
            && !(0x2400_0000_0000_0000u64 & (1u64 << s) != 0 && 0x1000_0000_0000_0000u64 & (1u64 << s) != 0)
            && !(0x0800_0000_0000_0000u64 & (1u64 << s) != 0 && 0x1000_0000_0000_0000u64 & (1u64 << s) != 0)) by (bit_vector)
        requires
            s < 64,
    ;
}

/// The standard starting position.
pub fn generate_start_board() -> (board: BitBoard)
    ensures
        is_start_position(board@),
        is_position(board@),
{
    let board: BitBoard = [
        0xff00,
        0x81,
        0x42,
        0x24,
        0x08,
        0x10,
        0x00ff_0000_0000_0000,
        0x8100_0000_0000_0000,
        0x4200_0000_0000_0000,
        0x2400_0000_0000_0000,
        0x0800_0000_0000_0000,
        0x1000_0000_0000_0000,
    ];
    assert(board@.len() == 12);
    proof {
        assert forall|i: int, j: int, s: u64|
            0 <= i < 12 && 0 <= j < 12 && i != j && s < 64 implies !(#[trigger] bit_set(
            board@[i],
            s,
        ) && #[trigger] bit_set(board@[j], s)) by {
            lemma_start_disjoint(s);
            assert(board@[i] == start_set(i));
            assert(board@[j] == start_set(j));
        }
    }
    board
}

pub(crate) fn color_base(color: PieceColor) -> (i: usize)
    ensures
        i == base(color),
{
    match color {
        PieceColor::White => 0,
        PieceColor::Black => 6,
    }
}

/// All squares holding a piece of `color`.
pub fn get_full_color_board(board: &BitBoard, color: PieceColor) -> (r: u64)
    ensures
        r == own(board@, color),
{
    let i = color_base(color);
    board[i] | board[i + 1] | board[i + 2] | board[i + 3] | board[i + 4] | board[i + 5]
}

/// All occupied squares.
pub fn get_occupied_board(board: &BitBoard) -> (r: u64)
    ensures
        r == occupied(board@),
{
    get_full_color_board(board, PieceColor::White) | get_full_color_board(board, PieceColor::Black)
}

/// The kind of the piece of `color` on `s`, or `NO_PIECE`.
pub fn piece_kind_at(board: &BitBoard, color: PieceColor, s: u64) -> (k: usize)
    requires
        s < 64,
    ensures
        k == kind_at(board@, color, s),
{
    let i = color_base(color);
    let m: u64 = 1u64 << s;
    if board[i] & m != 0 {
        PAWN
    } else if board[i + 1] & m != 0 {
        ROOK
    } else if board[i + 2] & m != 0 {
        KNIGHT
    } else if board[i + 3] & m != 0 {
        BISHOP
    } else if board[i + 4] & m != 0 {
        QUEEN
    } else if board[i + 5] & m != 0 {
        KING
    } else {
        NO_PIECE
    }
}

/// What a piece of kind `k` and color `color` on `s` attacks over `occ`.
pub fn get_piece_reach(constants: &Constants, k: usize, color: PieceColor, s: u64, occ: u64) -> (r: u64)
    requires
        constants.wf(),
        s < 64,
    ensures
        r == piece_reach(k as int, color, s, occ),
{
    if k == PAWN {
        match color {
            PieceColor::White => constants.pawn_reach[0][s as usize],
            PieceColor::Black => constants.pawn_reach[1][s as usize],
        }
    } else if k == ROOK {
        constants.rook_lookup(s, occ)
    } else if k == KNIGHT {
        constants.knight_reach[s as usize]
    } else if k == BISHOP {
        constants.bishop_lookup(s, occ)
    } else if k == QUEEN {
        constants.rook_lookup(s, occ) | constants.bishop_lookup(s, occ)
    } else if k == KING {
        constants.king_reach[s as usize]
    } else {
        0
    }
}

/// Every square some piece of `color` attacks (own pieces' squares
/// included): the reach used for check detection.
pub fn get_reach_board(board: &BitBoard, color: PieceColor, constants: &Constants) -> (r: u64)
    requires
        constants.wf(),
    ensures
        r == reach(board@, color),
{
    let occ = get_occupied_board(board);
    let mut b: u64 = 0;
    let mut s: u64 = 0;
    while s < 64
        invariant
            constants.wf(),
            s <= 64,
            occ == occupied(board@),
            b == reach_upto(board@, color, occ, s as nat),
        decreases 64 - s,
    {
        let k = piece_kind_at(board, color, s);
        b = b | get_piece_reach(constants, k, color, s, occ);
        s = s + 1;
    }
    b
}

/// The king of `color` is attacked by the other side.
pub fn is_in_check(board: &BitBoard, color: PieceColor, constants: &Constants) -> (r: bool)
    requires
        constants.wf(),
    ensures
        r == in_check(board@, color),
{
    let opposite_reach = get_reach_board(board, color.opposite_color(), constants);
    let i = color_base(color);
    opposite_reach & board[i + 5] != 0
}

} // verus!
