use vstd::prelude::*;
use crate::bits::{bit_set, on_board, sq, file_of, rank_of, square_bit, lemma_or_assoc, lemma_has_or, lemma_has_single};
use crate::geometry::{king_attacks, pawn_attacks};
use crate::position::{
    BitBoard, base, dir, own, occupied, kind_at, piece_reach, reach, in_check, color_base,
    is_position, lemma_own_bit,
    get_full_color_board, get_occupied_board, get_reach_board, is_in_check, piece_kind_at,
    get_piece_reach, PAWN, QUEEN, KING,
};
use crate::tables::Constants;
use crate::types::{PieceColor, opposite};
use crate::square::{notation, parse_move, move_notation, lemma_notation_round_trip};

verus! {

/// A generated move: ((origin file, origin rank), (destination file,
/// destination rank)) and the position it leads to.
pub type BitBoardMove = (((u64, u64), (u64, u64)), BitBoard);

/// The rank the king and rooks of `c` start on.
pub open spec fn home_rank(c: PieceColor) -> int {
    match c {
        PieceColor::White => 0,
        PieceColor::Black => 7,
    }
}

/// The rank the pawns of `c` start on.
pub open spec fn pawn_start_rank(c: PieceColor) -> int {
    match c {
        PieceColor::White => 1,
        PieceColor::Black => 6,
    }
}

/// The rank on which a pawn of `c` promotes.
pub open spec fn last_rank(c: PieceColor) -> int {
    match c {
        PieceColor::White => 7,
        PieceColor::Black => 0,
    }
}

pub open spec fn opt_view(prev: Option<&BitBoard>) -> Option<Seq<u64>> {
    match prev {
        Some(p) => Some(p@),
        None => None,
    }
}

/// King-side castling is open to the king of `c` on `from`: king and rook on
/// their home squares, the squares between them empty, and none of the
/// king's squares (start, passed, target) attacked.
pub open spec fn castle_kingside(b: Seq<u64>, c: PieceColor, from: u64) -> bool {
    let hr = home_rank(c);
    let occ = occupied(b);
    let att = reach(b, opposite(c));
    &&& from == sq(4, hr)
    &&& bit_set(b[base(c) + 1], sq(7, hr))
    &&& !bit_set(occ, sq(5, hr))
    &&& !bit_set(occ, sq(6, hr))
    &&& !bit_set(att, sq(4, hr))
    &&& !bit_set(att, sq(5, hr))
    &&& !bit_set(att, sq(6, hr))
}

/// Queen-side castling is open to the king of `c` on `from`.
pub open spec fn castle_queenside(b: Seq<u64>, c: PieceColor, from: u64) -> bool {
    let hr = home_rank(c);
    let occ = occupied(b);
    let att = reach(b, opposite(c));
    &&& from == sq(4, hr)
    &&& bit_set(b[base(c) + 1], sq(0, hr))
    &&& !bit_set(occ, sq(1, hr))
    &&& !bit_set(occ, sq(2, hr))
    &&& !bit_set(occ, sq(3, hr))
    &&& !bit_set(att, sq(4, hr))
    &&& !bit_set(att, sq(3, hr))
    &&& !bit_set(att, sq(2, hr))
}

/// Where the king of `c` on `from` may go: its steps to squares without an
/// own piece, and the castling targets.
pub open spec fn king_targets(b: Seq<u64>, c: PieceColor, from: u64) -> u64 {
    let hr = home_rank(c);
    (king_attacks(from) & !own(b, c)) | (if castle_kingside(b, c, from) {
        1u64 << sq(6, hr)
    } else {
        0
    }) | (if castle_queenside(b, c, from) {
        1u64 << sq(2, hr)
    } else {
        0
    })
}

/// The forward moves of a pawn of `c` on `from`: one step onto an empty
/// square, and from its start rank two steps over two empty squares.
pub open spec fn pawn_push_targets(b: Seq<u64>, c: PieceColor, from: u64) -> u64 {
    let f = file_of(from);
    let r = rank_of(from);
    let d = dir(c);
    let occ = occupied(b);
    if on_board(f, r + d) && !bit_set(occ, sq(f, r + d)) {
        (1u64 << sq(f, r + d)) | (if r == pawn_start_rank(c) && !bit_set(occ, sq(f, r + 2 * d)) {
            1u64 << sq(f, r + 2 * d)
        } else {
            0
        })
    } else {
        0
    }
}

/// The en-passant capture of a pawn of `c` on `from` towards file offset
/// `df`: an opponent pawn stands beside it, and the previous position shows
/// that pawn two ranks further, not yet beside it, with both squares it
/// passed now empty.
pub open spec fn en_passant_target(
    b: Seq<u64>,
    prev: Option<Seq<u64>>,
    c: PieceColor,
    from: u64,
    df: int,
) -> u64 {
    let f = file_of(from);
    let r = rank_of(from);
    let d = dir(c);
    let op = base(opposite(c));
    let occ = occupied(b);
    if on_board(f + df, r + 2 * d) && bit_set(b[op], sq(f + df, r)) && !bit_set(
        occ,
        sq(f + df, r + d),
    ) && !bit_set(occ, sq(f + df, r + 2 * d)) && prev is Some && bit_set(
        prev.unwrap()[op],
        sq(f + df, r + 2 * d),
    ) && !bit_set(prev.unwrap()[op], sq(f + df, r)) {
        1u64 << sq(f + df, r + d)
    } else {
        0
    }
}

/// Where a pawn of `c` on `from` may go.
pub open spec fn pawn_targets(b: Seq<u64>, prev: Option<Seq<u64>>, c: PieceColor, from: u64) -> u64 {
    pawn_push_targets(b, c, from) | (pawn_attacks(dir(c), from) & own(b, opposite(c)))
        | en_passant_target(b, prev, c, from, 1) | en_passant_target(b, prev, c, from, -1)
}

/// The destinations of the piece of `c` on `from` before the king-safety
/// filter (none when `from` holds no piece of `c`).
pub open spec fn move_targets(b: Seq<u64>, prev: Option<Seq<u64>>, c: PieceColor, from: u64) -> u64 {
    let k = kind_at(b, c, from);
    if k == 0 {
        pawn_targets(b, prev, c, from)
    } else if k == 5 {
        king_targets(b, c, from)
    } else if k < 5 {
        piece_reach(k, c, from, occupied(b)) & !own(b, c)
    } else {
        0
    }
}

pub open spec fn is_castle(b: Seq<u64>, c: PieceColor, from: u64, to: u64) -> bool {
    kind_at(b, c, from) == 5 && (file_of(to) - file_of(from) == 2 || file_of(from) - file_of(to)
        == 2)
}

pub open spec fn is_en_passant(b: Seq<u64>, c: PieceColor, from: u64, to: u64) -> bool {
    kind_at(b, c, from) == 0 && file_of(to) != file_of(from) && !bit_set(occupied(b), to)
}

/// The kind the moving piece has after the move: a pawn reaching the last
/// rank becomes a queen.
pub open spec fn placed_kind(b: Seq<u64>, c: PieceColor, from: u64, to: u64) -> int {
    if kind_at(b, c, from) == 0 && rank_of(to) == last_rank(c) {
        4
    } else {
        kind_at(b, c, from)
    }
}

/// The rook's origin and target squares when a king castles to `to`.
pub open spec fn castle_rook_from(to: u64) -> u64 {
    if file_of(to) == 6 {
        sq(7, rank_of(to))
    } else {
        sq(0, rank_of(to))
    }
}

pub open spec fn castle_rook_to(to: u64) -> u64 {
    if file_of(to) == 6 {
        sq(5, rank_of(to))
    } else {
        sq(3, rank_of(to))
    }
}

/// Bitboard `i` after the piece of `c` on `from` moves to `to`: the
/// opponent loses whatever stands on `to` (and the pawn passed by an
/// en-passant capture), the mover leaves `from` and lands on `to` (as a
/// queen on promotion), and a castling king brings its rook along.
pub open spec fn after_move_set(b: Seq<u64>, c: PieceColor, from: u64, to: u64, i: int) -> u64 {
    let me = base(c);
    let op = base(opposite(c));
    if op <= i < op + 6 {
        let cleared = b[i] & !(1u64 << to);
        if i == op && is_en_passant(b, c, from, to) {
            cleared & !(1u64 << sq(file_of(to), rank_of(from)))
        } else {
            cleared
        }
    } else {
        let lifted = if i == me + kind_at(b, c, from) {
            b[i] & !(1u64 << from)
        } else {
            b[i]
        };
        let placed = if i == me + placed_kind(b, c, from, to) {
            lifted | (1u64 << to)
        } else {
            lifted
        };
        if i == me + 1 && is_castle(b, c, from, to) {
            (placed & !(1u64 << castle_rook_from(to))) | (1u64 << castle_rook_to(to))
        } else {
            placed
        }
    }
}

/// The position after the piece of `c` on `from` moves to `to`.
pub open spec fn apply_move(b: Seq<u64>, c: PieceColor, from: u64, to: u64) -> Seq<u64> {
    Seq::new(12, |i: int| after_move_set(b, c, from, to, i))
}

/// `from` to `to` is a legal move of `c`: a destination of an own piece that
/// does not leave the own king attacked.
#[verifier::opaque]
pub open spec fn is_legal_move(
    b: Seq<u64>,
    prev: Option<Seq<u64>>,
    c: PieceColor,
    from: u64,
    to: u64,
) -> bool {
    &&& from < 64
    &&& to < 64
    &&& kind_at(b, c, from) < 6
    &&& bit_set(move_targets(b, prev, c, from), to)
    &&& !in_check(apply_move(b, c, from, to), c)
}

fn square_index(f: i64, r: i64) -> (s: u64)
    requires
        on_board(f as int, r as int),
    ensures
        s == sq(f as int, r as int),
        s < 64,
{
    (r * 8 + f) as u64
}

fn castling_rank(color: PieceColor) -> (r: i64)
    ensures
        r == home_rank(color),
{
    match color {
        PieceColor::White => 0,
        PieceColor::Black => 7,
    }
}

fn direction(color: PieceColor) -> (d: i64)
    ensures
        d == dir(color),
{
    match color {
        PieceColor::White => 1,
        PieceColor::Black => -1,
    }
}

/// The castling destinations open to the king of `color` on `from`.
fn castle_targets(board: &BitBoard, color: PieceColor, from: u64, occ: u64, att: u64) -> (t: u64)
    requires
        occ == occupied(board@),
        att == reach(board@, opposite(color)),
    ensures
        t == (if castle_kingside(board@, color, from) {
            1u64 << sq(6, home_rank(color))
        } else {
            0
        }) | (if castle_queenside(board@, color, from) {
            1u64 << sq(2, home_rank(color))
        } else {
            0
        }),
{
    let hr = castling_rank(color);
    let rooks = board[color_base(color) + 1];
    let e = square_index(4, hr);
    let kingside = from == e && rooks & (1u64 << square_index(7, hr)) != 0 && occ & (1u64
        << square_index(5, hr)) == 0 && occ & (1u64 << square_index(6, hr)) == 0 && att & (1u64
        << e) == 0 && att & (1u64 << square_index(5, hr)) == 0 && att & (1u64 << square_index(
        6,
        hr,
    )) == 0;
    let queenside = from == e && rooks & (1u64 << square_index(0, hr)) != 0 && occ & (1u64
        << square_index(1, hr)) == 0 && occ & (1u64 << square_index(2, hr)) == 0 && occ & (1u64
        << square_index(3, hr)) == 0 && att & (1u64 << e) == 0 && att & (1u64 << square_index(
        3,
        hr,
    )) == 0 && att & (1u64 << square_index(2, hr)) == 0;
    let k: u64 = if kingside {
        1u64 << square_index(6, hr)
    } else {
        0
    };
    let q: u64 = if queenside {
        1u64 << square_index(2, hr)
    } else {
        0
    };
    k | q
}

fn en_passant_square(
    board: &BitBoard,
    prev: Option<&BitBoard>,
    color: PieceColor,
    from: u64,
    df: i64,
    occ: u64,
) -> (t: u64)
    requires
        from < 64,
        df == 1 || df == -1,
        occ == occupied(board@),
    ensures
        t == en_passant_target(board@, opt_view(prev), color, from, df as int),
{
    let f = (from % 8) as i64;
    let r = (from / 8) as i64;
    let d = direction(color);
    let op = color_base(color.opposite_color());
    if 0 <= f + df && f + df < 8 && 0 <= r + 2 * d && r + 2 * d < 8 {
        let beside = square_index(f + df, r);
        let target = square_index(f + df, r + d);
        let origin = square_index(f + df, r + 2 * d);
        if board[op] & (1u64 << beside) != 0 && occ & (1u64 << target) == 0 && occ & (1u64
            << origin) == 0 {
            match prev {
                Some(p) => {
                    if p[op] & (1u64 << origin) != 0 && p[op] & (1u64 << beside) == 0 {
                        1u64 << target
                    } else {
                        0
                    }
                },
                None => 0,
            }
        } else {
            0
        }
    } else {
        0
    }
}

fn pawn_pushes(board: &BitBoard, color: PieceColor, from: u64, occ: u64) -> (t: u64)
    requires
        from < 64,
        occ == occupied(board@),
    ensures
        t == pawn_push_targets(board@, color, from),
{
    let f = (from % 8) as i64;
    let r = (from / 8) as i64;
    let d = direction(color);
    let start: i64 = match color {
        PieceColor::White => 1,
        PieceColor::Black => 6,
    };
    if 0 <= r + d && r + d < 8 && occ & (1u64 << square_index(f, r + d)) == 0 {
        let one = 1u64 << square_index(f, r + d);
        let two: u64 = if r == start && occ & (1u64 << square_index(f, r + 2 * d)) == 0 {
            1u64 << square_index(f, r + 2 * d)
        } else {
            0
        };
        one | two
    } else {
        0
    }
}

/// The destinations of the piece of kind `k` and color `color` on `from`,
/// before the king-safety filter.
fn targets_from(
    board: &BitBoard,
    prev: Option<&BitBoard>,
    color: PieceColor,
    from: u64,
    k: usize,
    own_pieces: u64,
    occ: u64,
    att: u64,
    constants: &Constants,
) -> (t: u64)
    requires
        constants.wf(),
        from < 64,
        k == kind_at(board@, color, from),
        own_pieces == own(board@, color),
        occ == occupied(board@),
        att == reach(board@, opposite(color)),
    ensures
        t == move_targets(board@, opt_view(prev), color, from),
{
    if k == PAWN {
        let opponent = get_full_color_board(board, color.opposite_color());
        let attacks = match color {
            PieceColor::White => constants.pawn_reach[0][from as usize],
            PieceColor::Black => constants.pawn_reach[1][from as usize],
        };
        let t = pawn_pushes(board, color, from, occ) | (attacks & opponent) | en_passant_square(
            board,
            prev,
            color,
            from,
            1,
            occ,
        ) | en_passant_square(board, prev, color, from, -1, occ);
        t
    } else if k == KING {
        assert(constants.king_reach@[from as int] == king_attacks(from));
        let t = (constants.king_reach[from as usize] & !own_pieces) | castle_targets(
            board,
            color,
            from,
            occ,
            att,
        );
        proof {
            let hr = home_rank(color);
            lemma_or_assoc(
                king_attacks(from) & !own_pieces,
                if castle_kingside(board@, color, from) {
                    1u64 << sq(6, hr)
                } else {
                    0
                },
                if castle_queenside(board@, color, from) {
                    1u64 << sq(2, hr)
                } else {
                    0
                },
            );
        }
        t
    } else if k < KING {
        get_piece_reach(constants, k, color, from, occ) & !own_pieces
    } else {
        0
    }
}

fn after_move_board(
    board: &BitBoard,
    color: PieceColor,
    from: u64,
    to: u64,
    k: usize,
    pk: usize,
    castle: bool,
    ep: bool,
    i: usize,
) -> (v: u64)
    requires
        from < 64,
        to < 64,
        i < 12,
        k == kind_at(board@, color, from),
        pk == placed_kind(board@, color, from, to),
        castle == is_castle(board@, color, from, to),
        ep == is_en_passant(board@, color, from, to),
    ensures
        v == after_move_set(board@, color, from, to, i as int),
{
    let me = color_base(color);
    let op = color_base(color.opposite_color());
    if op <= i && i < op + 6 {
        let cleared = board[i] & !(1u64 << to);
        if i == op && ep {
            let passed = square_index((to % 8) as i64, (from / 8) as i64);
            cleared & !(1u64 << passed)
        } else {
            cleared
        }
    } else {
        let lifted = if i == me + k {
            board[i] & !(1u64 << from)
        } else {
            board[i]
        };
        let placed = if i == me + pk {
            lifted | (1u64 << to)
        } else {
            lifted
        };
        if i == me + 1 && castle {
            let r = (to / 8) as i64;
            let (rook_from, rook_to) = if to % 8 == 6 {
                (square_index(7, r), square_index(5, r))
            } else {
                (square_index(0, r), square_index(3, r))
            };
            (placed & !(1u64 << rook_from)) | (1u64 << rook_to)
        } else {
            placed
        }
    }
}

/// The position after the piece of `color` on `from` moves to `to`:
/// captures (en passant included), promotion to a queen and the rook's
/// move in castling are applied; the input is left untouched.
pub fn make_move(board: &BitBoard, color: PieceColor, from: u64, to: u64) -> (r: BitBoard)
    requires
        from < 64,
        to < 64,
    ensures
        r@ == apply_move(board@, color, from, to),
{
    let k = piece_kind_at(board, color, from);
    let occ = get_occupied_board(board);
    let ff = from % 8;
    let tf = to % 8;
    let castle = k == KING && (tf == ff + 2 || ff == tf + 2);
    let ep = k == PAWN && tf != ff && occ & (1u64 << to) == 0;
    let last: u64 = match color {
        PieceColor::White => 7,
        PieceColor::Black => 0,
    };
    let pk = if k == PAWN && to / 8 == last {
        QUEEN
    } else {
        k
    };
    let r: BitBoard = [
        after_move_board(board, color, from, to, k, pk, castle, ep, 0),
        after_move_board(board, color, from, to, k, pk, castle, ep, 1),
        after_move_board(board, color, from, to, k, pk, castle, ep, 2),
        after_move_board(board, color, from, to, k, pk, castle, ep, 3),
        after_move_board(board, color, from, to, k, pk, castle, ep, 4),
        after_move_board(board, color, from, to, k, pk, castle, ep, 5),
        after_move_board(board, color, from, to, k, pk, castle, ep, 6),
        after_move_board(board, color, from, to, k, pk, castle, ep, 7),
        after_move_board(board, color, from, to, k, pk, castle, ep, 8),
        after_move_board(board, color, from, to, k, pk, castle, ep, 9),
        after_move_board(board, color, from, to, k, pk, castle, ep, 10),
        after_move_board(board, color, from, to, k, pk, castle, ep, 11),
    ];
    assert(r@ =~= apply_move(board@, color, from, to));
    r
}

/// The positions reachable by the legal moves of `c` whose index
/// `64 * origin + destination` is below `n`, in that order.
pub open spec fn legal_successors(b: Seq<u64>, prev: Option<Seq<u64>>, c: PieceColor, n: nat) -> Seq<Seq<u64>>
    decreases n,
{
    if n == 0 {
        Seq::empty()
    } else {
        let m = (n - 1) as int;
        let rest = legal_successors(b, prev, c, (n - 1) as nat);
        if is_legal_move(b, prev, c, (m / 64) as u64, (m % 64) as u64) {
            rest.push(apply_move(b, c, (m / 64) as u64, (m % 64) as u64))
        } else {
            rest
        }
    }
}

/// The positions reachable by one legal move of `c`, ordered by origin and
/// then destination square.
pub open spec fn successors(b: Seq<u64>, prev: Option<Seq<u64>>, c: PieceColor) -> Seq<Seq<u64>> {
    legal_successors(b, prev, c, 4096)
}

/// Square `s` of bitboard `i` after the move, spelled out square by square.
pub open spec fn after_move_bit(b: Seq<u64>, c: PieceColor, from: u64, to: u64, i: int, s: u64) -> bool {
    let me = base(c);
    let op = base(opposite(c));
    if op <= i < op + 6 {
        bit_set(b[i], s) && s != to && !(i == op && is_en_passant(b, c, from, to) && s == sq(
            file_of(to),
            rank_of(from),
        ))
    } else {
        let lifted = if i == me + kind_at(b, c, from) {
            bit_set(b[i], s) && s != from
        } else {
            bit_set(b[i], s)
        };
        let placed = if i == me + placed_kind(b, c, from, to) {
            lifted || s == to
        } else {
            lifted
        };
        if i == me + 1 && is_castle(b, c, from, to) {
            (placed && s != castle_rook_from(to)) || s == castle_rook_to(to)
        } else {
            placed
        }
    }
}

proof fn lemma_after_move_bit(b: Seq<u64>, c: PieceColor, from: u64, to: u64, i: int, s: u64)
    requires
        s < 64,
        from < 64,
        to < 64,
        0 <= i < 12,
    ensures
        bit_set(after_move_set(b, c, from, to, i), s) == after_move_bit(b, c, from, to, i, s),
{
    let e = sq(file_of(to), rank_of(from));
    let rf = castle_rook_from(to);
    let rt = castle_rook_to(to);
    let cleared = b[i] & !(1u64 << to);
    lemma_has_or(b[i], 1u64 << to, s);
    lemma_has_single(to, s);
    lemma_has_or(cleared, 1u64 << e, s);
    lemma_has_single(e, s);
    lemma_has_or(b[i], 1u64 << from, s);
    lemma_has_single(from, s);
    let lifted = if i == base(c) + kind_at(b, c, from) {
        b[i] & !(1u64 << from)
    } else {
        b[i]
    };
    lemma_has_or(lifted, 1u64 << to, s);
    let placed = if i == base(c) + placed_kind(b, c, from, to) {
        lifted | (1u64 << to)
    } else {
        lifted
    };
    lemma_has_or(placed, 1u64 << rf, s);
    lemma_has_single(rf, s);
    lemma_has_or(placed & !(1u64 << rf), 1u64 << rt, s);
    lemma_has_single(rt, s);
}

/// A king step changes the file by at most one.
proof fn lemma_king_step(from: u64, to: u64)
    requires
        from < 64,
        to < 64,
        bit_set(king_attacks(from), to),
    ensures
        -1 <= file_of(to) - file_of(from) <= 1,
{
    let f = file_of(from);
    let r = rank_of(from);
    let parts = seq![
        square_bit(f + 1, r + 1),
        square_bit(f + 1, r),
        square_bit(f + 1, r - 1),
        square_bit(f, r - 1),
        square_bit(f - 1, r - 1),
        square_bit(f - 1, r),
        square_bit(f - 1, r + 1),
        square_bit(f, r + 1),
    ];
    lemma_has_or(parts[0] | parts[1] | parts[2] | parts[3] | parts[4] | parts[5] | parts[6], parts[7], to);
    lemma_has_or(parts[0] | parts[1] | parts[2] | parts[3] | parts[4] | parts[5], parts[6], to);
    lemma_has_or(parts[0] | parts[1] | parts[2] | parts[3] | parts[4], parts[5], to);
    lemma_has_or(parts[0] | parts[1] | parts[2] | parts[3], parts[4], to);
    lemma_has_or(parts[0] | parts[1] | parts[2], parts[3], to);
    lemma_has_or(parts[0] | parts[1], parts[2], to);
    lemma_has_or(parts[0], parts[1], to);
    lemma_has_or(0, 0, to);
    lemma_step_bit(f + 1, r + 1, to);
    lemma_step_bit(f + 1, r, to);
    lemma_step_bit(f + 1, r - 1, to);
    lemma_step_bit(f, r - 1, to);
    lemma_step_bit(f - 1, r - 1, to);
    lemma_step_bit(f - 1, r, to);
    lemma_step_bit(f - 1, r + 1, to);
    lemma_step_bit(f, r + 1, to);
}

proof fn lemma_step_bit(f: int, r: int, t: u64)
    requires
        t < 64,
    ensures
        bit_set(square_bit(f, r), t) ==> on_board(f, r) && file_of(t) == f,
{
    lemma_has_or(0, 0, t);
    if on_board(f, r) {
        lemma_has_single(sq(f, r), t);
    }
}

/// The destination of a legal move holds no piece of the mover, and a
/// castling rook lands on an empty square.
proof fn lemma_legal_target_free(b: Seq<u64>, prev: Option<Seq<u64>>, c: PieceColor, from: u64, to: u64)
    requires
        is_position(b),
        is_legal_move(b, prev, c, from, to),
    ensures
        !bit_set(own(b, c), to),
        is_castle(b, c, from, to) ==> !bit_set(occupied(b), castle_rook_to(to)) && castle_rook_to(to)
            != to && castle_rook_to(to) < 64,
{
    reveal(is_legal_move);
    let k = kind_at(b, c, from);
    let occ = occupied(b);
    let mine = own(b, c);
    let theirs = own(b, opposite(c));
    lemma_own_bit(b, c, to);
    lemma_own_bit(b, opposite(c), to);
    lemma_has_or(0, 0, to);
    if k == 0 {
        let f = file_of(from);
        let r = rank_of(from);
        let d = dir(c);
        let push = pawn_push_targets(b, c, from);
        let cap = pawn_attacks(d, from) & theirs;
        let e1 = en_passant_target(b, prev, c, from, 1);
        let e2 = en_passant_target(b, prev, c, from, -1);
        lemma_has_or(push | cap | e1, e2, to);
        lemma_has_or(push | cap, e1, to);
        lemma_has_or(push, cap, to);
        lemma_has_or(pawn_attacks(d, from), theirs, to);
        if on_board(f, r + d) && !bit_set(occ, sq(f, r + d)) {
            let two = if r == pawn_start_rank(c) && !bit_set(occ, sq(f, r + 2 * d)) {
                1u64 << sq(f, r + 2 * d)
            } else {
                0
            };
            lemma_has_or(1u64 << sq(f, r + d), two, to);
            lemma_has_single(sq(f, r + d), to);
            if r == pawn_start_rank(c) && !bit_set(occ, sq(f, r + 2 * d)) {
                lemma_has_single(sq(f, r + 2 * d), to);
            }
        }
        if on_board(f + 1, r + 2 * d) {
            lemma_has_single(sq(f + 1, r + d), to);
        }
        if on_board(f - 1, r + 2 * d) {
            lemma_has_single(sq(f - 1, r + d), to);
        }
        if bit_set(cap, to) {
            assert forall|x: int|
                0 <= x < 6 implies !#[trigger] bit_set(b[base(c) + x], to) by {
                assert forall|y: int| 0 <= y < 6 implies !(bit_set(b[base(c) + x], to) && #[trigger] bit_set(b[base(opposite(c)) + y], to)) by {
                    assert(base(c) + x != base(opposite(c)) + y);
                }
            }
        }
    } else if k == 5 {
        let hr = home_rank(c);
        let steps = king_attacks(from) & !mine;
        let ks: u64 = if castle_kingside(b, c, from) {
            1u64 << sq(6, hr)
        } else {
            0
        };
        let qs: u64 = if castle_queenside(b, c, from) {
            1u64 << sq(2, hr)
        } else {
            0
        };
        lemma_has_or(steps | ks, qs, to);
        lemma_has_or(steps, ks, to);
        lemma_has_or(king_attacks(from), mine, to);
        lemma_has_single(sq(6, hr), to);
        lemma_has_single(sq(2, hr), to);
        if bit_set(steps, to) {
            lemma_king_step(from, to);
        }
        lemma_own_bit(b, c, sq(5, hr));
        lemma_own_bit(b, c, sq(3, hr));
    } else {
        lemma_has_or(piece_reach(k, c, from, occ), mine, to);
    }
}

/// After a legal move the origin square is empty, the moved (or promoted)
/// piece stands on the destination, and no opponent piece is left there.
pub proof fn lemma_legal_move_squares(
    b: Seq<u64>,
    prev: Option<Seq<u64>>,
    c: PieceColor,
    from: u64,
    to: u64,
)
    requires
        is_position(b),
        is_legal_move(b, prev, c, from, to),
    ensures
        forall|i: int| 0 <= i < 12 ==> !#[trigger] bit_set(apply_move(b, c, from, to)[i], from),
        bit_set(apply_move(b, c, from, to)[base(c) + placed_kind(b, c, from, to)], to),
        forall|x: int|
            0 <= x < 6 ==> !#[trigger] bit_set(apply_move(b, c, from, to)[base(opposite(c)) + x], to),
{
    reveal(is_legal_move);
    lemma_legal_target_free(b, prev, c, from, to);
    lemma_own_bit(b, c, from);
    lemma_own_bit(b, c, to);
    let k = kind_at(b, c, from);
    let after = apply_move(b, c, from, to);
    assert(bit_set(b[base(c) + k], from));
    if is_castle(b, c, from, to) {
        lemma_own_bit(b, c, castle_rook_to(to));
        lemma_own_bit(b, opposite(c), castle_rook_to(to));
    }
    assert forall|i: int| 0 <= i < 12 implies !#[trigger] bit_set(after[i], from) by {
        lemma_after_move_bit(b, c, from, to, i, from);
        if i != base(c) + k {
            assert(!(bit_set(b[i], from) && bit_set(b[base(c) + k], from)));
        }
    }
    lemma_after_move_bit(b, c, from, to, base(c) + placed_kind(b, c, from, to), to);
    assert forall|x: int| 0 <= x < 6 implies !#[trigger] bit_set(after[base(opposite(c)) + x], to) by {
        lemma_after_move_bit(b, c, from, to, base(opposite(c)) + x, to);
    }
}

/// A legal move keeps a position well formed.
pub proof fn lemma_legal_move_keeps_position(
    b: Seq<u64>,
    prev: Option<Seq<u64>>,
    c: PieceColor,
    from: u64,
    to: u64,
)
    requires
        is_position(b),
        is_legal_move(b, prev, c, from, to),
    ensures
        is_position(apply_move(b, c, from, to)),
{
    reveal(is_legal_move);
    lemma_legal_target_free(b, prev, c, from, to);
    let after = apply_move(b, c, from, to);
    let rt = castle_rook_to(to);
    lemma_own_bit(b, c, to);
    if is_castle(b, c, from, to) {
        lemma_own_bit(b, PieceColor::White, rt);
        lemma_own_bit(b, PieceColor::Black, rt);
    }
    assert forall|i: int, j: int, s: u64|
        0 <= i < 12 && 0 <= j < 12 && i != j && s < 64 implies !(#[trigger] bit_set(after[i], s)
        && #[trigger] bit_set(after[j], s)) by {
        lemma_after_move_bit(b, c, from, to, i, s);
        lemma_after_move_bit(b, c, from, to, j, s);
        assert(!(bit_set(b[i], s) && bit_set(b[j], s)));
    }
}

/// A move: origin and destination squares, and the square of the captured
/// piece when that is not the destination (en passant).
#[derive(PartialEq, Eq, Structural, Clone, Copy, Debug)]
pub struct Move {
    pub from: u64,
    pub to: u64,
    pub capture: Option<u64>,
}

impl Move {
    pub fn new(from: u64, to: u64, capture: Option<u64>) -> (r: Move)
        ensures
            r == (Move { from, to, capture }),
    {
        Move { from, to, capture }
    }
}

/// The move of the piece of `color` from `from` to `to`, with the square of
/// the pawn an en-passant capture takes.
pub fn describe_move(board: &BitBoard, color: PieceColor, from: u64, to: u64) -> (m: Move)
    requires
        from < 64,
        to < 64,
    ensures
        m.from == from,
        m.to == to,
        m.capture == (if is_en_passant(board@, color, from, to) {
            Some(sq(file_of(to), rank_of(from)))
        } else {
            None::<u64>
        }),
{
    let k = piece_kind_at(board, color, from);
    let occ = get_occupied_board(board);
    if k == PAWN && to % 8 != from % 8 && occ & (1u64 << to) == 0 {
        Move::new(from, to, Some(square_index((to % 8) as i64, (from / 8) as i64)))
    } else {
        Move::new(from, to, None)
    }
}

/// The origin square of a generated move.
pub open spec fn entry_from(m: BitBoardMove) -> u64 {
    (m.0.0.1 * 8 + m.0.0.0) as u64
}

/// The destination square of a generated move.
pub open spec fn entry_to(m: BitBoardMove) -> u64 {
    (m.0.1.1 * 8 + m.0.1.0) as u64
}

/// A generated move names a legal move of `c` by in-range coordinates and
/// carries the position it leads to.
pub open spec fn entry_ok(b: Seq<u64>, prev: Option<Seq<u64>>, c: PieceColor, m: BitBoardMove) -> bool {
    &&& m.0.0.0 < 8
    &&& m.0.0.1 < 8
    &&& m.0.1.0 < 8
    &&& m.0.1.1 < 8
    &&& is_legal_move(b, prev, c, entry_from(m), entry_to(m))
    &&& m.1@ == apply_move(b, c, entry_from(m), entry_to(m))
}

/// (`f1`, `t1`) comes before (`f2`, `t2`): by origin, then by destination.
pub open spec fn move_before(f1: u64, t1: u64, f2: u64, t2: u64) -> bool {
    f1 < f2 || (f1 == f2 && t1 < t2)
}

/// Appends the legal moves from `from`, in order of destination.
fn push_moves_from(
    board: &BitBoard,
    prev_board: Option<&BitBoard>,
    color: PieceColor,
    from: u64,
    k: usize,
    targets: u64,
    constants: &Constants,
    moves: &mut Vec<BitBoardMove>,
)
    requires
        constants.wf(),
        from < 64,
        k == kind_at(board@, color, from),
        targets == move_targets(board@, opt_view(prev_board), color, from),
        old(moves)@.len() == legal_successors(board@, opt_view(prev_board), color, (from * 64) as nat).len(),
        forall|j: int|
            0 <= j < old(moves)@.len() ==> (#[trigger] old(moves)@[j]).1@ == legal_successors(
                board@,
                opt_view(prev_board),
                color,
                (from * 64) as nat,
            )[j],
        forall|j: int|
            0 <= j < old(moves)@.len() ==> entry_ok(board@, opt_view(prev_board), color, #[trigger] old(moves)@[j]),
        forall|j: int| 0 <= j < old(moves)@.len() ==> entry_from(#[trigger] old(moves)@[j]) < from,
        forall|j1: int, j2: int|
            0 <= j1 < j2 < old(moves)@.len() ==> move_before(
                entry_from(#[trigger] old(moves)@[j1]),
                entry_to(old(moves)@[j1]),
                entry_from(#[trigger] old(moves)@[j2]),
                entry_to(old(moves)@[j2]),
            ),
    ensures
        final(moves)@.len() == legal_successors(board@, opt_view(prev_board), color, (from * 64 + 64) as nat).len(),
        forall|j: int|
            0 <= j < final(moves)@.len() ==> (#[trigger] final(moves)@[j]).1@ == legal_successors(
                board@,
                opt_view(prev_board),
                color,
                (from * 64 + 64) as nat,
            )[j],
        final(moves)@.len() >= old(moves)@.len(),
        final(moves)@.subrange(0, old(moves)@.len() as int) == old(moves)@,
        forall|j: int|
            0 <= j < final(moves)@.len() ==> entry_ok(board@, opt_view(prev_board), color, #[trigger] final(moves)@[j]),
        forall|j: int| 0 <= j < final(moves)@.len() ==> entry_from(#[trigger] final(moves)@[j]) <= from,
        forall|t: u64|
            is_legal_move(board@, opt_view(prev_board), color, from, t) ==> exists|j: int|
                0 <= j < final(moves)@.len() && entry_from(#[trigger] final(moves)@[j]) == from
                    && entry_to(final(moves)@[j]) == t,
        forall|j1: int, j2: int|
            0 <= j1 < j2 < final(moves)@.len() ==> move_before(
                entry_from(#[trigger] final(moves)@[j1]),
                entry_to(final(moves)@[j1]),
                entry_from(#[trigger] final(moves)@[j2]),
                entry_to(final(moves)@[j2]),
            ),
{
    let ghost prev = opt_view(prev_board);
    let ghost start = old(moves)@;
    let mut to: u64 = 0;
    while to < 64
        invariant
            constants.wf(),
            prev == opt_view(prev_board),
            from < 64,
            k == kind_at(board@, color, from),
            targets == move_targets(board@, prev, color, from),
            to <= 64,
            moves@.len() == legal_successors(board@, prev, color, (from * 64 + to) as nat).len(),
            forall|j: int|
                0 <= j < moves@.len() ==> (#[trigger] moves@[j]).1@ == legal_successors(
                    board@,
                    prev,
                    color,
                    (from * 64 + to) as nat,
                )[j],
            moves@.len() >= start.len(),
            moves@.subrange(0, start.len() as int) == start,
            forall|j: int| 0 <= j < moves@.len() ==> entry_ok(board@, prev, color, #[trigger] moves@[j]),
            forall|j: int|
                0 <= j < moves@.len() ==> move_before(
                    entry_from(#[trigger] moves@[j]),
                    entry_to(moves@[j]),
                    from,
                    to,
                ),
            forall|t: u64|
                t < to && is_legal_move(board@, prev, color, from, t) ==> exists|j: int|
                    0 <= j < moves@.len() && entry_from(#[trigger] moves@[j]) == from && entry_to(
                        moves@[j],
                    ) == t,
            forall|j1: int, j2: int|
                0 <= j1 < j2 < moves@.len() ==> move_before(
                    entry_from(#[trigger] moves@[j1]),
                    entry_to(moves@[j1]),
                    entry_from(#[trigger] moves@[j2]),
                    entry_to(moves@[j2]),
                ),
        decreases 64 - to,
    {
        let ghost before = moves@;
        assert(((from * 64 + to) as int) / 64 == from && ((from * 64 + to) as int) % 64 == to)
            by (nonlinear_arith)
            requires
                to < 64,
        ;
        if targets & (1u64 << to) != 0 {
            let new_board = make_move(board, color, from, to);
            if !is_in_check(&new_board, color, constants) {
                let entry: BitBoardMove = (((from % 8, from / 8), (to % 8, to / 8)), new_board);
                assert(entry_from(entry) == from);
                assert(entry_to(entry) == to);
                proof {
                    reveal(is_legal_move);
                    lemma_has_or(0, 0, to);
                }
                assert(entry_ok(board@, prev, color, entry));
                moves.push(entry);
                proof {
                    assert(moves@.subrange(0, start.len() as int) =~= start) by {
                        assert(before.subrange(0, start.len() as int) == start);
                    }
                    assert forall|t: u64|
                        t < to + 1 && is_legal_move(board@, prev, color, from, t) implies exists|j: int|
                        0 <= j < moves@.len() && entry_from(#[trigger] moves@[j]) == from
                            && entry_to(moves@[j]) == t by {
                        if t == to {
                            assert(moves@[before.len() as int] == entry);
                        } else {
                            let j = choose|j: int|
                                0 <= j < before.len() && entry_from(#[trigger] before[j]) == from
                                    && entry_to(before[j]) == t;
                            assert(moves@[j] == before[j]);
                        }
                    }
                }
            } else {
                proof {
                    reveal(is_legal_move);
                }
            }
        } else {
            proof {
                reveal(is_legal_move);
            }
        }
        to = to + 1;
    }
    proof {
        reveal(is_legal_move);
    }
}

/// The legal moves of `color`: every entry is a legal move with the position
/// it leads to, every legal move is listed, each once, ordered by origin and
/// then destination square.
pub fn generate_possible_moves(
    board: &BitBoard,
    prev_board: Option<&BitBoard>,
    color: PieceColor,
    constants: &Constants,
) -> (moves: Vec<BitBoardMove>)
    requires
        constants.wf(),
    ensures
        moves@.len() == successors(board@, opt_view(prev_board), color).len(),
        forall|k: int|
            0 <= k < moves@.len() ==> (#[trigger] moves@[k]).1@ == successors(
                board@,
                opt_view(prev_board),
                color,
            )[k],
        forall|k: int|
            0 <= k < moves@.len() ==> entry_ok(board@, opt_view(prev_board), color, #[trigger] moves@[k]),
        is_position(board@) ==> forall|k: int|
            0 <= k < moves@.len() ==> is_position((#[trigger] moves@[k]).1@),
        forall|f: u64, t: u64|
            is_legal_move(board@, opt_view(prev_board), color, f, t) ==> exists|k: int|
                0 <= k < moves@.len() && entry_from(#[trigger] moves@[k]) == f && entry_to(
                    moves@[k],
                ) == t,
        forall|k1: int, k2: int|
            0 <= k1 < k2 < moves@.len() ==> move_before(
                entry_from(#[trigger] moves@[k1]),
                entry_to(moves@[k1]),
                entry_from(#[trigger] moves@[k2]),
                entry_to(moves@[k2]),
            ),
{
    let ghost prev = opt_view(prev_board);
    let own_pieces = get_full_color_board(board, color);
    let occ = get_occupied_board(board);
    let att = get_reach_board(board, color.opposite_color(), constants);
    let mut moves: Vec<BitBoardMove> = Vec::new();
    let mut from: u64 = 0;
    while from < 64
        invariant
            constants.wf(),
            prev == opt_view(prev_board),
            own_pieces == own(board@, color),
            occ == occupied(board@),
            att == reach(board@, opposite(color)),
            from <= 64,
            moves@.len() == legal_successors(board@, prev, color, (from * 64) as nat).len(),
            forall|j: int|
                0 <= j < moves@.len() ==> (#[trigger] moves@[j]).1@ == legal_successors(
                    board@,
                    prev,
                    color,
                    (from * 64) as nat,
                )[j],
            forall|k: int| 0 <= k < moves@.len() ==> entry_ok(board@, prev, color, #[trigger] moves@[k]),
            forall|k: int| 0 <= k < moves@.len() ==> entry_from(#[trigger] moves@[k]) < from,
            forall|f: u64, t: u64|
                f < from && is_legal_move(board@, prev, color, f, t) ==> exists|k: int|
                    0 <= k < moves@.len() && entry_from(#[trigger] moves@[k]) == f && entry_to(
                        moves@[k],
                    ) == t,
            forall|k1: int, k2: int|
                0 <= k1 < k2 < moves@.len() ==> move_before(
                    entry_from(#[trigger] moves@[k1]),
                    entry_to(moves@[k1]),
                    entry_from(#[trigger] moves@[k2]),
                    entry_to(moves@[k2]),
                ),
        decreases 64 - from,
    {
        let k = piece_kind_at(board, color, from);
        let ghost before = moves@;
        let targets = targets_from(
            board,
            prev_board,
            color,
            from,
            k,
            own_pieces,
            occ,
            att,
            constants,
        );
        push_moves_from(board, prev_board, color, from, k, targets, constants, &mut moves);
        proof {
            assert forall|f: u64, t: u64|
                f < from + 1 && is_legal_move(board@, prev, color, f, t) implies exists|j: int|
                0 <= j < moves@.len() && entry_from(#[trigger] moves@[j]) == f && entry_to(
                    moves@[j],
                ) == t by {
                if f < from {
                    let j = choose|j: int|
                        0 <= j < before.len() && entry_from(#[trigger] before[j]) == f
                            && entry_to(before[j]) == t;
                    assert(moves@.subrange(0, before.len() as int)[j] == before[j]);
                }
            }
        }
        from = from + 1;
    }
    proof {
        reveal(is_legal_move);
        if is_position(board@) {
            assert forall|k: int| 0 <= k < moves@.len() implies is_position(
                (#[trigger] moves@[k]).1@,
            ) by {
                assert(entry_ok(board@, prev, color, moves@[k]));
                lemma_legal_move_keeps_position(
                    board@,
                    prev,
                    color,
                    entry_from(moves@[k]),
                    entry_to(moves@[k]),
                );
            }
        }
    }
    moves
}

/// A listed move: its notation names a legal move, and its position is the
/// one that move leads to.
pub open spec fn named_entry_ok(
    b: Seq<u64>,
    prev: Option<Seq<u64>>,
    c: PieceColor,
    e: (String, BitBoard),
) -> bool {
    listed_move_ok(b, prev, c, e.0@, e.1@)
}

/// `name` is the notation of a legal move of `c` that leads to `after`.
pub open spec fn listed_move_ok(
    b: Seq<u64>,
    prev: Option<Seq<u64>>,
    c: PieceColor,
    name: Seq<char>,
    after: Seq<u64>,
) -> bool {
    match parse_move(name) {
        Some(ft) => {
            &&& name == notation(ft.0, ft.1)
            &&& is_legal_move(b, prev, c, ft.0, ft.1)
            &&& after == apply_move(b, c, ft.0, ft.1)
        },
        None => false,
    }
}

/// Move name `a` comes before move name `b`: both are well formed and
/// `a`'s origin and destination come first by origin, then destination.
pub open spec fn named_before(a: Seq<char>, b: Seq<char>) -> bool {
    match (parse_move(a), parse_move(b)) {
        (Some(x), Some(y)) => move_before(x.0, x.1, y.0, y.1),
        _ => false,
    }
}

/// The legal moves of `color`, each with its notation ("e2 e4") and the
/// position it leads to, ordered by origin and then destination square.
pub fn generate_moves(
    board: &BitBoard,
    prev_board: Option<&BitBoard>,
    color: PieceColor,
    constants: &Constants,
) -> (moves: Vec<(String, BitBoard)>)
    requires
        constants.wf(),
    ensures
        moves@.len() == successors(board@, opt_view(prev_board), color).len(),
        forall|k: int|
            0 <= k < moves@.len() ==> (#[trigger] moves@[k]).1@ == successors(
                board@,
                opt_view(prev_board),
                color,
            )[k],
        forall|k: int|
            0 <= k < moves@.len() ==> named_entry_ok(
                board@,
                opt_view(prev_board),
                color,
                #[trigger] moves@[k],
            ),
        forall|f: u64, t: u64|
            is_legal_move(board@, opt_view(prev_board), color, f, t) ==> exists|k: int|
                0 <= k < moves@.len() && parse_move((#[trigger] moves@[k]).0@) == Some((f, t)),
        is_position(board@) ==> forall|k: int|
            0 <= k < moves@.len() ==> is_position((#[trigger] moves@[k]).1@),
        forall|k1: int, k2: int|
            0 <= k1 < k2 < moves@.len() ==> named_before(
                (#[trigger] moves@[k1]).0@,
                (#[trigger] moves@[k2]).0@,
            ) && moves@[k1].0@ != moves@[k2].0@,
{
    let ghost prev = opt_view(prev_board);
    let generated = generate_possible_moves(board, prev_board, color, constants);
    let mut moves: Vec<(String, BitBoard)> = Vec::new();
    let mut k: usize = 0;
    while k < generated.len()
        invariant
            prev == opt_view(prev_board),
            k <= generated@.len(),
            moves@.len() == k,
            generated@.len() == successors(board@, prev, color).len(),
            forall|j: int|
                0 <= j < generated@.len() ==> (#[trigger] generated@[j]).1@ == successors(
                    board@,
                    prev,
                    color,
                )[j],
            forall|j: int|
                0 <= j < generated@.len() ==> entry_ok(board@, prev, color, #[trigger] generated@[j]),
            is_position(board@) ==> forall|j: int|
                0 <= j < generated@.len() ==> is_position((#[trigger] generated@[j]).1@),
            forall|j: int|
                0 <= j < k ==> (#[trigger] moves@[j]).1 == generated@[j].1 && moves@[j].0@
                    == notation(entry_from(generated@[j]), entry_to(generated@[j])),
        decreases generated@.len() - k,
    {
        let m = generated[k];
        let from = m.0.0.1 * 8 + m.0.0.0;
        let to = m.0.1.1 * 8 + m.0.1.0;
        assert(entry_ok(board@, prev, color, generated@[k as int]));
        moves.push((move_notation(from, to), m.1));
        k = k + 1;
    }
    proof {
        assert forall|j: int| 0 <= j < moves@.len() implies named_entry_ok(
            board@,
            prev,
            color,
            #[trigger] moves@[j],
        ) by {
            assert(entry_ok(board@, prev, color, generated@[j]));
            lemma_notation_round_trip(entry_from(generated@[j]), entry_to(generated@[j]));
        }
        assert forall|f: u64, t: u64| is_legal_move(board@, prev, color, f, t) implies exists|j: int|
            0 <= j < moves@.len() && parse_move((#[trigger] moves@[j]).0@) == Some((f, t)) by {
            let j = choose|j: int|
                0 <= j < generated@.len() && entry_from(#[trigger] generated@[j]) == f && entry_to(
                    generated@[j],
                ) == t;
            assert(entry_ok(board@, prev, color, generated@[j]));
            lemma_notation_round_trip(f, t);
            assert(parse_move(moves@[j].0@) == Some((f, t)));
        }
        assert forall|k1: int, k2: int|
            0 <= k1 < k2 < moves@.len() implies named_before(
            (#[trigger] moves@[k1]).0@,
            (#[trigger] moves@[k2]).0@,
        ) && moves@[k1].0@ != moves@[k2].0@ by {
            let g1 = generated@[k1];
            let g2 = generated@[k2];
            assert(entry_ok(board@, prev, color, g1));
            assert(entry_ok(board@, prev, color, g2));
            lemma_notation_round_trip(entry_from(g1), entry_to(g1));
            lemma_notation_round_trip(entry_from(g2), entry_to(g2));
            assert(move_before(entry_from(g1), entry_to(g1), entry_from(g2), entry_to(g2)));
        }
    }
    moves
}

/// A listed move takes a piece of the mover from the origin its notation
/// names to the destination it names: before the move the origin holds a
/// piece of `c`; after it the destination does and the origin does not.
pub proof fn lemma_listed_move_squares(
    b: Seq<u64>,
    prev: Option<Seq<u64>>,
    c: PieceColor,
    e: (String, BitBoard),
)
    requires
        is_position(b),
        named_entry_ok(b, prev, c, e),
    ensures
        bit_set(own(b, c), parse_move(e.0@).unwrap().0),
        bit_set(own(e.1@, c), parse_move(e.0@).unwrap().1),
        !bit_set(own(e.1@, c), parse_move(e.0@).unwrap().0),
{
    reveal(is_legal_move);
    let ft = parse_move(e.0@).unwrap();
    lemma_legal_move_squares(b, prev, c, ft.0, ft.1);
    lemma_own_bit(b, c, ft.0);
    lemma_own_bit(e.1@, c, ft.0);
    lemma_own_bit(e.1@, c, ft.1);
    assert(bit_set(b[base(c) + kind_at(b, c, ft.0)], ft.0));
    let after = e.1@;
    assert(!bit_set(after[base(c)], ft.0) && !bit_set(after[base(c) + 1], ft.0) && !bit_set(
        after[base(c) + 2],
        ft.0,
    ) && !bit_set(after[base(c) + 3], ft.0) && !bit_set(after[base(c) + 4], ft.0) && !bit_set(
        after[base(c) + 5],
        ft.0,
    ));
}

/// Every listed move leaves the mover's own king unattacked.
pub proof fn lemma_listed_moves_are_legal(
    b: Seq<u64>,
    prev: Option<Seq<u64>>,
    c: PieceColor,
    e: (String, BitBoard),
)
    requires
        named_entry_ok(b, prev, c, e),
    ensures
        !in_check(e.1@, c),
{
    reveal(is_legal_move);
}

/// Reading back the notation of a generated move gives the origin and
/// destination squares whose move produced its position.
pub proof fn lemma_generated_notation_round_trip(
    b: Seq<u64>,
    prev: Option<Seq<u64>>,
    c: PieceColor,
    m: BitBoardMove,
)
    requires
        entry_ok(b, prev, c, m),
    ensures
        parse_move(notation(entry_from(m), entry_to(m))) == Some((entry_from(m), entry_to(m))),
        m.1@ == apply_move(b, c, entry_from(m), entry_to(m)),
        !in_check(m.1@, c),
{
    reveal(is_legal_move);
    lemma_notation_round_trip(entry_from(m), entry_to(m));
}

} // verus!
