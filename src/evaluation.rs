use vstd::prelude::*;
use crate::bits::{file_of, rank_of};
use crate::movegen::opt_view;
use crate::position::{BitBoard, kind_at, piece_kind_at, NO_PIECE};
use crate::tables::Constants;
use crate::termination::{game_end, bitboard_check_game_end};
use crate::types::{PieceColor, EndType};

verus! {

/// Positional bonus of a White pawn, indexed by `8 * file + rank`.
pub open spec fn white_pawn_table() -> Seq<int> {
    seq![
        0, 5, 5, 0, 5, 10, 50, 0,
        0, 10, -5, 0, 5, 10, 50, 0,
        0, 10, -10, 0, 10, 20, 50, 0,
        0, -20, 0, 20, 25, 30, 50, 0,
        0, -20, 0, 20, 25, 30, 50, 0,
        0, 10, -10, 0, 10, 20, 50, 0,
        0, 10, -5, 0, 5, 10, 50, 0,
        0, 5, 5, 0, 5, 10, 50, 0,
    ]
}

/// Positional bonus of a White rook, indexed by `8 * file + rank`.
pub open spec fn white_rook_table() -> Seq<int> {
    seq![
        0, -5, -5, -5, -5, -5, 5, 0,
        0, 0, 0, 0, 0, 0, 10, 0,
        0, 0, 0, 0, 0, 0, 10, 0,
        5, 0, 0, 0, 0, 0, 10, 0,
        5, 0, 0, 0, 0, 0, 10, 0,
        0, 0, 0, 0, 0, 0, 10, 0,
        0, 0, 0, 0, 0, 0, 10, 0,
        0, -5, -5, -5, -5, -5, 5, 0,
    ]
}

/// Positional bonus of a White knight, indexed by `8 * file + rank`.
pub open spec fn white_knight_table() -> Seq<int> {
    seq![
        -50, -40, -30, -30, -30, -30, -40, -50,
        -40, -20, 5, 0, 5, 0, -20, -40,
        -30, 0, 10, 15, 15, 10, 0, -30,
        -30, 5, 15, 20, 20, 15, 0, -30,
        -30, 5, 15, 20, 20, 15, 0, -30,
        -30, 0, 10, 15, 15, 10, 0, -30,
        -40, -20, 5, 0, 5, 0, -20, -40,
        -50, -40, -30, -30, -30, -30, -40, -50,
    ]
}

/// Positional bonus of a White bishop, indexed by `8 * file + rank`.
pub open spec fn white_bishop_table() -> Seq<int> {
    seq![
        -20, -10, -10, -10, -10, -10, -10, -20,
        -10, 5, 10, 0, 5, 0, 0, -10,
        -10, 0, 10, 10, 5, 5, 0, -10,
        -10, 0, 10, 10, 10, 10, 0, -10,
        -10, 0, 10, 10, 10, 10, 0, -10,
        -10, 0, 10, 10, 5, 5, 0, -10,
        -10, 5, 10, 0, 5, 0, 0, -10,
        -20, -10, -10, -10, -10, -10, -10, -20,
    ]
}

/// Positional bonus of a White queen, indexed by `8 * file + rank`.
pub open spec fn white_queen_table() -> Seq<int> {
    seq![
        -20, -10, -10, 0, -5, -10, -10, -20,
        -10, 0, 5, 0, 0, 0, 0, 10,
        -10, 5, 5, 5, 5, 5, 0, -10,
        -5, 0, 5, 5, 5, 5, 0, -5,
        -5, 0, 5, 5, 5, 5, 0, -5,
        -10, 0, 5, 5, 5, 5, 0, -10,
        -10, 0, 5, 0, 0, 0, 0, 10,
        -20, -10, -10, 0, -5, -10, -10, -20,
    ]
}

/// Positional bonus of a White king, indexed by `8 * file + rank`.
pub open spec fn white_king_table() -> Seq<int> {
    seq![
        20, 20, -10, -20, -30, -30, -30, -30,
        30, 20, -20, -30, -40, -40, -40, -40,
        10, 0, -20, -30, -40, -40, -40, -40,
        0, 0, -20, -40, -50, -50, -50, -50,
        0, 0, -20, -40, -50, -50, -50, -50,
        10, 0, -20, -30, -40, -40, -40, -40,
        30, 20, -20, -30, -40, -40, -40, -40,
        20, 20, -10, -20, -30, -30, -30, -30,
    ]
}

/// Positional bonus of a Black pawn, indexed by `8 * file + rank`.
pub open spec fn black_pawn_table() -> Seq<int> {
    seq![
        0, 50, 10, 5, 0, 5, 5, 0,
        0, 50, 10, 5, 0, -5, 10, 0,
        0, 50, 20, 10, 0, -10, 10, 0,
        0, 50, 30, 25, 20, 0, -20, 0,
        0, 50, 30, 25, 20, 0, -20, 0,
        0, 50, 20, 10, 0, -10, 10, 0,
        0, 50, 10, 5, 5, -5, 10, 0,
        0, 50, 10, 5, 5, 5, 5, 0,
    ]
}

/// Positional bonus of a Black rook, indexed by `8 * file + rank`.
pub open spec fn black_rook_table() -> Seq<int> {
    seq![
        0, 5, -5, -5, -5, -5, -5, 0,
        0, 10, 0, 0, 0, 0, 0, 0,
        0, 10, 0, 0, 0, 0, 0, 0,
        0, 10, 0, 0, 0, 0, 0, 5,
        0, 10, 0, 0, 0, 0, 0, 5,
        0, 10, 0, 0, 0, 0, 0, 0,
        0, 10, 0, 0, 0, 0, 0, 0,
        0, 5, -5, -5, -5, -5, -5, 0,
    ]
}

/// Positional bonus of a Black knight, indexed by `8 * file + rank`.
pub open spec fn black_knight_table() -> Seq<int> {
    seq![
        -50, -40, -30, -30, -30, -30, -40, -50,
        -40, -20, 0, 5, 0, 5, -20, -40,
        -30, 0, 10, 15, 15, 10, 0, -30,
        -30, 0, 15, 20, 20, 15, 5, -30,
        -30, 0, 15, 20, 20, 15, 5, -30,
        -30, 0, 10, 15, 15, 10, 0, -30,
        -40, -20, 0, 5, 0, 5, -20, -40,
        -50, -40, -30, -30, -30, -30, -40, -50,
    ]
}

/// Positional bonus of a Black bishop, indexed by `8 * file + rank`.
pub open spec fn black_bishop_table() -> Seq<int> {
    seq![
        -20, -10, -10, -10, -10, -10, -10, -20,
        -10, 0, 0, 5, 0, 10, 5, -10,
        -10, 0, 5, 5, 10, 10, 0, -10,
        -10, 0, 10, 10, 10, 10, 0, -10,
        -10, 0, 10, 10, 10, 10, 0, -10,
        -10, 0, 5, 5, 10, 10, 0, -10,
        -10, 0, 0, 5, 0, 10, 5, -10,
        -20, -10, -10, -10, -10, -10, -10, -20,
    ]
}

/// Positional bonus of a Black queen, indexed by `8 * file + rank`.
pub open spec fn black_queen_table() -> Seq<int> {
    seq![
        -20, -10, -10, -5, 0, -10, -10, -20,
        10, 0, 0, 0, 0, 5, 0, -10,
        -10, 0, 5, 5, 5, 5, 5, -10,
        -5, 0, 5, 5, 5, 5, 0, -5,
        -5, 0, 5, 5, 5, 5, 0, -5,
        -10, 0, 5, 5, 5, 5, 0, -10,
        10, 0, 0, 0, 0, 0, 0, -10,
        -20, -10, -10, -5, 0, -10, -10, -20,
    ]
}

/// Positional bonus of a Black king, indexed by `8 * file + rank`.
pub open spec fn black_king_table() -> Seq<int> {
    seq![
        -30, -30, -30, -30, -20, -10, 20, 20,
        -40, -40, -40, -40, -30, -20, 0, 10,
        -40, -40, -40, -40, -30, -20, 0, 10,
        -50, -50, -50, -50, -40, -20, 0, 0,
        -50, -50, -50, -50, -40, -20, 0, 0,
        -40, -40, -40, -40, -30, -20, 0, 10,
        -40, -40, -40, -40, -30, -20, 0, 10,
        -30, -30, -30, -30, -20, -10, 20, 20,
    ]
}

/// The positional bonus table `t`: White's pawn, rook, knight, bishop,
/// queen and king at 0 to 5, Black's at 6 to 11.
pub open spec fn placement_table(t: usize) -> Seq<int> {
    match t {
        0 => white_pawn_table(),
        1 => white_rook_table(),
        2 => white_knight_table(),
        3 => white_bishop_table(),
        4 => white_queen_table(),
        5 => white_king_table(),
        6 => black_pawn_table(),
        7 => black_rook_table(),
        8 => black_knight_table(),
        9 => black_bishop_table(),
        10 => black_queen_table(),
        _ => black_king_table(),
    }
}

fn white_pawn_score(idx: usize) -> (v: i32)
    requires
        idx < 64,
    ensures
        v == white_pawn_table()[idx as int],
        -50 <= v <= 50,
{
    let table: [i32; 64] = [
        0, 5, 5, 0, 5, 10, 50, 0,
        0, 10, -5, 0, 5, 10, 50, 0,
        0, 10, -10, 0, 10, 20, 50, 0,
        0, -20, 0, 20, 25, 30, 50, 0,
        0, -20, 0, 20, 25, 30, 50, 0,
        0, 10, -10, 0, 10, 20, 50, 0,
        0, 10, -5, 0, 5, 10, 50, 0,
        0, 5, 5, 0, 5, 10, 50, 0,
    ];
    table[idx]
}

fn white_rook_score(idx: usize) -> (v: i32)
    requires
        idx < 64,
    ensures
        v == white_rook_table()[idx as int],
        -50 <= v <= 50,
{
    let table: [i32; 64] = [
        0, -5, -5, -5, -5, -5, 5, 0,
        0, 0, 0, 0, 0, 0, 10, 0,
        0, 0, 0, 0, 0, 0, 10, 0,
        5, 0, 0, 0, 0, 0, 10, 0,
        5, 0, 0, 0, 0, 0, 10, 0,
        0, 0, 0, 0, 0, 0, 10, 0,
        0, 0, 0, 0, 0, 0, 10, 0,
        0, -5, -5, -5, -5, -5, 5, 0,
    ];
    table[idx]
}

fn white_knight_score(idx: usize) -> (v: i32)
    requires
        idx < 64,
    ensures
        v == white_knight_table()[idx as int],
        -50 <= v <= 50,
{
    let table: [i32; 64] = [
        -50, -40, -30, -30, -30, -30, -40, -50,
        -40, -20, 5, 0, 5, 0, -20, -40,
        -30, 0, 10, 15, 15, 10, 0, -30,
        -30, 5, 15, 20, 20, 15, 0, -30,
        -30, 5, 15, 20, 20, 15, 0, -30,
        -30, 0, 10, 15, 15, 10, 0, -30,
        -40, -20, 5, 0, 5, 0, -20, -40,
        -50, -40, -30, -30, -30, -30, -40, -50,
    ];
    table[idx]
}

fn white_bishop_score(idx: usize) -> (v: i32)
    requires
        idx < 64,
    ensures
        v == white_bishop_table()[idx as int],
        -50 <= v <= 50,
{
    let table: [i32; 64] = [
        -20, -10, -10, -10, -10, -10, -10, -20,
        -10, 5, 10, 0, 5, 0, 0, -10,
        -10, 0, 10, 10, 5, 5, 0, -10,
        -10, 0, 10, 10, 10, 10, 0, -10,
        -10, 0, 10, 10, 10, 10, 0, -10,
        -10, 0, 10, 10, 5, 5, 0, -10,
        -10, 5, 10, 0, 5, 0, 0, -10,
        -20, -10, -10, -10, -10, -10, -10, -20,
    ];
    table[idx]
}

fn white_queen_score(idx: usize) -> (v: i32)
    requires
        idx < 64,
    ensures
        v == white_queen_table()[idx as int],
        -50 <= v <= 50,
{
    let table: [i32; 64] = [
        -20, -10, -10, 0, -5, -10, -10, -20,
        -10, 0, 5, 0, 0, 0, 0, 10,
        -10, 5, 5, 5, 5, 5, 0, -10,
        -5, 0, 5, 5, 5, 5, 0, -5,
        -5, 0, 5, 5, 5, 5, 0, -5,
        -10, 0, 5, 5, 5, 5, 0, -10,
        -10, 0, 5, 0, 0, 0, 0, 10,
        -20, -10, -10, 0, -5, -10, -10, -20,
    ];
    table[idx]
}

fn white_king_score(idx: usize) -> (v: i32)
    requires
        idx < 64,
    ensures
        v == white_king_table()[idx as int],
        -50 <= v <= 50,
{
    let table: [i32; 64] = [
        20, 20, -10, -20, -30, -30, -30, -30,
        30, 20, -20, -30, -40, -40, -40, -40,
        10, 0, -20, -30, -40, -40, -40, -40,
        0, 0, -20, -40, -50, -50, -50, -50,
        0, 0, -20, -40, -50, -50, -50, -50,
        10, 0, -20, -30, -40, -40, -40, -40,
        30, 20, -20, -30, -40, -40, -40, -40,
        20, 20, -10, -20, -30, -30, -30, -30,
    ];
    table[idx]
}

fn black_pawn_score(idx: usize) -> (v: i32)
    requires
        idx < 64,
    ensures
        v == black_pawn_table()[idx as int],
        -50 <= v <= 50,
{
    let table: [i32; 64] = [
        0, 50, 10, 5, 0, 5, 5, 0,
        0, 50, 10, 5, 0, -5, 10, 0,
        0, 50, 20, 10, 0, -10, 10, 0,
        0, 50, 30, 25, 20, 0, -20, 0,
        0, 50, 30, 25, 20, 0, -20, 0,
        0, 50, 20, 10, 0, -10, 10, 0,
        0, 50, 10, 5, 5, -5, 10, 0,
        0, 50, 10, 5, 5, 5, 5, 0,
    ];
    table[idx]
}

fn black_rook_score(idx: usize) -> (v: i32)
    requires
        idx < 64,
    ensures
        v == black_rook_table()[idx as int],
        -50 <= v <= 50,
{
    let table: [i32; 64] = [
        0, 5, -5, -5, -5, -5, -5, 0,
        0, 10, 0, 0, 0, 0, 0, 0,
        0, 10, 0, 0, 0, 0, 0, 0,
        0, 10, 0, 0, 0, 0, 0, 5,
        0, 10, 0, 0, 0, 0, 0, 5,
        0, 10, 0, 0, 0, 0, 0, 0,
        0, 10, 0, 0, 0, 0, 0, 0,
        0, 5, -5, -5, -5, -5, -5, 0,
    ];
    table[idx]
}

fn black_knight_score(idx: usize) -> (v: i32)
    requires
        idx < 64,
    ensures
        v == black_knight_table()[idx as int],
        -50 <= v <= 50,
{
    let table: [i32; 64] = [
        -50, -40, -30, -30, -30, -30, -40, -50,
        -40, -20, 0, 5, 0, 5, -20, -40,
        -30, 0, 10, 15, 15, 10, 0, -30,
        -30, 0, 15, 20, 20, 15, 5, -30,
        -30, 0, 15, 20, 20, 15, 5, -30,
        -30, 0, 10, 15, 15, 10, 0, -30,
        -40, -20, 0, 5, 0, 5, -20, -40,
        -50, -40, -30, -30, -30, -30, -40, -50,
    ];
    table[idx]
}

fn black_bishop_score(idx: usize) -> (v: i32)
    requires
        idx < 64,
    ensures
        v == black_bishop_table()[idx as int],
        -50 <= v <= 50,
{
    let table: [i32; 64] = [
        -20, -10, -10, -10, -10, -10, -10, -20,
        -10, 0, 0, 5, 0, 10, 5, -10,
        -10, 0, 5, 5, 10, 10, 0, -10,
        -10, 0, 10, 10, 10, 10, 0, -10,
        -10, 0, 10, 10, 10, 10, 0, -10,
        -10, 0, 5, 5, 10, 10, 0, -10,
        -10, 0, 0, 5, 0, 10, 5, -10,
        -20, -10, -10, -10, -10, -10, -10, -20,
    ];
    table[idx]
}

fn black_queen_score(idx: usize) -> (v: i32)
    requires
        idx < 64,
    ensures
        v == black_queen_table()[idx as int],
        -50 <= v <= 50,
{
    let table: [i32; 64] = [
        -20, -10, -10, -5, 0, -10, -10, -20,
        10, 0, 0, 0, 0, 5, 0, -10,
        -10, 0, 5, 5, 5, 5, 5, -10,
        -5, 0, 5, 5, 5, 5, 0, -5,
        -5, 0, 5, 5, 5, 5, 0, -5,
        -10, 0, 5, 5, 5, 5, 0, -10,
        10, 0, 0, 0, 0, 0, 0, -10,
        -20, -10, -10, -5, 0, -10, -10, -20,
    ];
    table[idx]
}

fn black_king_score(idx: usize) -> (v: i32)
    requires
        idx < 64,
    ensures
        v == black_king_table()[idx as int],
        -50 <= v <= 50,
{
    let table: [i32; 64] = [
        -30, -30, -30, -30, -20, -10, 20, 20,
        -40, -40, -40, -40, -30, -20, 0, 10,
        -40, -40, -40, -40, -30, -20, 0, 10,
        -50, -50, -50, -50, -40, -20, 0, 0,
        -50, -50, -50, -50, -40, -20, 0, 0,
        -40, -40, -40, -40, -30, -20, 0, 10,
        -40, -40, -40, -40, -30, -20, 0, 10,
        -30, -30, -30, -30, -20, -10, 20, 20,
    ];
    table[idx]
}

/// The bonus of table `t` at index `idx`.
fn placement_score(t: usize, idx: usize) -> (v: i32)
    requires
        t < 12,
        idx < 64,
    ensures
        v == placement_table(t)[idx as int],
        -50 <= v <= 50,
{
    match t {
        0 => white_pawn_score(idx),
        1 => white_rook_score(idx),
        2 => white_knight_score(idx),
        3 => white_bishop_score(idx),
        4 => white_queen_score(idx),
        5 => white_king_score(idx),
        6 => black_pawn_score(idx),
        7 => black_rook_score(idx),
        8 => black_knight_score(idx),
        9 => black_bishop_score(idx),
        10 => black_queen_score(idx),
        _ => black_king_score(idx),
    }
}

/// The material value of a piece kind: pawn 100, knight and bishop 300,
/// rook 500, queen 900, king 0.
pub open spec fn piece_value(k: int) -> int {
    if k == 0 {
        100
    } else if k == 1 {
        500
    } else if k == 2 || k == 3 {
        300
    } else if k == 4 {
        900
    } else {
        0
    }
}

/// What the piece on `s` adds to the score: material plus positional bonus,
/// counted positive for White and negative for Black.
pub open spec fn square_score(b: Seq<u64>, s: u64) -> int {
    let w = kind_at(b, PieceColor::White, s);
    let k = kind_at(b, PieceColor::Black, s);
    let idx = file_of(s) * 8 + rank_of(s);
    if w < 6 {
        piece_value(w) + placement_table(w as usize)[idx]
    } else if k < 6 {
        -(piece_value(k) + placement_table((6 + k) as usize)[idx])
    } else {
        0
    }
}

/// The score of the squares below `n`.
pub open spec fn material_upto(b: Seq<u64>, n: nat) -> int
    decreases n,
{
    if n == 0 {
        0
    } else {
        material_upto(b, (n - 1) as nat) + square_score(b, (n - 1) as u64)
    }
}

/// The static score of a position: material and positional bonuses, White
/// positive.
pub open spec fn material(b: Seq<u64>) -> int {
    material_upto(b, 64)
}

/// Half of `i32::MIN`: the score of White being checkmated, before the
/// depth bias.
pub const MATE_LOW: i32 = -1073741824;

/// Half of `i32::MAX`: the score of Black being checkmated, before the
/// depth bias.
pub const MATE_HIGH: i32 = 1073741823;

/// Deepest search the evaluator and the search accept. The checkmate
/// scores are biased by the remaining depth; below this bound a biased
/// White mate (`MATE_LOW + depth`) stays under every material score and a
/// biased Black mate (`MATE_HIGH - depth`) above it, so mates always rank
/// beyond material. No search of this many plies could finish anyway.
pub const MAX_DEPTH: i32 = 1000;

/// The evaluation of a position: a checkmate of White scores `MATE_LOW +
/// depth`, of Black `MATE_HIGH - depth`, a tie 0, and otherwise the material
/// score.
pub open spec fn evaluation(b: Seq<u64>, prev: Option<Seq<u64>>, depth: int) -> int {
    match game_end(b, prev, PieceColor::White) {
        EndType::Checkmate(_) => MATE_LOW + depth,
        EndType::Tie => 0,
        EndType::NoEnd => match game_end(b, prev, PieceColor::Black) {
            EndType::Checkmate(_) => MATE_HIGH - depth,
            EndType::Tie => 0,
            EndType::NoEnd => material(b),
        },
    }
}

/// Every positional bonus lies between -50 and 50.
pub proof fn lemma_placement_bounded(t: usize, i: int)
    requires
        0 <= i < 64,
    ensures
        -50 <= placement_table(t)[i] <= 50,
{
}

/// The static score stays within 950 per square.
pub proof fn lemma_material_bounded(b: Seq<u64>, n: nat)
    requires
        n <= 64,
    ensures
        -950 * n <= material_upto(b, n) <= 950 * n,
    decreases n,
{
    if n > 0 {
        lemma_material_bounded(b, (n - 1) as nat);
        let s = (n - 1) as u64;
        let w = kind_at(b, PieceColor::White, s);
        let k = kind_at(b, PieceColor::Black, s);
        let idx = file_of(s) * 8 + rank_of(s);
        assert(0 <= idx < 64);
        if w < 6 {
            lemma_placement_bounded(w as usize, idx);
        } else if k < 6 {
            lemma_placement_bounded((6 + k) as usize, idx);
        }
    }
}

/// Evaluations lie between the two checkmate scores.
pub proof fn lemma_evaluation_bounded(b: Seq<u64>, prev: Option<Seq<u64>>, depth: int)
    requires
        0 <= depth <= MAX_DEPTH,
    ensures
        MATE_LOW <= evaluation(b, prev, depth) <= MATE_HIGH,
{
    lemma_material_bounded(b, 64);
}

fn value_of_kind(k: usize) -> (v: i32)
    ensures
        v == piece_value(k as int),
{
    if k == 0 {
        100
    } else if k == 1 {
        500
    } else if k == 2 || k == 3 {
        300
    } else if k == 4 {
        900
    } else {
        0
    }
}

fn score_square(board: &BitBoard, s: u64) -> (v: i32)
    requires
        s < 64,
    ensures
        v == square_score(board@, s),
        -950 <= v <= 950,
{
    let w = piece_kind_at(board, PieceColor::White, s);
    let k = piece_kind_at(board, PieceColor::Black, s);
    let idx = ((s % 8) * 8 + s / 8) as usize;
    if w != NO_PIECE {
        value_of_kind(w) + placement_score(w, idx)
    } else if k != NO_PIECE {
        -(value_of_kind(k) + placement_score(6 + k, idx))
    } else {
        0
    }
}

/// The material and positional score of a position, White positive.
pub fn material_score(board: &BitBoard) -> (v: i32)
    ensures
        v == material(board@),
{
    let mut acc: i32 = 0;
    let mut s: u64 = 0;
    while s < 64
        invariant
            s <= 64,
            acc == material_upto(board@, s as nat),
            -950 * s <= acc <= 950 * s,
        decreases 64 - s,
    {
        acc = acc + score_square(board, s);
        s = s + 1;
    }
    acc
}

/// The evaluation of a position (see `evaluation`); `board_history` is the
/// game so far, which the score does not depend on.
pub fn simple_board_evaluation_with_position_bitboard(
    board: &BitBoard,
    prev_board: Option<&BitBoard>,
    board_history: &Vec<BitBoard>,
    depth: i32,
    constants: &Constants,
) -> (v: i32)
    requires
        constants.wf(),
        0 <= depth <= MAX_DEPTH,
    ensures
        v == evaluation(board@, opt_view(prev_board), depth as int),
{
    match bitboard_check_game_end(board, prev_board, PieceColor::White, constants) {
        EndType::Checkmate(_) => {
            return MATE_LOW + depth;
        },
        EndType::Tie => {
            return 0;
        },
        EndType::NoEnd => {},
    }
    match bitboard_check_game_end(board, prev_board, PieceColor::Black, constants) {
        EndType::Checkmate(_) => MATE_HIGH - depth,
        EndType::Tie => 0,
        EndType::NoEnd => material_score(board),
    }
}

} // verus!
