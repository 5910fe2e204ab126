use vstd::prelude::*;
use crate::movegen::{successors, opt_view, generate_possible_moves};
use crate::position::{BitBoard, in_check, is_in_check};
use crate::tables::Constants;
use crate::types::{PieceColor, EndType};

verus! {

/// How the game stands for the side `c` to move: on while it has a legal
/// move; otherwise `c` is checkmated when its king is attacked, and it is a
/// tie when not.
pub open spec fn game_end(b: Seq<u64>, prev: Option<Seq<u64>>, c: PieceColor) -> EndType {
    if successors(b, prev, c).len() > 0 {
        EndType::NoEnd
    } else if in_check(b, c) {
        EndType::Checkmate(c)
    } else {
        EndType::Tie
    }
}

/// Classifies the position for the side `turn` to move: `NoEnd`,
/// `Checkmate(turn)` (the side to move is mated) or `Tie` (stalemate).
pub fn bitboard_check_game_end(
    bb: &BitBoard,
    prev_board: Option<&BitBoard>,
    turn: PieceColor,
    constants: &Constants,
) -> (r: EndType)
    requires
        constants.wf(),
    ensures
        r == game_end(bb@, opt_view(prev_board), turn),
{
    let possible_moves = generate_possible_moves(bb, prev_board, turn, constants);
    if possible_moves.len() == 0 {
        if is_in_check(bb, turn, constants) {
            EndType::Checkmate(turn)
        } else {
            EndType::Tie
        }
    } else {
        EndType::NoEnd
    }
}

} // verus!
