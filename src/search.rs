use vstd::prelude::*;
use crate::evaluation::{
    evaluation, simple_board_evaluation_with_position_bitboard, lemma_evaluation_bounded,
    MATE_LOW, MATE_HIGH, MAX_DEPTH,
};
use crate::movegen::{
    successors, opt_view, generate_possible_moves, generate_moves, is_legal_move, apply_move,
    named_entry_ok, named_before, move_before,
};
use crate::position::BitBoard;
use crate::square::{parse_move, notation};
use crate::tables::Constants;
use crate::types::{PieceColor, ChessError, opposite};

verus! {

/// The better of two scores for `c`: the larger for White, the smaller for
/// Black; on a tie the first stays.
pub open spec fn better(c: PieceColor, kept: int, v: int) -> int {
    match c {
        PieceColor::White => if v > kept {
            v
        } else {
            kept
        },
        PieceColor::Black => if v < kept {
            v
        } else {
            kept
        },
    }
}

/// The score `c` starts from before seeing any move.
pub open spec fn worst(c: PieceColor) -> int {
    match c {
        PieceColor::White => i32::MIN as int,
        PieceColor::Black => i32::MAX as int,
    }
}

/// The minimax value of `b` with `c` to move, looking `depth` plies ahead:
/// the evaluation at depth 0 or when `c` has no legal move, and otherwise
/// the best over the successors of the values with the other side to move.
pub open spec fn minimax_value(b: Seq<u64>, prev: Option<Seq<u64>>, c: PieceColor, depth: nat) -> int
    decreases depth, 1nat, 0nat,
{
    let succ = successors(b, prev, c);
    if depth == 0 || succ.len() == 0 {
        evaluation(b, prev, depth as int)
    } else {
        best_value(b, prev, c, (depth - 1) as nat, succ.len())
    }
}

/// The best, for `c`, of the values of the first `n` successors of `b`
/// searched `depth` plies deep.
pub open spec fn best_value(
    b: Seq<u64>,
    prev: Option<Seq<u64>>,
    c: PieceColor,
    depth: nat,
    n: nat,
) -> int
    decreases depth + 1, 0nat, n,
{
    if n == 0 {
        worst(c)
    } else {
        better(
            c,
            best_value(b, prev, c, depth, (n - 1) as nat),
            minimax_value(successors(b, prev, c)[n - 1], Some(b), opposite(c), depth),
        )
    }
}

/// `r` is what an alpha-beta search with window (`alpha`, `beta`) may
/// answer for true value `v`: `v` itself inside the window, and outside it
/// a bound on the same side of the window that `v` lies on.
pub open spec fn fail_soft(r: int, v: int, alpha: int, beta: int) -> bool {
    &&& v <= alpha ==> v <= r <= alpha
    &&& alpha < v < beta ==> r == v
    &&& beta <= v ==> beta <= r <= v
}

/// Minimax values lie between the two checkmate scores.
pub proof fn lemma_minimax_bounded(b: Seq<u64>, prev: Option<Seq<u64>>, c: PieceColor, depth: nat)
    requires
        depth <= MAX_DEPTH,
    ensures
        MATE_LOW <= minimax_value(b, prev, c, depth) <= MATE_HIGH,
    decreases depth, 1nat, 0nat,
{
    let succ = successors(b, prev, c);
    if depth == 0 || succ.len() == 0 {
        lemma_evaluation_bounded(b, prev, depth as int);
    } else {
        lemma_best_bounded(b, prev, c, (depth - 1) as nat, succ.len());
    }
}

proof fn lemma_best_bounded(b: Seq<u64>, prev: Option<Seq<u64>>, c: PieceColor, depth: nat, n: nat)
    requires
        depth < MAX_DEPTH,
        n >= 1,
    ensures
        MATE_LOW <= best_value(b, prev, c, depth, n) <= MATE_HIGH,
    decreases depth + 1, 0nat, n,
{
    lemma_minimax_bounded(successors(b, prev, c)[n - 1], Some(b), opposite(c), depth);
    if n > 1 {
        lemma_best_bounded(b, prev, c, depth, (n - 1) as nat);
    } else {
        assert(best_value(b, prev, c, depth, 0) == worst(c));
    }
}

/// Seeing more successors never makes the best value worse for `c`.
proof fn lemma_best_monotone(
    b: Seq<u64>,
    prev: Option<Seq<u64>>,
    c: PieceColor,
    depth: nat,
    n1: nat,
    n2: nat,
)
    requires
        n1 <= n2,
    ensures
        c == PieceColor::White ==> best_value(b, prev, c, depth, n1) <= best_value(
            b,
            prev,
            c,
            depth,
            n2,
        ),
        c == PieceColor::Black ==> best_value(b, prev, c, depth, n1) >= best_value(
            b,
            prev,
            c,
            depth,
            n2,
        ),
    decreases n2,
{
    if n1 < n2 {
        lemma_best_monotone(b, prev, c, depth, n1, (n2 - 1) as nat);
    }
}

/// The minimax value of `board` with `turn` to move, `depth` plies deep;
/// with `pruning`, an alpha-beta search over the window (`alpha`, `beta`)
/// that stops expanding a node's children once the window closes.
fn minimax_helper(
    board: &BitBoard,
    prev_board: Option<&BitBoard>,
    turn: PieceColor,
    depth: i32,
    alpha: i32,
    beta: i32,
    pruning: bool,
    constants: &Constants,
) -> (r: i32)
    requires
        constants.wf(),
        0 <= depth <= MAX_DEPTH,
        pruning ==> alpha < beta,
    ensures
        !pruning ==> r == minimax_value(board@, opt_view(prev_board), turn, depth as nat),
        pruning ==> fail_soft(
            r as int,
            minimax_value(board@, opt_view(prev_board), turn, depth as nat),
            alpha as int,
            beta as int,
        ),
    decreases depth,
{
    let moves = generate_possible_moves(board, prev_board, turn, constants);
    if depth == 0 || moves.len() == 0 {
        let history: Vec<BitBoard> = Vec::new();
        return simple_board_evaluation_with_position_bitboard(
            board,
            prev_board,
            &history,
            depth,
            constants,
        );
    }
    let ghost b = board@;
    let ghost prev = opt_view(prev_board);
    let ghost succ = successors(b, prev, turn);
    let ghost d = (depth - 1) as nat;
    let maximizing = match turn {
        PieceColor::White => true,
        PieceColor::Black => false,
    };
    let mut ret: i32 = if maximizing {
        i32::MIN
    } else {
        i32::MAX
    };
    let mut a = alpha;
    let mut bt = beta;
    let mut cut = false;
    let mut i: usize = 0;
    while i < moves.len() && !cut
        invariant
            constants.wf(),
            1 <= depth <= MAX_DEPTH,
            d == depth - 1,
            b == board@,
            prev == opt_view(prev_board),
            succ == successors(b, prev, turn),
            maximizing == (turn == PieceColor::White),
            moves@.len() == succ.len(),
            forall|j: int| 0 <= j < moves@.len() ==> (#[trigger] moves@[j]).1@ == succ[j],
            0 <= i <= moves@.len(),
            !pruning ==> !cut && ret == best_value(b, prev, turn, d, i as nat),
            pruning ==> alpha < beta,
            pruning && !cut ==> {
                &&& fail_soft(ret as int, best_value(b, prev, turn, d, i as nat), alpha as int, beta as int)
                &&& maximizing ==> a == (if ret > alpha {
                    ret
                } else {
                    alpha
                }) && bt == beta
                &&& !maximizing ==> bt == (if ret < beta {
                    ret
                } else {
                    beta
                }) && a == alpha
                &&& a < bt
            },
            pruning && cut ==> fail_soft(
                ret as int,
                best_value(b, prev, turn, d, succ.len()),
                alpha as int,
                beta as int,
            ),
        decreases moves@.len() - i,
    {
        let ghost before = best_value(b, prev, turn, d, i as nat);
        let ghost v = minimax_value(succ[i as int], Some(b), opposite(turn), d);
        let eval = minimax_helper(
            &moves[i].1,
            Some(board),
            turn.opposite_color(),
            depth - 1,
            a,
            bt,
            pruning,
            constants,
        );
        assert(best_value(b, prev, turn, d, (i + 1) as nat) == better(turn, before, v));
        if maximizing {
            if eval > ret {
                ret = eval;
            }
            if eval > a {
                a = eval;
            }
        } else {
            if eval < ret {
                ret = eval;
            }
            if eval < bt {
                bt = eval;
            }
        }
        if pruning && bt <= a {
            cut = true;
            proof {
                lemma_best_monotone(b, prev, turn, d, (i + 1) as nat, succ.len());
            }
        }
        i = i + 1;
    }
    ret
}

/// The score of the position `child`, reached from `board` by a move of
/// `turn`, searched `depth - 1` plies deep; with or without pruning the
/// result is its exact minimax value. Each root move is scored on its own,
/// with the full window, so the moves can be scored in parallel.
pub fn score_root_move(
    board: &BitBoard,
    child: &BitBoard,
    turn: PieceColor,
    depth: i32,
    pruning: bool,
    constants: &Constants,
) -> (r: i32)
    requires
        constants.wf(),
        1 <= depth <= MAX_DEPTH,
    ensures
        r == minimax_value(child@, Some(board@), opposite(turn), (depth - 1) as nat),
{
    let r = minimax_helper(
        child,
        Some(board),
        turn.opposite_color(),
        depth - 1,
        i32::MIN,
        i32::MAX,
        pruning,
        constants,
    );
    proof {
        lemma_minimax_bounded(child@, Some(board@), opposite(turn), (depth - 1) as nat);
    }
    r
}

/// `v` is strictly worse than `score` for `c`: smaller for White, larger
/// for Black.
pub open spec fn worse(c: PieceColor, v: int, score: int) -> bool {
    match c {
        PieceColor::White => v < score,
        PieceColor::Black => v > score,
    }
}

/// `s` is the notation of a legal move of `c` whose successor has minimax
/// value `score` at `depth - 1` plies, and every legal move before it (by
/// origin, then destination square) scores strictly worse: the first of
/// equally scored best moves.
pub open spec fn root_move_scores(
    b: Seq<u64>,
    prev: Option<Seq<u64>>,
    c: PieceColor,
    depth: nat,
    s: Seq<char>,
    score: int,
) -> bool {
    match parse_move(s) {
        Some(ft) => {
            &&& s == notation(ft.0, ft.1)
            &&& is_legal_move(b, prev, c, ft.0, ft.1)
            &&& minimax_value(apply_move(b, c, ft.0, ft.1), Some(b), opposite(c), (depth - 1) as nat)
                == score
            &&& forall|f: u64, t: u64|
                #![trigger is_legal_move(b, prev, c, f, t), move_before(f, t, ft.0, ft.1)]
                is_legal_move(b, prev, c, f, t) && move_before(f, t, ft.0, ft.1) ==> worse(
                    c,
                    minimax_value(apply_move(b, c, f, t), Some(b), opposite(c), (depth - 1) as nat),
                    score,
                )
        },
        None => false,
    }
}

/// What a search of `depth` plies answers: `NoMovesFound` exactly when the
/// side to move has no legal move, and otherwise a best move with the
/// minimax value of the position.
pub open spec fn search_outcome(
    b: Seq<u64>,
    prev: Option<Seq<u64>>,
    c: PieceColor,
    depth: nat,
    r: Result<(String, i32), ChessError>,
) -> bool {
    match r {
        Ok(res) => {
            &&& successors(b, prev, c).len() > 0
            &&& res.1 == minimax_value(b, prev, c, depth)
            &&& root_move_scores(b, prev, c, depth, res.0@, res.1 as int)
        },
        Err(e) => e == ChessError::NoMovesFound && successors(b, prev, c).len() == 0,
    }
}

/// Searches `depth` plies ahead for `turn` and answers a best move (the
/// first of equally scored ones) with its score; with `pruning` the
/// search below each root move uses alpha-beta pruning.
pub fn search(
    board: &BitBoard,
    prev_board: Option<&BitBoard>,
    turn: PieceColor,
    depth: i32,
    pruning: bool,
    constants: &Constants,
) -> (r: Result<(String, i32), ChessError>)
    requires
        constants.wf(),
        1 <= depth <= MAX_DEPTH,
    ensures
        search_outcome(board@, opt_view(prev_board), turn, depth as nat, r),
{
    let ghost b = board@;
    let ghost prev = opt_view(prev_board);
    let ghost succ = successors(b, prev, turn);
    let ghost d = (depth - 1) as nat;
    let moves = generate_moves(board, prev_board, turn, constants);
    if moves.len() == 0 {
        return Err(ChessError::NoMovesFound);
    }
    let maximizing = match turn {
        PieceColor::White => true,
        PieceColor::Black => false,
    };
    let mut best: i32 = if maximizing {
        i32::MIN
    } else {
        i32::MAX
    };
    let mut best_idx: usize = 0;
    let mut i: usize = 0;
    while i < moves.len()
        invariant
            constants.wf(),
            1 <= depth <= MAX_DEPTH,
            d == depth - 1,
            b == board@,
            prev == opt_view(prev_board),
            succ == successors(b, prev, turn),
            maximizing == (turn == PieceColor::White),
            moves@.len() == succ.len(),
            forall|j: int| 0 <= j < moves@.len() ==> (#[trigger] moves@[j]).1@ == succ[j],
            forall|j: int|
                0 <= j < moves@.len() ==> named_entry_ok(b, prev, turn, #[trigger] moves@[j]),
            0 <= i <= moves@.len(),
            best == best_value(b, prev, turn, d, i as nat),
            i > 0 ==> best_idx < i && minimax_value(succ[best_idx as int], Some(b), opposite(turn), d)
                == best,
            forall|j: int|
                0 <= j < i ==> !worse(
                    turn,
                    best as int,
                    minimax_value(#[trigger] succ[j], Some(b), opposite(turn), d),
                ),
            forall|j: int|
                0 <= j < best_idx ==> worse(
                    turn,
                    minimax_value(#[trigger] succ[j], Some(b), opposite(turn), d),
                    best as int,
                ),
            forall|f: u64, t: u64|
                is_legal_move(b, prev, turn, f, t) ==> exists|k: int|
                    0 <= k < moves@.len() && parse_move((#[trigger] moves@[k]).0@) == Some((f, t)),
            forall|k1: int, k2: int|
                0 <= k1 < k2 < moves@.len() ==> named_before(
                    (#[trigger] moves@[k1]).0@,
                    (#[trigger] moves@[k2]).0@,
                ),
        decreases moves@.len() - i,
    {
        let eval = score_root_move(board, &moves[i].1, turn, depth, pruning, constants);
        proof {
            lemma_minimax_bounded(succ[i as int], Some(b), opposite(turn), d);
        }
        assert(best_value(b, prev, turn, d, (i + 1) as nat) == better(turn, best as int, eval as int));
        if (maximizing && eval > best) || (!maximizing && eval < best) {
            best = eval;
            best_idx = i;
        }
        i = i + 1;
    }
    let name = moves[best_idx].0.clone();
    proof {
        let bi = best_idx as int;
        assert(named_entry_ok(b, prev, turn, moves@[bi]));
        let ft = parse_move(moves@[bi].0@).unwrap();
        assert forall|f: u64, t: u64|
            #![trigger is_legal_move(b, prev, turn, f, t), move_before(f, t, ft.0, ft.1)]
            is_legal_move(b, prev, turn, f, t) && move_before(f, t, ft.0, ft.1) implies worse(
            turn,
            minimax_value(apply_move(b, turn, f, t), Some(b), opposite(turn), d),
            best as int,
        ) by {
            let k = choose|k: int|
                0 <= k < moves@.len() && parse_move((#[trigger] moves@[k]).0@) == Some((f, t));
            assert(named_entry_ok(b, prev, turn, moves@[k]));
            if k > bi {
                assert(named_before(moves@[bi].0@, moves@[k].0@));
            }
            assert(k != bi);
            assert(k < bi);
            assert(moves@[k].1@ == succ[k]);
        }
    }
    Ok((name, best))
}

/// Pruning never changes the score: two searches of the same position and
/// depth, one with pruning and one without, answer the same score (the
/// moves may differ only among equally scored ones).
pub proof fn lemma_pruning_preserves_score(
    b: Seq<u64>,
    prev: Option<Seq<u64>>,
    c: PieceColor,
    depth: nat,
    pruned: Result<(String, i32), ChessError>,
    full: Result<(String, i32), ChessError>,
)
    requires
        search_outcome(b, prev, c, depth, pruned),
        search_outcome(b, prev, c, depth, full),
    ensures
        pruned is Ok <==> full is Ok,
        pruned is Ok ==> pruned->Ok_0.1 == full->Ok_0.1,
{
}

/// Combines independently scored root moves: the best score for `turn`
/// (the largest for White, the smallest for Black; the first on a tie)
/// with the move that has it, or `None` when there is none.
pub fn select_best(turn: PieceColor, scored: &Vec<(i32, String)>) -> (r: Option<(String, i32)>)
    ensures
        r is None <==> scored@.len() == 0,
        r matches Some(res) ==> {
            &&& exists|k: int|
                0 <= k < scored@.len() && (#[trigger] scored@[k]).0 == res.1 && scored@[k].1@
                    == res.0@ && forall|j: int|
                    0 <= j < k ==> worse(turn, (#[trigger] scored@[j]).0 as int, res.1 as int)
            &&& forall|k: int|
                0 <= k < scored@.len() ==> (turn == PieceColor::White ==> (#[trigger] scored@[k]).0
                    <= res.1) && (turn == PieceColor::Black ==> scored@[k].0 >= res.1)
        },
{
    if scored.len() == 0 {
        return None;
    }
    let mut best_idx: usize = 0;
    let mut i: usize = 1;
    while i < scored.len()
        invariant
            1 <= i <= scored@.len(),
            best_idx < i,
            forall|k: int|
                0 <= k < i ==> (turn == PieceColor::White ==> (#[trigger] scored@[k]).0
                    <= scored@[best_idx as int].0) && (turn == PieceColor::Black
                    ==> scored@[k].0 >= scored@[best_idx as int].0),
            forall|k: int|
                0 <= k < best_idx ==> worse(
                    turn,
                    (#[trigger] scored@[k]).0 as int,
                    scored@[best_idx as int].0 as int,
                ),
        decreases scored@.len() - i,
    {
        let better_found = match turn {
            PieceColor::White => scored[i].0 > scored[best_idx].0,
            PieceColor::Black => scored[i].0 < scored[best_idx].0,
        };
        if better_found {
            best_idx = i;
        }
        i = i + 1;
    }
    let res = (scored[best_idx].1.clone(), scored[best_idx].0);
    assert(scored@[best_idx as int].0 == res.1 && scored@[best_idx as int].1@ == res.0@);
    Some(res)
}

} // verus!
