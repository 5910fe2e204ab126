use vstd::prelude::*;
use crate::position::{BitBoard, is_position};
use crate::bits::{bit_set, sq, lemma_has_or, lemma_has_single, lemma_bits_ext};
use crate::movegen::{
    generate_moves, successors, listed_move_ok, named_entry_ok, is_legal_move, apply_move,
    placed_kind, lemma_legal_move_squares,
};
use crate::square::parse_move;
use crate::position::{kind_at, piece_kind_at, reach, in_check, base, get_reach_board, NO_PIECE};
use crate::render::{drawing, get_bitboard_ascii};
use crate::tables::Constants;
use crate::termination::{game_end, bitboard_check_game_end};
use crate::types::{PieceColor, PieceType, EndType, ChessError, opposite};

verus! {

/// A piece on a square-by-square board; `moved` records whether it has
/// moved in this game.
#[derive(PartialEq, Eq, Structural, Clone, Copy, Debug)]
pub struct ChessPiece {
    pub typ: PieceType,
    pub color: PieceColor,
    pub moved: bool,
}

impl ChessPiece {
    /// A piece that has not moved yet.
    pub fn new(typ: PieceType, color: PieceColor) -> (r: ChessPiece)
        ensures
            r == (ChessPiece { typ, color, moved: false }),
    {
        ChessPiece { typ, color, moved: false }
    }
}

/// Index of the bitboard that holds pieces of this kind and color.
pub open spec fn set_index(p: ChessPiece) -> int {
    (match p.color {
        PieceColor::White => 0int,
        PieceColor::Black => 6int,
    }) + (match p.typ {
        PieceType::Pawn => 0int,
        PieceType::Rook => 1int,
        PieceType::Knight => 2int,
        PieceType::Bishop => 3int,
        PieceType::Queen => 4int,
        PieceType::King => 5int,
    })
}

/// A board held square by square: entry `8 * number + letter` is the
/// square of file `letter` and rank `number`.
#[derive(Clone, Debug)]
pub struct NormalBoard {
    squares: Vec<Option<ChessPiece>>,
}

impl View for NormalBoard {
    type V = Seq<Option<ChessPiece>>;

    closed spec fn view(&self) -> Seq<Option<ChessPiece>> {
        self.squares@
    }
}

pub open spec fn in_bounds(letter: int, number: int) -> bool {
    0 <= letter < 8 && 0 <= number < 8
}

/// The piece the standard starting position has on square `s`.
pub open spec fn start_piece(s: int) -> Option<ChessPiece> {
    let f = s % 8;
    let r = s / 8;
    let back = if f == 0 || f == 7 {
        PieceType::Rook
    } else if f == 1 || f == 6 {
        PieceType::Knight
    } else if f == 2 || f == 5 {
        PieceType::Bishop
    } else if f == 3 {
        PieceType::Queen
    } else {
        PieceType::King
    };
    if r == 0 {
        Some(ChessPiece { typ: back, color: PieceColor::White, moved: false })
    } else if r == 1 {
        Some(ChessPiece { typ: PieceType::Pawn, color: PieceColor::White, moved: false })
    } else if r == 6 {
        Some(ChessPiece { typ: PieceType::Pawn, color: PieceColor::Black, moved: false })
    } else if r == 7 {
        Some(ChessPiece { typ: back, color: PieceColor::Black, moved: false })
    } else {
        None
    }
}

pub open spec fn is_king_of(p: Option<ChessPiece>, c: PieceColor) -> bool {
    p matches Some(pc) && pc.typ == PieceType::King && pc.color == c
}

/// Two squares hold pieces of the same kind and color, or are both empty.
pub open spec fn same_piece(p: Option<ChessPiece>, q: Option<ChessPiece>) -> bool {
    match (p, q) {
        (None, None) => true,
        (Some(x), Some(y)) => x.typ == y.typ && x.color == y.color,
        _ => false,
    }
}

/// Two boards place the same pieces on the same squares.
pub open spec fn same_placement(a: Seq<Option<ChessPiece>>, b: Seq<Option<ChessPiece>>) -> bool {
    forall|s: int| 0 <= s < 64 ==> #[trigger] same_piece(a[s], b[s])
}

/// How many of the first `n` boards of `history` place the pieces as `b` does.
pub open spec fn count_same(b: Seq<Option<ChessPiece>>, history: Seq<NormalBoard>, n: nat) -> nat
    decreases n,
{
    if n == 0 {
        0
    } else {
        count_same(b, history, (n - 1) as nat) + if same_placement(b, history[n - 1]@) {
            1nat
        } else {
            0nat
        }
    }
}

/// The square holds a piece of bitboard index `i`.
pub open spec fn holds_set(p: Option<ChessPiece>, i: int) -> bool {
    match p {
        Some(pc) => set_index(pc) == i,
        None => false,
    }
}

/// Bitboard `i` of a square-by-square board, over its first `n` squares.
pub open spec fn set_upto(b: Seq<Option<ChessPiece>>, i: int, n: nat) -> u64
    decreases n,
{
    if n == 0 {
        0
    } else {
        set_upto(b, i, (n - 1) as nat) | (if holds_set(b[n - 1], i) {
            1u64 << ((n - 1) as u64)
        } else {
            0
        })
    }
}

/// The bitboard position of a square-by-square board.
pub open spec fn to_bitboard(b: Seq<Option<ChessPiece>>) -> Seq<u64> {
    Seq::new(12, |i: int| set_upto(b, i, 64))
}

pub open spec fn opt_board_view(prev: Option<&NormalBoard>) -> Option<Seq<u64>> {
    match prev {
        Some(p) => Some(to_bitboard(p@)),
        None => None,
    }
}

impl NormalBoard {
    pub open spec fn wf(&self) -> bool {
        self@.len() == 64
    }

    /// The piece on file `letter` and rank `number`; `OutsideBounds` off the board.
    pub fn get_piece(&self, letter: i32, number: i32) -> (r: Result<Option<ChessPiece>, ChessError>)
        requires
            self.wf(),
        ensures
            in_bounds(letter as int, number as int) ==> r == Ok::<Option<ChessPiece>, ChessError>(
                self@[number * 8 + letter],
            ),
            !in_bounds(letter as int, number as int) ==> r == Err::<Option<ChessPiece>, ChessError>(
                ChessError::OutsideBounds,
            ),
    {
        if letter < 0 || letter > 7 || number < 0 || number > 7 {
            return Err(ChessError::OutsideBounds);
        }
        Ok(self.squares[(number * 8 + letter) as usize])
    }

    /// Puts `piece` (or nothing) on file `letter` and rank `number`;
    /// `OutsideBounds`, with the board unchanged, off the board.
    pub fn set_piece(&mut self, letter: i32, number: i32, piece: Option<ChessPiece>) -> (r: Result<
        bool,
        ChessError,
    >)
        requires
            old(self).wf(),
        ensures
            final(self).wf(),
            in_bounds(letter as int, number as int) ==> r == Ok::<bool, ChessError>(true)
                && final(self)@ == old(self)@.update(number * 8 + letter, piece),
            !in_bounds(letter as int, number as int) ==> r == Err::<bool, ChessError>(
                ChessError::OutsideBounds,
            ) && final(self)@ == old(self)@,
    {
        if letter < 0 || letter > 7 || number < 0 || number > 7 {
            return Err(ChessError::OutsideBounds);
        }
        self.squares.set((number * 8 + letter) as usize, piece);
        Ok(true)
    }

    /// Empties file `letter` and rank `number`; `OutsideBounds`, with the
    /// board unchanged, off the board.
    pub fn delete_piece(&mut self, letter: i32, number: i32) -> (r: Result<bool, ChessError>)
        requires
            old(self).wf(),
        ensures
            final(self).wf(),
            in_bounds(letter as int, number as int) ==> r == Ok::<bool, ChessError>(true)
                && final(self)@ == old(self)@.update(number * 8 + letter, None),
            !in_bounds(letter as int, number as int) ==> r == Err::<bool, ChessError>(
                ChessError::OutsideBounds,
            ) && final(self)@ == old(self)@,
    {
        self.set_piece(letter, number, None)
    }

    /// Moves the piece on (`from_letter`, `from_number`) to (`to_letter`,
    /// `to_number`), marking it as moved and replacing whatever stood there;
    /// `OutsideBounds` when either square is off the board and `InvalidMove`
    /// when the origin is empty, both with the board unchanged.
    pub fn move_piece(&mut self, from_letter: i32, from_number: i32, to_letter: i32, to_number: i32) -> (r:
        Result<bool, ChessError>)
        requires
            old(self).wf(),
        ensures
            final(self).wf(),
            !in_bounds(from_letter as int, from_number as int) ==> r == Err::<bool, ChessError>(
                ChessError::OutsideBounds,
            ) && final(self)@ == old(self)@,
            in_bounds(from_letter as int, from_number as int) && old(self)@[from_number * 8
                + from_letter] is None ==> r == Err::<bool, ChessError>(ChessError::InvalidMove)
                && final(self)@ == old(self)@,
            in_bounds(from_letter as int, from_number as int) && old(self)@[from_number * 8
                + from_letter] is Some && !in_bounds(to_letter as int, to_number as int) ==> r
                == Err::<bool, ChessError>(ChessError::OutsideBounds) && final(self)@ == old(self)@,
            in_bounds(from_letter as int, from_number as int) && in_bounds(
                to_letter as int,
                to_number as int,
            ) && old(self)@[from_number * 8 + from_letter] is Some ==> r == Ok::<bool, ChessError>(
                true,
            ) && final(self)@ == old(self)@.update(
                to_number * 8 + to_letter,
                Some(
                    (ChessPiece {
                        typ: old(self)@[from_number * 8 + from_letter].unwrap().typ,
                        color: old(self)@[from_number * 8 + from_letter].unwrap().color,
                        moved: true,
                    }),
                ),
            ).update(from_number * 8 + from_letter, None),
    {
        let piece = self.get_piece(from_letter, from_number)?;
        match piece {
            None => Err(ChessError::InvalidMove),
            Some(p) => {
                let moved = ChessPiece { typ: p.typ, color: p.color, moved: true };
                self.set_piece(to_letter, to_number, Some(moved))?;
                self.delete_piece(from_letter, from_number)?;
                Ok(true)
            },
        }
    }

    /// A board with no pieces.
    pub fn new_empty_board() -> (r: NormalBoard)
        ensures
            r.wf(),
            forall|s: int| 0 <= s < 64 ==> #[trigger] r@[s] is None,
    {
        let mut squares: Vec<Option<ChessPiece>> = Vec::new();
        let mut s: usize = 0;
        while s < 64
            invariant
                s <= 64,
                squares@.len() == s,
                forall|k: int| 0 <= k < s ==> #[trigger] squares@[k] is None,
            decreases 64 - s,
        {
            squares.push(None);
            s = s + 1;
        }
        NormalBoard { squares }
    }

    /// The standard starting position, no piece having moved.
    pub fn new_start_board() -> (r: NormalBoard)
        ensures
            r.wf(),
            forall|s: int| 0 <= s < 64 ==> #[trigger] r@[s] == start_piece(s),
    {
        let mut squares: Vec<Option<ChessPiece>> = Vec::new();
        let mut s: usize = 0;
        while s < 64
            invariant
                s <= 64,
                squares@.len() == s,
                forall|k: int| 0 <= k < s ==> #[trigger] squares@[k] == start_piece(k),
            decreases 64 - s,
        {
            let f = s % 8;
            let r = s / 8;
            let back = if f == 0 || f == 7 {
                PieceType::Rook
            } else if f == 1 || f == 6 {
                PieceType::Knight
            } else if f == 2 || f == 5 {
                PieceType::Bishop
            } else if f == 3 {
                PieceType::Queen
            } else {
                PieceType::King
            };
            let piece = if r == 0 {
                Some(ChessPiece::new(back, PieceColor::White))
            } else if r == 1 {
                Some(ChessPiece::new(PieceType::Pawn, PieceColor::White))
            } else if r == 6 {
                Some(ChessPiece::new(PieceType::Pawn, PieceColor::Black))
            } else if r == 7 {
                Some(ChessPiece::new(back, PieceColor::Black))
            } else {
                None
            };
            squares.push(piece);
            s = s + 1;
        }
        NormalBoard { squares }
    }

    /// The (letter, number) of the king of `color`, the first found by file
    /// and then rank; `NoKing` when it has none.
    pub fn get_king_pos(&self, color: PieceColor) -> (r: Result<(usize, usize), ChessError>)
        requires
            self.wf(),
        ensures
            r matches Ok(pos) ==> {
                &&& pos.0 < 8
                &&& pos.1 < 8
                &&& is_king_of(self@[pos.1 * 8 + pos.0], color)
                &&& forall|l: int, n: int|
                    0 <= l < 8 && 0 <= n < 8 && (l < pos.0 || (l == pos.0 && n < pos.1))
                        ==> !is_king_of(#[trigger] self@[n * 8 + l], color)
            },
            r matches Err(e) ==> e == ChessError::NoKing && forall|s: int|
                0 <= s < 64 ==> !is_king_of(#[trigger] self@[s], color),
    {
        let mut i: usize = 0;
        while i < 8
            invariant
                self.wf(),
                i <= 8,
                forall|l: int, n: int|
                    0 <= l < i && 0 <= n < 8 ==> !is_king_of(#[trigger] self@[n * 8 + l], color),
            decreases 8 - i,
        {
            let mut j: usize = 0;
            while j < 8
                invariant
                    self.wf(),
                    i < 8,
                    j <= 8,
                    forall|l: int, n: int|
                        0 <= l < i && 0 <= n < 8 ==> !is_king_of(#[trigger] self@[n * 8 + l], color),
                    forall|n: int| 0 <= n < j ==> !is_king_of(#[trigger] self@[n * 8 + i], color),
                decreases 8 - j,
            {
                if let Some(piece) = self.squares[j * 8 + i] {
                    if piece.typ == PieceType::King && piece.color == color {
                        return Ok((i, j));
                    }
                }
                j = j + 1;
            }
            i = i + 1;
        }
        proof {
            assert forall|s: int| 0 <= s < 64 implies !is_king_of(#[trigger] self@[s], color) by {
                let l = s % 8;
                let n = s / 8;
                assert(self@[n * 8 + l] == self@[s]);
            }
        }
        Err(ChessError::NoKing)
    }

    /// This board and `other` place the same pieces (kind and color) on the
    /// same squares.
    pub fn check_board_equality(&self, other: &NormalBoard) -> (r: bool)
        requires
            self.wf(),
            other.wf(),
        ensures
            r == same_placement(self@, other@),
    {
        let mut s: usize = 0;
        while s < 64
            invariant
                self.wf(),
                other.wf(),
                s <= 64,
                forall|k: int| 0 <= k < s ==> #[trigger] same_piece(self@[k], other@[k]),
            decreases 64 - s,
        {
            let same = match (self.squares[s], other.squares[s]) {
                (None, None) => true,
                (Some(x), Some(y)) => x.typ == y.typ && x.color == y.color,
                _ => false,
            };
            assert(same == same_piece(self@[s as int], other@[s as int]));
            if !same {
                return false;
            }
            s = s + 1;
        }
        true
    }

    /// `Tie` when at least three boards of `board_history` place the pieces
    /// as this one does, `NoEnd` otherwise.
    pub fn check_repetition(&self, board_history: &Vec<NormalBoard>) -> (r: EndType)
        requires
            self.wf(),
            forall|k: int| 0 <= k < board_history@.len() ==> (#[trigger] board_history@[k]).wf(),
        ensures
            r == (if count_same(self@, board_history@, board_history@.len()) >= 3 {
                EndType::Tie
            } else {
                EndType::NoEnd
            }),
    {
        let mut count: usize = 0;
        let mut k: usize = 0;
        while k < board_history.len()
            invariant
                self.wf(),
                forall|j: int| 0 <= j < board_history@.len() ==> (#[trigger] board_history@[j]).wf(),
                k <= board_history@.len(),
                count == count_same(self@, board_history@, k as nat),
                count <= k,
            decreases board_history@.len() - k,
        {
            if self.check_board_equality(&board_history[k]) {
                count = count + 1;
            }
            k = k + 1;
        }
        if count >= 3 {
            EndType::Tie
        } else {
            EndType::NoEnd
        }
    }

    /// How the game stands for the side `turn` to move, judged on the
    /// bitboard form of the board. Unlike the bitboard classification, the
    /// payload of `Checkmate` here names the winner: `Checkmate(c)` means
    /// `c` has mated the side to move. `NoKing` when `turn` has no king.
    pub fn check_for_game_end(
        &self,
        prev_board: Option<&NormalBoard>,
        turn: PieceColor,
        constants: &Constants,
    ) -> (r: Result<EndType, ChessError>)
        requires
            self.wf(),
            prev_board matches Some(p) ==> p.wf(),
            constants.wf(),
        ensures
            (forall|s: int| 0 <= s < 64 ==> !is_king_of(#[trigger] self@[s], turn)) ==> r == Err::<
                EndType,
                ChessError,
            >(ChessError::NoKing),
            (exists|s: int| 0 <= s < 64 && is_king_of(#[trigger] self@[s], turn)) ==> r == Ok::<
                EndType,
                ChessError,
            >(winner_end(game_end(to_bitboard(self@), opt_board_view(prev_board), turn))),
    {
        match self.get_king_pos(turn) {
            Err(e) => {
                return Err(e);
            },
            Ok(pos) => {
                assert(is_king_of(self@[pos.1 * 8 + pos.0], turn));
            },
        }
        let bb = board_to_bitboard(self);
        let end = match prev_board {
            Some(p) => {
                let prev_bb = board_to_bitboard(p);
                bitboard_check_game_end(&bb, Some(&prev_bb), turn, constants)
            },
            None => bitboard_check_game_end(&bb, None, turn, constants),
        };
        match end {
            EndType::Checkmate(mated) => Ok(EndType::Checkmate(mated.opposite_color())),
            other => Ok(other),
        }
    }
}

/// The game-end verdict with the checkmate payload turned from the mated
/// side to the winner.
pub open spec fn winner_end(e: EndType) -> EndType {
    match e {
        EndType::Checkmate(mated) => EndType::Checkmate(opposite(mated)),
        other => other,
    }
}

/// A square as (letter, number).
pub type Pos = (usize, usize);

/// The occupied squares among the first `m` in file-major order (file
/// `m / 8`, rank `m % 8`), with their pieces.
pub open spec fn listed_upto(b: Seq<Option<ChessPiece>>, m: nat) -> Seq<(Pos, ChessPiece)>
    decreases m,
{
    if m == 0 {
        Seq::empty()
    } else {
        let k = m - 1;
        let letter = k / 8;
        let number = k % 8;
        let rest = listed_upto(b, (m - 1) as nat);
        match b[number * 8 + letter] {
            Some(p) => rest.push(((letter as usize, number as usize), p)),
            None => rest,
        }
    }
}

/// After the move named `name` (a move of `turn`), its origin square is
/// empty and its destination holds a piece of `turn`.
pub open spec fn move_lands(nb: Seq<Option<ChessPiece>>, name: Seq<char>, turn: PieceColor) -> bool {
    match parse_move(name) {
        Some(ft) => nb[ft.0 as int] is None && (nb[ft.1 as int] matches Some(p) && p.color == turn),
        None => false,
    }
}

/// The pieces of a board with their squares, by file and then rank.
pub struct NormalBoardIter {
    pub pieces: Vec<(Pos, ChessPiece)>,
    pub pos: usize,
}

impl NormalBoardIter {
    /// Lists the pieces of `board`, starting before the first.
    pub fn new(board: &NormalBoard) -> (r: NormalBoardIter)
        requires
            board.wf(),
        ensures
            r.pieces@ == listed_upto(board@, 64),
            r.pos == 0,
    {
        let mut pieces: Vec<(Pos, ChessPiece)> = Vec::new();
        let mut i: usize = 0;
        while i < 8
            invariant
                board.wf(),
                i <= 8,
                pieces@ == listed_upto(board@, (i * 8) as nat),
            decreases 8 - i,
        {
            let mut j: usize = 0;
            while j < 8
                invariant
                    board.wf(),
                    i < 8,
                    j <= 8,
                    pieces@ == listed_upto(board@, (i * 8 + j) as nat),
                decreases 8 - j,
            {
                assert(((i * 8 + j) as int) / 8 == i && ((i * 8 + j) as int) % 8 == j)
                    by (nonlinear_arith)
                    requires
                        j < 8,
                ;
                if let Some(piece) = board.squares[j * 8 + i] {
                    pieces.push(((i, j), piece));
                }
                j = j + 1;
            }
            i = i + 1;
        }
        NormalBoardIter { pieces, pos: 0 }
    }

    /// The next piece with its square, or `None` after the last.
    pub fn next_piece(&mut self) -> (r: Option<(Pos, ChessPiece)>)
        ensures
            final(self).pieces@ == old(self).pieces@,
            old(self).pos < old(self).pieces@.len() ==> r == Some(old(self).pieces@[old(self).pos as int])
                && final(self).pos == old(self).pos + 1,
            old(self).pos >= old(self).pieces@.len() ==> r is None && final(self).pos == old(self).pos,
    {
        if self.pos >= self.pieces.len() {
            return None;
        }
        let piece = self.pieces[self.pos];
        self.pos = self.pos + 1;
        Some(piece)
    }
}

impl NormalBoard {
    /// The pieces of this board with their squares, by file and then rank.
    pub fn iter(&self) -> (r: NormalBoardIter)
        requires
            self.wf(),
        ensures
            r.pieces@ == listed_upto(self@, 64),
            r.pos == 0,
    {
        NormalBoardIter::new(self)
    }
}

fn piece_set_index(p: ChessPiece) -> (i: usize)
    ensures
        i == set_index(p),
{
    let c: usize = match p.color {
        PieceColor::White => 0,
        PieceColor::Black => 6,
    };
    let t: usize = match p.typ {
        PieceType::Pawn => 0,
        PieceType::Rook => 1,
        PieceType::Knight => 2,
        PieceType::Bishop => 3,
        PieceType::Queen => 4,
        PieceType::King => 5,
    };
    c + t
}

/// The squares of `board` holding pieces of bitboard index `i`.
fn collect_set(board: &NormalBoard, i: usize) -> (b: u64)
    requires
        board.wf(),
    ensures
        b == set_upto(board@, i as int, 64),
{
    let mut b: u64 = 0;
    let mut s: u64 = 0;
    while s < 64
        invariant
            board.wf(),
            s <= 64,
            b == set_upto(board@, i as int, s as nat),
        decreases 64 - s,
    {
        let add: u64 = match board.squares[s as usize] {
            Some(p) => if piece_set_index(p) == i {
                1u64 << s
            } else {
                0
            },
            None => 0,
        };
        b = b | add;
        s = s + 1;
    }
    b
}

/// Square `s` is in bitboard `i` exactly when it holds a piece of that
/// index.
proof fn lemma_set_upto_bit(b: Seq<Option<ChessPiece>>, i: int, n: nat, s: u64)
    requires
        n <= 64,
        s < 64,
    ensures
        bit_set(set_upto(b, i, n), s) == (s < n && holds_set(b[s as int], i)),
    decreases n,
{
    lemma_has_or(0, 0, s);
    if n > 0 {
        lemma_set_upto_bit(b, i, (n - 1) as nat, s);
        let add: u64 = if holds_set(b[n - 1], i) {
            1u64 << ((n - 1) as u64)
        } else {
            0
        };
        lemma_has_or(set_upto(b, i, (n - 1) as nat), add, s);
        lemma_has_single((n - 1) as u64, s);
    }
}

/// The piece kind with bitboard offset `k` (0 pawn to 5 king).
pub open spec fn type_of(k: int) -> PieceType {
    if k == 0 {
        PieceType::Pawn
    } else if k == 1 {
        PieceType::Rook
    } else if k == 2 {
        PieceType::Knight
    } else if k == 3 {
        PieceType::Bishop
    } else if k == 4 {
        PieceType::Queen
    } else {
        PieceType::King
    }
}

/// A piece keeps its `moved` flag while the same kind and color stands on
/// its square; a piece that arrived there counts as moved.
pub open spec fn moved_flag(before: Option<ChessPiece>, t: PieceType, c: PieceColor) -> bool {
    match before {
        Some(p) => if p.typ == t && p.color == c {
            p.moved
        } else {
            true
        },
        None => true,
    }
}

/// Square `s` of the board rebuilt from bitboard position `bb`, with the
/// `moved` flags carried over from `before`.
pub open spec fn rebuilt_square(bb: Seq<u64>, before: Seq<Option<ChessPiece>>, s: int) -> Option<
    ChessPiece,
> {
    let w = kind_at(bb, PieceColor::White, s as u64);
    let k = kind_at(bb, PieceColor::Black, s as u64);
    if w < 6 {
        Some(
            (ChessPiece {
                typ: type_of(w),
                color: PieceColor::White,
                moved: moved_flag(before[s], type_of(w), PieceColor::White),
            }),
        )
    } else if k < 6 {
        Some(
            (ChessPiece {
                typ: type_of(k),
                color: PieceColor::Black,
                moved: moved_flag(before[s], type_of(k), PieceColor::Black),
            }),
        )
    } else {
        None
    }
}

pub open spec fn rebuilt(bb: Seq<u64>, before: Seq<Option<ChessPiece>>) -> Seq<Option<ChessPiece>> {
    Seq::new(64, |s: int| rebuilt_square(bb, before, s))
}

fn kind_type(k: usize) -> (t: PieceType)
    ensures
        t == type_of(k as int),
{
    if k == 0 {
        PieceType::Pawn
    } else if k == 1 {
        PieceType::Rook
    } else if k == 2 {
        PieceType::Knight
    } else if k == 3 {
        PieceType::Bishop
    } else if k == 4 {
        PieceType::Queen
    } else {
        PieceType::King
    }
}

fn carried_moved_flag(before: Option<ChessPiece>, t: PieceType, c: PieceColor) -> (m: bool)
    ensures
        m == moved_flag(before, t, c),
{
    match before {
        Some(p) => if p.typ == t && p.color == c {
            p.moved
        } else {
            true
        },
        None => true,
    }
}

/// The square-by-square board of bitboard position `bb`, keeping the
/// `moved` flags of `before` where the same piece still stands.
fn rebuild(bb: &BitBoard, before: &NormalBoard) -> (r: NormalBoard)
    requires
        before.wf(),
    ensures
        r.wf(),
        r@ == rebuilt(bb@, before@),
{
    let mut squares: Vec<Option<ChessPiece>> = Vec::new();
    let mut s: usize = 0;
    while s < 64
        invariant
            before.wf(),
            s <= 64,
            squares@.len() == s,
            forall|k: int| 0 <= k < s ==> #[trigger] squares@[k] == rebuilt_square(bb@, before@, k),
        decreases 64 - s,
    {
        let w = piece_kind_at(bb, PieceColor::White, s as u64);
        let k = piece_kind_at(bb, PieceColor::Black, s as u64);
        let old_piece = before.squares[s];
        let piece = if w != NO_PIECE {
            let t = kind_type(w);
            Some(
                ChessPiece {
                    typ: t,
                    color: PieceColor::White,
                    moved: carried_moved_flag(old_piece, t, PieceColor::White),
                },
            )
        } else if k != NO_PIECE {
            let t = kind_type(k);
            Some(
                ChessPiece {
                    typ: t,
                    color: PieceColor::Black,
                    moved: carried_moved_flag(old_piece, t, PieceColor::Black),
                },
            )
        } else {
            None
        };
        squares.push(piece);
        s = s + 1;
    }
    let r = NormalBoard { squares };
    assert(r@ =~= rebuilt(bb@, before@));
    r
}

/// Rebuilding a well-formed bitboard position square by square and taking
/// its bitboards again gives the same position.
proof fn lemma_rebuild_round_trip(bb: Seq<u64>, before: Seq<Option<ChessPiece>>)
    requires
        is_position(bb),
    ensures
        to_bitboard(rebuilt(bb, before)) == bb,
{
    let r = rebuilt(bb, before);
    assert forall|i: int| 0 <= i < 12 implies #[trigger] set_upto(r, i, 64) == bb[i] by {
        assert forall|s: u64| s < 64 implies #[trigger] bit_set(set_upto(r, i, 64), s) == bit_set(
            bb[i],
            s,
        ) by {
            lemma_set_upto_bit(r, i, 64, s);
            assert(r[s as int] == rebuilt_square(bb, before, s as int));
            assert forall|j: int| 0 <= j < 12 && j != i implies !(bit_set(bb[i], s)
                && #[trigger] bit_set(bb[j], s)) by {}
        }
        lemma_bits_ext(set_upto(r, i, 64), bb[i]);
    }
    assert(to_bitboard(r) =~= bb);
}

impl NormalBoard {
    /// The legal moves of `turn`, each with its notation and the board it
    /// leads to (pieces that arrive on a square count as moved), in the
    /// order of the bitboard move list.
    pub fn generate_possible_moves(
        &self,
        prev_board: Option<&NormalBoard>,
        turn: PieceColor,
        constants: &Constants,
    ) -> (moves: Vec<(String, NormalBoard)>)
        requires
            self.wf(),
            prev_board matches Some(p) ==> p.wf(),
            constants.wf(),
        ensures
            moves@.len() == successors(to_bitboard(self@), opt_board_view(prev_board), turn).len(),
            forall|k: int|
                0 <= k < moves@.len() ==> {
                    &&& (#[trigger] moves@[k]).1.wf()
                    &&& to_bitboard(moves@[k].1@) == successors(
                        to_bitboard(self@),
                        opt_board_view(prev_board),
                        turn,
                    )[k]
                    &&& moves@[k].1@ == rebuilt(to_bitboard(moves@[k].1@), self@)
                    &&& listed_move_ok(
                        to_bitboard(self@),
                        opt_board_view(prev_board),
                        turn,
                        moves@[k].0@,
                        to_bitboard(moves@[k].1@),
                    )
                },
            forall|k: int, s: int|
                0 <= k < moves@.len() && 0 <= s < 64 && is_king_of(
                    #[trigger] moves@[k].1@[s],
                    turn,
                ) ==> !bit_set(
                    reach(to_bitboard(moves@[k].1@), opposite(turn)),
                    s as u64,
                ),
            forall|k: int|
                0 <= k < moves@.len() ==> move_lands(
                    (#[trigger] moves@[k]).1@,
                    moves@[k].0@,
                    turn,
                ),
    {
        let bb = board_to_bitboard(self);
        let listed = match prev_board {
            Some(p) => {
                let pb = board_to_bitboard(p);
                generate_moves(&bb, Some(&pb), turn, constants)
            },
            None => generate_moves(&bb, None, turn, constants),
        };
        let ghost prev = opt_board_view(prev_board);
        let mut moves: Vec<(String, NormalBoard)> = Vec::new();
        let mut k: usize = 0;
        while k < listed.len()
            invariant
                self.wf(),
                bb@ == to_bitboard(self@),
                is_position(bb@),
                k <= listed@.len(),
                moves@.len() == k,
                listed@.len() == successors(bb@, prev, turn).len(),
                forall|j: int|
                    0 <= j < listed@.len() ==> (#[trigger] listed@[j]).1@ == successors(
                        bb@,
                        prev,
                        turn,
                    )[j],
                forall|j: int|
                    0 <= j < listed@.len() ==> named_entry_ok(bb@, prev, turn, #[trigger] listed@[j]),
                forall|j: int| 0 <= j < listed@.len() ==> is_position((#[trigger] listed@[j]).1@),
                forall|j: int|
                    0 <= j < k ==> {
                        &&& (#[trigger] moves@[j]).1.wf()
                        &&& moves@[j].0@ == listed@[j].0@
                        &&& moves@[j].1@ == rebuilt(listed@[j].1@, self@)
                        &&& to_bitboard(moves@[j].1@) == listed@[j].1@
                    },
            decreases listed@.len() - k,
        {
            let name = listed[k].0.clone();
            let board = rebuild(&listed[k].1, self);
            proof {
                lemma_rebuild_round_trip(listed@[k as int].1@, self@);
            }
            moves.push((name, board));
            k = k + 1;
        }
        proof {
            assert forall|k: int, s: int|
                0 <= k < moves@.len() && 0 <= s < 64 && is_king_of(
                    #[trigger] moves@[k].1@[s],
                    turn,
                ) implies !bit_set(reach(to_bitboard(moves@[k].1@), opposite(turn)), s as u64) by {
                let after = to_bitboard(moves@[k].1@);
                assert(named_entry_ok(bb@, prev, turn, listed@[k]));
                let ft = parse_move(listed@[k].0@).unwrap();
                reveal(is_legal_move);
                assert(!in_check(after, turn));
                let ki = base(turn) + 5;
                lemma_set_upto_bit(moves@[k].1@, ki, 64, s as u64);
                assert(bit_set(after[ki], s as u64));
                lemma_has_or(reach(after, opposite(turn)), after[ki], s as u64);
                lemma_has_or(0, 0, s as u64);
            }
            assert forall|k: int| 0 <= k < moves@.len() implies move_lands(
                (#[trigger] moves@[k]).1@,
                moves@[k].0@,
                turn,
            ) by {
                assert(named_entry_ok(bb@, prev, turn, listed@[k]));
                let ft = parse_move(listed@[k].0@).unwrap();
                reveal(is_legal_move);
                lemma_legal_move_squares(bb@, prev, turn, ft.0, ft.1);
                let after = listed@[k].1@;
                assert(after == apply_move(bb@, turn, ft.0, ft.1));
                assert(moves@[k].1@[ft.0 as int] == rebuilt_square(after, self@, ft.0 as int));
                assert(moves@[k].1@[ft.1 as int] == rebuilt_square(after, self@, ft.1 as int));
                let pk = placed_kind(bb@, turn, ft.0, ft.1);
                assert(bit_set(after[base(turn) + pk], ft.1));
                assert(bit_set(after[base(opposite(turn))], ft.1) == false);
            }
        }
        moves
    }

    /// Draws the board as text (see `drawing`).
    pub fn board_ascii(&self, use_unicode: bool) -> (s: String)
        requires
            self.wf(),
        ensures
            s@ == drawing(to_bitboard(self@), use_unicode),
    {
        get_bitboard_ascii(&board_to_bitboard(self), use_unicode)
    }

    /// For each file `letter` and rank `number`, whether a piece of `color`
    /// attacks that square (own pieces' squares included).
    pub fn generate_reachable_tiles_board(&self, color: PieceColor, constants: &Constants) -> (r: Vec<
        Vec<bool>,
    >)
        requires
            self.wf(),
            constants.wf(),
        ensures
            r@.len() == 8,
            forall|l: int|
                0 <= l < 8 ==> (#[trigger] r@[l])@.len() == 8 && forall|n: int|
                    0 <= n < 8 ==> #[trigger] r@[l]@[n] == bit_set(
                        reach(to_bitboard(self@), color),
                        sq(l, n),
                    ),
    {
        let bb = board_to_bitboard(self);
        let att = get_reach_board(&bb, color, constants);
        let mut r: Vec<Vec<bool>> = Vec::new();
        let mut l: usize = 0;
        while l < 8
            invariant
                l <= 8,
                att == reach(to_bitboard(self@), color),
                r@.len() == l,
                forall|x: int|
                    0 <= x < l ==> (#[trigger] r@[x])@.len() == 8 && forall|n: int|
                        0 <= n < 8 ==> #[trigger] r@[x]@[n] == bit_set(att, sq(x, n)),
            decreases 8 - l,
        {
            let mut column: Vec<bool> = Vec::new();
            let mut n: usize = 0;
            while n < 8
                invariant
                    l < 8,
                    n <= 8,
                    column@.len() == n,
                    forall|y: int| 0 <= y < n ==> #[trigger] column@[y] == bit_set(att, sq(l as int, y)),
                decreases 8 - n,
            {
                let s = (n * 8 + l) as u64;
                column.push(att & (1u64 << s) != 0);
                n = n + 1;
            }
            r.push(column);
            l = l + 1;
        }
        r
    }
}

/// The bitboard form of a square-by-square board.
pub fn board_to_bitboard(board: &NormalBoard) -> (r: BitBoard)
    requires
        board.wf(),
    ensures
        r@ == to_bitboard(board@),
        is_position(r@),
{
    let r: BitBoard = [
        collect_set(board, 0),
        collect_set(board, 1),
        collect_set(board, 2),
        collect_set(board, 3),
        collect_set(board, 4),
        collect_set(board, 5),
        collect_set(board, 6),
        collect_set(board, 7),
        collect_set(board, 8),
        collect_set(board, 9),
        collect_set(board, 10),
        collect_set(board, 11),
    ];
    assert(r@ =~= to_bitboard(board@));
    proof {
        assert forall|i: int, j: int, s: u64|
            0 <= i < 12 && 0 <= j < 12 && i != j && s < 64 implies !(#[trigger] bit_set(r@[i], s)
            && #[trigger] bit_set(r@[j], s)) by {
            lemma_set_upto_bit(board@, i, 64, s);
            lemma_set_upto_bit(board@, j, 64, s);
        }
    }
    r
}

} // verus!
