use chess_ai::movegen::{generate_moves, generate_possible_moves, make_move, describe_move, Move};
use chess_ai::normalboard::{board_to_bitboard, ChessPiece, NormalBoard};
use chess_ai::position::{generate_start_board, get_reach_board, is_in_check, BitBoard};
use chess_ai::search::{score_root_move, search, select_best};
use chess_ai::square::{parse_move_string, pos_to_num, num_to_pos, move_notation, validate_move_string, get_letter, get_number};
use chess_ai::tables::{Constants, generate_row_and_column_mask, generate_diagonal_mask};
use chess_ai::subsets::generate_all_possible_configurations;
use chess_ai::termination::bitboard_check_game_end;
use chess_ai::evaluation::{material_score, simple_board_evaluation_with_position_bitboard};
use chess_ai::types::{ChessError, EndType, PieceColor, PieceType};
use chess_ai::render::get_bitboard_ascii;

fn sq(name: &str) -> u64 {
    let b = name.as_bytes();
    ((b[1] - b'1') as u64) * 8 + (b[0] - b'a') as u64
}

fn play(board: &BitBoard, prev: Option<&BitBoard>, color: PieceColor, mv: &str, c: &Constants) -> BitBoard {
    let moves = generate_moves(board, prev, color, c);
    let found = moves.iter().find(|m| m.0 == mv).expect("move must be legal");
    found.1
}

#[test]
fn start_position_has_twenty_moves() {
    let c = Constants::new();
    let board = generate_start_board();
    assert_eq!(generate_moves(&board, None, PieceColor::White, &c).len(), 20);
    assert_eq!(generate_moves(&board, None, PieceColor::Black, &c).len(), 20);
}

#[test]
fn fools_mate_is_checkmate_of_white() {
    let c = Constants::new();
    let b0 = generate_start_board();
    let b1 = play(&b0, None, PieceColor::White, "f2 f3", &c);
    let b2 = play(&b1, Some(&b0), PieceColor::Black, "e7 e5", &c);
    let b3 = play(&b2, Some(&b1), PieceColor::White, "g2 g4", &c);
    let b4 = play(&b3, Some(&b2), PieceColor::Black, "d8 h4", &c);
    assert!(generate_moves(&b4, Some(&b3), PieceColor::White, &c).is_empty());
    assert_eq!(bitboard_check_game_end(&b4, Some(&b3), PieceColor::White, &c), EndType::Checkmate(PieceColor::White));
    assert_eq!(bitboard_check_game_end(&b3, Some(&b2), PieceColor::Black, &c), EndType::NoEnd);
}

fn lone_king_stalemate() -> BitBoard {
    let mut b: BitBoard = [0; 12];
    b[4] = 1 << sq("f7");
    b[5] = 1 << sq("a1");
    b[11] = 1 << sq("h8");
    b
}

#[test]
fn lone_king_without_moves_is_a_tie() {
    let c = Constants::new();
    let b = lone_king_stalemate();
    assert!(generate_moves(&b, None, PieceColor::Black, &c).is_empty());
    assert!(!is_in_check(&b, PieceColor::Black, &c));
    assert_eq!(bitboard_check_game_end(&b, None, PieceColor::Black, &c), EndType::Tie);
    assert_eq!(search(&b, None, PieceColor::Black, 2, true, &c), Err(ChessError::NoMovesFound));
}

fn middle_game(c: &Constants) -> (BitBoard, BitBoard) {
    let b0 = generate_start_board();
    let b1 = play(&b0, None, PieceColor::White, "e2 e4", c);
    let b2 = play(&b1, Some(&b0), PieceColor::Black, "d7 d5", c);
    let b3 = play(&b2, Some(&b1), PieceColor::White, "g1 f3", c);
    (b3, b2)
}

#[test]
fn every_generated_move_is_legal() {
    let c = Constants::new();
    let (b, prev) = middle_game(&c);
    let moves = generate_moves(&b, Some(&prev), PieceColor::Black, &c);
    assert!(!moves.is_empty());
    for m in &moves {
        assert!(!is_in_check(&m.1, PieceColor::Black, &c));
    }
}

#[test]
fn notation_reads_back_to_the_squares_moved() {
    let c = Constants::new();
    let (b, prev) = middle_game(&c);
    let coords = generate_possible_moves(&b, Some(&prev), PieceColor::Black, &c);
    let named = generate_moves(&b, Some(&prev), PieceColor::Black, &c);
    assert_eq!(coords.len(), named.len());
    for (m, n) in coords.iter().zip(named.iter()) {
        let from = m.0 .0 .1 * 8 + m.0 .0 .0;
        let to = m.0 .1 .1 * 8 + m.0 .1 .0;
        assert_eq!(parse_move_string(&n.0), Some((from, to)));
        assert_eq!(make_move(&b, PieceColor::Black, from, to), n.1);
        assert_eq!(m.1, n.1);
    }
}

#[test]
fn pruning_keeps_the_score() {
    let c = Constants::new();
    let (b, prev) = middle_game(&c);
    let pruned = search(&b, Some(&prev), PieceColor::Black, 2, true, &c).unwrap();
    let full = search(&b, Some(&prev), PieceColor::Black, 2, false, &c).unwrap();
    assert_eq!(pruned.1, full.1);
}

#[test]
fn pruning_keeps_the_score_three_plies() {
    let c = Constants::new();
    let mut b: BitBoard = [0; 12];
    b[1] = 1 << sq("a1");
    b[5] = 1 << sq("e1");
    b[10] = 1 << sq("d5");
    b[11] = 1 << sq("e8");
    b[0] = 1 << sq("b2");
    let pruned = search(&b, None, PieceColor::White, 3, true, &c).unwrap();
    let full = search(&b, None, PieceColor::White, 3, false, &c).unwrap();
    assert_eq!(pruned.1, full.1);
}

#[test]
fn tables_are_built_identically() {
    let a = Constants::new();
    let b = Constants::new();
    assert_eq!(a.start_board, b.start_board);
    assert_eq!(a.row_and_column_mask, b.row_and_column_mask);
    assert_eq!(a.diagonal_mask, b.diagonal_mask);
    assert_eq!(a.pawn_reach, b.pawn_reach);
    assert_eq!(a.knight_reach, b.knight_reach);
    assert_eq!(a.king_reach, b.king_reach);
    assert_eq!(a.rook_reach, b.rook_reach);
    assert_eq!(a.bishop_reach, b.bishop_reach);
}

#[test]
fn relevance_masks_skip_edges() {
    let rook = generate_row_and_column_mask();
    // A rook on a1 sees b1..g1 and a2..a7.
    assert_eq!(rook[0], 0x0001_0101_0101_017e);
    // A rook on d4.
    assert_eq!(rook[27], 0x0008_0808_7608_0800);
    let bishop = generate_diagonal_mask();
    // A bishop on a1: b2..g7.
    assert_eq!(bishop[0], 0x0040_2010_0804_0200);
}

#[test]
fn slider_lookup_matches_walking() {
    let c = Constants::new();
    // Rook on a1 with a blocker on a4 and one on d1.
    let occ = (1u64 << sq("a4")) | (1u64 << sq("d1")) | (1u64 << sq("h8"));
    let r = c.rook_lookup(0, occ);
    let expected = (1u64 << sq("a2")) | (1u64 << sq("a3")) | (1u64 << sq("a4")) | (1u64 << sq("b1")) | (1u64 << sq("c1")) | (1u64 << sq("d1"));
    assert_eq!(r, expected);
    // A bishop on a1 over an empty board reaches h8.
    assert_eq!(c.bishop_lookup(0, 0), 0x8040_2010_0804_0200);
    assert_eq!(c.bishop_lookup(0, 1 << sq("c3")), (1 << sq("b2")) | (1 << sq("c3")));
}

#[test]
fn configurations_are_all_subsets() {
    let configs = generate_all_possible_configurations(0b1011);
    let mut sorted = configs.clone();
    sorted.sort();
    sorted.dedup();
    assert_eq!(sorted, vec![0, 1, 2, 3, 8, 9, 10, 11]);
    assert_eq!(generate_all_possible_configurations(0), vec![0]);
    assert_eq!(generate_all_possible_configurations(0b101), vec![0, 1, 4, 5]);
    assert_eq!(configs, vec![0, 1, 2, 3, 8, 9, 10, 11]);
    assert_eq!(generate_all_possible_configurations(0x0001_0101_0101_017e).len(), 4096);
}

#[test]
fn square_numbers_and_names() {
    assert_eq!(pos_to_num(4, 1), 12);
    assert_eq!(num_to_pos(12), (4, 1));
    assert_eq!(num_to_pos(63), (7, 7));
    assert_eq!(get_letter(0), 'a');
    assert_eq!(get_letter(9), 'h');
    assert_eq!(get_number(3), '4');
    assert_eq!(move_notation(12, 28), "e2 e4");
    assert_eq!(parse_move_string("e2 e4"), Some((12, 28)));
    assert_eq!(parse_move_string("e2e4 "), None);
    assert_eq!(parse_move_string("i2 e4"), None);
    assert_eq!(parse_move_string("e2"), None);
}

#[test]
fn move_strings_are_validated() {
    assert!(validate_move_string(&"a1 h8".to_string()));
    assert!(validate_move_string(&"e2 e4\n".to_string()));
    assert!(!validate_move_string(&"e2-e4".to_string()));
    assert!(!validate_move_string(&"e9 e4".to_string()));
    assert!(!validate_move_string(&"e2 e".to_string()));
    assert!(!validate_move_string(&"".to_string()));
}

#[test]
fn promotion_castling_and_en_passant() {
    let c = Constants::new();
    // White pawn on a7 promotes to a queen.
    let mut b: BitBoard = [0; 12];
    b[0] = 1 << sq("a7");
    b[5] = 1 << sq("e1");
    b[11] = 1 << sq("h6");
    let after = play(&b, None, PieceColor::White, "a7 a8", &c);
    assert_eq!(after[0], 0);
    assert_eq!(after[4], 1 << sq("a8"));

    // Castling on both sides with the rooks at home.
    let mut b: BitBoard = [0; 12];
    b[1] = (1 << sq("a1")) | (1 << sq("h1"));
    b[5] = 1 << sq("e1");
    b[11] = 1 << sq("e8");
    let short = play(&b, None, PieceColor::White, "e1 g1", &c);
    assert_eq!(short[5], 1 << sq("g1"));
    assert_eq!(short[1], (1 << sq("a1")) | (1 << sq("f1")));
    let long = play(&b, None, PieceColor::White, "e1 c1", &c);
    assert_eq!(long[5], 1 << sq("c1"));
    assert_eq!(long[1], (1 << sq("d1")) | (1 << sq("h1")));
    // No castling through an attacked square.
    let mut attacked = b;
    attacked[7] = 1 << sq("f8");
    let names: Vec<String> = generate_moves(&attacked, None, PieceColor::White, &c).into_iter().map(|m| m.0).collect();
    assert!(!names.contains(&"e1 g1".to_string()));
    assert!(names.contains(&"e1 c1".to_string()));

    // En passant right after a double step.
    let mut prev: BitBoard = [0; 12];
    prev[0] = 1 << sq("e5");
    prev[5] = 1 << sq("e1");
    prev[6] = 1 << sq("d7");
    prev[11] = 1 << sq("e8");
    let now = play(&prev, None, PieceColor::Black, "d7 d5", &c);
    let ep = play(&now, Some(&prev), PieceColor::White, "e5 d6", &c);
    assert_eq!(ep[6], 0);
    assert_eq!(ep[0], 1 << sq("d6"));
    assert_eq!(describe_move(&now, PieceColor::White, sq("e5"), sq("d6")), Move::new(sq("e5"), sq("d6"), Some(sq("d5"))));
    assert_eq!(describe_move(&now, PieceColor::White, sq("e1"), sq("e2")).capture, None);
    // Without the previous position there is no en passant.
    let names: Vec<String> = generate_moves(&now, None, PieceColor::White, &c).into_iter().map(|m| m.0).collect();
    assert!(!names.contains(&"e5 d6".to_string()));
}

#[test]
fn reach_counts_defended_squares() {
    let c = Constants::new();
    let b = generate_start_board();
    let reach = get_reach_board(&b, PieceColor::White, &c);
    // All of rank 3 and the own pieces on rank 2 except nothing on a1/h1 corners.
    assert_eq!(reach & 0x0000_0000_00ff_0000, 0x0000_0000_00ff_0000);
    assert_eq!(reach & (1 << sq("a1")), 0);
    assert!(!is_in_check(&b, PieceColor::White, &c));
}

#[test]
fn evaluation_scores() {
    let c = Constants::new();
    let b = generate_start_board();
    assert_eq!(material_score(&b), 0);
    assert_eq!(simple_board_evaluation_with_position_bitboard(&b, None, &vec![], 0, &c), 0);
    let mut one_pawn: BitBoard = [0; 12];
    one_pawn[0] = 1 << sq("e4");
    one_pawn[5] = 1 << sq("e1");
    one_pawn[11] = 1 << sq("e8");
    // pawn 100 + 20 on e4; kings: white e1 (file e, rank 1) 0, black e8 0.
    assert_eq!(material_score(&one_pawn), 120);
    // Black to move is checkmated after fool's mate for White: mate scores.
    let b0 = generate_start_board();
    let b1 = play(&b0, None, PieceColor::White, "f2 f3", &c);
    let b2 = play(&b1, Some(&b0), PieceColor::Black, "e7 e5", &c);
    let b3 = play(&b2, Some(&b1), PieceColor::White, "g2 g4", &c);
    let b4 = play(&b3, Some(&b2), PieceColor::Black, "d8 h4", &c);
    assert_eq!(simple_board_evaluation_with_position_bitboard(&b4, Some(&b3), &vec![], 2, &c), i32::MIN / 2 + 2);
}

#[test]
fn search_finds_mate_in_one() {
    let c = Constants::new();
    let b0 = generate_start_board();
    let b1 = play(&b0, None, PieceColor::White, "f2 f3", &c);
    let b2 = play(&b1, Some(&b0), PieceColor::Black, "e7 e5", &c);
    let b3 = play(&b2, Some(&b1), PieceColor::White, "g2 g4", &c);
    let (mv, score) = search(&b3, Some(&b2), PieceColor::Black, 1, true, &c).unwrap();
    assert_eq!(mv, "d8 h4");
    assert_eq!(score, i32::MIN / 2);
    let child = play(&b3, Some(&b2), PieceColor::Black, "d8 h4", &c);
    assert_eq!(score_root_move(&b3, &child, PieceColor::Black, 1, false, &c), i32::MIN / 2);
}

#[test]
fn best_of_scored_moves() {
    let scored = vec![(5, "a2 a3".to_string()), (9, "b2 b3".to_string()), (9, "c2 c3".to_string()), (-4, "d2 d3".to_string())];
    assert_eq!(select_best(PieceColor::White, &scored), Some(("b2 b3".to_string(), 9)));
    assert_eq!(select_best(PieceColor::Black, &scored), Some(("d2 d3".to_string(), -4)));
    assert_eq!(select_best(PieceColor::White, &vec![]), None);
}

#[test]
fn colors() {
    assert_eq!(PieceColor::White.opposite_color(), PieceColor::Black);
    assert_eq!(PieceColor::Black.get_string(), "Black");
    assert_eq!(PieceColor::White.side_const(), 1);
    assert_eq!(PieceColor::Black.side_const(), -1);
}

#[test]
fn square_board_operations() {
    let mut b = NormalBoard::new_start_board();
    assert_eq!(b.get_piece(4, 0), Ok(Some(ChessPiece::new(PieceType::King, PieceColor::White))));
    assert_eq!(b.get_piece(8, 0), Err(ChessError::OutsideBounds));
    assert_eq!(b.get_king_pos(PieceColor::Black), Ok((4, 7)));
    assert_eq!(board_to_bitboard(&b), generate_start_board());
    assert_eq!(b.move_piece(4, 1, 4, 3), Ok(true));
    let moved = b.get_piece(4, 3).unwrap().unwrap();
    assert!(moved.moved);
    assert_eq!(b.get_piece(4, 1), Ok(None));
    assert_eq!(b.move_piece(4, 1, 4, 2), Err(ChessError::InvalidMove));
    assert_eq!(b.move_piece(4, 3, 4, 9), Err(ChessError::OutsideBounds));
    assert_eq!(b.delete_piece(4, 3), Ok(true));
    assert_eq!(b.set_piece(-1, 0, None), Err(ChessError::OutsideBounds));
    let empty = NormalBoard::new_empty_board();
    assert_eq!(empty.get_king_pos(PieceColor::White), Err(ChessError::NoKing));
    let mut it = NormalBoard::new_start_board().iter();
    assert_eq!(it.pieces.len(), 32);
    assert_eq!(it.next_piece(), Some(((0, 0), ChessPiece::new(PieceType::Rook, PieceColor::White))));
    assert_eq!(it.next_piece(), Some(((0, 1), ChessPiece::new(PieceType::Pawn, PieceColor::White))));
}

#[test]
fn repetition_needs_three_equal_boards() {
    let start = NormalBoard::new_start_board();
    let history = vec![start.clone(), NormalBoard::new_empty_board(), start.clone()];
    assert_eq!(start.check_repetition(&history), EndType::NoEnd);
    let history = vec![start.clone(), start.clone(), start.clone()];
    assert_eq!(start.check_repetition(&history), EndType::Tie);
    assert!(start.check_board_equality(&start.clone()));
}

#[test]
fn square_board_game_end() {
    let c = Constants::new();
    let start = NormalBoard::new_start_board();
    assert_eq!(start.check_for_game_end(None, PieceColor::White, &c), Ok(EndType::NoEnd));
    let empty = NormalBoard::new_empty_board();
    assert_eq!(empty.check_for_game_end(None, PieceColor::White, &c), Err(ChessError::NoKing));
}

#[test]
fn square_board_fools_mate_names_the_winner() {
    let c = Constants::new();
    let mut nb3 = NormalBoard::new_start_board();
    nb3.move_piece(5, 1, 5, 2).unwrap();
    nb3.move_piece(4, 6, 4, 4).unwrap();
    nb3.move_piece(6, 1, 6, 3).unwrap();
    let mut nb4 = nb3.clone();
    nb4.move_piece(3, 7, 7, 3).unwrap();
    assert_eq!(
        nb4.check_for_game_end(Some(&nb3), PieceColor::White, &c),
        Ok(EndType::Checkmate(PieceColor::Black))
    );
}

#[test]
fn start_position_drawing() {
    let sep = "  +---+---+---+---+---+---+---+---+\n";
    let mut expected = String::new();
    expected.push_str(sep);
    expected.push_str("8 | R | N | B | Q | K | B | N | R |\n");
    expected.push_str(sep);
    expected.push_str("7 | P | P | P | P | P | P | P | P |\n");
    for r in (3..=6).rev() {
        expected.push_str(sep);
        expected.push_str(&format!("{} |   |   |   |   |   |   |   |   |\n", r));
    }
    expected.push_str(sep);
    expected.push_str("2 | p | p | p | p | p | p | p | p |\n");
    expected.push_str(sep);
    expected.push_str("1 | r | n | b | q | k | b | n | r |\n");
    expected.push_str(sep);
    expected.push_str("   A   B   C   D   E   F   G   H");
    assert_eq!(get_bitboard_ascii(&generate_start_board(), false), expected);
    let unicode = get_bitboard_ascii(&generate_start_board(), true);
    assert!(unicode.contains("1 | \u{265C}  | \u{265E}  |"));
    assert!(unicode.ends_with("    A    B    C    D    E    F    G    H"));
}

fn from_placement(placement: &str) -> BitBoard {
    let mut b: BitBoard = [0; 12];
    for (row, line) in placement.split('/').enumerate() {
        let rank = 7 - row as u64;
        let mut file = 0u64;
        for ch in line.chars() {
            if let Some(d) = ch.to_digit(10) {
                file += d as u64;
                continue;
            }
            let kind = match ch.to_ascii_lowercase() {
                'p' => 0,
                'r' => 1,
                'n' => 2,
                'b' => 3,
                'q' => 4,
                _ => 5,
            };
            let idx = if ch.is_ascii_uppercase() { kind } else { 6 + kind };
            b[idx] |= 1 << (rank * 8 + file);
            file += 1;
        }
    }
    b
}

fn perft(b: &BitBoard, prev: Option<&BitBoard>, color: PieceColor, depth: u32, c: &Constants) -> u64 {
    if depth == 0 {
        return 1;
    }
    let moves = generate_moves(b, prev, color, c);
    if depth == 1 {
        return moves.len() as u64;
    }
    moves.iter().map(|m| perft(&m.1, Some(b), color.opposite_color(), depth - 1, c)).sum()
}

#[test]
fn move_counts_from_the_start() {
    let c = Constants::new();
    let b = generate_start_board();
    assert_eq!(perft(&b, None, PieceColor::White, 2, &c), 400);
    assert_eq!(perft(&b, None, PieceColor::White, 3, &c), 8902);
}

#[test]
fn move_counts_with_castling_and_promotions() {
    let c = Constants::new();
    let b = from_placement("r3k2r/p1ppqpb1/bn2pnp1/3PN3/1p2P3/2N2Q1p/PPPBBPPP/R3K2R");
    assert_eq!(perft(&b, None, PieceColor::White, 1, &c), 48);
    assert_eq!(perft(&b, None, PieceColor::White, 2, &c), 2039);
}

#[test]
fn move_counts_with_en_passant() {
    let c = Constants::new();
    let b = from_placement("8/2p5/3p4/KP5r/1R3p1k/8/4P1P1/8");
    assert_eq!(perft(&b, None, PieceColor::White, 1, &c), 14);
    assert_eq!(perft(&b, None, PieceColor::White, 2, &c), 191);
    assert_eq!(perft(&b, None, PieceColor::White, 3, &c), 2812);
}

#[test]
fn square_board_moves_and_drawing() {
    let c = Constants::new();
    let start = NormalBoard::new_start_board();
    let moves = start.generate_possible_moves(None, PieceColor::White, &c);
    assert_eq!(moves.len(), 20);
    let (name, after) = moves.iter().find(|m| m.0 == "e2 e4").unwrap();
    assert_eq!(name, "e2 e4");
    let pawn = after.get_piece(4, 3).unwrap().unwrap();
    assert_eq!(pawn.typ, PieceType::Pawn);
    assert!(pawn.moved);
    assert_eq!(after.get_piece(4, 1), Ok(None));
    assert!(!after.get_piece(3, 1).unwrap().unwrap().moved);
    assert_eq!(start.board_ascii(false), get_bitboard_ascii(&generate_start_board(), false));
    let reach = start.generate_reachable_tiles_board(PieceColor::White, &c);
    assert_eq!(reach.len(), 8);
    assert!((0..8).all(|l| reach[l][2]));
    assert!(!reach[0][0]);
    assert!(!reach[4][3]);
}

#[test]
fn square_board_moves_land_where_named() {
    let c = Constants::new();
    let mut b = NormalBoard::new_empty_board();
    b.set_piece(4, 0, Some(ChessPiece::new(PieceType::King, PieceColor::White))).unwrap();
    b.set_piece(0, 0, Some(ChessPiece::new(PieceType::Rook, PieceColor::White))).unwrap();
    b.set_piece(4, 7, Some(ChessPiece::new(PieceType::King, PieceColor::Black))).unwrap();
    let moves = b.generate_possible_moves(None, PieceColor::White, &c);
    for (name, after) in &moves {
        let (from, to) = parse_move_string(name).unwrap();
        assert_eq!(after.get_piece((from % 8) as i32, (from / 8) as i32), Ok(None));
        let p = after.get_piece((to % 8) as i32, (to / 8) as i32).unwrap().unwrap();
        assert_eq!(p.color, PieceColor::White);
        let (kl, kn) = after.get_king_pos(PieceColor::White).unwrap();
        assert!(!after.generate_reachable_tiles_board(PieceColor::Black, &c)[kl][kn]);
    }
    let (_, castled) = moves.iter().find(|m| m.0 == "e1 c1").unwrap();
    assert_eq!(castled.get_piece(2, 0).unwrap().unwrap().typ, PieceType::King);
    assert_eq!(castled.get_piece(3, 0).unwrap().unwrap().typ, PieceType::Rook);
}
