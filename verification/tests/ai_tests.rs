use chess_engine::ai::{evaluate_position, find_best_move, make_ai_move, minimax};
use chess_engine::board::ChessBoard;
use chess_engine::piece::{Color, Piece, PieceType, Position};
use chess_engine::state::{Difficulty, GameConfig, GameState};

fn empty_board() -> ChessBoard {
    ChessBoard { board: vec![None; 64], captured_pieces: Vec::new() }
}

fn put(board: &mut ChessBoard, x: usize, y: usize, t: PieceType, c: Color) {
    board.board[y * 8 + x] = Some(Piece::new(t, c));
}

fn bare_state(board: ChessBoard, to_move: Color) -> GameState {
    GameState {
        board,
        current_player: to_move,
        selected_square: None,
        possible_moves: Vec::new(),
        game_over: false,
        winner: None,
        is_check: false,
        config: GameConfig::default(),
        move_history: Vec::new(),
    }
}

#[test]
fn fresh_board_evaluates_to_zero() {
    let state = GameState::new();
    assert_eq!(evaluate_position(&state, Color::White), 0);
    assert_eq!(evaluate_position(&state, Color::Black), 0);
}

#[test]
fn material_and_bonus_are_exact() {
    // A lone white pawn on (4, 4): 100 material + 20 positional.
    let mut board = empty_board();
    put(&mut board, 4, 4, PieceType::Pawn, Color::White);
    let state = bare_state(board, Color::White);
    assert_eq!(evaluate_position(&state, Color::White), 120);
    assert_eq!(evaluate_position(&state, Color::Black), -120);

    // A lone black pawn on (4, 3): the table row is mirrored, 7 - 3 = 4,
    // so the same 20-point bonus applies.
    let mut board2 = empty_board();
    put(&mut board2, 4, 3, PieceType::Pawn, Color::Black);
    let state2 = bare_state(board2, Color::White);
    assert_eq!(evaluate_position(&state2, Color::Black), 120);
    assert_eq!(evaluate_position(&state2, Color::White), -120);
}

#[test]
fn knight_corner_penalty_is_exact() {
    let mut board = empty_board();
    put(&mut board, 0, 0, PieceType::Knight, Color::White);
    let state = bare_state(board, Color::White);
    // 300 material - 50 corner penalty.
    assert_eq!(evaluate_position(&state, Color::White), 250);
}

#[test]
fn check_penalty_applies_to_the_side_to_move() {
    let mut state = bare_state(empty_board(), Color::White);
    state.is_check = true;
    assert_eq!(evaluate_position(&state, Color::White), -50);
    assert_eq!(evaluate_position(&state, Color::Black), 0);
}

#[test]
fn minimax_depth_zero_is_static_evaluation() {
    let mut board = empty_board();
    put(&mut board, 0, 0, PieceType::Knight, Color::White);
    put(&mut board, 7, 7, PieceType::Pawn, Color::Black);
    let state = bare_state(board, Color::White);
    let expected = evaluate_position(&state, Color::White);
    assert_eq!(minimax(&state, 0, true, i32::MIN, i32::MAX), expected);
    assert_eq!(minimax(&state, 0, false, i32::MIN, i32::MAX), expected);
}

#[test]
fn depth_one_search_maximizes_immediate_evaluation() {
    let state = GameState::new();
    // Recompute the depth-1 choice by hand: the first move, in enumeration
    // order, whose immediate static evaluation (from the point of view of
    // the side to move in the resulting position) is strictly best.
    let mut best: Option<(Position, Position)> = None;
    let mut best_score = i32::MIN;
    for y in 0..8 {
        for x in 0..8 {
            let pos = Position::new(x, y);
            if let Some(piece) = state.board.get_piece(pos) {
                if piece.color == state.current_player {
                    for target in state.board.calculate_moves_for(pos) {
                        let mut temp = state.clone();
                        temp.move_piece_from(pos, target).unwrap();
                        let score = evaluate_position(&temp, temp.current_player);
                        if score > best_score {
                            best_score = score;
                            best = Some((pos, target));
                        }
                    }
                }
            }
        }
    }
    assert_eq!(find_best_move(&state, 1), Ok(best.unwrap()));
}

#[test]
fn easy_ai_with_single_move_is_forced() {
    // Black's only pseudo-legal move is the king capturing on (1, 1).
    let mut board = empty_board();
    put(&mut board, 0, 0, PieceType::King, Color::Black);
    put(&mut board, 1, 0, PieceType::Pawn, Color::Black);
    put(&mut board, 0, 1, PieceType::Pawn, Color::Black);
    put(&mut board, 1, 1, PieceType::Pawn, Color::White);
    put(&mut board, 0, 2, PieceType::Pawn, Color::White);
    let mut state = bare_state(board, Color::Black);

    let r = make_ai_move(&mut state, &Difficulty::EASY);
    assert_eq!(r, Ok(()));
    let king = state.board.get_piece(Position::new(1, 1)).unwrap();
    assert_eq!(king.piece_type, PieceType::King);
    assert_eq!(king.color, Color::Black);
    assert!(state.board.get_piece(Position::new(0, 0)).is_none());
    assert_eq!(state.board.get_captured_pieces().len(), 1);
    assert_eq!(state.current_player, Color::White);
}

#[test]
fn easy_ai_plays_some_legal_opening_move() {
    let mut state = GameState::new();
    let r = make_ai_move(&mut state, &Difficulty::EASY);
    assert_eq!(r, Ok(()));
    assert_eq!(state.current_player, Color::Black);
    assert_eq!(state.move_history.len(), 1);
}

#[test]
fn medium_ai_prefers_the_only_capture() {
    // White's only capture is the rook taking on (0, 0); no move gives
    // check because no black king is on the board.
    let mut board = empty_board();
    put(&mut board, 0, 7, PieceType::Rook, Color::White);
    put(&mut board, 0, 0, PieceType::Pawn, Color::Black);
    put(&mut board, 7, 6, PieceType::Pawn, Color::White);
    let mut state = bare_state(board, Color::White);

    let r = make_ai_move(&mut state, &Difficulty::MEDIUM);
    assert_eq!(r, Ok(()));
    let rook = state.board.get_piece(Position::new(0, 0)).unwrap();
    assert_eq!(rook.piece_type, PieceType::Rook);
    assert_eq!(state.board.get_captured_pieces().len(), 1);
}

#[test]
fn medium_ai_prefers_check_over_quiet_moves() {
    let mut board = empty_board();
    put(&mut board, 0, 7, PieceType::Rook, Color::White);
    put(&mut board, 7, 0, PieceType::King, Color::Black);
    put(&mut board, 3, 6, PieceType::Pawn, Color::White);
    let mut state = bare_state(board, Color::White);

    let r = make_ai_move(&mut state, &Difficulty::MEDIUM);
    assert_eq!(r, Ok(()));
    assert!(state.is_check);
}

#[test]
fn hard_ai_moves_on_a_sparse_board() {
    let mut board = empty_board();
    put(&mut board, 3, 3, PieceType::Queen, Color::White);
    put(&mut board, 0, 0, PieceType::King, Color::Black);
    put(&mut board, 7, 7, PieceType::Pawn, Color::Black);
    let mut state = bare_state(board, Color::White);

    let r = make_ai_move(&mut state, &Difficulty::HARD);
    assert_eq!(r, Ok(()));
    assert_eq!(state.current_player, Color::Black);
    assert_eq!(state.move_history.len(), 1);
}

#[test]
fn ai_reports_no_moves_as_errors() {
    let empty_white = bare_state(empty_board(), Color::White);
    let mut s1 = empty_white.clone();
    assert_eq!(
        make_ai_move(&mut s1, &Difficulty::EASY),
        Err("No valid moves for AI".to_string())
    );
    let mut s2 = empty_white.clone();
    assert_eq!(
        make_ai_move(&mut s2, &Difficulty::MEDIUM),
        Err("No valid moves for AI".to_string())
    );
    let mut s3 = empty_white.clone();
    assert_eq!(
        make_ai_move(&mut s3, &Difficulty::HARD),
        Err("No valid moves found".to_string())
    );
    // A failed attempt leaves the state untouched.
    assert_eq!(s1, empty_white);
    assert_eq!(s2, empty_white);
    assert_eq!(s3, empty_white);
}
