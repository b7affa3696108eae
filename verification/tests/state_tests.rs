use chess_engine::board::ChessBoard;
use chess_engine::history::MoveHistory;
use chess_engine::piece::{Color, Piece, PieceType, Position};
use chess_engine::state::{Difficulty, GameConfig, GameMode, GameState};

fn empty_board() -> ChessBoard {
    ChessBoard { board: vec![None; 64], captured_pieces: Vec::new() }
}

fn put(board: &mut ChessBoard, x: usize, y: usize, t: PieceType, c: Color) {
    board.board[y * 8 + x] = Some(Piece::new(t, c));
}

fn bare_state(board: ChessBoard, to_move: Color) -> GameState {
    GameState {
        board,
        current_player: to_move,
        selected_square: None,
        possible_moves: Vec::new(),
        game_over: false,
        winner: None,
        is_check: false,
        config: GameConfig::default(),
        move_history: Vec::new(),
    }
}

#[test]
fn new_game_defaults() {
    let state = GameState::new();
    assert_eq!(state.current_player, Color::White);
    assert!(state.selected_square.is_none());
    assert!(state.possible_moves.is_empty());
    assert!(!state.game_over);
    assert!(state.winner.is_none());
    assert!(!state.is_check);
    assert!(state.move_history.is_empty());
    assert_eq!(state.config.mode, GameMode::LOCAL);
    assert!(state.config.difficulty.is_none());
    assert!(state.config.player_color.is_none());
    assert!(state.config.game_id.is_none());
}

#[test]
fn new_with_config_keeps_config() {
    let config = GameConfig {
        mode: GameMode::AI,
        difficulty: Some(Difficulty::HARD),
        player_color: Some(Color::White),
        game_id: Some("table-9".to_string()),
    };
    let state = GameState::new_with_config(config);
    assert_eq!(state.config.mode, GameMode::AI);
    assert_eq!(state.config.difficulty, Some(Difficulty::HARD));
    assert_eq!(state.config.player_color, Some(Color::White));
    assert_eq!(state.config.game_id.as_deref(), Some("table-9"));
    assert_eq!(state.current_player, Color::White);
}

#[test]
fn select_own_piece_pins_moves() {
    let mut state = GameState::new();
    let moves = state.select_square(Position::new(4, 6));
    assert_eq!(moves, vec![Position::new(4, 5), Position::new(4, 4)]);
    assert_eq!(state.selected_square, Some(Position::new(4, 6)));
    assert_eq!(state.possible_moves, moves);
}

#[test]
fn select_opponent_piece_always_clears() {
    let mut state = GameState::new();
    // Pin something first so there is a selection to clear.
    state.select_square(Position::new(4, 6));
    assert!(state.selected_square.is_some());

    let first = state.select_square(Position::new(4, 1));
    assert!(first.is_empty());
    assert!(state.selected_square.is_none());
    assert!(state.possible_moves.is_empty());

    // Doing it again changes nothing: the operation is idempotent there.
    let second = state.select_square(Position::new(4, 1));
    assert!(second.is_empty());
    assert!(state.selected_square.is_none());
    assert!(state.possible_moves.is_empty());
}

#[test]
fn select_empty_square_clears() {
    let mut state = GameState::new();
    state.select_square(Position::new(4, 6));
    let moves = state.select_square(Position::new(4, 4));
    assert!(moves.is_empty());
    assert!(state.selected_square.is_none());
}

#[test]
fn white_pawn_e2_to_e4_scenario() {
    let mut state = GameState::new();
    let r = state.move_piece_from(Position::new(4, 6), Position::new(4, 4));
    assert_eq!(r, Ok(()));
    assert_eq!(state.current_player, Color::Black);
    assert_eq!(state.move_history, vec!["e2-e4".to_string()]);
    assert!(!state.is_check);
    assert!(!state.game_over);
    let moved = state.board.get_piece(Position::new(4, 4)).unwrap();
    assert_eq!(moved.piece_type, PieceType::Pawn);
    assert!(state.board.get_piece(Position::new(4, 6)).is_none());
}

#[test]
fn invalid_move_is_rejected_without_side_effects() {
    let mut state = GameState::new();
    let snapshot = state.clone();
    let r = state.move_piece_from(Position::new(4, 6), Position::new(4, 3));
    assert_eq!(r, Err("Invalid move".to_string()));
    assert_eq!(state, snapshot);
    // A move from an empty square fails the same way: its move set is empty.
    let r2 = state.move_piece_from(Position::new(4, 4), Position::new(4, 3));
    assert_eq!(r2, Err("Invalid move".to_string()));
    assert_eq!(state, snapshot);
}

#[test]
fn move_piece_requires_selection() {
    let mut state = GameState::new();
    let r = state.move_piece(Position::new(4, 4));
    assert_eq!(r, Err("No square selected".to_string()));
    state.select_square(Position::new(4, 6));
    assert_eq!(state.move_piece(Position::new(4, 4)), Ok(()));
    // The move clears the selection again.
    assert!(state.selected_square.is_none());
    assert!(state.possible_moves.is_empty());
}

#[test]
fn capture_notation_and_list() {
    let mut board = empty_board();
    put(&mut board, 1, 7, PieceType::Knight, Color::White);
    put(&mut board, 2, 5, PieceType::Pawn, Color::Black);
    let mut state = bare_state(board, Color::White);
    let r = state.move_piece_from(Position::new(1, 7), Position::new(2, 5));
    assert_eq!(r, Ok(()));
    assert_eq!(state.move_history, vec!["Nb1xc3".to_string()]);
    assert_eq!(state.board.get_captured_pieces().len(), 1);
}

#[test]
fn capturing_king_ends_game_in_movers_favor() {
    let mut board = empty_board();
    put(&mut board, 3, 3, PieceType::Queen, Color::White);
    put(&mut board, 3, 0, PieceType::King, Color::Black);
    let mut state = bare_state(board, Color::White);
    let r = state.move_piece_from(Position::new(3, 3), Position::new(3, 0));
    assert_eq!(r, Ok(()));
    assert!(state.game_over);
    assert_eq!(state.winner, Some(Color::White));
    assert_eq!(state.current_player, Color::Black);
    assert_eq!(state.move_history, vec!["Qd5xd8".to_string()]);
}

#[test]
fn moves_are_still_accepted_after_game_over() {
    // King capture ends the game, but the move path itself does not test
    // the flag: a later pseudo-legal move is still executed.
    let mut board = empty_board();
    put(&mut board, 3, 3, PieceType::Queen, Color::White);
    put(&mut board, 3, 0, PieceType::King, Color::Black);
    put(&mut board, 7, 1, PieceType::Pawn, Color::Black);
    let mut state = bare_state(board, Color::White);
    state.move_piece_from(Position::new(3, 3), Position::new(3, 0)).unwrap();
    assert!(state.game_over);
    let r = state.move_piece_from(Position::new(7, 1), Position::new(7, 2));
    assert_eq!(r, Ok(()));
    assert!(state.game_over);
    assert_eq!(state.winner, Some(Color::White));
}

#[test]
fn history_clear_empties_the_stack() {
    let state = GameState::new();
    let mut history = MoveHistory::new();
    history.push_snapshot(&state);
    history.push_snapshot(&state);
    history.clear();
    assert_eq!(history.len(), 0);
    assert!(history.pop_snapshot().is_none());
}

#[test]
fn moving_gives_check_flag() {
    let mut board = empty_board();
    put(&mut board, 0, 7, PieceType::Rook, Color::White);
    put(&mut board, 4, 0, PieceType::King, Color::Black);
    let mut state = bare_state(board, Color::White);
    // Rook a1 to e1... the rook walks to column 4 and checks the king.
    let r = state.move_piece_from(Position::new(0, 7), Position::new(4, 7));
    assert_eq!(r, Ok(()));
    assert!(state.is_check);
}

#[test]
fn undo_round_trip_restores_snapshot() {
    let mut state = GameState::new();
    let mut history = MoveHistory::new();
    history.push_snapshot(&state);
    let snapshot = state.clone();
    state
        .move_piece_from(Position::new(4, 6), Position::new(4, 4))
        .unwrap();
    assert_ne!(state, snapshot);
    let restored = history.pop_snapshot().unwrap();
    assert_eq!(restored, snapshot);
    assert_eq!(history.len(), 0);
}

#[test]
fn undo_stack_caps_at_fifty() {
    let state = GameState::new();
    let mut history = MoveHistory::new();
    for _ in 0..55 {
        history.push_snapshot(&state);
    }
    assert_eq!(history.len(), 50);
    let mut marked = GameState::new();
    marked.move_piece_from(Position::new(4, 6), Position::new(4, 4)).unwrap();
    history.push_snapshot(&marked);
    assert_eq!(history.len(), 50);
    assert_eq!(history.pop_snapshot().unwrap(), marked);
}

#[test]
fn pop_on_empty_history_is_none() {
    let mut history = MoveHistory::new();
    assert!(history.pop_snapshot().is_none());
}

#[test]
fn multiplayer_touch_selects_and_moves() {
    let mut state = GameState::new();
    state.config.mode = GameMode::MULTIPLAYER;
    // Tap an own piece: selects it.
    state.select_square_multiplayer(Position::new(4, 6));
    assert_eq!(state.selected_square, Some(Position::new(4, 6)));
    assert!(!state.possible_moves.is_empty());
    // Tap a pinned empty target: executes the move.
    state.select_square_multiplayer(Position::new(4, 4));
    assert!(state.board.get_piece(Position::new(4, 4)).is_some());
    assert_eq!(state.current_player, Color::Black);
    assert!(state.selected_square.is_none());
}

#[test]
fn multiplayer_touch_clears_on_opponent_or_stray_square() {
    let mut state = GameState::new();
    state.select_square_multiplayer(Position::new(4, 6));
    // Tap an opposing piece: clears.
    state.select_square_multiplayer(Position::new(4, 1));
    assert!(state.selected_square.is_none());
    // Tap an empty square with no selection: nothing happens.
    let before = state.clone();
    state.select_square_multiplayer(Position::new(4, 4));
    assert_eq!(state, before);
    // Tap a stray empty square with a selection: clears it.
    state.select_square_multiplayer(Position::new(4, 6));
    state.select_square_multiplayer(Position::new(0, 4));
    assert!(state.selected_square.is_none());
    assert_eq!(state.current_player, Color::White);
}

#[test]
fn game_state_clone_equals_original() {
    let mut state = GameState::new();
    state.move_piece_from(Position::new(4, 6), Position::new(4, 4)).unwrap();
    state.select_square(Position::new(4, 1));
    let copy = state.clone();
    assert_eq!(copy, state);
}
