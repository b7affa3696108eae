use chess_engine::board::ChessBoard;
use chess_engine::piece::{Color, Piece, PieceType, Position, Square};
use chess_engine::utils::initial_piece_setup;

fn empty_board() -> ChessBoard {
    ChessBoard { board: vec![None; 64], captured_pieces: Vec::new() }
}

fn put(board: &mut ChessBoard, x: usize, y: usize, t: PieceType, c: Color) {
    board.board[y * 8 + x] = Some(Piece::new(t, c));
}

#[test]
fn fresh_board_has_sixteen_pieces_per_side() {
    let board = ChessBoard::new();
    let mut white = 0;
    let mut black = 0;
    for y in 0..8 {
        for x in 0..8 {
            if let Some(piece) = board.get_piece(Position::new(x, y)) {
                match piece.color {
                    Color::White => white += 1,
                    Color::Black => black += 1,
                }
            }
        }
    }
    assert_eq!(white, 16);
    assert_eq!(black, 16);
}

#[test]
fn fresh_board_standard_setup() {
    let board = ChessBoard::new();
    let back = [
        PieceType::Rook,
        PieceType::Knight,
        PieceType::Bishop,
        PieceType::Queen,
        PieceType::King,
        PieceType::Bishop,
        PieceType::Knight,
        PieceType::Rook,
    ];
    for x in 0..8 {
        let b = board.get_piece(Position::new(x, 0)).unwrap();
        assert_eq!(b.piece_type, back[x]);
        assert_eq!(b.color, Color::Black);
        let bp = board.get_piece(Position::new(x, 1)).unwrap();
        assert_eq!(bp.piece_type, PieceType::Pawn);
        assert_eq!(bp.color, Color::Black);
        let wp = board.get_piece(Position::new(x, 6)).unwrap();
        assert_eq!(wp.piece_type, PieceType::Pawn);
        assert_eq!(wp.color, Color::White);
        let w = board.get_piece(Position::new(x, 7)).unwrap();
        assert_eq!(w.piece_type, back[x]);
        assert_eq!(w.color, Color::White);
        for y in 2..6 {
            assert!(board.get_piece(Position::new(x, y)).is_none());
        }
    }
    assert!(board.get_captured_pieces().is_empty());
}

#[test]
fn moves_of_empty_square_are_empty() {
    let board = ChessBoard::new();
    assert!(board.calculate_moves_for(Position::new(4, 4)).is_empty());
    // Off-board coordinates are treated as empty, never an error.
    assert!(board.calculate_moves_for(Position::new(9, 9)).is_empty());
    assert!(board.get_piece(Position::new(8, 0)).is_none());
}

#[test]
fn knight_on_fresh_board_has_exactly_two_targets() {
    let board = ChessBoard::new();
    // The back two ranks are occupied by own pieces, so only the two
    // forward jumps remain, in generation order.
    let black_knight = board.calculate_moves_for(Position::new(1, 0));
    assert_eq!(black_knight, vec![Position::new(2, 2), Position::new(0, 2)]);
    let white_knight = board.calculate_moves_for(Position::new(1, 7));
    assert_eq!(white_knight, vec![Position::new(2, 5), Position::new(0, 5)]);
}

#[test]
fn pawn_forward_targets_two_one_zero() {
    // Both squares ahead empty: two forward targets.
    let board = ChessBoard::new();
    let moves = board.calculate_moves_for(Position::new(4, 6));
    assert_eq!(moves, vec![Position::new(4, 5), Position::new(4, 4)]);

    // Only the nearer square empty: one forward target.
    let mut one = empty_board();
    put(&mut one, 4, 6, PieceType::Pawn, Color::White);
    put(&mut one, 4, 4, PieceType::Rook, Color::Black);
    assert_eq!(one.calculate_moves_for(Position::new(4, 6)), vec![Position::new(4, 5)]);

    // Blocked immediately: no forward target.
    let mut zero = empty_board();
    put(&mut zero, 4, 6, PieceType::Pawn, Color::White);
    put(&mut zero, 4, 5, PieceType::Rook, Color::Black);
    assert!(zero.calculate_moves_for(Position::new(4, 6)).is_empty());
}

#[test]
fn pawn_diagonal_captures_only_enemies() {
    let mut board = empty_board();
    put(&mut board, 4, 6, PieceType::Pawn, Color::White);
    put(&mut board, 3, 5, PieceType::Rook, Color::Black);
    put(&mut board, 5, 5, PieceType::Rook, Color::White);
    let moves = board.calculate_moves_for(Position::new(4, 6));
    // Forward single and double, then the one enemy diagonal.
    assert_eq!(
        moves,
        vec![Position::new(4, 5), Position::new(4, 4), Position::new(3, 5)]
    );
}

#[test]
fn black_pawn_moves_downward() {
    let board = ChessBoard::new();
    let moves = board.calculate_moves_for(Position::new(3, 1));
    assert_eq!(moves, vec![Position::new(3, 2), Position::new(3, 3)]);
}

#[test]
fn rook_rays_stop_at_first_piece() {
    let mut board = empty_board();
    put(&mut board, 3, 3, PieceType::Rook, Color::White);
    put(&mut board, 3, 6, PieceType::Pawn, Color::Black);
    put(&mut board, 6, 3, PieceType::Pawn, Color::White);
    let moves = board.calculate_moves_for(Position::new(3, 3));
    // Directions in order: down (stops on the enemy pawn, included), right
    // (stops before the own pawn), up, left.
    assert_eq!(
        moves,
        vec![
            Position::new(3, 4),
            Position::new(3, 5),
            Position::new(3, 6),
            Position::new(4, 3),
            Position::new(5, 3),
            Position::new(3, 2),
            Position::new(3, 1),
            Position::new(3, 0),
            Position::new(2, 3),
            Position::new(1, 3),
            Position::new(0, 3),
        ]
    );
}

#[test]
fn queen_combines_all_eight_rays() {
    let mut board = empty_board();
    put(&mut board, 0, 0, PieceType::Queen, Color::White);
    let moves = board.calculate_moves_for(Position::new(0, 0));
    // Only three rays leave the corner: (1,1), (1,0) and (0,1).
    assert_eq!(moves.len(), 21);
    assert!(moves.contains(&Position::new(7, 7)));
    assert!(moves.contains(&Position::new(7, 0)));
    assert!(moves.contains(&Position::new(0, 7)));
}

#[test]
fn king_steps_one_square() {
    let mut board = empty_board();
    put(&mut board, 4, 4, PieceType::King, Color::White);
    put(&mut board, 5, 5, PieceType::Pawn, Color::White);
    put(&mut board, 3, 3, PieceType::Pawn, Color::Black);
    let moves = board.calculate_moves_for(Position::new(4, 4));
    assert_eq!(moves.len(), 7);
    assert!(!moves.contains(&Position::new(5, 5)));
    assert!(moves.contains(&Position::new(3, 3)));
}

#[test]
fn move_piece_reports_errors_and_captures() {
    let mut board = ChessBoard::new();
    assert_eq!(
        board.move_piece(Position::new(9, 0), Position::new(0, 0)),
        Err("Invalid position".to_string())
    );
    assert_eq!(
        board.move_piece(Position::new(4, 4), Position::new(4, 5)),
        Err("No piece at source position".to_string())
    );
    // A capture appends to the capture list and clears the source square.
    assert_eq!(board.move_piece(Position::new(4, 6), Position::new(4, 1)), Ok(()));
    assert!(board.get_piece(Position::new(4, 6)).is_none());
    let moved = board.get_piece(Position::new(4, 1)).unwrap();
    assert_eq!(moved.piece_type, PieceType::Pawn);
    assert_eq!(moved.color, Color::White);
    let captured = board.get_captured_pieces();
    assert_eq!(captured.len(), 1);
    assert_eq!(captured[0].piece_type, PieceType::Pawn);
    assert_eq!(captured[0].color, Color::Black);
}

#[test]
fn check_detection_sees_rook_line() {
    let mut board = empty_board();
    put(&mut board, 0, 0, PieceType::King, Color::Black);
    put(&mut board, 0, 7, PieceType::Rook, Color::White);
    assert!(board.is_king_in_check(Color::Black));
    // Interpose a piece and the check disappears.
    put(&mut board, 0, 4, PieceType::Pawn, Color::White);
    assert!(!board.is_king_in_check(Color::Black));
    // A missing king reports false, not an error.
    assert!(!board.is_king_in_check(Color::White));
}

#[test]
fn fresh_board_is_not_check() {
    let board = ChessBoard::new();
    assert!(!board.is_king_in_check(Color::White));
    assert!(!board.is_king_in_check(Color::Black));
}

#[test]
fn square_calculate_moves_reads_explicit_cells() {
    // A full 8x8 board of explicit squares with one knight.
    let mut rows: Vec<Vec<Option<Square>>> = Vec::new();
    for y in 0..8 {
        let mut row = Vec::new();
        for x in 0..8 {
            row.push(Some(Square::new(x, y, None)));
        }
        rows.push(row);
    }
    rows[4][4] = Some(Square::new(4, 4, Some(Piece::new(PieceType::Knight, Color::White))));
    let sq = Square::new(4, 4, Some(Piece::new(PieceType::Knight, Color::White)));
    let moves = sq.calculate_moves(Position::new(4, 4), &rows);
    assert_eq!(moves.len(), 8);

    // Missing cells block like own pieces: drop one target square.
    rows[5][6] = None;
    let fewer = sq.calculate_moves(Position::new(4, 4), &rows);
    assert_eq!(fewer.len(), 7);
    assert!(!fewer.contains(&Position::new(6, 5)));

    // A square holding no piece has no moves.
    let bare = Square::new(0, 0, None);
    assert!(bare.calculate_moves(Position::new(0, 0), &rows).is_empty());
}

#[test]
fn square_calculate_moves_ray_stops_at_missing_cell() {
    let mut rows: Vec<Vec<Option<Square>>> = Vec::new();
    for y in 0..8 {
        let mut row = Vec::new();
        for x in 0..8 {
            row.push(Some(Square::new(x, y, None)));
        }
        rows.push(row);
    }
    rows[3][5] = None;
    let rook = Square::new(3, 3, Some(Piece::new(PieceType::Rook, Color::White)));
    let moves = rook.calculate_moves(Position::new(3, 3), &rows);
    // The rightward ray stops before the missing cell at (5, 3).
    assert!(moves.contains(&Position::new(4, 3)));
    assert!(!moves.contains(&Position::new(5, 3)));
    assert!(!moves.contains(&Position::new(6, 3)));
}

#[test]
fn initial_piece_setup_table() {
    // This table reads row 0 as White's back rank.
    let king = initial_piece_setup(4, 0).unwrap();
    assert_eq!(king.piece_type, PieceType::King);
    assert_eq!(king.color, Color::White);
    let pawn = initial_piece_setup(5, 1).unwrap();
    assert_eq!(pawn.piece_type, PieceType::Pawn);
    assert_eq!(pawn.color, Color::White);
    let black_queen = initial_piece_setup(3, 7).unwrap();
    assert_eq!(black_queen.piece_type, PieceType::Queen);
    assert_eq!(black_queen.color, Color::Black);
    assert!(initial_piece_setup(4, 4).is_none());
    assert!(initial_piece_setup(8, 0).is_none());
}

#[test]
fn position_apply_delta_bounds() {
    let p = Position::new(0, 0);
    assert_eq!(p.apply_delta(-1, 0), None);
    assert_eq!(p.apply_delta(0, -1), None);
    assert_eq!(p.apply_delta(1, 2), Some(Position::new(1, 2)));
    let q = Position::new(7, 7);
    assert_eq!(q.apply_delta(1, 0), None);
    assert_eq!(q.apply_delta(-7, -7), Some(Position::new(0, 0)));
}

#[test]
fn color_opposite_is_involutive() {
    assert_eq!(Color::White.opposite(), Color::Black);
    assert_eq!(Color::Black.opposite(), Color::White);
    assert_eq!(Color::White.opposite().opposite(), Color::White);
}

#[test]
fn piece_type_is_pawn() {
    assert!(PieceType::Pawn.is_pawn());
    assert!(!PieceType::King.is_pawn());
    assert!(!PieceType::Knight.is_pawn());
}
