//! A free-standing setup table mapping a coordinate to the piece it starts
//! with. Note that this table reads `y = 0` as White's back rank, the
//! opposite orientation from the one `ChessBoard::new` uses; it is kept as
//! its own lookup and is not consulted by the board.
use vstd::prelude::*;

use crate::piece::{Color, Piece, PieceType};

verus! {

/// The piece this table assigns to `(x, y)`: White's back rank on row 0 and
/// pawns on row 1, Black's pawns on row 6 and back rank on row 7.
pub open spec fn initial_setup_at(x: int, y: int) -> Option<Piece> {
    if y == 1 {
        Some(Piece { piece_type: PieceType::Pawn, color: Color::White })
    } else if y == 6 {
        Some(Piece { piece_type: PieceType::Pawn, color: Color::Black })
    } else if y == 0 {
        if x == 0 || x == 7 {
            Some(Piece { piece_type: PieceType::Rook, color: Color::White })
        } else if x == 1 || x == 6 {
            Some(Piece { piece_type: PieceType::Knight, color: Color::White })
        } else if x == 2 || x == 5 {
            Some(Piece { piece_type: PieceType::Bishop, color: Color::White })
        } else if x == 3 {
            Some(Piece { piece_type: PieceType::Queen, color: Color::White })
        } else if x == 4 {
            Some(Piece { piece_type: PieceType::King, color: Color::White })
        } else {
            None
        }
    } else if y == 7 {
        if x == 0 || x == 7 {
            Some(Piece { piece_type: PieceType::Rook, color: Color::Black })
        } else if x == 1 || x == 6 {
            Some(Piece { piece_type: PieceType::Knight, color: Color::Black })
        } else if x == 2 || x == 5 {
            Some(Piece { piece_type: PieceType::Bishop, color: Color::Black })
        } else if x == 3 {
            Some(Piece { piece_type: PieceType::Queen, color: Color::Black })
        } else if x == 4 {
            Some(Piece { piece_type: PieceType::King, color: Color::Black })
        } else {
            None
        }
    } else {
        None
    }
}

/// Returns the piece this table's setup puts on `(x, y)`, or nothing.
pub fn initial_piece_setup(x: usize, y: usize) -> (r: Option<Piece>)
    ensures
        r == initial_setup_at(x as int, y as int),
{
    if y == 1 {
        Some(Piece { piece_type: PieceType::Pawn, color: Color::White })
    } else if y == 6 {
        Some(Piece { piece_type: PieceType::Pawn, color: Color::Black })
    } else if y == 0 || y == 7 {
        let color = if y == 0 { Color::White } else { Color::Black };
        if x == 0 || x == 7 {
            Some(Piece { piece_type: PieceType::Rook, color })
        } else if x == 1 || x == 6 {
            Some(Piece { piece_type: PieceType::Knight, color })
        } else if x == 2 || x == 5 {
            Some(Piece { piece_type: PieceType::Bishop, color })
        } else if x == 3 {
            Some(Piece { piece_type: PieceType::Queen, color })
        } else if x == 4 {
            Some(Piece { piece_type: PieceType::King, color })
        } else {
            None
        }
    } else {
        None
    }
}

} // verus!
