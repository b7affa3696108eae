//! Piece identity, color, and board coordinates: the value types that the
//! rest of the engine is built on.
use vstd::prelude::*;

verus! {

/// The six kinds of chess piece.
#[derive(Clone, Copy, Debug, PartialEq, Eq, Structural)]
pub enum PieceType {
    Pawn,
    Rook,
    Knight,
    Bishop,
    Queen,
    King,
}

impl PieceType {
    /// True exactly when this is a pawn.
    pub fn is_pawn(&self) -> (r: bool)
        ensures
            r == (*self == PieceType::Pawn),
    {
        matches!(self, PieceType::Pawn)
    }
}

/// The two sides.
#[derive(Clone, Copy, Debug, PartialEq, Eq, Structural)]
pub enum Color {
    White,
    Black,
}

impl Color {
    /// The other side's color.
    pub open spec fn spec_opposite(self) -> Color {
        match self {
            Color::White => Color::Black,
            Color::Black => Color::White,
        }
    }

    /// Returns the other side's color.
    pub fn opposite(&self) -> (r: Self)
        ensures
            r == self.spec_opposite(),
    {
        match self {
            Color::White => Color::Black,
            Color::Black => Color::White,
        }
    }
}

/// Flipping a color twice gives the color back: `opposite` is an involution.
pub proof fn lemma_opposite_involutive(c: Color)
    ensures
        c.spec_opposite().spec_opposite() == c,
        c.spec_opposite() != c,
{
}

/// A coordinate on the 8x8 board: `x` is the column, `y` the row.
#[derive(Clone, Copy, Debug, PartialEq, Eq, Structural)]
pub struct Position {
    pub x: usize,
    pub y: usize,
}

/// Where `apply_delta` lands: the shifted coordinate when it stays on the
/// board, nothing when the shift would leave it.
pub open spec fn spec_apply_delta(p: Position, dx: int, dy: int) -> Option<Position> {
    let nx = p.x + dx;
    let ny = p.y + dy;
    if 0 <= nx < 8 && 0 <= ny < 8 {
        Some(Position { x: nx as usize, y: ny as usize })
    } else {
        None
    }
}

impl Position {
    /// A coordinate that actually lies on the 8x8 board.
    pub open spec fn wf(self) -> bool {
        self.x < 8 && self.y < 8
    }

    pub fn new(x: usize, y: usize) -> (r: Self)
        ensures
            r == (Position { x, y }),
    {
        Position { x, y }
    }

    /// Adds a delta to the coordinates; returns `None` if the result would
    /// leave the 8x8 bound. All move generation funnels through this check.
    pub fn apply_delta(&self, dx: i32, dy: i32) -> (r: Option<Position>)
        requires
            self.wf(),
        ensures
            r == spec_apply_delta(*self, dx as int, dy as int),
            r matches Some(p) ==> p.wf(),
    {
        let new_x: i64 = self.x as i64 + dx as i64;
        let new_y: i64 = self.y as i64 + dy as i64;
        if new_x >= 0 && new_x < 8 && new_y >= 0 && new_y < 8 {
            Some(Position::new(new_x as usize, new_y as usize))
        } else {
            None
        }
    }
}

/// A piece: its kind together with the side it belongs to.
#[derive(Clone, Copy, Debug, PartialEq, Eq, Structural)]
pub struct Piece {
    pub piece_type: PieceType,
    pub color: Color,
}

impl Piece {
    pub fn new(piece_type: PieceType, color: Color) -> (r: Self)
        ensures
            r == (Piece { piece_type, color }),
    {
        Piece { piece_type, color }
    }
}

/// A square of a board given as explicit cells: its coordinates and the
/// piece standing on it, if any.
#[derive(Clone, Copy, Debug)]
pub struct Square {
    pub x: usize,
    pub y: usize,
    pub piece: Option<Piece>,
}

impl Square {
    pub fn new(x: usize, y: usize, piece: Option<Piece>) -> (r: Self)
        ensures
            r == (Square { x, y, piece }),
    {
        Square { x, y, piece }
    }
}

} // verus!
