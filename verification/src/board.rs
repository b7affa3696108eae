//! The 8x8 board: placement truth, capture bookkeeping, per-piece
//! pseudo-legal move enumeration, and check detection.
//!
//! Move generation is pseudo-legal: it obeys piece-movement and occupancy
//! rules but does not exclude moves that would leave the mover's own king
//! in check.
use vstd::prelude::*;

use crate::piece::{Color, Piece, PieceType, Position, Square, spec_apply_delta};

verus! {

pub const BOARD_SIZE: usize = 8;

/// A chess board: 64 optional pieces in row-major order (`y * 8 + x`),
/// plus the pieces captured so far, oldest first.
#[derive(Debug)]
pub struct ChessBoard {
    pub board: Vec<Option<Piece>>,
    pub captured_pieces: Vec<Piece>,
}

/// The mathematical content of a board: the grid as a sequence of 64
/// optional pieces, and the capture list.
#[verifier::ext_equal]
pub ghost struct BoardView {
    pub grid: Seq<Option<Piece>>,
    pub captured: Seq<Piece>,
}

impl BoardView {
    /// A board view is well formed when the grid has exactly 64 cells.
    pub open spec fn wf(self) -> bool {
        self.grid.len() == 64
    }
}

impl View for ChessBoard {
    type V = BoardView;

    open spec fn view(&self) -> BoardView {
        BoardView { grid: self.board@, captured: self.captured_pieces@ }
    }
}

/// True when `(x, y)` lies on the board.
pub open spec fn in_bounds(x: int, y: int) -> bool {
    0 <= x < 8 && 0 <= y < 8
}

/// The piece standing at `(x, y)`; coordinates off the board hold nothing.
pub open spec fn grid_at(grid: Seq<Option<Piece>>, x: int, y: int) -> Option<Piece> {
    if in_bounds(x, y) {
        grid[y * 8 + x]
    } else {
        None
    }
}

/// An on-board square holding no piece.
pub open spec fn empty_at(grid: Seq<Option<Piece>>, x: int, y: int) -> bool {
    in_bounds(x, y) && grid_at(grid, x, y) is None
}

/// An on-board square holding a piece of the side opposite to `c`.
pub open spec fn enemy_at(grid: Seq<Option<Piece>>, x: int, y: int, c: Color) -> bool {
    in_bounds(x, y) && match grid_at(grid, x, y) {
        Some(p) => p.color != c,
        None => false,
    }
}

/// One fixed-offset step for a piece of color `c`: the target square when
/// it is on the board and empty or capturable, nothing otherwise.
pub open spec fn step_target_spec(
    grid: Seq<Option<Piece>>,
    p: Position,
    dx: int,
    dy: int,
    c: Color,
) -> Option<Position> {
    let nx = p.x + dx;
    let ny = p.y + dy;
    if in_bounds(nx, ny) && (empty_at(grid, nx, ny) || enemy_at(grid, nx, ny, c)) {
        Some(Position { x: nx as usize, y: ny as usize })
    } else {
        None
    }
}

/// A candidate target as a sequence: one position if admitted, else empty.
pub open spec fn opt_seq(o: Option<Position>) -> Seq<Position> {
    match o {
        Some(p) => seq![p],
        None => Seq::empty(),
    }
}

/// The knight's eight offsets, in generation order.
pub open spec fn knight_delta(i: int) -> (int, int) {
    if i == 0 { (2, 1) }
    else if i == 1 { (2, -1) }
    else if i == 2 { (-2, 1) }
    else if i == 3 { (-2, -1) }
    else if i == 4 { (1, 2) }
    else if i == 5 { (1, -2) }
    else if i == 6 { (-1, 2) }
    else { (-1, -2) }
}

/// The king's eight offsets, in generation order; also the queen's ray
/// directions.
pub open spec fn king_delta(i: int) -> (int, int) {
    if i == 0 { (1, 1) }
    else if i == 1 { (1, 0) }
    else if i == 2 { (1, -1) }
    else if i == 3 { (0, 1) }
    else if i == 4 { (0, -1) }
    else if i == 5 { (-1, 1) }
    else if i == 6 { (-1, 0) }
    else { (-1, -1) }
}

/// The rook's four ray directions, in generation order.
pub open spec fn rook_delta(i: int) -> (int, int) {
    if i == 0 { (0, 1) }
    else if i == 1 { (1, 0) }
    else if i == 2 { (0, -1) }
    else { (-1, 0) }
}

/// The bishop's four ray directions, in generation order.
pub open spec fn bishop_delta(i: int) -> (int, int) {
    if i == 0 { (1, 1) }
    else if i == 1 { (1, -1) }
    else if i == 2 { (-1, -1) }
    else { (-1, 1) }
}

/// Knight targets contributed by offsets `i..8`.
pub open spec fn knight_targets_from(
    grid: Seq<Option<Piece>>,
    p: Position,
    c: Color,
    i: int,
) -> Seq<Position>
    decreases 8 - i,
{
    if i < 0 || i >= 8 {
        Seq::empty()
    } else {
        opt_seq(step_target_spec(grid, p, knight_delta(i).0, knight_delta(i).1, c))
            + knight_targets_from(grid, p, c, i + 1)
    }
}

/// King targets contributed by offsets `i..8`.
pub open spec fn king_targets_from(
    grid: Seq<Option<Piece>>,
    p: Position,
    c: Color,
    i: int,
) -> Seq<Position>
    decreases 8 - i,
{
    if i < 0 || i >= 8 {
        Seq::empty()
    } else {
        opt_seq(step_target_spec(grid, p, king_delta(i).0, king_delta(i).1, c))
            + king_targets_from(grid, p, c, i + 1)
    }
}

/// How far the walk at `(x, y)` still is from the edge it is moving toward;
/// the termination measure of a ray.
pub open spec fn ray_measure(x: int, y: int, dx: int, dy: int) -> int {
    if dx == 1 { 7 - x }
    else if dx == -1 { x }
    else if dy == 1 { 7 - y }
    else { y }
}

/// The squares a ray from `(x, y)` in direction `(dx, dy)` reaches, in walk
/// order: every empty square up to the first occupied one, which is included
/// exactly when it holds the opposite color.
pub open spec fn ray_targets(
    grid: Seq<Option<Piece>>,
    x: int,
    y: int,
    dx: int,
    dy: int,
    c: Color,
) -> Seq<Position>
    decreases ray_measure(x, y, dx, dy),
{
    if !(-1 <= dx <= 1 && -1 <= dy <= 1) || (dx == 0 && dy == 0) {
        Seq::empty()
    } else {
        let nx = x + dx;
        let ny = y + dy;
        if !in_bounds(nx, ny) {
            Seq::empty()
        } else {
            let np = Position { x: nx as usize, y: ny as usize };
            match grid_at(grid, nx, ny) {
                None => seq![np] + ray_targets(grid, nx, ny, dx, dy, c),
                Some(q) => if q.color == c {
                    Seq::empty()
                } else {
                    seq![np]
                },
            }
        }
    }
}

/// Rook targets contributed by ray directions `i..4`.
pub open spec fn rook_targets_from(
    grid: Seq<Option<Piece>>,
    p: Position,
    c: Color,
    i: int,
) -> Seq<Position>
    decreases 4 - i,
{
    if i < 0 || i >= 4 {
        Seq::empty()
    } else {
        ray_targets(grid, p.x as int, p.y as int, rook_delta(i).0, rook_delta(i).1, c)
            + rook_targets_from(grid, p, c, i + 1)
    }
}

/// Bishop targets contributed by ray directions `i..4`.
pub open spec fn bishop_targets_from(
    grid: Seq<Option<Piece>>,
    p: Position,
    c: Color,
    i: int,
) -> Seq<Position>
    decreases 4 - i,
{
    if i < 0 || i >= 4 {
        Seq::empty()
    } else {
        ray_targets(grid, p.x as int, p.y as int, bishop_delta(i).0, bishop_delta(i).1, c)
            + bishop_targets_from(grid, p, c, i + 1)
    }
}

/// Queen targets contributed by ray directions `i..8` (the king's offsets
/// read as directions).
pub open spec fn queen_targets_from(
    grid: Seq<Option<Piece>>,
    p: Position,
    c: Color,
    i: int,
) -> Seq<Position>
    decreases 8 - i,
{
    if i < 0 || i >= 8 {
        Seq::empty()
    } else {
        ray_targets(grid, p.x as int, p.y as int, king_delta(i).0, king_delta(i).1, c)
            + queen_targets_from(grid, p, c, i + 1)
    }
}

/// A pawn's forward direction: toward row 0 for White, toward row 7 for
/// Black.
pub open spec fn pawn_dir(c: Color) -> int {
    if c == Color::White { -1 } else { 1 }
}

/// The rank a pawn of color `c` starts on.
pub open spec fn pawn_start_row(c: Color) -> int {
    if c == Color::White { 6 } else { 1 }
}

/// A pawn's forward targets: the single step onto an empty square, and from
/// the starting rank also the double step when that square is empty too.
pub open spec fn pawn_forward_targets(grid: Seq<Option<Piece>>, p: Position, c: Color) -> Seq<
    Position,
> {
    let dir = pawn_dir(c);
    match spec_apply_delta(p, 0, dir) {
        None => Seq::empty(),
        Some(p1) => if empty_at(grid, p1.x as int, p1.y as int) {
            seq![p1] + if p.y == pawn_start_row(c) {
                match spec_apply_delta(p, 0, 2 * dir) {
                    None => Seq::empty(),
                    Some(p2) => if empty_at(grid, p2.x as int, p2.y as int) {
                        seq![p2]
                    } else {
                        Seq::empty()
                    },
                }
            } else {
                Seq::empty()
            }
        } else {
            Seq::empty()
        },
    }
}

/// A pawn's diagonal capture in column direction `dx`: one target when the
/// square holds an enemy piece.
pub open spec fn pawn_capture_target(
    grid: Seq<Option<Piece>>,
    p: Position,
    c: Color,
    dx: int,
) -> Seq<Position> {
    match spec_apply_delta(p, dx, pawn_dir(c)) {
        None => Seq::empty(),
        Some(pc) => if enemy_at(grid, pc.x as int, pc.y as int, c) {
            seq![pc]
        } else {
            Seq::empty()
        },
    }
}

/// All pawn targets, in generation order: forward steps, then the capture
/// toward column -1, then the capture toward column +1.
pub open spec fn pawn_targets(grid: Seq<Option<Piece>>, p: Position, c: Color) -> Seq<Position> {
    pawn_forward_targets(grid, p, c) + pawn_capture_target(grid, p, c, -1) + pawn_capture_target(
        grid,
        p,
        c,
        1,
    )
}

/// The full pseudo-legal move set of `piece` standing at `p`.
pub open spec fn piece_targets(grid: Seq<Option<Piece>>, p: Position, piece: Piece) -> Seq<
    Position,
> {
    match piece.piece_type {
        PieceType::Knight => knight_targets_from(grid, p, piece.color, 0),
        PieceType::Pawn => pawn_targets(grid, p, piece.color),
        PieceType::Rook => rook_targets_from(grid, p, piece.color, 0),
        PieceType::Bishop => bishop_targets_from(grid, p, piece.color, 0),
        PieceType::Queen => queen_targets_from(grid, p, piece.color, 0),
        PieceType::King => king_targets_from(grid, p, piece.color, 0),
    }
}

/// What `calculate_moves_for` returns: the move set of whatever stands at
/// `p`, empty when nothing does.
pub open spec fn moves_for(grid: Seq<Option<Piece>>, p: Position) -> Seq<Position> {
    match grid_at(grid, p.x as int, p.y as int) {
        None => Seq::empty(),
        Some(piece) => piece_targets(grid, p, piece),
    }
}

impl ChessBoard {
    /// The piece at `pos`, or nothing; positions outside the board are
    /// treated as empty, never an error.
    pub fn get_piece(&self, pos: Position) -> (r: Option<Piece>)
        requires
            self@.wf(),
        ensures
            r == grid_at(self@.grid, pos.x as int, pos.y as int),
    {
        if pos.x >= 8 || pos.y >= 8 {
            return None;
        }
        self.board[pos.y * 8 + pos.x]
    }

    /// The pieces captured so far, oldest first.
    pub fn get_captured_pieces(&self) -> (r: &Vec<Piece>)
        ensures
            r@ == self@.captured,
    {
        &self.captured_pieces
    }

    /// True when `p` is an on-board empty square.
    fn is_empty_square(&self, p: Position) -> (r: bool)
        requires
            self@.wf(),
        ensures
            r == empty_at(self@.grid, p.x as int, p.y as int),
    {
        p.x < 8 && p.y < 8 && self.get_piece(p).is_none()
    }

    /// True when `p` is on the board and holds a piece of the side opposite
    /// to `color`.
    fn can_capture_at(&self, p: Position, color: Color) -> (r: bool)
        requires
            self@.wf(),
        ensures
            r == enemy_at(self@.grid, p.x as int, p.y as int, color),
    {
        if p.x >= 8 || p.y >= 8 {
            return false;
        }
        match self.get_piece(p) {
            Some(piece) => piece.color != color,
            None => false,
        }
    }

    /// One fixed-offset step from `pos` for a piece of `color`.
    fn step_target(&self, pos: Position, dx: i32, dy: i32, color: Color) -> (r: Option<Position>)
        requires
            self@.wf(),
            pos.wf(),
        ensures
            r == step_target_spec(self@.grid, pos, dx as int, dy as int, color),
            r matches Some(p) ==> p.wf(),
    {
        match pos.apply_delta(dx, dy) {
            None => None,
            Some(np) => if self.is_empty_square(np) || self.can_capture_at(np, color) {
                Some(np)
            } else {
                None
            },
        }
    }

    /// Walks one ray from `pos` in direction `(dx, dy)` and collects its
    /// targets in order.
    fn ray_moves(&self, pos: Position, dx: i32, dy: i32, color: Color) -> (r: Vec<Position>)
        requires
            self@.wf(),
            pos.wf(),
            -1 <= dx <= 1,
            -1 <= dy <= 1,
            !(dx == 0 && dy == 0),
        ensures
            r@ == ray_targets(self@.grid, pos.x as int, pos.y as int, dx as int, dy as int, color),
    {
        let ghost full = ray_targets(
            self@.grid,
            pos.x as int,
            pos.y as int,
            dx as int,
            dy as int,
            color,
        );
        let mut r: Vec<Position> = Vec::new();
        let mut cur: Position = pos;
        loop
            invariant_except_break
                full == r@ + ray_targets(
                    self@.grid,
                    cur.x as int,
                    cur.y as int,
                    dx as int,
                    dy as int,
                    color,
                ),
            invariant
                self@.wf(),
                cur.wf(),
                -1 <= dx <= 1,
                -1 <= dy <= 1,
                !(dx == 0 && dy == 0),
            ensures
                r@ == full,
            decreases ray_measure(cur.x as int, cur.y as int, dx as int, dy as int),
        {
            match cur.apply_delta(dx, dy) {
                None => {
                    proof {
                        assert(full =~= r@);
                    }
                    break;
                },
                Some(np) => {
                    match self.get_piece(np) {
                        None => {
                            proof {
                                let tail = ray_targets(
                                    self@.grid,
                                    np.x as int,
                                    np.y as int,
                                    dx as int,
                                    dy as int,
                                    color,
                                );
                                assert(r@ + (seq![np] + tail) =~= (r@ + seq![np]) + tail);
                            }
                            r.push(np);
                            cur = np;
                        },
                        Some(q) => {
                            if q.color != color {
                                r.push(np);
                                proof {
                                    assert(full =~= r@);
                                }
                            } else {
                                proof {
                                    assert(full =~= r@);
                                }
                            }
                            break;
                        },
                    }
                },
            }
        }
        r
    }

    /// The full pseudo-legal move set for the piece occupying `pos`; the
    /// empty set if no piece stands there.
    pub fn calculate_moves_for(&self, pos: Position) -> (r: Vec<Position>)
        requires
            self@.wf(),
        ensures
            r@ == moves_for(self@.grid, pos),
    {
        let piece = match self.get_piece(pos) {
            Some(p) => p,
            None => {
                return Vec::new();
            },
        };
        piece.get_valid_moves(pos, self)
    }
}

/// The knight's offsets as machine integers, indexed in generation order.
fn knight_delta_at(i: usize) -> (r: (i32, i32))
    requires
        i < 8,
    ensures
        (r.0 as int, r.1 as int) == knight_delta(i as int),
{
    if i == 0 { (2, 1) }
    else if i == 1 { (2, -1) }
    else if i == 2 { (-2, 1) }
    else if i == 3 { (-2, -1) }
    else if i == 4 { (1, 2) }
    else if i == 5 { (1, -2) }
    else if i == 6 { (-1, 2) }
    else { (-1, -2) }
}

/// The king's offsets (and the queen's ray directions) as machine integers.
fn king_delta_at(i: usize) -> (r: (i32, i32))
    requires
        i < 8,
    ensures
        (r.0 as int, r.1 as int) == king_delta(i as int),
{
    if i == 0 { (1, 1) }
    else if i == 1 { (1, 0) }
    else if i == 2 { (1, -1) }
    else if i == 3 { (0, 1) }
    else if i == 4 { (0, -1) }
    else if i == 5 { (-1, 1) }
    else if i == 6 { (-1, 0) }
    else { (-1, -1) }
}

/// The rook's ray directions as machine integers.
fn rook_delta_at(i: usize) -> (r: (i32, i32))
    requires
        i < 4,
    ensures
        (r.0 as int, r.1 as int) == rook_delta(i as int),
{
    if i == 0 { (0, 1) }
    else if i == 1 { (1, 0) }
    else if i == 2 { (0, -1) }
    else { (-1, 0) }
}

/// The bishop's ray directions as machine integers.
fn bishop_delta_at(i: usize) -> (r: (i32, i32))
    requires
        i < 4,
    ensures
        (r.0 as int, r.1 as int) == bishop_delta(i as int),
{
    if i == 0 { (1, 1) }
    else if i == 1 { (1, -1) }
    else if i == 2 { (-1, -1) }
    else { (-1, 1) }
}

impl Piece {
    /// The pseudo-legal move set of this piece standing at `pos` on `board`,
    /// dispatched by piece type.
    pub fn get_valid_moves(&self, pos: Position, board: &ChessBoard) -> (r: Vec<Position>)
        requires
            board@.wf(),
            pos.wf(),
        ensures
            r@ == piece_targets(board@.grid, pos, *self),
    {
        let ghost grid = board@.grid;
        let color = self.color;
        match self.piece_type {
            PieceType::Knight => {
                let mut r: Vec<Position> = Vec::new();
                let mut i: usize = 0;
                while i < 8
                    invariant
                        board@.wf(),
                        pos.wf(),
                        grid == board@.grid,
                        i <= 8,
                        knight_targets_from(grid, pos, color, 0) == r@ + knight_targets_from(
                            grid,
                            pos,
                            color,
                            i as int,
                        ),
                    decreases 8 - i,
                {
                    let (dx, dy) = knight_delta_at(i);
                    proof {
                        let step = opt_seq(
                            step_target_spec(grid, pos, dx as int, dy as int, color),
                        );
                        let tail = knight_targets_from(grid, pos, color, i + 1);
                        assert(r@ + (step + tail) =~= (r@ + step) + tail);
                    }
                    if let Some(np) = board.step_target(pos, dx, dy, color) {
                        r.push(np);
                    } else {
                        proof {
                            assert(r@ + Seq::<Position>::empty() =~= r@);
                        }
                    }
                    i += 1;
                }
                r
            },
            PieceType::King => {
                let mut r: Vec<Position> = Vec::new();
                let mut i: usize = 0;
                while i < 8
                    invariant
                        board@.wf(),
                        pos.wf(),
                        grid == board@.grid,
                        i <= 8,
                        king_targets_from(grid, pos, color, 0) == r@ + king_targets_from(
                            grid,
                            pos,
                            color,
                            i as int,
                        ),
                    decreases 8 - i,
                {
                    let (dx, dy) = king_delta_at(i);
                    proof {
                        let step = opt_seq(
                            step_target_spec(grid, pos, dx as int, dy as int, color),
                        );
                        let tail = king_targets_from(grid, pos, color, i + 1);
                        assert(r@ + (step + tail) =~= (r@ + step) + tail);
                    }
                    if let Some(np) = board.step_target(pos, dx, dy, color) {
                        r.push(np);
                    } else {
                        proof {
                            assert(r@ + Seq::<Position>::empty() =~= r@);
                        }
                    }
                    i += 1;
                }
                r
            },
            PieceType::Pawn => {
                let mut r: Vec<Position> = Vec::new();
                let direction: i32 = if color == Color::White { -1 } else { 1 };
                let start_row: usize = if color == Color::White { 6 } else { 1 };

                if let Some(new_pos) = pos.apply_delta(0, direction) {
                    if board.is_empty_square(new_pos) {
                        r.push(new_pos);
                        if pos.y == start_row {
                            if let Some(double_pos) = pos.apply_delta(0, 2 * direction) {
                                if board.is_empty_square(double_pos) {
                                    r.push(double_pos);
                                }
                            }
                        }
                    }
                }
                proof {
                    assert(r@ =~= pawn_forward_targets(grid, pos, color));
                }

                if let Some(capture_pos) = pos.apply_delta(-1, direction) {
                    if board.can_capture_at(capture_pos, color) {
                        r.push(capture_pos);
                    }
                }
                proof {
                    assert(r@ =~= pawn_forward_targets(grid, pos, color) + pawn_capture_target(
                        grid,
                        pos,
                        color,
                        -1,
                    ));
                }
                if let Some(capture_pos) = pos.apply_delta(1, direction) {
                    if board.can_capture_at(capture_pos, color) {
                        r.push(capture_pos);
                    }
                }
                proof {
                    assert(r@ =~= pawn_targets(grid, pos, color));
                }
                r
            },
            PieceType::Rook => {
                let mut r: Vec<Position> = Vec::new();
                let mut i: usize = 0;
                while i < 4
                    invariant
                        board@.wf(),
                        pos.wf(),
                        grid == board@.grid,
                        i <= 4,
                        rook_targets_from(grid, pos, color, 0) == r@ + rook_targets_from(
                            grid,
                            pos,
                            color,
                            i as int,
                        ),
                    decreases 4 - i,
                {
                    let (dx, dy) = rook_delta_at(i);
                    proof {
                        let seg = ray_targets(
                            grid,
                            pos.x as int,
                            pos.y as int,
                            dx as int,
                            dy as int,
                            color,
                        );
                        let tail = rook_targets_from(grid, pos, color, i + 1);
                        assert(r@ + (seg + tail) =~= (r@ + seg) + tail);
                    }
                    let mut seg = board.ray_moves(pos, dx, dy, color);
                    r.append(&mut seg);
                    i += 1;
                }
                r
            },
            PieceType::Bishop => {
                let mut r: Vec<Position> = Vec::new();
                let mut i: usize = 0;
                while i < 4
                    invariant
                        board@.wf(),
                        pos.wf(),
                        grid == board@.grid,
                        i <= 4,
                        bishop_targets_from(grid, pos, color, 0) == r@ + bishop_targets_from(
                            grid,
                            pos,
                            color,
                            i as int,
                        ),
                    decreases 4 - i,
                {
                    let (dx, dy) = bishop_delta_at(i);
                    proof {
                        let seg = ray_targets(
                            grid,
                            pos.x as int,
                            pos.y as int,
                            dx as int,
                            dy as int,
                            color,
                        );
                        let tail = bishop_targets_from(grid, pos, color, i + 1);
                        assert(r@ + (seg + tail) =~= (r@ + seg) + tail);
                    }
                    let mut seg = board.ray_moves(pos, dx, dy, color);
                    r.append(&mut seg);
                    i += 1;
                }
                r
            },
            PieceType::Queen => {
                let mut r: Vec<Position> = Vec::new();
                let mut i: usize = 0;
                while i < 8
                    invariant
                        board@.wf(),
                        pos.wf(),
                        grid == board@.grid,
                        i <= 8,
                        queen_targets_from(grid, pos, color, 0) == r@ + queen_targets_from(
                            grid,
                            pos,
                            color,
                            i as int,
                        ),
                    decreases 8 - i,
                {
                    let (dx, dy) = king_delta_at(i);
                    proof {
                        let seg = ray_targets(
                            grid,
                            pos.x as int,
                            pos.y as int,
                            dx as int,
                            dy as int,
                            color,
                        );
                        let tail = queen_targets_from(grid, pos, color, i + 1);
                        assert(r@ + (seg + tail) =~= (r@ + seg) + tail);
                    }
                    let mut seg = board.ray_moves(pos, dx, dy, color);
                    r.append(&mut seg);
                    i += 1;
                }
                r
            },
        }
    }
}

/// Every square a ray reaches lies on the board.
pub proof fn lemma_ray_targets_wf(
    grid: Seq<Option<Piece>>,
    x: int,
    y: int,
    dx: int,
    dy: int,
    c: Color,
)
    ensures
        forall|t: Position| ray_targets(grid, x, y, dx, dy, c).contains(t) ==> t.wf(),
    decreases ray_measure(x, y, dx, dy),
{
    if !(-1 <= dx <= 1 && -1 <= dy <= 1) || (dx == 0 && dy == 0) {
    } else {
        let nx = x + dx;
        let ny = y + dy;
        if in_bounds(nx, ny) && grid_at(grid, nx, ny) is None {
            lemma_ray_targets_wf(grid, nx, ny, dx, dy, c);
        }
    }
}

/// Every knight target lies on the board.
pub proof fn lemma_knight_targets_wf(grid: Seq<Option<Piece>>, p: Position, c: Color, i: int)
    ensures
        forall|t: Position| knight_targets_from(grid, p, c, i).contains(t) ==> t.wf(),
    decreases 8 - i,
{
    if 0 <= i < 8 {
        lemma_knight_targets_wf(grid, p, c, i + 1);
    }
}

/// Every king target lies on the board.
pub proof fn lemma_king_targets_wf(grid: Seq<Option<Piece>>, p: Position, c: Color, i: int)
    ensures
        forall|t: Position| king_targets_from(grid, p, c, i).contains(t) ==> t.wf(),
    decreases 8 - i,
{
    if 0 <= i < 8 {
        lemma_king_targets_wf(grid, p, c, i + 1);
    }
}

/// Every rook target lies on the board.
pub proof fn lemma_rook_targets_wf(grid: Seq<Option<Piece>>, p: Position, c: Color, i: int)
    ensures
        forall|t: Position| rook_targets_from(grid, p, c, i).contains(t) ==> t.wf(),
    decreases 4 - i,
{
    if 0 <= i < 4 {
        lemma_ray_targets_wf(grid, p.x as int, p.y as int, rook_delta(i).0, rook_delta(i).1, c);
        lemma_rook_targets_wf(grid, p, c, i + 1);
    }
}

/// Every bishop target lies on the board.
pub proof fn lemma_bishop_targets_wf(grid: Seq<Option<Piece>>, p: Position, c: Color, i: int)
    ensures
        forall|t: Position| bishop_targets_from(grid, p, c, i).contains(t) ==> t.wf(),
    decreases 4 - i,
{
    if 0 <= i < 4 {
        lemma_ray_targets_wf(grid, p.x as int, p.y as int, bishop_delta(i).0, bishop_delta(i).1, c);
        lemma_bishop_targets_wf(grid, p, c, i + 1);
    }
}

/// Every queen target lies on the board.
pub proof fn lemma_queen_targets_wf(grid: Seq<Option<Piece>>, p: Position, c: Color, i: int)
    ensures
        forall|t: Position| queen_targets_from(grid, p, c, i).contains(t) ==> t.wf(),
    decreases 8 - i,
{
    if 0 <= i < 8 {
        lemma_ray_targets_wf(grid, p.x as int, p.y as int, king_delta(i).0, king_delta(i).1, c);
        lemma_queen_targets_wf(grid, p, c, i + 1);
    }
}

/// Every pseudo-legal target of any piece lies on the board, and a nonempty
/// move set means a piece stands on the source square.
pub proof fn lemma_moves_for_wf(grid: Seq<Option<Piece>>, p: Position)
    ensures
        forall|t: Position| moves_for(grid, p).contains(t) ==> t.wf(),
        moves_for(grid, p).len() > 0 ==> grid_at(grid, p.x as int, p.y as int) is Some && p.wf(),
{
    match grid_at(grid, p.x as int, p.y as int) {
        None => {},
        Some(piece) => {
            match piece.piece_type {
                PieceType::Knight => lemma_knight_targets_wf(grid, p, piece.color, 0),
                PieceType::King => lemma_king_targets_wf(grid, p, piece.color, 0),
                PieceType::Rook => lemma_rook_targets_wf(grid, p, piece.color, 0),
                PieceType::Bishop => lemma_bishop_targets_wf(grid, p, piece.color, 0),
                PieceType::Queen => lemma_queen_targets_wf(grid, p, piece.color, 0),
                PieceType::Pawn => {},
            }
        },
    }
}

/// The piece type standing on column `x` of either back rank at setup.
pub open spec fn back_rank_type(x: int) -> PieceType {
    if x == 0 || x == 7 { PieceType::Rook }
    else if x == 1 || x == 6 { PieceType::Knight }
    else if x == 2 || x == 5 { PieceType::Bishop }
    else if x == 3 { PieceType::Queen }
    else { PieceType::King }
}

/// The standard setup: Black's back rank on row 0 and pawns on row 1,
/// White's pawns on row 6 and back rank on row 7.
pub open spec fn initial_piece_at(x: int, y: int) -> Option<Piece> {
    if y == 0 {
        Some(Piece { piece_type: back_rank_type(x), color: Color::Black })
    } else if y == 1 {
        Some(Piece { piece_type: PieceType::Pawn, color: Color::Black })
    } else if y == 6 {
        Some(Piece { piece_type: PieceType::Pawn, color: Color::White })
    } else if y == 7 {
        Some(Piece { piece_type: back_rank_type(x), color: Color::White })
    } else {
        None
    }
}

/// How many pieces of color `c` stand on squares `i..64`.
pub open spec fn count_color_from(grid: Seq<Option<Piece>>, c: Color, i: int) -> int
    decreases 64 - i,
{
    if i < 0 || i >= 64 {
        0
    } else {
        (match grid_at(grid, i % 8, i / 8) {
            Some(p) => if p.color == c { 1int } else { 0int },
            None => 0int,
        }) + count_color_from(grid, c, i + 1)
    }
}

/// How many pieces of color `c` the standard setup puts on squares `i..64`.
pub open spec fn count_initial_from(c: Color, i: int) -> int
    decreases 64 - i,
{
    if i < 0 || i >= 64 {
        0
    } else {
        (match initial_piece_at(i % 8, i / 8) {
            Some(p) => if p.color == c { 1int } else { 0int },
            None => 0int,
        }) + count_initial_from(c, i + 1)
    }
}

/// A grid that matches the standard setup square for square holds as many
/// pieces of each color as the setup does.
proof fn lemma_count_matches_setup(grid: Seq<Option<Piece>>, c: Color, i: int)
    requires
        grid.len() == 64,
        forall|x: int, y: int| in_bounds(x, y) ==> grid_at(grid, x, y) == initial_piece_at(x, y),
    ensures
        count_color_from(grid, c, i) == count_initial_from(c, i),
    decreases 64 - i,
{
    if 0 <= i < 64 {
        assert(in_bounds(i % 8, i / 8));
        assert(grid_at(grid, i % 8, i / 8) == initial_piece_at(i % 8, i / 8));
        lemma_count_matches_setup(grid, c, i + 1);
    }
}

/// A fresh board holds exactly 16 White pieces and 16 Black pieces: the
/// grid `ChessBoard::new` promises carries the standard setup's count for
/// either side.
pub proof fn lemma_initial_board_counts(grid: Seq<Option<Piece>>)
    requires
        grid.len() == 64,
        forall|x: int, y: int| in_bounds(x, y) ==> grid_at(grid, x, y) == initial_piece_at(x, y),
    ensures
        count_color_from(grid, Color::White, 0) == 16,
        count_color_from(grid, Color::Black, 0) == 16,
{
    lemma_count_matches_setup(grid, Color::White, 0);
    lemma_count_matches_setup(grid, Color::Black, 0);
    assert(count_initial_from(Color::White, 0) == 16) by {
        reveal_with_fuel(count_initial_from, 65);
    }
    assert(count_initial_from(Color::Black, 0) == 16) by {
        reveal_with_fuel(count_initial_from, 65);
    }
}

/// A square holding no piece contributes no moves.
pub proof fn lemma_empty_square_no_moves(grid: Seq<Option<Piece>>, p: Position)
    requires
        grid_at(grid, p.x as int, p.y as int) is None,
    ensures
        moves_for(grid, p) == Seq::<Position>::empty(),
{
}

/// A pawn on its starting rank has exactly two forward targets when both
/// squares ahead are empty, one when only the nearer is empty, and none
/// when it is blocked.
pub proof fn lemma_pawn_forward_counts(grid: Seq<Option<Piece>>, p: Position, c: Color)
    requires
        p.wf(),
        p.y == pawn_start_row(c),
    ensures
        ({
            let near_empty = empty_at(grid, p.x as int, p.y + pawn_dir(c));
            let far_empty = empty_at(grid, p.x as int, p.y + 2 * pawn_dir(c));
            &&& (near_empty && far_empty) ==> pawn_forward_targets(grid, p, c).len() == 2
            &&& (near_empty && !far_empty) ==> pawn_forward_targets(grid, p, c).len() == 1
            &&& !near_empty ==> pawn_forward_targets(grid, p, c).len() == 0
        }),
{
}

/// The square index that `p` addresses in the row-major grid.
pub open spec fn idx_of(p: Position) -> int {
    p.y * 8 + p.x
}

/// The grid after relocating whatever stands at `from` onto `to`: `to`
/// receives the moved piece, `from` is cleared.
pub open spec fn move_grid(grid: Seq<Option<Piece>>, from: Position, to: Position) -> Seq<
    Option<Piece>,
> {
    grid.update(idx_of(to), grid_at(grid, from.x as int, from.y as int)).update(idx_of(from), None)
}

/// The capture list after a move onto `to`: whatever stood there is
/// appended, otherwise the list is unchanged.
pub open spec fn move_captured(
    grid: Seq<Option<Piece>>,
    captured: Seq<Piece>,
    to: Position,
) -> Seq<Piece> {
    match grid_at(grid, to.x as int, to.y as int) {
        Some(c) => captured.push(c),
        None => captured,
    }
}

/// The first square, in row-major order, holding the king of color `c`,
/// starting the scan at square `i`.
pub open spec fn king_pos_from(grid: Seq<Option<Piece>>, c: Color, i: int) -> Option<Position>
    decreases 64 - i,
{
    if i < 0 || i >= 64 {
        None
    } else {
        match grid_at(grid, i % 8, i / 8) {
            Some(p) => if p.piece_type == PieceType::King && p.color == c {
                Some(Position { x: (i % 8) as usize, y: (i / 8) as usize })
            } else {
                king_pos_from(grid, c, i + 1)
            },
            None => king_pos_from(grid, c, i + 1),
        }
    }
}

/// True when the piece on square `i` belongs to the side opposite `c` and
/// its pseudo-legal move set reaches `kp`.
pub open spec fn attacks_square(grid: Seq<Option<Piece>>, c: Color, i: int, kp: Position) -> bool {
    match grid_at(grid, i % 8, i / 8) {
        Some(p) => p.color != c && piece_targets(
            grid,
            Position { x: (i % 8) as usize, y: (i / 8) as usize },
            p,
        ).contains(kp),
        None => false,
    }
}

/// What `is_king_in_check` returns: false when no king of `c` stands on the
/// board, else whether any opposing piece's move set contains the king's
/// square.
pub open spec fn in_check(grid: Seq<Option<Piece>>, c: Color) -> bool {
    match king_pos_from(grid, c, 0) {
        None => false,
        Some(kp) => exists|i: int| 0 <= i < 64 && attacks_square(grid, c, i, kp),
    }
}

/// True exactly when `v` holds `p`.
pub fn contains_pos(v: &Vec<Position>, p: Position) -> (r: bool)
    ensures
        r == v@.contains(p),
{
    let mut j: usize = 0;
    while j < v.len()
        invariant
            j <= v.len(),
            forall|k: int| 0 <= k < j ==> v@[k] != p,
        decreases v.len() - j,
    {
        if v[j] == p {
            return true;
        }
        j += 1;
    }
    false
}

impl ChessBoard {
    /// A fresh board with every piece on its starting square and nothing
    /// captured yet.
    pub fn new() -> (r: ChessBoard)
        ensures
            r@.wf(),
            r@.captured == Seq::<Piece>::empty(),
            forall|x: int, y: int|
                in_bounds(x, y) ==> grid_at(r@.grid, x, y) == initial_piece_at(x, y),
    {
        let mut board: Vec<Option<Piece>> = Vec::new();
        let mut y: usize = 0;
        while y < 8
            invariant
                y <= 8,
                board@.len() == y * 8,
                forall|xp: int, yp: int|
                    0 <= xp < 8 && 0 <= yp < 8 && yp * 8 + xp < board@.len() ==> board@[yp * 8
                        + xp] == initial_piece_at(xp, yp),
            decreases 8 - y,
        {
            let mut x: usize = 0;
            while x < 8
                invariant
                    y < 8,
                    x <= 8,
                    board@.len() == y * 8 + x,
                    forall|xp: int, yp: int|
                        0 <= xp < 8 && 0 <= yp < 8 && yp * 8 + xp < board@.len() ==> board@[yp * 8
                            + xp] == initial_piece_at(xp, yp),
                decreases 8 - x,
            {
                board.push(starting_piece(x, y));
                x += 1;
            }
            y += 1;
        }
        ChessBoard { board, captured_pieces: Vec::new() }
    }

    /// Relocates the piece at `from` onto `to`, appending whatever stood at
    /// `to` to the capture list first. Fails, leaving the board unchanged,
    /// when either position is off the board or `from` holds no piece; it
    /// does not ask whether the move is pseudo-legal — callers do.
    pub fn move_piece(&mut self, from: Position, to: Position) -> (r: Result<(), String>)
        requires
            old(self)@.wf(),
        ensures
            final(self)@.wf(),
            !(from.wf() && to.wf()) ==> {
                &&& r matches Err(m) && m@ == "Invalid position"@
                &&& final(self)@.grid == old(self)@.grid
                &&& final(self)@.captured == old(self)@.captured
            },
            from.wf() && to.wf() && grid_at(old(self)@.grid, from.x as int, from.y as int)
                is None ==> {
                &&& r matches Err(m) && m@ == "No piece at source position"@
                &&& final(self)@.grid == old(self)@.grid
                &&& final(self)@.captured == old(self)@.captured
            },
            from.wf() && to.wf() && grid_at(old(self)@.grid, from.x as int, from.y as int)
                is Some ==> {
                &&& r is Ok
                &&& final(self)@.grid == move_grid(old(self)@.grid, from, to)
                &&& final(self)@.captured == move_captured(
                    old(self)@.grid,
                    old(self)@.captured,
                    to,
                )
            },
    {
        if from.x >= 8 || from.y >= 8 || to.x >= 8 || to.y >= 8 {
            return Err("Invalid position".to_owned());
        }
        let piece = match self.board[from.y * 8 + from.x] {
            Some(p) => p,
            None => {
                return Err("No piece at source position".to_owned());
            },
        };
        if let Some(captured) = self.board[to.y * 8 + to.x] {
            self.captured_pieces.push(captured);
        }
        self.board.set(to.y * 8 + to.x, Some(piece));
        self.board.set(from.y * 8 + from.x, None);
        Ok(())
    }

    /// Whether the king of `color` stands in check: true when any opposing
    /// piece's pseudo-legal move set contains the king's square; false when
    /// no such king is on the board.
    pub fn is_king_in_check(&self, color: Color) -> (r: bool)
        requires
            self@.wf(),
        ensures
            r == in_check(self@.grid, color),
    {
        let ghost grid = self@.grid;
        let mut king_pos: Option<Position> = None;
        let mut i: usize = 0;
        while i < 64
            invariant
                self@.wf(),
                grid == self@.grid,
                i <= 64,
                match king_pos {
                    None => king_pos_from(grid, color, 0) == king_pos_from(grid, color, i as int),
                    Some(kp) => king_pos_from(grid, color, 0) == Some(kp) && kp.wf(),
                },
            decreases 64 - i,
        {
            if king_pos.is_none() {
                let pos = Position::new(i % 8, i / 8);
                if let Some(piece) = self.get_piece(pos) {
                    if piece.piece_type == PieceType::King && piece.color == color {
                        king_pos = Some(pos);
                    }
                }
            }
            i += 1;
        }

        let kp = match king_pos {
            Some(pos) => pos,
            None => {
                return false;
            },
        };

        let mut j: usize = 0;
        while j < 64
            invariant
                self@.wf(),
                grid == self@.grid,
                j <= 64,
                king_pos_from(grid, color, 0) == Some(kp),
                kp.wf(),
                forall|k: int| 0 <= k < j ==> !attacks_square(grid, color, k, kp),
            decreases 64 - j,
        {
            let pos = Position::new(j % 8, j / 8);
            if let Some(piece) = self.get_piece(pos) {
                if piece.color != color {
                    let moves = piece.get_valid_moves(pos, self);
                    if contains_pos(&moves, kp) {
                        proof {
                            assert(attacks_square(grid, color, j as int, kp));
                        }
                        return true;
                    }
                }
            }
            proof {
                assert(!attacks_square(grid, color, j as int, kp));
            }
            j += 1;
        }
        false
    }
}

/// The piece the standard setup puts on `(x, y)`.
fn starting_piece(x: usize, y: usize) -> (r: Option<Piece>)
    requires
        x < 8,
        y < 8,
    ensures
        r == initial_piece_at(x as int, y as int),
{
    if y == 0 {
        Some(Piece::new(back_rank_piece_type(x), Color::Black))
    } else if y == 1 {
        Some(Piece::new(PieceType::Pawn, Color::Black))
    } else if y == 6 {
        Some(Piece::new(PieceType::Pawn, Color::White))
    } else if y == 7 {
        Some(Piece::new(back_rank_piece_type(x), Color::White))
    } else {
        None
    }
}

/// The back-rank piece type for column `x`.
fn back_rank_piece_type(x: usize) -> (r: PieceType)
    requires
        x < 8,
    ensures
        r == back_rank_type(x as int),
{
    if x == 0 || x == 7 { PieceType::Rook }
    else if x == 1 || x == 6 { PieceType::Knight }
    else if x == 2 || x == 5 { PieceType::Bishop }
    else if x == 3 { PieceType::Queen }
    else { PieceType::King }
}

/// An exact copy of a cell vector.
fn clone_cells(v: &Vec<Option<Piece>>) -> (r: Vec<Option<Piece>>)
    ensures
        r@ == v@,
{
    let mut r: Vec<Option<Piece>> = Vec::new();
    let mut i: usize = 0;
    while i < v.len()
        invariant
            i <= v.len(),
            r@ == v@.take(i as int),
        decreases v.len() - i,
    {
        r.push(v[i]);
        proof {
            assert(r@ =~= v@.take(i + 1));
        }
        i += 1;
    }
    proof {
        assert(v@.take(v@.len() as int) =~= v@);
    }
    r
}

/// An exact copy of a piece vector.
fn clone_piece_vec(v: &Vec<Piece>) -> (r: Vec<Piece>)
    ensures
        r@ == v@,
{
    let mut r: Vec<Piece> = Vec::new();
    let mut i: usize = 0;
    while i < v.len()
        invariant
            i <= v.len(),
            r@ == v@.take(i as int),
        decreases v.len() - i,
    {
        r.push(v[i]);
        proof {
            assert(r@ =~= v@.take(i + 1));
        }
        i += 1;
    }
    proof {
        assert(v@.take(v@.len() as int) =~= v@);
    }
    r
}

impl Clone for ChessBoard {
    /// A copy with the same grid and capture list.
    fn clone(&self) -> (r: Self)
        ensures
            r@ == self@,
    {
        ChessBoard {
            board: clone_cells(&self.board),
            captured_pieces: clone_piece_vec(&self.captured_pieces),
        }
    }
}

/// What a cell of an explicit-square board holds from the mover's point of
/// view: the piece on an existing square, or, for a missing square or one
/// off the 8x8 bound, a stand-in of the mover's own color — such a square
/// admits no move and blocks a ray, exactly as an own piece does.
pub open spec fn cell_piece(rows: Seq<Seq<Option<Square>>>, x: int, y: int, c: Color) -> Option<
    Piece,
> {
    if 0 <= y < rows.len() && 0 <= x < rows[y].len() {
        match rows[y][x] {
            Some(sq) => sq.piece,
            None => Some(Piece { piece_type: PieceType::Pawn, color: c }),
        }
    } else {
        Some(Piece { piece_type: PieceType::Pawn, color: c })
    }
}

/// The views of the rows of an explicit-square board.
pub open spec fn rows_view(board: Seq<Vec<Option<Square>>>) -> Seq<Seq<Option<Square>>> {
    board.map_values(|row: Vec<Option<Square>>| row@)
}

/// The 64-cell grid an explicit-square board describes to a mover of
/// color `c`.
pub open spec fn squares_grid(rows: Seq<Seq<Option<Square>>>, c: Color) -> Seq<Option<Piece>> {
    Seq::new(64, |i: int| cell_piece(rows, i % 8, i / 8, c))
}

/// What `Square::calculate_moves` returns: the move set of the square's own
/// piece over the grid the explicit-square board describes.
pub open spec fn square_moves(sq: Square, position: Position, rows: Seq<Seq<Option<Square>>>) -> Seq<
    Position,
> {
    match sq.piece {
        None => Seq::empty(),
        Some(piece) => piece_targets(squares_grid(rows, piece.color), position, piece),
    }
}

impl Square {
    /// The pseudo-legal moves of this square's piece at `position`, read
    /// over a board given as explicit cells; missing cells block like own
    /// pieces. Empty when the square holds no piece.
    pub fn calculate_moves(&self, position: Position, board: &Vec<Vec<Option<Square>>>) -> (r: Vec<
        Position,
    >)
        requires
            position.wf(),
        ensures
            r@ == square_moves(*self, position, rows_view(board@)),
    {
        let piece = match self.piece {
            Some(p) => p,
            None => {
                return Vec::new();
            },
        };
        let mut cells: Vec<Option<Piece>> = Vec::new();
        let mut i: usize = 0;
        while i < 64
            invariant
                i <= 64,
                cells@.len() == i,
                forall|j: int|
                    0 <= j < i ==> cells@[j] == cell_piece(
                        rows_view(board@),
                        j % 8,
                        j / 8,
                        piece.color,
                    ),
            decreases 64 - i,
        {
            let x = i % 8;
            let y = i / 8;
            let cell: Option<Piece> = if y < board.len() {
                let row: &Vec<Option<Square>> = &board[y];
                if x < row.len() {
                    match row[x] {
                        Some(sq) => sq.piece,
                        None => Some(Piece::new(PieceType::Pawn, piece.color)),
                    }
                } else {
                    Some(Piece::new(PieceType::Pawn, piece.color))
                }
            } else {
                Some(Piece::new(PieceType::Pawn, piece.color))
            };
            proof {
                assert(cell == cell_piece(rows_view(board@), i as int % 8, i as int / 8,
                piece.color));
            }
            cells.push(cell);
            i += 1;
        }
        let sim = ChessBoard { board: cells, captured_pieces: Vec::new() };
        proof {
            assert(sim@.grid =~= squares_grid(rows_view(board@), piece.color));
        }
        piece.get_valid_moves(position, &sim)
    }
}

} // verus!
