//! The computer opponent: static position evaluation and three move
//! strategies — uniform random, capture/check-greedy, and minimax with
//! alpha-beta pruning.
use vstd::prelude::*;

use crate::board::{grid_at, moves_for};
use crate::piece::{Color, Piece, PieceType, Position};
use crate::state::{apply_move_view, Difficulty, GameState, StateView};

verus! {

/// The material value of a piece type.
pub open spec fn piece_value(t: PieceType) -> int {
    match t {
        PieceType::Pawn => 100,
        PieceType::Knight => 300,
        PieceType::Bishop => 300,
        PieceType::Rook => 500,
        PieceType::Queen => 900,
        PieceType::King => 10000,
    }
}

/// The pawn's positional bonus table, read from White's side.
pub open spec fn pawn_bonus(x: int, y: int) -> int {
    if y == 0 { 0 }
    else if y == 1 { 50 }
    else if y == 2 {
        if x == 0 || x == 1 || x == 6 || x == 7 { 10 } else if x == 2 || x == 5 { 20 } else { 30 }
    }
    else if y == 3 {
        if x == 0 || x == 1 || x == 6 || x == 7 { 5 } else if x == 2 || x == 5 { 10 } else { 25 }
    }
    else if y == 4 {
        if x == 3 || x == 4 { 20 } else { 0 }
    }
    else if y == 5 {
        if x == 0 || x == 7 { 5 } else if x == 1 || x == 6 { -5 } else if x == 2 || x == 5 { -10 } else { 0 }
    }
    else if y == 6 {
        if x == 0 || x == 7 { 5 } else if x == 3 || x == 4 { -20 } else { 10 }
    }
    else { 0 }
}

/// The knight's positional bonus table, read from White's side.
pub open spec fn knight_bonus(x: int, y: int) -> int {
    if y == 0 || y == 7 {
        if x == 0 || x == 7 { -50 } else if x == 1 || x == 6 { -40 } else { -30 }
    }
    else if y == 1 {
        if x == 0 || x == 7 { -40 } else if x == 1 || x == 6 { -20 } else { 0 }
    }
    else if y == 2 {
        if x == 0 || x == 7 { -30 } else if x == 1 || x == 6 { 0 } else if x == 2 || x == 5 { 10 } else { 15 }
    }
    else if y == 3 {
        if x == 0 || x == 7 { -30 } else if x == 1 || x == 6 { 5 } else if x == 2 || x == 5 { 15 } else { 20 }
    }
    else if y == 4 {
        if x == 0 || x == 7 { -30 } else if x == 1 || x == 6 { 0 } else if x == 2 || x == 5 { 15 } else { 20 }
    }
    else if y == 5 {
        if x == 0 || x == 7 { -30 } else if x == 1 || x == 6 { 5 } else if x == 2 || x == 5 { 10 } else { 15 }
    }
    else {
        if x == 0 || x == 7 { -40 } else if x == 1 || x == 6 { -20 } else if x == 2 || x == 5 { 0 } else { 5 }
    }
}

/// The bishop's positional bonus table, read from White's side.
pub open spec fn bishop_bonus(x: int, y: int) -> int {
    if y == 0 || y == 7 {
        if x == 0 || x == 7 { -20 } else { -10 }
    }
    else if y == 1 {
        if x == 0 || x == 7 { -10 } else { 0 }
    }
    else if y == 2 {
        if x == 0 || x == 7 { -10 } else if x == 1 || x == 6 { 0 } else { 10 }
    }
    else if y == 3 {
        if x == 0 || x == 7 { -10 } else if x == 1 || x == 6 { 5 } else if x == 2 || x == 5 { 5 } else { 10 }
    }
    else if y == 4 {
        if x == 0 || x == 7 { -10 } else if x == 1 || x == 6 { 0 } else if x == 2 || x == 5 { 5 } else { 10 }
    }
    else if y == 5 {
        if x == 0 || x == 7 { -10 } else { 10 }
    }
    else {
        if x == 0 || x == 7 { -10 } else if x == 1 || x == 6 { 5 } else { 0 }
    }
}

/// The positional bonus of `t` with color `c` on `(x, y)`: pawns, knights
/// and bishops read their tables, mirrored by row for Black; every other
/// piece gets 0.
pub open spec fn position_bonus(t: PieceType, c: Color, x: int, y: int) -> int {
    let row = if c == Color::White { y } else { 7 - y };
    match t {
        PieceType::Pawn => pawn_bonus(x, row),
        PieceType::Knight => knight_bonus(x, row),
        PieceType::Bishop => bishop_bonus(x, row),
        _ => 0,
    }
}

/// The signed contribution of square `(x, y)` to the score from
/// `perspective`'s point of view.
pub open spec fn square_score(grid: Seq<Option<Piece>>, x: int, y: int, perspective: Color) -> int {
    match grid_at(grid, x, y) {
        None => 0,
        Some(p) => {
            let v = piece_value(p.piece_type) + position_bonus(p.piece_type, p.color, x, y);
            if p.color == perspective { v } else { -v }
        },
    }
}

/// The summed contributions of squares `i..64` in row-major order.
pub open spec fn eval_sum(grid: Seq<Option<Piece>>, perspective: Color, i: int) -> int
    decreases 64 - i,
{
    if i < 0 || i >= 64 {
        0
    } else {
        square_score(grid, i % 8, i / 8, perspective) + eval_sum(grid, perspective, i + 1)
    }
}

/// What `evaluate_position` returns: material plus positional bonus summed
/// over the whole board, minus a 50-point liability when the side whose
/// view is taken is to move and stands in check.
pub open spec fn eval_spec(s: StateView, perspective: Color) -> int {
    eval_sum(s.board.grid, perspective, 0) - (if s.is_check && s.current_player == perspective {
        50int
    } else {
        0int
    })
}

/// Every square's contribution is at most 10050 in magnitude.
proof fn lemma_square_score_bound(grid: Seq<Option<Piece>>, x: int, y: int, perspective: Color)
    ensures
        -10050 <= square_score(grid, x, y, perspective) <= 10050,
{
}

/// The material value of a piece type, as a machine integer.
fn piece_value_of(t: PieceType) -> (r: i32)
    ensures
        r as int == piece_value(t),
        100 <= r <= 10000,
{
    match t {
        PieceType::Pawn => 100,
        PieceType::Knight => 300,
        PieceType::Bishop => 300,
        PieceType::Rook => 500,
        PieceType::Queen => 900,
        PieceType::King => 10000,
    }
}

/// The pawn table entry for `(x, y)`.
fn pawn_bonus_at(x: usize, y: usize) -> (r: i32)
    requires
        x < 8,
        y < 8,
    ensures
        r as int == pawn_bonus(x as int, y as int),
        -50 <= r <= 50,
{
    if y == 0 { 0 }
    else if y == 1 { 50 }
    else if y == 2 {
        if x == 0 || x == 1 || x == 6 || x == 7 { 10 } else if x == 2 || x == 5 { 20 } else { 30 }
    }
    else if y == 3 {
        if x == 0 || x == 1 || x == 6 || x == 7 { 5 } else if x == 2 || x == 5 { 10 } else { 25 }
    }
    else if y == 4 {
        if x == 3 || x == 4 { 20 } else { 0 }
    }
    else if y == 5 {
        if x == 0 || x == 7 { 5 } else if x == 1 || x == 6 { -5 } else if x == 2 || x == 5 { -10 } else { 0 }
    }
    else if y == 6 {
        if x == 0 || x == 7 { 5 } else if x == 3 || x == 4 { -20 } else { 10 }
    }
    else { 0 }
}

/// The knight table entry for `(x, y)`.
fn knight_bonus_at(x: usize, y: usize) -> (r: i32)
    requires
        x < 8,
        y < 8,
    ensures
        r as int == knight_bonus(x as int, y as int),
        -50 <= r <= 50,
{
    if y == 0 || y == 7 {
        if x == 0 || x == 7 { -50 } else if x == 1 || x == 6 { -40 } else { -30 }
    }
    else if y == 1 {
        if x == 0 || x == 7 { -40 } else if x == 1 || x == 6 { -20 } else { 0 }
    }
    else if y == 2 {
        if x == 0 || x == 7 { -30 } else if x == 1 || x == 6 { 0 } else if x == 2 || x == 5 { 10 } else { 15 }
    }
    else if y == 3 {
        if x == 0 || x == 7 { -30 } else if x == 1 || x == 6 { 5 } else if x == 2 || x == 5 { 15 } else { 20 }
    }
    else if y == 4 {
        if x == 0 || x == 7 { -30 } else if x == 1 || x == 6 { 0 } else if x == 2 || x == 5 { 15 } else { 20 }
    }
    else if y == 5 {
        if x == 0 || x == 7 { -30 } else if x == 1 || x == 6 { 5 } else if x == 2 || x == 5 { 10 } else { 15 }
    }
    else {
        if x == 0 || x == 7 { -40 } else if x == 1 || x == 6 { -20 } else if x == 2 || x == 5 { 0 } else { 5 }
    }
}

/// The bishop table entry for `(x, y)`.
fn bishop_bonus_at(x: usize, y: usize) -> (r: i32)
    requires
        x < 8,
        y < 8,
    ensures
        r as int == bishop_bonus(x as int, y as int),
        -50 <= r <= 50,
{
    if y == 0 || y == 7 {
        if x == 0 || x == 7 { -20 } else { -10 }
    }
    else if y == 1 {
        if x == 0 || x == 7 { -10 } else { 0 }
    }
    else if y == 2 {
        if x == 0 || x == 7 { -10 } else if x == 1 || x == 6 { 0 } else { 10 }
    }
    else if y == 3 {
        if x == 0 || x == 7 { -10 } else if x == 1 || x == 6 { 5 } else if x == 2 || x == 5 { 5 } else { 10 }
    }
    else if y == 4 {
        if x == 0 || x == 7 { -10 } else if x == 1 || x == 6 { 0 } else if x == 2 || x == 5 { 5 } else { 10 }
    }
    else if y == 5 {
        if x == 0 || x == 7 { -10 } else { 10 }
    }
    else {
        if x == 0 || x == 7 { -10 } else if x == 1 || x == 6 { 5 } else { 0 }
    }
}

/// The positional bonus of `t` with color `c` on `(x, y)`.
fn position_bonus_of(t: PieceType, c: Color, x: usize, y: usize) -> (r: i32)
    requires
        x < 8,
        y < 8,
    ensures
        r as int == position_bonus(t, c, x as int, y as int),
        -50 <= r <= 50,
{
    let row = if c == Color::White { y } else { 7 - y };
    match t {
        PieceType::Pawn => pawn_bonus_at(x, row),
        PieceType::Knight => knight_bonus_at(x, row),
        PieceType::Bishop => bishop_bonus_at(x, row),
        _ => 0,
    }
}

/// Scores the position from `perspective`'s point of view: the sum over
/// every occupied square of material plus positional bonus, positive for
/// own pieces and negative for the opponent's, with a 50-point penalty when
/// the side to move is `perspective` and stands in check.
pub fn evaluate_position(state: &GameState, perspective: Color) -> (r: i32)
    requires
        state@.wf(),
    ensures
        r as int == eval_spec(state@, perspective),
        -650000 <= r <= 650000,
{
    let ghost grid = state@.board.grid;
    let mut score: i32 = 0;
    let mut i: usize = 0;
    while i < 64
        invariant
            state@.wf(),
            grid == state@.board.grid,
            i <= 64,
            score as int == eval_sum(grid, perspective, 0) - eval_sum(grid, perspective, i as int),
            -10050 * i <= score as int <= 10050 * i,
        decreases 64 - i,
    {
        let x = i % 8;
        let y = i / 8;
        proof {
            lemma_square_score_bound(grid, i as int % 8, i as int / 8, perspective);
            lemma_eval_sum_bound(grid, perspective, 0);
        }
        if let Some(piece) = state.board.get_piece(Position::new(x, y)) {
            let value = piece_value_of(piece.piece_type);
            let bonus = position_bonus_of(piece.piece_type, piece.color, x, y);
            if piece.color == perspective {
                score = score + value + bonus;
            } else {
                score = score - value - bonus;
            }
        }
        i += 1;
    }
    if state.is_check && state.current_player == perspective {
        score = score - 50;
    }
    proof {
        lemma_eval_sum_bound(grid, perspective, 0);
    }
    score
}

/// The summed score of squares `i..64` is at most `10050 * (64 - i)` in
/// magnitude.
proof fn lemma_eval_sum_bound(grid: Seq<Option<Piece>>, perspective: Color, i: int)
    ensures
        i <= 64 ==> -10050 * (64 - i) <= eval_sum(grid, perspective, i) <= 10050 * (64 - i),
        i > 64 ==> eval_sum(grid, perspective, i) == 0,
    decreases 64 - i,
{
    if i < 0 {
        lemma_eval_sum_bound(grid, perspective, 0);
        assert(eval_sum(grid, perspective, i) == 0);
    } else if i < 64 {
        lemma_square_score_bound(grid, i % 8, i / 8, perspective);
        lemma_eval_sum_bound(grid, perspective, i + 1);
    }
}

/// The move pairs square `from` contributes: its targets `j..`, each paired
/// with `from`, in target order.
pub open spec fn pairs_from(from: Position, targets: Seq<Position>, j: int) -> Seq<
    (Position, Position),
>
    decreases targets.len() - j,
{
    if j < 0 || j >= targets.len() {
        Seq::empty()
    } else {
        seq![(from, targets[j])] + pairs_from(from, targets, j + 1)
    }
}

/// Every pseudo-legal `(from, to)` pair of the side `c`, scanning squares
/// `i..64` in row-major order.
pub open spec fn all_moves_from(grid: Seq<Option<Piece>>, c: Color, i: int) -> Seq<
    (Position, Position),
>
    decreases 64 - i,
{
    if i < 0 || i >= 64 {
        Seq::empty()
    } else {
        let p = Position { x: (i % 8) as usize, y: (i / 8) as usize };
        (match grid_at(grid, i % 8, i / 8) {
            Some(piece) => if piece.color == c {
                pairs_from(p, moves_for(grid, p), 0)
            } else {
                Seq::empty()
            },
            None => Seq::empty(),
        }) + all_moves_from(grid, c, i + 1)
    }
}

/// Every pseudo-legal `(from, to)` pair of the side `c`, in enumeration
/// order: squares row-major, then that square's move-generation order.
pub open spec fn all_moves(grid: Seq<Option<Piece>>, c: Color) -> Seq<(Position, Position)> {
    all_moves_from(grid, c, 0)
}

/// Each pair contributed by one square pairs `from` with one of its
/// targets.
proof fn lemma_pairs_from_members(from: Position, targets: Seq<Position>, j: int)
    ensures
        forall|m: (Position, Position)|
            pairs_from(from, targets, j).contains(m) ==> m.0 == from && targets.contains(m.1),
    decreases targets.len() - j,
{
    if 0 <= j < targets.len() {
        lemma_pairs_from_members(from, targets, j + 1);
        assert forall|m: (Position, Position)|
            pairs_from(from, targets, j).contains(m) implies m.0 == from && targets.contains(
            m.1,
        ) by {
            if m == (from, targets[j]) {
                assert(targets.contains(m.1));
            } else {
                assert(pairs_from(from, targets, j + 1).contains(m));
            }
        }
    }
}

/// Every enumerated pair is a pseudo-legal transition: its target is in the
/// move set of its source square.
pub proof fn lemma_all_moves_valid(grid: Seq<Option<Piece>>, c: Color, i: int)
    ensures
        forall|m: (Position, Position)|
            all_moves_from(grid, c, i).contains(m) ==> moves_for(grid, m.0).contains(m.1),
    decreases 64 - i,
{
    if 0 <= i < 64 {
        lemma_all_moves_valid(grid, c, i + 1);
        let p = Position { x: (i % 8) as usize, y: (i / 8) as usize };
        lemma_pairs_from_members(p, moves_for(grid, p), 0);
        assert forall|m: (Position, Position)|
            all_moves_from(grid, c, i).contains(m) implies moves_for(grid, m.0).contains(m.1) by {
            let head = match grid_at(grid, i % 8, i / 8) {
                Some(piece) => if piece.color == c {
                    pairs_from(p, moves_for(grid, p), 0)
                } else {
                    Seq::empty()
                },
                None => Seq::empty(),
            };
            if head.contains(m) {
            } else {
                assert(all_moves_from(grid, c, i + 1).contains(m));
            }
        }
    }
}

/// Collects every pseudo-legal `(from, to)` pair of the side to move, in
/// enumeration order.
fn legal_moves(state: &GameState) -> (r: Vec<(Position, Position)>)
    requires
        state@.wf(),
    ensures
        r@ == all_moves(state@.board.grid, state@.current_player),
{
    let ghost grid = state@.board.grid;
    let ghost c = state@.current_player;
    let mut r: Vec<(Position, Position)> = Vec::new();
    let mut i: usize = 0;
    while i < 64
        invariant
            state@.wf(),
            grid == state@.board.grid,
            c == state@.current_player,
            i <= 64,
            all_moves_from(grid, c, 0) == r@ + all_moves_from(grid, c, i as int),
        decreases 64 - i,
    {
        let pos = Position::new(i % 8, i / 8);
        let ghost head = match grid_at(grid, i as int % 8, i as int / 8) {
            Some(piece) => if piece.color == c {
                pairs_from(pos, moves_for(grid, pos), 0)
            } else {
                Seq::<(Position, Position)>::empty()
            },
            None => Seq::<(Position, Position)>::empty(),
        };
        proof {
            let tail = all_moves_from(grid, c, i as int + 1);
            assert(r@ + (head + tail) =~= (r@ + head) + tail);
        }
        if let Some(piece) = state.board.get_piece(pos) {
            if piece.color == state.current_player {
                let moves = state.board.calculate_moves_for(pos);
                let ghost r0 = r@;
                let mut j: usize = 0;
                while j < moves.len()
                    invariant
                        moves@ == moves_for(grid, pos),
                        head == pairs_from(pos, moves@, 0),
                        j <= moves.len(),
                        r0 + pairs_from(pos, moves@, 0) == r@ + pairs_from(pos, moves@, j as int),
                    decreases moves.len() - j,
                {
                    let target = moves[j];
                    proof {
                        let step = seq![(pos, target)];
                        let tail = pairs_from(pos, moves@, j as int + 1);
                        assert(r@ + (step + tail) =~= (r@ + step) + tail);
                    }
                    r.push((pos, target));
                    j += 1;
                }
                proof {
                    assert(r@ + Seq::<(Position, Position)>::empty() =~= r@);
                    assert(r@ =~= r0 + head);
                }
            }
        }
        i += 1;
    }
    proof {
        assert(r@ + Seq::<(Position, Position)>::empty() =~= r@);
    }
    r
}

/// Relies on rand::Rng::gen_range over the range `0..len`: for a nonempty
/// range it returns a value drawn from that range, and panics only when the
/// range is empty, which the precondition rules out. Nothing more is
/// assumed of the draw.
#[verifier::external_body]
fn pick_index(len: usize) -> (r: usize)
    requires
        len > 0,
    ensures
        r < len,
{
    rand::Rng::gen_range(&mut rand::thread_rng(), 0..len)
}

/// A random strategy chose some enumerated move of the old state and
/// executed it: this is everything that holds of the outcome, whichever
/// index the draw returned.
pub open spec fn picked_some_move(pre: StateView, post: StateView, ms: Seq<(Position, Position)>) -> bool {
    exists|k: int| 0 <= k < ms.len() && post == apply_move_view(pre, ms[k].0, ms[k].1)
}

/// Plays one uniformly random pseudo-legal move for the side to move.
/// Fails, leaving the state untouched, exactly when that side has no
/// pseudo-legal move anywhere.
pub fn make_random_move(state: &mut GameState) -> (r: Result<(), String>)
    requires
        old(state)@.wf(),
    ensures
        final(state)@.wf(),
        all_moves(old(state)@.board.grid, old(state)@.current_player).len() == 0 ==> {
            &&& r matches Err(m) && m@ == "No valid moves for AI"@
            &&& final(state)@ == old(state)@
        },
        all_moves(old(state)@.board.grid, old(state)@.current_player).len() > 0 ==> {
            &&& r is Ok
            &&& picked_some_move(
                old(state)@,
                final(state)@,
                all_moves(old(state)@.board.grid, old(state)@.current_player),
            )
        },
{
    let ghost pre = state@;
    let ghost ms = all_moves(pre.board.grid, pre.current_player);
    let moves = legal_moves(state);
    if moves.len() == 0 {
        return Err("No valid moves for AI".to_owned());
    }
    let idx = pick_index(moves.len());
    let (from, to) = moves[idx];
    proof {
        lemma_all_moves_valid(pre.board.grid, pre.current_player, 0);
        assert(ms.contains(ms[idx as int]));
    }
    let r = state.move_piece_from(from, to);
    proof {
        assert(state@ == apply_move_view(pre, ms[idx as int].0, ms[idx as int].1));
        assert(picked_some_move(pre, state@, ms));
    }
    r
}

/// The moves among `ms[j..]` that land on an occupied square, in order.
pub open spec fn capture_moves_of(
    grid: Seq<Option<Piece>>,
    ms: Seq<(Position, Position)>,
    j: int,
) -> Seq<(Position, Position)>
    decreases ms.len() - j,
{
    if j < 0 || j >= ms.len() {
        Seq::empty()
    } else {
        (if grid_at(grid, ms[j].1.x as int, ms[j].1.y as int) is Some {
            seq![ms[j]]
        } else {
            Seq::empty()
        }) + capture_moves_of(grid, ms, j + 1)
    }
}

/// The moves among `ms[j..]` whose simulated execution leaves the opponent
/// in check, in order.
pub open spec fn check_moves_of(s: StateView, ms: Seq<(Position, Position)>, j: int) -> Seq<
    (Position, Position),
>
    decreases ms.len() - j,
{
    if j < 0 || j >= ms.len() {
        Seq::empty()
    } else {
        (if apply_move_view(s, ms[j].0, ms[j].1).is_check {
            seq![ms[j]]
        } else {
            Seq::empty()
        }) + check_moves_of(s, ms, j + 1)
    }
}

/// A filtered move keeps its membership in the base enumeration.
proof fn lemma_capture_moves_sub(grid: Seq<Option<Piece>>, ms: Seq<(Position, Position)>, j: int)
    ensures
        forall|m: (Position, Position)| capture_moves_of(grid, ms, j).contains(m) ==> ms.contains(m),
    decreases ms.len() - j,
{
    if 0 <= j < ms.len() {
        lemma_capture_moves_sub(grid, ms, j + 1);
        assert forall|m: (Position, Position)|
            capture_moves_of(grid, ms, j).contains(m) implies ms.contains(m) by {
            if m == ms[j] {
                assert(ms.contains(ms[j]));
            } else {
                assert(capture_moves_of(grid, ms, j + 1).contains(m));
            }
        }
    }
}

/// A check-giving move keeps its membership in the base enumeration.
proof fn lemma_check_moves_sub(s: StateView, ms: Seq<(Position, Position)>, j: int)
    ensures
        forall|m: (Position, Position)| check_moves_of(s, ms, j).contains(m) ==> ms.contains(m),
    decreases ms.len() - j,
{
    if 0 <= j < ms.len() {
        lemma_check_moves_sub(s, ms, j + 1);
        assert forall|m: (Position, Position)|
            check_moves_of(s, ms, j).contains(m) implies ms.contains(m) by {
            if m == ms[j] {
                assert(ms.contains(ms[j]));
            } else {
                assert(check_moves_of(s, ms, j + 1).contains(m));
            }
        }
    }
}

/// The bucket the greedy strategy draws from: check-giving moves first,
/// then captures, then the whole enumeration.
pub open spec fn greedy_bucket(s: StateView) -> Seq<(Position, Position)> {
    let ms = all_moves(s.board.grid, s.current_player);
    let checks = check_moves_of(s, ms, 0);
    let captures = capture_moves_of(s.board.grid, ms, 0);
    if checks.len() > 0 {
        checks
    } else if captures.len() > 0 {
        captures
    } else {
        ms
    }
}

/// Plays one move for the side to move, preferring moves that give check,
/// then captures, then anything, uniformly at random within the preferred
/// bucket. Fails, leaving the state untouched, exactly when that side has
/// no pseudo-legal move anywhere.
pub fn make_medium_ai_move(state: &mut GameState) -> (r: Result<(), String>)
    requires
        old(state)@.wf(),
    ensures
        final(state)@.wf(),
        all_moves(old(state)@.board.grid, old(state)@.current_player).len() == 0 ==> {
            &&& r matches Err(m) && m@ == "No valid moves for AI"@
            &&& final(state)@ == old(state)@
        },
        all_moves(old(state)@.board.grid, old(state)@.current_player).len() > 0 ==> {
            &&& r is Ok
            &&& picked_some_move(old(state)@, final(state)@, greedy_bucket(old(state)@))
        },
{
    let ghost pre = state@;
    let ghost ms = all_moves(pre.board.grid, pre.current_player);
    let all_list = legal_moves(state);
    let mut capture_moves: Vec<(Position, Position)> = Vec::new();
    let mut check_moves: Vec<(Position, Position)> = Vec::new();

    proof {
        lemma_all_moves_valid(pre.board.grid, pre.current_player, 0);
    }
    let mut j: usize = 0;
    while j < all_list.len()
        invariant
            state@ == pre,
            pre.wf(),
            all_list@ == ms,
            forall|m: (Position, Position)| ms.contains(m) ==> moves_for(pre.board.grid, m.0).contains(m.1),
            j <= all_list.len(),
            capture_moves_of(pre.board.grid, ms, 0) == capture_moves@ + capture_moves_of(
                pre.board.grid,
                ms,
                j as int,
            ),
            check_moves_of(pre, ms, 0) == check_moves@ + check_moves_of(pre, ms, j as int),
        decreases all_list.len() - j,
    {
        let (from, to) = all_list[j];
        proof {
            assert(ms.contains(ms[j as int]));
            let cap_step = if grid_at(pre.board.grid, ms[j as int].1.x as int, ms[j as int].1.y
                as int) is Some {
                seq![ms[j as int]]
            } else {
                Seq::<(Position, Position)>::empty()
            };
            let cap_tail = capture_moves_of(pre.board.grid, ms, j as int + 1);
            assert(capture_moves@ + (cap_step + cap_tail) =~= (capture_moves@ + cap_step)
                + cap_tail);
            let chk_step = if apply_move_view(pre, ms[j as int].0, ms[j as int].1).is_check {
                seq![ms[j as int]]
            } else {
                Seq::<(Position, Position)>::empty()
            };
            let chk_tail = check_moves_of(pre, ms, j as int + 1);
            assert(check_moves@ + (chk_step + chk_tail) =~= (check_moves@ + chk_step) + chk_tail);
        }
        if state.board.get_piece(to).is_some() {
            capture_moves.push((from, to));
        }
        let mut temp_state = state.clone();
        let sim = temp_state.move_piece_from(from, to);
        if sim.is_ok() {
            if temp_state.is_check {
                check_moves.push((from, to));
            }
        }
        j += 1;
    }

    if all_list.len() == 0 {
        return Err("No valid moves for AI".to_owned());
    }

    proof {
        assert(capture_moves@ + Seq::<(Position, Position)>::empty() =~= capture_moves@);
        assert(check_moves@ + Seq::<(Position, Position)>::empty() =~= check_moves@);
        lemma_capture_moves_sub(pre.board.grid, ms, 0);
        lemma_check_moves_sub(pre, ms, 0);
    }

    let (from, to) = if check_moves.len() > 0 {
        let idx = pick_index(check_moves.len());
        let ghost bucket = greedy_bucket(pre);
        proof {
            assert(bucket.contains(bucket[idx as int]));
        }
        check_moves[idx]
    } else if capture_moves.len() > 0 {
        let idx = pick_index(capture_moves.len());
        let ghost bucket = greedy_bucket(pre);
        proof {
            assert(bucket.contains(bucket[idx as int]));
        }
        capture_moves[idx]
    } else {
        let idx = pick_index(all_list.len());
        let ghost bucket = greedy_bucket(pre);
        proof {
            assert(bucket.contains(bucket[idx as int]));
        }
        all_list[idx]
    };
    let ghost bucket = greedy_bucket(pre);
    proof {
        assert(bucket.contains((from, to)));
        assert(ms.contains((from, to)));
    }
    let r = state.move_piece_from(from, to);
    proof {
        let k = choose|k: int| 0 <= k < bucket.len() && bucket[k] == (from, to);
        assert(state@ == apply_move_view(pre, bucket[k].0, bucket[k].1));
        assert(picked_some_move(pre, state@, bucket));
    }
    r
}

/// The minimax value of `s` at the given remaining depth with window
/// `(alpha, beta)`: at depth 0 or in a finished game, the static score from
/// the point of view of whoever is then to move; otherwise the fold over
/// every move of the side to move, maximizing or minimizing, with a branch
/// abandoned once `beta <= alpha`.
pub open spec fn minimax_spec(s: StateView, depth: int, maximizing: bool, alpha: int, beta: int) -> int
    decreases depth, 100int, 0int,
{
    if depth <= 0 || s.game_over {
        eval_spec(s, s.current_player)
    } else if maximizing {
        mm_squares(s, depth, true, 0, alpha, beta, i32::MIN as int)
    } else {
        mm_squares(s, depth, false, 0, alpha, beta, i32::MAX as int)
    }
}

/// The minimax fold over squares `i..64`: each own-piece square folds its
/// move list through `mm_moves`, carrying the best score and the tightened
/// window bound across squares.
pub open spec fn mm_squares(
    s: StateView,
    depth: int,
    maximizing: bool,
    i: int,
    alpha: int,
    beta: int,
    best: int,
) -> int
    decreases depth, 66 - i, 0int,
{
    if depth <= 0 || i < 0 || i >= 64 {
        best
    } else {
        let p = Position { x: (i % 8) as usize, y: (i / 8) as usize };
        match grid_at(s.board.grid, i % 8, i / 8) {
            Some(piece) => if piece.color == s.current_player {
                let t = mm_moves(s, depth, maximizing, p, moves_for(s.board.grid, p), 0, alpha, beta, best);
                if maximizing {
                    mm_squares(s, depth, maximizing, i + 1, t.1, beta, t.0)
                } else {
                    mm_squares(s, depth, maximizing, i + 1, alpha, t.1, t.0)
                }
            } else {
                mm_squares(s, depth, maximizing, i + 1, alpha, beta, best)
            },
            None => mm_squares(s, depth, maximizing, i + 1, alpha, beta, best),
        }
    }
}

/// The minimax fold over one square's targets `j..`: each child position is
/// scored one ply deeper with the roles swapped; the best score and the
/// mover's window bound are tightened, and the remaining targets are
/// abandoned once `beta <= alpha`. Returns the best score together with the
/// tightened bound (`alpha` when maximizing, `beta` when minimizing).
pub open spec fn mm_moves(
    s: StateView,
    depth: int,
    maximizing: bool,
    from: Position,
    targets: Seq<Position>,
    j: int,
    alpha: int,
    beta: int,
    best: int,
) -> (int, int)
    decreases depth, 0int, targets.len() - j,
{
    if depth <= 0 || j < 0 || j >= targets.len() {
        (best, if maximizing { alpha } else { beta })
    } else {
        let child = apply_move_view(s, from, targets[j]);
        let score = minimax_spec(child, depth - 1, !maximizing, alpha, beta);
        if maximizing {
            let best2 = if score > best { score } else { best };
            let alpha2 = if best2 > alpha { best2 } else { alpha };
            if beta <= alpha2 {
                (best2, alpha2)
            } else {
                mm_moves(s, depth, maximizing, from, targets, j + 1, alpha2, beta, best2)
            }
        } else {
            let best2 = if score < best { score } else { best };
            let beta2 = if best2 < beta { best2 } else { beta };
            if beta2 <= alpha {
                (best2, beta2)
            } else {
                mm_moves(s, depth, maximizing, from, targets, j + 1, alpha, beta2, best2)
            }
        }
    }
}

/// Minimax with alpha-beta pruning: computes exactly the fold that
/// `minimax_spec` describes. Every hypothetical move clones the whole
/// state; a square's remaining targets are skipped once `beta <= alpha`.
pub fn minimax(state: &GameState, depth: i32, maximizing_player: bool, alpha: i32, beta: i32) -> (r:
    i32)
    requires
        state@.wf(),
        depth >= 0,
    ensures
        r as int == minimax_spec(state@, depth as int, maximizing_player, alpha as int, beta as int),
    decreases depth,
{
    let ghost sv = state@;
    let ghost d = depth as int;
    if depth == 0 || state.game_over {
        return evaluate_position(state, state.current_player);
    }

    if maximizing_player {
        let mut best_score: i32 = i32::MIN;
        let mut alpha = alpha;
        let ghost a0 = alpha as int;
        let mut i: usize = 0;
        while i < 64
            invariant
                state@.wf(),
                sv == state@,
                d == depth as int,
                1 <= depth,
                i <= 64,
                mm_squares(sv, d, true, 0, a0, beta as int, i32::MIN as int) == mm_squares(
                    sv,
                    d,
                    true,
                    i as int,
                    alpha as int,
                    beta as int,
                    best_score as int,
                ),
            decreases 64 - i,
        {
            let pos = Position::new(i % 8, i / 8);
            if let Some(piece) = state.board.get_piece(pos) {
                if piece.color == state.current_player {
                    let moves = state.board.calculate_moves_for(pos);
                    let ghost a_enter = alpha as int;
                    let ghost b_enter = best_score as int;
                    let mut j: usize = 0;
                    while j < moves.len()
                        invariant_except_break
                            mm_moves(sv, d, true, pos, moves@, 0, a_enter, beta as int, b_enter)
                                == mm_moves(
                                sv,
                                d,
                                true,
                                pos,
                                moves@,
                                j as int,
                                alpha as int,
                                beta as int,
                                best_score as int,
                            ),
                        invariant
                            state@.wf(),
                            sv == state@,
                            d == depth as int,
                            1 <= depth,
                            j <= moves.len(),
                            moves@ == moves_for(sv.board.grid, pos),
                        ensures
                            mm_moves(sv, d, true, pos, moves@, 0, a_enter, beta as int, b_enter)
                                == (best_score as int, alpha as int),
                        decreases moves.len() - j,
                    {
                        let target = moves[j];
                        proof {
                            assert(moves@[j as int] == target);
                            assert(moves_for(sv.board.grid, pos).contains(target));
                        }
                        let mut temp_state = state.clone();
                        let _ = temp_state.move_piece_from(pos, target);
                        let score = minimax(&temp_state, depth - 1, false, alpha, beta);
                        if score > best_score {
                            best_score = score;
                        }
                        if best_score > alpha {
                            alpha = best_score;
                        }
                        if beta <= alpha {
                            break;
                        }
                        j += 1;
                    }
                    proof {
                        assert(mm_squares(sv, d, true, i as int, a_enter, beta as int, b_enter)
                            == mm_squares(
                            sv,
                            d,
                            true,
                            i as int + 1,
                            alpha as int,
                            beta as int,
                            best_score as int,
                        ));
                    }
                }
            }
            i += 1;
        }
        best_score
    } else {
        let mut best_score: i32 = i32::MAX;
        let mut beta = beta;
        let ghost b0 = beta as int;
        let mut i: usize = 0;
        while i < 64
            invariant
                state@.wf(),
                sv == state@,
                d == depth as int,
                1 <= depth,
                i <= 64,
                mm_squares(sv, d, false, 0, alpha as int, b0, i32::MAX as int) == mm_squares(
                    sv,
                    d,
                    false,
                    i as int,
                    alpha as int,
                    beta as int,
                    best_score as int,
                ),
            decreases 64 - i,
        {
            let pos = Position::new(i % 8, i / 8);
            if let Some(piece) = state.board.get_piece(pos) {
                if piece.color == state.current_player {
                    let moves = state.board.calculate_moves_for(pos);
                    let ghost b_enter = beta as int;
                    let ghost s_enter = best_score as int;
                    let mut j: usize = 0;
                    while j < moves.len()
                        invariant_except_break
                            mm_moves(sv, d, false, pos, moves@, 0, alpha as int, b_enter, s_enter)
                                == mm_moves(
                                sv,
                                d,
                                false,
                                pos,
                                moves@,
                                j as int,
                                alpha as int,
                                beta as int,
                                best_score as int,
                            ),
                        invariant
                            state@.wf(),
                            sv == state@,
                            d == depth as int,
                            1 <= depth,
                            j <= moves.len(),
                            moves@ == moves_for(sv.board.grid, pos),
                        ensures
                            mm_moves(sv, d, false, pos, moves@, 0, alpha as int, b_enter, s_enter)
                                == (best_score as int, beta as int),
                        decreases moves.len() - j,
                    {
                        let target = moves[j];
                        proof {
                            assert(moves@[j as int] == target);
                            assert(moves_for(sv.board.grid, pos).contains(target));
                        }
                        let mut temp_state = state.clone();
                        let _ = temp_state.move_piece_from(pos, target);
                        let score = minimax(&temp_state, depth - 1, true, alpha, beta);
                        if score < best_score {
                            best_score = score;
                        }
                        if best_score < beta {
                            beta = best_score;
                        }
                        if beta <= alpha {
                            break;
                        }
                        j += 1;
                    }
                    proof {
                        assert(mm_squares(sv, d, false, i as int, alpha as int, b_enter, s_enter)
                            == mm_squares(
                            sv,
                            d,
                            false,
                            i as int + 1,
                            alpha as int,
                            beta as int,
                            best_score as int,
                        ));
                    }
                }
            }
            i += 1;
        }
        best_score
    }
}

/// The root fold of the search: each enumerated move is scored by one ply
/// of minimizing search under a full window, and the first move whose
/// score strictly exceeds every earlier one is kept.
pub open spec fn fb_from(
    s: StateView,
    depth: int,
    ms: Seq<(Position, Position)>,
    j: int,
    best_score: int,
    best_move: Option<(Position, Position)>,
) -> Option<(Position, Position)>
    decreases ms.len() - j,
{
    if j < 0 || j >= ms.len() {
        best_move
    } else {
        let child = apply_move_view(s, ms[j].0, ms[j].1);
        let score = minimax_spec(child, depth - 1, false, i32::MIN as int, i32::MAX as int);
        if score > best_score {
            fb_from(s, depth, ms, j + 1, score, Some(ms[j]))
        } else {
            fb_from(s, depth, ms, j + 1, best_score, best_move)
        }
    }
}

/// What `find_best_move` picks: the root fold over the whole enumeration,
/// started strictly below every representable score.
pub open spec fn best_move_spec(s: StateView, depth: int) -> Option<(Position, Position)> {
    fb_from(s, depth, all_moves(s.board.grid, s.current_player), 0, i32::MIN as int, None)
}

/// The root fold only ever answers with a move of the enumeration (or with
/// what it started from).
proof fn lemma_fb_member(
    s: StateView,
    depth: int,
    ms: Seq<(Position, Position)>,
    j: int,
    best_score: int,
    best_move: Option<(Position, Position)>,
)
    requires
        best_move matches Some(m) ==> ms.contains(m),
    ensures
        fb_from(s, depth, ms, j, best_score, best_move) matches Some(m) ==> ms.contains(m),
    decreases ms.len() - j,
{
    if 0 <= j < ms.len() {
        let child = apply_move_view(s, ms[j].0, ms[j].1);
        let score = minimax_spec(child, depth - 1, false, i32::MIN as int, i32::MAX as int);
        if score > best_score {
            assert(ms.contains(ms[j]));
            lemma_fb_member(s, depth, ms, j + 1, score, Some(ms[j]));
        } else {
            lemma_fb_member(s, depth, ms, j + 1, best_score, best_move);
        }
    }
}

/// Searches every enumerated move of the side to move to the given depth
/// and returns the one `best_move_spec` describes; fails exactly when that
/// fold keeps none (in particular when there is no move at all).
pub fn find_best_move(state: &GameState, depth: i32) -> (r: Result<(Position, Position), String>)
    requires
        state@.wf(),
        depth >= 1,
    ensures
        best_move_spec(state@, depth as int) is None ==> (r matches Err(m) && m@
            == "No valid moves found"@),
        best_move_spec(state@, depth as int) matches Some(m) ==> r == Ok::<
            (Position, Position),
            String,
        >(m),
{
    let ghost sv = state@;
    let ghost d = depth as int;
    let moves = legal_moves(state);
    let ghost ms = moves@;
    proof {
        lemma_all_moves_valid(sv.board.grid, sv.current_player, 0);
    }
    let mut best_move: Option<(Position, Position)> = None;
    let mut best_score: i32 = i32::MIN;
    let mut j: usize = 0;
    while j < moves.len()
        invariant
            state@.wf(),
            sv == state@,
            d == depth as int,
            1 <= depth,
            j <= moves.len(),
            moves@ == ms,
            ms == all_moves(sv.board.grid, sv.current_player),
            forall|m: (Position, Position)| ms.contains(m) ==> moves_for(sv.board.grid, m.0).contains(m.1),
            fb_from(sv, d, ms, 0, i32::MIN as int, None) == fb_from(
                sv,
                d,
                ms,
                j as int,
                best_score as int,
                best_move,
            ),
        decreases moves.len() - j,
    {
        let (from, to) = moves[j];
        proof {
            assert(ms.contains(ms[j as int]));
        }
        let mut temp_state = state.clone();
        let _ = temp_state.move_piece_from(from, to);
        let score = minimax(&temp_state, depth - 1, false, i32::MIN, i32::MAX);
        if score > best_score {
            best_score = score;
            best_move = Some((from, to));
        }
        j += 1;
    }
    match best_move {
        Some(m) => Ok(m),
        None => Err("No valid moves found".to_owned()),
    }
}

/// Plays the minimax-chosen move at depth 3. Fails, leaving the state
/// untouched, exactly when the root fold keeps no move.
pub fn make_hard_ai_move(state: &mut GameState) -> (r: Result<(), String>)
    requires
        old(state)@.wf(),
    ensures
        final(state)@.wf(),
        best_move_spec(old(state)@, 3) is None ==> {
            &&& r matches Err(m) && m@ == "No valid moves found"@
            &&& final(state)@ == old(state)@
        },
        best_move_spec(old(state)@, 3) matches Some(m) ==> r is Ok && final(state)@
            == apply_move_view(old(state)@, m.0, m.1),
{
    let ghost pre = state@;
    let best = find_best_move(state, 3);
    match best {
        Ok((from, to)) => {
            proof {
                lemma_fb_member(
                    pre,
                    3,
                    all_moves(pre.board.grid, pre.current_player),
                    0,
                    i32::MIN as int,
                    None,
                );
                lemma_all_moves_valid(pre.board.grid, pre.current_player, 0);
            }
            state.move_piece_from(from, to)
        },
        Err(e) => Err(e),
    }
}

/// The fold that keeps the first move whose immediate static evaluation —
/// the score of the resulting position from the point of view of the side
/// then to move, as the leaf evaluator defines it — strictly exceeds every
/// earlier one.
pub open spec fn immediate_best_from(
    s: StateView,
    ms: Seq<(Position, Position)>,
    j: int,
    best_score: int,
    best_move: Option<(Position, Position)>,
) -> Option<(Position, Position)>
    decreases ms.len() - j,
{
    if j < 0 || j >= ms.len() {
        best_move
    } else {
        let child = apply_move_view(s, ms[j].0, ms[j].1);
        let score = eval_spec(child, child.current_player);
        if score > best_score {
            immediate_best_from(s, ms, j + 1, score, Some(ms[j]))
        } else {
            immediate_best_from(s, ms, j + 1, best_score, best_move)
        }
    }
}

/// At depth 0 the search is the static evaluator, taken from the point of
/// view of the side to move, whatever the window.
pub proof fn lemma_minimax_leaf(s: StateView, maximizing: bool, alpha: int, beta: int)
    ensures
        minimax_spec(s, 0, maximizing, alpha, beta) == eval_spec(s, s.current_player),
{
}

/// Step by step, the depth-1 root fold and the immediate-evaluation fold
/// agree.
proof fn lemma_fb_depth_one(
    s: StateView,
    ms: Seq<(Position, Position)>,
    j: int,
    best_score: int,
    best_move: Option<(Position, Position)>,
)
    ensures
        fb_from(s, 1, ms, j, best_score, best_move) == immediate_best_from(
            s,
            ms,
            j,
            best_score,
            best_move,
        ),
    decreases ms.len() - j,
{
    if 0 <= j < ms.len() {
        let child = apply_move_view(s, ms[j].0, ms[j].1);
        lemma_minimax_leaf(child, false, i32::MIN as int, i32::MAX as int);
        let score = eval_spec(child, child.current_player);
        if score > best_score {
            lemma_fb_depth_one(s, ms, j + 1, score, Some(ms[j]));
        } else {
            lemma_fb_depth_one(s, ms, j + 1, best_score, best_move);
        }
    }
}

/// Minimax at depth 1 reduces exactly to picking the first move that
/// maximizes the immediate static evaluation of the resulting position,
/// in enumeration order.
pub proof fn lemma_minimax_depth_one(s: StateView)
    ensures
        best_move_spec(s, 1) == immediate_best_from(
            s,
            all_moves(s.board.grid, s.current_player),
            0,
            i32::MIN as int,
            None,
        ),
{
    lemma_fb_depth_one(
        s,
        all_moves(s.board.grid, s.current_player),
        0,
        i32::MIN as int,
        None,
    );
}

/// With exactly one enumerated move in the drawn-from set, the random
/// strategy's outcome is forced: the state after the call is that move
/// applied.
pub proof fn lemma_single_move_forced(
    pre: StateView,
    post: StateView,
    ms: Seq<(Position, Position)>,
)
    requires
        picked_some_move(pre, post, ms),
        ms.len() == 1,
    ensures
        post == apply_move_view(pre, ms[0].0, ms[0].1),
{
}

/// Plays one automated move at the given difficulty: uniform random,
/// capture/check-greedy, or depth-3 minimax. Failure semantics follow the
/// chosen strategy; a failed attempt leaves the state untouched.
pub fn make_ai_move(state: &mut GameState, difficulty: &Difficulty) -> (r: Result<(), String>)
    requires
        old(state)@.wf(),
    ensures
        final(state)@.wf(),
        *difficulty == Difficulty::EASY ==> {
            &&& all_moves(old(state)@.board.grid, old(state)@.current_player).len() == 0 ==> {
                &&& r matches Err(m) && m@ == "No valid moves for AI"@
                &&& final(state)@ == old(state)@
            }
            &&& all_moves(old(state)@.board.grid, old(state)@.current_player).len() > 0 ==> {
                &&& r is Ok
                &&& picked_some_move(
                    old(state)@,
                    final(state)@,
                    all_moves(old(state)@.board.grid, old(state)@.current_player),
                )
            }
        },
        *difficulty == Difficulty::MEDIUM ==> {
            &&& all_moves(old(state)@.board.grid, old(state)@.current_player).len() == 0 ==> {
                &&& r matches Err(m) && m@ == "No valid moves for AI"@
                &&& final(state)@ == old(state)@
            }
            &&& all_moves(old(state)@.board.grid, old(state)@.current_player).len() > 0 ==> {
                &&& r is Ok
                &&& picked_some_move(old(state)@, final(state)@, greedy_bucket(old(state)@))
            }
        },
        *difficulty == Difficulty::HARD ==> {
            &&& best_move_spec(old(state)@, 3) is None ==> {
                &&& r matches Err(m) && m@ == "No valid moves found"@
                &&& final(state)@ == old(state)@
            }
            &&& best_move_spec(old(state)@, 3) matches Some(m) ==> r is Ok && final(state)@
                == apply_move_view(old(state)@, m.0, m.1)
        },
{
    match difficulty {
        Difficulty::EASY => make_random_move(state),
        Difficulty::MEDIUM => make_medium_ai_move(state),
        Difficulty::HARD => make_hard_ai_move(state),
    }
}

} // verus!
