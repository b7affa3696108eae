//! The game state machine: turn owner, selection, move execution, notation,
//! check flag, and the king-capture win condition.
use vstd::prelude::*;
use vstd::string::StringExecFns;

use crate::board::{
    BoardView, ChessBoard, contains_pos, grid_at, in_check, initial_piece_at, in_bounds,
    lemma_moves_for_wf, move_captured, move_grid, moves_for,
};
use crate::piece::{Color, PieceType, Position};

verus! {

/// How a game is driven: both sides local, one side automated, or over a
/// remote session.
#[derive(Clone, Copy, Debug, PartialEq, Eq, Structural)]
pub enum GameMode {
    LOCAL,
    AI,
    MULTIPLAYER,
}

/// The strength of the automated opponent.
#[derive(Clone, Copy, Debug, PartialEq, Eq, Structural)]
pub enum Difficulty {
    EASY,
    MEDIUM,
    HARD,
}

/// The settings a game is started with; immutable once it runs.
#[derive(Debug)]
pub struct GameConfig {
    pub mode: GameMode,
    pub difficulty: Option<Difficulty>,
    pub player_color: Option<Color>,
    pub game_id: Option<String>,
}

/// The mathematical content of a configuration.
#[verifier::ext_equal]
pub ghost struct ConfigView {
    pub mode: GameMode,
    pub difficulty: Option<Difficulty>,
    pub player_color: Option<Color>,
    pub game_id: Option<Seq<char>>,
}

impl View for GameConfig {
    type V = ConfigView;

    open spec fn view(&self) -> ConfigView {
        ConfigView {
            mode: self.mode,
            difficulty: self.difficulty,
            player_color: self.player_color,
            game_id: match self.game_id {
                Some(s) => Some(s@),
                None => None,
            },
        }
    }
}

/// The configuration a plain `new` game runs under: local play, nothing
/// else set.
pub open spec fn default_config() -> ConfigView {
    ConfigView { mode: GameMode::LOCAL, difficulty: None, player_color: None, game_id: None }
}

impl Default for GameConfig {
    /// Local mode with no difficulty, color or session set.
    fn default() -> (r: Self)
        ensures
            r@ == default_config(),
    {
        GameConfig { mode: GameMode::LOCAL, difficulty: None, player_color: None, game_id: None }
    }
}

impl Clone for GameConfig {
    /// A copy describing the same configuration.
    fn clone(&self) -> (r: Self)
        ensures
            r@ == self@,
    {
        GameConfig {
            mode: self.mode,
            difficulty: self.difficulty,
            player_color: self.player_color,
            game_id: match &self.game_id {
                Some(s) => Some(s.clone()),
                None => None,
            },
        }
    }
}

/// The full game state: the board plus everything a turn reads or writes.
#[derive(Debug)]
pub struct GameState {
    pub board: ChessBoard,
    pub current_player: Color,
    pub selected_square: Option<Position>,
    pub possible_moves: Vec<Position>,
    pub game_over: bool,
    pub winner: Option<Color>,
    pub is_check: bool,
    pub config: GameConfig,
    pub move_history: Vec<String>,
}

/// The views of a history of notation strings.
pub open spec fn history_view(h: Seq<String>) -> Seq<Seq<char>> {
    h.map_values(|s: String| s@)
}

/// The mathematical content of a game state.
#[verifier::ext_equal]
pub ghost struct StateView {
    pub board: BoardView,
    pub current_player: Color,
    pub selected_square: Option<Position>,
    pub possible_moves: Seq<Position>,
    pub game_over: bool,
    pub winner: Option<Color>,
    pub is_check: bool,
    pub config: ConfigView,
    pub move_history: Seq<Seq<char>>,
}

impl StateView {
    /// A state view is well formed when its board is.
    pub open spec fn wf(self) -> bool {
        self.board.wf()
    }
}

impl View for GameState {
    type V = StateView;

    open spec fn view(&self) -> StateView {
        StateView {
            board: self.board@,
            current_player: self.current_player,
            selected_square: self.selected_square,
            possible_moves: self.possible_moves@,
            game_over: self.game_over,
            winner: self.winner,
            is_check: self.is_check,
            config: self.config@,
            move_history: history_view(self.move_history@),
        }
    }
}

/// The file letter of column `x`: `a` on the left through `h` on the right.
pub open spec fn file_char(x: int) -> char {
    if x == 0 { 'a' }
    else if x == 1 { 'b' }
    else if x == 2 { 'c' }
    else if x == 3 { 'd' }
    else if x == 4 { 'e' }
    else if x == 5 { 'f' }
    else if x == 6 { 'g' }
    else { 'h' }
}

/// The rank digit of row `y`: `8` at the top (row 0) down to `1` (row 7).
pub open spec fn rank_char(y: int) -> char {
    if y == 0 { '8' }
    else if y == 1 { '7' }
    else if y == 2 { '6' }
    else if y == 3 { '5' }
    else if y == 4 { '4' }
    else if y == 5 { '3' }
    else if y == 6 { '2' }
    else { '1' }
}

/// The letter a piece writes in front of its moves; pawns write none.
pub open spec fn piece_letter(t: PieceType) -> Seq<char> {
    match t {
        PieceType::Pawn => Seq::empty(),
        PieceType::Knight => seq!['N'],
        PieceType::Rook => seq!['R'],
        PieceType::Bishop => seq!['B'],
        PieceType::Queen => seq!['Q'],
        PieceType::King => seq!['K'],
    }
}

/// The notation a move is recorded as:
/// `<letter><fromFile><fromRank><'x'|'-'><toFile><toRank>`.
pub open spec fn notation_spec(t: PieceType, from: Position, to: Position, is_capture: bool) -> Seq<
    char,
> {
    piece_letter(t) + seq![
        file_char(from.x as int),
        rank_char(from.y as int),
        if is_capture { 'x' } else { '-' },
        file_char(to.x as int),
        rank_char(to.y as int),
    ]
}

/// A move is accepted exactly when its target is among the pseudo-legal
/// moves of the source square.
pub open spec fn move_valid(s: StateView, from: Position, to: Position) -> bool {
    moves_for(s.board.grid, from).contains(to)
}

/// The state after a valid move from `from` to `to`: the board is updated
/// with capture bookkeeping, the notation is appended, a captured king ends
/// the game in the mover's favor, the check flag is recomputed for the
/// opponent, the turn flips, and the selection is cleared.
pub open spec fn apply_move_view(s: StateView, from: Position, to: Position) -> StateView {
    match grid_at(s.board.grid, from.x as int, from.y as int) {
        None => s,
        Some(piece) => {
            let target = grid_at(s.board.grid, to.x as int, to.y as int);
            let king_captured = match target {
                Some(c) => c.piece_type == PieceType::King,
                None => false,
            };
            let grid2 = move_grid(s.board.grid, from, to);
            let opp = s.current_player.spec_opposite();
            StateView {
                board: BoardView {
                    grid: grid2,
                    captured: move_captured(s.board.grid, s.board.captured, to),
                },
                current_player: opp,
                selected_square: None,
                possible_moves: Seq::empty(),
                game_over: if king_captured { true } else { s.game_over },
                winner: if king_captured { Some(s.current_player) } else { s.winner },
                is_check: in_check(grid2, opp),
                config: s.config,
                move_history: s.move_history.push(
                    notation_spec(piece.piece_type, from, to, target is Some),
                ),
            }
        },
    }
}

/// The state after selecting `pos`: when `pos` holds a piece of the side to
/// move it is pinned with its move set; otherwise the selection is cleared.
/// The board itself never changes.
pub open spec fn select_view(s: StateView, pos: Position) -> StateView {
    if own_piece_at(s, pos) {
        StateView { selected_square: Some(pos), possible_moves: moves_for(s.board.grid, pos), ..s }
    } else {
        StateView { selected_square: None, possible_moves: Seq::empty(), ..s }
    }
}

/// True when `pos` holds a piece of the side to move.
pub open spec fn own_piece_at(s: StateView, pos: Position) -> bool {
    match grid_at(s.board.grid, pos.x as int, pos.y as int) {
        Some(piece) => piece.color == s.current_player,
        None => false,
    }
}

/// `s` with the selection cleared and nothing else changed.
pub open spec fn cleared_selection(s: StateView) -> StateView {
    StateView { selected_square: None, possible_moves: Seq::empty(), ..s }
}

/// The state after a tap on `pos` when selections are driven remotely: an
/// own piece is selected; an opposing piece clears the selection; an empty
/// square moves the selected piece there when that square is among the
/// pinned moves and the move is accepted, clears the selection when it is
/// not among them, and does nothing when no selection exists.
pub open spec fn multiplayer_touch_view(s: StateView, pos: Position) -> StateView {
    match grid_at(s.board.grid, pos.x as int, pos.y as int) {
        Some(piece) => select_view(s, pos),
        None => match s.selected_square {
            Some(sel) => if s.possible_moves.contains(pos) {
                if move_valid(s, sel, pos) {
                    apply_move_view(s, sel, pos)
                } else {
                    s
                }
            } else {
                cleared_selection(s)
            },
            None => s,
        },
    }
}

impl GameState {
    /// A fresh game: standard setup, White to move, nothing selected, no
    /// history, local configuration.
    pub fn new() -> (r: GameState)
        ensures
            r@.wf(),
            r@.board.captured == Seq::<crate::piece::Piece>::empty(),
            forall|x: int, y: int|
                in_bounds(x, y) ==> grid_at(r@.board.grid, x, y) == initial_piece_at(x, y),
            r@.current_player == Color::White,
            r@.selected_square is None,
            r@.possible_moves == Seq::<Position>::empty(),
            !r@.game_over,
            r@.winner is None,
            !r@.is_check,
            r@.config == default_config(),
            r@.move_history == Seq::<Seq<char>>::empty(),
            r@ == GameState::new_view(),
    {
        let r = GameState {
            board: ChessBoard::new(),
            current_player: Color::White,
            selected_square: None,
            possible_moves: Vec::new(),
            game_over: false,
            winner: None,
            is_check: false,
            config: GameConfig::default(),
            move_history: Vec::new(),
        };
        proof {
            assert(history_view(r.move_history@) =~= Seq::<Seq<char>>::empty());
            lemma_new_grid(r.board@.grid);
            assert(r@ =~= GameState::new_view());
        }
        r
    }

    /// A fresh game run under `config`.
    pub fn new_with_config(config: GameConfig) -> (r: GameState)
        ensures
            r@.wf(),
            r@ == (StateView { config: config@, ..GameState::new_view() }),
    {
        let ghost cv = config@;
        let mut state = GameState::new();
        state.config = config;
        proof {
            assert(state@ =~= (StateView { config: cv, ..GameState::new_view() }));
        }
        state
    }

    /// The view every fresh game starts from.
    pub open spec fn new_view() -> StateView {
        StateView {
            board: BoardView {
                grid: Seq::new(64, |i: int| initial_piece_at(i % 8, i / 8)),
                captured: Seq::empty(),
            },
            current_player: Color::White,
            selected_square: None,
            possible_moves: Seq::empty(),
            game_over: false,
            winner: None,
            is_check: false,
            config: default_config(),
            move_history: Seq::empty(),
        }
    }

    /// Selects a square: pins a piece of the side to move together with its
    /// move set and returns that set; on anything else clears the selection
    /// and returns the empty set. Never mutates the board.
    pub fn select_square(&mut self, pos: Position) -> (r: Vec<Position>)
        requires
            old(self)@.wf(),
        ensures
            final(self)@.wf(),
            final(self)@ == select_view(old(self)@, pos),
            r@ == if own_piece_at(old(self)@, pos) {
                moves_for(old(self)@.board.grid, pos)
            } else {
                Seq::<Position>::empty()
            },
    {
        let ghost pre = self@;
        if let Some(piece) = self.board.get_piece(pos) {
            if piece.color == self.current_player {
                self.selected_square = Some(pos);
                self.possible_moves = self.board.calculate_moves_for(pos);
                let r = clone_position_vec(&self.possible_moves);
                proof {
                    assert(self@ =~= select_view(pre, pos));
                }
                return r;
            }
        }
        self.selected_square = None;
        self.possible_moves.clear();
        proof {
            assert(self@ =~= select_view(pre, pos));
        }
        Vec::new()
    }

    /// Moves from the selected square to `to`; fails when nothing is
    /// selected.
    pub fn move_piece(&mut self, to: Position) -> (r: Result<(), String>)
        requires
            old(self)@.wf(),
        ensures
            final(self)@.wf(),
            old(self)@.selected_square is None ==> {
                &&& r matches Err(m) && m@ == "No square selected"@
                &&& final(self)@ == old(self)@
            },
            old(self)@.selected_square matches Some(from) ==> {
                &&& !move_valid(old(self)@, from, to) ==> {
                    &&& r matches Err(m) && m@ == "Invalid move"@
                    &&& final(self)@ == old(self)@
                }
                &&& move_valid(old(self)@, from, to) ==> r is Ok && final(self)@
                    == apply_move_view(old(self)@, from, to)
            },
    {
        let from = match self.selected_square {
            Some(pos) => pos,
            None => {
                return Err("No square selected".to_owned());
            },
        };
        self.move_piece_from(from, to)
    }

    /// The sole move-execution path. Rejects a target outside the source's
    /// pseudo-legal move set, leaving the state untouched; otherwise applies
    /// the move as `apply_move_view` describes.
    pub fn move_piece_from(&mut self, from: Position, to: Position) -> (r: Result<(), String>)
        requires
            old(self)@.wf(),
        ensures
            final(self)@.wf(),
            !move_valid(old(self)@, from, to) ==> {
                &&& r matches Err(m) && m@ == "Invalid move"@
                &&& final(self)@ == old(self)@
            },
            move_valid(old(self)@, from, to) ==> r is Ok && final(self)@ == apply_move_view(
                old(self)@,
                from,
                to,
            ),
    {
        let ghost pre = self@;
        let moves = self.board.calculate_moves_for(from);
        if !contains_pos(&moves, to) {
            return Err("Invalid move".to_owned());
        }
        proof {
            lemma_moves_for_wf(pre.board.grid, from);
        }
        let source_piece = match self.board.get_piece(from) {
            Some(p) => p,
            None => {
                proof {
                    assert(false);
                }
                return Err("No piece at source position".to_owned());
            },
        };
        let is_capture = self.board.get_piece(to).is_some();
        let move_result = self.board.move_piece(from, to);
        match move_result {
            Ok(()) => {},
            Err(e) => {
                proof {
                    assert(false);
                }
                return Err(e);
            },
        }
        let notation = notation_string(source_piece.piece_type, from, to, is_capture);
        self.move_history.push(notation);
        if is_capture {
            let captured_len = self.board.captured_pieces.len();
            if captured_len > 0 {
                let last = self.board.captured_pieces[captured_len - 1];
                if last.piece_type == PieceType::King {
                    self.game_over = true;
                    self.winner = Some(self.current_player);
                }
            }
        }
        let opponent_color = if self.current_player == Color::White {
            Color::Black
        } else {
            Color::White
        };
        self.is_check = self.board.is_king_in_check(opponent_color);
        self.current_player = match self.current_player {
            Color::White => Color::Black,
            Color::Black => Color::White,
        };
        self.selected_square = None;
        self.possible_moves.clear();
        proof {
            assert(history_view(self.move_history@) =~= pre.move_history.push(
                notation_spec(source_piece.piece_type, from, to, is_capture),
            ));
            assert(self@ =~= apply_move_view(pre, from, to));
        }
        Ok(())
    }

    /// One tap of a remote-driven game: selects an own piece, clears on an
    /// opposing one, and on an empty square either executes the pinned move
    /// or clears the selection, as `multiplayer_touch_view` describes.
    pub fn select_square_multiplayer(&mut self, pos: Position)
        requires
            old(self)@.wf(),
        ensures
            final(self)@.wf(),
            final(self)@ == multiplayer_touch_view(old(self)@, pos),
    {
        let ghost pre = self@;
        if let Some(piece) = self.board.get_piece(pos) {
            if piece.color == self.current_player {
                self.selected_square = Some(pos);
                self.possible_moves = self.board.calculate_moves_for(pos);
            } else {
                self.selected_square = None;
                self.possible_moves.clear();
            }
            proof {
                assert(self@ =~= multiplayer_touch_view(pre, pos));
            }
        } else {
            if let Some(selected) = self.selected_square {
                if contains_pos(&self.possible_moves, pos) {
                    let _ = self.move_piece_from(selected, pos);
                    proof {
                        assert(self@ =~= multiplayer_touch_view(pre, pos));
                    }
                } else {
                    self.selected_square = None;
                    self.possible_moves.clear();
                    proof {
                        assert(self@ =~= multiplayer_touch_view(pre, pos));
                    }
                }
            } else {
                proof {
                    assert(self@ =~= multiplayer_touch_view(pre, pos));
                }
            }
        }
    }
}

impl Clone for GameState {
    /// A copy describing the same game: every contract of this library
    /// speaks of a state's view, and the copy's view is the original's.
    fn clone(&self) -> (r: Self)
        ensures
            r@ == self@,
    {
        let r = GameState {
            board: self.board.clone(),
            current_player: self.current_player,
            selected_square: self.selected_square,
            possible_moves: clone_position_vec(&self.possible_moves),
            game_over: self.game_over,
            winner: self.winner,
            is_check: self.is_check,
            config: self.config.clone(),
            move_history: clone_string_vec(&self.move_history),
        };
        proof {
            assert(r@ =~= self@);
        }
        r
    }
}

/// True exactly when the two cell vectors hold the same sequence.
fn cells_vec_eq(a: &Vec<Option<crate::piece::Piece>>, b: &Vec<Option<crate::piece::Piece>>) -> (r:
    bool)
    ensures
        r == (a@ == b@),
{
    if a.len() != b.len() {
        return false;
    }
    let mut i: usize = 0;
    while i < a.len()
        invariant
            a@.len() == b@.len(),
            i <= a.len(),
            forall|k: int| 0 <= k < i ==> a@[k] == b@[k],
        decreases a.len() - i,
    {
        let same = match (a[i], b[i]) {
            (None, None) => true,
            (Some(x), Some(y)) => x == y,
            _ => false,
        };
        if !same {
            proof {
                assert(a@[i as int] != b@[i as int]);
            }
            return false;
        }
        i += 1;
    }
    proof {
        assert(a@ =~= b@);
    }
    true
}

/// True exactly when the two piece vectors hold the same sequence.
fn pieces_vec_eq(a: &Vec<crate::piece::Piece>, b: &Vec<crate::piece::Piece>) -> (r: bool)
    ensures
        r == (a@ == b@),
{
    if a.len() != b.len() {
        return false;
    }
    let mut i: usize = 0;
    while i < a.len()
        invariant
            a@.len() == b@.len(),
            i <= a.len(),
            forall|k: int| 0 <= k < i ==> a@[k] == b@[k],
        decreases a.len() - i,
    {
        if a[i] != b[i] {
            return false;
        }
        i += 1;
    }
    proof {
        assert(a@ =~= b@);
    }
    true
}

/// True exactly when the two position vectors hold the same sequence.
fn positions_vec_eq(a: &Vec<Position>, b: &Vec<Position>) -> (r: bool)
    ensures
        r == (a@ == b@),
{
    if a.len() != b.len() {
        return false;
    }
    let mut i: usize = 0;
    while i < a.len()
        invariant
            a@.len() == b@.len(),
            i <= a.len(),
            forall|k: int| 0 <= k < i ==> a@[k] == b@[k],
        decreases a.len() - i,
    {
        if a[i] != b[i] {
            return false;
        }
        i += 1;
    }
    proof {
        assert(a@ =~= b@);
    }
    true
}

/// True exactly when the two histories read the same, string for string.
fn history_vec_eq(a: &Vec<String>, b: &Vec<String>) -> (r: bool)
    ensures
        r == (history_view(a@) == history_view(b@)),
{
    if a.len() != b.len() {
        proof {
            assert(history_view(a@).len() != history_view(b@).len());
        }
        return false;
    }
    let mut i: usize = 0;
    while i < a.len()
        invariant
            a@.len() == b@.len(),
            i <= a.len(),
            forall|k: int| 0 <= k < i ==> a@[k]@ == b@[k]@,
        decreases a.len() - i,
    {
        if !a[i].eq(&b[i]) {
            proof {
                assert(history_view(a@)[i as int] != history_view(b@)[i as int]);
            }
            return false;
        }
        i += 1;
    }
    proof {
        assert(history_view(a@) =~= history_view(b@));
    }
    true
}

impl PartialEq for GameState {
    /// Two states are equal when their mathematical contents agree: same
    /// placement, captures, turn, selection, flags, configuration and
    /// history.
    fn eq(&self, other: &GameState) -> bool {
        let boards_eq = cells_vec_eq(&self.board.board, &other.board.board) && pieces_vec_eq(
            &self.board.captured_pieces,
            &other.board.captured_pieces,
        );
        let selection_eq = match (self.selected_square, other.selected_square) {
            (None, None) => true,
            (Some(x), Some(y)) => x == y,
            _ => false,
        };
        let winner_eq = match (self.winner, other.winner) {
            (None, None) => true,
            (Some(x), Some(y)) => x == y,
            _ => false,
        };
        let difficulty_eq = match (self.config.difficulty, other.config.difficulty) {
            (None, None) => true,
            (Some(x), Some(y)) => x == y,
            _ => false,
        };
        let player_color_eq = match (self.config.player_color, other.config.player_color) {
            (None, None) => true,
            (Some(x), Some(y)) => x == y,
            _ => false,
        };
        let game_id_eq = match (&self.config.game_id, &other.config.game_id) {
            (None, None) => true,
            (Some(x), Some(y)) => x.eq(y),
            _ => false,
        };
        let r = boards_eq && self.current_player == other.current_player && selection_eq
            && positions_vec_eq(&self.possible_moves, &other.possible_moves) && self.game_over
            == other.game_over && winner_eq && self.is_check == other.is_check && self.config.mode
            == other.config.mode && difficulty_eq && player_color_eq && game_id_eq
            && history_vec_eq(&self.move_history, &other.move_history);
        proof {
            if r {
                assert(self@ =~= other@);
            }
        }
        r
    }
}

impl vstd::std_specs::cmp::PartialEqSpecImpl for GameState {
    open spec fn obeys_eq_spec() -> bool {
        true
    }

    open spec fn eq_spec(&self, other: &GameState) -> bool {
        self@ == other@
    }
}

/// An exact copy of a vector of strings, character for character.
fn clone_string_vec(v: &Vec<String>) -> (r: Vec<String>)
    ensures
        history_view(r@) == history_view(v@),
{
    let mut r: Vec<String> = Vec::new();
    let mut i: usize = 0;
    while i < v.len()
        invariant
            i <= v.len(),
            r@.len() == i,
            forall|j: int| 0 <= j < i ==> r@[j]@ == v@[j]@,
        decreases v.len() - i,
    {
        let s = v[i].clone();
        r.push(s);
        i += 1;
    }
    proof {
        assert(history_view(r@) =~= history_view(v@));
    }
    r
}

/// Selecting a square that holds an opposing piece always clears the
/// selection and yields the empty move set, whatever was selected before;
/// and doing it again changes nothing more — the operation is idempotent
/// there.
pub proof fn lemma_select_opponent_clears(s: StateView, pos: Position)
    requires
        match grid_at(s.board.grid, pos.x as int, pos.y as int) {
            Some(piece) => piece.color != s.current_player,
            None => false,
        },
    ensures
        select_view(s, pos).selected_square is None,
        select_view(s, pos).possible_moves == Seq::<Position>::empty(),
        select_view(s, pos).board == s.board,
        select_view(select_view(s, pos), pos) == select_view(s, pos),
{
    assert(select_view(select_view(s, pos), pos) =~= select_view(s, pos));
}

/// Capturing the king ends the game at once: a valid move onto the square
/// holding a king leaves `game_over` set and the mover recorded as the
/// winner.
pub proof fn lemma_king_capture_ends_game(s: StateView, from: Position, to: Position)
    requires
        move_valid(s, from, to),
        match grid_at(s.board.grid, to.x as int, to.y as int) {
            Some(c) => c.piece_type == PieceType::King,
            None => false,
        },
    ensures
        apply_move_view(s, from, to).game_over,
        apply_move_view(s, from, to).winner == Some(s.current_player),
{
    assert(moves_for(s.board.grid, from).len() > 0);
    lemma_moves_for_wf(s.board.grid, from);
}

/// A 64-cell grid whose squares each hold the standard setup's piece is the
/// fresh game's grid.
proof fn lemma_new_grid(g: Seq<Option<crate::piece::Piece>>)
    requires
        g.len() == 64,
        forall|x: int, y: int| in_bounds(x, y) ==> grid_at(g, x, y) == initial_piece_at(x, y),
    ensures
        g == Seq::new(64, |i: int| initial_piece_at(i % 8, i / 8)),
{
    let target = Seq::new(64, |i: int| initial_piece_at(i % 8, i / 8));
    assert forall|i: int| 0 <= i < 64 implies g[i] == target[i] by {
        let x = i % 8;
        let y = i / 8;
        assert(0 <= x < 8 && 0 <= y < 8);
        assert(y * 8 + x == i);
        assert(grid_at(g, x, y) == g[i]);
    }
    assert(g =~= target);
}

/// An exact copy of a position vector.
pub fn clone_position_vec(v: &Vec<Position>) -> (r: Vec<Position>)
    ensures
        r@ == v@,
{
    let mut r: Vec<Position> = Vec::new();
    let mut i: usize = 0;
    while i < v.len()
        invariant
            i <= v.len(),
            r@ == v@.take(i as int),
        decreases v.len() - i,
    {
        r.push(v[i]);
        proof {
            assert(r@ =~= v@.take(i + 1));
        }
        i += 1;
    }
    proof {
        assert(v@.take(v@.len() as int) =~= v@);
    }
    r
}

/// The file letter of column `x` as a string.
fn file_str(x: usize) -> (r: &'static str)
    requires
        x < 8,
    ensures
        r@ == seq![file_char(x as int)],
{
    proof {
        reveal_strlit("a");
        reveal_strlit("b");
        reveal_strlit("c");
        reveal_strlit("d");
        reveal_strlit("e");
        reveal_strlit("f");
        reveal_strlit("g");
        reveal_strlit("h");
    }
    let r = if x == 0 { "a" }
    else if x == 1 { "b" }
    else if x == 2 { "c" }
    else if x == 3 { "d" }
    else if x == 4 { "e" }
    else if x == 5 { "f" }
    else if x == 6 { "g" }
    else { "h" };
    proof {
        assert(r@ =~= seq![file_char(x as int)]);
    }
    r
}

/// The rank digit of row `y` as a string.
fn rank_str(y: usize) -> (r: &'static str)
    requires
        y < 8,
    ensures
        r@ == seq![rank_char(y as int)],
{
    proof {
        reveal_strlit("8");
        reveal_strlit("7");
        reveal_strlit("6");
        reveal_strlit("5");
        reveal_strlit("4");
        reveal_strlit("3");
        reveal_strlit("2");
        reveal_strlit("1");
    }
    let r = if y == 0 { "8" }
    else if y == 1 { "7" }
    else if y == 2 { "6" }
    else if y == 3 { "5" }
    else if y == 4 { "4" }
    else if y == 5 { "3" }
    else if y == 6 { "2" }
    else { "1" };
    proof {
        assert(r@ =~= seq![rank_char(y as int)]);
    }
    r
}

/// The letter a piece writes in front of its moves, as a string.
fn piece_letter_str(t: PieceType) -> (r: &'static str)
    ensures
        r@ == piece_letter(t),
{
    proof {
        reveal_strlit("");
        reveal_strlit("N");
        reveal_strlit("R");
        reveal_strlit("B");
        reveal_strlit("Q");
        reveal_strlit("K");
    }
    let r = match t {
        PieceType::Pawn => "",
        PieceType::Knight => "N",
        PieceType::Rook => "R",
        PieceType::Bishop => "B",
        PieceType::Queen => "Q",
        PieceType::King => "K",
    };
    proof {
        assert(r@ =~= piece_letter(t));
    }
    r
}

/// Builds the algebraic-style notation of a move.
fn notation_string(t: PieceType, from: Position, to: Position, is_capture: bool) -> (s: String)
    requires
        from.wf(),
        to.wf(),
    ensures
        s@ == notation_spec(t, from, to, is_capture),
{
    proof {
        reveal_strlit("x");
        reveal_strlit("-");
    }
    let mut s = String::new();
    s.append(piece_letter_str(t));
    s.append(file_str(from.x));
    s.append(rank_str(from.y));
    s.append(if is_capture { "x" } else { "-" });
    s.append(file_str(to.x));
    s.append(rank_str(to.y));
    proof {
        assert("x"@ =~= seq!['x']);
        assert("-"@ =~= seq!['-']);
        assert(s@ =~= notation_spec(t, from, to, is_capture));
    }
    s
}

} // verus!
