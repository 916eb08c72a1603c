//! The authoritative game state machine: a 3x3 board of tiles, a derived
//! win condition, and the single mutation path `make_move`.
use vstd::prelude::*;

verus! {

broadcast use vstd::array::group_array_axioms;

/// One cell of the board.
#[derive(Clone, Copy, Debug, PartialEq, Eq, Structural)]
pub enum TileState {
    Empty,
    X,
    O,
}

/// The condition derived from the board after every accepted move: still in
/// progress, one side's win, or a draw on a full board. Every value but
/// `NoWin` is terminal until an explicit reset.
#[derive(Clone, Copy, Debug, PartialEq, Eq, Structural)]
pub enum WinCondition {
    NoWin,
    XWin,
    OWin,
    Stalemate,
}

/// Why a move was rejected.
#[derive(Clone, Copy, Debug, PartialEq, Eq, Structural)]
pub enum MoveError {
    OutOfBounds,
    CellOccupied,
    GameAlreadyDecided,
}

/// The 3x3 grid, indexed as `board[x][y]`.
pub type Board = [[TileState; 3]; 3];

/// The single source of truth: the board plus the condition derived from it.
#[derive(Clone, Debug)]
pub struct GameState {
    pub tiles: Board,
    pub win_condition: WinCondition,
}

/// The tile at `(x, y)`.
pub open spec fn tile_at(b: Board, x: int, y: int) -> TileState {
    b[x][y]
}

/// The board whose every tile is `Empty`.
pub open spec fn empty_board() -> Board {
    vstd::array::spec_array_fill_for_copy_type(vstd::array::spec_array_fill_for_copy_type(
        TileState::Empty,
    ))
}

/// `b` with the tile at `(x, y)` replaced by `t`.
pub open spec fn place(b: Board, x: int, y: int, t: TileState) -> Board {
    vstd::array::spec_array_update(b, x, vstd::array::spec_array_update(b[x], y, t))
}

/// The win that a completed line of `t` yields.
pub open spec fn mark_wins(t: TileState) -> WinCondition {
    match t {
        TileState::X => WinCondition::XWin,
        TileState::O => WinCondition::OWin,
        TileState::Empty => WinCondition::NoWin,
    }
}

/// The other player's mark.
pub open spec fn opponent(t: TileState) -> TileState {
    match t {
        TileState::X => TileState::O,
        TileState::O => TileState::X,
        TileState::Empty => TileState::Empty,
    }
}

/// Row `x` holds three equal non-empty marks.
pub open spec fn row_complete(b: Board, x: int) -> bool {
    &&& tile_at(b, x, 0) != TileState::Empty
    &&& tile_at(b, x, 0) == tile_at(b, x, 1)
    &&& tile_at(b, x, 1) == tile_at(b, x, 2)
}

/// Column `y` holds three equal non-empty marks.
pub open spec fn col_complete(b: Board, y: int) -> bool {
    &&& tile_at(b, 0, y) != TileState::Empty
    &&& tile_at(b, 0, y) == tile_at(b, 1, y)
    &&& tile_at(b, 1, y) == tile_at(b, 2, y)
}

/// The main diagonal holds three equal non-empty marks.
pub open spec fn diag_complete(b: Board) -> bool {
    &&& tile_at(b, 0, 0) != TileState::Empty
    &&& tile_at(b, 0, 0) == tile_at(b, 1, 1)
    &&& tile_at(b, 1, 1) == tile_at(b, 2, 2)
}

/// The anti-diagonal holds three equal non-empty marks.
pub open spec fn anti_diag_complete(b: Board) -> bool {
    &&& tile_at(b, 0, 2) != TileState::Empty
    &&& tile_at(b, 0, 2) == tile_at(b, 1, 1)
    &&& tile_at(b, 1, 1) == tile_at(b, 2, 0)
}

/// Every tile is occupied.
pub open spec fn board_full(b: Board) -> bool {
    forall|x: int, y: int| 0 <= x < 3 && 0 <= y < 3 ==> tile_at(b, x, y) != TileState::Empty
}

/// No row, column, or diagonal is complete.
pub open spec fn no_complete_line(b: Board) -> bool {
    &&& !row_complete(b, 0)
    &&& !row_complete(b, 1)
    &&& !row_complete(b, 2)
    &&& !col_complete(b, 0)
    &&& !col_complete(b, 1)
    &&& !col_complete(b, 2)
    &&& !diag_complete(b)
    &&& !anti_diag_complete(b)
}

/// Some complete line is made of `t` marks.
pub open spec fn wins_line(b: Board, t: TileState) -> bool {
    ||| row_complete(b, 0) && tile_at(b, 0, 0) == t
    ||| row_complete(b, 1) && tile_at(b, 1, 0) == t
    ||| row_complete(b, 2) && tile_at(b, 2, 0) == t
    ||| col_complete(b, 0) && tile_at(b, 0, 0) == t
    ||| col_complete(b, 1) && tile_at(b, 0, 1) == t
    ||| col_complete(b, 2) && tile_at(b, 0, 2) == t
    ||| diag_complete(b) && tile_at(b, 0, 0) == t
    ||| anti_diag_complete(b) && tile_at(b, 0, 2) == t
}

/// The condition a board derives, scanning rows, then columns, then the
/// diagonal, then the anti-diagonal, then fullness: the first complete line
/// in that order names the winner, a full board without one is a stalemate,
/// and anything else is still in progress.
pub open spec fn derived_condition(b: Board) -> WinCondition {
    if row_complete(b, 0) {
        mark_wins(tile_at(b, 0, 0))
    } else if row_complete(b, 1) {
        mark_wins(tile_at(b, 1, 0))
    } else if row_complete(b, 2) {
        mark_wins(tile_at(b, 2, 0))
    } else if col_complete(b, 0) {
        mark_wins(tile_at(b, 0, 0))
    } else if col_complete(b, 1) {
        mark_wins(tile_at(b, 0, 1))
    } else if col_complete(b, 2) {
        mark_wins(tile_at(b, 0, 2))
    } else if diag_complete(b) {
        mark_wins(tile_at(b, 0, 0))
    } else if anti_diag_complete(b) {
        mark_wins(tile_at(b, 0, 2))
    } else if board_full(b) {
        WinCondition::Stalemate
    } else {
        WinCondition::NoWin
    }
}

/// The error `make_move` returns for this request, or `None` when the move
/// is accepted: out-of-bounds coordinates first, then an occupied target,
/// then an already decided game.
pub open spec fn spec_move_error(g: GameState, x: int, y: int) -> Option<MoveError> {
    if !(0 <= x < 3 && 0 <= y < 3) {
        Some(MoveError::OutOfBounds)
    } else if tile_at(g.tiles, x, y) != TileState::Empty {
        Some(MoveError::CellOccupied)
    } else if g.win_condition != WinCondition::NoWin {
        Some(MoveError::GameAlreadyDecided)
    } else {
        None
    }
}

impl GameState {
    /// The condition is never stored apart from the board it derives from.
    pub open spec fn wf(self) -> bool {
        self.win_condition == derived_condition(self.tiles)
    }

    /// A fresh game: an all-empty board, still in progress.
    pub fn new() -> (g: GameState)
        ensures
            g.tiles == empty_board(),
            g.win_condition == WinCondition::NoWin,
            g.wf(),
    {
        let g = GameState { tiles: [[TileState::Empty; 3]; 3], win_condition: WinCondition::NoWin };
        proof {
            lemma_empty_board_in_progress();
        }
        g
    }

    /// Place `state` at `(x, y)` if the coordinates are on the board, the
    /// tile is empty, and the game is still in progress; then re-derive the
    /// condition. On rejection nothing changes.
    pub fn make_move(&mut self, x: usize, y: usize, state: TileState) -> (r: Result<
        (),
        MoveError,
    >)
        requires
            old(self).wf(),
            state != TileState::Empty,
        ensures
            final(self).wf(),
            match spec_move_error(*old(self), x as int, y as int) {
                Some(e) => r == Err::<(), MoveError>(e) && *final(self) == *old(self),
                None => {
                    &&& r == Ok::<(), MoveError>(())
                    &&& final(self).tiles == place(old(self).tiles, x as int, y as int, state)
                    &&& final(self).win_condition == derived_condition(final(self).tiles)
                },
            },
    {
        if x >= 3 || y >= 3 {
            return Err(MoveError::OutOfBounds);
        }
        if self.tiles[x][y] != TileState::Empty {
            return Err(MoveError::CellOccupied);
        }
        if self.win_condition != WinCondition::NoWin {
            return Err(MoveError::GameAlreadyDecided);
        }
        let mut row = self.tiles[x];
        row[y] = state;
        self.tiles[x] = row;
        proof {
            assert(self.tiles =~= place(old(self).tiles, x as int, y as int, state));
        }
        self.update_win_condition();
        Ok(())
    }

    /// Restore the initial board and condition; always succeeds.
    pub fn reset(&mut self)
        ensures
            final(self).tiles == empty_board(),
            final(self).win_condition == WinCondition::NoWin,
            final(self).wf(),
    {
        self.tiles = [[TileState::Empty; 3]; 3];
        self.win_condition = WinCondition::NoWin;
        proof {
            lemma_empty_board_in_progress();
        }
    }

    /// A read-only copy of the board and the condition.
    pub fn snapshot(&self) -> (r: (Board, WinCondition))
        ensures
            r.0 == self.tiles,
            r.1 == self.win_condition,
    {
        (self.tiles, self.win_condition)
    }

    /// Re-derive the condition from the board, scanning the eight lines in
    /// the fixed order and falling back to fullness.
    fn update_win_condition(&mut self)
        requires
            old(self).win_condition == WinCondition::NoWin,
        ensures
            final(self).tiles == old(self).tiles,
            final(self).win_condition == derived_condition(old(self).tiles),
    {
        let t = self.tiles;
        if t[0][0] != TileState::Empty && t[0][0] == t[0][1] && t[0][1] == t[0][2] {
            self.win_condition = win_for(t[0][0]);
            return ;
        }
        if t[1][0] != TileState::Empty && t[1][0] == t[1][1] && t[1][1] == t[1][2] {
            self.win_condition = win_for(t[1][0]);
            return ;
        }
        if t[2][0] != TileState::Empty && t[2][0] == t[2][1] && t[2][1] == t[2][2] {
            self.win_condition = win_for(t[2][0]);
            return ;
        }
        if t[0][0] != TileState::Empty && t[0][0] == t[1][0] && t[1][0] == t[2][0] {
            self.win_condition = win_for(t[0][0]);
            return ;
        }
        if t[0][1] != TileState::Empty && t[0][1] == t[1][1] && t[1][1] == t[2][1] {
            self.win_condition = win_for(t[0][1]);
            return ;
        }
        if t[0][2] != TileState::Empty && t[0][2] == t[1][2] && t[1][2] == t[2][2] {
            self.win_condition = win_for(t[0][2]);
            return ;
        }
        if t[0][0] != TileState::Empty && t[0][0] == t[1][1] && t[1][1] == t[2][2] {
            self.win_condition = win_for(t[0][0]);
            return ;
        }
        if t[0][2] != TileState::Empty && t[0][2] == t[1][1] && t[1][1] == t[2][0] {
            self.win_condition = win_for(t[0][2]);
            return ;
        }
        let all_filled = t[0][0] != TileState::Empty && t[0][1] != TileState::Empty && t[0][2]
            != TileState::Empty && t[1][0] != TileState::Empty && t[1][1] != TileState::Empty
            && t[1][2] != TileState::Empty && t[2][0] != TileState::Empty && t[2][1]
            != TileState::Empty && t[2][2] != TileState::Empty;
        if all_filled {
            self.win_condition = WinCondition::Stalemate;
        }
    }
}

impl MoveError {
    /// The message the surrounding service reports for this rejection.
    pub fn message(&self) -> (r: &'static str)
        ensures
            self is OutOfBounds ==> r@ == "Invalid coordinates"@,
            self is CellOccupied ==> r@ == "Tile already occupied"@,
            self is GameAlreadyDecided ==> r@ == "Game already finished"@,
    {
        match self {
            MoveError::OutOfBounds => "Invalid coordinates",
            MoveError::CellOccupied => "Tile already occupied",
            MoveError::GameAlreadyDecided => "Game already finished",
        }
    }
}

/// A fully empty board derives `NoWin`.
pub proof fn lemma_empty_board_in_progress()
    ensures
        derived_condition(empty_board()) == WinCondition::NoWin,
{
    assert(tile_at(empty_board(), 0, 0) == TileState::Empty);
    assert(!board_full(empty_board()));
}

/// A move onto an empty tile of an in-progress game is accepted, and a
/// second move onto the same tile is rejected as occupied, whatever mark it
/// carries and whatever the first move decided.
pub proof fn lemma_empty_tile_accepts_once(g: GameState, x: int, y: int, m: TileState)
    requires
        0 <= x < 3,
        0 <= y < 3,
        tile_at(g.tiles, x, y) == TileState::Empty,
        g.win_condition == WinCondition::NoWin,
        m != TileState::Empty,
    ensures
        spec_move_error(g, x, y) is None,
        forall|c: WinCondition|
            spec_move_error(
                GameState { tiles: place(g.tiles, x, y, m), win_condition: c },
                x,
                y,
            ) == Some(MoveError::CellOccupied),
{
    assert(tile_at(place(g.tiles, x, y, m), x, y) == m);
}

/// Out-of-bounds coordinates are always rejected as such.
pub proof fn lemma_out_of_bounds_rejected(g: GameState, x: int, y: int)
    requires
        x >= 3 || y >= 3,
    ensures
        spec_move_error(g, x, y) == Some(MoveError::OutOfBounds),
{
}

/// On a board where `m` completes a line and the opponent completes none,
/// the derived condition is the win for `m`.
pub proof fn lemma_completed_line_wins(b: Board, m: TileState)
    requires
        m != TileState::Empty,
        wins_line(b, m),
        !wins_line(b, opponent(m)),
    ensures
        derived_condition(b) == mark_wins(m),
{
}

/// In a well-formed state whose board holds a completed line of `m` and
/// none of the opponent's, the stored condition is the win for `m`.
pub proof fn lemma_move_completing_line_decides(g: GameState, m: TileState)
    requires
        g.wf(),
        m != TileState::Empty,
        wins_line(g.tiles, m),
        !wins_line(g.tiles, opponent(m)),
    ensures
        g.win_condition == mark_wins(m),
{
    lemma_completed_line_wins(g.tiles, m);
}

/// An accepted move never erases a mark: every occupied tile keeps its
/// occupant, and only an explicit reset returns a tile to `Empty`.
pub proof fn lemma_marks_persist(g: GameState, x: int, y: int, m: TileState)
    requires
        0 <= x < 3,
        0 <= y < 3,
        spec_move_error(g, x, y) is None,
    ensures
        forall|i: int, j: int|
            0 <= i < 3 && 0 <= j < 3 && tile_at(g.tiles, i, j) != TileState::Empty ==> tile_at(
                place(g.tiles, x, y, m),
                i,
                j,
            ) == tile_at(g.tiles, i, j),
{
    assert forall|i: int, j: int|
        0 <= i < 3 && 0 <= j < 3 && tile_at(g.tiles, i, j) != TileState::Empty implies tile_at(
        place(g.tiles, x, y, m),
        i,
        j,
    ) == tile_at(g.tiles, i, j) by {
        assert(tile_at(g.tiles, x, y) == TileState::Empty);
        if i != x {
            assert(place(g.tiles, x, y, m)[i] == g.tiles[i]);
        }
    }
}

/// A full board without a complete line derives a stalemate.
pub proof fn lemma_full_board_stalemate(b: Board)
    requires
        board_full(b),
        no_complete_line(b),
    ensures
        derived_condition(b) == WinCondition::Stalemate,
{
}

/// Once the game is decided, every move is rejected and, when the target
/// tile itself gives no earlier reason, the reason is the decided game.
pub proof fn lemma_decided_game_rejects_moves(g: GameState, x: int, y: int)
    requires
        g.win_condition != WinCondition::NoWin,
    ensures
        spec_move_error(g, x, y) is Some,
        (0 <= x < 3 && 0 <= y < 3 && tile_at(g.tiles, x, y) == TileState::Empty)
            ==> spec_move_error(g, x, y) == Some(MoveError::GameAlreadyDecided),
{
}

/// `reset` pins the whole state, so resetting twice is the same as once.
pub proof fn lemma_reset_idempotent(g1: GameState, g2: GameState)
    requires
        g1.tiles == empty_board(),
        g1.win_condition == WinCondition::NoWin,
        g2.tiles == empty_board(),
        g2.win_condition == WinCondition::NoWin,
    ensures
        g1 == g2,
{
}

/// An exec mirror of `mark_wins` for non-empty marks.
fn win_for(t: TileState) -> (r: WinCondition)
    requires
        t != TileState::Empty,
    ensures
        r == mark_wins(t),
{
    match t {
        TileState::X => WinCondition::XWin,
        _ => WinCondition::OWin,
    }
}

} // verus!
