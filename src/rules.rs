use vstd::prelude::*;
use crate::board::{
    all_marked, cell_at, in_bounds, Board, Cell, MoveError, Player, BOARD_SIZE, CELL_COUNT,
};

verus! {

broadcast use crate::board::Board::lemma_len;

/// Status of a game.
#[derive(Debug, Clone, Copy, PartialEq, Eq, Structural)]
pub enum GameState {
    InProgress,
    Won(Player),
    Draw,
}

/// The human-readable line that reports a status.
pub open spec fn message_of(s: GameState) -> Seq<char> {
    match s {
        GameState::InProgress => "Game in progress"@,
        GameState::Won(Player::X) => "Player X wins!"@,
        GameState::Won(Player::O) => "Player O wins!"@,
        GameState::Draw => "It's a draw!"@,
    }
}

impl GameState {
    /// Whether the game has ended.
    pub open spec fn is_terminal(self) -> bool {
        !(self is InProgress)
    }

    /// The line that reports this status: "Player X wins!", "Player O wins!",
    /// "It's a draw!", or "Game in progress".
    pub fn message(&self) -> (r: String)
        ensures
            r@ == message_of(*self),
    {
        match self {
            GameState::InProgress => String::from_str("Game in progress"),
            GameState::Won(Player::X) => String::from_str("Player X wins!"),
            GameState::Won(Player::O) => String::from_str("Player O wins!"),
            GameState::Draw => String::from_str("It's a draw!"),
        }
    }
}

/// A move as the validator hands it out: the target cell and the player.
#[derive(Debug, Clone, Copy, PartialEq, Eq, Structural)]
pub struct Move {
    pub row: usize,
    pub col: usize,
    pub player: Player,
}

/// The opponent of `p`.
pub open spec fn opponent(p: Player) -> Player {
    match p {
        Player::X => Player::O,
        Player::O => Player::X,
    }
}

/// Every cell of row `r` is marked by `p`.
pub open spec fn row_complete(cells: Seq<Cell>, p: Player, r: int) -> bool {
    forall|c: int| 0 <= c < BOARD_SIZE ==> #[trigger] cell_at(cells, r, c) == Cell::MarkedBy(p)
}

/// Every cell of column `c` is marked by `p`.
pub open spec fn col_complete(cells: Seq<Cell>, p: Player, c: int) -> bool {
    forall|r: int| 0 <= r < BOARD_SIZE ==> #[trigger] cell_at(cells, r, c) == Cell::MarkedBy(p)
}

/// Every cell of the main diagonal, (0,0) to (2,2), is marked by `p`.
pub open spec fn main_diag_complete(cells: Seq<Cell>, p: Player) -> bool {
    forall|i: int| 0 <= i < BOARD_SIZE ==> #[trigger] cell_at(cells, i, i) == Cell::MarkedBy(p)
}

/// Every cell of the anti-diagonal, (0,2) to (2,0), is marked by `p`.
pub open spec fn anti_diag_complete(cells: Seq<Cell>, p: Player) -> bool {
    forall|i: int|
        0 <= i < BOARD_SIZE ==> #[trigger] cell_at(cells, i, BOARD_SIZE - 1 - i) == Cell::MarkedBy(
            p,
        )
}

/// `p` has completed a row, a column or a diagonal.
pub open spec fn has_won(cells: Seq<Cell>, p: Player) -> bool {
    (exists|r: int| 0 <= r < BOARD_SIZE && #[trigger] row_complete(cells, p, r)) || (exists|c: int|
        0 <= c < BOARD_SIZE && #[trigger] col_complete(cells, p, c)) || main_diag_complete(cells, p)
        || anti_diag_complete(cells, p)
}

/// The status of a board right after `last` moved: a win for `last` takes
/// precedence over a full board.
pub open spec fn state_after(cells: Seq<Cell>, last: Player) -> GameState {
    if has_won(cells, last) {
        GameState::Won(last)
    } else if all_marked(cells) {
        GameState::Draw
    } else {
        GameState::InProgress
    }
}

/// The eight lines of the board, each as its three (row, col) positions:
/// the three rows, the three columns, the main and the anti-diagonal.
pub open spec fn fixed_lines() -> Seq<Seq<(int, int)>> {
    seq![
        seq![(0, 0), (0, 1), (0, 2)],
        seq![(1, 0), (1, 1), (1, 2)],
        seq![(2, 0), (2, 1), (2, 2)],
        seq![(0, 0), (1, 0), (2, 0)],
        seq![(0, 1), (1, 1), (2, 1)],
        seq![(0, 2), (1, 2), (2, 2)],
        seq![(0, 0), (1, 1), (2, 2)],
        seq![(0, 2), (1, 1), (2, 0)],
    ]
}

/// Every position of `line` is marked by `p`.
pub open spec fn line_owned(cells: Seq<Cell>, p: Player, line: Seq<(int, int)>) -> bool {
    forall|m: int| 0 <= m < line.len() ==> cell_at(cells, #[trigger] line[m].0, line[m].1) == Cell::MarkedBy(p)
}

/// A player has won exactly when one of the eight fixed lines holds three of
/// their marks.
pub proof fn lemma_win_iff_fixed_line(cells: Seq<Cell>, p: Player)
    ensures
        has_won(cells, p) <==> exists|k: int| 0 <= k < 8 && #[trigger] line_owned(cells, p, fixed_lines()[k]),
{
    let lines = fixed_lines();
    let m = Cell::MarkedBy(p);
    assert forall|k: int| 0 <= k < 8 implies #[trigger] line_owned(cells, p, lines[k]) <==> (
        cell_at(cells, lines[k][0].0, lines[k][0].1) == m
        && cell_at(cells, lines[k][1].0, lines[k][1].1) == m
        && cell_at(cells, lines[k][2].0, lines[k][2].1) == m) by {
        assert(lines[k].len() == 3);
    }
    assert forall|r: int| 0 <= r < 3 implies #[trigger] row_complete(cells, p, r) <==> line_owned(cells, p, lines[r]) by {
        assert(lines[r][0] == (r, 0int) && lines[r][1] == (r, 1int) && lines[r][2] == (r, 2int));
    }
    assert forall|c: int| 0 <= c < 3 implies #[trigger] col_complete(cells, p, c) <==> line_owned(cells, p, lines[3 + c]) by {
        assert(lines[3 + c][0] == (0int, c) && lines[3 + c][1] == (1int, c) && lines[3 + c][2] == (2int, c));
    }
    assert(main_diag_complete(cells, p) <==> line_owned(cells, p, lines[6])) by {
        assert(cell_at(cells, 0, 0) == cell_at(cells, lines[6][0].0, lines[6][0].1));
    }
    assert(anti_diag_complete(cells, p) <==> line_owned(cells, p, lines[7])) by {
        assert(cell_at(cells, 0, BOARD_SIZE - 1 - 0) == cell_at(cells, lines[7][0].0, lines[7][0].1));
        assert(cell_at(cells, 1, BOARD_SIZE - 1 - 1) == cell_at(cells, lines[7][1].0, lines[7][1].1));
        assert(cell_at(cells, 2, BOARD_SIZE - 1 - 2) == cell_at(cells, lines[7][2].0, lines[7][2].1));
    }
    if has_won(cells, p) {
        if exists|r: int| 0 <= r < BOARD_SIZE && #[trigger] row_complete(cells, p, r) {
            let r = choose|r: int| 0 <= r < BOARD_SIZE && #[trigger] row_complete(cells, p, r);
            assert(line_owned(cells, p, lines[r]));
        } else if exists|c: int| 0 <= c < BOARD_SIZE && #[trigger] col_complete(cells, p, c) {
            let c = choose|c: int| 0 <= c < BOARD_SIZE && #[trigger] col_complete(cells, p, c);
            assert(line_owned(cells, p, lines[3 + c]));
        } else if main_diag_complete(cells, p) {
            assert(line_owned(cells, p, lines[6]));
        } else {
            assert(line_owned(cells, p, lines[7]));
        }
    }
    if exists|k: int| 0 <= k < 8 && #[trigger] line_owned(cells, p, lines[k]) {
        let k = choose|k: int| 0 <= k < 8 && #[trigger] line_owned(cells, p, lines[k]);
        if k < 3 {
            assert(row_complete(cells, p, k));
        } else if k < 6 {
            assert(col_complete(cells, p, k - 3));
        }
    }
}

/// A full board on which neither player has completed a line is a draw,
/// whoever moved last.
pub proof fn lemma_full_board_without_line_is_draw(cells: Seq<Cell>, last: Player)
    requires
        all_marked(cells),
        !has_won(cells, Player::X),
        !has_won(cells, Player::O),
    ensures
        state_after(cells, last) == GameState::Draw,
{
}

/// Marking a cell for `p` completes no line for the other player `q` that was
/// not already complete.
pub proof fn lemma_mark_gives_opponent_no_line(cells: Seq<Cell>, i: int, p: Player, q: Player)
    requires
        cells.len() == CELL_COUNT,
        0 <= i < CELL_COUNT,
        p != q,
        has_won(cells.update(i, Cell::MarkedBy(p)), q),
    ensures
        has_won(cells, q),
{
    let next = cells.update(i, Cell::MarkedBy(p));
    assert forall|r: int, c: int|
        in_bounds(r, c) && cell_at(next, r, c) == Cell::MarkedBy(q) implies #[trigger] cell_at(cells, r, c)
        == Cell::MarkedBy(q) by {
        assert(0 <= r * 3 + c < 9) by (nonlinear_arith)
            requires
                0 <= r < 3,
                0 <= c < 3,
        ;
    }
    if exists|r: int| 0 <= r < BOARD_SIZE && #[trigger] row_complete(next, q, r) {
        let r = choose|r: int| 0 <= r < BOARD_SIZE && #[trigger] row_complete(next, q, r);
        assert(row_complete(cells, q, r));
    } else if exists|c: int| 0 <= c < BOARD_SIZE && #[trigger] col_complete(next, q, c) {
        let c = choose|c: int| 0 <= c < BOARD_SIZE && #[trigger] col_complete(next, q, c);
        assert(col_complete(cells, q, c));
    } else if main_diag_complete(next, q) {
        assert(main_diag_complete(cells, q));
    } else {
        assert(anti_diag_complete(cells, q));
    }
}

impl Player {
    /// The player who moves after `self`.
    pub fn other(self) -> (r: Player)
        ensures
            r == opponent(self),
    {
        match self {
            Player::X => Player::O,
            Player::O => Player::X,
        }
    }
}

/// Whether the in-range cell (row, col) is marked by `player`.
fn marked_by(board: &Board, row: usize, col: usize, player: Player) -> (r: bool)
    requires
        in_bounds(row as int, col as int),
    ensures
        r == (cell_at(board@, row as int, col as int) == Cell::MarkedBy(player)),
{
    match board.get(row, col) {
        Ok(Cell::MarkedBy(q)) => q == player,
        _ => false,
    }
}

/// Whether `player` has completed a row, a column or one of the two diagonals.
pub fn check_winner(board: &Board, player: Player) -> (r: bool)
    ensures
        r == has_won(board@, player),
{
    let mut i: usize = 0;
    while i < BOARD_SIZE
        invariant
            i <= BOARD_SIZE,
            forall|k: int| 0 <= k < i ==> !#[trigger] row_complete(board@, player, k),
            forall|k: int| 0 <= k < i ==> !#[trigger] col_complete(board@, player, k),
        decreases BOARD_SIZE - i,
    {
        let mut row_full = true;
        let mut col_full = true;
        let mut j: usize = 0;
        while j < BOARD_SIZE
            invariant
                i < BOARD_SIZE,
                j <= BOARD_SIZE,
                    row_full == (forall|k: int| 0 <= k < j ==> #[trigger] cell_at(board@, i as int, k) == Cell::MarkedBy(player)),
                col_full == (forall|k: int| 0 <= k < j ==> #[trigger] cell_at(board@, k, i as int) == Cell::MarkedBy(player)),
            decreases BOARD_SIZE - j,
        {
            if !marked_by(board, i, j, player) {
                row_full = false;
            }
            if !marked_by(board, j, i, player) {
                col_full = false;
            }
            j = j + 1;
        }
        if row_full || col_full {
            assert(row_complete(board@, player, i as int) || col_complete(board@, player, i as int));
            return true;
        }
        i = i + 1;
    }
    let mut main_full = true;
    let mut anti_full = true;
    let mut d: usize = 0;
    while d < BOARD_SIZE
        invariant
            d <= BOARD_SIZE,
            main_full == (forall|k: int| 0 <= k < d ==> #[trigger] cell_at(board@, k, k) == Cell::MarkedBy(player)),
            anti_full == (forall|k: int|
                0 <= k < d ==> #[trigger] cell_at(board@, k, BOARD_SIZE - 1 - k) == Cell::MarkedBy(player)),
        decreases BOARD_SIZE - d,
    {
        if !marked_by(board, d, d, player) {
            main_full = false;
        }
        if !marked_by(board, d, BOARD_SIZE - 1 - d, player) {
            anti_full = false;
        }
        d = d + 1;
    }
    main_full || anti_full
}

/// The status after `last_player` moved: `Won(last_player)` if they completed a
/// line, else `Draw` if the board is full, else `InProgress`.
pub fn evaluate_game_state(board: &Board, last_player: Player) -> (r: GameState)
    ensures
        r == state_after(board@, last_player),
{
    if check_winner(board, last_player) {
        return GameState::Won(last_player);
    }
    if board.is_full() {
        return GameState::Draw;
    }
    GameState::InProgress
}

/// Checks a move by `player` at (row, col) without changing the board:
/// `OutOfRange` off the board, `CellOccupied` on a marked cell, otherwise the move.
pub fn validate_move(board: &Board, row: usize, col: usize, player: Player) -> (r: Result<
    Move,
    MoveError,
>)
    ensures
        !in_bounds(row as int, col as int) ==> r == Err::<Move, MoveError>(MoveError::OutOfRange),
        in_bounds(row as int, col as int) && cell_at(board@, row as int, col as int)
            != Cell::Empty ==> r == Err::<Move, MoveError>(MoveError::CellOccupied),
        in_bounds(row as int, col as int) && cell_at(board@, row as int, col as int) == Cell::Empty
            ==> r == Ok::<Move, MoveError>(Move { row, col, player }),
{
    match board.get(row, col) {
        Err(e) => Err(e),
        Ok(Cell::MarkedBy(_)) => Err(MoveError::CellOccupied),
        Ok(Cell::Empty) => Ok(Move { row, col, player }),
    }
}

} // verus!
