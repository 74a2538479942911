use vstd::prelude::*;
use crate::board::{
    all_marked, cell_at, cell_index, in_bounds, Board, Cell, MoveError, Player, BOARD_SIZE,
    CELL_COUNT,
};
use crate::rules::{
    col_complete, evaluate_game_state, has_won, lemma_mark_gives_opponent_no_line, opponent,
    row_complete, state_after, validate_move, GameState,
};

verus! {

broadcast use crate::board::Board::lemma_len;

/// What the input provider handed over for the player to move.
#[derive(Debug, Clone, Copy, PartialEq, Eq, Structural)]
pub enum MoveInput {
    /// A well-formed (row, col) pair, not yet checked against the board.
    Coords(usize, usize),
    /// The input did not hold two non-negative integers.
    Malformed,
    /// The input could not be read at all.
    IoFailure,
}

/// What the game loop does after handing one input to the game.
#[derive(Debug, Clone, Copy, PartialEq, Eq, Structural)]
pub enum Step {
    /// The move was refused; ask the same player again.
    Reprompt(MoveError),
    /// The move was applied and the game goes on with this player to move.
    Continue(Player),
    /// The game has ended in this state: show the final board and the outcome.
    Finished(GameState),
    /// Input failed at the I/O layer: abandon the game.
    Aborted,
}

/// The mathematical value of a game: its cells, the player to move, its status.
pub struct GameView {
    pub cells: Seq<Cell>,
    pub turn: Player,
    pub state: GameState,
}

/// The game after the player to move marks the in-range, empty cell (row, col).
pub open spec fn after_move(g: GameView, row: int, col: int) -> GameView {
    let cells = g.cells.update(cell_index(row, col), Cell::MarkedBy(g.turn));
    let state = state_after(cells, g.turn);
    GameView {
        cells,
        turn: if state is InProgress {
            opponent(g.turn)
        } else {
            g.turn
        },
        state,
    }
}

/// The outcome of a move attempt at (row, col): the new game and the result.
pub open spec fn play_outcome(g: GameView, row: int, col: int) -> (GameView, Result<GameState, MoveError>) {
    if g.state.is_terminal() {
        (g, Err(MoveError::GameOver))
    } else if !in_bounds(row, col) {
        (g, Err(MoveError::OutOfRange))
    } else if cell_at(g.cells, row, col) != Cell::Empty {
        (g, Err(MoveError::CellOccupied))
    } else {
        let next = after_move(g, row, col);
        (next, Ok(next.state))
    }
}

/// The loop's next step after one input: the new game and what to do next.
pub open spec fn step_outcome(g: GameView, input: MoveInput) -> (GameView, Step) {
    match input {
        MoveInput::IoFailure => (g, Step::Aborted),
        MoveInput::Malformed => if g.state.is_terminal() {
            (g, Step::Finished(g.state))
        } else {
            (g, Step::Reprompt(MoveError::MalformedInput))
        },
        MoveInput::Coords(row, col) => if g.state.is_terminal() {
            (g, Step::Finished(g.state))
        } else {
            let (next, r) = play_outcome(g, row as int, col as int);
            match r {
                Err(e) => (next, Step::Reprompt(e)),
                Ok(GameState::InProgress) => (next, Step::Continue(next.turn)),
                Ok(s) => (next, Step::Finished(s)),
            }
        },
    }
}

/// Once a game is won or drawn it is over: every further move is refused with
/// `GameOver` and leaves the game as it is, and the loop is told the game has
/// finished (or aborts on an I/O failure) without any change.
pub proof fn lemma_terminal_is_final(g: GameView, row: int, col: int, input: MoveInput)
    requires
        g.state.is_terminal(),
    ensures
        play_outcome(g, row, col) == (g, Err::<GameState, MoveError>(MoveError::GameOver)),
        step_outcome(g, input).0 == g,
        step_outcome(g, input).1 == Step::Finished(g.state) || step_outcome(g, input).1
            == Step::Aborted,
        !(g.state is Won && g.state is Draw),
{
}

/// A refused move, and malformed input, leave the board, the player to move and
/// the status unchanged.
pub proof fn lemma_rejection_changes_nothing(g: GameView, row: int, col: int, input: MoveInput)
    ensures
        play_outcome(g, row, col).1 is Err ==> play_outcome(g, row, col).0 == g,
        step_outcome(g, input).1 is Reprompt ==> step_outcome(g, input).0 == g,
{
}

/// One game: the board, the player to move and the status, owned by the loop.
pub struct Game {
    board: Board,
    turn: Player,
    state: GameState,
}

impl View for Game {
    type V = GameView;

    closed spec fn view(&self) -> GameView {
        GameView { cells: self.board@, turn: self.turn, state: self.state }
    }
}

/// The status of a game agrees with its board: a game in progress has an
/// empty cell and no completed line; a won game has the winner's line; a
/// drawn game has a full board.
pub open spec fn consistent(g: GameView) -> bool {
    &&& g.cells.len() == CELL_COUNT
    &&& g.state is InProgress ==> !all_marked(g.cells) && !has_won(g.cells, Player::X) && !has_won(
        g.cells,
        Player::O,
    )
    &&& g.state matches GameState::Won(p) ==> has_won(g.cells, p)
    &&& g.state is Draw ==> all_marked(g.cells)
}

impl Game {
    /// Whether the game's status agrees with its board.
    pub open spec fn wf(&self) -> bool {
        consistent(self@)
    }

    /// A fresh game: an empty board, X to move, in progress.
    pub fn new() -> (g: Game)
        ensures
            g.wf(),
            g@.turn == Player::X,
            g@.state == GameState::InProgress,
            forall|i: int| 0 <= i < CELL_COUNT ==> #[trigger] g@.cells[i] == Cell::Empty,
    {
        let g = Game { board: Board::empty(), turn: Player::X, state: GameState::InProgress };
        assert(!all_marked(g.board@)) by {
            assert(g.board@[0] == Cell::Empty);
        }
        assert forall|p: Player| !has_won(g.board@, p) by {
            assert forall|k: int| 0 <= k < 3 implies !row_complete(g.board@, p, k) && !col_complete(
                g.board@,
                p,
                k,
            ) by {
                assert(cell_at(g.board@, k, 0) == Cell::Empty);
                assert(cell_at(g.board@, 0, k) == Cell::Empty);
            }
            assert(cell_at(g.board@, 0, 0) == Cell::Empty);
            assert(cell_at(g.board@, 0, BOARD_SIZE - 1 - 0) == Cell::Empty);
        }
        g
    }

    /// The player to move marks (row, col). Refused with `GameOver` once the
    /// game has ended, `OutOfRange` off the board, `CellOccupied` on a marked
    /// cell; a refused move changes nothing. An accepted move marks the cell,
    /// recomputes the status from the board and the mover, and passes the turn
    /// to the opponent while the game goes on. Returns the new status.
    pub fn play(&mut self, row: usize, col: usize) -> (r: Result<GameState, MoveError>)
        requires
            old(self).wf(),
        ensures
            final(self).wf(),
            (final(self)@, r) == play_outcome(old(self)@, row as int, col as int),
    {
        if !matches!(self.state, GameState::InProgress) {
            return Err(MoveError::GameOver);
        }
        let mv = match validate_move(&self.board, row, col, self.turn) {
            Ok(mv) => mv,
            Err(e) => return Err(e),
        };
        let ghost before = self.board@;
        let placed = self.board.set(mv.row, mv.col, mv.player);
        assert(placed is Ok);
        let state = evaluate_game_state(&self.board, self.turn);
        proof {
            let i = cell_index(row as int, col as int);
            let q = opponent(self.turn);
            if has_won(self.board@, q) {
                lemma_mark_gives_opponent_no_line(before, i, self.turn, q);
            }
        }
        self.state = state;
        if matches!(state, GameState::InProgress) {
            self.turn = self.turn.other();
        }
        Ok(state)
    }

    /// Hands one input to the game and says what the loop does next: `Aborted`
    /// on an I/O failure; `Finished` with the status when the game had already
    /// ended; `Reprompt` with the reason for malformed input or a refused move,
    /// leaving the game unchanged; otherwise the move is applied, and the step
    /// is `Finished` with the new status if it ended the game, or `Continue`
    /// with the next player to move.
    pub fn handle(&mut self, input: MoveInput) -> (r: Step)
        requires
            old(self).wf(),
        ensures
            final(self).wf(),
            (final(self)@, r) == step_outcome(old(self)@, input),
    {
        match input {
            MoveInput::IoFailure => Step::Aborted,
            MoveInput::Malformed => {
                if !matches!(self.state, GameState::InProgress) {
                    Step::Finished(self.state)
                } else {
                    Step::Reprompt(MoveError::MalformedInput)
                }
            },
            MoveInput::Coords(row, col) => {
                if !matches!(self.state, GameState::InProgress) {
                    return Step::Finished(self.state);
                }
                match self.play(row, col) {
                    Err(e) => Step::Reprompt(e),
                    Ok(GameState::InProgress) => Step::Continue(self.turn),
                    Ok(s) => Step::Finished(s),
                }
            },
        }
    }

    /// The board.
    pub fn board(&self) -> (r: &Board)
        ensures
            r@ == self@.cells,
    {
        &self.board
    }

    /// The player to move.
    pub fn turn(&self) -> (r: Player)
        ensures
            r == self@.turn,
    {
        self.turn
    }

    /// The status of the game.
    pub fn state(&self) -> (r: GameState)
        ensures
            r == self@.state,
    {
        self.state
    }
}

} // verus!
