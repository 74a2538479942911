use vstd::prelude::*;

verus! {

/// Number of rows, and of columns, of the square board.
pub const BOARD_SIZE: usize = 3;

/// Number of cells on the board.
pub const CELL_COUNT: usize = 9;

/// One of the two competitors.
#[derive(Debug, Clone, Copy, PartialEq, Eq, Structural)]
pub enum Player {
    X,
    O,
}

/// One grid position: empty, or marked by a player.
#[derive(Debug, Clone, Copy, PartialEq, Eq, Structural)]
pub enum Cell {
    Empty,
    MarkedBy(Player),
}

/// Why a move, or a cell access, was refused.
#[derive(Debug, Clone, Copy, PartialEq, Eq, Structural)]
pub enum MoveError {
    /// The raw input did not hold two non-negative integers.
    MalformedInput,
    /// A coordinate is not below the board size.
    OutOfRange,
    /// The target cell is already marked.
    CellOccupied,
    /// The game has already ended.
    GameOver,
}

/// How a cell is shown: a blank, `X` or `O`.
pub open spec fn symbol_of(c: Cell) -> char {
    match c {
        Cell::Empty => ' ',
        Cell::MarkedBy(Player::X) => 'X',
        Cell::MarkedBy(Player::O) => 'O',
    }
}

impl Player {
    /// The player's mark, `X` or `O`.
    pub fn symbol(self) -> (r: char)
        ensures
            r == symbol_of(Cell::MarkedBy(self)),
    {
        match self {
            Player::X => 'X',
            Player::O => 'O',
        }
    }
}

impl Cell {
    /// The cell as shown on a rendered board: a blank, `X` or `O`.
    pub fn symbol(self) -> (r: char)
        ensures
            r == symbol_of(self),
    {
        match self {
            Cell::Empty => ' ',
            Cell::MarkedBy(p) => p.symbol(),
        }
    }
}

/// Position of cell (r, c) in the row-major cell sequence.
pub open spec fn cell_index(r: int, c: int) -> int {
    r * BOARD_SIZE + c
}

/// Whether (r, c) addresses a cell of the board.
pub open spec fn in_bounds(r: int, c: int) -> bool {
    0 <= r < BOARD_SIZE && 0 <= c < BOARD_SIZE
}

/// The cell at (r, c) of a row-major cell sequence.
pub open spec fn cell_at(cells: Seq<Cell>, r: int, c: int) -> Cell {
    cells[cell_index(r, c)]
}

/// Whether no cell of the sequence is empty.
pub open spec fn all_marked(cells: Seq<Cell>) -> bool {
    forall|i: int| 0 <= i < cells.len() ==> cells[i] != Cell::Empty
}

/// Number of marked (non-empty) cells.
pub open spec fn marked_count(cells: Seq<Cell>) -> nat
    decreases cells.len(),
{
    if cells.len() == 0 {
        0
    } else {
        marked_count(cells.drop_last()) + if cells.last() == Cell::Empty {
            0nat
        } else {
            1nat
        }
    }
}

/// Marking one empty cell adds exactly one to the count of marked cells.
pub proof fn lemma_mark_adds_one(cells: Seq<Cell>, i: int, p: Player)
    requires
        0 <= i < cells.len(),
        cells[i] == Cell::Empty,
    ensures
        marked_count(cells.update(i, Cell::MarkedBy(p))) == marked_count(cells) + 1,
    decreases cells.len(),
{
    let next = cells.update(i, Cell::MarkedBy(p));
    if i < cells.len() - 1 {
        assert(next.drop_last() =~= cells.drop_last().update(i, Cell::MarkedBy(p)));
        lemma_mark_adds_one(cells.drop_last(), i, p);
    } else {
        assert(next.drop_last() =~= cells.drop_last());
    }
}

/// Along any run of successful moves, where each board is the one before with
/// one empty cell marked, the count of marked cells grows by exactly one per
/// move and never falls.
pub proof fn lemma_marks_per_move(boards: Seq<Seq<Cell>>, targets: Seq<int>, players: Seq<Player>)
    requires
        boards.len() == targets.len() + 1,
        players.len() == targets.len(),
        forall|k: int|
            0 <= k < targets.len() ==> 0 <= #[trigger] targets[k] < boards[k].len() && boards[k][targets[k]]
                == Cell::Empty && boards[k + 1] == boards[k].update(
                targets[k],
                Cell::MarkedBy(players[k]),
            ),
    ensures
        forall|k: int| 0 <= k < boards.len() ==> #[trigger] marked_count(boards[k]) == marked_count(boards[0]) + k,
    decreases targets.len(),
{
    if targets.len() > 0 {
        let n = targets.len() - 1;
        lemma_marks_per_move(boards.drop_last(), targets.drop_last(), players.drop_last());
        assert(0 <= targets[n] < boards[n].len());
        lemma_mark_adds_one(boards[n], targets[n], players[n]);
        assert forall|k: int| 0 <= k < boards.len() implies #[trigger] marked_count(boards[k])
            == marked_count(boards[0]) + k by {
            let prefix = boards.drop_last();
            assert(prefix[0] == boards[0]);
            if k < boards.len() - 1 {
                assert(prefix[k] == boards[k]);
                assert(marked_count(prefix[k]) == marked_count(prefix[0]) + k);
            } else {
                assert(marked_count(prefix[n]) == marked_count(prefix[0]) + n);
            }
        }
    }
}

/// The 3x3 grid of cells, stored row by row.
pub struct Board {
    cells: [Cell; 9],
}

impl View for Board {
    type V = Seq<Cell>;

    closed spec fn view(&self) -> Seq<Cell> {
        self.cells@
    }
}

impl Board {
    /// Every board holds exactly one cell per position.
    pub broadcast proof fn lemma_len(b: &Board)
        ensures
            #[trigger] b@.len() == CELL_COUNT,
    {
    }

    /// A board with every cell empty.
    pub fn empty() -> (b: Board)
        ensures
            b@.len() == CELL_COUNT,
            forall|i: int| 0 <= i < CELL_COUNT ==> #[trigger] b@[i] == Cell::Empty,
    {
        let b = Board { cells: [Cell::Empty; 9] };
        b
    }

    /// The cell at (row, col); `OutOfRange` when either coordinate is off the board.
    pub fn get(&self, row: usize, col: usize) -> (r: Result<Cell, MoveError>)
        ensures
            in_bounds(row as int, col as int) ==> r == Ok::<Cell, MoveError>(
                cell_at(self@, row as int, col as int),
            ),
            !in_bounds(row as int, col as int) ==> r == Err::<Cell, MoveError>(
                MoveError::OutOfRange,
            ),
    {
        if row >= BOARD_SIZE || col >= BOARD_SIZE {
            Err(MoveError::OutOfRange)
        } else {
            Ok(self.cells[row * BOARD_SIZE + col])
        }
    }

    /// Whether the in-range cell (row, col) is still empty.
    pub fn is_cell_empty(&self, row: usize, col: usize) -> (r: bool)
        requires
            in_bounds(row as int, col as int),
        ensures
            r == (cell_at(self@, row as int, col as int) == Cell::Empty),
    {
        self.cells[row * BOARD_SIZE + col] == Cell::Empty
    }

    /// Marks (row, col) for `player`. Fails with `OutOfRange` off the board and
    /// with `CellOccupied` on a marked cell; in both cases the board is unchanged.
    /// On success exactly that cell changes.
    pub fn set(&mut self, row: usize, col: usize, player: Player) -> (r: Result<(), MoveError>)
        ensures
            !in_bounds(row as int, col as int) ==> r == Err::<(), MoveError>(
                MoveError::OutOfRange,
            ),
            in_bounds(row as int, col as int) && cell_at(old(self)@, row as int, col as int)
                != Cell::Empty ==> r == Err::<(), MoveError>(MoveError::CellOccupied),
            in_bounds(row as int, col as int) && cell_at(old(self)@, row as int, col as int)
                == Cell::Empty ==> r == Ok::<(), MoveError>(()),
            r is Ok ==> final(self)@ == old(self)@.update(
                cell_index(row as int, col as int),
                Cell::MarkedBy(player),
            ),
            r is Err ==> final(self)@ == old(self)@,
            r is Ok ==> marked_count(final(self)@) == marked_count(old(self)@) + 1,
            forall|i: int|
                0 <= i < CELL_COUNT && old(self)@[i] != Cell::Empty ==> #[trigger] final(self)@[i]
                    == old(self)@[i],
    {
        if row >= BOARD_SIZE || col >= BOARD_SIZE {
            return Err(MoveError::OutOfRange);
        }
        let idx = row * BOARD_SIZE + col;
        if self.cells[idx] != Cell::Empty {
            return Err(MoveError::CellOccupied);
        }
        proof {
            lemma_mark_adds_one(self@, idx as int, player);
        }
        self.cells[idx] = Cell::MarkedBy(player);
        Ok(())
    }

    /// The board as a renderer sees it: the symbol of each cell, row by row.
    pub fn snapshot(&self) -> (r: Vec<char>)
        ensures
            r@ == self@.map_values(|c: Cell| symbol_of(c)),
    {
        let mut out: Vec<char> = Vec::new();
        let mut i: usize = 0;
        while i < CELL_COUNT
            invariant
                i <= CELL_COUNT,
                self@.len() == CELL_COUNT,
                out@ == self@.take(i as int).map_values(|c: Cell| symbol_of(c)),
            decreases CELL_COUNT - i,
        {
            out.push(self.cells[i].symbol());
            assert(self@.take(i as int + 1).drop_last() =~= self@.take(i as int));
            i = i + 1;
        }
        assert(self@.take(CELL_COUNT as int) =~= self@);
        out
    }

    /// Whether no cell is empty.
    pub fn is_full(&self) -> (r: bool)
        ensures
            r == all_marked(self@),
    {
        let mut i: usize = 0;
        while i < CELL_COUNT
            invariant
                i <= CELL_COUNT,
                self@.len() == CELL_COUNT,
                forall|k: int| 0 <= k < i ==> self@[k] != Cell::Empty,
            decreases CELL_COUNT - i,
        {
            if self.cells[i] == Cell::Empty {
                return false;
            }
            i = i + 1;
        }
        true
    }
}

} // verus!
