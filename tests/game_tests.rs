use tictactoe::board::{Board, Cell, MoveError, Player};
use tictactoe::game::{Game, MoveInput, Step};
use tictactoe::rules::{check_winner, evaluate_game_state, validate_move, GameState, Move};

fn marked(board: &Board) -> usize {
    board.snapshot().iter().filter(|c| **c != ' ').count()
}

#[test]
fn top_row_win() {
    let mut g = Game::new();
    assert_eq!(g.play(0, 0), Ok(GameState::InProgress));
    assert_eq!(g.play(1, 0), Ok(GameState::InProgress));
    assert_eq!(g.play(0, 1), Ok(GameState::InProgress));
    assert_eq!(g.play(1, 1), Ok(GameState::InProgress));
    assert_eq!(g.play(0, 2), Ok(GameState::Won(Player::X)));
    assert_eq!(g.state(), GameState::Won(Player::X));
    assert_eq!(g.turn(), Player::X);
}

#[test]
fn full_board_draw() {
    let mut g = Game::new();
    let moves = [(0, 0), (0, 1), (0, 2), (1, 1), (1, 0), (1, 2), (2, 1), (2, 0)];
    for (r, c) in moves {
        assert_eq!(g.play(r, c), Ok(GameState::InProgress));
    }
    assert_eq!(g.turn(), Player::X);
    assert_eq!(g.play(2, 2), Ok(GameState::Draw));
    assert!(g.board().is_full());
    assert!(!check_winner(g.board(), Player::X));
    assert!(!check_winner(g.board(), Player::O));
}

#[test]
fn occupied_cell_rejected() {
    let mut g = Game::new();
    assert_eq!(g.play(0, 0), Ok(GameState::InProgress));
    assert_eq!(g.play(1, 1), Ok(GameState::InProgress));
    let before = g.board().snapshot();
    assert_eq!(g.board().get(1, 1), Ok(Cell::MarkedBy(Player::O)));
    assert_eq!(g.turn(), Player::X);
    assert_eq!(g.play(1, 1), Err(MoveError::CellOccupied));
    assert_eq!(g.turn(), Player::X);
    assert_eq!(g.board().snapshot(), before);
    assert_eq!(g.state(), GameState::InProgress);
}

#[test]
fn out_of_range_rejected() {
    let mut g = Game::new();
    let input = match tictactoe::input::parse_move("3 0") {
        Some((r, c)) => MoveInput::Coords(r, c),
        None => MoveInput::Malformed,
    };
    assert_eq!(input, MoveInput::Coords(3, 0));
    assert_eq!(g.handle(input), Step::Reprompt(MoveError::OutOfRange));
    assert_eq!(g.board().snapshot(), Board::empty().snapshot());
    assert_eq!(g.turn(), Player::X);
    assert_eq!(g.state(), GameState::InProgress);
}

#[test]
fn mark_count_grows_by_one_per_move() {
    let mut g = Game::new();
    assert_eq!(marked(g.board()), 0);
    let moves = [(1, 1), (0, 0), (2, 2), (0, 2)];
    for (k, (r, c)) in moves.iter().enumerate() {
        assert!(g.play(*r, *c).is_ok());
        assert_eq!(marked(g.board()), k + 1);
    }
    assert!(g.play(1, 1).is_err());
    assert_eq!(marked(g.board()), 4);
}

#[test]
fn win_detected_on_each_fixed_line() {
    let lines = [
        [(0, 0), (0, 1), (0, 2)],
        [(1, 0), (1, 1), (1, 2)],
        [(2, 0), (2, 1), (2, 2)],
        [(0, 0), (1, 0), (2, 0)],
        [(0, 1), (1, 1), (2, 1)],
        [(0, 2), (1, 2), (2, 2)],
        [(0, 0), (1, 1), (2, 2)],
        [(0, 2), (1, 1), (2, 0)],
    ];
    for line in lines {
        let mut b = Board::empty();
        for (r, c) in line {
            assert!(!check_winner(&b, Player::O));
            assert_eq!(b.set(r, c, Player::O), Ok(()));
        }
        assert!(check_winner(&b, Player::O));
        assert!(!check_winner(&b, Player::X));
    }
}

#[test]
fn no_win_without_complete_line() {
    let mut b = Board::empty();
    for (r, c) in [(0, 0), (0, 1), (1, 2), (2, 0), (2, 1)] {
        assert_eq!(b.set(r, c, Player::X), Ok(()));
    }
    assert!(!check_winner(&b, Player::X));
    assert_eq!(evaluate_game_state(&b, Player::X), GameState::InProgress);
}

#[test]
fn terminal_game_refuses_moves() {
    let mut g = Game::new();
    for (r, c) in [(0, 0), (1, 0), (0, 1), (1, 1), (0, 2)] {
        assert!(g.play(r, c).is_ok());
    }
    let before = g.board().snapshot();
    assert_eq!(g.play(2, 2), Err(MoveError::GameOver));
    assert_eq!(g.handle(MoveInput::Coords(2, 2)), Step::Finished(GameState::Won(Player::X)));
    assert_eq!(g.handle(MoveInput::Malformed), Step::Finished(GameState::Won(Player::X)));
    assert_eq!(g.board().snapshot(), before);
    assert_eq!(g.state(), GameState::Won(Player::X));
}

#[test]
fn full_board_without_line_is_draw() {
    let mut b = Board::empty();
    let marks = [
        (0, 0, Player::X), (0, 1, Player::O), (0, 2, Player::X),
        (1, 0, Player::X), (1, 1, Player::O), (1, 2, Player::O),
        (2, 0, Player::O), (2, 1, Player::X), (2, 2, Player::X),
    ];
    for (r, c, p) in marks {
        assert_eq!(b.set(r, c, p), Ok(()));
    }
    assert!(b.is_full());
    assert_eq!(evaluate_game_state(&b, Player::X), GameState::Draw);
    assert_eq!(evaluate_game_state(&b, Player::O), GameState::Draw);
}

#[test]
fn win_takes_precedence_over_full_board() {
    let mut g = Game::new();
    let moves = [(0, 0), (0, 1), (0, 2), (1, 1), (1, 0), (1, 2), (2, 1), (2, 2)];
    for (r, c) in moves {
        assert_eq!(g.play(r, c), Ok(GameState::InProgress));
    }
    assert_eq!(g.play(2, 0), Ok(GameState::Won(Player::X)));
    assert!(g.board().is_full());
}

#[test]
fn rejected_inputs_change_nothing() {
    let mut g = Game::new();
    assert_eq!(g.handle(MoveInput::Coords(0, 0)), Step::Continue(Player::O));
    let before = g.board().snapshot();
    assert_eq!(g.handle(MoveInput::Malformed), Step::Reprompt(MoveError::MalformedInput));
    assert_eq!(g.handle(MoveInput::Coords(0, 3)), Step::Reprompt(MoveError::OutOfRange));
    assert_eq!(g.handle(MoveInput::Coords(0, 0)), Step::Reprompt(MoveError::CellOccupied));
    assert_eq!(g.board().snapshot(), before);
    assert_eq!(g.turn(), Player::O);
    assert_eq!(g.state(), GameState::InProgress);
}

#[test]
fn io_failure_aborts() {
    let mut g = Game::new();
    assert_eq!(g.handle(MoveInput::IoFailure), Step::Aborted);
    assert_eq!(g.board().snapshot(), Board::empty().snapshot());
    assert_eq!(g.turn(), Player::X);
}

#[test]
fn handle_reports_finish() {
    let mut g = Game::new();
    let moves = [(0, 0), (1, 0), (0, 1), (1, 1)];
    let expected = [Player::O, Player::X, Player::O, Player::X];
    for (k, (r, c)) in moves.iter().enumerate() {
        assert_eq!(g.handle(MoveInput::Coords(*r, *c)), Step::Continue(expected[k]));
    }
    assert_eq!(g.handle(MoveInput::Coords(0, 2)), Step::Finished(GameState::Won(Player::X)));
}

#[test]
fn turn_alternates_from_x() {
    let mut g = Game::new();
    assert_eq!(g.turn(), Player::X);
    assert!(g.play(2, 2).is_ok());
    assert_eq!(g.turn(), Player::O);
    assert_eq!(g.board().get(2, 2), Ok(Cell::MarkedBy(Player::X)));
    assert!(g.play(0, 0).is_ok());
    assert_eq!(g.turn(), Player::X);
    assert_eq!(g.board().get(0, 0), Ok(Cell::MarkedBy(Player::O)));
    assert_eq!(Player::X.other(), Player::O);
    assert_eq!(Player::O.other(), Player::X);
}

#[test]
fn board_accessors() {
    let mut b = Board::empty();
    assert!(!b.is_full());
    assert_eq!(b.get(0, 3), Err(MoveError::OutOfRange));
    assert_eq!(b.get(3, 0), Err(MoveError::OutOfRange));
    assert_eq!(b.get(2, 2), Ok(Cell::Empty));
    assert!(b.is_cell_empty(1, 2));
    assert_eq!(b.set(1, 2, Player::O), Ok(()));
    assert!(!b.is_cell_empty(1, 2));
    assert_eq!(b.set(1, 2, Player::X), Err(MoveError::CellOccupied));
    assert_eq!(b.set(5, 0, Player::X), Err(MoveError::OutOfRange));
    assert_eq!(b.get(1, 2), Ok(Cell::MarkedBy(Player::O)));
    assert_eq!(b.snapshot(), vec![' ', ' ', ' ', ' ', ' ', 'O', ' ', ' ', ' ']);
}

#[test]
fn validator_checks_without_mutation() {
    let mut b = Board::empty();
    assert_eq!(b.set(0, 1, Player::X), Ok(()));
    assert_eq!(
        validate_move(&b, 2, 1, Player::O),
        Ok(Move { row: 2, col: 1, player: Player::O })
    );
    assert_eq!(validate_move(&b, 0, 1, Player::O), Err(MoveError::CellOccupied));
    assert_eq!(validate_move(&b, 0, 7, Player::O), Err(MoveError::OutOfRange));
    assert_eq!(b.get(2, 1), Ok(Cell::Empty));
}

#[test]
fn outcome_messages() {
    assert_eq!(GameState::Won(Player::X).message(), "Player X wins!");
    assert_eq!(GameState::Won(Player::O).message(), "Player O wins!");
    assert_eq!(GameState::Draw.message(), "It's a draw!");
    assert_eq!(GameState::InProgress.message(), "Game in progress");
}

#[test]
fn cell_symbols() {
    assert_eq!(Cell::Empty.symbol(), ' ');
    assert_eq!(Cell::MarkedBy(Player::X).symbol(), 'X');
    assert_eq!(Cell::MarkedBy(Player::O).symbol(), 'O');
    assert_eq!(Player::O.symbol(), 'O');
}
