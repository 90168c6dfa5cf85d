use tictactoe::get_computer_move;
use tictactoe::minimax;
use tictactoe::Board;
use tictactoe::BoardValue;

const E: BoardValue = BoardValue::EMPTY;
const X: BoardValue = BoardValue::X;
const O: BoardValue = BoardValue::O;

fn board(cells: [BoardValue; 9]) -> Board {
    Board { grid: cells.to_vec() }
}

#[test]
fn perfect_play_from_the_empty_board_is_a_draw() {
    assert_eq!(minimax(Board::new(), true), 0);
}

#[test]
fn maximizing_wins_with_one_cell_left() {
    // the single empty cell completes the top row for X
    let b = board([X, X, E, O, O, X, X, O, O]);
    assert!(!b.is_terminal());
    assert_eq!(minimax(b, true), 1);
}

#[test]
fn minimizing_wins_with_one_cell_left() {
    // the single empty cell completes the top row for O
    let b = board([O, O, E, X, X, O, O, X, X]);
    assert!(!b.is_terminal());
    assert_eq!(minimax(b, false), -1);
}

#[test]
fn terminal_boards_evaluate_to_their_heuristic() {
    let max_won = board([X, X, X, O, O, E, E, E, E]);
    assert_eq!(minimax(max_won.clone(), true), 1);
    assert_eq!(minimax(max_won, false), 1);
    let min_won = board([O, O, O, X, X, E, X, E, E]);
    assert_eq!(minimax(min_won, true), -1);
    let draw = board([X, O, X, X, O, O, O, X, X]);
    assert_eq!(minimax(draw.clone(), true), 0);
    assert_eq!(minimax(draw, false), 0);
}

#[test]
fn a_fork_is_a_forced_win() {
    // X has no immediate win, but playing index 6 forks the left column
    // and the anti-diagonal; O can block only one of them
    let b = board([X, O, E, E, X, E, E, E, O]);
    assert_eq!(minimax(b, true), 1);
}

#[test]
fn computer_takes_the_winning_cell() {
    let b = board([X, X, E, O, O, E, E, E, E]);
    let best = get_computer_move(b);
    assert_eq!(best.grid, vec![X, X, X, O, O, E, E, E, E]);
}

#[test]
fn computer_breaks_ties_toward_the_lowest_index() {
    // from the empty board every move scores 0, so the first one stays
    let best = get_computer_move(Board::new());
    assert_eq!(best.grid[0], X);
    for j in 1..9 {
        assert_eq!(best.grid[j], E);
    }
}

#[test]
fn computer_blocks_an_immediate_threat() {
    // O threatens the top row at index 2; every other move loses
    let b = board([O, O, E, X, E, E, X, E, E]);
    let best = get_computer_move(b);
    assert_eq!(best.grid[2], X);
    assert_eq!(best.grid[0], O);
    assert_eq!(best.grid[1], O);
}
