use tictactoe::Board;
use tictactoe::BoardValue;
use tictactoe::Game;

const E: BoardValue = BoardValue::EMPTY;
const X: BoardValue = BoardValue::X;
const O: BoardValue = BoardValue::O;

fn board(cells: [BoardValue; 9]) -> Board {
    Board { grid: cells.to_vec() }
}

#[test]
fn new_board_is_all_empty_and_not_terminal() {
    let b = Board::new();
    assert_eq!(b.grid.len(), 9);
    for cell in &b.grid {
        assert_eq!(*cell, E);
    }
    assert!(!b.board_full());
    assert!(!b.maximizing_player_won());
    assert!(!b.minimizing_player_won());
    assert!(!b.is_terminal());
    assert_eq!(b.heuristic_value(), 0);
}

#[test]
fn game_starts_on_the_empty_board() {
    let g = Game::new();
    assert_eq!(g.board.grid, Board::new().grid);
}

#[test]
fn completing_the_top_row_wins_for_maximizing() {
    // maximizing to move on [X, X, _, O, O, _, _, _, _]: playing index 2
    // completes the top row
    let b = board([X, X, E, O, O, E, E, E, E]);
    assert!(!b.is_terminal());
    let won = b.place(2, X);
    assert_eq!(won.grid, vec![X, X, X, O, O, E, E, E, E]);
    assert!(won.any_row_has_val(X));
    assert!(won.maximizing_player_won());
    assert!(!won.minimizing_player_won());
    assert!(won.is_terminal());
    assert_eq!(won.heuristic_value(), 1);
}

#[test]
fn full_board_without_a_line_is_a_draw() {
    let b = board([X, O, X, X, O, O, O, X, X]);
    assert!(b.board_full());
    assert!(!b.maximizing_player_won());
    assert!(!b.minimizing_player_won());
    assert!(b.is_terminal());
    assert_eq!(b.heuristic_value(), 0);
}

#[test]
fn column_and_diagonal_wins_are_detected() {
    let left_col = board([X, O, O, X, E, E, X, E, E]);
    assert!(left_col.any_column_has_val(X));
    assert!(!left_col.any_row_has_val(X));
    assert!(!left_col.any_diagonal_has_val(X));
    assert!(left_col.maximizing_player_won());

    let main_diag = board([O, X, X, E, O, X, E, E, O]);
    assert!(main_diag.any_diagonal_has_val(O));
    assert!(main_diag.minimizing_player_won());
    assert_eq!(main_diag.heuristic_value(), -1);

    let anti_diag = board([O, E, X, E, X, O, X, E, O]);
    assert!(anti_diag.any_diagonal_has_val(X));
    assert!(anti_diag.maximizing_player_won());
    assert_eq!(anti_diag.heuristic_value(), 1);
}

#[test]
fn a_line_must_hold_three_equal_marks() {
    // two marks and a gap, or mixed marks, win nothing
    let b = board([X, X, E, O, O, E, E, E, E]);
    assert!(!b.any_row_has_val(X));
    assert!(!b.any_row_has_val(O));
    let mixed = board([X, X, O, O, O, X, X, O, X]);
    assert!(!mixed.any_row_has_val(X));
    assert!(!mixed.any_column_has_val(X));
    assert!(!mixed.any_diagonal_has_val(X));
}

#[test]
fn heuristic_is_zero_on_non_terminal_boards() {
    let b = board([X, E, E, E, O, E, E, E, E]);
    assert!(!b.is_terminal());
    assert_eq!(b.heuristic_value(), 0);
}

#[test]
fn successors_fill_each_empty_cell_exactly_once() {
    // 4 occupied cells, so 5 successors, one per empty index, ascending
    let b = board([X, X, E, O, O, E, E, E, E]);
    let children = b.get_children(true);
    assert_eq!(children.len(), 5);
    let empty_indices = [2usize, 5, 6, 7, 8];
    for (child, &idx) in children.iter().zip(empty_indices.iter()) {
        assert_eq!(child.grid.len(), 9);
        assert_eq!(child.grid[idx], X);
        for j in 0..9 {
            if j != idx {
                assert_eq!(child.grid[j], b.grid[j]);
            }
        }
    }
}

#[test]
fn successors_place_the_minimizing_mark_when_asked() {
    let b = board([X, X, E, O, O, E, E, E, E]);
    let children = b.get_children(false);
    assert_eq!(children.len(), 5);
    assert_eq!(children[0].grid[2], O);
    assert_eq!(children[4].grid[8], O);
}

#[test]
fn full_board_has_no_successors() {
    let b = board([X, O, X, X, O, O, O, X, X]);
    assert!(b.get_children(true).is_empty());
    assert!(b.get_children(false).is_empty());
}

#[test]
fn read_only_queries_are_idempotent() {
    let b = board([X, X, E, O, O, E, E, E, E]);
    let before = b.grid.clone();
    assert_eq!(b.is_terminal(), b.is_terminal());
    assert_eq!(b.board_full(), b.board_full());
    assert_eq!(b.any_row_has_val(X), b.any_row_has_val(X));
    assert_eq!(b.any_column_has_val(O), b.any_column_has_val(O));
    assert_eq!(b.any_diagonal_has_val(X), b.any_diagonal_has_val(X));
    assert_eq!(b.maximizing_player_won(), b.maximizing_player_won());
    assert_eq!(b.minimizing_player_won(), b.minimizing_player_won());
    assert_eq!(b.heuristic_value(), b.heuristic_value());
    let first = b.get_children(true);
    let second = b.get_children(true);
    assert_eq!(first.len(), second.len());
    for (c1, c2) in first.iter().zip(second.iter()) {
        assert_eq!(c1.grid, c2.grid);
    }
    assert_eq!(b.grid, before);
}
