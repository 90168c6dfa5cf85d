use vstd::prelude::*;

use crate::board::Board;
use crate::board::spec_empty_board;
use crate::boardvalue::BoardValue;
use crate::minimax::minimax;
use crate::minimax::spec_minimax;

verus! {

/// The state a driver threads through one game: the single current board.
pub struct Game {
    pub board: Board,
}

impl Game {
    /// A fresh game on an all-empty board.
    pub fn new() -> (r: Game)
        ensures
            r.board.wf(),
            r.board@ == spec_empty_board(),
    {
        Game { board: Board::new() }
    }
}

/// The board the driver picks among the maximizing side's moves on the empty
/// cells at indices `from..9`: each candidate plays `X` on one empty cell and
/// is scored by `spec_minimax` with the minimizing side to move next; a
/// candidate replaces the running best only when its score is strictly
/// greater, so on ties the earliest (lowest-index) best stays.
pub open spec fn spec_best_move_from(
    s: Seq<BoardValue>,
    from: int,
    best_score: int,
    best: Seq<BoardValue>,
) -> Seq<BoardValue>
    decreases 9 - from,
{
    if from < 0 || from >= 9 {
        best
    } else if s[from] == BoardValue::EMPTY {
        let child = s.update(from, BoardValue::X);
        let score = spec_minimax(child, false);
        if score > best_score {
            spec_best_move_from(s, from + 1, score, child)
        } else {
            spec_best_move_from(s, from + 1, best_score, best)
        }
    } else {
        spec_best_move_from(s, from + 1, best_score, best)
    }
}

/// The board the driver picks for the maximizing side from position `s`: the
/// first move (in ascending cell index) whose score strictly beats every score
/// seen before it. On a board with no empty cell this is the empty board, the
/// scan's starting value.
pub open spec fn spec_best_move(s: Seq<BoardValue>) -> Seq<BoardValue> {
    spec_best_move_from(s, 0, i32::MIN as int, spec_empty_board())
}

/// The computer's move for the maximizing side: scores every successor with
/// the minimax engine and returns the best one, lowest index winning ties.
pub fn get_computer_move(board: Board) -> (r: Board)
    requires
        board.wf(),
    ensures
        r.wf(),
        r@ == spec_best_move(board@),
{
    let mut max: i32 = i32::MIN;
    let mut best_move = Board::new();
    let mut i: usize = 0;
    while i < 9
        invariant
            board.wf(),
            best_move.wf(),
            i <= 9,
            spec_best_move(board@) == spec_best_move_from(
                board@,
                i as int,
                max as int,
                best_move@,
            ),
        decreases 9 - i,
    {
        if board.grid[i] == BoardValue::EMPTY {
            let child = board.place(i, BoardValue::X);
            let score = minimax(board.place(i, BoardValue::X), false);
            if score > max {
                max = score;
                best_move = child;
            }
        }
        i += 1;
    }
    best_move
}

} // verus!
