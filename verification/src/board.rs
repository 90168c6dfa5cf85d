use vstd::prelude::*;

use crate::boardvalue::BoardValue;

verus! {

/// The 3x3 grid, stored row-major: indices 0..=2 are the top row, 3..=5 the
/// middle row, 6..=8 the bottom row. Well-formed boards hold exactly 9 cells.
#[derive(Clone, Debug)]
pub struct Board {
    pub grid: Vec<BoardValue>,
}

impl View for Board {
    type V = Seq<BoardValue>;

    open spec fn view(&self) -> Seq<BoardValue> {
        self.grid@
    }
}

impl Board {
    /// A board is well formed when its grid has exactly 9 cells.
    pub open spec fn wf(&self) -> bool {
        self@.len() == 9
    }
}

/// The board with every cell empty.
pub open spec fn spec_empty_board() -> Seq<BoardValue> {
    Seq::new(9, |i: int| BoardValue::EMPTY)
}

/// All three cells of the line `(a, b, c)` hold exactly `v`.
pub open spec fn spec_line_has(s: Seq<BoardValue>, a: int, b: int, c: int, v: BoardValue) -> bool {
    s[a] == v && s[b] == v && s[c] == v
}

/// Some whole row (top, middle or bottom) holds `v`.
pub open spec fn spec_any_row_has(s: Seq<BoardValue>, v: BoardValue) -> bool {
    spec_line_has(s, 0, 1, 2, v) || spec_line_has(s, 3, 4, 5, v) || spec_line_has(s, 6, 7, 8, v)
}

/// Some whole column (left, middle or right) holds `v`.
pub open spec fn spec_any_column_has(s: Seq<BoardValue>, v: BoardValue) -> bool {
    spec_line_has(s, 0, 3, 6, v) || spec_line_has(s, 1, 4, 7, v) || spec_line_has(s, 2, 5, 8, v)
}

/// One of the two whole diagonals holds `v`.
pub open spec fn spec_any_diagonal_has(s: Seq<BoardValue>, v: BoardValue) -> bool {
    spec_line_has(s, 0, 4, 8, v) || spec_line_has(s, 2, 4, 6, v)
}

/// The maximizing side owns one of the 8 lines.
pub open spec fn spec_maximizing_won(s: Seq<BoardValue>) -> bool {
    spec_any_row_has(s, BoardValue::X) || spec_any_column_has(s, BoardValue::X)
        || spec_any_diagonal_has(s, BoardValue::X)
}

/// The minimizing side owns one of the 8 lines.
pub open spec fn spec_minimizing_won(s: Seq<BoardValue>) -> bool {
    spec_any_row_has(s, BoardValue::O) || spec_any_column_has(s, BoardValue::O)
        || spec_any_diagonal_has(s, BoardValue::O)
}

/// No cell is empty.
pub open spec fn spec_board_full(s: Seq<BoardValue>) -> bool {
    forall|j: int| 0 <= j < 9 ==> s[j] != BoardValue::EMPTY
}

/// The game is over: a side has won, or no cell is left to play.
pub open spec fn spec_terminal(s: Seq<BoardValue>) -> bool {
    spec_maximizing_won(s) || spec_minimizing_won(s) || spec_board_full(s)
}

/// The terminal score: +1 when the maximizing side won, -1 when the minimizing
/// side won, 0 otherwise (a draw, or a position that is not terminal at all).
pub open spec fn spec_heuristic(s: Seq<BoardValue>) -> int {
    if spec_maximizing_won(s) {
        1
    } else if spec_minimizing_won(s) {
        -1
    } else {
        0
    }
}

/// How many of the cells at indices `from..9` are empty.
pub open spec fn count_empty_from(s: Seq<BoardValue>, from: int) -> nat
    decreases 9 - from,
{
    if from < 0 || from >= 9 {
        0
    } else if s[from] == BoardValue::EMPTY {
        1 + count_empty_from(s, from + 1)
    } else {
        count_empty_from(s, from + 1)
    }
}

/// How many cells of the whole board are empty.
pub open spec fn num_empty(s: Seq<BoardValue>) -> nat {
    count_empty_from(s, 0)
}

/// The empty indices at `from..9`, in ascending order.
pub open spec fn empty_indices_from(s: Seq<BoardValue>, from: int) -> Seq<int>
    decreases 9 - from,
{
    if from < 0 || from >= 9 {
        Seq::empty()
    } else if s[from] == BoardValue::EMPTY {
        seq![from] + empty_indices_from(s, from + 1)
    } else {
        empty_indices_from(s, from + 1)
    }
}

/// The empty indices of the whole board, in ascending order.
pub open spec fn empty_indices(s: Seq<BoardValue>) -> Seq<int> {
    empty_indices_from(s, 0)
}

/// The successors obtained by playing `v` on each empty cell at `from..9`,
/// in ascending order of the cell played.
pub open spec fn spec_children_from(s: Seq<BoardValue>, v: BoardValue, from: int) -> Seq<
    Seq<BoardValue>,
>
    decreases 9 - from,
{
    if from < 0 || from >= 9 {
        Seq::empty()
    } else if s[from] == BoardValue::EMPTY {
        seq![s.update(from, v)] + spec_children_from(s, v, from + 1)
    } else {
        spec_children_from(s, v, from + 1)
    }
}

/// The successors obtained by playing `v` on each empty cell, in ascending
/// order of the cell played.
pub open spec fn spec_children(s: Seq<BoardValue>, v: BoardValue) -> Seq<Seq<BoardValue>> {
    spec_children_from(s, v, 0)
}

impl Board {
    /// The game is over here iff a side has won or the board is full;
    /// no other condition is terminal.
    pub fn is_terminal(&self) -> (r: bool)
        requires
            self.wf(),
        ensures
            r == spec_terminal(self@),
    {
        if self.maximizing_player_won() || self.minimizing_player_won() || self.board_full() {
            return true;
        }
        return false;
    }

    /// True iff not a single cell is empty.
    pub fn board_full(&self) -> (r: bool)
        requires
            self.wf(),
        ensures
            r == spec_board_full(self@),
    {
        let mut i: usize = 0;
        while i < 9
            invariant
                self.wf(),
                i <= 9,
                forall|j: int| 0 <= j < i ==> self@[j] != BoardValue::EMPTY,
            decreases 9 - i,
        {
            if self.grid[i] == BoardValue::EMPTY {
                return false;
            }
            i += 1;
        }
        return true;
    }

    /// True iff some whole row holds `val`: all three cells of the row equal
    /// each other and equal `val`.
    pub fn any_row_has_val(&self, val: BoardValue) -> (r: bool)
        requires
            self.wf(),
        ensures
            r == spec_any_row_has(self@, val),
    {
        // top row, indices 0, 1 and 2
        if self.grid[0] == self.grid[1] && self.grid[1] == self.grid[2] && self.grid[0] == val {
            return true;
        }
        // middle row, indices 3, 4 and 5
        if self.grid[3] == self.grid[4] && self.grid[4] == self.grid[5] && self.grid[3] == val {
            return true;
        }
        // bottom row, indices 6, 7 and 8
        if self.grid[6] == self.grid[7] && self.grid[7] == self.grid[8] && self.grid[6] == val {
            return true;
        }
        return false;
    }

    /// True iff some whole column holds `val`.
    pub fn any_column_has_val(&self, val: BoardValue) -> (r: bool)
        requires
            self.wf(),
        ensures
            r == spec_any_column_has(self@, val),
    {
        // left column, indices 0, 3 and 6
        if self.grid[0] == self.grid[3] && self.grid[3] == self.grid[6] && self.grid[0] == val {
            return true;
        }
        // middle column, indices 1, 4 and 7
        if self.grid[1] == self.grid[4] && self.grid[4] == self.grid[7] && self.grid[1] == val {
            return true;
        }
        // right column, indices 2, 5 and 8
        if self.grid[2] == self.grid[5] && self.grid[5] == self.grid[8] && self.grid[2] == val {
            return true;
        }
        return false;
    }

    /// True iff one of the two whole diagonals holds `val`.
    pub fn any_diagonal_has_val(&self, val: BoardValue) -> (r: bool)
        requires
            self.wf(),
        ensures
            r == spec_any_diagonal_has(self@, val),
    {
        // top-left to bottom-right, indices 0, 4 and 8
        if self.grid[0] == self.grid[4] && self.grid[4] == self.grid[8] && self.grid[0] == val {
            return true;
        }
        // top-right to bottom-left, indices 2, 4 and 6
        if self.grid[2] == self.grid[4] && self.grid[4] == self.grid[6] && self.grid[2] == val {
            return true;
        }
        return false;
    }

    /// True iff the maximizing side owns an entire row, column or diagonal.
    pub fn maximizing_player_won(&self) -> (r: bool)
        requires
            self.wf(),
        ensures
            r == spec_maximizing_won(self@),
    {
        if self.any_column_has_val(BoardValue::X) {
            return true;
        }
        if self.any_row_has_val(BoardValue::X) {
            return true;
        }
        if self.any_diagonal_has_val(BoardValue::X) {
            return true;
        }
        return false;
    }

    /// True iff the minimizing side owns an entire row, column or diagonal.
    pub fn minimizing_player_won(&self) -> (r: bool)
        requires
            self.wf(),
        ensures
            r == spec_minimizing_won(self@),
    {
        if self.any_column_has_val(BoardValue::O) {
            return true;
        }
        if self.any_row_has_val(BoardValue::O) {
            return true;
        }
        if self.any_diagonal_has_val(BoardValue::O) {
            return true;
        }
        return false;
    }

    /// The terminal score of this board: +1 iff the maximizing side won,
    /// -1 iff the minimizing side won (and the maximizing side did not),
    /// 0 otherwise — in particular 0 on every non-terminal board.
    pub fn heuristic_value(&self) -> (r: i32)
        requires
            self.wf(),
        ensures
            r as int == spec_heuristic(self@),
            -1 <= r <= 1,
    {
        if !self.is_terminal() {
            0
        } else if self.maximizing_player_won() {
            1
        } else if self.minimizing_player_won() {
            -1
        } else {
            0
        }
    }

    /// A fresh child board: this board with `value` written at `index`.
    pub fn place(&self, index: usize, value: BoardValue) -> (r: Board)
        requires
            self.wf(),
            index < 9,
        ensures
            r.wf(),
            r@ == self@.update(index as int, value),
    {
        let mut grid: Vec<BoardValue> = Vec::new();
        let mut i: usize = 0;
        while i < 9
            invariant
                self.wf(),
                index < 9,
                i <= 9,
                grid@.len() == i,
                forall|j: int| 0 <= j < i ==> grid@[j] == (if j == index {
                    value
                } else {
                    self@[j]
                }),
            decreases 9 - i,
        {
            if i == index {
                grid.push(value);
            } else {
                grid.push(self.grid[i]);
            }
            i += 1;
        }
        let r = Board { grid };
        proof {
            assert(r@ =~= self@.update(index as int, value));
        }
        r
    }

    /// One child per empty cell, in ascending index order: the child at
    /// position `k` plays `X` (when `maximizing`) or `O` (otherwise) on the
    /// `k`-th empty cell and leaves every other cell as it was.
    pub fn get_children(&self, maximizing: bool) -> (r: Vec<Board>)
        requires
            self.wf(),
        ensures
            r@.len() == spec_children(self@, spec_mark(maximizing)).len(),
            forall|k: int| 0 <= k < r@.len() ==> #[trigger] r@[k]@ == spec_children(
                self@,
                spec_mark(maximizing),
            )[k],
            forall|k: int| 0 <= k < r@.len() ==> (#[trigger] r@[k]).wf(),
    {
        let mark = if maximizing {
            BoardValue::X
        } else {
            BoardValue::O
        };
        let mut children: Vec<Board> = Vec::new();
        let ghost target = spec_children(self@, mark);
        let mut i: usize = 0;
        while i < 9
            invariant
                self.wf(),
                i <= 9,
                mark == spec_mark(maximizing),
                target == spec_children(self@, mark),
                forall|k: int| 0 <= k < children@.len() ==> (#[trigger] children@[k]).wf(),
                children@.map_values(|b: Board| b@) + spec_children_from(self@, mark, i as int)
                    =~= target,
            decreases 9 - i,
        {
            if self.grid[i] == BoardValue::EMPTY {
                let child = self.place(i, mark);
                proof {
                    let ghost before = children@.map_values(|b: Board| b@);
                    assert(spec_children_from(self@, mark, i as int) == seq![
                        self@.update(i as int, mark),
                    ] + spec_children_from(self@, mark, i as int + 1));
                    assert(children@.push(child).map_values(|b: Board| b@) =~= before.push(
                        child@,
                    ));
                    assert(before.push(child@) + spec_children_from(self@, mark, i as int + 1)
                        =~= before + spec_children_from(self@, mark, i as int));
                }
                children.push(child);
            } else {
                proof {
                    assert(spec_children_from(self@, mark, i as int) == spec_children_from(
                        self@,
                        mark,
                        i as int + 1,
                    ));
                }
            }
            i += 1;
        }
        proof {
            assert(children@.map_values(|b: Board| b@) =~= target);
        }
        children
    }

    /// A fresh board with all 9 cells empty.
    pub fn new() -> (r: Board)
        ensures
            r.wf(),
            r@ == spec_empty_board(),
    {
        let r = Board {
            grid: vec![
                BoardValue::EMPTY,
                BoardValue::EMPTY,
                BoardValue::EMPTY,
                BoardValue::EMPTY,
                BoardValue::EMPTY,
                BoardValue::EMPTY,
                BoardValue::EMPTY,
                BoardValue::EMPTY,
                BoardValue::EMPTY,
            ],
        };
        proof {
            assert(r@ =~= spec_empty_board());
        }
        r
    }
}

/// The mark a side plays: `X` for the maximizing side, `O` for the minimizing.
pub open spec fn spec_mark(maximizing: bool) -> BoardValue {
    if maximizing {
        BoardValue::X
    } else {
        BoardValue::O
    }
}

/// Induction workhorse for `lemma_successors`: on the tail `from..9`, the
/// successor list and the empty-index list run in lockstep — same length as
/// the empty-cell count, ascending indices, one successor per empty cell.
proof fn lemma_empty_indices_from_props(s: Seq<BoardValue>, v: BoardValue, from: int)
    requires
        0 <= from <= 9,
    ensures
        empty_indices_from(s, from).len() == count_empty_from(s, from),
        spec_children_from(s, v, from).len() == count_empty_from(s, from),
        forall|k: int| 0 <= k < empty_indices_from(s, from).len() ==> from <= #[trigger] empty_indices_from(s, from)[k] < 9
            && s[empty_indices_from(s, from)[k]] == BoardValue::EMPTY,
        forall|k: int| 0 <= k < empty_indices_from(s, from).len() ==> #[trigger] spec_children_from(s, v, from)[k]
            == s.update(empty_indices_from(s, from)[k], v),
        forall|k1: int, k2: int| 0 <= k1 < k2 < empty_indices_from(s, from).len()
            ==> #[trigger] empty_indices_from(s, from)[k1] < #[trigger] empty_indices_from(s, from)[k2],
        forall|j: int| from <= j < 9 && s[j] == BoardValue::EMPTY ==> empty_indices_from(
            s,
            from,
        ).contains(j),
    decreases 9 - from,
{
    if from < 9 {
        lemma_empty_indices_from_props(s, v, from + 1);
        let ei = empty_indices_from(s, from);
        let ch = spec_children_from(s, v, from);
        let ei1 = empty_indices_from(s, from + 1);
        let ch1 = spec_children_from(s, v, from + 1);
        if s[from] == BoardValue::EMPTY {
            assert(ei == seq![from] + ei1);
            assert(ch == seq![s.update(from, v)] + ch1);
            assert(ei[0] == from);
            assert(forall|k: int| 1 <= k < ei.len() ==> #[trigger] ei[k] == ei1[k - 1]);
            assert(forall|k: int| 1 <= k < ch.len() ==> #[trigger] ch[k] == ch1[k - 1]);
            assert forall|j: int| from <= j < 9 && s[j] == BoardValue::EMPTY implies ei.contains(
                j,
            ) by {
                if j == from {
                    assert(ei[0] == j);
                } else {
                    assert(ei1.contains(j));
                    let k = choose|k: int| 0 <= k < ei1.len() && ei1[k] == j;
                    assert(ei[k + 1] == j);
                }
            }
        } else {
            assert(ei == ei1);
            assert(ch == ch1);
        }
    }
}

/// The successor generator covers the empty cells exactly: playing `v` on a
/// board yields one child per empty cell — `num_empty(s)` children in all —
/// in ascending order of the cell played, each child equal to its parent
/// except for the single empty cell it fills with `v`, every empty cell
/// filled by exactly one child.
pub proof fn lemma_successors(s: Seq<BoardValue>, v: BoardValue)
    requires
        s.len() == 9,
        v != BoardValue::EMPTY,
    ensures
        spec_children(s, v).len() == num_empty(s),
        empty_indices(s).len() == num_empty(s),
        forall|k: int| 0 <= k < num_empty(s) ==> 0 <= #[trigger] empty_indices(s)[k] < 9
            && s[empty_indices(s)[k]] == BoardValue::EMPTY,
        forall|k: int| 0 <= k < num_empty(s) ==> #[trigger] spec_children(s, v)[k] == s.update(
            empty_indices(s)[k],
            v,
        ),
        // each child differs from its parent in exactly the one cell it plays
        forall|k: int| 0 <= k < num_empty(s) ==> #[trigger] spec_children(s, v)[k].len() == 9
            && spec_children(s, v)[k][empty_indices(s)[k]] == v,
        forall|k: int, j: int|
            0 <= k < num_empty(s) && 0 <= j < 9 && j != empty_indices(s)[k]
                ==> #[trigger] spec_children(s, v)[k][j] == s[j],
        // the played cells ascend, so no empty cell is played twice ...
        forall|k1: int, k2: int| 0 <= k1 < k2 < num_empty(s)
            ==> #[trigger] empty_indices(s)[k1] < #[trigger] empty_indices(s)[k2],
        // ... and every empty cell is played by some child
        forall|j: int| 0 <= j < 9 && s[j] == BoardValue::EMPTY ==> empty_indices(s).contains(j),
{
    lemma_empty_indices_from_props(s, v, 0);
}

/// A board is terminal exactly when it is full or either side has won;
/// no other condition ends the game.
pub proof fn lemma_terminal_characterization(s: Seq<BoardValue>)
    ensures
        spec_terminal(s) <==> (spec_board_full(s) || spec_maximizing_won(s)
            || spec_minimizing_won(s)),
{
}

/// On a terminal board where at most one side has won, the heuristic score
/// lies in {-1, 0, +1}; it is +1 exactly when the maximizing side won, -1
/// exactly when the minimizing side won, and 0 exactly on a draw.
pub proof fn lemma_heuristic_range(s: Seq<BoardValue>)
    requires
        spec_terminal(s),
        !(spec_maximizing_won(s) && spec_minimizing_won(s)),
    ensures
        -1 <= spec_heuristic(s) <= 1,
        spec_heuristic(s) == 1 <==> spec_maximizing_won(s),
        spec_heuristic(s) == -1 <==> spec_minimizing_won(s),
        spec_heuristic(s) == 0 <==> (!spec_maximizing_won(s) && !spec_minimizing_won(s)),
{
}

} // verus!
