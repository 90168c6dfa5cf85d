use vstd::prelude::*;

use crate::board::Board;
use crate::board::count_empty_from;
use crate::board::num_empty;
use crate::board::spec_heuristic;
use crate::board::spec_mark;
use crate::board::spec_terminal;
use crate::boardvalue::BoardValue;

verus! {

/// Writing a mark on an empty cell leaves one empty cell fewer among the
/// indices `from..9`, and leaves the count of any range above `i` unchanged.
pub proof fn lemma_count_empty_update(s: Seq<BoardValue>, from: int, i: int, v: BoardValue)
    requires
        s.len() == 9,
        0 <= from,
        0 <= i < 9,
        s[i] == BoardValue::EMPTY,
        v != BoardValue::EMPTY,
    ensures
        from <= i ==> count_empty_from(s, from) == count_empty_from(s.update(i, v), from) + 1,
        from > i ==> count_empty_from(s, from) == count_empty_from(s.update(i, v), from),
    decreases 9 - from,
{
    if from < 9 {
        lemma_count_empty_update(s, from + 1, i, v);
    }
}

/// The game-theoretic value of the position `s` with `maximizing` to move:
/// the terminal score once the game is over, and otherwise the best score the
/// side to move can force, searched to full depth with strict alternation.
pub open spec fn spec_minimax(s: Seq<BoardValue>, maximizing: bool) -> int
    decreases num_empty(s), 10int,
    when s.len() == 9
{
    if spec_terminal(s) {
        spec_heuristic(s)
    } else if maximizing {
        spec_minimax_from(s, maximizing, 0, i32::MIN as int)
    } else {
        spec_minimax_from(s, maximizing, 0, i32::MAX as int)
    }
}

/// The fold behind `spec_minimax`: the best score over the moves on the empty
/// cells at indices `from..9`, folded left into the accumulator `acc` (with
/// the maximum when `maximizing`, the minimum otherwise).
pub open spec fn spec_minimax_from(s: Seq<BoardValue>, maximizing: bool, from: int, acc: int) -> int
    decreases num_empty(s), 9 - from,
    when s.len() == 9 && 0 <= from <= 9
{
    if from >= 9 {
        acc
    } else if s[from] == BoardValue::EMPTY {
        let child = s.update(from, spec_mark(maximizing));
        proof {
            lemma_count_empty_update(s, 0, from, spec_mark(maximizing));
        }
        let score = spec_minimax(child, !maximizing);
        let folded = if maximizing {
            if score > acc {
                score
            } else {
                acc
            }
        } else {
            if score < acc {
                score
            } else {
                acc
            }
        };
        spec_minimax_from(s, maximizing, from + 1, folded)
    } else {
        spec_minimax_from(s, maximizing, from + 1, acc)
    }
}

/// Induction workhorse for `lemma_minimax_range`: folding the candidate
/// scores on the cells `from..9` into `acc` moves `acc` only toward the side
/// to move's preference, never past the score range, and — once some empty
/// cell is in range — lands inside {-1, 0, +1} or on `acc` itself.
proof fn lemma_minimax_from_range(s: Seq<BoardValue>, maximizing: bool, from: int, acc: int)
    requires
        s.len() == 9,
        0 <= from <= 9,
    ensures
        maximizing ==> acc <= spec_minimax_from(s, maximizing, from, acc)
            && spec_minimax_from(s, maximizing, from, acc) <= (if acc > 1 {
            acc
        } else {
            1
        }),
        !maximizing ==> spec_minimax_from(s, maximizing, from, acc) <= acc
            && spec_minimax_from(s, maximizing, from, acc) >= (if acc < -1 {
            acc
        } else {
            -1
        }),
        (maximizing && exists|j: int| from <= j < 9 && s[j] == BoardValue::EMPTY)
            ==> spec_minimax_from(s, maximizing, from, acc) >= -1,
        (!maximizing && exists|j: int| from <= j < 9 && s[j] == BoardValue::EMPTY)
            ==> spec_minimax_from(s, maximizing, from, acc) <= 1,
    decreases num_empty(s), 9 - from,
{
    if from < 9 {
        if s[from] == BoardValue::EMPTY {
            let child = s.update(from, spec_mark(maximizing));
            lemma_count_empty_update(s, 0, from, spec_mark(maximizing));
            lemma_minimax_range(child, !maximizing);
            let score = spec_minimax(child, !maximizing);
            let folded = if maximizing {
                if score > acc {
                    score
                } else {
                    acc
                }
            } else {
                if score < acc {
                    score
                } else {
                    acc
                }
            };
            lemma_minimax_from_range(s, maximizing, from + 1, folded);
        } else {
            lemma_minimax_from_range(s, maximizing, from + 1, acc);
            if exists|j: int| from <= j < 9 && s[j] == BoardValue::EMPTY {
                let j = choose|j: int| from <= j < 9 && s[j] == BoardValue::EMPTY;
                assert(from + 1 <= j < 9 && s[j] == BoardValue::EMPTY);
            }
        }
    }
}

/// The search result always lies in {-1, 0, +1}: +1 a forced win for the
/// maximizing side, -1 a forced win for the minimizing side, 0 a draw.
pub proof fn lemma_minimax_range(s: Seq<BoardValue>, maximizing: bool)
    requires
        s.len() == 9,
    ensures
        -1 <= spec_minimax(s, maximizing) <= 1,
    decreases num_empty(s), 10int,
{
    if !spec_terminal(s) {
        let j = choose|j: int| 0 <= j < 9 && s[j] == BoardValue::EMPTY;
        assert(0 <= j < 9 && s[j] == BoardValue::EMPTY);
        if maximizing {
            lemma_minimax_from_range(s, maximizing, 0, i32::MIN as int);
        } else {
            lemma_minimax_from_range(s, maximizing, 0, i32::MAX as int);
        }
    }
}

/// The exhaustive minimax evaluation of `node` with `is_maximizing_player`
/// to move: no pruning, no memoization, full depth. Terminates because each
/// move fills one empty cell and there are at most 9.
pub fn minimax(node: Board, is_maximizing_player: bool) -> (r: i32)
    requires
        node.wf(),
    ensures
        r as int == spec_minimax(node@, is_maximizing_player),
        -1 <= r <= 1,
    decreases num_empty(node@),
{
    if node.is_terminal() {
        return node.heuristic_value();
    }
    let mark = if is_maximizing_player {
        BoardValue::X
    } else {
        BoardValue::O
    };
    let mut val: i32 = if is_maximizing_player {
        i32::MIN
    } else {
        i32::MAX
    };
    let mut i: usize = 0;
    while i < 9
        invariant
            node.wf(),
            i <= 9,
            !spec_terminal(node@),
            mark == spec_mark(is_maximizing_player),
            spec_minimax(node@, is_maximizing_player) == spec_minimax_from(
                node@,
                is_maximizing_player,
                i as int,
                val as int,
            ),
        decreases 9 - i,
    {
        if node.grid[i] == BoardValue::EMPTY {
            let child = node.place(i, mark);
            proof {
                lemma_count_empty_update(node@, 0, i as int, mark);
            }
            let score = minimax(child, !is_maximizing_player);
            if is_maximizing_player {
                if score > val {
                    val = score;
                }
            } else {
                if score < val {
                    val = score;
                }
            }
        }
        i += 1;
    }
    proof {
        lemma_minimax_range(node@, is_maximizing_player);
    }
    val
}

} // verus!
