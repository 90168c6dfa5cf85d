use vstd::prelude::*;

verus! {

/// What occupies one cell of the grid: empty, the maximizing side's mark `X`,
/// or the minimizing side's mark `O`. A plain value, compared by equality only.
#[derive(Clone, Copy, PartialEq, Eq, Structural, Debug)]
pub enum BoardValue {
    EMPTY,
    X,
    O,
}

} // verus!
