//! Perfect-information tic-tac-toe: a 3x3 board model and an exhaustive
//! minimax search over it, with machine-checked contracts for terminal-state
//! detection, successor generation and the game-theoretic evaluation.

pub mod board;
pub mod boardvalue;
pub mod game;
pub mod minimax;

pub use board::Board;
pub use boardvalue::BoardValue;
pub use game::Game;
pub use game::get_computer_move;
pub use minimax::minimax;
