//! Rules engine for a multi-player hexagonal board game (a Chinese-checkers
//! variant): axial-coordinate geometry, the fixed set of legal cells with
//! their occupants, the step-by-step legality of a move (one simple step, or
//! any number of chained jumps), and turn ownership for 2-, 3- and 6-player
//! games on the same 6-way-symmetric board.

pub mod board;
pub mod coords;
pub mod player;
