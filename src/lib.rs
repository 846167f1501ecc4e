//! Rules and search for Ultimate Tic-Tac-Toe: a 3x3 grid of 3x3 sub-boards in which
//! the cell played selects the sub-board that the opponent must play in next.
pub mod board;
pub mod chance;
pub mod codec;
pub mod coords;
pub mod game;
pub mod piece;
pub mod search;
