//! Exact game-theoretic move selection for Tic-Tac-Toe.
//!
//! `board` holds the 3×3 grid, its cell states and the rules that look at
//! a single position: legal placements, winning lines, finished games.
//! `value` defines, in specification code only, what a position is worth
//! under perfect play. `search` is the executable negamax engine, proved to
//! compute exactly those values and to pick its placement by them. `laws`
//! states what follows for every board: the engine is deterministic, takes
//! a win where there is one, and never answers with a cell that cannot be
//! played. `symmetry` shows that turning or mirroring the board, or
//! swapping the marks, changes no value. `draw` proves that the empty
//! board is worth a draw, and `play` follows the engine through whole
//! games: playing itself from the empty board it never produces a winner.

pub mod board;
pub mod value;
pub mod search;
pub mod laws;
pub mod symmetry;
pub mod draw;
pub mod play;
