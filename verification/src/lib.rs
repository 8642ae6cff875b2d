//! Move-decision engine for a turn-based grid survival game.
//!
//! Given a board snapshot (snake bodies, food, dimensions) and the identity
//! of the searching snake, the engine returns one of the four directional
//! tokens `"up"`, `"down"`, `"left"`, `"right"`. It combines a legality
//! filter that prunes immediately fatal moves with a bounded-depth search
//! over future board states, scored by a food heuristic.

pub mod board;
pub mod filter;
pub mod laws;
pub mod search;

pub use board::{Battlesnake, Board, Coord, Dir, Game, MoveSet};
pub use filter::{attacks_opponent, filter_trivially_bad_moves, next_pos};
pub use search::{dir_to_string, end, get_move, start, SearchState};
