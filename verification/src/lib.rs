//! A verified core for a Connect Four playing engine, together with the
//! job catalogue used by the surrounding economy features.
//!
//! The engine is organised bottom-up: `board` holds the 6x7 grid with move
//! validity, gravity drops and four-in-a-row detection; `game` wraps a board
//! with the side to move and the terminal status; `eval` scores a position
//! heuristically from the machine player's perspective; `search` combines
//! tactical shortcuts (immediate wins and blocks, double threats, traps, an
//! opening book) with an iterative-deepening minimax search over a
//! transposition table.

pub mod board;
pub mod eval;
pub mod game;
pub mod jobs;
pub mod search;
