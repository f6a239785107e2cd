//! A two-player Tic-Tac-Toe engine.
//!
//! The engine owns the board and the turn, validates and applies moves, detects
//! wins and draws, and plays a fixed-priority heuristic opponent. Every function
//! carries a contract over the spec functions of [`rules`].

mod chance;
pub mod game;
pub mod rules;
pub mod strategy;
pub mod theorems;

pub use game::{Board, ErrorKind, Game, GameStatus, Player};
