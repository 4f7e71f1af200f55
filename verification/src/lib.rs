//! A verified rule engine for two-player checkers on a board of 8 by 8 cells.
//!
//! The engine receives cell picks, resolves them into simple moves and
//! captures, promotes pieces, alternates turns and detects the winner.

pub mod game_events;
pub mod geometry;
pub mod layout;
pub mod pieces;
pub mod board;
pub mod rules;
pub mod game;
pub mod boardstate;
pub mod theorems;
pub mod game_machine;
pub mod screens;
