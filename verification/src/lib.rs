//! A binary-number guessing game: the rules, the puzzle generator, the
//! scoring state machine, the high-score table and the start menu, each
//! with a contract checked by Verus.

pub mod bits;
pub mod random;
pub mod text;
pub mod keys;
pub mod high_scores;
pub mod puzzle;
pub mod game;
pub mod start_menu;
pub mod app_model;
