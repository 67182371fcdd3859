//! Selection, breeding and bookkeeping for the evolutionary tuning of a board-game
//! agent, with the parsing of its settings and of typed move notation.

pub mod config;
pub mod evolution;
pub mod game;
pub mod moves;
pub mod selection;
