//! Verified core of a word-association guessing game: the player picks words
//! from random choices, trying to describe a target sentence without getting
//! too close to it.

pub mod error;
pub mod text;
pub mod number;
pub mod target;
pub mod choices;
pub mod session;
pub mod round;
pub mod words;
pub mod results;
pub mod guess_round;
