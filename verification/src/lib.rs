//! A terminal word-guessing game: a target word's letters are hidden and
//! revealed one guessed character at a time, until the word is fully
//! revealed (a win) or a fixed number of incorrect guesses is reached
//! (a loss).
//!
//! The crate holds the word model ([`word::Word`]) and the turn logic
//! ([`game::Game`]); console input and output belong to the program
//! around it.

pub mod game;
pub mod word;
