//! A word-guessing game engine: a secret five-letter answer, up to six
//! guesses, per-letter accuracy scoring with correct handling of repeated
//! letters, a hard mode that carries earlier discoveries forward, a monotonic
//! per-letter knowledge registry, and derived row display states.

mod counts;
mod game;
mod registry;
mod scoring;
mod types;
mod words;

pub use counts::{build_letter_counts, LetterCounts};
pub use game::Game;
pub use registry::LetterRegistry;
pub use types::{
    GameDifficulty, GameError, GameOptions, GameStatus, GuessLetter, GuessResult, HitAccuracy,
    RowState, WordGuess,
};
pub use words::get_random_word;
