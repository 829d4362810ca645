//! The game's data types: statuses, difficulties, per-letter accuracies,
//! scored guesses, construction options, and error values.

use vstd::prelude::*;

use crate::words::push_char;

verus! {

/// Whether a game is still accepting guesses or has ended in a win or a loss.
/// `InProgress` is the initial state; `Won` and `Lost` are terminal.
#[derive(Copy, Clone, Debug, PartialEq, Eq, Structural)]
pub enum GameStatus {
    Won,
    InProgress,
    Lost,
}

/// The outcome of submitting one guess. `Valid` means the guess was accepted
/// and scored; every other variant reports why it was rejected, with no
/// change to the game's state.
#[derive(Copy, Clone, Debug, PartialEq, Eq, Structural)]
pub enum GuessResult {
    DoesNotIncludeRequiredLetter(char),
    LetterDoesNotMatch(char, usize),
    DuplicateGuess,
    GameIsAlreadyOver,
    IncorrectCharacterCount,
    NotInDictionary,
    Valid,
}

/// How accurately one guessed letter matches the answer: in the right place,
/// elsewhere in the word, or absent.
#[derive(Copy, Clone, Debug, PartialEq, Eq, Structural)]
pub enum HitAccuracy {
    InRightPlace,
    InWord,
    NotInWord,
}

/// The strength ordering on accuracies: `NotInWord` < `InWord` <
/// `InRightPlace`. The knowledge registry only ever replaces an entry by one
/// of strictly higher rank.
pub open spec fn accuracy_rank(a: HitAccuracy) -> int {
    match a {
        HitAccuracy::NotInWord => 0,
        HitAccuracy::InWord => 1,
        HitAccuracy::InRightPlace => 2,
    }
}

/// The game's difficulty. `Hard` adds the constraint that every guess must
/// repeat confirmed letters.
#[derive(Copy, Clone, Debug, PartialEq, Eq, Structural)]
pub enum GameDifficulty {
    Easy,
    Hard,
}

/// The display state of one of the six guess rows.
#[derive(Copy, Clone, Debug, PartialEq, Eq, Structural)]
pub enum RowState {
    Empty,
    Current,
    AlreadyGuessed,
}

/// Why a query failed: the answer is only revealed once the game is lost.
#[derive(Copy, Clone, Debug, PartialEq, Eq, Structural)]
pub enum GameError {
    GameNotLostError,
}

/// One letter of a scored guess: the character itself and how accurately it
/// matched the answer.
#[derive(Copy, Clone, Debug, PartialEq, Eq, Structural)]
pub struct GuessLetter {
    pub letter: char,
    pub accuracy: HitAccuracy,
}

/// A fully scored guess: exactly five letters, each with its accuracy.
#[derive(Debug, PartialEq)]
pub struct WordGuess {
    pub letters: Vec<GuessLetter>,
}

/// The characters of a scored guess, in order.
pub open spec fn spec_word(wg: WordGuess) -> Seq<char> {
    Seq::new(wg.letters@.len(), |i: int| wg.letters@[i].letter)
}

impl WordGuess {
    /// The guessed word as a string.
    pub fn word(&self) -> (w: String)
        ensures
            w@ == spec_word(*self),
    {
        let mut w = String::new();
        let mut i: usize = 0;
        while i < self.letters.len()
            invariant
                i <= self.letters@.len(),
                w@ == spec_word(*self).take(i as int),
            decreases self.letters@.len() - i,
        {
            push_char(&mut w, self.letters[i].letter);
            proof {
                assert(spec_word(*self).take(i + 1) =~= spec_word(*self).take(i as int).push(
                    self.letters@[i as int].letter,
                ));
            }
            i += 1;
        }
        proof {
            assert(spec_word(*self).take(self.letters@.len() as int) =~= spec_word(*self));
        }
        w
    }

    /// The scored letters, in guess order.
    pub fn letters(&self) -> (ls: &[GuessLetter])
        ensures
            ls@ == self.letters@,
    {
        self.letters.as_slice()
    }
}

/// How to construct a game: an explicit answer (or a random pick from the
/// dictionary when absent), the difficulty, and the set of valid words.
pub struct GameOptions {
    pub answer: Option<String>,
    pub difficulty: GameDifficulty,
    pub dictionary: Vec<String>,
}

impl Default for GameOptions {
    fn default() -> (d: GameOptions)
        ensures
            d.answer is None,
            d.difficulty == GameDifficulty::Easy,
            d.dictionary@ == Seq::<String>::empty(),
    {
        GameOptions { answer: None, difficulty: GameDifficulty::Easy, dictionary: Vec::new() }
    }
}

} // verus!
