//! The game state machine: it owns the secret answer, the guess history,
//! the difficulty, the per-letter knowledge, the confirmed columns and the
//! derived row display states, and accepts guesses through `guess`.

use vstd::prelude::*;
use vstd::string::StrSliceExecFns;

use crate::registry::{lemma_registry_never_downgrades, merge_letters, LetterRegistry};
use crate::scoring::{lemma_score_seq_index, score_guess, score_seq};
use crate::types::{
    accuracy_rank, spec_word, GameDifficulty, GameError, GameOptions, GameStatus, GuessResult,
    HitAccuracy, RowState, WordGuess,
};
use crate::words::{get_random_word, str_contains_char, str_eq};

verus! {

broadcast use lemma_score_seq_index;

/// Whether `w` is one of the dictionary's words.
pub open spec fn dict_has(dict: Seq<String>, w: Seq<char>) -> bool {
    exists|j: int| 0 <= j < dict.len() && (#[trigger] dict[j])@ == w
}

/// Whether `w` was already guessed.
pub open spec fn already_guessed(history: Seq<WordGuess>, w: Seq<char>) -> bool {
    exists|k: int| 0 <= k < history.len() && spec_word(#[trigger] history[k]) == w
}

/// Whether some accepted guess matched the answer at column `i`.
pub open spec fn column_confirmed(history: Seq<WordGuess>, ans: Seq<char>, i: int) -> bool {
    exists|k: int| 0 <= k < history.len() && spec_word(#[trigger] history[k])[i] == ans[i]
}

/// Whether every stored guess carries exactly the accuracies that scoring
/// its word against the answer yields.
pub open spec fn history_scored(history: Seq<WordGuess>, ans: Seq<char>) -> bool {
    forall|k: int|
        0 <= k < history.len() ==> {
            &&& spec_word(#[trigger] history[k]).len() == 5
            &&& history[k].letters@ == score_seq(ans, spec_word(history[k]))
        }
}

/// Whether the registry shows the letter present in the answer.
pub open spec fn spec_uncovered(m: Map<char, HitAccuracy>, c: char) -> bool {
    m.contains_key(c) && m[c] != HitAccuracy::NotInWord
}

/// The leftmost confirmed column at or after `i` where the guess departs
/// from the answer.
pub open spec fn first_position_mismatch(
    cp: Seq<bool>,
    ans: Seq<char>,
    w: Seq<char>,
    i: int,
) -> Option<int>
    decreases ans.len() - i,
{
    if i < 0 || i >= ans.len() {
        None
    } else if cp[i] && w[i] != ans[i] {
        Some(i)
    } else {
        first_position_mismatch(cp, ans, w, i + 1)
    }
}

/// The first answer position at or after `i` whose uncovered letter the
/// guess omits entirely.
pub open spec fn first_missing_required(
    m: Map<char, HitAccuracy>,
    ans: Seq<char>,
    w: Seq<char>,
    i: int,
) -> Option<int>
    decreases ans.len() - i,
{
    if i < 0 || i >= ans.len() {
        None
    } else if spec_uncovered(m, ans[i]) && !w.contains(ans[i]) {
        Some(i)
    } else {
        first_missing_required(m, ans, w, i + 1)
    }
}

/// The status an accepted guess leaves behind, from the new guess count and
/// whether the guess hit the answer.
pub open spec fn status_after(count: int, won: bool) -> GameStatus {
    if won {
        GameStatus::Won
    } else if count == 6 {
        GameStatus::Lost
    } else {
        GameStatus::InProgress
    }
}

/// The display state row `i` takes when `n` guesses were accepted and the
/// game stands at `status`.
pub open spec fn row_state_at(n: int, status: GameStatus, i: int) -> RowState {
    if n == 6 {
        RowState::AlreadyGuessed
    } else if i < n {
        RowState::AlreadyGuessed
    } else if i == n {
        if status is Won {
            RowState::Empty
        } else {
            RowState::Current
        }
    } else {
        RowState::Empty
    }
}

/// Row display law: rows below the guess count are already guessed; while
/// the game is neither won nor out of rows, exactly the next row is current;
/// rows beyond that are empty; and once the game is won no row is current.
pub proof fn lemma_row_states_shape(n: int, status: GameStatus)
    requires
        0 <= n <= 6,
    ensures
        forall|i: int| 0 <= i < n ==> row_state_at(n, status, i) == RowState::AlreadyGuessed,
        n < 6 && !(status is Won) ==> row_state_at(n, status, n) == RowState::Current,
        n < 6 ==> forall|i: int| n < i < 6 ==> row_state_at(n, status, i) == RowState::Empty,
        n < 6 && status is Won ==> row_state_at(n, status, n) == RowState::Empty,
        status is Won ==> forall|i: int| 0 <= i < 6 ==> row_state_at(n, status, i)
            != RowState::Current,
{
}

/// Knowledge never downgrades across submissions: a letter already in the
/// registry before a guess is still there afterwards, with at least the
/// rank it had, even when the new guess scores that letter lower.
pub proof fn lemma_game_knowledge_monotonic(pre: Game, post: Game, w: Seq<char>, c: char)
    requires
        pre.spec_knowledge().contains_key(c),
        post.spec_knowledge() == merge_letters(
            pre.spec_knowledge(),
            score_seq(pre.spec_answer(), w),
        ),
    ensures
        post.spec_knowledge().contains_key(c),
        accuracy_rank(post.spec_knowledge()[c]) >= accuracy_rank(pre.spec_knowledge()[c]),
{
    lemma_registry_never_downgrades(pre.spec_knowledge(), score_seq(pre.spec_answer(), w), c);
}

/// The verdict the game reaches on the word `w`, given the state it stood
/// in before the submission. The checks apply in this order, and the first
/// failure wins.
pub open spec fn guess_outcome(game: Game, w: Seq<char>) -> GuessResult {
    if !(game.spec_status() is InProgress) {
        GuessResult::GameIsAlreadyOver
    } else if w.len() != 5 {
        GuessResult::IncorrectCharacterCount
    } else if already_guessed(game.spec_guesses(), w) {
        GuessResult::DuplicateGuess
    } else if !dict_has(game.spec_dictionary(), w) {
        GuessResult::NotInDictionary
    } else if game.spec_difficulty() is Hard {
        match first_position_mismatch(game.spec_positions(), game.spec_answer(), w, 0) {
            Some(i) => GuessResult::LetterDoesNotMatch(game.spec_answer()[i], (i + 1) as usize),
            None => match first_missing_required(
                game.spec_knowledge(),
                game.spec_answer(),
                w,
                0,
            ) {
                Some(j) => GuessResult::DoesNotIncludeRequiredLetter(game.spec_answer()[j]),
                None => GuessResult::Valid,
            },
        }
    } else {
        GuessResult::Valid
    }
}

/// One game: the secret answer, the history of scored guesses, and every
/// piece of state the queries derive from them.
pub struct Game {
    guesses: Vec<WordGuess>,
    answer: String,
    difficulty: GameDifficulty,
    game_status: GameStatus,
    correct_positions: Vec<bool>,
    dictionary: Vec<String>,
    played_letters: LetterRegistry,
    row_states: Vec<RowState>,
}

impl Game {
    /// The game's status.
    pub closed spec fn spec_status(&self) -> GameStatus {
        self.game_status
    }

    /// The secret answer's characters.
    pub closed spec fn spec_answer(&self) -> Seq<char> {
        self.answer@
    }

    /// The accepted guesses, in order.
    pub closed spec fn spec_guesses(&self) -> Seq<WordGuess> {
        self.guesses@
    }

    /// The difficulty the game was created with.
    pub closed spec fn spec_difficulty(&self) -> GameDifficulty {
        self.difficulty
    }

    /// Which of the five columns some guess already confirmed.
    pub closed spec fn spec_positions(&self) -> Seq<bool> {
        self.correct_positions@
    }

    /// The valid words the game accepts.
    pub closed spec fn spec_dictionary(&self) -> Seq<String> {
        self.dictionary@
    }

    /// The best accuracy recorded for each played letter.
    pub closed spec fn spec_knowledge(&self) -> Map<char, HitAccuracy> {
        self.played_letters@
    }

    /// The six row display states.
    pub closed spec fn spec_rows(&self) -> Seq<RowState> {
        self.row_states@
    }

    /// The registry's own internal invariant.
    pub closed spec fn knowledge_wf(&self) -> bool {
        self.played_letters.wf()
    }

    /// The game's invariant: the answer has five letters, at most six
    /// guesses are stored and each is stored fully scored, the status is
    /// `Won` exactly when some guess hit the answer and `Lost` exactly when
    /// all six rows are used without a hit, the confirmed columns are
    /// exactly those some guess matched, and the row states are the ones the
    /// guess count and status determine.
    pub open spec fn wf(&self) -> bool {
        &&& self.spec_answer().len() == 5
        &&& self.spec_guesses().len() <= 6
        &&& history_scored(self.spec_guesses(), self.spec_answer())
        &&& (self.spec_status() is Won <==> already_guessed(
            self.spec_guesses(),
            self.spec_answer(),
        ))
        &&& (self.spec_status() is Lost <==> (self.spec_guesses().len() == 6
            && !already_guessed(self.spec_guesses(), self.spec_answer())))
        &&& self.spec_positions().len() == 5
        &&& (forall|i: int|
            0 <= i < 5 ==> ((#[trigger] self.spec_positions()[i]) <==> column_confirmed(
                self.spec_guesses(),
                self.spec_answer(),
                i,
            )))
        &&& self.spec_rows().len() == 6
        &&& (forall|i: int|
            0 <= i < 6 ==> (#[trigger] self.spec_rows()[i]) == row_state_at(
                self.spec_guesses().len() as int,
                self.spec_status(),
                i,
            ))
        &&& self.knowledge_wf()
    }

    /// Builds a game from its options: an explicit five-letter answer, or a
    /// random word from the dictionary when none is given.
    pub fn new(args: GameOptions) -> (g: Game)
        requires
            args.answer matches Some(a) ==> a@.len() == 5,
            args.answer is None ==> args.dictionary@.len() > 0,
            args.answer is None ==> forall|i: int|
                0 <= i < args.dictionary@.len() ==> (#[trigger] args.dictionary@[i])@.len() == 5,
        ensures
            g.wf(),
            g.spec_status() is InProgress,
            g.spec_guesses().len() == 0,
            g.spec_knowledge() == Map::<char, HitAccuracy>::empty(),
            forall|i: int| 0 <= i < 5 ==> !(#[trigger] g.spec_positions()[i]),
            g.spec_difficulty() == args.difficulty,
            g.spec_dictionary() == args.dictionary@,
            args.answer matches Some(a) ==> g.spec_answer() == a@,
            args.answer is None ==> dict_has(args.dictionary@, g.spec_answer()),
    {
        let GameOptions { answer, difficulty, dictionary } = args;
        let answer_word: String = match answer {
            Some(a) => a,
            None => get_random_word(&dictionary),
        };
        let mut positions: Vec<bool> = Vec::new();
        let mut k: usize = 0;
        while k < 5
            invariant
                k <= 5,
                positions@.len() == k,
                forall|i: int| 0 <= i < k ==> !(#[trigger] positions@[i]),
            decreases 5 - k,
        {
            positions.push(false);
            k += 1;
        }
        let mut rows: Vec<RowState> = Vec::new();
        rows.push(RowState::Current);
        let mut k: usize = 0;
        while k < 5
            invariant
                k <= 5,
                rows@.len() == k + 1,
                rows@[0] == RowState::Current,
                forall|i: int| 1 <= i < k + 1 ==> rows@[i] == RowState::Empty,
            decreases 5 - k,
        {
            rows.push(RowState::Empty);
            k += 1;
        }
        let g = Game {
            guesses: Vec::new(),
            answer: answer_word,
            difficulty,
            game_status: GameStatus::InProgress,
            correct_positions: positions,
            dictionary,
            played_letters: LetterRegistry::new(),
            row_states: rows,
        };
        proof {
            assert(!already_guessed(g.spec_guesses(), g.spec_answer()));
            assert forall|i: int| 0 <= i < 6 implies (#[trigger] g.spec_rows()[i]) == row_state_at(
                0,
                GameStatus::InProgress,
                i,
            ) by {}
            assert forall|i: int| 0 <= i < 5 implies !(#[trigger] g.spec_positions()[i])
                && !column_confirmed(g.spec_guesses(), g.spec_answer(), i) by {}
        }
        g
    }

    /// The game's status.
    pub fn game_status(&self) -> (r: GameStatus)
        ensures
            r == self.spec_status(),
    {
        self.game_status
    }

    /// The answer, revealed only once the game is lost; any earlier call
    /// fails instead of leaking it.
    pub fn get_answer(&self) -> (r: Result<String, GameError>)
        ensures
            match r {
                Ok(a) => self.spec_status() is Lost && a@ == self.spec_answer(),
                Err(e) => !(self.spec_status() is Lost) && e == GameError::GameNotLostError,
            },
    {
        if self.game_status == GameStatus::Lost {
            Ok(self.answer.clone())
        } else {
            Err(GameError::GameNotLostError)
        }
    }

    /// The accepted guesses, in order.
    pub fn guesses(&self) -> (r: &[WordGuess])
        ensures
            r@ == self.spec_guesses(),
    {
        self.guesses.as_slice()
    }

    /// Whether the word is in the dictionary.
    fn in_dictionary(&self, word: &str) -> (r: bool)
        ensures
            r == dict_has(self.dictionary@, word@),
    {
        let mut j: usize = 0;
        while j < self.dictionary.len()
            invariant
                j <= self.dictionary@.len(),
                forall|t: int| 0 <= t < j ==> (#[trigger] self.dictionary@[t])@ != word@,
            decreases self.dictionary@.len() - j,
        {
            if str_eq(self.dictionary[j].as_str(), word) {
                return true;
            }
            j += 1;
        }
        false
    }

    /// The answer's character at a column.
    fn answer_char_at_index(&self, index: usize) -> (c: char)
        requires
            index < self.answer@.len(),
        ensures
            c == self.answer@[index as int],
    {
        self.answer.as_str().get_char(index)
    }

    /// Whether a letter equals the answer's character at a column.
    fn matches_answer_at_index(&self, index: usize, letter: char) -> (r: bool)
        requires
            index < self.answer@.len(),
        ensures
            r == (letter == self.answer@[index as int]),
    {
        letter == self.answer_char_at_index(index)
    }

    /// Rebuilds the six row display states from the guess count and status.
    #[verifier::loop_isolation(false)]
    fn recalculate_row_states(&mut self)
        requires
            old(self).guesses@.len() <= 6,
        ensures
            final (self).guesses == old(self).guesses,
            final (self).answer == old(self).answer,
            final (self).difficulty == old(self).difficulty,
            final (self).game_status == old(self).game_status,
            final (self).correct_positions == old(self).correct_positions,
            final (self).dictionary == old(self).dictionary,
            final (self).played_letters == old(self).played_letters,
            final (self).row_states@.len() == 6,
            forall|i: int|
                0 <= i < 6 ==> (#[trigger] final (self).row_states@[i]) == row_state_at(
                    old(self).guesses@.len() as int,
                    old(self).game_status,
                    i,
                ),
    {
        let n = self.guesses.len();
        let mut rows: Vec<RowState> = Vec::new();
        let mut idx: usize = 0;
        while idx < 6
            invariant
                idx <= 6,
                rows@.len() == idx,
                forall|i: int|
                    0 <= i < idx ==> (#[trigger] rows@[i]) == row_state_at(
                        n as int,
                        self.game_status,
                        i,
                    ),
            decreases 6 - idx,
        {
            let state = if n == 6 {
                RowState::AlreadyGuessed
            } else if idx < n {
                RowState::AlreadyGuessed
            } else if idx == n {
                if self.game_status == GameStatus::Won {
                    RowState::Empty
                } else {
                    RowState::Current
                }
            } else {
                RowState::Empty
            };
            rows.push(state);
            idx += 1;
        }
        self.row_states = rows;
    }

    /// Folds one scored guess into the knowledge registry, letter by
    /// letter, upgrading entries and never downgrading them.
    #[verifier::loop_isolation(false)]
    fn recalculate_played_letter_registry(&mut self, guess: &WordGuess)
        requires
            old(self).played_letters.wf(),
        ensures
            final (self).guesses == old(self).guesses,
            final (self).answer == old(self).answer,
            final (self).difficulty == old(self).difficulty,
            final (self).game_status == old(self).game_status,
            final (self).correct_positions == old(self).correct_positions,
            final (self).dictionary == old(self).dictionary,
            final (self).row_states == old(self).row_states,
            final (self).played_letters.wf(),
            final (self).played_letters@ == merge_letters(
                old(self).played_letters@,
                guess.letters@,
            ),
    {
        let ghost all = guess.letters@;
        proof {
            assert(all.skip(0) =~= all);
        }
        let mut i: usize = 0;
        while i < guess.letters.len()
            invariant
                i <= all.len(),
                self.guesses == old(self).guesses,
                self.answer == old(self).answer,
                self.difficulty == old(self).difficulty,
                self.game_status == old(self).game_status,
                self.correct_positions == old(self).correct_positions,
                self.dictionary == old(self).dictionary,
                self.row_states == old(self).row_states,
                self.played_letters.wf(),
                merge_letters(old(self).played_letters@, all) == merge_letters(
                    self.played_letters@,
                    all.skip(i as int),
                ),
            decreases all.len() - i,
        {
            let gl = guess.letters[i];
            proof {
                assert(all.skip(i as int)[0] == all[i as int]);
                assert(all.skip(i as int).drop_first() =~= all.skip(i + 1));
            }
            self.played_letters.record(gl);
            i += 1;
        }
        proof {
            assert(all.skip(all.len() as int) =~= Seq::<crate::types::GuessLetter>::empty());
        }
    }

    /// Marks every column where the guess matched the answer as confirmed.
    #[verifier::loop_isolation(false)]
    fn record_correct_positions(&mut self, guess_input: &str)
        requires
            old(self).correct_positions@.len() == 5,
            old(self).answer@.len() == 5,
            guess_input@.len() == 5,
        ensures
            final (self).guesses == old(self).guesses,
            final (self).answer == old(self).answer,
            final (self).difficulty == old(self).difficulty,
            final (self).game_status == old(self).game_status,
            final (self).dictionary == old(self).dictionary,
            final (self).played_letters == old(self).played_letters,
            final (self).row_states == old(self).row_states,
            final (self).correct_positions@.len() == 5,
            forall|i: int|
                0 <= i < 5 ==> (#[trigger] final (self).correct_positions@[i]) == (old(
                    self,
                ).correct_positions@[i] || guess_input@[i] == old(self).answer@[i]),
    {
        let mut idx: usize = 0;
        while idx < 5
            invariant
                idx <= 5,
                self.guesses == old(self).guesses,
                self.answer == old(self).answer,
                self.difficulty == old(self).difficulty,
                self.game_status == old(self).game_status,
                self.dictionary == old(self).dictionary,
                self.played_letters == old(self).played_letters,
                self.row_states == old(self).row_states,
                self.correct_positions@.len() == 5,
                forall|i: int|
                    0 <= i < idx ==> (#[trigger] self.correct_positions@[i]) == (old(
                        self,
                    ).correct_positions@[i] || guess_input@[i] == old(self).answer@[i]),
                forall|i: int|
                    idx <= i < 5 ==> (#[trigger] self.correct_positions@[i]) == old(
                        self,
                    ).correct_positions@[i],
            decreases 5 - idx,
        {
            let c = guess_input.get_char(idx);
            if self.matches_answer_at_index(idx, c) {
                self.correct_positions.set(idx, true);
            }
            idx += 1;
        }
    }

    /// Whether the word was guessed before, letter for letter.
    fn guess_already_exists(&self, guess_input: &str) -> (r: bool)
        ensures
            r == already_guessed(self.guesses@, guess_input@),
    {
        let mut k: usize = 0;
        while k < self.guesses.len()
            invariant
                k <= self.guesses@.len(),
                forall|t: int|
                    0 <= t < k ==> spec_word(#[trigger] self.guesses@[t]) != guess_input@,
            decreases self.guesses@.len() - k,
        {
            let w = self.guesses[k].word();
            if str_eq(w.as_str(), guess_input) {
                return true;
            }
            k += 1;
        }
        false
    }

    /// Submits one guess. Rejections leave the state untouched and say why;
    /// an accepted guess is scored, appended to the history, folded into the
    /// knowledge registry and the confirmed columns, and moves the status to
    /// `Won` on a hit or to `Lost` when the sixth guess misses.
    #[verifier::loop_isolation(false)]
    pub fn guess(&mut self, guess_input: &str) -> (r: (GameStatus, GuessResult))
        requires
            old(self).wf(),
        ensures
            final (self).wf(),
            final (self).spec_answer() == old(self).spec_answer(),
            final (self).spec_difficulty() == old(self).spec_difficulty(),
            final (self).spec_dictionary() == old(self).spec_dictionary(),
            r.1 == guess_outcome(*old(self), guess_input@),
            r.0 == final (self).spec_status(),
            !(r.1 is Valid) ==> *final (self) == *old(self),
            r.1 is Valid ==> {
                &&& final (self).spec_guesses().len() == old(self).spec_guesses().len() + 1
                &&& (forall|k: int|
                    0 <= k < old(self).spec_guesses().len() ==> #[trigger] final (self).spec_guesses()[k]
                        == old(self).spec_guesses()[k])
                &&& final (self).spec_guesses().last().letters@ == score_seq(
                    old(self).spec_answer(),
                    guess_input@,
                )
                &&& spec_word(final (self).spec_guesses().last()) == guess_input@
                &&& final (self).spec_knowledge() == merge_letters(
                    old(self).spec_knowledge(),
                    score_seq(old(self).spec_answer(), guess_input@),
                )
                &&& (forall|i: int|
                    0 <= i < 5 ==> (#[trigger] final (self).spec_positions()[i])
                        == (old(self).spec_positions()[i] || guess_input@[i]
                            == old(self).spec_answer()[i]))
                &&& final (self).spec_status() == status_after(
                    old(self).spec_guesses().len() as int + 1,
                    guess_input@ == old(self).spec_answer(),
                )
            },
    {
        if self.game_status == GameStatus::Won || self.game_status == GameStatus::Lost {
            return (self.game_status, GuessResult::GameIsAlreadyOver);
        }
        if guess_input.unicode_len() != 5 {
            return (self.game_status, GuessResult::IncorrectCharacterCount);
        }
        if self.guess_already_exists(guess_input) {
            return (self.game_status, GuessResult::DuplicateGuess);
        }
        if !self.in_dictionary(guess_input) {
            return (self.game_status, GuessResult::NotInDictionary);
        }
        if self.difficulty == GameDifficulty::Hard {
            let ghost cp = self.correct_positions@;
            let ghost ans = self.answer@;
            let ghost w = guess_input@;
            let mut idx: usize = 0;
            while idx < 5
                invariant
                    idx <= 5,
                    first_position_mismatch(cp, ans, w, 0) == first_position_mismatch(
                        cp,
                        ans,
                        w,
                        idx as int,
                    ),
                decreases 5 - idx,
            {
                if self.correct_positions[idx] {
                    let expected = self.answer_char_at_index(idx);
                    if guess_input.get_char(idx) != expected {
                        proof {
                            assert(first_position_mismatch(cp, ans, w, idx as int) == Some(
                                idx as int,
                            ));
                        }
                        return (
                            self.game_status,
                            GuessResult::LetterDoesNotMatch(expected, idx + 1),
                        );
                    }
                }
                proof {
                    assert(first_position_mismatch(cp, ans, w, idx as int)
                        == first_position_mismatch(cp, ans, w, idx + 1));
                }
                idx += 1;
            }
            proof {
                assert(first_position_mismatch(cp, ans, w, 0) is None);
            }
            let ghost m = self.played_letters@;
            let mut idx: usize = 0;
            while idx < 5
                invariant
                    idx <= 5,
                    first_missing_required(m, ans, w, 0) == first_missing_required(
                        m,
                        ans,
                        w,
                        idx as int,
                    ),
                decreases 5 - idx,
            {
                let letter = self.answer_char_at_index(idx);
                if self.is_letter_uncovered(letter) {
                    if !str_contains_char(guess_input, letter) {
                        proof {
                            assert(first_missing_required(m, ans, w, idx as int) == Some(
                                idx as int,
                            ));
                        }
                        return (
                            self.game_status,
                            GuessResult::DoesNotIncludeRequiredLetter(letter),
                        );
                    }
                }
                proof {
                    assert(first_missing_required(m, ans, w, idx as int) == first_missing_required(
                        m,
                        ans,
                        w,
                        idx + 1,
                    ));
                }
                idx += 1;
            }
            proof {
                assert(first_missing_required(m, ans, w, 0) is None);
            }
        }
        let ghost pre = *old(self);
        let ghost w = guess_input@;
        let ghost ans = self.answer@;
        let ghost n0 = self.guesses@.len() as int;
        proof {
            if n0 == 6 {
                assert(pre.spec_status() is Lost);
                assert(false);
            }
        }
        let scored = score_guess(self.answer.as_str(), guess_input);
        self.recalculate_played_letter_registry(&scored);
        self.record_correct_positions(guess_input);
        self.guesses.push(scored);
        let won = str_eq(guess_input, self.answer.as_str());
        if won {
            self.game_status = GameStatus::Won;
        }
        self.recalculate_row_states();
        proof {
            assert(self.guesses@.len() == n0 + 1);
            assert(self.guesses@[n0] == scored);
            assert(spec_word(self.guesses@[n0]) == w);
            assert forall|k: int| 0 <= k < n0 implies #[trigger] self.guesses@[k]
                == pre.spec_guesses()[k] by {}
            assert(history_scored(self.spec_guesses(), self.spec_answer()));
            if won {
                assert(already_guessed(self.spec_guesses(), ans));
            } else {
                assert forall|k: int|
                    0 <= k < self.guesses@.len() implies spec_word(#[trigger] self.guesses@[k])
                    != ans by {
                    if k < n0 {
                        assert(!already_guessed(pre.spec_guesses(), ans));
                        assert(self.guesses@[k] == pre.spec_guesses()[k]);
                    }
                }
                assert(!already_guessed(self.spec_guesses(), ans));
            }
            assert forall|i: int|
                0 <= i < 5 implies ((#[trigger] self.correct_positions@[i]) <==> column_confirmed(
                self.spec_guesses(),
                ans,
                i,
            )) by {
                if self.correct_positions@[i] {
                    if pre.spec_positions()[i] {
                        assert(column_confirmed(pre.spec_guesses(), ans, i));
                        let k = choose|k: int|
                            0 <= k < pre.spec_guesses().len() && spec_word(
                                #[trigger] pre.spec_guesses()[k],
                            )[i] == ans[i];
                        assert(spec_word(self.guesses@[k])[i] == ans[i]);
                    } else {
                        assert(spec_word(self.guesses@[n0])[i] == ans[i]);
                    }
                } else {
                    assert(!pre.spec_positions()[i] && w[i] != ans[i]);
                    assert forall|k: int|
                        0 <= k < self.guesses@.len() implies spec_word(
                        #[trigger] self.guesses@[k],
                    )[i] != ans[i] by {
                        if k < n0 {
                            assert(!column_confirmed(pre.spec_guesses(), ans, i));
                            assert(self.guesses@[k] == pre.spec_guesses()[k]);
                        }
                    }
                }
            }
        }
        if self.game_status == GameStatus::Won {
            return (self.game_status, GuessResult::Valid);
        }
        if self.guesses.len() == 6 {
            self.game_status = GameStatus::Lost;
            proof {
                assert forall|i: int|
                    0 <= i < 6 implies (#[trigger] self.row_states@[i]) == row_state_at(
                    self.guesses@.len() as int,
                    self.game_status,
                    i,
                ) by {}
            }
        }
        (self.game_status, GuessResult::Valid)
    }

    /// The six row display states, freshly copied.
    pub fn row_states(&self) -> (r: Vec<RowState>)
        ensures
            r@ == self.spec_rows(),
    {
        let mut rows: Vec<RowState> = Vec::new();
        let mut idx: usize = 0;
        while idx < self.row_states.len()
            invariant
                idx <= self.row_states@.len(),
                rows@.len() == idx,
                forall|i: int| 0 <= i < idx ==> rows@[i] == self.row_states@[i],
            decreases self.row_states@.len() - idx,
        {
            rows.push(self.row_states[idx]);
            idx += 1;
        }
        proof {
            assert(rows@ =~= self.row_states@);
        }
        rows
    }

    /// Whether the registry shows the letter present in the answer: its
    /// recorded accuracy is `InWord` or better.
    pub fn is_letter_uncovered(&self, letter: char) -> (r: bool)
        requires
            self.wf(),
        ensures
            r == spec_uncovered(self.spec_knowledge(), letter),
    {
        match self.get_letter_match_state(letter) {
            None => false,
            Some(HitAccuracy::NotInWord) => false,
            Some(_) => true,
        }
    }

    /// The best accuracy recorded for a letter, if it was ever played.
    pub fn get_letter_match_state(&self, letter: char) -> (r: Option<HitAccuracy>)
        requires
            self.wf(),
        ensures
            r == if self.spec_knowledge().contains_key(letter) {
                Some(self.spec_knowledge()[letter])
            } else {
                None::<HitAccuracy>
            },
    {
        self.played_letters.get(letter)
    }
}

} // verus!
