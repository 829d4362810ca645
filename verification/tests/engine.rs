use wordlet::{
    GameDifficulty, GameError, GameOptions, GameStatus, GuessLetter, GuessResult, HitAccuracy,
    RowState, WordGuess,
};

fn lexicon() -> Vec<String> {
    let words = [
        "abbey", "added", "adept", "admit", "adorn", "adult", "affix", "afire", "after", "aging",
        "agony", "ahead", "grift", "haste", "heart", "hours", "larva", "laugh", "lease", "pasta",
        "preen", "slept", "sleep", "sloop", "slump", "spell",
    ];
    words.iter().map(|w| w.to_string()).collect()
}

fn game_with(answer: &str, difficulty: GameDifficulty) -> wordlet::Game {
    wordlet::Game::new(GameOptions {
        answer: Some(answer.to_string()),
        difficulty,
        dictionary: lexicon(),
    })
}

#[test]
fn test_add_guess() {
    let mut game = game_with("slump", GameDifficulty::Easy);
    game.guess("pasta");
    assert_eq!(game.guesses().len(), 1)
}

#[test]
fn test_a_guess_is_stored_correctly() {
    let mut game = game_with("haste", GameDifficulty::Easy);
    game.guess("heart");

    let spell_guess = WordGuess {
        letters: vec![
            GuessLetter { letter: 'h', accuracy: HitAccuracy::InRightPlace },
            GuessLetter { letter: 'e', accuracy: HitAccuracy::InWord },
            GuessLetter { letter: 'a', accuracy: HitAccuracy::InWord },
            GuessLetter { letter: 'r', accuracy: HitAccuracy::NotInWord },
            GuessLetter { letter: 't', accuracy: HitAccuracy::InWord },
        ],
    };
    assert_eq!(game.guesses()[0], spell_guess)
}

#[test]
fn test_letters_are_marked_in_word_until_the_count_of_letters_is_met() {
    let mut game = game_with("sleep", GameDifficulty::Easy);
    game.guess("spell");
    // we guess spell. Only one of the l's should match as InWord, because there
    // is only one l in sleep. Similarly, only one of the e's should match.

    let spell_guess = WordGuess {
        letters: vec![
            GuessLetter { letter: 's', accuracy: HitAccuracy::InRightPlace },
            GuessLetter { letter: 'p', accuracy: HitAccuracy::InWord },
            GuessLetter { letter: 'e', accuracy: HitAccuracy::InRightPlace },
            GuessLetter { letter: 'l', accuracy: HitAccuracy::InWord },
            GuessLetter { letter: 'l', accuracy: HitAccuracy::NotInWord },
        ],
    };
    assert_eq!(game.guesses()[0], spell_guess)
}

#[test]
fn test_counts_apply_to_the_in_right_place_characters_first() {
    let mut game = game_with("ahead", GameDifficulty::Easy);
    game.guess("added");
    // The guess 'added' has 3 'd' characters, but the answer only has one.
    // The 'd' char in the correct place (the last char) should be marked as in
    // the right place, and the other chars should be marked as NotInWord.

    let spell_guess = WordGuess {
        letters: vec![
            GuessLetter { letter: 'a', accuracy: HitAccuracy::InRightPlace },
            GuessLetter { letter: 'd', accuracy: HitAccuracy::NotInWord },
            GuessLetter { letter: 'd', accuracy: HitAccuracy::NotInWord },
            GuessLetter { letter: 'e', accuracy: HitAccuracy::InWord },
            GuessLetter { letter: 'd', accuracy: HitAccuracy::InRightPlace },
        ],
    };
    assert_eq!(game.guesses()[0], spell_guess)
}

#[test]
fn test_cannot_add_duplicate_guess() {
    let mut game = game_with("slump", GameDifficulty::Easy);
    game.guess("pasta");
    let (_, duplicate_guess) = game.guess("pasta");
    assert_eq!(duplicate_guess, GuessResult::DuplicateGuess);
}

#[test]
fn test_a_correct_guess_wins_the_game() {
    let mut game = game_with("slump", GameDifficulty::Easy);
    let (won_the_game, _) = game.guess("slump");
    assert_eq!(won_the_game, GameStatus::Won);
}

#[test]
fn test_a_guess_cannot_be_less_than_five_characters() {
    let mut game = game_with("slump", GameDifficulty::Easy);
    let (_, char_count_wrong) = game.guess("slp");
    assert_eq!(char_count_wrong, GuessResult::IncorrectCharacterCount);
}

#[test]
fn test_a_guess_cannot_be_more_than_five_characters() {
    let mut game = game_with("slump", GameDifficulty::Easy);
    let (_, char_count_wrong) = game.guess("slumffffp");
    assert_eq!(char_count_wrong, GuessResult::IncorrectCharacterCount);
}

#[test]
fn test_the_game_is_lost_after_six_incorrect_guesses() {
    let mut game = game_with("slump", GameDifficulty::Easy);
    game.guess("admit");
    game.guess("adorn");
    game.guess("adult");
    game.guess("affix");
    game.guess("afire");
    let (lost_the_game, _) = game.guess("after");
    assert_eq!(lost_the_game, GameStatus::Lost);
}

#[test]
fn test_cannot_add_guesses_after_the_game_is_won() {
    let mut game = game_with("slump", GameDifficulty::Easy);
    game.guess("slump");
    let (won_the_game, game_already_over) = game.guess("adept");

    assert_eq!(won_the_game, GameStatus::Won);
    assert_eq!(game_already_over, GuessResult::GameIsAlreadyOver);
}

#[test]
fn test_cannot_add_guesses_after_the_game_is_lost() {
    let mut game = game_with("slump", GameDifficulty::Easy);
    game.guess("admit");
    game.guess("adorn");
    game.guess("adult");
    game.guess("affix");
    game.guess("afire");
    game.guess("aging");

    let (lost_the_game, game_already_over) = game.guess("agony");
    assert_eq!(lost_the_game, GameStatus::Lost);
    assert_eq!(game_already_over, GuessResult::GameIsAlreadyOver);
}

#[test]
fn test_cannot_add_a_word_that_does_not_exist() {
    let mut game = game_with("slump", GameDifficulty::Easy);
    let (game_continues, invalid_word) = game.guess("djkle");
    assert_eq!(game_continues, GameStatus::InProgress);
    assert_eq!(invalid_word, GuessResult::NotInDictionary);
}

#[test]
fn test_can_get_the_answer_after_the_game_is_lost() {
    let mut game = game_with("slump", GameDifficulty::Easy);
    game.guess("admit");
    game.guess("adorn");
    game.guess("adult");
    game.guess("affix");
    game.guess("afire");

    assert_eq!(game.get_answer(), Err(GameError::GameNotLostError));
    game.guess("aging");
    assert_eq!(game.get_answer(), Ok("slump".to_string()));
}

#[test]
fn test_hard_mode_requires_guessing_letters_that_have_been_found_in_place() {
    let mut game = game_with("abbey", GameDifficulty::Hard);
    game.guess("sleep");

    let (_, required_letter) = game.guess("hours");
    assert_eq!(required_letter, GuessResult::LetterDoesNotMatch('e', 4));
}

#[test]
fn test_hard_mode_requires_guessing_letters_that_have_been_found_in_the_word() {
    let mut game = game_with("abbey", GameDifficulty::Hard);
    let (_, valid_word) = game.guess("slept");
    assert_eq!(valid_word, GuessResult::Valid);

    let (_, required_letter) = game.guess("grift");
    assert_eq!(required_letter, GuessResult::DoesNotIncludeRequiredLetter('e'));
}

#[test]
fn test_hard_mode_can_include_guesses_with_old_and_new_letters() {
    let mut game = game_with("slump", GameDifficulty::Hard);
    game.guess("sleep");

    let (game_continues, valid_word) = game.guess("sloop");
    assert_eq!(game_continues, GameStatus::InProgress);
    assert_eq!(valid_word, GuessResult::Valid);
}

#[test]
fn test_keeps_track_of_which_letters_matched() {
    let mut game = game_with("slump", GameDifficulty::Easy);
    game.guess("slept");

    assert_eq!(game.get_letter_match_state('s'), Some(HitAccuracy::InRightPlace));
    assert_eq!(game.get_letter_match_state('l'), Some(HitAccuracy::InRightPlace));
    assert_eq!(game.get_letter_match_state('e'), Some(HitAccuracy::NotInWord));
    assert_eq!(game.get_letter_match_state('p'), Some(HitAccuracy::InWord));
    assert_eq!(game.get_letter_match_state('t'), Some(HitAccuracy::NotInWord));

    assert_eq!(game.get_letter_match_state('u'), None);
    assert_eq!(game.get_letter_match_state('m'), None);
}

#[test]
fn test_letters_matches_are_not_overwritten_by_lesser_tiers() {
    let mut game = game_with("laugh", GameDifficulty::Easy);
    game.guess("larva");

    assert_eq!(game.get_letter_match_state('l'), Some(HitAccuracy::InRightPlace));
    assert_eq!(game.get_letter_match_state('a'), Some(HitAccuracy::InRightPlace));
    assert_eq!(game.get_letter_match_state('r'), Some(HitAccuracy::NotInWord));
    assert_eq!(game.get_letter_match_state('v'), Some(HitAccuracy::NotInWord));
    assert_eq!(game.get_letter_match_state('a'), Some(HitAccuracy::InRightPlace));

    assert_eq!(game.get_letter_match_state('g'), None);
    assert_eq!(game.get_letter_match_state('h'), None);
}

#[test]
fn test_letters_matches_are_not_overwritten_by_subsequent_incorrect_guesses() {
    let mut game = game_with("ahead", GameDifficulty::Easy);
    // we guess 'lease'. The first 'e' should match as InWord, and the second
    // should be NotInWord. When we ask for the letter match state, it should
    // respond with InWord.
    game.guess("lease");
    assert_eq!(game.get_letter_match_state('e'), Some(HitAccuracy::InWord));

    // now we've guessed the correct letter, so it should correct to InRightPlace
    game.guess("preen");
    assert_eq!(game.get_letter_match_state('e'), Some(HitAccuracy::InRightPlace));
}

#[test]
fn test_row_states_are_tracked_at_the_start_of_the_game() {
    let game = game_with("laugh", GameDifficulty::Easy);
    assert_eq!(
        game.row_states(),
        vec![
            RowState::Current,
            RowState::Empty,
            RowState::Empty,
            RowState::Empty,
            RowState::Empty,
            RowState::Empty
        ]
    );
}

#[test]
fn test_row_states_are_tracked_in_the_middle_of_the_game() {
    let mut game = game_with("laugh", GameDifficulty::Easy);
    game.guess("admit");

    assert_eq!(
        game.row_states(),
        vec![
            RowState::AlreadyGuessed,
            RowState::Current,
            RowState::Empty,
            RowState::Empty,
            RowState::Empty,
            RowState::Empty
        ]
    );
}

#[test]
fn test_row_states_are_tracked_when_you_win_before_the_end() {
    let mut game = game_with("laugh", GameDifficulty::Easy);
    game.guess("admit");
    game.guess("laugh");

    assert_eq!(
        game.row_states(),
        vec![
            RowState::AlreadyGuessed,
            RowState::AlreadyGuessed,
            RowState::Empty,
            RowState::Empty,
            RowState::Empty,
            RowState::Empty
        ]
    );
}

#[test]
fn test_row_states_are_tracked_at_the_end_of_the_game() {
    let mut game = game_with("laugh", GameDifficulty::Easy);
    game.guess("admit");
    game.guess("adorn");
    game.guess("adult");
    game.guess("affix");
    game.guess("afire");
    game.guess("aging");
    assert_eq!(
        game.row_states(),
        vec![
            RowState::AlreadyGuessed,
            RowState::AlreadyGuessed,
            RowState::AlreadyGuessed,
            RowState::AlreadyGuessed,
            RowState::AlreadyGuessed,
            RowState::AlreadyGuessed
        ]
    );
}
