use wordlet::{
    build_letter_counts, get_random_word, GameDifficulty, GameOptions, GameStatus, GuessResult,
    HitAccuracy, RowState,
};

fn words(list: &[&str]) -> Vec<String> {
    list.iter().map(|w| w.to_string()).collect()
}

fn game_with_words(answer: &str, difficulty: GameDifficulty, list: &[&str]) -> wordlet::Game {
    wordlet::Game::new(GameOptions {
        answer: Some(answer.to_string()),
        difficulty,
        dictionary: words(list),
    })
}

#[test]
fn winning_guess_scores_every_letter_in_right_place() {
    let mut game = game_with_words("slump", GameDifficulty::Easy, &["slump"]);
    let (status, result) = game.guess("slump");
    assert_eq!(status, GameStatus::Won);
    assert_eq!(result, GuessResult::Valid);
    for gl in game.guesses()[0].letters() {
        assert_eq!(gl.accuracy, HitAccuracy::InRightPlace);
    }
}

#[test]
fn repeated_letter_marks_never_exceed_answer_occurrences() {
    // "eeeee" holds five e's but "sleep" holds only two, both matched exactly.
    let mut game = game_with_words("sleep", GameDifficulty::Easy, &["eeeee"]);
    game.guess("eeeee");
    let letters = game.guesses()[0].letters().to_vec();
    let hits = letters
        .iter()
        .filter(|gl| gl.letter == 'e' && gl.accuracy != HitAccuracy::NotInWord)
        .count();
    assert_eq!(hits, 2);
    assert_eq!(letters[2].accuracy, HitAccuracy::InRightPlace);
    assert_eq!(letters[3].accuracy, HitAccuracy::InRightPlace);
    assert_eq!(letters[0].accuracy, HitAccuracy::NotInWord);
    assert_eq!(letters[1].accuracy, HitAccuracy::NotInWord);
    assert_eq!(letters[4].accuracy, HitAccuracy::NotInWord);
}

#[test]
fn knowledge_keeps_best_accuracy_across_guesses() {
    let mut game = game_with_words("slump", GameDifficulty::Easy, &["slept", "pasta"]);
    game.guess("slept");
    assert_eq!(game.get_letter_match_state('s'), Some(HitAccuracy::InRightPlace));
    // "pasta" scores its 's' as merely present; the registry must keep the
    // stronger InRightPlace from the earlier guess.
    game.guess("pasta");
    assert_eq!(game.get_letter_match_state('s'), Some(HitAccuracy::InRightPlace));
}

#[test]
fn answer_is_not_revealed_after_a_win() {
    let mut game = game_with_words("slump", GameDifficulty::Easy, &["slump"]);
    game.guess("slump");
    assert!(game.get_answer().is_err());
}

#[test]
fn rejected_duplicate_does_not_grow_history() {
    let mut game = game_with_words("slump", GameDifficulty::Easy, &["pasta"]);
    game.guess("pasta");
    let (_, second) = game.guess("pasta");
    assert_eq!(second, GuessResult::DuplicateGuess);
    assert_eq!(game.guesses().len(), 1);
}

#[test]
fn hard_mode_rejection_leaves_state_untouched() {
    let mut game =
        game_with_words("abbey", GameDifficulty::Hard, &["sleep", "hours", "ablet"]);
    game.guess("sleep");
    let before = game.row_states();
    let (_, rejected) = game.guess("hours");
    assert_eq!(rejected, GuessResult::LetterDoesNotMatch('e', 4));
    assert_eq!(game.guesses().len(), 1);
    assert_eq!(game.row_states(), before);
    // a guess that repeats the confirmed letter is still accepted
    let (_, accepted) = game.guess("ablet");
    assert_eq!(accepted, GuessResult::Valid);
}

#[test]
fn winning_on_the_sixth_guess_wins_rather_than_loses() {
    let mut game = game_with_words(
        "slump",
        GameDifficulty::Easy,
        &["admit", "adorn", "adult", "affix", "afire", "slump"],
    );
    game.guess("admit");
    game.guess("adorn");
    game.guess("adult");
    game.guess("affix");
    game.guess("afire");
    let (status, result) = game.guess("slump");
    assert_eq!(status, GameStatus::Won);
    assert_eq!(result, GuessResult::Valid);
    assert!(game.get_answer().is_err());
    assert_eq!(game.row_states(), vec![RowState::AlreadyGuessed; 6]);
}

#[test]
fn stored_guess_reproduces_its_word() {
    let mut game = game_with_words("haste", GameDifficulty::Easy, &["heart"]);
    game.guess("heart");
    assert_eq!(game.guesses()[0].word(), "heart".to_string());
}

#[test]
fn letter_counts_count_each_character() {
    let counts = build_letter_counts("sleep");
    assert_eq!(counts.count_of('e'), 2);
    assert_eq!(counts.count_of('s'), 1);
    assert_eq!(counts.count_of('l'), 1);
    assert_eq!(counts.count_of('p'), 1);
    assert_eq!(counts.count_of('z'), 0);
}

#[test]
fn random_word_comes_from_the_dictionary() {
    let dict = words(&["slump"]);
    assert_eq!(get_random_word(&dict), "slump".to_string());
    let wider = words(&["abbey", "haste", "slump"]);
    let picked = get_random_word(&wider);
    assert!(wider.contains(&picked));
}

#[test]
fn random_answer_game_is_winnable() {
    let mut game = wordlet::Game::new(GameOptions {
        answer: None,
        difficulty: GameDifficulty::Easy,
        dictionary: words(&["slump"]),
    });
    let (status, result) = game.guess("slump");
    assert_eq!(result, GuessResult::Valid);
    assert_eq!(status, GameStatus::Won);
}

#[test]
fn uncovered_letters_follow_the_registry() {
    let mut game = game_with_words("slump", GameDifficulty::Easy, &["slept"]);
    assert!(!game.is_letter_uncovered('s'));
    game.guess("slept");
    assert!(game.is_letter_uncovered('s'));
    assert!(game.is_letter_uncovered('p'));
    assert!(!game.is_letter_uncovered('e'));
    assert!(!game.is_letter_uncovered('z'));
}
