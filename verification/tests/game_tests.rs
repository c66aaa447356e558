use bulls_and_cows::game::{Error, Game, GameResult, GameState, unique, score};

fn chars(s: &str) -> Vec<char> {
    s.chars().collect()
}

#[test]
fn new_accepts_unique_secret() {
    let game = Game::new(chars("1234"), 5);
    assert!(game.is_ok());
    let game = game.unwrap();
    assert_eq!(game.sequence(), &chars("1234"));
    assert!(game.history().is_empty());
    assert!(matches!(game.state, GameState::InProgress));
}

#[test]
fn new_rejects_duplicate_secret() {
    let game = Game::new(chars("1224"), 5);
    assert!(matches!(game, Err(Error::NonUnique)));
}

#[test]
fn unique_detects_duplicates() {
    assert!(unique(&chars("123456789")));
    assert!(unique(&chars("")));
    assert!(!unique(&chars("1231")));
    assert!(!unique(&chars("99")));
}

#[test]
fn score_counts_bulls_and_cows() {
    assert_eq!(score(&chars("1234"), &chars("1243")), (2, 2));
    assert_eq!(score(&chars("1234"), &chars("1234")), (4, 0));
    assert_eq!(score(&chars("1234"), &chars("4321")), (0, 4));
    // symbols absent from the secret count for neither
    assert_eq!(score(&chars("1234"), &chars("5678")), (0, 0));
    assert_eq!(score(&chars("1234"), &chars("1567")), (1, 0));
}

#[test]
fn guess_with_wrong_length_changes_nothing() {
    let mut game = Game::new(chars("1234"), 5).unwrap();
    let r = game.guess(chars("123"));
    assert!(matches!(r, Err(Error::LenMismatch)));
    assert!(game.history().is_empty());
    assert!(matches!(game.state, GameState::InProgress));
}

#[test]
fn guess_with_duplicates_changes_nothing() {
    let mut game = Game::new(chars("1234"), 5).unwrap();
    let r = game.guess(chars("1123"));
    assert!(matches!(r, Err(Error::NonUnique)));
    assert!(game.history().is_empty());
    assert!(matches!(game.state, GameState::InProgress));
}

#[test]
fn accepted_guesses_append_history_in_order() {
    let mut game = Game::new(chars("1234"), 5).unwrap();
    assert!(matches!(
        game.guess(chars("1243")),
        Ok(GameResult::Feedback { bulls: 2, cows: 2 })
    ));
    assert!(matches!(
        game.guess(chars("5678")),
        Ok(GameResult::Feedback { bulls: 0, cows: 0 })
    ));
    let history = game.history();
    assert_eq!(history.len(), 2);
    assert_eq!(history[0].sequence, "1243");
    assert_eq!(history[0].bulls, 2);
    assert_eq!(history[0].cows, 2);
    assert_eq!(history[1].sequence, "5678");
    assert_eq!(history[1].bulls, 0);
    assert_eq!(history[1].cows, 0);
}

#[test]
fn winning_scenario_and_terminal_replay() {
    // secret 1234, five attempts allowed
    let mut game = Game::new(chars("1234"), 5).unwrap();
    assert!(matches!(
        game.guess(chars("1243")),
        Ok(GameResult::Feedback { bulls: 2, cows: 2 })
    ));
    assert!(matches!(game.state, GameState::InProgress));
    assert!(matches!(game.guess(chars("1234")), Ok(GameResult::Win)));
    assert!(matches!(game.state, GameState::Win));
    assert_eq!(game.history().len(), 2);
    // a valid-shaped replay reports the win again and records nothing
    assert!(matches!(game.guess(chars("5678")), Ok(GameResult::Win)));
    assert!(matches!(game.state, GameState::Win));
    assert_eq!(game.history().len(), 2);
    // a mis-shaped guess is still rejected first, and also records nothing
    assert!(matches!(game.guess(chars("9999")), Err(Error::NonUnique)));
    assert!(matches!(game.state, GameState::Win));
    assert_eq!(game.history().len(), 2);
}

#[test]
fn zero_max_attempts_loses_on_first_wrong_guess() {
    // the loss check is history.len() > max_attempts, so with a budget of 0
    // the very first wrong guess is recorded and then declared a loss
    let mut game = Game::new(chars("1234"), 0).unwrap();
    let r = game.guess(chars("4321"));
    assert!(matches!(r, Ok(GameResult::Loss)));
    assert_eq!(game.history().len(), 1);
    assert!(matches!(game.state, GameState::Loss));
    // the terminal loss replays without growing history
    assert!(matches!(game.guess(chars("1234")), Ok(GameResult::Loss)));
    assert_eq!(game.history().len(), 1);
}

#[test]
fn max_attempts_allows_one_extra_guess() {
    // with a budget of 1, the second wrong guess brings the loss
    let mut game = Game::new(chars("1234"), 1).unwrap();
    assert!(matches!(
        game.guess(chars("4321")),
        Ok(GameResult::Feedback { bulls: 0, cows: 4 })
    ));
    assert!(matches!(game.state, GameState::InProgress));
    assert!(matches!(game.guess(chars("4312")), Ok(GameResult::Loss)));
    assert!(matches!(game.state, GameState::Loss));
    assert_eq!(game.history().len(), 2);
}

#[test]
fn winning_guess_is_recorded_before_the_win() {
    let mut game = Game::new(chars("1234"), 0).unwrap();
    assert!(matches!(game.guess(chars("1234")), Ok(GameResult::Win)));
    let history = game.history();
    assert_eq!(history.len(), 1);
    assert_eq!(history[0].sequence, "1234");
    assert_eq!(history[0].bulls, 4);
    assert_eq!(history[0].cows, 0);
}

#[test]
fn longest_allowed_sequences_score() {
    let mut game = Game::new(chars("123456789"), 2).unwrap();
    assert!(matches!(
        game.guess(chars("123456798")),
        Ok(GameResult::Feedback { bulls: 7, cows: 2 })
    ));
    assert!(matches!(game.guess(chars("123456789")), Ok(GameResult::Win)));
}
