use wordchicken::error::OnGameError;
use wordchicken::round::{applicable_choices, word_choice, GameEvent, GameState, TurnCount, MAX_TURN, QUIT_ID};
use wordchicken::session::{
    accept_target_line, parse_guess_input, wants_another_game, GameEnd, GameSession, GuessCommand,
    GuessOutcome, MAX_GUESS,
};
use wordchicken::target::{is_valid_target_input, target_input_is_valid, KeyInput, KeyOutcome, TargetText};

#[test]
fn target_must_be_ascii_then_five_words() {
    assert_eq!(is_valid_target_input("the quick brown fox jumps"), Ok(()));
    assert_eq!(is_valid_target_input("  the quick  brown fox jumps over  "), Ok(()));
    assert_eq!(is_valid_target_input("four words only here"), Err(OnGameError::InvalidTargetTooShort));
    assert_eq!(is_valid_target_input(""), Err(OnGameError::InvalidTargetTooShort));
    assert_eq!(
        is_valid_target_input("café au lait with friends today"),
        Err(OnGameError::InvalidTargetInputNotASCII)
    );
    assert_eq!(is_valid_target_input("é"), Err(OnGameError::InvalidTargetInputNotASCII));
}

#[test]
fn both_games_accept_the_same_targets() {
    for s in ["a b c d e", "a b c d", "é b c d e", "", "one two three four five six"] {
        assert_eq!(target_input_is_valid(s), is_valid_target_input(s).is_ok(), "{}", s);
    }
}

#[test]
fn target_line_is_trimmed_then_checked() {
    assert_eq!(accept_target_line("  a b c d e \n"), Ok("a b c d e"));
    assert_eq!(accept_target_line("a b\n"), Err(OnGameError::InvalidTargetTooShort));
    assert_eq!(accept_target_line("ü v w x y z\n"), Err(OnGameError::InvalidTargetInputNotASCII));
}

#[test]
fn guess_answers() {
    assert_eq!(parse_guess_input("give up\n"), Ok(GuessCommand::GiveUp));
    assert_eq!(parse_guess_input("  quit "), Ok(GuessCommand::Quit));
    assert_eq!(parse_guess_input("3\n"), Ok(GuessCommand::Select(3)));
    assert_eq!(parse_guess_input("+4"), Ok(GuessCommand::Select(4)));
    assert_eq!(parse_guess_input("0"), Err(OnGameError::InvalidSelectOver));
    assert_eq!(parse_guess_input("1"), Ok(GuessCommand::Select(1)));
    assert_eq!(parse_guess_input("5"), Err(OnGameError::InvalidSelectOver));
    assert_eq!(parse_guess_input("123456"), Err(OnGameError::InvalidSelectOver));
    assert_eq!(parse_guess_input("two"), Err(OnGameError::ParseFaild));
    assert_eq!(parse_guess_input("Quit"), Err(OnGameError::ParseFaild));
    assert_eq!(parse_guess_input("-1"), Err(OnGameError::ParseFaild));
    assert_eq!(parse_guess_input(""), Err(OnGameError::ParseFaild));
}

#[test]
fn continue_unless_n() {
    assert!(!wants_another_game("n\n"));
    assert!(!wants_another_game("  n "));
    assert!(wants_another_game("y\n"));
    assert!(wants_another_game("no\n"));
    assert!(wants_another_game("\n"));
    assert!(wants_another_game("N"));
}

#[test]
fn ten_safe_turns_clear_the_round() {
    let mut s = GameSession::new();
    for i in 0..MAX_GUESS {
        assert!(!s.is_over());
        assert_eq!(s.turn(), i);
        s.record(GuessOutcome::Safe);
    }
    assert!(s.is_over());
    assert_eq!(s.end(), Some(GameEnd::Clear));
    assert_eq!(s.turn(), 10);
    s.record(GuessOutcome::Out);
    assert_eq!(s.end(), Some(GameEnd::Clear));
    assert_eq!(s.turn(), 10);
}

#[test]
fn round_endings() {
    let mut s = GameSession::new();
    s.record(GuessOutcome::Safe);
    s.record(GuessOutcome::Out);
    assert_eq!(s.end(), Some(GameEnd::Fail));
    let mut s = GameSession::new();
    s.record(GuessOutcome::Quit);
    assert_eq!(s.end(), Some(GameEnd::Clear));
    let mut s = GameSession::new();
    s.record(GuessOutcome::Safe);
    s.record(GuessOutcome::Safe);
    s.record(GuessOutcome::GiveUp);
    assert_eq!(s.end(), Some(GameEnd::GiveUp));
    s.record(GuessOutcome::Safe);
    assert_eq!(s.end(), Some(GameEnd::GiveUp));
    assert_eq!(s.turn(), 3);
}

#[test]
fn screens_cycle() {
    let s = GameState::initial();
    assert_eq!(s, GameState::Start);
    let s = s.next(GameEvent::StartPressed);
    assert_eq!(s, GameState::TargetTextSetting);
    assert_eq!(s.next(GameEvent::RetryPressed), GameState::TargetTextSetting);
    let s = s.next(GameEvent::TargetConfirmed);
    assert_eq!(s, GameState::Guess);
    let s = s.next(GameEvent::RoundOver);
    assert_eq!(s, GameState::Result);
    assert_eq!(s.next(GameEvent::StartPressed), GameState::Result);
    assert_eq!(s.next(GameEvent::RetryPressed), GameState::Start);
}

#[test]
fn turn_count_ends_round() {
    let mut t = TurnCount::new();
    for i in 1..MAX_TURN {
        assert!(!t.record_choice(i % 4));
        assert_eq!(t.count(), i);
    }
    assert!(t.record_choice(0));
    t.reset();
    assert_eq!(t.count(), 0);
    assert!(t.record_choice(QUIT_ID));
    assert_eq!(t.count(), 1);
    t.reset();
    assert!(t.record_choice(5));
    t.reset();
    assert!(t.record_choice(usize::MAX));
    assert_eq!(t.count(), 1);
}

#[test]
fn choices_before_quit_apply() {
    assert!(word_choice(0) && word_choice(3) && !word_choice(4) && !word_choice(9));
    assert_eq!(applicable_choices(&[0, 1, 3]), 3);
    assert_eq!(applicable_choices(&[2, 4, 1]), 1);
    assert_eq!(applicable_choices(&[4]), 0);
    assert_eq!(applicable_choices(&[]), 0);
}

#[test]
fn text_box_keys() {
    let mut t = TargetText::new();
    assert_eq!(t.receive_key(true, KeyInput::Other(Some("ab".to_string()))), KeyOutcome::Edited);
    assert_eq!(t.as_str(), "ab");
    assert_eq!(t.receive_key(false, KeyInput::Backspace), KeyOutcome::Ignored);
    assert_eq!(t.as_str(), "ab");
    assert_eq!(t.receive_key(true, KeyInput::Backspace), KeyOutcome::Edited);
    assert_eq!(t.as_str(), "a");
    assert_eq!(t.receive_key(true, KeyInput::Other(None)), KeyOutcome::Edited);
    assert_eq!(t.receive_key(true, KeyInput::Enter), KeyOutcome::Rejected);
    t.push_str(" b c d e");
    assert_eq!(t.receive_key(true, KeyInput::Enter), KeyOutcome::Confirmed);
    assert_eq!(t.as_str(), "a b c d e");
    assert_eq!(t.take(), "a b c d e");
    assert_eq!(t.as_str(), "");
    assert_eq!(t.pop(), None);
    assert_eq!(t.receive_key(true, KeyInput::Backspace), KeyOutcome::Edited);
    assert_eq!(t.as_str(), "");
}

#[test]
fn backspace_undoes_one_typed_character() {
    let mut t = TargetText::new();
    t.push_str("héllo");
    t.receive_key(true, KeyInput::Other(Some("ß".to_string())));
    t.receive_key(true, KeyInput::Backspace);
    assert_eq!(t.as_str(), "héllo");
    assert_eq!(t.pop(), Some('o'));
    t.clear();
    assert_eq!(t.as_str(), "");
}
