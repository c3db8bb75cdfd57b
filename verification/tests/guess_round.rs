use wordchicken::choices::choices_at;
use wordchicken::guess_round::GuessRound;
use wordchicken::results::ResultList;
use wordchicken::round::QUIT_ID;
use wordchicken::target::TargetText;
use wordchicken::words::Word;

fn words() -> Vec<Word<u32>> {
    ["cat", "dog", "sun", "sea", "sky", "fog"]
        .iter()
        .map(|t| Word { text: t.to_string(), embedding: 0 })
        .collect()
}

fn embed(t: &str) -> u32 {
    t.len() as u32
}

#[test]
fn choices_at_follows_the_positions() {
    let w = vec!['a', 'b', 'c', 'd', 'e'];
    assert_eq!(choices_at(&w, &vec![4, 0, 2]), vec!['e', 'a', 'c']);
    assert_eq!(choices_at(&w, &vec![]), Vec::<char>::new());
}

#[test]
fn round_starts_from_the_typed_target() {
    let mut target = TargetText::new();
    target.push_str("a b c d e");
    let words = words();
    let round: GuessRound<u32, u32> = GuessRound::start(&mut target, &words, embed);
    assert_eq!(target.as_str(), "");
    assert_eq!(round.target.text, "a b c d e");
    assert_eq!(round.target.embedding, 9);
    assert_eq!(round.current.target_text, "a b c d e");
    let texts: Vec<String> = words.iter().map(|w| w.text.clone()).collect();
    assert!(round.options.iter().all(|o| texts.contains(&o.text)));
    assert!(round.current.score_transition.is_empty());
    assert_eq!(round.answer.text, "keywords: ");
    assert_eq!(round.answer.embedding, 10);
    assert_eq!(round.options.len(), 4);
    assert_eq!(round.turn_count(), 0);
    assert!(!round.over());
}

#[test]
fn word_presses_add_words_and_scores() {
    let mut target = TargetText::new();
    target.push_str("a b c d e");
    let words = words();
    let mut results: ResultList<u32> = ResultList::new();
    let mut round: GuessRound<u32, u32> = GuessRound::start(&mut target, &words, embed);
    let first = round.options[2].text.clone();
    let measure = |_t: &Word<u32>, w: &Word<u32>| (w.embedding, false);
    assert!(!round.press(2, &words, &mut results, embed, measure));
    assert_eq!(round.answer.text, format!("keywords: {}, ", first));
    assert_eq!(round.answer.embedding, 15);
    assert_eq!(round.current.score_transition, vec![15]);
    assert_eq!(round.options.len(), 4);
    assert_eq!(round.turn_count(), 1);
    assert!(results.0.is_empty());
    for turn in 2..10 {
        assert!(!round.press(0, &words, &mut results, embed, measure));
        assert_eq!(round.turn_count(), turn);
    }
    assert!(round.press(1, &words, &mut results, embed, measure));
    assert!(round.over());
    assert_eq!(round.turn_count(), 10);
    assert_eq!(results.0.len(), 1);
    assert_eq!(results.0[0].score_transition.len(), 10);
    assert_eq!(results.last_target_text(), "a b c d e");
    assert_eq!(results.last_score(), Some(&60));
    assert_eq!(round.current.target_text, "");
}

#[test]
fn scores_are_measured_against_the_target() {
    let mut target = TargetText::new();
    target.push_str("a b c d e f");
    let words = words();
    let mut results: ResultList<u32> = ResultList::new();
    let mut round: GuessRound<u32, u32> = GuessRound::start(&mut target, &words, embed);
    let measure = |t: &Word<u32>, w: &Word<u32>| (t.embedding * 100 + w.embedding, false);
    assert!(!round.press(0, &words, &mut results, embed, measure));
    assert_eq!(round.current.score_transition, vec![1115]);
    assert_eq!(round.target.text, "a b c d e f");
}

#[test]
fn cloned_words_keep_text_and_embedding() {
    let w = Word { text: "moon".to_string(), embedding: 7u32 };
    let c = w.clone();
    assert_eq!(c.text, "moon");
    assert_eq!(c.embedding, 7);
}

#[test]
fn threshold_ends_the_round() {
    let mut target = TargetText::new();
    target.push_str("a b c d e");
    let words = words();
    let mut results: ResultList<u32> = ResultList::new();
    let mut round: GuessRound<u32, u32> = GuessRound::start(&mut target, &words, embed);
    assert!(round.press(3, &words, &mut results, embed, |_t: &Word<u32>, w: &Word<u32>| (w.embedding, true)));
    assert_eq!(results.0.len(), 1);
    assert_eq!(results.0[0].score_transition, vec![15]);
}

#[test]
fn quit_or_any_other_button_ends_the_round() {
    for id in [QUIT_ID, 5, 100] {
        let mut target = TargetText::new();
        target.push_str("a b c d e");
        let words = words();
        let mut results: ResultList<u32> = ResultList::new();
        let mut round: GuessRound<u32, u32> = GuessRound::start(&mut target, &words, embed);
        let options_before: Vec<String> = round.options.iter().map(|w| w.text.clone()).collect();
        assert!(round.press(id, &words, &mut results, embed, |_t: &Word<u32>, w: &Word<u32>| (w.embedding, false)));
        assert_eq!(round.answer.text, "keywords: ");
        let options_after: Vec<String> = round.options.iter().map(|w| w.text.clone()).collect();
        assert_eq!(options_before, options_after);
        assert_eq!(results.0.len(), 1);
        assert!(results.0[0].score_transition.is_empty());
        assert_eq!(results.last_score(), None);
    }
}
