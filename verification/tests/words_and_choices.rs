use wordchicken::choices::{add_option_to_answer, pick_option, random_choices, take_selected};
use wordchicken::session::list_choices;
use wordchicken::words::{load_words, parts_of_words, try_load_words, words_from_parts, Word, ANSWER_START};

fn word(text: &str, e: u32) -> Word<u32> {
    Word { text: text.to_string(), embedding: e }
}

#[test]
fn random_choices_are_distinct_words() {
    let words: Vec<u32> = (0..50).collect();
    for _ in 0..20 {
        let c = random_choices(&words);
        assert_eq!(c.len(), 4);
        let mut sorted = c.clone();
        sorted.sort();
        sorted.dedup();
        assert_eq!(sorted.len(), 4);
        assert!(c.iter().all(|x| words.contains(x)));
    }
}

#[test]
fn random_choices_of_few_words_takes_all() {
    let words = vec![7u32, 8, 9];
    let mut c = random_choices(&words);
    c.sort();
    assert_eq!(c, vec![7, 8, 9]);
    let none: Vec<u32> = vec![];
    assert!(random_choices(&none).is_empty());
}

#[test]
fn pick_and_take_swap_remove() {
    let mut v = vec!['a', 'b', 'c', 'd'];
    assert_eq!(pick_option(&mut v, 1), 'b');
    assert_eq!(v, vec!['a', 'd', 'c']);
    assert_eq!(take_selected(&mut v, 3), 'c');
    assert_eq!(v, vec!['a', 'd']);
    assert_eq!(take_selected(&mut v, 1), 'a');
    assert_eq!(v, vec!['d']);
}

#[test]
fn join_with_comma_recomputes_embedding() {
    let embed = |t: &str| t.len() as u32;
    let mut answer = Word::new(ANSWER_START, embed);
    assert_eq!(answer.text, "keywords: ");
    assert_eq!(answer.embedding, 10);
    answer.join_string_with_comma("apple".to_string(), embed);
    assert_eq!(answer.text, "keywords: apple, ");
    assert_eq!(answer.embedding, 17);
    answer.push_str("x", embed);
    assert_eq!(answer.text, "keywords: apple, x");
    assert_eq!(answer.embedding, 18);
}

#[test]
fn chosen_option_joins_answer() {
    let embed = |t: &str| t.len() as u32;
    let mut answer = Word::new(ANSWER_START, embed);
    let mut options = vec![word("cat", 0), word("dog", 0), word("sun", 0), word("sea", 0)];
    add_option_to_answer(&mut answer, &mut options, 1, embed);
    assert_eq!(answer.text, "keywords: dog, ");
    assert_eq!(answer.embedding, 15);
    let texts: Vec<&str> = options.iter().map(|w| w.text.as_str()).collect();
    assert_eq!(texts, vec!["cat", "sea", "sun"]);
}

#[test]
fn list_choices_numbers_from_one() {
    let options = vec![word("cat", 0), word("dog", 0), word("sun", 0), word("sea", 0)];
    assert_eq!(list_choices(&options), "1. cat, 2. dog, 3. sun, 4. sea, ");
    let none: Vec<Word<u32>> = vec![];
    assert_eq!(list_choices(&none), "");
}

#[test]
fn saved_parts_pair_up() {
    let words = words_from_parts(
        vec!["a".to_string(), "b".to_string(), "c".to_string()],
        vec![1u32, 2],
    );
    assert_eq!(words.len(), 2);
    assert_eq!((words[0].text.as_str(), words[0].embedding), ("a", 1));
    assert_eq!((words[1].text.as_str(), words[1].embedding), ("b", 2));
    let (texts, embeddings) = parts_of_words(&words);
    assert_eq!(texts, vec!["a".to_string(), "b".to_string()]);
    assert_eq!(embeddings, vec![1, 2]);
    let back = words_from_parts(texts, embeddings);
    assert_eq!(back.len(), 2);
    assert_eq!(back[1].text, "b");
}

#[test]
fn csv_first_fields() {
    assert_eq!(load_words("apple\nbanana\ncherry\n"), vec!["apple", "banana", "cherry"]);
    assert_eq!(load_words("a,1\nb,2\n"), vec!["a", "b"]);
    assert_eq!(load_words("\"x, y\",z\nw,v\n"), vec!["x, y", "w"]);
    assert_eq!(load_words(""), Vec::<String>::new());
    assert_eq!(try_load_words("a\nb"), Some(vec!["a".to_string(), "b".to_string()]));
    assert_eq!(try_load_words("a,1\nb\n"), None);
}
