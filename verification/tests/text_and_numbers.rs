use wordchicken::error::OnGameError;
use wordchicken::number::{decimal_text, parse_usize};
use wordchicken::text::{count_words, same_text, trim, white_space};

#[test]
fn white_space_matches_std() {
    for c in ['\t', '\n', '\u{0B}', '\u{0C}', '\r', ' ', '\u{85}', '\u{A0}', '\u{1680}', '\u{2000}',
        '\u{200A}', '\u{2028}', '\u{2029}', '\u{202F}', '\u{205F}', '\u{3000}', 'a', '0', '\u{200B}',
        '\u{180E}', 'é', '\u{FEFF}']
    {
        assert_eq!(white_space(c), c.is_whitespace(), "{:?}", c);
    }
}

#[test]
fn trim_drops_white_space_at_both_ends() {
    assert_eq!(trim("  hello world \n"), "hello world");
    assert_eq!(trim("\u{3000}x\u{A0}"), "x");
    assert_eq!(trim("   "), "");
    assert_eq!(trim(""), "");
    assert_eq!(trim("a b"), "a b");
    for s in ["\t quit\r\n", " 3 ", "give up\n", "  ", "x", " \u{2028}y z\u{85}"] {
        assert_eq!(trim(s), s.trim());
    }
}

#[test]
fn trim_twice_is_trim_once() {
    for s in ["  a  ", "\n\n", "b", " c d "] {
        assert_eq!(trim(trim(s)), trim(s));
    }
}

#[test]
fn count_words_matches_split_whitespace() {
    assert_eq!(count_words(""), 0);
    assert_eq!(count_words("   "), 0);
    assert_eq!(count_words("one"), 1);
    assert_eq!(count_words("  one   two\tthree\nfour  five "), 5);
    for s in ["a b c", " lead", "trail ", "a\u{3000}b", "x  y\r\nz"] {
        assert_eq!(count_words(s), s.split_whitespace().count());
    }
}

#[test]
fn same_text_compares_characters() {
    assert!(same_text("quit", "quit"));
    assert!(!same_text("quit", "quits"));
    assert!(!same_text("give up", "give  up"));
    assert!(same_text("", ""));
}

#[test]
fn decimal_text_writes_digits() {
    assert_eq!(decimal_text(0), "0");
    assert_eq!(decimal_text(7), "7");
    assert_eq!(decimal_text(10), "10");
    assert_eq!(decimal_text(1234567890), "1234567890");
    assert_eq!(decimal_text(u64::MAX), u64::MAX.to_string());
}

#[test]
fn parse_usize_matches_std() {
    assert_eq!(parse_usize("42"), Some(42));
    assert_eq!(parse_usize("+3"), Some(3));
    assert_eq!(parse_usize("007"), Some(7));
    assert_eq!(parse_usize(""), None);
    assert_eq!(parse_usize("+"), None);
    assert_eq!(parse_usize("-1"), None);
    assert_eq!(parse_usize("1a"), None);
    assert_eq!(parse_usize(" 1"), None);
    assert_eq!(parse_usize("18446744073709551616"), None);
    for s in ["0", "4", "5", "99", "++1", "18446744073709551615", "184467440737095516150", "x"] {
        assert_eq!(parse_usize(s), s.parse::<usize>().ok(), "{}", s);
    }
}

#[test]
fn decimal_reads_back() {
    for n in [0u64, 1, 4, 9, 10, 99, 100, 65535, 4294967296] {
        assert_eq!(parse_usize(&decimal_text(n)), Some(n as usize));
    }
}

#[test]
fn error_ids_and_messages() {
    let all = [
        OnGameError::StdinInputFailed,
        OnGameError::InvalidTargetInputNotASCII,
        OnGameError::InvalidTargetTooShort,
        OnGameError::ParseFaild,
        OnGameError::GetWordsFailed,
        OnGameError::InvalidSelectOver,
    ];
    let ids: Vec<i32> = all.iter().map(|e| e.error_id()).collect();
    assert_eq!(ids, vec![1, 3, 4, 5, 6, 7]);
    for (i, a) in all.iter().enumerate() {
        for (j, b) in all.iter().enumerate() {
            assert_eq!(a.error_id() == b.error_id(), i == j);
        }
    }
    assert_eq!(OnGameError::StdinInputFailed.error_msg(), "failed to get input from stdin!");
    assert_eq!(OnGameError::InvalidTargetInputNotASCII.error_msg(), "Target text must be ASCII");
    assert_eq!(OnGameError::InvalidTargetTooShort.error_msg(), "Target text must be longer than 5 words");
    assert_eq!(OnGameError::ParseFaild.error_msg(), "failed to parse input to usize");
    assert_eq!(OnGameError::GetWordsFailed.error_msg(), "faied to get word list from included bytes");
    assert_eq!(OnGameError::InvalidSelectOver.error_msg(), "Select number must be in the range:1..=4");
    for e in all {
        assert_eq!(e.name(), format!("{:?}", e));
        assert_eq!(
            e.to_message(),
            format!("Error: ID: {} {:?}, Message: {}", e.error_id(), e, e.error_msg())
        );
    }
    assert_eq!(
        OnGameError::ParseFaild.to_message(),
        "Error: ID: 5 ParseFaild, Message: failed to parse input to usize"
    );
}
