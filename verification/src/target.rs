//! The target sentence: which sentences are accepted, and the text box in
//! which the player types one.

use vstd::prelude::*;
use vstd::utf8::is_ascii_chars;
use crate::error::OnGameError;
use crate::text::{count_words, is_white_space, lemma_word_count_separated, word_count};

verus! {

/// The fewest words that a target sentence must have.
pub const MIN_TARGET_WORDS: usize = 5;

/// What the console game answers for a target sentence `s`: it must be ASCII,
/// then it must have at least five words.
pub open spec fn target_check(s: Seq<char>) -> Result<(), OnGameError> {
    if !is_ascii_chars(s) {
        Err(OnGameError::InvalidTargetInputNotASCII)
    } else if word_count(s) < MIN_TARGET_WORDS {
        Err(OnGameError::InvalidTargetTooShort)
    } else {
        Ok(())
    }
}

/// Checks a target sentence of the console game.
pub fn is_valid_target_input(target_input: &str) -> (r: Result<(), OnGameError>)
    ensures
        r == target_check(target_input@),
{
    if !target_input.is_ascii() {
        return Err(OnGameError::InvalidTargetInputNotASCII);
    }
    if count_words(target_input) < MIN_TARGET_WORDS {
        return Err(OnGameError::InvalidTargetTooShort);
    }
    Ok(())
}

/// Whether the graphical game accepts `s` as a target sentence.
pub open spec fn target_accepted(s: Seq<char>) -> bool {
    is_ascii_chars(s) && word_count(s) >= MIN_TARGET_WORDS
}

/// Checks a target sentence of the graphical game.
pub fn target_input_is_valid(target_input: &str) -> (b: bool)
    ensures
        b == target_accepted(target_input@),
{
    target_input.is_ascii() && count_words(target_input) >= MIN_TARGET_WORDS
}

/// Both games accept the same target sentences.
pub proof fn lemma_target_checks_agree(s: Seq<char>)
    ensures
        target_accepted(s) <==> target_check(s) is Ok,
{
}

/// A target sentence is accepted exactly when every character is ASCII and it
/// has at least five words. A character beyond ASCII is reported first; an
/// ASCII sentence with fewer than five words is reported as too short.
pub proof fn lemma_target_acceptance(s: Seq<char>)
    ensures
        target_check(s) is Ok <==> ((forall|i: int| 0 <= i < s.len() ==> '\0' <= #[trigger] s[i] <= '\u{7f}')
            && word_count(s) >= 5),
        (exists|i: int| 0 <= i < s.len() && #[trigger] s[i] > '\u{7f}') ==> target_check(s) == Err::<
            (),
            OnGameError,
        >(OnGameError::InvalidTargetInputNotASCII),
        (forall|i: int| 0 <= i < s.len() ==> '\0' <= #[trigger] s[i] <= '\u{7f}') && word_count(s) < 5
            ==> target_check(s) == Err::<(), OnGameError>(OnGameError::InvalidTargetTooShort),
        target_accepted(s) <==> target_check(s) is Ok,
{
}

/// An ASCII sentence that extends an accepted one by a white space character
/// and more text is accepted too: punctuation, letters and further words never
/// make it refused.
pub proof fn lemma_longer_target_accepted(s: Seq<char>, c: char, more: Seq<char>)
    requires
        target_check(s) is Ok,
        is_white_space(c),
        '\0' <= c <= '\u{7f}',
        forall|i: int| 0 <= i < more.len() ==> '\0' <= #[trigger] more[i] <= '\u{7f}',
    ensures
        target_check(s + seq![c] + more) is Ok,
{
    lemma_word_count_separated(s, c, more);
    let t = s + seq![c] + more;
    assert forall|i: int| 0 <= i < t.len() implies '\0' <= #[trigger] t[i] <= '\u{7f}' by {
        if i < s.len() {
            assert(t[i] == s[i]);
        } else if i == s.len() {
            assert(t[i] == c);
        } else {
            assert(t[i] == more[i - s.len() - 1]);
        }
    }
    lemma_target_acceptance(s);
    lemma_target_acceptance(t);
}

/// Removes the last character of a `String`: std's `String::pop`, which
/// returns that character, or `None` and leaves the string as it is when it
/// is empty.
#[verifier::external_body]
fn pop_char(s: &mut String) -> (c: Option<char>)
    ensures
        old(s)@.len() == 0 ==> c is None && final(s)@ == old(s)@,
        old(s)@.len() > 0 ==> c == Some(old(s)@.last()) && final(s)@ == old(s)@.drop_last(),
{
    s.pop()
}

/// A key press in the text box.
pub enum KeyInput {
    Backspace,
    Enter,
    /// Any other key, with the text that it types, if any.
    Other(Option<String>),
}

/// What a key press did to the text box.
#[derive(Debug, Clone, Copy, PartialEq, Eq, Structural)]
pub enum KeyOutcome {
    /// The key was released, not pressed: nothing happens.
    Ignored,
    /// The text was edited (or the key typed nothing).
    Edited,
    /// Enter, on a sentence that is accepted.
    Confirmed,
    /// Enter, on a sentence that is refused.
    Rejected,
}

/// The text box in which the target sentence is typed.
pub struct TargetText(String);

impl View for TargetText {
    type V = Seq<char>;

    closed spec fn view(&self) -> Seq<char> {
        self.0@
    }
}

/// The text after a key press on `text`.
pub open spec fn text_after_key(text: Seq<char>, pressed: bool, key: KeyInput) -> Seq<char> {
    if !pressed {
        text
    } else {
        match key {
            KeyInput::Backspace => if text.len() > 0 {
                text.drop_last()
            } else {
                text
            },
            KeyInput::Enter => text,
            KeyInput::Other(typed) => match typed {
                Some(t) => text + t@,
                None => text,
            },
        }
    }
}

/// What a key press on `text` does.
pub open spec fn outcome_of_key(text: Seq<char>, pressed: bool, key: KeyInput) -> KeyOutcome {
    if !pressed {
        KeyOutcome::Ignored
    } else {
        match key {
            KeyInput::Enter => if target_accepted(text) {
                KeyOutcome::Confirmed
            } else {
                KeyOutcome::Rejected
            },
            _ => KeyOutcome::Edited,
        }
    }
}

impl TargetText {
    /// An empty text box.
    pub fn new() -> (t: Self)
        ensures
            t@ == Seq::<char>::empty(),
    {
        TargetText(String::new())
    }

    /// The text typed so far.
    pub fn as_str(&self) -> (s: &str)
        ensures
            s@ == self@,
    {
        self.0.as_str()
    }

    /// Appends `string` to the text.
    pub fn push_str(&mut self, string: &str)
        ensures
            final(self)@ == old(self)@ + string@,
    {
        self.0.append(string);
    }

    /// Removes the last character and returns it; `None` when the text is empty.
    pub fn pop(&mut self) -> (c: Option<char>)
        ensures
            old(self)@.len() == 0 ==> c is None && final(self)@ == old(self)@,
            old(self)@.len() > 0 ==> c == Some(old(self)@.last()) && final(self)@ == old(
                self,
            )@.drop_last(),
    {
        pop_char(&mut self.0)
    }

    /// Empties the text box.
    pub fn clear(&mut self)
        ensures
            final(self)@ == Seq::<char>::empty(),
    {
        self.0 = String::new();
    }

    /// Hands out the text and leaves the box empty.
    pub fn take(&mut self) -> (s: String)
        ensures
            s@ == old(self)@,
            final(self)@ == Seq::<char>::empty(),
    {
        let mut s = String::new();
        core::mem::swap(&mut s, &mut self.0);
        s
    }

    /// Whether the text is a target sentence that the game accepts.
    pub fn is_valid(&self) -> (b: bool)
        ensures
            b == target_accepted(self@),
    {
        target_input_is_valid(self.0.as_str())
    }

    /// Handles one key event: Backspace removes the last character, Enter asks
    /// to confirm the sentence, and any other key appends the text it types.
    pub fn receive_key(&mut self, pressed: bool, key: KeyInput) -> (outcome: KeyOutcome)
        ensures
            final(self)@ == text_after_key(old(self)@, pressed, key),
            outcome == outcome_of_key(old(self)@, pressed, key),
    {
        if !pressed {
            return KeyOutcome::Ignored;
        }
        match key {
            KeyInput::Backspace => {
                self.pop();
                KeyOutcome::Edited
            },
            KeyInput::Enter => {
                if self.is_valid() {
                    KeyOutcome::Confirmed
                } else {
                    KeyOutcome::Rejected
                }
            },
            KeyInput::Other(typed) => {
                if let Some(text) = typed {
                    self.push_str(text.as_str());
                }
                KeyOutcome::Edited
            },
        }
    }
}

/// What a key does to the text box, for every text: a typed text is appended
/// exactly as typed, Backspace removes exactly the last character (and does
/// nothing on an empty box), and Enter, keys that type nothing and released
/// keys leave the text as it is.
pub proof fn lemma_key_effects(text: Seq<char>, typed: String)
    ensures
        text_after_key(text, true, KeyInput::Other(Some(typed))) == text + typed@,
        text_after_key(text, true, KeyInput::Other(Some(typed))).len() == text.len()
            + typed@.len(),
        text_after_key(text, true, KeyInput::Other(None)) == text,
        text.len() > 0 ==> text_after_key(text, true, KeyInput::Backspace).push(text.last())
            == text,
        text.len() == 0 ==> text_after_key(text, true, KeyInput::Backspace) == text,
        text_after_key(text, true, KeyInput::Enter) == text,
        forall|key: KeyInput| #[trigger] text_after_key(text, false, key) == text,
{
    if text.len() > 0 {
        assert(text.drop_last().push(text.last()) =~= text);
    }
}

/// Typing one character and then pressing Backspace leaves the text as it was.
pub proof fn lemma_backspace_undoes_typing(text: Seq<char>, typed: String)
    requires
        typed@.len() == 1,
    ensures
        text_after_key(
            text_after_key(text, true, KeyInput::Other(Some(typed))),
            true,
            KeyInput::Backspace,
        ) == text,
{
    assert((text + typed@).drop_last() =~= text);
}

} // verus!
