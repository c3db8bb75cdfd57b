//! One round of the console game: the target sentence, the player's answers
//! to each turn, and when the round ends.

use vstd::prelude::*;
use crate::choices::CHOICE_COUNT;
use crate::error::OnGameError;
use crate::number::{
    all_digits, decimal_digits, decimal_text, is_digit, lemma_decimal_reads_back, parse_usize,
    parsed_usize, unsigned_digits,
};
use crate::words::Word;
use crate::target::{is_valid_target_input, target_check};
use crate::text::{same_text, trim, trim_end, trim_start, trimmed};

verus! {

/// The most turns that a round lasts.
pub const MAX_GUESS: usize = 10;

/// What the player's answer to "will you continue?" means: anything but `n`
/// starts another round.
pub fn wants_another_game(answer: &str) -> (again: bool)
    ensures
        again == (trimmed(answer@) != "n"@),
{
    !same_text(trim(answer), "n")
}

/// Reads the line on which the player typed the target sentence: white space
/// around it is dropped, then the sentence is checked.
pub fn accept_target_line(line: &str) -> (r: Result<&str, OnGameError>)
    ensures
        match r {
            Ok(t) => t@ == trimmed(line@) && target_check(t@) is Ok,
            Err(e) => target_check(trimmed(line@)) == Err::<(), OnGameError>(e),
        },
{
    let t = trim(line);
    match is_valid_target_input(t) {
        Ok(()) => Ok(t),
        Err(e) => Err(e),
    }
}

/// The player's answer on a turn.
#[derive(Debug, Clone, Copy, PartialEq, Eq, Structural)]
pub enum GuessCommand {
    GiveUp,
    Quit,
    /// The number of an offered word, from 1 to 4.
    Select(usize),
}

/// What the answer line `line` means.
pub open spec fn guess_command_of(line: Seq<char>) -> Result<GuessCommand, OnGameError> {
    let t = trimmed(line);
    if t == "give up"@ {
        Ok(GuessCommand::GiveUp)
    } else if t == "quit"@ {
        Ok(GuessCommand::Quit)
    } else {
        match parsed_usize(t) {
            None => Err(OnGameError::ParseFaild),
            Some(n) => if n == 0 || n > CHOICE_COUNT {
                Err(OnGameError::InvalidSelectOver)
            } else {
                Ok(GuessCommand::Select(n))
            },
        }
    }
}

/// Reads the player's answer: `give up`, `quit`, or the number of a word,
/// which must be 1, 2, 3 or 4.
pub fn parse_guess_input(input: &str) -> (r: Result<GuessCommand, OnGameError>)
    ensures
        r == guess_command_of(input@),
{
    let t = trim(input);
    if same_text(t, "give up") {
        return Ok(GuessCommand::GiveUp);
    }
    if same_text(t, "quit") {
        return Ok(GuessCommand::Quit);
    }
    match parse_usize(t) {
        None => Err(OnGameError::ParseFaild),
        Some(n) => if n == 0 || n > CHOICE_COUNT {
            Err(OnGameError::InvalidSelectOver)
        } else {
            Ok(GuessCommand::Select(n))
        },
    }
}

/// The words `give up` and `quit` are not numbers.
proof fn lemma_commands_are_not_numbers()
    ensures
        parsed_usize("give up"@) is None,
        parsed_usize("quit"@) is None,
{
    reveal_strlit("give up");
    reveal_strlit("quit");
    assert(unsigned_digits("give up"@) == "give up"@);
    assert(!is_digit("give up"@[0]));
    assert(!all_digits("give up"@));
    assert(unsigned_digits("quit"@) == "quit"@);
    assert(!is_digit("quit"@[0]));
    assert(!all_digits("quit"@));
}

/// An answer line that reads, once trimmed, as a number selects the word of
/// that number when it is 1, 2, 3 or 4, and is refused as out of range when
/// it is 0 or above 4.
pub proof fn lemma_number_answers(line: Seq<char>, n: usize)
    requires
        parsed_usize(trimmed(line)) == Some(n),
    ensures
        1 <= n <= CHOICE_COUNT ==> guess_command_of(line) == Ok::<GuessCommand, OnGameError>(
            GuessCommand::Select(n),
        ),
        n == 0 || n > CHOICE_COUNT ==> guess_command_of(line) == Err::<GuessCommand, OnGameError>(
            OnGameError::InvalidSelectOver,
        ),
{
    lemma_commands_are_not_numbers();
}

/// An answer line that is not `give up`, `quit` or a number is refused as
/// unreadable.
pub proof fn lemma_other_answers_unreadable(line: Seq<char>)
    requires
        parsed_usize(trimmed(line)) is None,
        trimmed(line) != "give up"@,
        trimmed(line) != "quit"@,
    ensures
        guess_command_of(line) == Err::<GuessCommand, OnGameError>(OnGameError::ParseFaild),
{
}

/// Each word number from 1 to 4, written in decimal, selects that word.
pub proof fn lemma_written_choice_selects(n: nat)
    requires
        1 <= n <= CHOICE_COUNT,
    ensures
        guess_command_of(decimal_digits(n)) == Ok::<GuessCommand, OnGameError>(
            GuessCommand::Select(n as usize),
        ),
{
    let d = decimal_digits(n);
    lemma_decimal_reads_back(n);
    assert(is_digit(d[0]));
    assert(is_digit(d.last()));
    assert(trim_start(d) == d);
    assert(trim_end(d) == d);
    lemma_number_answers(d, n as usize);
}

/// How a turn went. Whether a chosen word keeps the answer far enough from
/// the target (`Safe`) or brings it too close (`Out`) is measured outside.
#[derive(Debug, Clone, Copy, PartialEq, Eq, Structural)]
pub enum GuessOutcome {
    Safe,
    Out,
    Quit,
    GiveUp,
}

/// How a round ended.
#[derive(Debug, Clone, Copy, PartialEq, Eq, Structural)]
pub enum GameEnd {
    /// The round was survived or quit; the score is the last safe similarity.
    Clear,
    /// A word brought the answer too close to the target.
    Fail,
    GiveUp,
}

/// The state of a round: the turns played and, once it is over, how it ended.
pub open spec fn step(state: (nat, Option<GameEnd>), outcome: GuessOutcome) -> (
    nat,
    Option<GameEnd>,
) {
    if state.1 is Some {
        state
    } else {
        match outcome {
            GuessOutcome::Safe => {
                let turn = state.0 + 1;
                (turn, if turn >= MAX_GUESS {
                    Some(GameEnd::Clear)
                } else {
                    None
                })
            },
            GuessOutcome::Out => (state.0 + 1, Some(GameEnd::Fail)),
            GuessOutcome::Quit => (state.0 + 1, Some(GameEnd::Clear)),
            GuessOutcome::GiveUp => (state.0 + 1, Some(GameEnd::GiveUp)),
        }
    }
}

/// The state after the outcomes `outcomes`, from the start of a round.
pub open spec fn play(outcomes: Seq<GuessOutcome>) -> (nat, Option<GameEnd>)
    decreases outcomes.len(),
{
    if outcomes.len() == 0 {
        (0, None)
    } else {
        step(play(outcomes.drop_last()), outcomes.last())
    }
}

/// Whether `state` can be reached: the turn count stays within the limit, and
/// a round that is not over has turns left.
pub open spec fn reachable(state: (nat, Option<GameEnd>)) -> bool {
    &&& state.0 <= MAX_GUESS
    &&& state.1 is None ==> state.0 < MAX_GUESS
}

/// One round of the console game.
pub struct GameSession {
    turn: usize,
    end: Option<GameEnd>,
}

impl View for GameSession {
    type V = (nat, Option<GameEnd>);

    closed spec fn view(&self) -> (nat, Option<GameEnd>) {
        (self.turn as nat, self.end)
    }
}

impl GameSession {
    /// A round that has not started its first turn.
    pub fn new() -> (s: Self)
        ensures
            s@ == play(Seq::empty()),
            reachable(s@),
    {
        GameSession { turn: 0, end: None }
    }

    /// The number of the current turn, counting from 0.
    pub fn turn(&self) -> (t: usize)
        ensures
            t == self@.0,
    {
        self.turn
    }

    /// How the round ended, if it is over.
    pub fn end(&self) -> (e: Option<GameEnd>)
        ensures
            e == self@.1,
    {
        self.end
    }

    /// Whether the round is over.
    pub fn is_over(&self) -> (over: bool)
        ensures
            over == self@.1 is Some,
    {
        self.end.is_some()
    }

    /// Records how the current turn went.
    pub fn record(&mut self, outcome: GuessOutcome)
        requires
            reachable(old(self)@),
        ensures
            final(self)@ == step(old(self)@, outcome),
            reachable(final(self)@),
    {
        if self.end.is_some() {
            return;
        }
        self.turn = self.turn + 1;
        match outcome {
            GuessOutcome::Safe => {
                if self.turn >= MAX_GUESS {
                    self.end = Some(GameEnd::Clear);
                }
            },
            GuessOutcome::Out => {
                self.end = Some(GameEnd::Fail);
            },
            GuessOutcome::Quit => {
                self.end = Some(GameEnd::Clear);
            },
            GuessOutcome::GiveUp => {
                self.end = Some(GameEnd::GiveUp);
            },
        }
    }
}

/// Each turn keeps the state reachable.
pub proof fn lemma_step_keeps_reachable(state: (nat, Option<GameEnd>), outcome: GuessOutcome)
    requires
        reachable(state),
    ensures
        reachable(step(state, outcome)),
{
}

/// A round never lasts more than ten turns: whatever the outcomes, the turn
/// count stays within the limit, a round that is not over has played exactly
/// one turn per outcome, and after ten outcomes the round is over.
pub proof fn lemma_round_ends_in_time(outcomes: Seq<GuessOutcome>)
    ensures
        reachable(play(outcomes)),
        play(outcomes).1 is None ==> play(outcomes).0 == outcomes.len(),
        outcomes.len() >= MAX_GUESS ==> play(outcomes).1 is Some,
    decreases outcomes.len(),
{
    if outcomes.len() > 0 {
        lemma_round_ends_in_time(outcomes.drop_last());
        lemma_step_keeps_reachable(play(outcomes.drop_last()), outcomes.last());
    }
}

/// How a turn ends a round that is still going, whatever turn it is: Quit
/// keeps the score (the round is cleared), Out loses it, GiveUp gives up, and
/// a safe turn goes on until the tenth, which clears the round. Every outcome
/// counts one turn.
pub proof fn lemma_outcome_decides_ending(state: (nat, Option<GameEnd>))
    requires
        reachable(state),
        state.1 is None,
    ensures
        step(state, GuessOutcome::Quit) == (state.0 + 1, Some(GameEnd::Clear)),
        step(state, GuessOutcome::Out) == (state.0 + 1, Some(GameEnd::Fail)),
        step(state, GuessOutcome::GiveUp) == (state.0 + 1, Some(GameEnd::GiveUp)),
        step(state, GuessOutcome::Safe).0 == state.0 + 1,
        state.0 + 1 < MAX_GUESS ==> step(state, GuessOutcome::Safe).1 is None,
        state.0 + 1 == MAX_GUESS ==> step(state, GuessOutcome::Safe).1 == Some(GameEnd::Clear),
{
}

/// A round of `k` safe turns followed by a Quit is cleared, and one followed
/// by Out or GiveUp ends in Fail or GiveUp, for any `k` below the limit.
pub proof fn lemma_safe_turns_then_ending(k: nat)
    requires
        k < MAX_GUESS,
    ensures
        play(Seq::new(k, |i: int| GuessOutcome::Safe)) == (k, None::<GameEnd>),
        play(Seq::new(k, |i: int| GuessOutcome::Safe).push(GuessOutcome::Quit)) == (
            k + 1,
            Some(GameEnd::Clear),
        ),
        play(Seq::new(k, |i: int| GuessOutcome::Safe).push(GuessOutcome::Out)) == (
            k + 1,
            Some(GameEnd::Fail),
        ),
        play(Seq::new(k, |i: int| GuessOutcome::Safe).push(GuessOutcome::GiveUp)) == (
            k + 1,
            Some(GameEnd::GiveUp),
        ),
    decreases k,
{
    let safe = Seq::new(k, |i: int| GuessOutcome::Safe);
    if k > 0 {
        lemma_safe_turns_then_ending((k - 1) as nat);
        assert(safe.drop_last() =~= Seq::new((k - 1) as nat, |i: int| GuessOutcome::Safe));
    } else {
        assert(safe =~= Seq::<GuessOutcome>::empty());
    }
    assert(safe.push(GuessOutcome::Quit).drop_last() =~= safe);
    assert(safe.push(GuessOutcome::Out).drop_last() =~= safe);
    assert(safe.push(GuessOutcome::GiveUp).drop_last() =~= safe);
    lemma_outcome_decides_ending(play(safe));
}

/// Once a round is over, further outcomes change nothing.
pub proof fn lemma_over_is_final(state: (nat, Option<GameEnd>), outcome: GuessOutcome)
    requires
        state.1 is Some,
    ensures
        step(state, outcome) == state,
{
}

/// The offered words as the console game lists them: `1. first, 2. second, `
/// and so on, numbered from 1.
pub open spec fn choice_listing<E>(options: Seq<Word<E>>) -> Seq<char>
    decreases options.len(),
{
    if options.len() == 0 {
        Seq::empty()
    } else {
        choice_listing(options.drop_last()) + decimal_digits(options.len()) + ". "@
            + options.last().text@ + ", "@
    }
}

/// Lists the offered words with their numbers.
pub fn list_choices<E>(options: &Vec<Word<E>>) -> (listing: String)
    ensures
        listing@ == choice_listing(options@),
{
    let mut listing = String::new();
    let mut i: usize = 0;
    while i < options.len()
        invariant
            i <= options@.len(),
            listing@ == choice_listing(options@.take(i as int)),
        decreases options@.len() - i,
    {
        let number = decimal_text((i + 1) as u64);
        listing.append(number.as_str());
        listing.append(". ");
        listing.append(options[i].text.as_str());
        listing.append(", ");
        assert(options@.take(i + 1).drop_last() =~= options@.take(i as int));
        i = i + 1;
    }
    assert(options@.take(options@.len() as int) =~= options@);
    listing
}

} // verus!
