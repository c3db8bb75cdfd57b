//! The graphical game: its screens, and the turns of a round played with
//! buttons.

use vstd::prelude::*;
use crate::choices::CHOICE_COUNT;

verus! {

/// The most turns that a round of the graphical game lasts.
pub const MAX_TURN: usize = 10;

/// The button number that the Quit button sends. Any number that does not
/// name an offered word means quit.
pub const QUIT_ID: usize = 4;

/// The screens of the graphical game.
#[derive(Debug, Clone, Copy, PartialEq, Eq, Structural)]
pub enum GameState {
    Start,
    TargetTextSetting,
    Guess,
    Result,
}

/// What moves the game from one screen to another.
#[derive(Debug, Clone, Copy, PartialEq, Eq, Structural)]
pub enum GameEvent {
    /// The Start button was pressed.
    StartPressed,
    /// Enter was pressed on an accepted target sentence.
    TargetConfirmed,
    /// The round ended: the turns ran out, Quit was pressed, or the answer
    /// came too close to the target.
    RoundOver,
    /// The Retry button was pressed.
    RetryPressed,
}

/// The screen after `event` on screen `state`. Each event is only listened
/// for on its own screen; elsewhere it changes nothing.
pub open spec fn next_state(state: GameState, event: GameEvent) -> GameState {
    match (state, event) {
        (GameState::Start, GameEvent::StartPressed) => GameState::TargetTextSetting,
        (GameState::TargetTextSetting, GameEvent::TargetConfirmed) => GameState::Guess,
        (GameState::Guess, GameEvent::RoundOver) => GameState::Result,
        (GameState::Result, GameEvent::RetryPressed) => GameState::Start,
        _ => state,
    }
}

impl GameState {
    /// The screen that the game starts on.
    pub fn initial() -> (s: GameState)
        ensures
            s == GameState::Start,
    {
        GameState::Start
    }

    /// The screen after `event`.
    pub fn next(self, event: GameEvent) -> (s: GameState)
        ensures
            s == next_state(self, event),
    {
        match (self, event) {
            (GameState::Start, GameEvent::StartPressed) => GameState::TargetTextSetting,
            (GameState::TargetTextSetting, GameEvent::TargetConfirmed) => GameState::Guess,
            (GameState::Guess, GameEvent::RoundOver) => GameState::Result,
            (GameState::Result, GameEvent::RetryPressed) => GameState::Start,
            _ => self,
        }
    }
}

/// A game goes round its screens: from the start, through the target
/// sentence, the turns and the result, back to the start.
pub proof fn lemma_screens_cycle()
    ensures
        next_state(
            next_state(
                next_state(
                    next_state(GameState::Start, GameEvent::StartPressed),
                    GameEvent::TargetConfirmed,
                ),
                GameEvent::RoundOver,
            ),
            GameEvent::RetryPressed,
        ) == GameState::Start,
{
}

/// Whether `id` names one of the offered words (and not the Quit button).
pub open spec fn is_word_choice(id: usize) -> bool {
    id < CHOICE_COUNT
}

/// Whether button `id` names an offered word.
pub fn word_choice(id: usize) -> (b: bool)
    ensures
        b == is_word_choice(id),
{
    id < CHOICE_COUNT
}

/// How many of the pressed buttons `ids` have their word added to the
/// answer: those before the first one that is not a word (Quit), which stops
/// the handling of the rest.
pub fn applicable_choices(ids: &[usize]) -> (n: usize)
    ensures
        n <= ids@.len(),
        forall|i: int| 0 <= i < n ==> is_word_choice(#[trigger] ids@[i]),
        n < ids@.len() ==> !is_word_choice(ids@[n as int]),
{
    let mut n: usize = 0;
    while n < ids.len() && word_choice(ids[n])
        invariant
            n <= ids@.len(),
            forall|i: int| 0 <= i < n ==> is_word_choice(#[trigger] ids@[i]),
        decreases ids@.len() - n,
    {
        n = n + 1;
    }
    n
}

/// Whether the round ends after a press that brought the turn count to
/// `count`: the turns ran out, or the press did not name a word (Quit).
pub open spec fn ends_round(count: nat, id: usize) -> bool {
    count >= MAX_TURN || !is_word_choice(id)
}

/// The number of turns played in the current round.
pub struct TurnCount(usize);

impl View for TurnCount {
    type V = nat;

    closed spec fn view(&self) -> nat {
        self.0 as nat
    }
}

impl TurnCount {
    /// No turn played yet.
    pub fn new() -> (t: TurnCount)
        ensures
            t@ == 0,
    {
        TurnCount(0)
    }

    /// The turns played.
    pub fn count(&self) -> (n: usize)
        ensures
            n == self@,
    {
        self.0
    }

    /// Starts a new round.
    pub fn reset(&mut self)
        ensures
            final(self)@ == 0,
    {
        self.0 = 0;
    }

    /// Counts a pressed button (a word or Quit) as one turn, and tells whether
    /// the round ends with it.
    pub fn record_choice(&mut self, id: usize) -> (round_over: bool)
        requires
            old(self)@ < usize::MAX,
        ensures
            final(self)@ == old(self)@ + 1,
            round_over == ends_round(final(self)@, id),
    {
        self.0 = self.0 + 1;
        self.0 >= MAX_TURN || !word_choice(id)
    }
}

/// From a new round, the tenth press ends it whatever was pressed, and Quit
/// (any press that names no word) ends it at once.
pub proof fn lemma_round_has_ten_turns(count: nat, id: usize)
    ensures
        count + 1 == MAX_TURN ==> ends_round(count + 1, id),
        !is_word_choice(id) ==> ends_round(count + 1, id),
        ends_round(count + 1, QUIT_ID),
        count + 1 < MAX_TURN && is_word_choice(id) ==> !ends_round(count + 1, id),
{
}

} // verus!
