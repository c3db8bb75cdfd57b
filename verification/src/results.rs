//! The results of the rounds of the graphical game: each round's target
//! sentence and the similarity reached after each turn. Similarities are kept
//! opaque; they are measured and compared outside.

use vstd::prelude::*;

verus! {

/// One round: its target sentence and the score after each turn.
pub struct GameResult<S> {
    pub target_text: String,
    pub score_transition: Vec<S>,
}

impl<S> GameResult<S> {
    /// A round on `target_text` with no turn played yet.
    pub fn new(target_text: String) -> (r: GameResult<S>)
        ensures
            r.target_text == target_text,
            r.score_transition@ == Seq::<S>::empty(),
    {
        GameResult { target_text, score_transition: Vec::new() }
    }

    /// The round that nothing was played in: no target, no score.
    pub fn empty() -> (r: GameResult<S>)
        ensures
            r.target_text@ == Seq::<char>::empty(),
            r.score_transition@ == Seq::<S>::empty(),
    {
        GameResult { target_text: String::new(), score_transition: Vec::new() }
    }

    /// Records the score after a turn.
    pub fn push_score(&mut self, score: S)
        ensures
            final(self).target_text == old(self).target_text,
            final(self).score_transition@ == old(self).score_transition@.push(score),
    {
        self.score_transition.push(score);
    }

    /// The score after the last turn, if a turn was played.
    pub fn last_score(&self) -> (s: Option<&S>)
        ensures
            self.score_transition@.len() == 0 ==> s is None,
            self.score_transition@.len() > 0 ==> s == Some(&self.score_transition@.last()),
    {
        let n = self.score_transition.len();
        if n == 0 {
            None
        } else {
            Some(&self.score_transition[n - 1])
        }
    }
}

/// The results of the rounds played, oldest first.
pub struct ResultList<S>(pub Vec<GameResult<S>>);

impl<S> ResultList<S> {
    /// No round played yet.
    pub fn new() -> (l: ResultList<S>)
        ensures
            l.0@ == Seq::<GameResult<S>>::empty(),
    {
        ResultList(Vec::new())
    }

    /// Adds the result of the round that just ended, taking it out of
    /// `current`, which is left as an empty round.
    pub fn finish_round(&mut self, current: &mut GameResult<S>)
        ensures
            final(self).0@ == old(self).0@.push(*old(current)),
            final(current).target_text@ == Seq::<char>::empty(),
            final(current).score_transition@ == Seq::<S>::empty(),
    {
        let mut done = GameResult::empty();
        core::mem::swap(&mut done, current);
        self.0.push(done);
    }

    /// The target sentence of the last round, or the empty text when none
    /// was played.
    pub fn last_target_text(&self) -> (t: &str)
        ensures
            self.0@.len() == 0 ==> t@ == Seq::<char>::empty(),
            self.0@.len() > 0 ==> t@ == self.0@.last().target_text@,
    {
        let n = self.0.len();
        if n == 0 {
            proof {
                reveal_strlit("");
            }
            ""
        } else {
            self.0[n - 1].target_text.as_str()
        }
    }

    /// The last score of the last round, if that round has one.
    pub fn last_score(&self) -> (s: Option<&S>)
        ensures
            self.0@.len() == 0 ==> s is None,
            self.0@.len() > 0 ==> (self.0@.last().score_transition@.len() == 0 ==> s is None),
            self.0@.len() > 0 ==> (self.0@.last().score_transition@.len() > 0 ==> s == Some(
                &self.0@.last().score_transition@.last(),
            )),
    {
        let n = self.0.len();
        if n == 0 {
            None
        } else {
            self.0[n - 1].last_score()
        }
    }
}

} // verus!
