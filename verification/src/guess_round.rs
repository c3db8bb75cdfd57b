//! One round of the graphical game, from the target sentence to the filed
//! result: what each button press does to the answer, the offered words, the
//! turn count and the list of results. The embedding of a text and the
//! similarity of an answer to the target are computed outside, by the
//! functions handed in.

use vstd::prelude::*;
use crate::choices::{
    add_option_to_answer, choice_count, drawn_from, lemma_drawn_words_keep_texts, random_choices,
    texts_drawn_from,
};
use crate::results::{GameResult, ResultList};
use crate::round::{ends_round, is_word_choice, word_choice, TurnCount, MAX_TURN};
use crate::target::TargetText;
use crate::words::{Word, ANSWER_START, WORD_SEPARATOR};

verus! {

/// A round of the graphical game in progress.
pub struct GuessRound<E, S> {
    /// The target sentence, with its embedding, that answers are measured against.
    pub target: Word<E>,
    /// The player's answer: `keywords: ` and the words chosen so far.
    pub answer: Word<E>,
    /// The words offered for the next press.
    pub options: Vec<Word<E>>,
    /// The target sentence and the scores so far, until the round is filed.
    pub current: GameResult<S>,
    /// The turns played.
    pub turns: TurnCount,
    /// Whether the round has ended and its result was filed.
    pub over: bool,
}

impl<E, S> GuessRound<E, S> {
    /// The turns played.
    pub open spec fn turns(&self) -> nat {
        self.turns@
    }

    /// Whether the round has ended and its result was filed.
    pub open spec fn is_over(&self) -> bool {
        self.over
    }

    /// A round in progress has turns left; the count never passes the limit.
    pub open spec fn wf(&self) -> bool {
        &&& self.turns() <= MAX_TURN
        &&& !self.is_over() ==> self.turns() < MAX_TURN
    }

    /// The turns played.
    pub fn turn_count(&self) -> (n: usize)
        ensures
            n == self.turns(),
    {
        self.turns.count()
    }

    /// Whether the round has ended.
    pub fn over(&self) -> (b: bool)
        ensures
            b == self.is_over(),
    {
        self.over
    }
}

impl<E: Clone, S> GuessRound<E, S> {
    /// Starts a round on the sentence typed in `target_text`, which is taken
    /// out of the text box: the answer is `keywords: `, four words are
    /// offered, and no turn is played yet.
    pub fn start<F: Fn(&str) -> E>(target_text: &mut TargetText, words: &[Word<E>], embed: F) -> (r:
        GuessRound<E, S>)
        requires
            forall|t: &str| #[trigger] embed.requires((t,)),
        ensures
            r.wf(),
            !r.is_over(),
            r.turns() == 0,
            r.target.text@ == old(target_text)@,
            exists|t: &str| t@ == old(target_text)@ && #[trigger] embed.ensures((t,), r.target.embedding),
            r.answer.text@ == ANSWER_START@,
            exists|t: &str| t@ == ANSWER_START@ && #[trigger] embed.ensures((t,), r.answer.embedding),
            r.options@.len() == choice_count(words@.len()),
            drawn_from(r.options@, words@),
            texts_drawn_from(r.options@, words@),
            r.current.target_text@ == old(target_text)@,
            r.current.score_transition@ == Seq::<S>::empty(),
            final(target_text)@ == Seq::<char>::empty(),
    {
        let typed = target_text.as_str();
        let target = Word { text: typed.to_owned(), embedding: embed(typed) };
        let ghost typed_g: &str = typed;
        assert(typed_g@ == old(target_text)@ && embed.ensures((typed_g,), target.embedding));
        let answer = Word::new(ANSWER_START, embed);
        let text = target_text.take();
        let options = random_choices(words);
        proof {
            lemma_drawn_words_keep_texts(options@, words@);
        }
        GuessRound {
            target,
            answer,
            options,
            current: GameResult::new(text),
            turns: TurnCount::new(),
            over: false,
        }
    }

    /// Handles a press of button `id`. A word (0 to 3) is added to the
    /// answer, whose embedding is computed again; new words are offered; and
    /// `measure` gives the answer's score against the target and whether it
    /// reached the threshold, and the score is recorded. Any press counts as a turn. The
    /// round ends when the threshold was reached, the turns ran out, or the
    /// press named no word (Quit); then its result is filed in `results` and
    /// the round's record is left empty.
    pub fn press<F: Fn(&str) -> E, G: Fn(&Word<E>, &Word<E>) -> (S, bool)>(
        &mut self,
        id: usize,
        words: &[Word<E>],
        results: &mut ResultList<S>,
        embed: F,
        measure: G,
    ) -> (round_over: bool)
        requires
            old(self).wf(),
            !old(self).is_over(),
            is_word_choice(id) ==> id < old(self).options@.len(),
            forall|t: &str| #[trigger] embed.requires((t,)),
            forall|t: &Word<E>, w: &Word<E>| #[trigger] measure.requires((t, w)),
        ensures
            final(self).wf(),
            final(self).turns() == old(self).turns() + 1,
            final(self).is_over() == round_over,
            final(self).target == old(self).target,
            is_word_choice(id) ==> {
                &&& final(self).answer.text@ == old(self).answer.text@ + old(
                    self,
                ).options@[id as int].text@ + WORD_SEPARATOR@
                &&& exists|t: &str|
                    t@ == final(self).answer.text@ && #[trigger] embed.ensures(
                        (t,),
                        final(self).answer.embedding,
                    )
                &&& final(self).options@.len() == choice_count(words@.len())
                &&& drawn_from(final(self).options@, words@)
                &&& texts_drawn_from(final(self).options@, words@)
            },
            !is_word_choice(id) ==> final(self).answer == old(self).answer && final(self).options
                == old(self).options,
            round_over ==> {
                &&& final(results).0@.len() == old(results).0@.len() + 1
                &&& final(results).0@.drop_last() == old(results).0@
                &&& final(results).0@.last().target_text == old(self).current.target_text
                &&& final(self).current.target_text@ == Seq::<char>::empty()
                &&& final(self).current.score_transition@ == Seq::<S>::empty()
            },
            !round_over ==> {
                &&& final(results).0@ == old(results).0@
                &&& final(self).current.target_text == old(self).current.target_text
            },
            !is_word_choice(id) ==> round_over && filed(final(self).current, *final(results), round_over).score_transition@
                == old(self).current.score_transition@,
            is_word_choice(id) ==> {
                let scores = filed(final(self).current, *final(results), round_over).score_transition@;
                &&& scores.len() == old(self).current.score_transition@.len() + 1
                &&& scores.drop_last() == old(self).current.score_transition@
                &&& exists|broke: bool|
                    #[trigger] measure.ensures(
                        (&final(self).target, &final(self).answer),
                        (scores.last(), broke),
                    )
                        && round_over == (broke || ends_round(final(self).turns(), id))
            },
    {
        let ghost old_scores = self.current.score_transition@;
        let ghost old_results = results.0@;
        let mut broke = false;
        if word_choice(id) {
            add_option_to_answer(&mut self.answer, &mut self.options, id, embed);
            self.options = random_choices(words);
            proof {
                lemma_drawn_words_keep_texts(self.options@, words@);
            }
            let (score, b) = measure(&self.target, &self.answer);
            self.current.push_score(score);
            broke = b;
        }
        let turns_over = self.turns.record_choice(id);
        let over = broke || turns_over;
        let ghost kept = self.current;
        if over {
            results.finish_round(&mut self.current);
            assert(results.0@.drop_last() =~= old_results);
            self.over = true;
        }
        proof {
            if over {
                assert(results.0@.last() == kept);
            }
            if is_word_choice(id) {
                let sc = kept.score_transition@;
                assert(sc.drop_last() =~= old_scores);
                assert(measure.ensures((&self.target, &self.answer), (sc.last(), broke)));
            }
        }
        over
    }
}

/// The record that holds the round's scores after a press: the filed result
/// when the press ended the round, the round's own record otherwise.
pub open spec fn filed<S>(current: GameResult<S>, results: ResultList<S>, round_over: bool) -> GameResult<S> {
    if round_over {
        results.0@.last()
    } else {
        current
    }
}

/// A round lasts at most ten presses: while it is in progress it has turns
/// left, and the press that reaches the limit ends it.
pub proof fn lemma_guess_round_bounded<E, S>(r: GuessRound<E, S>, id: usize)
    requires
        r.wf(),
    ensures
        !r.is_over() ==> r.turns() < MAX_TURN,
        r.turns() + 1 >= MAX_TURN ==> ends_round(r.turns() + 1, id),
{
}

} // verus!
