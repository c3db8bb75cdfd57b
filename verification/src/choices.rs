//! The random words offered to the player, and taking the one that is chosen.

use vstd::prelude::*;
use crate::words::{Word, WORD_SEPARATOR};

verus! {

/// How many words are offered at each turn.
pub const CHOICE_COUNT: usize = 4;

/// Draws `amount` distinct positions below `length`, in random order:
/// `rand::seq::index::sample` with the thread's random generator, which is
/// what rand's slice sampling uses underneath. It panics when `amount`
/// exceeds `length`, so that is left out. The positions depend on chance:
/// only their number, range and distinctness are stated.
#[verifier::external_body]
fn sample_indices(length: usize, amount: usize) -> (indices: Vec<usize>)
    requires
        amount <= length,
    ensures
        indices@.len() == amount,
        forall|i: int| 0 <= i < amount ==> #[trigger] indices@[i] < length,
        forall|i: int, j: int| 0 <= i < j < amount ==> indices@[i] != indices@[j],
{
    rand::seq::index::sample(&mut rand::rng(), length, amount).into_vec()
}

/// Whether `picks` lists distinct positions of a sequence of length `len`.
pub open spec fn distinct_positions(picks: Seq<usize>, len: nat) -> bool {
    &&& forall|i: int| 0 <= i < picks.len() ==> #[trigger] picks[i] < len
    &&& forall|i: int, j: int| 0 <= i < j < picks.len() ==> picks[i] != picks[j]
}

/// The number of words offered from a list of `len` words.
pub open spec fn choice_count(len: nat) -> nat {
    if len < CHOICE_COUNT {
        len
    } else {
        CHOICE_COUNT as nat
    }
}

/// Whether `options` are copies of the words of `words` at distinct
/// positions, in some order.
pub open spec fn drawn_from<T: Clone>(options: Seq<T>, words: Seq<T>) -> bool {
    exists|picks: Seq<usize>|
        {
            &&& picks.len() == options.len()
            &&& distinct_positions(picks, words.len())
            &&& forall|k: int|
                0 <= k < picks.len() ==> cloned(words[picks[k] as int], #[trigger] options[k])
        }
}

/// Whether the offered words carry the texts of words of the list at
/// distinct positions.
pub open spec fn texts_drawn_from<E>(options: Seq<Word<E>>, words: Seq<Word<E>>) -> bool {
    exists|picks: Seq<usize>|
        {
            &&& picks.len() == options.len()
            &&& distinct_positions(picks, words.len())
            &&& forall|k: int|
                0 <= k < picks.len() ==> (#[trigger] options[k]).text == words[picks[k] as int].text
        }
}

/// Words copied from a list keep the texts of the words they copy.
pub proof fn lemma_drawn_words_keep_texts<E: Clone>(options: Seq<Word<E>>, words: Seq<Word<E>>)
    requires
        drawn_from(options, words),
    ensures
        texts_drawn_from(options, words),
{
    let picks = choose|picks: Seq<usize>|
        {
            &&& picks.len() == options.len()
            &&& distinct_positions(picks, words.len())
            &&& forall|k: int|
                0 <= k < picks.len() ==> cloned(words[picks[k] as int], #[trigger] options[k])
        };
    assert forall|k: int| 0 <= k < picks.len() implies (#[trigger] options[k]).text
        == words[picks[k] as int].text by {
        assert(cloned(words[picks[k] as int], options[k]));
    }
}

/// The words of `words` at the positions `picks`, in the order of `picks`.
pub fn choices_at<T: Clone>(words: &[T], picks: &Vec<usize>) -> (options: Vec<T>)
    requires
        forall|i: int| 0 <= i < picks@.len() ==> #[trigger] picks@[i] < words@.len(),
    ensures
        options@.len() == picks@.len(),
        forall|k: int|
            0 <= k < picks@.len() ==> cloned(words@[picks@[k] as int], #[trigger] options@[k]),
{
    let mut options: Vec<T> = Vec::new();
    let mut k: usize = 0;
    while k < picks.len()
        invariant
            k <= picks@.len(),
            forall|i: int| 0 <= i < picks@.len() ==> #[trigger] picks@[i] < words@.len(),
            options@.len() == k,
            forall|i: int|
                0 <= i < k ==> cloned(words@[picks@[i] as int], #[trigger] options@[i]),
        decreases picks@.len() - k,
    {
        let word = words[picks[k]].clone();
        options.push(word);
        k = k + 1;
    }
    options
}

/// Offers up to four words of `words`, drawn at random without repetition
/// (all of them, in random order, when there are fewer than four).
pub fn random_choices<T: Clone>(words: &[T]) -> (options: Vec<T>)
    ensures
        options@.len() == choice_count(words@.len()),
        drawn_from(options@, words@),
{
    let len = words.len();
    let amount = if len < CHOICE_COUNT {
        len
    } else {
        CHOICE_COUNT
    };
    let picks = sample_indices(len, amount);
    let options = choices_at(words, &picks);
    assert(distinct_positions(picks@, words@.len()));
    assert(forall|k: int|
        0 <= k < picks@.len() ==> cloned(words@[picks@[k] as int], #[trigger] options@[k]));
    options
}

/// Takes the option at `index` out of `options`; the last option takes its
/// place, as `Vec::swap_remove` does.
pub fn pick_option<T>(options: &mut Vec<T>, index: usize) -> (picked: T)
    requires
        index < old(options)@.len(),
    ensures
        picked == old(options)@[index as int],
        final(options)@ == old(options)@.update(index as int, old(options)@.last()).drop_last(),
{
    options.swap_remove(index)
}

/// Takes the option that the player numbered `select_num`, counting from 1.
pub fn take_selected<T>(options: &mut Vec<T>, select_num: usize) -> (picked: T)
    requires
        1 <= select_num <= old(options)@.len(),
    ensures
        picked == old(options)@[select_num - 1],
        final(options)@ == old(options)@.update(select_num - 1, old(options)@.last()).drop_last(),
{
    pick_option(options, select_num - 1)
}

/// Takes the option at `index` out of `options` and adds its text to the
/// player's answer, whose embedding `embed` computes again.
pub fn add_option_to_answer<E, F: Fn(&str) -> E>(
    answer: &mut Word<E>,
    options: &mut Vec<Word<E>>,
    index: usize,
    embed: F,
)
    requires
        index < old(options)@.len(),
        forall|t: &str| #[trigger] embed.requires((t,)),
    ensures
        final(answer).text@ == old(answer).text@ + old(options)@[index as int].text@
            + WORD_SEPARATOR@,
        exists|t: &str|
            t@ == final(answer).text@ && #[trigger] embed.ensures((t,), final(answer).embedding),
        final(options)@ == old(options)@.update(index as int, old(options)@.last()).drop_last(),
{
    let chosen = pick_option(options, index);
    answer.join_string_with_comma(chosen.text, embed);
}

} // verus!
