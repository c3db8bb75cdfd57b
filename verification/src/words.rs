//! Words: their text with the embedding computed from it, the word list read
//! from CSV, and the saved lists of texts and embeddings.

use vstd::prelude::*;

verus! {

/// The text that a player's answer starts from, before any word is added.
pub const ANSWER_START: &'static str = "keywords: ";

/// The separator written after each word added to an answer.
pub const WORD_SEPARATOR: &'static str = ", ";

/// A text with the embedding computed from it. The embedding is kept opaque:
/// it is computed, compared and stored outside.
pub struct Word<E> {
    pub text: String,
    pub embedding: E,
}

impl<E: Clone> Clone for Word<E> {
    /// A copy of the word: the same text, and a clone of the embedding.
    fn clone(&self) -> (w: Self)
        ensures
            w.text == self.text,
            cloned(self.embedding, w.embedding),
    {
        Word { text: self.text.clone(), embedding: self.embedding.clone() }
    }
}

/// A list of words.
pub type Words<E> = Vec<Word<E>>;

impl<E> Word<E> {
    /// The word `text`, with the embedding that `embed` computes from it.
    pub fn new<F: Fn(&str) -> E>(text: &str, embed: F) -> (w: Word<E>)
        requires
            embed.requires((text,)),
        ensures
            w.text@ == text@,
            embed.ensures((text,), w.embedding),
    {
        let embedding = embed(text);
        Word { text: text.to_owned(), embedding }
    }

    /// Appends `addition` to the text and computes the embedding of the new text.
    pub fn push_str<F: Fn(&str) -> E>(&mut self, addition: &str, embed: F)
        requires
            forall|t: &str| #[trigger] embed.requires((t,)),
        ensures
            final(self).text@ == old(self).text@ + addition@,
            exists|t: &str|
                t@ == final(self).text@ && #[trigger] embed.ensures((t,), final(self).embedding),
    {
        self.text.append(addition);
        let t = self.text.as_str();
        let embedding = embed(t);
        let ghost typed: &str = t;
        self.embedding = embedding;
        assert(typed@ == self.text@ && embed.ensures((typed,), self.embedding));
    }

    /// Adds the chosen word `addition` to an answer: the word and `, ` are
    /// appended, and the embedding is computed again.
    pub fn join_string_with_comma<F: Fn(&str) -> E>(&mut self, addition: String, embed: F)
        requires
            forall|t: &str| #[trigger] embed.requires((t,)),
        ensures
            final(self).text@ == old(self).text@ + addition@ + WORD_SEPARATOR@,
            exists|t: &str|
                t@ == final(self).text@ && #[trigger] embed.ensures((t,), final(self).embedding),
    {
        let mut addition = addition;
        addition.append(WORD_SEPARATOR);
        self.push_str(addition.as_str(), embed);
    }
}

/// The smaller of two lengths.
pub open spec fn min_len(a: nat, b: nat) -> nat {
    if a <= b {
        a
    } else {
        b
    }
}

/// Pairs each saved text with the saved embedding at the same position, as
/// far as both lists go.
pub fn words_from_parts<E>(texts: Vec<String>, embeddings: Vec<E>) -> (words: Vec<Word<E>>)
    ensures
        words@.len() == min_len(texts@.len(), embeddings@.len()),
        forall|i: int|
            0 <= i < words@.len() ==> (#[trigger] words@[i]).text == texts@[i]
                && words@[i].embedding == embeddings@[i],
{
    let n = if texts.len() <= embeddings.len() {
        texts.len()
    } else {
        embeddings.len()
    };
    let ghost all_texts = texts@;
    let ghost all_embeddings = embeddings@;
    let mut texts = texts;
    let mut embeddings = embeddings;
    texts.truncate(n);
    embeddings.truncate(n);
    let mut reversed: Vec<Word<E>> = Vec::new();
    while texts.len() > 0
        invariant
            n <= all_texts.len(),
            n <= all_embeddings.len(),
            texts@.len() == embeddings@.len(),
            texts@.len() <= n,
            texts@ == all_texts.take(texts@.len() as int),
            embeddings@ == all_embeddings.take(embeddings@.len() as int),
            reversed@.len() + texts@.len() == n,
            forall|k: int|
                0 <= k < reversed@.len() ==> (#[trigger] reversed@[k]).text == all_texts[n - 1
                    - k] && reversed@[k].embedding == all_embeddings[n - 1 - k],
        decreases texts@.len(),
    {
        let text = texts.pop().unwrap();
        let embedding = embeddings.pop().unwrap();
        reversed.push(Word { text, embedding });
    }
    let mut words: Vec<Word<E>> = Vec::new();
    while reversed.len() > 0
        invariant
            n <= all_texts.len(),
            n <= all_embeddings.len(),
            words@.len() + reversed@.len() == n,
            forall|k: int|
                0 <= k < reversed@.len() ==> (#[trigger] reversed@[k]).text == all_texts[n - 1
                    - k] && reversed@[k].embedding == all_embeddings[n - 1 - k],
            forall|k: int|
                0 <= k < words@.len() ==> (#[trigger] words@[k]).text == all_texts[k]
                    && words@[k].embedding == all_embeddings[k],
        decreases reversed@.len(),
    {
        let word = reversed.pop().unwrap();
        words.push(word);
    }
    words
}

/// Splits words into the list of their texts and the list of their
/// embeddings, in the same order, for saving.
pub fn parts_of_words<E: Clone>(words: &Vec<Word<E>>) -> (parts: (Vec<String>, Vec<E>))
    ensures
        parts.0@.len() == words@.len(),
        parts.1@.len() == words@.len(),
        forall|i: int| 0 <= i < words@.len() ==> (#[trigger] parts.0@[i]) == words@[i].text,
        forall|i: int|
            0 <= i < words@.len() ==> cloned(words@[i].embedding, #[trigger] parts.1@[i]),
{
    let mut texts: Vec<String> = Vec::new();
    let mut embeddings: Vec<E> = Vec::new();
    let mut i: usize = 0;
    while i < words.len()
        invariant
            i <= words@.len(),
            texts@.len() == i,
            embeddings@.len() == i,
            forall|k: int| 0 <= k < i ==> (#[trigger] texts@[k]) == words@[k].text,
            forall|k: int| 0 <= k < i ==> cloned(words@[k].embedding, #[trigger] embeddings@[k]),
        decreases words@.len() - i,
    {
        texts.push(words[i].text.clone());
        embeddings.push(words[i].embedding.clone());
        i = i + 1;
    }
    (texts, embeddings)
}

/// The records that the csv crate reads from `text`, with no header row: each
/// record as its fields, or `None` where the reader reports an error.
pub uninterp spec fn csv_records_of(text: Seq<char>) -> Seq<Option<Seq<Seq<char>>>>;

/// Reads `text` as CSV with csv's `ReaderBuilder::new().has_headers(false)`
/// and its `records()` iterator, keeping every record in order: its fields as
/// strings, or `None` for a record read with an error. What the records are
/// is given the name `csv_records_of`; the CSV grammar is not stated here.
#[verifier::external_body]
fn read_csv_records(text: &str) -> (records: Vec<Option<Vec<String>>>)
    ensures
        records.deep_view() == csv_records_of(text@),
{
    let mut reader = csv::ReaderBuilder::new().has_headers(false).from_reader(text.as_bytes());
    reader.records().map(|r| r.ok().map(|rec| rec.iter().map(|f| f.to_string()).collect())).collect()
}

/// Whether every record was read without error and has a first field.
pub open spec fn records_usable(records: Seq<Option<Seq<Seq<char>>>>) -> bool {
    forall|i: int|
        0 <= i < records.len() ==> (#[trigger] records[i]) is Some && records[i]->0.len() > 0
}

/// The first field of each record.
pub open spec fn first_fields_of(records: Seq<Option<Seq<Seq<char>>>>) -> Seq<Seq<char>> {
    Seq::new(records.len(), |i: int| records[i]->0[0])
}

/// Whether every record can give its first field.
pub fn all_records_usable(records: &Vec<Option<Vec<String>>>) -> (ok: bool)
    ensures
        ok == records_usable(records.deep_view()),
{
    let mut i: usize = 0;
    while i < records.len()
        invariant
            i <= records@.len(),
            forall|k: int| 0 <= k < i ==> (#[trigger] records.deep_view()[k]) is Some
                && records.deep_view()[k]->0.len() > 0,
        decreases records@.len() - i,
    {
        match &records[i] {
            Some(fields) => {
                if fields.len() == 0 {
                    assert(records.deep_view()[i as int]->0.len() == 0);
                    return false;
                }
            },
            None => {
                assert(records.deep_view()[i as int] is None);
                return false;
            },
        }
        i = i + 1;
    }
    true
}

/// The first field of each record, in order.
pub fn first_fields(records: &Vec<Option<Vec<String>>>) -> (words: Vec<String>)
    requires
        records_usable(records.deep_view()),
    ensures
        words.deep_view() == first_fields_of(records.deep_view()),
{
    let mut words: Vec<String> = Vec::new();
    let mut i: usize = 0;
    while i < records.len()
        invariant
            i <= records@.len(),
            records_usable(records.deep_view()),
            words@.len() == i,
            forall|k: int| 0 <= k < i ==> (#[trigger] words@[k])@ == records.deep_view()[k]->0[0],
        decreases records@.len() - i,
    {
        assert(records.deep_view()[i as int] is Some);
        match &records[i] {
            Some(fields) => {
                assert(fields.deep_view() == records.deep_view()[i as int]->0);
                words.push(fields[0].clone());
            },
            None => {},
        }
        i = i + 1;
    }
    assert(words.deep_view() =~= first_fields_of(records.deep_view()));
    words
}

/// The word list written in CSV: the first field of each line.
pub fn load_words(string: &str) -> (words: Vec<String>)
    requires
        records_usable(csv_records_of(string@)),
    ensures
        words.deep_view() == first_fields_of(csv_records_of(string@)),
{
    let records = read_csv_records(string);
    first_fields(&records)
}

/// The word list written in CSV, or `None` when a line cannot be read or has
/// no field.
pub fn try_load_words(string: &str) -> (words: Option<Vec<String>>)
    ensures
        words is Some <==> records_usable(csv_records_of(string@)),
        words matches Some(w) ==> w.deep_view() == first_fields_of(csv_records_of(string@)),
{
    let records = read_csv_records(string);
    if all_records_usable(&records) {
        Some(load_words(string))
    } else {
        None
    }
}

} // verus!
