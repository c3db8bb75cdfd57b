//! Character-level text handling: white space, trimming, word counting,
//! decimal numbers.

use vstd::prelude::*;

verus! {

/// The Unicode `White_Space` property, which std's `char::is_whitespace` answers.
pub open spec fn is_white_space(c: char) -> bool {
    ||| '\t' <= c <= '\r'
    ||| c == ' '
    ||| c == '\u{85}'
    ||| c == '\u{A0}'
    ||| c == '\u{1680}'
    ||| '\u{2000}' <= c <= '\u{200A}'
    ||| c == '\u{2028}'
    ||| c == '\u{2029}'
    ||| c == '\u{202F}'
    ||| c == '\u{205F}'
    ||| c == '\u{3000}'
}

/// Whether `c` is white space in the Unicode sense.
pub fn white_space(c: char) -> (b: bool)
    ensures
        b == is_white_space(c),
{
    ('\t' <= c && c <= '\r') || c == ' ' || c == '\u{85}' || c == '\u{A0}' || c == '\u{1680}'
        || ('\u{2000}' <= c && c <= '\u{200A}') || c == '\u{2028}' || c == '\u{2029}'
        || c == '\u{202F}' || c == '\u{205F}' || c == '\u{3000}'
}

/// `s` without its leading white space.
pub open spec fn trim_start(s: Seq<char>) -> Seq<char>
    decreases s.len(),
{
    if s.len() > 0 && is_white_space(s[0]) {
        trim_start(s.drop_first())
    } else {
        s
    }
}

/// `s` without its trailing white space.
pub open spec fn trim_end(s: Seq<char>) -> Seq<char>
    decreases s.len(),
{
    if s.len() > 0 && is_white_space(s.last()) {
        trim_end(s.drop_last())
    } else {
        s
    }
}

/// `s` without white space at either end, as std's `str::trim` gives it.
pub open spec fn trimmed(s: Seq<char>) -> Seq<char> {
    trim_end(trim_start(s))
}

/// Removes leading and trailing white space.
pub fn trim(s: &str) -> (t: &str)
    ensures
        t@ == trimmed(s@),
{
    let n = s.unicode_len();
    let mut i: usize = 0;
    assert(s@.subrange(0, n as int) =~= s@);
    while i < n && white_space(s.get_char(i))
        invariant
            n == s@.len(),
            i <= n,
            trim_start(s@.subrange(i as int, n as int)) == trim_start(s@),
        decreases n - i,
    {
        assert(s@.subrange(i as int, n as int).drop_first() =~= s@.subrange(i + 1, n as int));
        i = i + 1;
    }
    let mut j: usize = n;
    assert(trim_start(s@.subrange(i as int, n as int)) == s@.subrange(i as int, n as int));
    while j > i && white_space(s.get_char(j - 1))
        invariant
            n == s@.len(),
            i <= j <= n,
            trim_start(s@) == s@.subrange(i as int, n as int),
            trim_end(s@.subrange(i as int, j as int)) == trimmed(s@),
        decreases j,
    {
        assert(s@.subrange(i as int, j as int).drop_last() =~= s@.subrange(i as int, j - 1));
        j = j - 1;
    }
    s.substring_char(i, j)
}

/// Whether a word of `s` starts at position `i`: a character that is not white
/// space, with white space or the start of `s` before it.
pub open spec fn starts_word(s: Seq<char>, i: int) -> bool {
    &&& !is_white_space(s[i])
    &&& (i == 0 || is_white_space(s[i - 1]))
}

/// The number of words of `s`: the maximal runs of characters that are not
/// white space, which std's `str::split_whitespace` yields.
pub open spec fn word_count(s: Seq<char>) -> nat
    decreases s.len(),
{
    if s.len() == 0 {
        0
    } else {
        word_count(s.drop_last()) + if starts_word(s, s.len() - 1) {
            1nat
        } else {
            0nat
        }
    }
}

/// Counts the words of `s` that white space separates.
pub fn count_words(s: &str) -> (count: usize)
    ensures
        count == word_count(s@),
{
    let n = s.unicode_len();
    let mut count: usize = 0;
    let mut i: usize = 0;
    let mut prev_white = true;
    while i < n
        invariant
            n == s@.len(),
            i <= n,
            count <= i,
            count == word_count(s@.take(i as int)),
            i > 0 ==> prev_white == is_white_space(s@[i - 1]),
            i == 0 ==> prev_white,
        decreases n - i,
    {
        let c = s.get_char(i);
        let white = white_space(c);
        assert(s@.take(i + 1).drop_last() =~= s@.take(i as int));
        assert(starts_word(s@.take(i + 1), i as int) == starts_word(s@, i as int));
        if !white && prev_white {
            count = count + 1;
        }
        prev_white = white;
        i = i + 1;
    }
    assert(s@.take(n as int) =~= s@);
    count
}

/// Among ASCII characters, white space is exactly the space and tab, line
/// feed, vertical tab, form feed and carriage return; letters, digits and
/// punctuation (`!` to `~`) never are.
pub proof fn lemma_ascii_white_space(c: char)
    requires
        c <= '\u{7f}',
    ensures
        is_white_space(c) <==> (c == ' ' || c == '\t' || c == '\n' || c == '\u{0B}' || c == '\u{0C}'
            || c == '\r'),
        '!' <= c <= '~' ==> !is_white_space(c),
{
}

/// Whether `a` ends inside a word and `b` starts inside one, so that putting
/// them together joins two words into one.
pub open spec fn joins_words(a: Seq<char>, b: Seq<char>) -> bool {
    a.len() > 0 && b.len() > 0 && !is_white_space(a.last()) && !is_white_space(b[0])
}

/// The words of `a + b` are those of `a` and those of `b`, less one where the
/// last word of `a` and the first of `b` run together.
pub proof fn lemma_word_count_concat(a: Seq<char>, b: Seq<char>)
    ensures
        word_count(a + b) + (if joins_words(a, b) {
            1int
        } else {
            0int
        }) == word_count(a) + word_count(b),
    decreases b.len(),
{
    if b.len() == 0 {
        assert(a + b =~= a);
    } else {
        let b1 = b.drop_last();
        lemma_word_count_concat(a, b1);
        let ab = a + b;
        assert(ab.drop_last() =~= a + b1);
        let last = ab.len() - 1;
        assert(ab[last] == b.last());
        if b1.len() > 0 {
            assert(ab[last - 1] == b1.last());
            assert(b[b.len() - 2] == b1.last());
            assert(b1[0] == b[0]);
            assert(starts_word(ab, last) == starts_word(b, b.len() - 1));
            assert(joins_words(a, b) == joins_words(a, b1));
        } else {
            assert(word_count(b1) == 0);
            assert(b1 =~= Seq::<char>::empty());
            assert(word_count(b) == word_count(b.drop_last()) + if starts_word(b, 0) {
                1nat
            } else {
                0nat
            });
            if a.len() > 0 {
                assert(ab[last - 1] == a.last());
            }
        }
    }
}

/// Text with no white space at all is one word, or none when empty.
pub proof fn lemma_word_count_no_white_space(s: Seq<char>)
    requires
        forall|i: int| 0 <= i < s.len() ==> !is_white_space(#[trigger] s[i]),
    ensures
        word_count(s) == if s.len() == 0 {
            0nat
        } else {
            1nat
        },
    decreases s.len(),
{
    if s.len() > 0 {
        let s1 = s.drop_last();
        assert forall|i: int| 0 <= i < s1.len() implies !is_white_space(#[trigger] s1[i]) by {
            assert(s1[i] == s[i]);
        }
        lemma_word_count_no_white_space(s1);
        if s.len() > 1 {
            assert(!is_white_space(s[s.len() - 2]));
        }
    }
}

/// Text made only of white space has no word.
pub proof fn lemma_word_count_all_white_space(s: Seq<char>)
    requires
        forall|i: int| 0 <= i < s.len() ==> is_white_space(#[trigger] s[i]),
    ensures
        word_count(s) == 0,
    decreases s.len(),
{
    if s.len() > 0 {
        let s1 = s.drop_last();
        assert forall|i: int| 0 <= i < s1.len() implies is_white_space(#[trigger] s1[i]) by {
            assert(s1[i] == s[i]);
        }
        lemma_word_count_all_white_space(s1);
        assert(is_white_space(s[s.len() - 1]));
    }
}

/// Putting a white space character between two texts adds their words up.
pub proof fn lemma_word_count_separated(a: Seq<char>, c: char, b: Seq<char>)
    requires
        is_white_space(c),
    ensures
        word_count(a + seq![c] + b) == word_count(a) + word_count(b),
{
    lemma_word_count_concat(a, seq![c]);
    lemma_word_count_all_white_space(seq![c]);
    lemma_word_count_concat(a + seq![c], b);
}

/// Whether `a` and `b` hold the same characters.
pub fn same_text(a: &str, b: &str) -> (same: bool)
    ensures
        same == (a@ == b@),
{
    let n = a.unicode_len();
    if n != b.unicode_len() {
        return false;
    }
    let mut i: usize = 0;
    while i < n
        invariant
            n == a@.len(),
            n == b@.len(),
            i <= n,
            forall|k: int| 0 <= k < i ==> a@[k] == b@[k],
        decreases n - i,
    {
        if a.get_char(i) != b.get_char(i) {
            return false;
        }
        i = i + 1;
    }
    assert(a@ =~= b@);
    true
}

} // verus!
