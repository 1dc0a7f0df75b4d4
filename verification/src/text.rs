//! Characters and words of a line.

use vstd::prelude::*;
use vstd::std_specs::iter::IteratorSpec;

verus! {

/// The characters that separate the words of a line: those with the Unicode
/// property `White_Space`.
pub open spec fn is_whitespace(c: char) -> bool {
    let n = c as u32;
    ||| 0x09 <= n <= 0x0D
    ||| n == 0x20
    ||| n == 0x85
    ||| n == 0xA0
    ||| n == 0x1680
    ||| 0x2000 <= n <= 0x200A
    ||| n == 0x2028
    ||| n == 0x2029
    ||| n == 0x202F
    ||| n == 0x205F
    ||| n == 0x3000
}

/// Where the run of non-whitespace characters that covers position `i` ends:
/// the first position from `i` on that holds whitespace, or the end of `s`.
pub open spec fn word_end(s: Seq<char>, i: int) -> int
    decreases s.len() - i,
{
    if i < 0 || i >= s.len() || is_whitespace(s[i]) {
        i
    } else {
        word_end(s, i + 1)
    }
}

/// The words of `s` that start at position `i` or later, in order.
pub open spec fn words_from(s: Seq<char>, i: int) -> Seq<Seq<char>>
    decreases s.len() - i,
{
    if i < 0 || i >= s.len() {
        Seq::empty()
    } else if is_whitespace(s[i]) {
        words_from(s, i + 1)
    } else {
        proof {
            lemma_word_end_bounds(s, i + 1);
        }
        seq![s.subrange(i, word_end(s, i))] + words_from(s, word_end(s, i))
    }
}

/// The words of `s`: its maximal runs of characters that are not whitespace,
/// from left to right.
pub open spec fn words(s: Seq<char>) -> Seq<Seq<char>> {
    words_from(s, 0)
}

pub proof fn lemma_word_end_bounds(s: Seq<char>, i: int)
    requires
        0 <= i <= s.len(),
    ensures
        i <= word_end(s, i) <= s.len(),
    decreases s.len() - i,
{
    if i < s.len() && !is_whitespace(s[i]) {
        lemma_word_end_bounds(s, i + 1);
    }
}

/// No whitespace stands between a position and the end of its word.
pub proof fn lemma_word_is_solid(s: Seq<char>, i: int)
    requires
        0 <= i <= s.len(),
    ensures
        forall|j: int| i <= j < word_end(s, i) ==> !is_whitespace(#[trigger] s[j]),
    decreases s.len() - i,
{
    if i < s.len() && !is_whitespace(s[i]) {
        lemma_word_is_solid(s, i + 1);
    }
}

/// A word: at least one character, and none that is whitespace.
pub open spec fn is_word(word: Seq<char>) -> bool {
    word.len() > 0 && forall|j: int| 0 <= j < word.len() ==> !is_whitespace(#[trigger] word[j])
}

/// What `words_from` gives are words.
pub proof fn lemma_words_are_words(s: Seq<char>, i: int)
    requires
        0 <= i,
    ensures
        forall|k: int| 0 <= k < words_from(s, i).len() ==> is_word(#[trigger] words_from(s, i)[k]),
    decreases s.len() - i,
{
    if i >= s.len() {
        assert(words_from(s, i).len() == 0);
    } else if is_whitespace(s[i]) {
        lemma_words_are_words(s, i + 1);
        assert(words_from(s, i) == words_from(s, i + 1));
    } else {
        let end = word_end(s, i);
        lemma_word_end_bounds(s, i + 1);
        lemma_word_is_solid(s, i);
        lemma_words_are_words(s, end);
        let first = s.subrange(i, end);
        let rest = words_from(s, end);
        assert(words_from(s, i) == seq![first] + rest);
        assert(is_word(first)) by {
            assert forall|j: int| 0 <= j < first.len() implies !is_whitespace(
                #[trigger] first[j],
            ) by {
                assert(first[j] == s[i + j]);
            }
        }
        assert forall|k: int| 0 <= k < words_from(s, i).len() implies is_word(
            #[trigger] words_from(s, i)[k],
        ) by {
            if k > 0 {
                assert(words_from(s, i)[k] == rest[k - 1]);
            } else {
                assert(words_from(s, i)[k] == first);
            }
        }
    }
}

/// Tells whether `c` separates words.
pub fn is_space(c: char) -> (b: bool)
    ensures
        b == is_whitespace(c),
{
    let n: u32 = c as u32;
    (0x09 <= n && n <= 0x0D) || n == 0x20 || n == 0x85 || n == 0xA0 || n == 0x1680 || (0x2000 <= n
        && n <= 0x200A) || n == 0x2028 || n == 0x2029 || n == 0x202F || n == 0x205F || n == 0x3000
}

/// The characters of `s`, in order.
pub fn to_chars(s: &str) -> (chars: Vec<char>)
    ensures
        chars@ == s@,
{
    let mut chars: Vec<char> = Vec::new();
    for c in it: s.chars()
        invariant
            chars@ == it.seq().take(it.index() as int),
            it.seq() == s@,
    {
        chars.push(c);
    }
    chars
}

/// Finds the first `limit` words of `text`, each as the positions where it
/// starts and ends.
pub fn leading_words(text: &[char], limit: usize) -> (spans: Vec<(usize, usize)>)
    ensures
        spans.len() <= limit,
        spans.len() <= words(text@).len(),
        spans.len() == limit || spans.len() == words(text@).len(),
        forall|k: int|
            #![trigger spans[k]]
            0 <= k < spans.len() ==> {
                &&& spans[k].0 <= spans[k].1 <= text@.len()
                &&& text@.subrange(spans[k].0 as int, spans[k].1 as int) == words(text@)[k]
            },
{
    let mut spans: Vec<(usize, usize)> = Vec::new();
    let ghost mut found: Seq<Seq<char>> = Seq::empty();
    let mut i: usize = 0;
    while i < text.len() && spans.len() < limit
        invariant
            i <= text@.len(),
            spans.len() <= limit,
            found.len() == spans.len(),
            words(text@) == found + words_from(text@, i as int),
            forall|k: int|
                #![trigger spans[k]]
                0 <= k < spans.len() ==> {
                    &&& spans[k].0 <= spans[k].1 <= text@.len()
                    &&& text@.subrange(spans[k].0 as int, spans[k].1 as int) == found[k]
                },
        decreases text@.len() - i,
    {
        if is_space(text[i]) {
            i += 1;
        } else {
            let start: usize = i;
            while i < text.len() && !is_space(text[i])
                invariant
                    start <= i <= text@.len(),
                    word_end(text@, start as int) == word_end(text@, i as int),
                decreases text@.len() - i,
            {
                i += 1;
            }
            proof {
                let word = text@.subrange(start as int, i as int);
                assert(found.push(word) + words_from(text@, i as int) == found + (seq![word]
                    + words_from(text@, i as int)));
                found = found.push(word);
            }
            spans.push((start, i));
        }
    }
    spans
}

} // verus!
