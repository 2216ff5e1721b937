//! Splitting one unit of input into tokens.
//!
//! A token is a maximal run of characters that holds no ASCII whitespace.
//! There is no quoting: the first token of a unit names a command and the
//! remaining ones are its positional arguments.

use vstd::prelude::*;
use crate::text::{chars_of, string_of, texts};

verus! {

/// The five ASCII whitespace characters: space, tab, line feed, form feed
/// and carriage return.
pub open spec fn is_space(c: char) -> bool {
    c == ' ' || c == '\t' || c == '\n' || c == '\x0C' || c == '\r'
}

/// Length of the longest prefix of `s` that holds no whitespace.
pub open spec fn word_len(s: Seq<char>) -> nat
    decreases s.len(),
{
    if s.len() > 0 && !is_space(s[0]) {
        1 + word_len(s.drop_first())
    } else {
        0
    }
}

/// The tokens of `s`, in the order in which they occur.
pub open spec fn tokens(s: Seq<char>) -> Seq<Seq<char>>
    decreases s.len(),
{
    if s.len() == 0 {
        Seq::empty()
    } else if is_space(s[0]) {
        tokens(s.drop_first())
    } else {
        let n = word_len(s);
        proof {
            lemma_word_len_bounds(s);
        }
        seq![s.take(n as int)] + tokens(s.skip(n as int))
    }
}

/// The word at the front of `s` fits in `s`, and is not empty when `s`
/// starts with a character that is no whitespace.
pub proof fn lemma_word_len_bounds(s: Seq<char>)
    ensures
        word_len(s) <= s.len(),
        s.len() > 0 && !is_space(s[0]) ==> word_len(s) >= 1,
    decreases s.len(),
{
    if s.len() > 0 && !is_space(s[0]) {
        lemma_word_len_bounds(s.drop_first());
    }
}

/// A run of `s` from `i` to `j` without whitespace is the front of the
/// word that starts at `i`.
proof fn lemma_word_len_run(s: Seq<char>, i: int, j: int)
    requires
        0 <= i <= j <= s.len(),
        forall|k: int| i <= k < j ==> !is_space(s[k]),
    ensures
        word_len(s.skip(i)) == (j - i) + word_len(s.skip(j)),
    decreases j - i,
{
    if i < j {
        assert(s.skip(i)[0] == s[i]);
        assert(s.skip(i).drop_first() == s.skip(i + 1));
        lemma_word_len_run(s, i + 1, j);
    }
}

/// Whitespace at position `i` belongs to no token.
proof fn lemma_tokens_skip_space(s: Seq<char>, i: int)
    requires
        0 <= i < s.len(),
        is_space(s[i]),
    ensures
        tokens(s.skip(i)) == tokens(s.skip(i + 1)),
{
    assert(s.skip(i)[0] == s[i]);
    assert(s.skip(i).drop_first() == s.skip(i + 1));
}

/// A maximal run without whitespace from `i` to `j` is the next token.
proof fn lemma_tokens_take_word(s: Seq<char>, i: int, j: int)
    requires
        0 <= i < j <= s.len(),
        forall|k: int| i <= k < j ==> !is_space(s[k]),
        j == s.len() || is_space(s[j]),
    ensures
        tokens(s.skip(i)) == seq![s.subrange(i, j)] + tokens(s.skip(j)),
{
    lemma_word_len_run(s, i, j);
    if j < s.len() {
        assert(s.skip(j)[0] == s[j]);
    }
    assert(word_len(s.skip(j)) == 0);
    let rest = s.skip(i);
    assert(rest[0] == s[i]);
    assert(rest.take(j - i) == s.subrange(i, j));
    assert(rest.skip(j - i) == s.skip(j));
}

/// Every token is a non-empty run that holds no whitespace.
pub proof fn lemma_tokens_are_words(s: Seq<char>)
    ensures
        forall|t: int| 0 <= t < tokens(s).len() ==> (#[trigger] tokens(s)[t]).len() > 0,
        forall|t: int, k: int|
            0 <= t < tokens(s).len() && 0 <= k < tokens(s)[t].len() ==> !is_space(
                #[trigger] tokens(s)[t][k],
            ),
    decreases s.len(),
{
    if s.len() == 0 {
        assert(tokens(s).len() == 0);
    } else if is_space(s[0]) {
        lemma_tokens_are_words(s.drop_first());
        assert(tokens(s) == tokens(s.drop_first()));
    } else {
        let n = word_len(s);
        lemma_word_len_bounds(s);
        lemma_word_has_no_space(s);
        lemma_tokens_are_words(s.skip(n as int));
        let first = s.take(n as int);
        let rest = tokens(s.skip(n as int));
        assert(tokens(s) == seq![first] + rest);
        assert forall|t: int| 0 <= t < tokens(s).len() implies (#[trigger] tokens(s)[t]).len()
            > 0 by {
            if t > 0 {
                assert(tokens(s)[t] == rest[t - 1]);
            }
        }
        assert forall|t: int, k: int|
            0 <= t < tokens(s).len() && 0 <= k < tokens(s)[t].len() implies !is_space(
            #[trigger] tokens(s)[t][k],
        ) by {
            if t > 0 {
                assert(tokens(s)[t] == rest[t - 1]);
            } else {
                assert(tokens(s)[0][k] == s[k]);
            }
        }
    }
}

/// The word at the front of `s` holds no whitespace.
proof fn lemma_word_has_no_space(s: Seq<char>)
    ensures
        forall|k: int| 0 <= k < word_len(s) ==> !is_space(#[trigger] s[k]),
    decreases s.len(),
{
    if s.len() > 0 && !is_space(s[0]) {
        lemma_word_has_no_space(s.drop_first());
        lemma_word_len_bounds(s);
        assert forall|k: int| 0 <= k < word_len(s) implies !is_space(#[trigger] s[k]) by {
            if k > 0 {
                assert(s[k] == s.drop_first()[k - 1]);
            }
        }
    }
}

/// A text has no token exactly when it is made of whitespace alone.
pub proof fn lemma_no_tokens_iff_blank(s: Seq<char>)
    ensures
        tokens(s).len() == 0 <==> forall|k: int| 0 <= k < s.len() ==> is_space(#[trigger] s[k]),
    decreases s.len(),
{
    if s.len() == 0 {
    } else if is_space(s[0]) {
        lemma_no_tokens_iff_blank(s.drop_first());
        let rest = s.drop_first();
        if tokens(s).len() == 0 {
            assert forall|k: int| 0 <= k < s.len() implies is_space(#[trigger] s[k]) by {
                if k > 0 {
                    assert(s[k] == rest[k - 1]);
                }
            }
        } else {
            let k = choose|k: int| 0 <= k < rest.len() && !is_space(#[trigger] rest[k]);
            assert(s[k + 1] == rest[k]);
        }
    } else {
        assert(!is_space(s[0]));
    }
}

/// Whether `c` is one of the five ASCII whitespace characters.
pub fn is_whitespace(c: char) -> (space: bool)
    ensures
        space == is_space(c),
{
    c == ' ' || c == '\t' || c == '\n' || c == '\x0C' || c == '\r'
}

/// Splits `unit` at ASCII whitespace. Runs of whitespace separate tokens
/// and never produce an empty one; a blank unit gives no token at all.
pub fn tokenize(unit: &str) -> (words: Vec<String>)
    ensures
        texts(words@) == tokens(unit@),
{
    let chars = chars_of(unit);
    let mut words: Vec<String> = Vec::new();
    let mut i: usize = 0;
    assert(chars@.skip(0) == chars@);
    assert(texts(words@) == Seq::<Seq<char>>::empty());
    while i < chars.len()
        invariant
            chars@ == unit@,
            i <= chars.len(),
            tokens(unit@) == texts(words@) + tokens(chars@.skip(i as int)),
        decreases chars.len() - i,
    {
        if is_whitespace(chars[i]) {
            proof {
                lemma_tokens_skip_space(chars@, i as int);
            }
            i += 1;
        } else {
            let mut j: usize = i + 1;
            while j < chars.len() && !is_whitespace(chars[j])
                invariant
                    i < j <= chars.len(),
                    forall|k: int| i <= k < j ==> !is_space(chars@[k]),
                decreases chars.len() - j,
            {
                j += 1;
            }
            let word = string_of(&chars, i, j);
            proof {
                lemma_tokens_take_word(chars@, i as int, j as int);
                assert(texts(words@.push(word)) == texts(words@) + seq![word@]);
            }
            words.push(word);
            i = j;
        }
    }
    assert(chars@.skip(chars.len() as int) == Seq::<char>::empty());
    words
}

} // verus!
