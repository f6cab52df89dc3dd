//! Substring search and whitespace tokenisation on character sequences.

use vstd::prelude::*;

verus! {

/// `needle` occurs in `haystack` as a contiguous run of characters.
pub open spec fn is_substring(needle: Seq<char>, haystack: Seq<char>) -> bool {
    exists|at: int| occurs_at(needle, haystack, at)
}

/// `needle` occurs in `haystack` starting at position `at`.
pub open spec fn occurs_at(needle: Seq<char>, haystack: Seq<char>, at: int) -> bool {
    &&& 0 <= at
    &&& at + needle.len() <= haystack.len()
    &&& haystack.subrange(at, at + needle.len()) == needle
}

/// Substring test by `str::contains` with a string pattern.
///
/// The standard library reports whether the pattern matches a sub-slice of
/// the haystack. Both are valid UTF-8, so a match of the encoded bytes is a
/// match of the characters: the result is `true` exactly when the needle's
/// characters occur contiguously in the haystack's.
#[verifier::external_body]
pub(crate) fn str_contains(haystack: &str, needle: &str) -> (found: bool)
    ensures
        found == is_substring(needle@, haystack@),
{
    haystack.contains(needle)
}

/// The character has the Unicode property `White_Space`.
pub open spec fn is_whitespace(c: char) -> bool {
    let code = c as u32;
    ||| 0x0009 <= code <= 0x000D
    ||| code == 0x0020
    ||| code == 0x0085
    ||| code == 0x00A0
    ||| code == 0x1680
    ||| 0x2000 <= code <= 0x200A
    ||| code == 0x2028
    ||| code == 0x2029
    ||| code == 0x202F
    ||| code == 0x205F
    ||| code == 0x3000
}

/// The length of the longest prefix of `text` that holds no whitespace.
pub open spec fn word_len(text: Seq<char>) -> nat
    decreases text.len(),
{
    if text.len() == 0 || is_whitespace(text[0]) {
        0
    } else {
        1 + word_len(text.drop_first())
    }
}

/// The tokens of `text`: its maximal runs of characters other than
/// whitespace, in the order in which they occur.
pub open spec fn whitespace_tokens(text: Seq<char>) -> Seq<Seq<char>>
    decreases text.len(),
    via whitespace_tokens_decreases
{
    if text.len() == 0 {
        Seq::empty()
    } else if is_whitespace(text[0]) {
        whitespace_tokens(text.drop_first())
    } else {
        let n = word_len(text) as int;
        seq![text.take(n)] + whitespace_tokens(text.skip(n))
    }
}

#[via_fn]
proof fn whitespace_tokens_decreases(text: Seq<char>) {
    lemma_word_len(text);
}

/// The leading word of a text ends within the text, holds no whitespace, and
/// is followed by whitespace or by the end of the text.
pub proof fn lemma_word_len(text: Seq<char>)
    ensures
        word_len(text) <= text.len(),
        text.len() > 0 && !is_whitespace(text[0]) ==> word_len(text) >= 1,
        forall|i: int| 0 <= i < word_len(text) ==> !is_whitespace(#[trigger] text[i]),
        word_len(text) < text.len() ==> is_whitespace(text[word_len(text) as int]),
    decreases text.len(),
{
    if text.len() > 0 && !is_whitespace(text[0]) {
        let rest = text.drop_first();
        lemma_word_len(rest);
        assert forall|i: int| 0 <= i < word_len(text) implies !is_whitespace(#[trigger] text[i]) by {
            if i > 0 {
                assert(text[i] == rest[i - 1]);
            }
        }
        if word_len(text) < text.len() {
            assert(text[word_len(text) as int] == rest[word_len(rest) as int]);
        }
    }
}

/// The text is not empty and holds no whitespace.
pub open spec fn is_word(text: Seq<char>) -> bool {
    &&& text.len() > 0
    &&& forall|j: int| 0 <= j < text.len() ==> !is_whitespace(#[trigger] text[j])
}

/// What occurs in a part of a text occurs in the text.
pub proof fn lemma_substring_transitive(inner: Seq<char>, middle: Seq<char>, outer: Seq<char>)
    requires
        is_substring(inner, middle),
        is_substring(middle, outer),
    ensures
        is_substring(inner, outer),
{
    let a = choose|a: int| occurs_at(inner, middle, a);
    let b = choose|b: int| occurs_at(middle, outer, b);
    assert(outer.subrange(a + b, a + b + inner.len()) =~= outer.subrange(
        b,
        b + middle.len(),
    ).subrange(a, a + inner.len()));
    assert(occurs_at(inner, outer, a + b));
}

/// Every token is a word and occurs in the text.
pub proof fn lemma_tokens_within_text(text: Seq<char>)
    ensures
        forall|k: int|
            0 <= k < whitespace_tokens(text).len() ==> is_word(#[trigger] whitespace_tokens(text)[k])
                && is_substring(whitespace_tokens(text)[k], text),
    decreases text.len(),
{
    let tokens = whitespace_tokens(text);
    if text.len() == 0 {
    } else if is_whitespace(text[0]) {
        let rest = text.drop_first();
        let later = whitespace_tokens(rest);
        lemma_tokens_within_text(rest);
        assert(tokens == later);
        assert forall|k: int| 0 <= k < tokens.len() implies is_word(#[trigger] tokens[k])
            && is_substring(tokens[k], text) by {
            let token = later[k];
            assert(is_substring(token, rest));
            let a = choose|a: int| occurs_at(token, rest, a);
            assert(text.subrange(a + 1, a + 1 + token.len()) =~= rest.subrange(a, a + token.len()));
            assert(occurs_at(token, text, a + 1));
        }
    } else {
        lemma_word_len(text);
        let n = word_len(text) as int;
        let rest = text.skip(n);
        let later = whitespace_tokens(rest);
        lemma_tokens_within_text(rest);
        assert forall|k: int| 0 <= k < tokens.len() implies is_word(#[trigger] tokens[k])
            && is_substring(tokens[k], text) by {
            if k == 0 {
                assert(tokens[0] == text.take(n));
                assert(text.subrange(0, n) =~= text.take(n));
                assert(occurs_at(tokens[0], text, 0));
            } else {
                let token = later[k - 1];
                assert(tokens[k] == token);
                assert(is_substring(token, rest));
                let a = choose|a: int| occurs_at(token, rest, a);
                assert(text.subrange(a + n, a + n + token.len()) =~= rest.subrange(
                    a,
                    a + token.len(),
                ));
                assert(occurs_at(token, text, a + n));
            }
        }
    }
}

/// A word that occurs in a text occurs within one of its tokens.
pub proof fn lemma_word_within_token(word: Seq<char>, text: Seq<char>)
    requires
        is_word(word),
        is_substring(word, text),
    ensures
        exists|k: int|
            0 <= k < whitespace_tokens(text).len() && is_substring(
                word,
                #[trigger] whitespace_tokens(text)[k],
            ),
    decreases text.len(),
{
    let tokens = whitespace_tokens(text);
    let at = choose|at: int| occurs_at(word, text, at);
    assert(text.subrange(at, at + word.len())[0] == word[0]);
    if is_whitespace(text[0]) {
        let rest = text.drop_first();
        assert(at >= 1);
        assert(rest.subrange(at - 1, at - 1 + word.len()) =~= text.subrange(at, at + word.len()));
        assert(occurs_at(word, rest, at - 1));
        lemma_word_within_token(word, rest);
    } else {
        lemma_word_len(text);
        let n = word_len(text) as int;
        let rest = text.skip(n);
        if at + word.len() <= n {
            assert(text.take(n).subrange(at, at + word.len()) =~= text.subrange(
                at,
                at + word.len(),
            ));
            assert(occurs_at(word, tokens[0], at));
            assert(is_substring(word, tokens[0]));
        } else if at >= n {
            assert(rest.subrange(at - n, at - n + word.len()) =~= text.subrange(
                at,
                at + word.len(),
            ));
            assert(occurs_at(word, rest, at - n));
            lemma_word_within_token(word, rest);
            let k = choose|k: int|
                0 <= k < whitespace_tokens(rest).len() && is_substring(
                    word,
                    #[trigger] whitespace_tokens(rest)[k],
                );
            assert(tokens[k + 1] == whitespace_tokens(rest)[k]);
        } else {
            assert(text.subrange(at, at + word.len())[n - at] == word[n - at]);
            assert(is_whitespace(text[n]));
            assert(false);
        }
    }
}

/// Tokens of a text: `str::split_whitespace`, collected into a vector.
///
/// The standard library yields, in order, the sub-slices of the text that
/// are separated by any amount of whitespace, where whitespace is a
/// character with the Unicode property `White_Space`; an empty text and one
/// of whitespace only yield none. These are the maximal runs of characters
/// other than whitespace.
#[verifier::external_body]
pub(crate) fn split_whitespace<'a>(text: &'a str) -> (tokens: Vec<&'a str>)
    ensures
        tokens.deep_view() == whitespace_tokens(text@),
{
    text.split_whitespace().collect()
}

} // verus!
