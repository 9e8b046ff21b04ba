//! Fenced code blocks: the language token.
use vstd::prelude::*;

use crate::chars::{chars_of, is_space, trimmed_start};

verus! {

/// How many characters at the front of `text` satisfy `keep`.
pub open spec fn leading_run(text: Seq<char>, keep: spec_fn(char) -> bool) -> int
    decreases text.len(),
{
    if text.len() > 0 && keep(text[0]) {
        1 + leading_run(text.drop_first(), keep)
    } else {
        0
    }
}

/// `text` without the dots at either end.
pub open spec fn without_outer_dots(text: Seq<char>) -> Seq<char>
    decreases text.len(),
{
    if text.len() > 0 && text[0] == '.' {
        without_outer_dots(text.drop_first())
    } else if text.len() > 0 && text.last() == '.' {
        without_outer_dots(text.drop_last())
    } else {
        text
    }
}

/// The first word of a fence's info string.
pub open spec fn first_word(info: Seq<char>) -> Seq<char> {
    let rest = trimmed_start(info);
    rest.take(leading_run(rest, |c: char| !is_space(c)))
}

/// The language named by a fence's info string: its first word, up to a comma or an opening brace,
/// without dots around it.
pub open spec fn language_token(info: Seq<char>) -> Seq<char> {
    let word = first_word(info);
    without_outer_dots(word.take(leading_run(word, |c: char| c != ',' && c != '{')))
}

proof fn lemma_leading_run(text: Seq<char>, keep: spec_fn(char) -> bool, k: int)
    requires
        0 <= k <= text.len(),
        forall|i: int| 0 <= i < k ==> keep(#[trigger] text[i]),
        k < text.len() ==> !keep(text[k]),
    ensures
        leading_run(text, keep) == k,
    decreases text.len(),
{
    if k > 0 {
        assert(keep(text[0]));
        let rest = text.drop_first();
        assert forall|i: int| 0 <= i < k - 1 implies keep(#[trigger] rest[i]) by {
            assert(rest[i] == text[i + 1]);
        }
        lemma_leading_run(rest, keep, k - 1);
    }
}

/// The language named by a fence's info string, if it names one.
pub fn extract_code_block_language_token(info: &str) -> (token: Option<&str>)
    ensures
        token is None <==> language_token(info@).len() == 0,
        token is Some ==> token->0@ == language_token(info@),
{
    let chars = chars_of(info);
    let mut start: usize = 0;
    assert(chars@.skip(0) == chars@);
    while start < chars.len() && chars[start].is_whitespace()
        invariant
            start <= chars@.len(),
            trimmed_start(chars@.skip(start as int)) == trimmed_start(
                chars@,
            ),
        decreases chars.len() - start,
    {
        assert(chars@.skip(start as int).drop_first() == chars@.skip(start + 1));
        start += 1;
    }
    let ghost rest = chars@.skip(start as int);
    assert(rest == trimmed_start(info@));
    let mut word_end: usize = start;
    while word_end < chars.len() && !chars[word_end].is_whitespace()
        invariant
            start <= word_end <= chars@.len(),
            forall|i: int|
                start <= i < word_end ==> !is_space(#[trigger] chars@[i]),
        decreases chars.len() - word_end,
    {
        word_end += 1;
    }
    let ghost word = chars@.subrange(start as int, word_end as int);
    proof {
        let keep = |c: char| !is_space(c);
        lemma_leading_run(rest, keep, word_end - start);
        assert(rest.take(word_end - start) == word);
        assert(word == first_word(info@));
    }
    let mut end: usize = start;
    while end < word_end && chars[end] != ',' && chars[end] != '{'
        invariant
            start <= end <= word_end <= chars@.len(),
            forall|i: int|
                start <= i < end ==> (#[trigger] chars@[i]) != ',' && chars@[i] != '{',
        decreases word_end - end,
    {
        end += 1;
    }
    proof {
        let keep = |c: char| c != ',' && c != '{';
        lemma_leading_run(word, keep, end - start);
        assert(word.take(end - start) == chars@.subrange(start as int, end as int));
    }
    while start < end && chars[start] == '.'
        invariant
            start <= end <= chars@.len(),
            without_outer_dots(chars@.subrange(start as int, end as int)) == language_token(info@),
        decreases end - start,
    {
        assert(chars@.subrange(start as int, end as int).drop_first() == chars@.subrange(
            start + 1,
            end as int,
        ));
        start += 1;
    }
    while start < end && chars[end - 1] == '.'
        invariant
            start <= end <= chars@.len(),
            start < end ==> chars@[start as int] != '.',
            without_outer_dots(chars@.subrange(start as int, end as int)) == language_token(info@),
        decreases end - start,
    {
        assert(chars@.subrange(start as int, end as int).drop_last() == chars@.subrange(
            start as int,
            end - 1,
        ));
        end -= 1;
    }
    if start < end {
        Some(info.substring_char(start, end))
    } else {
        None
    }
}

} // verus!
