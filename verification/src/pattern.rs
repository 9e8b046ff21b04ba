//! Regular expressions, as far as search and HTML scanning need them.
use regex::Regex;
use vstd::prelude::*;

use crate::chars::owned;
use crate::width::{byte_len, chars_before};

verus! {

/// A compiled regular expression of the `regex` crate.
#[verifier::external_type_specification]
#[verifier::external_body]
pub struct ExRegex(regex::Regex);

/// Why the `regex` crate refused a pattern.
#[verifier::external_type_specification]
#[verifier::external_body]
pub struct ExRegexError(regex::Error);

/// Whether a character has a meaning of its own in a pattern.
pub open spec fn is_meta_character(c: char) -> bool {
    c == '\\' || c == '.' || c == '+' || c == '*' || c == '?' || c == '(' || c == ')' || c == '|'
        || c == '[' || c == ']' || c == '{' || c == '}' || c == '^' || c == '$' || c == '#' || c
        == '&' || c == '-' || c == '~'
}

/// `text` with a backslash before every character that has a meaning of its own in a pattern.
pub open spec fn escaped(text: Seq<char>) -> Seq<char>
    decreases text.len(),
{
    if text.len() == 0 {
        Seq::empty()
    } else if is_meta_character(text.last()) {
        escaped(text.drop_last()).push('\\').push(text.last())
    } else {
        escaped(text.drop_last()).push(text.last())
    }
}

/// `regex::escape` puts a backslash before every meta character and keeps the rest.
#[verifier::external_body]
fn escape(text: &str) -> (pattern: String)
    ensures
        pattern@ == escaped(text@),
{
    regex::escape(text)
}

/// What compiling a pattern gives: the expression, or the reason why there is none.
pub uninterp spec fn compiled(pattern: Seq<char>, ignore_case: bool) -> Result<
    Regex,
    regex::Error,
>;

/// How an error of the `regex` crate is shown.
pub uninterp spec fn error_text(error: regex::Error) -> Seq<char>;

/// Where an expression matches in a text: byte ranges, from left to right.
pub uninterp spec fn match_ranges(expression: Regex, text: Seq<char>) -> Seq<(usize, usize)>;

/// What the groups of the first match captured, the whole match first; `None` without a match.
pub uninterp spec fn captured_groups(expression: Regex, text: Seq<char>) -> Option<
    Seq<Option<Seq<char>>>,
>;

/// Whether a byte offset lies between two characters of `text`, or at or past its end.
pub open spec fn on_boundary(text: Seq<char>, offset: int) -> bool {
    byte_len(text.take(chars_before(text, offset))) == offset || offset >= byte_len(text)
}

/// Whether byte ranges of `text` go from left to right without overlap, each from one of its
/// character boundaries to another.
pub open spec fn orderly(text: Seq<char>, ranges: Seq<(usize, usize)>) -> bool {
    &&& forall|i: int|
        #![trigger ranges[i]]
        0 <= i < ranges.len() ==> ranges[i].0 <= ranges[i].1 <= byte_len(text) && on_boundary(
            text,
            ranges[i].0 as int,
        ) && on_boundary(text, ranges[i].1 as int)
    &&& forall|i: int, j: int|
        #![trigger ranges[i], ranges[j]]
        0 <= i < j < ranges.len() ==> ranges[i].1 <= ranges[j].0
}

/// Whether the matches of an expression go from left to right without overlap, each with a
/// character in it.
pub open spec fn has_full_matches(expression: Regex, text: Seq<char>) -> bool {
    let ranges = match_ranges(expression, text);
    &&& orderly(text, ranges)
    &&& forall|k: int| 0 <= k < ranges.len() ==> (#[trigger] ranges[k]).0 < ranges[k].1
}

/// Whether an expression finds some text, which is not empty, as it stands.
pub open spec fn is_literal(expression: Regex) -> bool {
    exists|text: Seq<char>, ignore_case: bool|
        text.len() > 0 && #[trigger] compiled(escaped(text), ignore_case) == Ok::<
            Regex,
            regex::Error,
        >(expression)
}

/// `RegexBuilder::build`, with the pattern as given and case folded or not.
#[verifier::external_body]
pub(crate) fn compile(pattern: &str, ignore_case: bool) -> (outcome: Result<Regex, regex::Error>)
    ensures
        outcome == compiled(pattern@, ignore_case),
{
    regex::RegexBuilder::new(pattern).case_insensitive(ignore_case).build()
}

/// The `Display` text of a `regex::Error`.
#[verifier::external_body]
pub(crate) fn describe_error(error: &regex::Error) -> (text: String)
    ensures
        text@ == error_text(*error),
{
    format!("{}", error)
}

/// `Regex::find_iter` yields the successive matches, which never overlap; their offsets fall on
/// character boundaries of the searched text. An escaped text is matched as it stands, up to its
/// case, so that no match of it is empty.
#[verifier::external_body]
pub(crate) fn find_ranges(expression: &Regex, text: &str) -> (ranges: Vec<(usize, usize)>)
    ensures
        ranges@ == match_ranges(*expression, text@),
        orderly(text@, ranges@),
        is_literal(*expression) ==> forall|i: int|
            0 <= i < ranges@.len() ==> (#[trigger] ranges@[i]).0 < ranges@[i].1,
{
    expression.find_iter(text).map(|found| (found.start(), found.end())).collect()
}

/// `Regex::is_match` is true exactly when there is a match somewhere in the text. An escaped text
/// is matched as it stands, up to its case: no match of it is empty.
#[verifier::external_body]
pub(crate) fn is_match(expression: &Regex, text: &str) -> (answer: bool)
    ensures
        answer == (match_ranges(*expression, text@).len() > 0),
        answer && is_literal(*expression) ==> has_full_matches(*expression, text@),
{
    expression.is_match(text)
}

/// What is captured by each group, if it took part in the match.
pub open spec fn groups_view(groups: Seq<Option<String>>) -> Seq<Option<Seq<char>>> {
    Seq::new(
        groups.len(),
        |i: int|
            match groups[i] {
                Some(text) => Some(text@),
                None => None,
            },
    )
}

/// `Regex::captures` gives the groups of the first match.
#[verifier::external_body]
pub(crate) fn captures(expression: &Regex, text: &str) -> (groups: Option<Vec<Option<String>>>)
    ensures
        groups is Some <==> captured_groups(*expression, text@) is Some,
        groups is Some ==> groups_view(groups->0@) == captured_groups(*expression, text@)->0,
{
    let found = expression.captures(text)?;
    Some(found.iter().map(|group| group.map(|part| part.as_str().to_string())).collect())
}

/// What a search for `query` compiles to: the query taken literally, whatever its case.
pub open spec fn search_pattern(query: Seq<char>) -> Result<Regex, regex::Error> {
    compiled(escaped(query), true)
}

/// The expression that finds `query` literally, whatever its case.
pub fn compile_search(query: &str) -> (outcome: Result<Regex, regex::Error>)
    ensures
        outcome == search_pattern(query@),
{
    let pattern = escape(query);
    compile(pattern.as_str(), true)
}

/// The first captured group with any text in it, the whole match left aside.
pub open spec fn first_capture(groups: Seq<Option<Seq<char>>>, from: int) -> Option<Seq<char>>
    decreases groups.len() - from,
{
    if from >= groups.len() {
        None
    } else if groups[from] is Some && groups[from]->0.len() > 0 {
        groups[from]
    } else {
        first_capture(groups, from + 1)
    }
}

/// The first captured group with any text in it, the whole match left aside.
pub fn first_non_empty_capture_owned(groups: &Vec<Option<String>>) -> (text: Option<String>)
    ensures
        text is Some <==> first_capture(groups_view(groups@), 1) is Some,
        text is Some ==> text->0@ == first_capture(groups_view(groups@), 1)->0,
{
    let mut i: usize = 1;
    while i < groups.len()
        invariant
            1 <= i,
            first_capture(groups_view(groups@), i as int) == first_capture(
                groups_view(groups@),
                1,
            ),
        decreases groups.len() - i,
    {
        match &groups[i] {
            Some(group) => {
                if !group.as_str().is_empty() {
                    return Some(owned(group.as_str()));
                }
            },
            None => {},
        }
        i += 1;
    }
    None
}

} // verus!
