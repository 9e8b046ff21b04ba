//! Moving over a line word by word.
use vstd::prelude::*;

use crate::chars::{chars_of, is_letter_or_number, is_space};
use crate::width::{char_index_for_column, chars_fitting, column_for_char_index, columns};

verus! {

/// What counts as a word: runs of letters, digits and underscores and runs of other signs apart, or
/// everything between white space.
#[derive(Clone, Copy, PartialEq, Eq, Structural, Debug)]
pub enum WordMotionKind {
    Small,
    Big,
}

/// The class of a character: 0 for white space, 1 for word characters of small words, 2 otherwise.
pub open spec fn motion_class(c: char, kind: WordMotionKind) -> u8 {
    if is_space(c) {
        0
    } else if kind == WordMotionKind::Small && (is_letter_or_number(c) || c == '_') {
        1
    } else {
        2
    }
}

/// Whether a word begins at character `i`: it is no white space and the character before it is of
/// another class.
pub open spec fn is_word_start(text: Seq<char>, kind: WordMotionKind, i: int) -> bool {
    &&& 0 <= i < text.len()
    &&& motion_class(text[i], kind) != 0
    &&& i > 0 ==> motion_class(text[i - 1], kind) != motion_class(text[i], kind)
}

/// Whether `i` is where the first word begins that begins after character `from`.
pub open spec fn is_next_word(text: Seq<char>, kind: WordMotionKind, from: int, i: int) -> bool {
    &&& from < i
    &&& is_word_start(text, kind, i)
    &&& forall|j: int| from < j < i ==> !is_word_start(text, kind, j)
}

/// Whether `i` is where the last word begins that begins at or before character `from`.
pub open spec fn is_prev_word(text: Seq<char>, kind: WordMotionKind, from: int, i: int) -> bool {
    &&& i <= from
    &&& is_word_start(text, kind, i)
    &&& forall|j: int| i < j <= from ==> !is_word_start(text, kind, j)
}

/// The character left of the one in `column`, or the first one.
pub open spec fn char_left_of(text: Seq<char>, column: int) -> int {
    if chars_fitting(text, column) > 0 {
        chars_fitting(text, column) - 1
    } else {
        0
    }
}

/// The column of the first word that begins after the character in `column`.
pub open spec fn next_word(text: Seq<char>, column: int, kind: WordMotionKind) -> Option<usize> {
    let from = chars_fitting(text, column);
    if exists|i: int| is_next_word(text, kind, from, i) {
        Some(columns(text.take(choose|i: int| is_next_word(text, kind, from, i))) as usize)
    } else {
        None
    }
}

/// The column of the last word that begins before the character in `column`, or of the line's
/// first character if a word begins there.
pub open spec fn prev_word(text: Seq<char>, column: int, kind: WordMotionKind) -> Option<usize> {
    let from = char_left_of(text, column);
    if exists|i: int| is_prev_word(text, kind, from, i) {
        Some(columns(text.take(choose|i: int| is_prev_word(text, kind, from, i))) as usize)
    } else {
        None
    }
}

/// The class of a character.
pub fn classify_motion_char(c: char, kind: WordMotionKind) -> (class: u8)
    ensures
        class == motion_class(c, kind),
{
    if c.is_whitespace() {
        0
    } else if kind == WordMotionKind::Small && (c.is_alphanumeric() || c == '_') {
        1
    } else {
        2
    }
}

/// Where a word motion from `column` to the right ends, in columns: at the first word that begins
/// after the character in that column.
pub fn find_next_word_start(text: &str, column: usize, kind: WordMotionKind) -> (target: Option<
    usize,
>)
    ensures
        target is None <==> forall|i: int|
            !is_next_word(text@, kind, chars_fitting(text@, column as int), i),
        forall|i: int|
            #[trigger] is_next_word(text@, kind, chars_fitting(text@, column as int), i)
                ==> target is Some && target->0 == columns(text@.take(i)),
        target == next_word(text@, column as int, kind),
{
    let chars = chars_of(text);
    assert(chars@.take(chars@.len() as int) == text@);
    let from = char_index_for_column(&chars, chars.len(), column);
    if from >= chars.len() {
        return None;
    }
    let class = classify_motion_char(chars[from], kind);
    let mut at: usize = from + 1;
    while at < chars.len() && class != 0 && classify_motion_char(chars[at], kind) == class
        invariant
            from < at <= chars@.len(),
            chars@ == text@,
            class == motion_class(text@[from as int], kind),
            class != 0 ==> forall|j: int|
                from <= j < at ==> motion_class(#[trigger] text@[j], kind) == class,
            class == 0 ==> at == from + 1,
        decreases chars.len() - at,
    {
        at += 1;
    }
    let ghost run_end = at as int;
    assert forall|j: int| from < j < run_end implies !is_word_start(text@, kind, j) by {
        assert(motion_class(text@[j - 1], kind) == motion_class(text@[j], kind));
    }
    while at < chars.len() && classify_motion_char(chars[at], kind) == 0
        invariant
            from < run_end <= at <= chars@.len(),
            chars@ == text@,
            forall|j: int| from < j < at ==> !is_word_start(text@, kind, j),
            forall|j: int|
                run_end <= j < at ==> motion_class(#[trigger] text@[j], kind) == 0,
        decreases chars.len() - at,
    {
        at += 1;
    }
    if at < chars.len() {
        let target = column_for_char_index(text, &chars, at);
        proof {
            assert(is_word_start(text@, kind, at as int));
            assert(is_next_word(text@, kind, from as int, at as int));
            assert forall|i: int|
                #[trigger] is_next_word(text@, kind, from as int, i) implies i == at by {
                if i < at {
                    assert(!is_word_start(text@, kind, i));
                }
            }
        }
        Some(target)
    } else {
        None
    }
}

/// Where a word motion from `column` to the left ends, in columns: at the last word that begins
/// before the character in that column, or at the line's first character if a word begins there.
pub fn find_prev_word_start(text: &str, column: usize, kind: WordMotionKind) -> (target: Option<
    usize,
>)
    ensures
        target is None <==> forall|i: int|
            !is_prev_word(text@, kind, char_left_of(text@, column as int), i),
        forall|i: int|
            #[trigger] is_prev_word(text@, kind, char_left_of(text@, column as int), i)
                ==> target is Some && target->0 == columns(text@.take(i)),
        target == prev_word(text@, column as int, kind),
{
    let chars = chars_of(text);
    if chars.is_empty() {
        return None;
    }
    assert(chars@.take(chars@.len() as int) == text@);
    let from = char_index_for_column(&chars, chars.len(), column).saturating_sub(1);
    assert(from == char_left_of(text@, column as int));
    let mut at: usize = from;
    while at > 0 && classify_motion_char(chars[at], kind) == 0
        invariant
            at <= from < chars@.len(),
            chars@ == text@,
            forall|j: int| at < j <= from ==> motion_class(#[trigger] text@[j], kind) == 0,
        decreases at,
    {
        at -= 1;
    }
    let class = classify_motion_char(chars[at], kind);
    if class == 0 {
        assert forall|i: int| !is_prev_word(text@, kind, from as int, i) by {
            if 0 <= i <= from {
                assert(motion_class(text@[i], kind) == 0);
            }
        }
        return None;
    }
    let ghost word_end = at as int;
    while at > 0 && classify_motion_char(chars[at - 1], kind) == class
        invariant
            at <= word_end <= from < chars@.len(),
            chars@ == text@,
            class != 0,
            forall|j: int| at <= j <= word_end ==> motion_class(#[trigger] text@[j], kind) == class,
            forall|j: int| word_end < j <= from ==> motion_class(#[trigger] text@[j], kind) == 0,
        decreases at,
    {
        at -= 1;
    }
    let target = column_for_char_index(text, &chars, at);
    proof {
        assert(motion_class(text@[at as int], kind) == class);
        assert(is_word_start(text@, kind, at as int));
        assert forall|j: int| at < j <= from implies !is_word_start(text@, kind, j) by {
            if j <= word_end {
                assert(motion_class(text@[j - 1], kind) == motion_class(text@[j], kind));
            } else {
                assert(motion_class(text@[j], kind) == 0);
            }
        }
        assert(is_prev_word(text@, kind, char_left_of(text@, column as int), at as int));
        assert forall|i: int|
            #[trigger] is_prev_word(text@, kind, from as int, i) implies i == at by {
            if i > at {
                assert(!is_word_start(text@, kind, i));
            }
        }
    }
    Some(target)
}

/// From where a word begins, the next word and then the previous one lead back.
pub proof fn law_next_then_previous_word(
    text: Seq<char>,
    kind: WordMotionKind,
    start: int,
    next: int,
)
    requires
        is_word_start(text, kind, start),
        is_next_word(text, kind, start, next),
    ensures
        is_prev_word(text, kind, next - 1, start),
{
}

} // verus!
