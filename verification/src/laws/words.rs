//! Where word motions lead.
use vstd::prelude::*;

use crate::app::AppView;
use crate::chars::{is_letter_or_number, is_space};
use crate::motion::{
    char_left_of, is_next_word, is_prev_word, is_word_start, next_word, prev_word,
    WordMotionKind,
};
use crate::width::{
    char_columns, chars_fitting, columns, is_ascii_text, is_narrow_text, is_printable_ascii,
    lemma_chars_fitting_bounds, lemma_columns_take, text_columns,
};

verus! {

/// Whether a character belongs into a small word.
pub open spec fn is_word_char(c: char) -> bool {
    is_letter_or_number(c) || c == '_'
}

/// Whether a word begins at a character: it is no white space, and it stands first, after white
/// space or, for small words, where word characters and other signs meet.
pub open spec fn begins_word(text: Seq<char>, kind: WordMotionKind, i: int) -> bool {
    &&& 0 <= i < text.len()
    &&& !is_space(text[i])
    &&& i == 0 || is_space(text[i - 1]) || (kind == WordMotionKind::Small && is_word_char(
        text[i - 1],
    ) != is_word_char(text[i]))
}

/// Small words are made of letters, digits and underscores, or of other signs; big words of
/// everything between white space.
pub proof fn law_words_begin_where_classes_change(text: Seq<char>, kind: WordMotionKind, i: int)
    ensures
        is_word_start(text, kind, i) <==> begins_word(text, kind, i),
{
}

/// The cursor steps over a character by its width, but by one column at least.
pub proof fn law_every_character_has_a_cell(text: Seq<char>, c: char)
    ensures
        columns(Seq::<char>::empty()) == 0,
        columns(text.push(c)) == columns(text) + (match char_columns(c) {
            Some(wide) => if wide > 1 {
                wide as int
            } else {
                1
            },
            None => 1,
        }),
{
    assert(text.push(c).drop_last() == text);
}

/// Whether a motion to the left from `column` may end at character `j`: it lies wholly left of the
/// column, or stands first.
pub open spec fn is_left_of(text: Seq<char>, column: int, j: int) -> bool {
    j == 0 || columns(text.take(j + 1)) <= column
}

/// Whether a motion to the right from `column` may end at character `j`: it begins behind the
/// column.
pub open spec fn is_right_of(text: Seq<char>, column: int, j: int) -> bool {
    columns(text.take(j)) > column
}

pub proof fn lemma_fitting(text: Seq<char>, column: int, k: int)
    requires
        0 <= column,
        0 <= k <= text.len(),
    ensures
        k <= chars_fitting(text, column) <==> columns(text.take(k)) <= column,
        0 <= chars_fitting(text, column) <= text.len(),
    decreases text.len(),
{
    lemma_chars_fitting_bounds(text, column);
    let fits = chars_fitting(text, column);
    if k <= fits {
        lemma_columns_take(text, k, fits);
    } else {
        lemma_first_too_wide(text, column);
        lemma_columns_take(text, fits + 1, k);
    }
}

proof fn lemma_first_too_wide(text: Seq<char>, column: int)
    requires
        0 <= column,
        chars_fitting(text, column) < text.len(),
    ensures
        columns(text.take(chars_fitting(text, column) + 1)) > column,
    decreases text.len(),
{
    let shorter = text.drop_last();
    let fits = chars_fitting(text, column);
    lemma_chars_fitting_bounds(shorter, column);
    if chars_fitting(shorter, column) < shorter.len() {
        lemma_first_too_wide(shorter, column);
        assert(shorter.take(fits + 1) == text.take(fits + 1));
    } else {
        assert(text.take(fits + 1) == text);
    }
}

/// Whether `place` is the nearest word to the right of a column: no other lies between.
pub open spec fn is_nearest_right(
    text: Seq<char>,
    kind: WordMotionKind,
    column: int,
    place: Option<usize>,
) -> bool {
    match place {
        Some(target) => exists|i: int|
            {
                &&& #[trigger] begins_word(text, kind, i)
                &&& is_right_of(text, column, i)
                &&& target == columns(text.take(i)) as usize
                &&& forall|j: int|
                    #[trigger] begins_word(text, kind, j) && is_right_of(text, column, j) ==> i <= j
            },
        None => forall|j: int|
            #[trigger] begins_word(text, kind, j) ==> !is_right_of(text, column, j),
    }
}

/// Whether `place` is the nearest word to the left of a column: no other lies between.
pub open spec fn is_nearest_left(
    text: Seq<char>,
    kind: WordMotionKind,
    column: int,
    place: Option<usize>,
) -> bool {
    match place {
        Some(target) => exists|i: int|
            {
                &&& #[trigger] begins_word(text, kind, i)
                &&& is_left_of(text, column, i)
                &&& target == columns(text.take(i)) as usize
                &&& forall|j: int|
                    #[trigger] begins_word(text, kind, j) && is_left_of(text, column, j) ==> j <= i
            },
        None => forall|j: int|
            #[trigger] begins_word(text, kind, j) ==> !is_left_of(text, column, j),
    }
}

/// On one line a motion to the right ends at the nearest word that begins behind the column.
pub proof fn law_next_word_is_nearest(text: Seq<char>, column: int, kind: WordMotionKind)
    requires
        0 <= column,
    ensures
        is_nearest_right(text, kind, column, next_word(text, column, kind)),
{
    let from = chars_fitting(text, column);
    assert forall|j: int| #[trigger] begins_word(text, kind, j) implies (is_right_of(text, column, j)
        <==> from < j) && is_word_start(text, kind, j) by {
        lemma_fitting(text, column, j);
    }
    assert forall|j: int| is_word_start(text, kind, j) implies begins_word(text, kind, j) by {}
    if exists|i: int| is_next_word(text, kind, from, i) {
        let i = choose|i: int| is_next_word(text, kind, from, i);
        assert(begins_word(text, kind, i));
    } else {
        assert forall|j: int| #[trigger] begins_word(text, kind, j) implies !is_right_of(
            text,
            column,
            j,
        ) by {
            if is_right_of(text, column, j) {
                lemma_some_next(text, kind, from, j);
            }
        }
    }
}

proof fn lemma_some_next(text: Seq<char>, kind: WordMotionKind, from: int, j: int)
    requires
        from < j,
        is_word_start(text, kind, j),
    ensures
        exists|i: int| is_next_word(text, kind, from, i),
    decreases j - from,
{
    if exists|k: int| from < k < j && is_word_start(text, kind, k) {
        let k = choose|k: int| from < k < j && is_word_start(text, kind, k);
        lemma_some_next(text, kind, from, k);
    } else {
        assert(is_next_word(text, kind, from, j));
    }
}

proof fn lemma_some_prev(text: Seq<char>, kind: WordMotionKind, from: int, j: int)
    requires
        j <= from,
        is_word_start(text, kind, j),
    ensures
        exists|i: int| is_prev_word(text, kind, from, i),
    decreases from - j,
{
    if exists|k: int| j < k <= from && is_word_start(text, kind, k) {
        let k = choose|k: int| j < k <= from && is_word_start(text, kind, k);
        lemma_some_prev(text, kind, from, k);
    } else {
        assert(is_prev_word(text, kind, from, j));
    }
}

/// On one line a motion to the left ends at the nearest word that lies left of the column.
pub proof fn law_prev_word_is_nearest(text: Seq<char>, column: int, kind: WordMotionKind)
    requires
        0 <= column,
    ensures
        is_nearest_left(text, kind, column, prev_word(text, column, kind)),
{
    let from = char_left_of(text, column);
    assert forall|j: int| #[trigger] begins_word(text, kind, j) implies (is_left_of(text, column, j)
        <==> j <= from) && is_word_start(text, kind, j) by {
        lemma_fitting(text, column, j + 1);
    }
    assert forall|j: int| is_word_start(text, kind, j) implies begins_word(text, kind, j) by {}
    if exists|i: int| is_prev_word(text, kind, from, i) {
        let i = choose|i: int| is_prev_word(text, kind, from, i);
        assert(begins_word(text, kind, i));
    } else {
        assert forall|j: int| #[trigger] begins_word(text, kind, j) implies !is_left_of(
            text,
            column,
            j,
        ) by {
            if is_left_of(text, column, j) {
                lemma_some_prev(text, kind, from, j);
            }
        }
    }
}

/// Over lines a motion to the right ends on the nearest line, this one or a later one, that has a
/// word to go to: behind the cursor on its own line, behind the first column on a later one.
pub proof fn law_next_word_over_lines(
    app: AppView,
    line: int,
    column: usize,
    kind: WordMotionKind,
)
    requires
        0 <= line,
    ensures
        ({
            let place = app.word_after(line, column, kind);
            let behind = |l: int| if l == line { column as int } else { 0 };
            match place {
                Some((l, target)) => {
                    &&& line <= l < app.lines.len()
                    &&& is_nearest_right(app.line_text(l), kind, behind(l), Some(target))
                    &&& forall|m: int|
                        line <= m < l ==> is_nearest_right(
                            #[trigger] app.line_text(m),
                            kind,
                            behind(m),
                            None,
                        )
                },
                None => forall|m: int|
                    line <= m < app.lines.len() ==> is_nearest_right(
                        #[trigger] app.line_text(m),
                        kind,
                        behind(m),
                        None,
                    ),
            }
        }),
    decreases app.lines.len() - line,
{
    if line < app.lines.len() {
        law_next_word_is_nearest(app.line_text(line), column as int, kind);
        if next_word(app.line_text(line), column as int, kind) is None {
            law_next_word_over_lines(app, line + 1, 0, kind);
        }
    }
}

/// Over lines a motion to the left ends on the nearest line, this one or an earlier one, that has a
/// word to go to: left of the cursor on its own line, anywhere within the width of an earlier one.
pub proof fn law_prev_word_over_lines(
    app: AppView,
    line: int,
    column: usize,
    kind: WordMotionKind,
)
    requires
        0 <= line,
    ensures
        ({
            let place = app.word_before(line, column, kind);
            let before = |l: int|
                if l == line {
                    column as int
                } else {
                    text_columns(app.line_text(l)) as int
                };
            match place {
                Some((l, target)) => {
                    &&& 0 <= l <= line
                    &&& is_nearest_left(app.line_text(l), kind, before(l), Some(target))
                    &&& forall|m: int|
                        l < m <= line ==> is_nearest_left(
                            #[trigger] app.line_text(m),
                            kind,
                            before(m),
                            None,
                        )
                },
                None => forall|m: int|
                    0 <= m <= line ==> is_nearest_left(
                        #[trigger] app.line_text(m),
                        kind,
                        before(m),
                        None,
                    ),
            }
        }),
    decreases line,
{
    law_prev_word_is_nearest(app.line_text(line), column as int, kind);
    if prev_word(app.line_text(line), column as int, kind) is None && line > 0 {
        law_prev_word_over_lines(app, line - 1, text_columns(app.line_text(line - 1)), kind);
    }
}

pub proof fn lemma_ascii_columns(text: Seq<char>, k: int)
    requires
        is_ascii_text(text),
        0 <= k <= text.len(),
    ensures
        columns(text.take(k)) == k,
    decreases k,
{
    if k > 0 {
        lemma_ascii_columns(text, k - 1);
        assert(text.take(k).drop_last() == text.take(k - 1));
        assert(is_printable_ascii(text[k - 1]));
    }
}

/// In a text of printable ASCII no word is passed over: a motion to the left that ends on an
/// earlier line ends at its last word.
pub proof fn law_prev_word_is_the_last_of_its_line(
    app: AppView,
    line: int,
    column: usize,
    kind: WordMotionKind,
)
    requires
        0 <= line,
        forall|m: int|
            0 <= m < line ==> is_ascii_text(#[trigger] app.line_text(m)) && app.line_text(m).len()
                <= usize::MAX,
    ensures
        app.word_before(line, column, kind) matches Some((l, target)) ==> l < line ==> (exists|
            i: int,
        |
            #[trigger] begins_word(app.line_text(l), kind, i) && target == i && forall|j: int|
                #[trigger] begins_word(app.line_text(l), kind, j) ==> j <= i) && forall|
            m: int,
            j: int,
        |
            l < m < line ==> !#[trigger] begins_word(app.line_text(m), kind, j),
        app.word_before(line, column, kind) is None ==> forall|m: int, j: int|
            0 <= m < line ==> !#[trigger] begins_word(app.line_text(m), kind, j),
{
    law_prev_word_over_lines(app, line, column, kind);
    assert forall|m: int, j: int|
        0 <= m < line && #[trigger] begins_word(app.line_text(m), kind, j) implies is_left_of(
        app.line_text(m),
        text_columns(app.line_text(m)) as int,
        j,
    ) && columns(app.line_text(m).take(j)) == j by {
        lemma_ascii_columns(app.line_text(m), j);
        lemma_ascii_columns(app.line_text(m), j + 1);
        assert(is_narrow_text(app.line_text(m)));
    }
}

} // verus!
