//! What a selection holds.
use vstd::prelude::*;

use crate::app::{AppView, CursorPosition, ModeView};
use crate::chars::{decimal_text, is_space, split_text, trimmed_end};
use crate::highlight::{is_inside, law_highlight_overlays_covered_chars, match_style, styled_chars};
use crate::laws::words::{lemma_ascii_columns, lemma_fitting};
use crate::selection::{
    block_text, chars_in, joined_lines, lemma_trimmed_end, line_count, lines_with_selection, selected_upto, text_in, Block, VisualBlockSelection,
};
use crate::style::Modifier;
use crate::text::{plain_text, LineView};
use crate::width::{columns, is_ascii_text, is_narrow_text, text_columns};

verus! {

/// Whether a cell of the page lies in a block.
pub open spec fn is_within(block: Block, row: int, column: int) -> bool {
    block.row_start <= row <= block.row_end && block.column_start <= column < block.column_end
}

/// The same block lies between two corners, whichever of them the selection began at.
pub proof fn law_corners_may_be_swapped(a: CursorPosition, b: CursorPosition)
    ensures
        (VisualBlockSelection { start: a, end: b }).block() == (VisualBlockSelection {
            start: b,
            end: a,
        }).block(),
{
}

/// A cell lies in the block of a selection exactly where its row lies between the rows of the
/// corners and its column between their columns, both included.
pub proof fn law_block_lies_between_its_corners(
    selection: VisualBlockSelection,
    row: int,
    column: int,
)
    requires
        selection.start.column < usize::MAX,
        selection.end.column < usize::MAX,
    ensures
        is_within(selection.block(), row, column) <==> {
            &&& selection.start.row <= row <= selection.end.row || selection.end.row <= row
                <= selection.start.row
            &&& selection.start.column <= column <= selection.end.column || selection.end.column
                <= column <= selection.start.column
        },
        is_within(
            selection.block(),
            selection.start.row as int,
            selection.start.column as int,
        ),
        is_within(selection.block(), selection.end.row as int, selection.end.column as int),
{
}

/// The selection goes from the cell where it began to the cursor.
pub proof fn law_selection_goes_to_the_cursor(app: AppView, content_width: u16)
    ensures
        app.selection(content_width) is Some <==> app.mode is VisualBlock,
        app.mode matches ModeView::VisualBlock(anchor) ==> app.selection(content_width) == Some(
            VisualBlockSelection { start: anchor, end: app.cursor_position(content_width) },
        ),
        app.selection(content_width) matches Some(selection) ==> app.selected_text(content_width)
            == Some(
            block_text(app.find_selection(content_width).page(content_width).lines, selection.block()),
        ),
        !(app.mode is VisualBlock) ==> app.selected_text(content_width) is None,
{
}

/// Whether a character stands behind the last one of its text that is no white space.
pub open spec fn is_trailing(text: Seq<char>, i: int) -> bool {
    forall|j: int| i <= j < text.len() ==> is_space(#[trigger] text[j])
}

pub proof fn lemma_trailing(text: Seq<char>, i: int)
    requires
        0 <= i < text.len(),
    ensures
        is_trailing(text, i) <==> i >= trimmed_end(text).len(),
    decreases text.len(),
{
    if is_space(text.last()) {
        if i < text.len() - 1 {
            lemma_trailing(text.drop_last(), i);
            assert(is_trailing(text, i) ==> is_trailing(text.drop_last(), i)) by {
                if is_trailing(text, i) {
                    assert forall|j: int| i <= j < text.drop_last().len() implies is_space(
                        #[trigger] text.drop_last()[j],
                    ) by {
                        assert(is_space(text[j]));
                    }
                }
            }
            assert(is_trailing(text.drop_last(), i) ==> is_trailing(text, i)) by {
                if is_trailing(text.drop_last(), i) {
                    assert forall|j: int| i <= j < text.len() implies is_space(
                        #[trigger] text[j],
                    ) by {
                        if j < text.len() - 1 {
                            assert(is_space(text.drop_last()[j]));
                        }
                    }
                }
            }
        } else {
            lemma_trimmed_end(text.drop_last());
        }
    } else if is_trailing(text, i) {
        assert(is_space(text[text.len() - 1]));
    }
}

/// Whether a block selects character `i` of a text: it is not white space at the end, and the last
/// of its cells lies in the columns of the block and of the text.
pub open spec fn selects(text: Seq<char>, block: Block, i: int) -> bool {
    &&& 0 <= i < text.len()
    &&& !is_trailing(text, i)
    &&& block.column_start < columns(text.take(i + 1)) <= block.column_end
    &&& block.column_start < text_columns(trimmed_end(text))
    &&& columns(text.take(i + 1)) <= text_columns(trimmed_end(text))
}

/// A block selects of a text those of its characters that lie in the block, in their order.
pub proof fn law_block_selects_what_lies_in_it(text: Seq<char>, block: Block)
    requires
        block.column_start <= block.column_end,
    ensures
        chars_in(text, block) matches Some((from, to)) ==> 0 <= from <= to <= text.len()
            && text_in(text, block) == text.subrange(from, to) && forall|i: int|
            from <= i < to <==> #[trigger] selects(text, block, i),
        chars_in(text, block) is None ==> text_in(text, block).len() == 0 && forall|i: int|
            !#[trigger] selects(text, block, i),
{
    let visible = trimmed_end(text);
    lemma_trimmed_end(text);
    let width = text_columns(visible) as int;
    let start = block.column_start as int;
    let end = if block.column_end as int <= width {
        block.column_end as int
    } else {
        width
    };
    if let Some((from, to)) = chars_in(text, block) {
        lemma_fitting(visible, start, 0);
        lemma_fitting(visible, end, 0);
        lemma_fitting(visible, end, from);
        lemma_fitting(visible, start, from);
        assert forall|i: int| from <= i < to <==> #[trigger] selects(text, block, i) by {
            if 0 <= i < text.len() {
                lemma_trailing(text, i);
                if i < visible.len() {
                    lemma_fitting(visible, start, i + 1);
                    lemma_fitting(visible, end, i + 1);
                    assert(visible.take(i + 1) == text.take(i + 1));
                }
            }
        }
    } else {
        assert forall|i: int| !#[trigger] selects(text, block, i) by {
            if 0 <= i < text.len() {
                lemma_trailing(text, i);
            }
        }
    }
}

/// Of a text of printable ASCII a block selects what stands in its columns, up to the white space
/// at the end.
pub proof fn law_block_selects_columns(text: Seq<char>, block: Block, i: int)
    requires
        is_ascii_text(text),
        text.len() <= usize::MAX,
        0 <= i < text.len(),
    ensures
        selects(text, block, i) <==> block.column_start <= i < block.column_end && !is_trailing(
            text,
            i,
        ),
{
    lemma_trimmed_end(text);
    lemma_trailing(text, i);
    lemma_ascii_columns(text, i + 1);
    let visible = trimmed_end(text);
    assert(is_narrow_text(visible)) by {
        assert forall|j: int| 0 <= j < visible.len() implies #[trigger] visible[j] == text[j] by {}
    }
}

/// A selection is marked on the page by reversing and emboldening the characters that would be
/// copied, and no other.
pub proof fn law_selection_is_marked(lines: Seq<LineView>, block: Block, row: int, i: int)
    requires
        block.column_start <= block.column_end,
        0 <= row < lines.len(),
        0 <= i < plain_text(lines[row]).len(),
    ensures
        lines_with_selection(lines, block).len() == lines.len(),
        ({
            let before = styled_chars(lines[row])[i];
            let after = styled_chars(lines_with_selection(lines, block)[row])[i];
            let marked = block.row_start <= row <= block.row_end && selects(
                plain_text(lines[row]),
                block,
                i,
            );
            &&& styled_chars(lines_with_selection(lines, block)[row]).len() == plain_text(
                lines[row],
            ).len()
            &&& after.0 == before.0 == plain_text(lines[row])[i]
            &&& after.1.fg == before.1.fg && after.1.bg == before.1.bg
            &&& after.1.add_modifier == (if marked {
                Modifier { reversed: true, bold: true, ..before.1.add_modifier }
            } else {
                before.1.add_modifier
            })
        }),
{
    let line = lines[row];
    crate::highlight::lemma_styled_chars_len(line);
    law_block_selects_what_lies_in_it(plain_text(line), block);
    if let Some((from, to)) = chars_in(plain_text(line), block) {
        if from < to {
            let ranges = seq![(from, to)];
            law_highlight_overlays_covered_chars(line, ranges, match_style(true));
            assert(is_inside(ranges, i) <==> from <= i < to) by {
                if from <= i < to {
                    assert(ranges[0].0 <= i < ranges[0].1);
                }
            }
        }
    }
    assert(selects(plain_text(line), block, i) || !selects(plain_text(line), block, i));
}

/// The text of a block has one piece for each of its rows that is on the page, from the first to
/// the last.
pub proof fn law_every_row_gives_a_line(lines: Seq<LineView>, block: Block, upto: int)
    requires
        0 <= upto,
        block.row_start <= block.row_end,
    ensures
        ({
            let pieces = selected_upto(lines, block, upto);
            &&& upto <= block.row_start ==> pieces.len() == 0
            &&& block.row_start <= upto <= block.row_end ==> pieces.len() == upto
                - block.row_start
            &&& upto > block.row_end ==> pieces.len() == block.row_end - block.row_start + 1
            &&& forall|row: int|
                block.row_start <= row <= block.row_end && row < upto ==> pieces[row
                    - block.row_start] == #[trigger] text_in(plain_text(lines[row]), block)
        }),
    decreases upto,
{
    if upto > 0 {
        law_every_row_gives_a_line(lines, block, upto - 1);
    }
}

proof fn lemma_split_append(text: Seq<char>, more: Seq<char>)
    requires
        !more.contains('\n'),
    ensures
        split_text(text, '\n').len() > 0,
        split_text(text + more, '\n') == split_text(text, '\n').drop_last().push(
            split_text(text, '\n').last() + more,
        ),
    decreases more.len(),
{
    lemma_split_some(text);
    let before = split_text(text, '\n');
    if more.len() == 0 {
        assert(text + more == text);
        assert(before.last() + more == before.last());
        assert(before.drop_last().push(before.last()) == before);
    } else {
        assert(more.contains(more.last()));
        assert(!more.drop_last().contains('\n')) by {
            if more.drop_last().contains('\n') {
                let k = choose|k: int| 0 <= k < more.drop_last().len() && more.drop_last()[k] == '\n';
                assert(more[k] == '\n');
            }
        }
        lemma_split_append(text, more.drop_last());
        assert((text + more).drop_last() == text + more.drop_last());
        let shorter = split_text(text + more.drop_last(), '\n');
        assert(shorter.last() == before.last() + more.drop_last());
        assert((before.last() + more.drop_last()).push(more.last()) == before.last() + more);
        assert(shorter.drop_last() == before.drop_last());
    }
}

proof fn lemma_split_some(text: Seq<char>)
    ensures
        split_text(text, '\n').len() > 0,
    decreases text.len(),
{
    if text.len() > 0 {
        lemma_split_some(text.drop_last());
    }
}

/// The copied text, taken apart at its line breaks, gives back what was selected of each row.
pub proof fn law_copied_lines_come_apart_again(texts: Seq<Seq<char>>)
    requires
        texts.len() > 0,
        forall|i: int| 0 <= i < texts.len() ==> !(#[trigger] texts[i]).contains('\n'),
    ensures
        split_text(joined_lines(texts), '\n') == texts,
        texts.last().len() > 0 ==> line_count(joined_lines(texts)) == texts.len(),
        texts.last().len() == 0 ==> line_count(joined_lines(texts)) == texts.len() - 1,
    decreases texts.len(),
{
    reveal_strlit("\n");
    if texts.len() == 1 {
        lemma_split_append(Seq::empty(), texts[0]);
        assert(Seq::<char>::empty() + texts[0] == texts[0]);
        assert(split_text(Seq::<char>::empty(), '\n') == seq![Seq::<char>::empty()]);
        assert(split_text(texts[0], '\n') =~= texts);
    } else {
        let front = texts.drop_last();
        assert forall|i: int| 0 <= i < front.len() implies !(#[trigger] front[i]).contains(
            '\n',
        ) by {
            assert(front[i] == texts[i]);
        }
        law_copied_lines_come_apart_again(front);
        let head = joined_lines(front) + "\n"@;
        assert(head.drop_last() == joined_lines(front));
        assert(head.last() == '\n');
        assert(split_text(head, '\n') == front.push(Seq::empty()));
        lemma_split_append(head, texts.last());
        assert(front.push(Seq::<char>::empty()).drop_last() == front);
        assert(Seq::<char>::empty() + texts.last() == texts.last());
        assert(front.push(texts.last()) == texts);
    }
}

/// The text that a block selects, taken apart at its line breaks, has what lies in the block of each
/// of its rows on the page, from the first to the last.
pub proof fn law_copied_text_has_a_line_for_each_row(lines: Seq<LineView>, block: Block, row: int)
    requires
        block.row_start <= row <= block.row_end,
        row < lines.len(),
        forall|r: int|
            0 <= r < lines.len() ==> !text_in(#[trigger] plain_text(lines[r]), block).contains(
                '\n',
            ),
    ensures
        ({
            let pieces = split_text(block_text(lines, block), '\n');
            &&& pieces[row - block.row_start] == text_in(plain_text(lines[row]), block)
            &&& pieces.len() == (if lines.len() <= block.row_end {
                lines.len() as int
            } else {
                block.row_end + 1
            }) - block.row_start
        }),
{
    let n = lines.len() as int;
    let pieces = selected_upto(lines, block, n);
    law_every_row_gives_a_line(lines, block, n);
    assert(pieces[row - block.row_start] == text_in(plain_text(lines[row]), block));
    assert forall|i: int| 0 <= i < pieces.len() implies !(#[trigger] pieces[i]).contains('\n') by {
        let r = block.row_start + i;
        assert(pieces[r - block.row_start] == text_in(plain_text(lines[r]), block));
    }
    law_copied_lines_come_apart_again(pieces);
}

/// Copying ends a selection where it goes well and keeps it otherwise, and changes nothing but the
/// mode and the status.
pub proof fn law_copying_ends_the_selection(
    app: AppView,
    text: Seq<char>,
    failure: Option<Seq<char>>,
)
    ensures
        failure is None ==> app.copied(text, failure).mode is Normal,
        failure is Some ==> app.copied(text, failure).mode == app.mode,
        failure matches Some(reason) ==> app.copied(text, failure).status
            == "clipboard copy failed: "@ + reason,
        app.copied(text, failure) == (AppView {
            mode: app.copied(text, failure).mode,
            status: app.copied(text, failure).status,
            ..app
        }),
{
}

/// What is said of a copy: how many lines were copied, an empty one counted, too.
pub proof fn law_copies_are_counted(app: AppView, text: Seq<char>, content_width: u16)
    ensures
        line_count(text) > 0 ==> app.copied(text, None).status == "copied "@ + decimal_text(
            line_count(text),
        ) + " selected line(s) to clipboard"@,
        line_count(text) == 0 ==> app.copied(text, None).status == "copied "@ + decimal_text(1)
            + " selected line(s) to clipboard"@,
        !(app.mode is VisualBlock) ==> app.ask_for_copy(content_width) == (AppView {
            status: "no active visual selection"@,
            ..app
        }),
        app.mode is VisualBlock ==> app.ask_for_copy(content_width).status == app.status,
{
}

/// The cursor is at its row of the page and at the column that it has on the line there.
pub proof fn law_cursor_has_a_position(app: AppView, content_width: u16)
    requires
        app.is_laid_out(content_width),
    ensures
        app.cursor_position(content_width).row == app.row_of_cursor(content_width),
        app.cursor_position(content_width).column == app.column_on(
            app.cursor_line(content_width),
        ),
{
    crate::laws::moves::lemma_rows(app, content_width);
}

} // verus!
