//! Selecting a block of the page and copying it.
use vstd::prelude::*;

use crate::app::{App, AppView, CursorPosition, DisplayDoc, DisplayView, Mode, ModeView};
use crate::chars::{
    chars_of, decimal, decimal_text, owned, split, split_text, string_of, strings_view, trimmed_end,
    visible_len,
};
use crate::highlight::{
    apply_highlight_ranges, char_ranges, highlighted_spans, law_highlight_overlays_covered_chars,
    match_style,
};
use crate::numbers::{larger, plus, smaller};
use crate::pattern::on_boundary;
use crate::source::text_view;
use crate::style::{Modifier, Style};
use crate::text::{line_plain_text, lines_view, plain_text, Line, LineView};
use crate::width::{
    byte_index_for_char_index, char_index_for_column, chars_fitting, law_byte_offset_round_trip,
    lemma_byte_len_take, text_columns, text_width,
};

verus! {

/// A selection: where it began and where the cursor is.
#[derive(Clone, Copy, Debug, PartialEq, Eq, Structural)]
pub struct VisualBlockSelection {
    pub start: CursorPosition,
    pub end: CursorPosition,
}

/// The block between the corners of a selection: the first and the last row, the first column and
/// the one after the last.
#[derive(Clone, Copy, Debug, PartialEq, Eq, Structural)]
pub struct Block {
    pub row_start: usize,
    pub row_end: usize,
    pub column_start: usize,
    pub column_end: usize,
}

impl VisualBlockSelection {
    /// The block between the corners.
    pub open spec fn block(self) -> Block {
        Block {
            row_start: smaller(self.start.row, self.end.row),
            row_end: larger(self.start.row, self.end.row),
            column_start: smaller(self.start.column, self.end.column),
            column_end: plus(larger(self.start.column, self.end.column), 1),
        }
    }

    /// The block between the corners.
    pub fn corners(&self) -> (block: Block)
        ensures
            block == self.block(),
    {
        let (row_start, row_end) = if self.start.row <= self.end.row {
            (self.start.row, self.end.row)
        } else {
            (self.end.row, self.start.row)
        };
        let (column_start, column_last) = if self.start.column <= self.end.column {
            (self.start.column, self.end.column)
        } else {
            (self.end.column, self.start.column)
        };
        Block { row_start, row_end, column_start, column_end: column_last.saturating_add(1) }
    }
}

/// The characters of a text that lie in the columns of a block, without the white space at the end
/// of the text; `None` where the text ends before the block.
pub open spec fn chars_in(text: Seq<char>, block: Block) -> Option<(int, int)> {
    let visible = trimmed_end(text);
    let width = text_columns(visible);
    if visible.len() == 0 || block.column_start >= width {
        None
    } else {
        Some(
            (
                chars_fitting(visible, block.column_start as int),
                chars_fitting(visible, smaller(block.column_end, width) as int),
            ),
        )
    }
}

/// What a block selects of a text.
pub open spec fn text_in(text: Seq<char>, block: Block) -> Seq<char> {
    match chars_in(text, block) {
        Some((from, to)) => text.subrange(from, to),
        None => Seq::empty(),
    }
}

proof fn lemma_chars_fitting_monotonic(text: Seq<char>, a: int, b: int)
    requires
        a <= b,
    ensures
        0 <= chars_fitting(text, a) <= chars_fitting(text, b) <= text.len(),
    decreases text.len(),
{
    if text.len() > 0 {
        lemma_chars_fitting_monotonic(text.drop_last(), a, b);
    }
}

proof fn lemma_chars_in(text: Seq<char>, block: Block)
    requires
        block.column_start <= block.column_end,
    ensures
        chars_in(text, block) matches Some((from, to)) ==> 0 <= from <= to <= trimmed_end(
            text,
        ).len(),
        trimmed_end(text).len() <= text.len(),
        trimmed_end(text) == text.take(trimmed_end(text).len() as int),
{
    lemma_trimmed_end(text);
    let visible = trimmed_end(text);
    if chars_in(text, block) is Some {
        lemma_chars_fitting_monotonic(
            visible,
            block.column_start as int,
            smaller(block.column_end, text_columns(visible)) as int,
        );
    }
}

pub proof fn lemma_trimmed_end(text: Seq<char>)
    ensures
        trimmed_end(text).len() <= text.len(),
        trimmed_end(text) == text.take(trimmed_end(text).len() as int),
    decreases text.len(),
{
    if text.len() > 0 && trimmed_end(text) != text {
        lemma_trimmed_end(text.drop_last());
        let kept = trimmed_end(text).len() as int;
        assert(text.drop_last().take(kept) =~= text.take(kept));
    } else {
        assert(text.take(text.len() as int) =~= text);
    }
}

/// The characters of a text that lie in the columns of a block.
fn select_chars(text: &str, chars: &Vec<char>, block: Block) -> (selected: Option<(usize, usize)>)
    requires
        chars@ == text@,
        block.column_start <= block.column_end,
    ensures
        selected is Some <==> chars_in(text@, block) is Some,
        selected matches Some((from, to)) ==> chars_in(text@, block) == Some(
            (from as int, to as int),
        ) && from <= to <= chars@.len(),
{
    let len = visible_len(chars);
    let visible = string_of(chars, 0, len);
    assert(chars@.subrange(0, len as int) == chars@.take(len as int));
    if len == 0 {
        return None;
    }
    let width = text_width(visible.as_str());
    if block.column_start >= width {
        return None;
    }
    let end = if block.column_end <= width {
        block.column_end
    } else {
        width
    };
    proof {
        lemma_chars_in(text@, block);
    }
    Some(
        (
            char_index_for_column(chars, len, block.column_start),
            char_index_for_column(chars, len, end),
        ),
    )
}

/// What a block selects of a text.
pub fn select_text(text: &str, block: Block) -> (selected: String)
    requires
        block.column_start <= block.column_end,
    ensures
        selected@ == text_in(text@, block),
{
    let chars = chars_of(text);
    match select_chars(text, &chars, block) {
        Some((from, to)) => string_of(&chars, from, to),
        None => String::new(),
    }
}

/// A line of the page with what a block selects of it marked.
pub open spec fn line_with_selection(line: LineView, block: Block) -> LineView {
    match chars_in(plain_text(line), block) {
        Some((from, to)) => if from < to {
            highlighted_spans(line, seq![(from, to)], match_style(true))
        } else {
            line
        },
        None => line,
    }
}

/// A line of the page with what a block selects of it marked.
pub fn mark_selection(line: &Line, block: Block) -> (marked: Line)
    requires
        block.column_start <= block.column_end,
    ensures
        marked@ == line_with_selection(line@, block),
{
    let text = line_plain_text(line);
    let chars = chars_of(text.as_str());
    match select_chars(text.as_str(), &chars, block) {
        Some((from, to)) => {
            if from >= to {
                return line.duplicate();
            }
            let start = byte_index_for_char_index(text.as_str(), &chars, from);
            let end = byte_index_for_char_index(text.as_str(), &chars, to);
            let mut ranges: Vec<(usize, usize)> = Vec::new();
            ranges.push((start, end));
            proof {
                law_byte_offset_round_trip(text@, from as int);
                law_byte_offset_round_trip(text@, to as int);
                lemma_byte_len_take(text@, from as int, to as int);
                assert(on_boundary(text@, start as int));
                assert(on_boundary(text@, end as int));
                assert(char_ranges(text@, ranges@) =~= seq![(from as int, to as int)]);
            }
            let style = Style::new().add_modifier(Modifier::reversed().union(Modifier::bold()));
            apply_highlight_ranges(line, &ranges, style)
        },
        None => line.duplicate(),
    }
}

/// Marking a selection keeps the text of a line.
pub proof fn law_marking_keeps_text(line: LineView, block: Block)
    ensures
        plain_text(line_with_selection(line, block)) == plain_text(line),
{
    if let Some((from, to)) = chars_in(plain_text(line), block) {
        if from < to {
            law_highlight_overlays_covered_chars(line, seq![(from, to)], match_style(true));
        }
    }
}

/// The page with what a block selects of it marked.
pub open spec fn lines_with_selection(lines: Seq<LineView>, block: Block) -> Seq<LineView> {
    Seq::new(
        lines.len(),
        |row: int|
            if block.row_start <= row <= block.row_end {
                line_with_selection(lines[row], block)
            } else {
                lines[row]
            },
    )
}

/// What a block selects of the first `upto` rows, row by row.
pub open spec fn selected_upto(lines: Seq<LineView>, block: Block, upto: int) -> Seq<Seq<char>>
    decreases upto,
{
    if upto <= 0 {
        Seq::empty()
    } else if block.row_start <= upto - 1 <= block.row_end {
        selected_upto(lines, block, upto - 1).push(text_in(plain_text(lines[upto - 1]), block))
    } else {
        selected_upto(lines, block, upto - 1)
    }
}

/// Texts, one to a line.
pub open spec fn joined_lines(texts: Seq<Seq<char>>) -> Seq<char>
    decreases texts.len(),
{
    if texts.len() == 0 {
        Seq::empty()
    } else if texts.len() == 1 {
        texts[0]
    } else {
        joined_lines(texts.drop_last()) + "\n"@ + texts.last()
    }
}

/// What a block selects of the page, one line for each of its rows.
pub open spec fn block_text(lines: Seq<LineView>, block: Block) -> Seq<char> {
    joined_lines(selected_upto(lines, block, lines.len() as int))
}

/// What a block selects of the page, one line for each of its rows.
pub fn select_block(lines: &Vec<Line>, block: Block) -> (text: String)
    requires
        block.column_start <= block.column_end,
    ensures
        text@ == block_text(lines_view(lines@), block),
{
    let ghost all = lines_view(lines@);
    let mut text = String::new();
    let mut first = true;
    let mut row: usize = 0;
    while row < lines.len()
        invariant
            row <= lines@.len(),
            all == lines_view(lines@),
            block.column_start <= block.column_end,
            first <==> selected_upto(all, block, row as int).len() == 0,
            text@ == joined_lines(selected_upto(all, block, row as int)),
        decreases lines.len() - row,
    {
        if block.row_start <= row && row <= block.row_end {
            let ghost before = selected_upto(all, block, row as int);
            assert(all[row as int] == lines@[row as int]@);
            let line = line_plain_text(&lines[row]);
            let selected = select_text(line.as_str(), block);
            if !first {
                text.append("\n");
            }
            text.append(selected.as_str());
            first = false;
            assert(before.push(selected@).drop_last() =~= before);
        }
        row += 1;
    }
    text
}

impl AppView {
    /// The selection, if there is one.
    pub open spec fn selection(self, content_width: u16) -> Option<VisualBlockSelection> {
        match self.mode {
            ModeView::VisualBlock(anchor) => Some(
                VisualBlockSelection {
                    start: anchor,
                    end: self.cursor_position(content_width),
                },
            ),
            _ => None,
        }
    }

    /// The viewer after it has looked for the selection.
    pub open spec fn find_selection(self, content_width: u16) -> AppView {
        if self.mode is VisualBlock {
            self.find_cursor(content_width)
        } else {
            self
        }
    }

    /// The text of the selection, if there is one.
    pub open spec fn selected_text(self, content_width: u16) -> Option<Seq<char>> {
        match self.selection(content_width) {
            Some(selection) => Some(
                block_text(
                    self.find_selection(content_width).page(content_width).lines,
                    selection.block(),
                ),
            ),
            None => None,
        }
    }

    /// The viewer after it has looked for the text of the selection.
    pub open spec fn find_selected_text(self, content_width: u16) -> AppView {
        if self.mode is VisualBlock {
            self.find_selection(content_width).show_lines()
        } else {
            self
        }
    }
}

/// How many lines a text has: a line break at its end does not begin another.
pub open spec fn line_count(text: Seq<char>) -> nat {
    let pieces = split_text(text, '\n');
    if pieces.len() > 0 && pieces.last().len() == 0 {
        (pieces.len() - 1) as nat
    } else {
        pieces.len()
    }
}

/// How many lines a text has: a line break at its end does not begin another.
pub fn count_lines(text: &str) -> (count: usize)
    ensures
        count == line_count(text@),
{
    let pieces = split(text, '\n');
    let count = pieces.len();
    assert(strings_view(pieces@).len() == count);
    if count > 0 {
        assert(strings_view(pieces@).last() == pieces@.last()@);
        if pieces[count - 1].as_str().is_empty() {
            return count - 1;
        }
    }
    count
}

/// How a try to put a text on the clipboard went.
pub open spec fn copy_status(text: Seq<char>, failure: Option<Seq<char>>) -> Seq<char> {
    match failure {
        None => "copied "@ + decimal_text(
            if line_count(text) >= 1 {
                line_count(text)
            } else {
                1
            },
        ) + " selected line(s) to clipboard"@,
        Some(reason) => "clipboard copy failed: "@ + reason,
    }
}

impl AppView {
    /// The viewer after a try to put the selected text on the clipboard: the selection ends where
    /// it went well.
    pub open spec fn copied(self, text: Seq<char>, failure: Option<Seq<char>>) -> AppView {
        AppView {
            status: copy_status(text, failure),
            mode: if failure is None {
                ModeView::Normal
            } else {
                self.mode
            },
            ..self
        }
    }

    /// The viewer after it has been asked to copy the selection.
    pub open spec fn ask_for_copy(self, content_width: u16) -> AppView {
        if self.mode is VisualBlock {
            self.find_selected_text(content_width)
        } else {
            AppView { status: "no active visual selection"@, ..self }
        }
    }
}

impl App {
    /// The selection, if there is one.
    pub fn visual_block_selection(&mut self, content_width: u16) -> (selection: Option<
        VisualBlockSelection,
    >)
        requires
            old(self)@.is_sound(),
        ensures
            selection == old(self)@.selection(content_width),
            final(self)@ == old(self)@.find_selection(content_width),
            final(self)@.is_sound(),
    {
        let start = match &self.mode {
            Mode::VisualBlock(anchor) => *anchor,
            _ => return None,
        };
        let end = self.current_cursor_position(content_width);
        Some(VisualBlockSelection { start, end })
    }

    /// Marks the selection on the page.
    pub fn apply_visual_selection_to_display_doc(
        &mut self,
        page: &mut DisplayDoc,
        content_width: u16,
    )
        requires
            old(self)@.is_sound(),
        ensures
            final(self)@ == old(self)@.find_selection(content_width),
            final(self)@.is_sound(),
            final(page)@ == (match old(self)@.selection(content_width) {
                Some(selection) => DisplayView {
                    lines: lines_with_selection(old(page)@.lines, selection.block()),
                    ..old(page)@
                },
                None => old(page)@,
            }),
            final(page).image_plans == old(page).image_plans,
    {
        let block = match self.visual_block_selection(content_width) {
            Some(selection) => selection.corners(),
            None => return,
        };
        let ghost before = old(page)@;
        let ghost count = page.lines@.len();
        let mut row = block.row_start;
        while row < page.lines.len() && row <= block.row_end
            invariant
                block.row_start <= row,
                block.column_start <= block.column_end,
                page.lines@.len() == before.lines.len(),
                page.image_plans == old(page).image_plans,
                page.doc_line_for_row == old(page).doc_line_for_row,
                before == old(page)@,
                forall|k: int|
                    0 <= k < page.lines@.len() ==> (#[trigger] page.lines@[k])@ == if block.row_start
                        <= k < row && k <= block.row_end {
                        line_with_selection(before.lines[k], block)
                    } else {
                        before.lines[k]
                    },
            decreases page.lines.len() - row,
        {
            let marked = mark_selection(&page.lines[row], block);
            page.lines.set(row, marked);
            row += 1;
        }
        assert(page@.lines =~= lines_with_selection(before.lines, block));
    }

    /// The text of the selection, if there is one.
    pub fn visual_selection_text(&mut self, content_width: u16) -> (text: Option<String>)
        requires
            old(self)@.is_sound(),
        ensures
            text is Some <==> old(self)@.selected_text(content_width) is Some,
            text is Some ==> text->0@ == old(self)@.selected_text(content_width)->0,
            final(self)@ == old(self)@.find_selected_text(content_width),
            final(self)@.is_sound(),
    {
        let selection = self.visual_block_selection(content_width)?;
        let page = self.build_display_doc(content_width);
        Some(select_block(&page.lines, selection.corners()))
    }

    /// The text to put on the clipboard, if anything is selected.
    pub fn copy_visual_selection_to_clipboard(&mut self, content_width: u16) -> (text: Option<
        String,
    >)
        requires
            old(self)@.is_sound(),
        ensures
            text is Some <==> old(self)@.selected_text(content_width) is Some,
            text is Some ==> text->0@ == old(self)@.selected_text(content_width)->0,
            final(self)@ == old(self)@.ask_for_copy(content_width),
            final(self)@.is_sound(),
    {
        let text = self.visual_selection_text(content_width);
        if text.is_none() {
            self.status = owned("no active visual selection");
        }
        text
    }

    /// Takes note of how a try to put the selected text on the clipboard went.
    pub fn clipboard_finished(&mut self, text: &str, failure: Option<&str>)
        ensures
            final(self)@ == old(self)@.copied(text@, text_view(failure)),
    {
        match failure {
            None => {
                let count = count_lines(text);
                let mut status = owned("copied ");
                let number = decimal(
                    if count >= 1 {
                        count as u64
                    } else {
                        1
                    },
                );
                status.append(number.as_str());
                status.append(" selected line(s) to clipboard");
                self.status = status;
                self.mode = Mode::Normal;
            },
            Some(reason) => {
                let mut status = owned("clipboard copy failed: ");
                status.append(reason);
                self.status = status;
            },
        }
    }
}

} // verus!
