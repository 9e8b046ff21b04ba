//! Where the cursor is after it has moved.
use ratatui_image::picker::Picker;
use std::path::PathBuf;
use vstd::prelude::*;

use crate::app::{AppView, DisplayView, PlanView};
use crate::coherence::{
    law_keys_keep_memory_true, law_memory_is_true, lemma_cursor_keeps_coherence,
    lemma_match_keeps_coherence, lemma_moved_keeps_coherence, lemma_page_rows, lemma_rows_below,
};
use crate::keys::{
    law_keys_keep_the_document, law_keys_keep_the_viewer_sound, same_document, KeyAction, Viewport,
};
use crate::layout::{
    law_lines_stand_on_their_rows, law_opened_documents_are_indexed, law_page_has_all_rows,
    lemma_page_grows, lemma_rows_before_line,
};
use crate::loading::{lemma_index_by_line, opened};
use crate::markdown::EventView;
use crate::motion::WordMotionKind;
use crate::page::{laid_out, RenderTools};
use crate::renderer::law_document_is_whole;
use crate::text::LineView;

verus! {

impl AppView {
    /// Whether the viewer is in order: what it remembers holds, images are found on their lines,
    /// and the rows of the page can be counted.
    pub open spec fn is_laid_out(self, content_width: u16) -> bool {
        &&& self.is_sound()
        &&& self.is_indexed()
        &&& self.is_coherent()
        &&& self.page(content_width).lines.len() <= usize::MAX
    }
}

proof fn lemma_same_rows_before(a: AppView, b: AppView, line: usize, upto: int, content_width: u16)
    requires
        same_document(a, b),
    ensures
        a.image_rows_before_line(line, upto, content_width) == b.image_rows_before_line(
            line,
            upto,
            content_width,
        ),
        a.image_rows_upto(upto, content_width) == b.image_rows_upto(upto, content_width),
    decreases upto,
{
    if upto > 0 {
        lemma_same_rows_before(a, b, line, upto - 1, content_width);
    }
}

proof fn lemma_same_page_upto(
    a: AppView,
    b: AppView,
    shown: Seq<LineView>,
    upto: int,
    content_width: u16,
)
    requires
        same_document(a, b),
    ensures
        a.page_upto(shown, upto, content_width) == b.page_upto(shown, upto, content_width),
    decreases upto,
{
    if upto > 0 {
        lemma_same_page_upto(a, b, shown, upto - 1, content_width);
    }
}

/// Viewers of one document have lines on the same rows.
pub proof fn lemma_same_rows(a: AppView, b: AppView, line: usize, content_width: u16)
    requires
        same_document(a, b),
    ensures
        a.row_of_line(line, content_width) == b.row_of_line(line, content_width),
{
    lemma_same_rows_before(a, b, line, a.images.len() as int, content_width);
}

/// A viewer that shows the same document and is in order has as many rows.
pub proof fn lemma_same_page(a: AppView, b: AppView, content_width: u16)
    requires
        a.is_laid_out(content_width),
        same_document(a, b),
        b.is_sound(),
        b.is_coherent(),
    ensures
        b.is_laid_out(content_width),
        a.page(content_width).doc_line_for_row == b.page(content_width).doc_line_for_row,
        a.page(content_width).lines.len() == b.page(content_width).lines.len(),
        a.page(content_width).image_plans == b.page(content_width).image_plans,
{
    law_memory_is_true(a, content_width);
    law_memory_is_true(b, content_width);
    let shown = a.shown_lines();
    let other = b.shown_lines();
    assert(shown.len() == other.len() == a.lines.len());
    lemma_same_page_upto(a, b, shown, shown.len() as int, content_width);
    lemma_rows_of_any_lines(b, shown, other, shown.len() as int, content_width);
}

/// Which rows belong to which lines does not depend on what the lines say.
proof fn lemma_rows_of_any_lines(
    app: AppView,
    a: Seq<LineView>,
    b: Seq<LineView>,
    upto: int,
    content_width: u16,
)
    requires
        0 <= upto <= a.len() == b.len(),
    ensures
        app.page_upto(a, upto, content_width).doc_line_for_row == app.page_upto(
            b,
            upto,
            content_width,
        ).doc_line_for_row,
        app.page_upto(a, upto, content_width).lines.len() == app.page_upto(
            b,
            upto,
            content_width,
        ).lines.len(),
        app.page_upto(a, upto, content_width).image_plans == app.page_upto(
            b,
            upto,
            content_width,
        ).image_plans,
    decreases upto,
{
    if upto > 0 {
        lemma_rows_of_any_lines(app, a, b, upto - 1, content_width);
    }
}

/// The cursor is on the line whose rows it is in: from the row of the line to the row before that
/// of the next line.
pub proof fn law_cursor_is_on_the_line_of_its_row(app: AppView, line: usize, content_width: u16)
    requires
        app.is_laid_out(content_width),
        line < app.lines.len(),
        app.row_of_line(line, content_width) <= app.cursor_row,
        line + 1 < app.lines.len() ==> app.cursor_row < app.row_of_line(
            (line + 1) as usize,
            content_width,
        ),
    ensures
        app.cursor_line(content_width) == line,
{
    let clamped = app.clamp_cursor(content_width);
    lemma_cursor_keeps_coherence(app, 0, content_width);
    lemma_same_page(app, clamped, content_width);
    law_memory_is_true(app, content_width);
    law_page_has_all_rows(app, content_width);
    law_lines_stand_on_their_rows(app, line, content_width);
    if line + 1 < app.lines.len() {
        law_lines_stand_on_their_rows(app, (line + 1) as usize, content_width);
    }
    let rows = app.page(content_width).doc_line_for_row;
    assert(app.counted_rows(content_width) == rows.len());
    assert(rows[app.row_of_line(line, content_width) as int] <= rows[clamped.cursor_row as int]);
}

/// A cursor that is put on the row of a line is on the line.
pub proof fn lemma_cursor_on_row_of_line(app: AppView, line: usize, content_width: u16)
    requires
        app.is_laid_out(content_width),
        line < app.lines.len(),
        app.cursor_row == app.row_of_line(line, content_width),
    ensures
        app.cursor_line(content_width) == line,
        app.cursor_row < app.rows(content_width),
{
    law_memory_is_true(app, content_width);
    law_page_has_all_rows(app, content_width);
    law_lines_stand_on_their_rows(app, line, content_width);
    if line + 1 < app.lines.len() {
        let next = (line + 1) as usize;
        law_lines_stand_on_their_rows(app, next, content_width);
        let rows = app.page(content_width).doc_line_for_row;
        if app.row_of_line(next, content_width) <= app.cursor_row {
            assert(rows[app.row_of_line(next, content_width) as int]
                <= rows[app.cursor_row as int]);
        }
    }
    law_cursor_is_on_the_line_of_its_row(app, line, content_width);
}

/// After a jump the cursor is on the line of the match, and the line is on the screen: at its top,
/// unless the page ends before the screen does.
pub proof fn law_jumps_lead_to_the_match(
    app: AppView,
    index: usize,
    viewport_height: usize,
    content_width: u16,
)
    requires
        app.is_laid_out(content_width),
        index < app.search_matches.len(),
        app.search_matches[index as int] < app.lines.len(),
    ensures
        ({
            let after = app.go_to_match(index, viewport_height, content_width);
            &&& after.cursor_line(content_width) == app.search_matches[index as int]
            &&& after == (AppView {
                cursor_row: after.cursor_row,
                scroll: after.scroll,
                row_counts: after.row_counts,
                highlighted: after.highlighted,
                ..app
            })
            &&& after.scroll <= after.cursor_row
            &&& viewport_height > 0 ==> after.cursor_row - after.scroll < viewport_height
            &&& app.may_be_first(after.scroll as int, viewport_height, content_width)
            &&& after.scroll < after.cursor_row ==> !app.may_be_first(
                after.scroll + 1,
                viewport_height,
                content_width,
            )
            &&& same_document(app, after)
        }),
{
    let line = app.search_matches[index as int];
    let after = app.go_to_match(index, viewport_height, content_width);
    lemma_match_keeps_coherence(app, index, viewport_height, content_width);
    lemma_same_page(app, after, content_width);
    lemma_same_rows(app, after, line, content_width);
    law_memory_is_true(app, content_width);
    law_memory_is_true(after, content_width);
    let moved = AppView { cursor_row: app.row_of_line(line, content_width), ..app };
    lemma_moved_keeps_coherence(app, moved);
    law_memory_is_true(moved, content_width);
    lemma_same_page(app, moved, content_width);
    law_page_has_all_rows(app, content_width);
    law_page_has_all_rows(after, content_width);
    lemma_cursor_on_row_of_line(after, line, content_width);
}

/// A word motion that finds a word puts the cursor on its line and column.
pub proof fn law_word_motions_lead_to_the_word(
    app: AppView,
    content_width: u16,
    kind: WordMotionKind,
)
    requires
        app.is_laid_out(content_width),
    ensures
        ({
            let line = app.cursor_line(content_width);
            let column = app.find_cursor(content_width).column_on(line);
            let next = app.next_word(content_width, kind);
            let previous = app.prev_word(content_width, kind);
            &&& app.find_cursor(content_width).word_after(line, column, kind) matches Some((l, c))
                ==> next.cursor_line(content_width) == l && next == (AppView {
                cursor_column: c,
                cursor_row: next.cursor_row,
                focused_image: None,
                ..app.find_cursor(content_width)
            })
            &&& app.find_cursor(content_width).word_after(line, column, kind) is None ==> next
                == app.find_cursor(content_width)
            &&& app.find_cursor(content_width).word_before(line, column, kind) matches Some((l, c))
                ==> l < app.lines.len() ==> previous.cursor_line(content_width) == l && previous
                == (AppView {
                cursor_column: c,
                cursor_row: previous.cursor_row,
                focused_image: None,
                ..app.find_cursor(content_width)
            })
            &&& app.find_cursor(content_width).word_before(line, column, kind) is None
                ==> previous == app.find_cursor(content_width)
        }),
{
    let found = app.find_cursor(content_width);
    let line = app.cursor_line(content_width);
    let column = found.column_on(line);
    lemma_cursor_keeps_coherence(app, 0, content_width);
    lemma_same_page(app, found, content_width);
    if line >= 0 {
        crate::laws::words::law_next_word_over_lines(found, line, column, kind);
        crate::laws::words::law_prev_word_over_lines(found, line, column, kind);
    }
    lemma_cursor_line_bounds(app, content_width);
    if let Some((l, c)) = found.word_after(line, column, kind) {
        lemma_moved_to(found, l, c, content_width);
    }
    if let Some((l, c)) = found.word_before(line, column, kind) {
        if l < app.lines.len() {
            lemma_moved_to(found, l, c, content_width);
        }
    }
}

proof fn lemma_moved_to(app: AppView, line: int, column: usize, content_width: u16)
    requires
        app.is_laid_out(content_width),
        0 <= line < app.lines.len(),
    ensures
        app.move_to(Some((line, column)), content_width).cursor_line(content_width) == line,
{
    let after = app.move_to(Some((line, column)), content_width);
    lemma_moved_keeps_coherence(app, after);
    lemma_same_page(app, after, content_width);
    lemma_same_rows(app, after, line as usize, content_width);
    lemma_cursor_on_row_of_line(after, line as usize, content_width);
}

pub proof fn lemma_cursor_line_bounds(app: AppView, content_width: u16)
    requires
        app.is_laid_out(content_width),
    ensures
        0 <= app.cursor_line(content_width),
        app.lines.len() > 0 ==> app.cursor_line(content_width) < app.lines.len(),
{
    let clamped = app.clamp_cursor(content_width);
    lemma_cursor_keeps_coherence(app, 0, content_width);
    lemma_same_page(app, clamped, content_width);
    law_page_has_all_rows(app, content_width);
}

/// Whether a plan is that of the image whose caption is on a line: it begins on the row below the
/// line and takes the rows of the image, which are blank and belong to the line.
pub open spec fn is_plan_below(
    app: AppView,
    page: DisplayView,
    plan: PlanView,
    line: int,
    row: int,
    content_width: u16,
) -> bool {
    &&& app.image_on(line) == Some(plan.image_index)
    &&& plan.start_row == row + 1
    &&& plan.height == app.rows_below(line, content_width)
    &&& plan.start_row + plan.height <= page.lines.len()
    &&& page.lines.len() == page.doc_line_for_row.len()
    &&& forall|r: int|
        plan.start_row <= r < plan.start_row + plan.height ==> (#[trigger] page.lines[r]).len() == 0
    &&& forall|r: int|
        plan.start_row <= r < plan.start_row + plan.height ==> #[trigger] page.doc_line_for_row[r]
            == line
}

proof fn lemma_plan_below(
    app: AppView,
    shown: Seq<LineView>,
    upto: int,
    i: int,
    content_width: u16,
) -> (line: int)
    requires
        0 <= upto <= shown.len(),
        0 <= i < app.page_upto(shown, upto, content_width).image_plans.len(),
    ensures
        0 <= line < upto,
        is_plan_below(
            app,
            app.page_upto(shown, upto, content_width),
            app.page_upto(shown, upto, content_width).image_plans[i],
            line,
            app.page_upto(shown, line, content_width).lines.len() as int,
            content_width,
        ),
    decreases upto,
{
    let page = app.page_upto(shown, upto, content_width);
    if upto <= 0 {
        0
    } else {
        let before = app.page_upto(shown, upto - 1, content_width);
        lemma_page_grows(app, shown, upto - 1, upto, content_width);
        lemma_rows_below(app, upto - 1, content_width);
        if i < before.image_plans.len() {
            let line = lemma_plan_below(app, shown, upto - 1, i, content_width);
            let plan = before.image_plans[i];
            assert(page.image_plans[i] == plan);
            assert forall|r: int| plan.start_row <= r < plan.start_row + plan.height implies (
            #[trigger] page.lines[r]).len() == 0 by {
                assert(page.lines[r] == before.lines[r]);
            }
            assert forall|r: int|
                plan.start_row <= r < plan.start_row
                    + plan.height implies #[trigger] page.doc_line_for_row[r] == line by {
                assert(page.doc_line_for_row[r] == before.doc_line_for_row[r]);
            }
            line
        } else {
            upto - 1
        }
    }
}

/// An image stands right below its caption, on as many rows as it takes. They are left blank, and
/// they belong to the line of the caption.
pub proof fn law_images_stand_below_their_captions(app: AppView, i: int, content_width: u16)
    requires
        app.is_laid_out(content_width),
        0 <= i < app.page(content_width).image_plans.len(),
    ensures
        ({
            let page = app.page(content_width);
            let plan = page.image_plans[i];
            let image = app.images[plan.image_index as int];
            &&& plan.image_index < app.images.len()
            &&& plan.start_row == app.row_of_line(image.line_index, content_width) + 1
            &&& plan.height == image.rows(app.picker, content_width)
            &&& plan.start_row + plan.height <= page.lines.len()
            &&& forall|r: int|
                plan.start_row <= r < plan.start_row + plan.height ==> (
                #[trigger] page.lines[r]).len() == 0
            &&& forall|r: int|
                plan.start_row <= r < plan.start_row
                    + plan.height ==> #[trigger] page.doc_line_for_row[r] == image.line_index
        }),
{
    let shown = app.shown_lines();
    law_memory_is_true(app, content_width);
    assert(shown.len() == app.lines.len());
    let line = lemma_plan_below(app, shown, shown.len() as int, i, content_width);
    lemma_index_by_line(app.images, app.images.len() as int);
    lemma_page_rows(app, shown, line, content_width);
    lemma_rows_before_line(app, line, content_width);
    lemma_page_grows(app, shown, line, shown.len() as int, content_width);
    let plan = app.page(content_width).image_plans[i];
    assert(app.images[plan.image_index as int].line_index == line);
}

/// Looking for the cursor changes nothing but what is remembered, and brings the cursor back onto the
/// page.
pub proof fn law_looking_for_the_cursor_moves_nothing(app: AppView, content_width: u16)
    requires
        app.is_laid_out(content_width),
    ensures
        ({
            let found = app.find_cursor(content_width);
            &&& found == (AppView {
                cursor_row: found.cursor_row,
                row_counts: found.row_counts,
                highlighted: found.highlighted,
                ..app
            })
            &&& found.cursor_row == app.row_of_cursor(content_width)
            &&& found.shown_lines() == app.shown_lines()
        }),
{
    crate::laws::moves::lemma_rows(app, content_width);
    lemma_cursor_keeps_coherence(app, 0, content_width);
    law_memory_is_true(app, content_width);
    law_memory_is_true(app.find_cursor(content_width), content_width);
}

/// A viewer is in order when its document is opened, as long as its rows can be counted.
pub proof fn law_opened_viewers_are_in_order(
    path: PathBuf,
    content: Seq<char>,
    events: Seq<EventView>,
    tools: RenderTools,
    start_line: usize,
    picker: Picker,
    drive: Option<Seq<char>>,
    content_width: u16,
)
    requires
        laid_out(events, tools).lines.len() <= usize::MAX,
        laid_out(events, tools).images.len() <= usize::MAX,
        opened(path, content, laid_out(events, tools), start_line, picker, drive).page(
            content_width,
        ).lines.len() <= usize::MAX,
    ensures
        opened(path, content, laid_out(events, tools), start_line, picker, drive).is_laid_out(
            content_width,
        ),
{
    let doc = laid_out(events, tools);
    law_document_is_whole(events, tools);
    law_opened_documents_are_indexed(path, content, doc, start_line, picker, drive);
    let app = opened(path, content, doc, start_line, picker, drive);
    lemma_index_by_line(app.images, app.images.len() as int);
}

/// Whatever keys do, a viewer that is in order stays so.
pub proof fn law_keys_keep_the_viewer_in_order(app: AppView, action: KeyAction, viewport: Viewport)
    requires
        app.is_laid_out(viewport.width),
        app.search_matches.len() <= usize::MAX,
    ensures
        app.act(action, viewport).is_laid_out(viewport.width),
        same_document(app, app.act(action, viewport)),
{
    law_keys_keep_memory_true(app, action, viewport);
    law_keys_keep_the_viewer_sound(app, action, viewport);
    law_keys_keep_the_document(app, action, viewport);
    lemma_same_page(app, app.act(action, viewport), viewport.width);
}

} // verus!
