//! What the screen shows of the viewer.
use ratatui_image::protocol::StatefulProtocol;
use vstd::prelude::*;

use crate::app::{AppView, ModeView};
use crate::chars::decimal_text;
use crate::coherence::{
    law_memory_is_true, lemma_counting_keeps_coherence, lemma_cursor_keeps_coherence,
    lemma_showing_keeps_coherence,
};
use crate::image_work::first_results;
use crate::keys::same_document;
use crate::laws::moves::{law_no_more_is_scrolled_than_needed, lemma_rows};
use crate::laws::places::lemma_same_page;
use crate::layout::law_cursor_is_shown;
use crate::loading::{ImageLoadResult, ImageResizeResult};
use crate::screen::{page_cursor, query_cursor};
use crate::source::shown_path;
use crate::variant::Rect;
use crate::width::text_columns;

verus! {

/// The smaller of two counts.
pub open spec fn at_most(count: int, limit: int) -> nat {
    if count <= limit {
        count as nat
    } else {
        limit as nat
    }
}

/// The status line tells the first row on the screen and the place of the cursor, both counted from
/// one and within the page.
pub proof fn law_places_are_counted_from_one(
    app: AppView,
    total_rows: usize,
    line: usize,
    column: usize,
)
    requires
        app.scroll < usize::MAX,
        line < usize::MAX,
        column < usize::MAX,
        app.lines.len() <= usize::MAX,
    ensures
        app.place_text(total_rows, line, column) == "  |  row "@ + decimal_text(
            at_most(app.scroll + 1, total_rows as int),
        ) + " / "@ + decimal_text(total_rows as nat) + "  |  cursor "@ + decimal_text(
            at_most(
                line + 1,
                if app.lines.len() > 0 {
                    app.lines.len() as int
                } else {
                    1
                },
            ),
        ) + ":"@ + decimal_text((column + 1) as nat),
{
}

/// What the status line says: the help if it is asked for, else the query that is typed, else the
/// status, the place, and how to go on. It tells of images where there are any, of the one that is
/// selected, and of matches.
pub proof fn law_status_line_tells_what_is_going_on(
    app: AppView,
    total_rows: usize,
    line: usize,
    column: usize,
)
    ensures
        ({
            let text = app.status_text(total_rows, line, column);
            let place = app.place_text(total_rows, line, column);
            let (loaded, loading, failed) = app.progress();
            let images = if app.images.len() > 0 {
                "  |  images "@ + decimal_text(loaded) + "/"@ + decimal_text(app.images.len())
                    + ", loading "@ + decimal_text(loading) + ", failed "@ + decimal_text(failed)
            } else {
                Seq::empty()
            };
            let selected = match app.focused_image {
                Some(image) => if image < usize::MAX {
                    "  |  image "@ + decimal_text((image + 1) as nat) + " selected"@
                } else {
                    app.focus_text()
                },
                None => Seq::empty(),
            };
            let matches = if app.search_matches.len() > 0 {
                "  |  match "@ + decimal_text((app.active_match + 1) as nat) + " / "@
                    + decimal_text(app.search_matches.len())
            } else {
                Seq::empty()
            };
            &&& app.show_help ==> text == (
            "q quit | Ctrl-v visual block | y copy | Esc cancel | h/l,j/k move | w/W,b/B words | g/G top/bottom | d/u,Ctrl-d/u half-page | Ctrl-f/b page | / search | n/N next/prev | r reload | ? help"@)
            &&& !app.show_help && app.mode is Normal ==> text == app.status + place + "  |  ? help"@
                + images + selected + matches
            &&& !app.show_help && app.mode is VisualBlock ==> text == app.status
                + "  |  VISUAL BLOCK"@ + place + "  |  y copy | Esc cancel"@ + images
            &&& !app.show_help ==> (app.mode matches ModeView::SearchInput(query) ==> text == "/"@
                + query)
            &&& app.title() == " mdvi "@ + shown_path(app.file_path) + " "@
        }),
{
}

/// The cursor is drawn in its own cell of the page, or in the last one of its row.
pub proof fn law_cursor_is_drawn_in_its_cell(row: usize, column: usize, inner: Rect)
    requires
        inner.x + inner.width <= u16::MAX,
        inner.y + row <= u16::MAX,
        column <= u16::MAX,
    ensures
        inner.width == 0 || inner.height == 0 <==> page_cursor(row, column, inner) is None,
        page_cursor(row, column, inner) matches Some((x, y)) ==> y == inner.y + row && x == inner.x
            + at_most(column as int, inner.width - 1),
{
}

/// The cursor of a query is drawn behind the slash and the query, or in the last cell of the line.
pub proof fn law_query_cursor_is_behind_the_query(query: Seq<char>, area: Rect)
    requires
        0 < area.width,
        area.x + area.width <= u16::MAX,
        text_columns(query) <= u16::MAX,
    ensures
        query_cursor(query, area).1 == area.y,
        query_cursor(query, area).0 == area.x + at_most(
            1 + text_columns(query),
            area.width - 1,
        ),
{
}

/// When the screen is drawn, the cursor is on the page and on the screen, and it is drawn on the
/// line that it is on.
#[verifier::rlimit(30)]
pub proof fn law_screen_follows_the_cursor(
    app: AppView,
    viewport_height: usize,
    content_width: u16,
)
    requires
        app.is_laid_out(content_width),
        viewport_height > 0,
    ensures
        ({
            let ready = app.before_drawing(viewport_height, content_width);
            let row = ready.drawn_row(app.counted_rows(content_width));
            &&& ready.cursor_row == app.row_of_cursor(content_width)
            &&& app.is_least_scroll(
                ready.scroll as int,
                ready.cursor_row as int,
                viewport_height,
                content_width,
            )
            &&& row == ready.cursor_row
            &&& app.counted_rows(content_width) == app.cursor_rows(content_width)
            &&& ready.drawn_line(app.page(content_width), row) == app.cursor_line(content_width)
            &&& ready.cursor_column == app.cursor_column && ready.focused_image
                == app.focused_image && ready.mode == app.mode
            &&& same_document(app, ready)
        }),
{
    let counted = app.show_lines().count_rows(content_width);
    lemma_counted(app, content_width);
    let clamped = counted.clamp_cursor(content_width);
    lemma_rows(counted, content_width);
    law_no_more_is_scrolled_than_needed(clamped, viewport_height, content_width);
    lemma_rows(clamped, content_width);
    lemma_rows(app, content_width);
    lemma_same_page(app, app.clamp_cursor(content_width), content_width);
    law_cursor_is_shown(clamped, viewport_height, content_width);
    let shown = clamped.show_cursor(viewport_height, content_width);
    assert(shown.scroll <= app.show_lines().max_scroll(viewport_height, content_width)) by {
        lemma_cursor_keeps_coherence(clamped, viewport_height, content_width);
        lemma_same_page(app, shown, content_width);
        law_memory_is_true(shown, content_width);
    }
    lemma_drawn_line(app, content_width);
}

proof fn lemma_counted(app: AppView, content_width: u16)
    requires
        app.is_laid_out(content_width),
    ensures
        ({
            let counted = app.show_lines().count_rows(content_width);
            &&& counted.is_laid_out(content_width)
            &&& counted.cursor_rows(content_width) == app.cursor_rows(content_width)
            &&& app.show_lines().rows(content_width) == app.cursor_rows(content_width)
            &&& app.counted_rows(content_width) == app.cursor_rows(content_width)
            &&& counted.row_of_cursor(content_width) == app.row_of_cursor(content_width)
            &&& same_document(app, counted)
            &&& counted.scroll == app.scroll && counted.cursor_column == app.cursor_column
            &&& counted.focused_image == app.focused_image && counted.mode == app.mode
        }),
{
    law_memory_is_true(app, content_width);
    let shown = app.show_lines();
    lemma_showing_keeps_coherence(app);
    lemma_same_page(app, shown, content_width);
    law_memory_is_true(shown, content_width);
    lemma_counting_keeps_coherence(shown, content_width);
    lemma_same_page(app, shown.count_rows(content_width), content_width);
}

proof fn lemma_drawn_line(app: AppView, content_width: u16)
    requires
        app.is_laid_out(content_width),
    ensures
        ({
            let row = app.row_of_cursor(content_width);
            let rows = app.page(content_width).doc_line_for_row;
            app.cursor_line(content_width) == if row < rows.len() {
                rows[row]
            } else if app.lines.len() > 0 {
                app.lines.len() - 1
            } else {
                0
            }
        }),
{
    lemma_rows(app, content_width);
    lemma_cursor_keeps_coherence(app, 0, content_width);
    lemma_same_page(app, app.clamp_cursor(content_width), content_width);
}

/// Answers of the loader are taken in the order in which they come, no more than four at a time.
pub proof fn law_answers_are_taken_four_at_a_time(results: Seq<ImageLoadResult>)
    ensures
        results.len() <= 4 ==> first_results(results) == results,
        results.len() > 4 ==> first_results(results).len() == 4 && forall|i: int|
            0 <= i < 4 ==> #[trigger] first_results(results)[i] == results[i],
{
}

/// An image that no answer is about stays as it is; one that the last answer is about is as that
/// answer makes it. Answers tell something new exactly if one of them does, as it comes.
pub proof fn law_later_answers_win(
    app: AppView,
    results: Seq<ImageLoadResult>,
    encoders: Seq<(StatefulProtocol, StatefulProtocol)>,
    image: int,
)
    requires
        0 <= image < app.images.len(),
    ensures
        app.take_results(results, encoders).0.images.len() == app.images.len(),
        (forall|i: int| 0 <= i < results.len() ==> (#[trigger] results[i]).image_index != image)
            ==> app.take_results(results, encoders).0.images[image] == app.images[image],
        results.len() > 0 && results.last().image_index == image ==> app.take_results(
            results,
            encoders,
        ).0.images[image] == app.take_results(
            results.drop_last(),
            encoders,
        ).0.images[image].take_result(results.last().payload, encoders[results.len() - 1]),
        app.take_results(results, encoders).0 == (AppView {
            images: app.take_results(results, encoders).0.images,
            ..app
        }),
        (exists|i: int|
            0 <= i < results.len() && (#[trigger] results[i]).payload is LoadedImage
                && results[i].image_index < app.images.len()) ==> app.take_results(
            results,
            encoders,
        ).1,
        (forall|i: int|
            0 <= i < results.len() ==> (#[trigger] results[i]).image_index >= app.images.len())
            ==> !app.take_results(results, encoders).1,
    decreases results.len(),
{
    if results.len() > 0 {
        let front = results.drop_last();
        law_later_answers_win(app, front, encoders, image);
        if forall|i: int| 0 <= i < results.len() ==> (#[trigger] results[i]).image_index != image {
            assert forall|i: int| 0 <= i < front.len() implies (#[trigger] front[i]).image_index
                != image by {
                assert(front[i] == results[i]);
            }
        }
        if exists|i: int|
            0 <= i < results.len() && (#[trigger] results[i]).payload is LoadedImage
                && results[i].image_index < app.images.len() {
            let i = choose|i: int|
                0 <= i < results.len() && (#[trigger] results[i]).payload is LoadedImage
                    && results[i].image_index < app.images.len();
            if i < front.len() {
                assert(front[i].payload is LoadedImage);
            }
        }
        if forall|i: int|
            0 <= i < results.len() ==> (#[trigger] results[i]).image_index >= app.images.len() {
            assert forall|i: int| 0 <= i < front.len() implies (#[trigger] front[i]).image_index
                >= app.images.len() by {
                assert(front[i] == results[i]);
            }
        }
    }
}

/// Encodings are taken in the order in which they come: one after another, each by what it is for.
pub proof fn law_encodings_are_taken_in_order(
    app: AppView,
    results: Seq<ImageResizeResult>,
    last: ImageResizeResult,
    image: int,
)
    requires
        0 <= image < app.images.len(),
    ensures
        app.receive_all(results).images.len() == app.images.len(),
        app.receive_all(results.push(last)) == app.receive_all(results).receive(last),
        last.image_index == image ==> app.receive_all(results.push(last)).images[image]
            == app.receive_all(results).images[image].receive(last.variant, last.protocol),
        last.image_index != image ==> app.receive_all(results.push(last)).images[image]
            == app.receive_all(results).images[image],
        results.len() == 0 ==> app.receive_all(results) == app,
    decreases results.len(),
{
    assert(results.push(last).drop_last() == results);
    if results.len() > 0 {
        law_encodings_are_taken_in_order(app, results.drop_last(), results.last(), image);
        assert(results.drop_last().push(results.last()) == results);
    }
}

} // verus!
