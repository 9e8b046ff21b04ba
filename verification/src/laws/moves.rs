//! Where the keys that move about lead.
use vstd::prelude::*;

use crate::app::{AppView, ModeView};
use crate::chars::trimmed_end;
use crate::coherence::{
    law_memory_is_true, lemma_counting_keeps_coherence, lemma_cursor_keeps_coherence,
    lemma_moved_keeps_coherence,
};
use crate::keys::{
    action_for, same_document, same_search, KeyAction, KeyCode, KeyEvent, KeyModifiers,
    OutcomeView, Viewport,
};
use crate::laws::places::lemma_same_page;
use crate::layout::{
    law_image_at_row, law_images_are_found_where_they_are_drawn, law_page_has_all_rows,
};
use crate::motion::WordMotionKind;
use crate::navigation::{first_of_image, ImageVirtualBounds};
use crate::width::text_columns;

verus! {

impl AppView {
    /// How many rows there are for the cursor: those of the page, but at least one.
    pub open spec fn cursor_rows(self, content_width: u16) -> int {
        if self.page(content_width).lines.len() > 0 {
            self.page(content_width).lines.len() as int
        } else {
            1
        }
    }

    /// The row of the page that the cursor is on.
    pub open spec fn row_of_cursor(self, content_width: u16) -> int {
        if self.cursor_row < self.cursor_rows(content_width) {
            self.cursor_row as int
        } else {
            self.cursor_rows(content_width) - 1
        }
    }

    /// Whether a row may be the first on a screen: one row of the screen is left empty behind the
    /// page, unless all of the page is shown.
    pub open spec fn may_be_first(
        self,
        row: int,
        viewport_height: usize,
        content_width: u16,
    ) -> bool {
        row == 0 || row + (if viewport_height > 0 {
            viewport_height - 1
        } else {
            0
        }) <= self.cursor_rows(content_width)
    }

    /// Whether a screen that begins at a row shows another row with no more scrolling than is
    /// needed: none where the row was on the screen already; else the row comes to stand on the
    /// first row of the screen if it was above it, and on the last if it was below.
    pub open spec fn is_least_scroll(
        self,
        scroll: int,
        row: int,
        viewport_height: usize,
        content_width: u16,
    ) -> bool {
        &&& self.may_be_first(scroll, viewport_height, content_width)
        &&& self.scroll <= row < self.scroll + viewport_height && self.may_be_first(
            self.scroll as int,
            viewport_height,
            content_width,
        ) ==> scroll == self.scroll
        &&& row < self.scroll && self.may_be_first(row, viewport_height, content_width) ==> scroll
            == row
        &&& row >= self.scroll + viewport_height ==> scroll + viewport_height - 1 == row
        &&& scroll <= row < scroll + viewport_height
    }
}

pub proof fn lemma_rows(app: AppView, content_width: u16)
    requires
        app.is_laid_out(content_width),
    ensures
        app.rows(content_width) == app.cursor_rows(content_width),
        app.clamp_cursor(content_width).is_laid_out(content_width),
        app.clamp_cursor(content_width).rows(content_width) == app.cursor_rows(content_width),
        app.clamp_cursor(content_width).cursor_rows(content_width) == app.cursor_rows(
            content_width,
        ),
        app.clamp_cursor(content_width).cursor_row == app.row_of_cursor(content_width),
{
    law_memory_is_true(app, content_width);
    lemma_cursor_keeps_coherence(app, 0, content_width);
    let clamped = app.clamp_cursor(content_width);
    lemma_same_page(app, clamped, content_width);
    law_memory_is_true(clamped, content_width);
}

/// Scrolling down moves the screen by as many rows as are asked for, or as far as the page goes, and
/// the cursor by as many, but not off the page. No image stays selected.
pub proof fn law_scrolling_down_moves_screen_and_cursor(
    app: AppView,
    n: usize,
    viewport_height: usize,
    content_width: u16,
)
    requires
        app.is_laid_out(content_width),
    ensures
        ({
            let after = app.scroll_down(n, viewport_height, content_width);
            let moved = after.scroll - app.scroll;
            let row = app.row_of_cursor(content_width);
            &&& after.scroll <= app.scroll + n
            &&& app.may_be_first(after.scroll as int, viewport_height, content_width)
            &&& after.scroll < app.scroll + n ==> !app.may_be_first(
                after.scroll + 1,
                viewport_height,
                content_width,
            )
            &&& moved > 0 && row + moved < app.cursor_rows(content_width) ==> after.cursor_row
                == row + moved
            &&& moved > 0 && row + moved >= app.cursor_rows(content_width) ==> after.cursor_row
                == app.cursor_rows(content_width) - 1
            &&& moved <= 0 ==> after.cursor_row == row
            &&& after.focused_image is None
            &&& after.cursor_column == app.cursor_column && after.mode == app.mode
            &&& same_document(app, after)
        }),
{
    lemma_moved_keeps_coherence(app, app.unfocused());
    lemma_same_page(app, app.unfocused(), content_width);
    lemma_rows(app.unfocused(), content_width);
}

/// Scrolling up moves the screen and the cursor by as many rows as are asked for, or to the top. No
/// image stays selected.
pub proof fn law_scrolling_up_moves_screen_and_cursor(app: AppView, n: usize, content_width: u16)
    requires
        app.is_laid_out(content_width),
    ensures
        ({
            let after = app.scroll_up(n, content_width);
            let row = app.row_of_cursor(content_width);
            let moved = app.scroll - after.scroll;
            &&& app.scroll >= n ==> moved == n
            &&& app.scroll < n ==> after.scroll == 0
            &&& row >= moved ==> after.cursor_row == row - moved
            &&& row < moved ==> after.cursor_row == 0
            &&& after.focused_image is None
            &&& after.cursor_column == app.cursor_column && after.mode == app.mode
            &&& same_document(app, after)
        }),
{
    lemma_moved_keeps_coherence(app, app.unfocused());
    lemma_same_page(app, app.unfocused(), content_width);
    lemma_rows(app.unfocused(), content_width);
}

/// The cursor is brought back onto the page and onto the screen, and no more is scrolled than is
/// needed.
pub proof fn law_no_more_is_scrolled_than_needed(
    app: AppView,
    viewport_height: usize,
    content_width: u16,
)
    requires
        app.is_laid_out(content_width),
        viewport_height > 0,
    ensures
        ({
            let after = app.show_cursor(viewport_height, content_width);
            let row = app.row_of_cursor(content_width);
            &&& after.cursor_row == row
            &&& app.is_least_scroll(after.scroll as int, row, viewport_height, content_width)
        }),
{
    lemma_rows(app, content_width);
}

/// The top of the page is its first row, the bottom its last; both are on the screen.
pub proof fn law_jumps_reach_the_ends(app: AppView, viewport_height: usize, content_width: u16)
    requires
        app.is_laid_out(content_width),
    ensures
        app.jump_top().cursor_row == 0 && app.jump_top().scroll == 0,
        app.jump_top() == (AppView { cursor_row: 0, scroll: 0, focused_image: None, ..app }),
        ({
            let bottom = app.jump_bottom(viewport_height, content_width);
            &&& bottom.cursor_row == app.cursor_rows(content_width) - 1
            &&& bottom.focused_image is None
            &&& bottom.cursor_column == app.cursor_column
            &&& viewport_height > 0 ==> app.is_least_scroll(
                bottom.scroll as int,
                bottom.cursor_row as int,
                viewport_height,
                content_width,
            )
            &&& same_document(app, bottom)
        }),
{
    let free = app.unfocused();
    lemma_moved_keeps_coherence(app, free);
    lemma_same_page(app, free, content_width);
    lemma_counting_keeps_coherence(free, content_width);
    law_memory_is_true(free, content_width);
    let there = AppView {
        cursor_row: free.last_row(content_width),
        ..free.count_rows(content_width)
    };
    lemma_moved_keeps_coherence(free.count_rows(content_width), there);
    lemma_same_page(free, there, content_width);
    lemma_rows(there, content_width);
    if viewport_height > 0 {
        law_no_more_is_scrolled_than_needed(there, viewport_height, content_width);
    }
}

/// The last row of the page belongs to its last line.
pub proof fn law_bottom_is_on_the_last_line(
    app: AppView,
    viewport_height: usize,
    content_width: u16,
)
    requires
        app.is_laid_out(content_width),
        app.lines.len() > 0,
    ensures
        app.jump_bottom(viewport_height, content_width).cursor_line(content_width)
            == app.lines.len() - 1,
        app.jump_top().cursor_line(content_width) == 0,
{
    law_jumps_reach_the_ends(app, viewport_height, content_width);
    let bottom = app.jump_bottom(viewport_height, content_width);
    let free = app.unfocused();
    lemma_moved_keeps_coherence(app, free);
    lemma_counting_keeps_coherence(free, content_width);
    let there = AppView {
        cursor_row: free.last_row(content_width),
        ..free.count_rows(content_width)
    };
    lemma_moved_keeps_coherence(free.count_rows(content_width), there);
    lemma_cursor_keeps_coherence(there, viewport_height, content_width);
    lemma_same_page(app, bottom, content_width);
    let last = (app.lines.len() - 1) as usize;
    crate::laws::places::lemma_same_rows(app, bottom, last, content_width);
    law_memory_is_true(app, content_width);
    law_page_has_all_rows(app, content_width);
    crate::layout::law_lines_stand_on_their_rows(app, last, content_width);
    crate::laws::places::law_cursor_is_on_the_line_of_its_row(bottom, last, content_width);
    let top = app.jump_top();
    lemma_moved_keeps_coherence(app, top);
    lemma_same_page(app, top, content_width);
    crate::layout::law_lines_stand_on_their_rows(top, 0, content_width);
    lemma_first_line(top, content_width);
}

proof fn lemma_first_line(app: AppView, content_width: u16)
    requires
        app.is_laid_out(content_width),
        app.lines.len() > 0,
        app.cursor_row == 0,
    ensures
        app.cursor_line(content_width) == 0,
{
    lemma_no_rows_before(app, app.images.len() as int, content_width);
    crate::laws::places::lemma_cursor_on_row_of_line(app, 0, content_width);
}

proof fn lemma_no_rows_before(app: AppView, upto: int, content_width: u16)
    ensures
        app.image_rows_before_line(0, upto, content_width) == 0,
    decreases upto,
{
    if upto > 0 {
        lemma_no_rows_before(app, upto - 1, content_width);
    }
}

/// Whether an image takes the rows from one to before another on the page.
pub open spec fn is_drawn_on(
    app: AppView,
    image: usize,
    first: int,
    end: int,
    content_width: u16,
) -> bool {
    exists|i: int|
        {
            &&& 0 <= i < app.page(content_width).image_plans.len()
            &&& (#[trigger] app.page(content_width).image_plans[i]).image_index == image
            &&& app.page(content_width).image_plans[i].start_row == first
            &&& app.page(content_width).image_plans[i].start_row
                + app.page(content_width).image_plans[i].height == end
        }
}

/// Whether the selection of an image follows from the row of the cursor: the image that is drawn
/// there is selected, and none where none is.
pub open spec fn is_selected_by_row(
    app: AppView,
    focused: Option<usize>,
    row: int,
    content_width: u16,
) -> bool {
    match focused {
        Some(image) => exists|first: int, end: int|
            #[trigger] is_drawn_on(app, image, first, end, content_width) && first <= row < end,
        None => forall|image: usize, first: int, end: int|
            #[trigger] is_drawn_on(app, image, first, end, content_width) ==> !(first <= row < end),
    }
}

proof fn lemma_image_at_row(app: AppView, row: usize, content_width: u16)
    requires
        app.is_laid_out(content_width),
    ensures
        is_selected_by_row(app, app.image_at_row(row, content_width), row as int, content_width),
{
    law_images_are_found_where_they_are_drawn(app, content_width);
    law_image_at_row(app, row, content_width);
    let plans = app.page(content_width).image_plans;
    let bounds = app.bounds(content_width);
    if let Some(image) = app.image_at_row(row, content_width) {
        let i = choose|i: int|
            0 <= i < bounds.len() && (#[trigger] bounds[i]).image_index == image
                && bounds[i].start_row <= row < bounds[i].end_row;
        assert(plans[i].image_index == image);
        assert(is_drawn_on(
            app,
            image,
            bounds[i].start_row as int,
            bounds[i].end_row as int,
            content_width,
        ));
    } else {
        assert forall|image: usize, first: int, end: int| #[trigger]
            is_drawn_on(app, image, first, end, content_width) implies !(first <= row < end) by {
            let i = choose|i: int|
                {
                    &&& 0 <= i < plans.len()
                    &&& (#[trigger] plans[i]).image_index == image
                    &&& plans[i].start_row == first
                    &&& plans[i].start_row + plans[i].height == end
                };
            assert(bounds[i].start_row == first);
        }
    }
}

proof fn lemma_first_of_image(bounds: Seq<ImageVirtualBounds>, image: usize, i: int)
    requires
        0 <= i < bounds.len(),
        bounds[i].image_index == image,
        forall|j: int| 0 <= j < i ==> (#[trigger] bounds[j]).image_index != image,
    ensures
        first_of_image(bounds, image) == Some(bounds[i]),
    decreases i,
{
    if i > 0 {
        assert(bounds[0].image_index != image);
        let rest = bounds.drop_first();
        assert forall|j: int| 0 <= j < i - 1 implies (#[trigger] rest[j]).image_index != image by {
            assert(rest[j] == bounds[j + 1]);
        }
        lemma_first_of_image(rest, image, i - 1);
    }
}

/// The rows of an image that the cursor is in are found by its selection.
proof fn lemma_focused(app: AppView, image: usize, first: int, end: int, content_width: u16)
    requires
        app.is_laid_out(content_width),
        is_drawn_on(app, image, first, end, content_width),
        first <= app.cursor_row < end,
    ensures
        app.image_at_row(app.cursor_row, content_width) == Some(image),
        app.focused_image == Some(image) ==> app.focused_bounds(content_width) == Some(
            ImageVirtualBounds {
                image_index: image,
                start_row: first as usize,
                end_row: end as usize,
            },
        ),
        app.focused_image != Some(image) ==> app.focused_bounds(content_width) is None,
        0 <= first < end <= usize::MAX,
{
    law_images_are_found_where_they_are_drawn(app, content_width);
    law_image_at_row(app, app.cursor_row, content_width);
    let plans = app.page(content_width).image_plans;
    let bounds = app.bounds(content_width);
    let i = choose|i: int|
        {
            &&& 0 <= i < plans.len()
            &&& (#[trigger] plans[i]).image_index == image
            &&& plans[i].start_row == first
            &&& plans[i].start_row + plans[i].height == end
        };
    assert(bounds[i].start_row == first && bounds[i].end_row == end);
    let found = app.image_at_row(app.cursor_row, content_width)->0;
    let k = choose|k: int|
        0 <= k < bounds.len() && (#[trigger] bounds[k]).image_index == found && bounds[k].start_row
            <= app.cursor_row < bounds[k].end_row;
    assert(k == i) by {
        if k < i {
            assert(bounds[k].end_row < bounds[i].start_row);
        }
        if i < k {
            assert(bounds[i].end_row < bounds[k].start_row);
        }
    }
    assert forall|j: int| 0 <= j < i implies (#[trigger] bounds[j]).image_index != image by {
        assert(bounds[j].image_index < bounds[i].image_index);
    }
    lemma_first_of_image(bounds, image, i);
}

proof fn lemma_entered(
    app: AppView,
    row: usize,
    viewport_height: usize,
    content_width: u16,
)
    requires
        app.is_laid_out(content_width),
        row < app.cursor_rows(content_width),
    ensures
        ({
            let entered = app.enter_row(row, viewport_height, content_width);
            let left = app.leave_image(row, viewport_height, content_width);
            &&& entered.cursor_row == row && left.cursor_row == row
            &&& left.focused_image is None
            &&& is_selected_by_row(app, entered.focused_image, row as int, content_width)
            &&& viewport_height > 0 ==> app.is_least_scroll(
                entered.scroll as int,
                row as int,
                viewport_height,
                content_width,
            ) && left.scroll == entered.scroll
            &&& same_document(app, entered) && same_document(app, left)
            &&& entered.cursor_column == app.cursor_column && left.cursor_column
                == app.cursor_column
        }),
{
    let moved = AppView { cursor_row: row, ..app };
    lemma_moved_keeps_coherence(app, moved);
    lemma_same_page(app, moved, content_width);
    lemma_rows(moved, content_width);
    let shown = moved.show_cursor(viewport_height, content_width);
    if viewport_height > 0 {
        law_no_more_is_scrolled_than_needed(moved, viewport_height, content_width);
    }
    lemma_cursor_keeps_coherence(moved, viewport_height, content_width);
    lemma_same_page(app, shown, content_width);
    lemma_image_at_row(shown, row, content_width);
    assert forall|image: usize, first: int, end: int|
        is_drawn_on(shown, image, first, end, content_width) == #[trigger] is_drawn_on(
            app,
            image,
            first,
            end,
            content_width,
        ) by {
        assert(shown.page(content_width).image_plans == app.page(content_width).image_plans);
    }
    let focused = app.enter_row(row, viewport_height, content_width).focused_image;
    if let Some(image) = focused {
        let (first, end) = choose|first: int, end: int|
            #[trigger] is_drawn_on(shown, image, first, end, content_width) && first <= row < end;
        assert(is_drawn_on(app, image, first, end, content_width));
    }
}

/// A step down leads to the next row, and selects the image that is drawn there. Out of an image
/// that is selected it leads to the row behind the image, and the image is no longer selected. On
/// the last row the cursor stays.
pub proof fn law_steps_down_lead_past_images(
    app: AppView,
    viewport_height: usize,
    content_width: u16,
)
    requires
        app.is_laid_out(content_width),
    ensures
        ({
            let after = app.step_down(viewport_height, content_width);
            let row = app.row_of_cursor(content_width);
            let last = app.cursor_rows(content_width) - 1;
            &&& row == last ==> after.cursor_row == row && after.focused_image == app.focused_image
            &&& forall|image: usize, first: int, end: int|
                row < last && #[trigger] is_drawn_on(app, image, first, end, content_width) && first
                    <= row < end && app.focused_image == Some(image) ==> after.focused_image is None
                    && after.cursor_row == if end <= last {
                    end
                } else {
                    last
                }
            &&& row < last && (app.focused_image is None || forall|first: int, end: int|
                #[trigger] is_drawn_on(app, app.focused_image->0, first, end, content_width)
                    ==> !(first <= row < end)) ==> after.cursor_row == row + 1
                && is_selected_by_row(app, after.focused_image, row + 1, content_width)
            &&& row < last && viewport_height > 0 ==> app.is_least_scroll(
                after.scroll as int,
                after.cursor_row as int,
                viewport_height,
                content_width,
            )
            &&& same_document(app, after) && after.cursor_column == app.cursor_column
        }),
{
    let clamped = app.clamp_cursor(content_width);
    lemma_rows(app, content_width);
    lemma_same_page(app, clamped, content_width);
    let row = app.row_of_cursor(content_width);
    let last = app.cursor_rows(content_width) - 1;
    lemma_same_drawn(app, clamped, content_width);
    lemma_image_at_row(clamped, clamped.cursor_row, content_width);
    if row < last {
        lemma_entered(clamped, (row + 1) as usize, viewport_height, content_width);
        if let Some(bounds) = clamped.focused_bounds(content_width) {
            let image = clamped.focused_image->0;
            let (first, end) = choose|first: int, end: int|
                #[trigger] is_drawn_on(clamped, image, first, end, content_width) && first <= row
                    < end;
            lemma_focused(clamped, image, first, end, content_width);
            assert(is_drawn_on(app, image, first, end, content_width));
            let target: usize = if bounds.end_row <= last {
                bounds.end_row
            } else {
                last as usize
            };
            lemma_entered(clamped, target, viewport_height, content_width);
            assert forall|other: usize, from: int, to: int|
                #[trigger] is_drawn_on(app, other, from, to, content_width) && from <= row < to
                    && app.focused_image == Some(other) implies from == first && to == end by {
                lemma_focused(clamped, other, from, to, content_width);
            }
        } else {
            assert forall|other: usize, from: int, to: int|
                #[trigger] is_drawn_on(app, other, from, to, content_width) && from <= row < to
                    implies app.focused_image != Some(other) by {
                lemma_focused(clamped, other, from, to, content_width);
            }
            lemma_selected_same(
                app,
                clamped,
                app.step_down(viewport_height, content_width).focused_image,
                row + 1,
                content_width,
            );
        }
    }
}

proof fn lemma_same_drawn(a: AppView, b: AppView, content_width: u16)
    requires
        a.page(content_width).image_plans == b.page(content_width).image_plans,
    ensures
        forall|image: usize, first: int, end: int|
            is_drawn_on(a, image, first, end, content_width) == #[trigger] is_drawn_on(
                b,
                image,
                first,
                end,
                content_width,
            ),
        forall|image: usize, first: int, end: int|
            #[trigger] is_drawn_on(a, image, first, end, content_width) == is_drawn_on(
                b,
                image,
                first,
                end,
                content_width,
            ),
{
}

proof fn lemma_selected_same(
    a: AppView,
    b: AppView,
    focused: Option<usize>,
    row: int,
    content_width: u16,
)
    requires
        a.page(content_width).image_plans == b.page(content_width).image_plans,
        is_selected_by_row(b, focused, row, content_width),
    ensures
        is_selected_by_row(a, focused, row, content_width),
{
    lemma_same_drawn(a, b, content_width);
    if let Some(image) = focused {
        let (first, end) = choose|first: int, end: int|
            #[trigger] is_drawn_on(b, image, first, end, content_width) && first <= row < end;
        assert(is_drawn_on(a, image, first, end, content_width));
    }
}

/// A step up leads to the row before, and selects the image that is drawn there. Out of an image
/// that is selected it leads to the row before the image, and the image is no longer selected. On
/// the first row the cursor stays.
pub proof fn law_steps_up_lead_past_images(
    app: AppView,
    viewport_height: usize,
    content_width: u16,
)
    requires
        app.is_laid_out(content_width),
    ensures
        ({
            let after = app.step_up(viewport_height, content_width);
            let row = app.row_of_cursor(content_width);
            &&& row == 0 ==> after.cursor_row == 0 && after.focused_image == app.focused_image
            &&& forall|image: usize, first: int, end: int|
                row > 0 && #[trigger] is_drawn_on(app, image, first, end, content_width) && first
                    <= row < end && app.focused_image == Some(image) ==> after.focused_image is None
                    && after.cursor_row == if first > 0 {
                    first - 1
                } else {
                    0
                }
            &&& row > 0 && (app.focused_image is None || forall|first: int, end: int|
                #[trigger] is_drawn_on(app, app.focused_image->0, first, end, content_width)
                    ==> !(first <= row < end)) ==> after.cursor_row == row - 1
                && is_selected_by_row(app, after.focused_image, row - 1, content_width)
            &&& row > 0 && viewport_height > 0 ==> app.is_least_scroll(
                after.scroll as int,
                after.cursor_row as int,
                viewport_height,
                content_width,
            )
            &&& same_document(app, after) && after.cursor_column == app.cursor_column
        }),
{
    let clamped = app.clamp_cursor(content_width);
    lemma_rows(app, content_width);
    lemma_same_page(app, clamped, content_width);
    let row = app.row_of_cursor(content_width);
    lemma_same_drawn(app, clamped, content_width);
    lemma_image_at_row(clamped, clamped.cursor_row, content_width);
    if row > 0 {
        lemma_entered(clamped, (row - 1) as usize, viewport_height, content_width);
        if let Some(bounds) = clamped.focused_bounds(content_width) {
            let image = clamped.focused_image->0;
            let (first, end) = choose|first: int, end: int|
                #[trigger] is_drawn_on(clamped, image, first, end, content_width) && first <= row
                    < end;
            lemma_focused(clamped, image, first, end, content_width);
            assert(is_drawn_on(app, image, first, end, content_width));
            let target: usize = if bounds.start_row > 0 {
                (bounds.start_row - 1) as usize
            } else {
                0
            };
            lemma_entered(clamped, target, viewport_height, content_width);
            assert forall|other: usize, from: int, to: int|
                #[trigger] is_drawn_on(app, other, from, to, content_width) && from <= row < to
                    && app.focused_image == Some(other) implies from == first && to == end by {
                lemma_focused(clamped, other, from, to, content_width);
            }
        } else {
            assert forall|other: usize, from: int, to: int|
                #[trigger] is_drawn_on(app, other, from, to, content_width) && from <= row < to
                    implies app.focused_image != Some(other) by {
                lemma_focused(clamped, other, from, to, content_width);
            }
            lemma_selected_same(
                app,
                clamped,
                app.step_up(viewport_height, content_width).focused_image,
                row - 1,
                content_width,
            );
        }
    }
}

/// The cursor keeps to the text of a line: it is on its own column, or on the last of a line that is
/// shorter, where white space at the end does not count.
pub proof fn law_columns_keep_to_the_text(app: AppView, line: int)
    ensures
        ({
            let width = text_columns(trimmed_end(app.line_text(line)));
            let column = app.column_on(line);
            &&& width > 0 ==> app.last_column(line) + 1 == width
            &&& width == 0 ==> app.last_column(line) == 0
            &&& column <= app.cursor_column && column <= app.last_column(line)
            &&& column < app.cursor_column ==> column == app.last_column(line)
            &&& app.cursor_column < width ==> column == app.cursor_column
        }),
{
}

/// The arrow keys and their letters move the cursor by one column: to the left until it is on the
/// first, to the right until it is on the last of its line.
pub proof fn law_cursor_moves_by_columns(app: AppView, viewport: Viewport)
    requires
        app.is_laid_out(viewport.width),
    ensures
        ({
            let left = app.act(KeyAction::Left, viewport);
            let right = app.act(KeyAction::Right, viewport);
            let line = app.cursor_line(viewport.width);
            &&& app.cursor_column > 0 ==> left.cursor_column == app.cursor_column - 1
            &&& app.cursor_column == 0 ==> left.cursor_column == 0
            &&& left == (AppView { cursor_column: left.cursor_column, ..app })
            &&& app.cursor_column < app.last_column(line) ==> right.cursor_column
                == app.cursor_column + 1
            &&& app.cursor_column >= app.last_column(line) ==> right.cursor_column
                == app.last_column(line)
            &&& right.cursor_row == app.row_of_cursor(viewport.width)
            &&& right.scroll == app.scroll && right.focused_image == app.focused_image
            &&& same_document(app, right)
        }),
{
    lemma_rows(app, viewport.width);
}

/// Keys outside of queries: letters and other keys with the same meaning do the same, whatever is
/// held down with them, but for the letters that the control key changes.
pub proof fn law_keys_do_what_they_say(app: AppView, key: KeyEvent, viewport: Viewport)
    requires
        !(app.mode is SearchInput),
    ensures
        ({
            let after = app.act(action_for(app.mode, key), viewport);
            let left = app.left_to_do(action_for(app.mode, key), viewport);
            let held = key.modifiers;
            let nothing_held = !held.shift && !held.control && !held.alt && !held.super_key
                && !held.hyper && !held.meta;
            let control_alone = !held.shift && held.control && !held.alt && !held.super_key
                && !held.hyper && !held.meta;
            let code = key.code;
            let height = viewport.height;
            let width = viewport.width;
            &&& code == KeyCode::Char('q') ==> left is Quit && after == app
            &&& code == KeyCode::Char('r') ==> left is Reload && after == app
            &&& code == KeyCode::Char('?') ==> after == (AppView {
                show_help: !app.show_help,
                ..app
            })
            &&& code == KeyCode::Char('/') ==> after == (AppView {
                mode: ModeView::SearchInput(Seq::empty()),
                ..app
            })
            &&& code == KeyCode::Char('j') || code is Down ==> after == app.step_down(height, width)
            &&& code == KeyCode::Char('k') || code is Up ==> after == app.step_up(height, width)
            &&& code == KeyCode::Char('h') || code is Left ==> after == app.act(
                KeyAction::Left,
                viewport,
            )
            &&& code == KeyCode::Char('l') || code is Right ==> after == app.act(
                KeyAction::Right,
                viewport,
            )
            &&& code == KeyCode::Char('g') || code is Home ==> after == app.jump_top()
            &&& code == KeyCode::Char('G') || code is End ==> after == app.jump_bottom(
                height,
                width,
            )
            &&& code is PageDown || code == KeyCode::Char('f') && control_alone ==> after
                == app.scroll_down(viewport.full_page, height, width)
            &&& code is PageUp || code == KeyCode::Char('b') && control_alone ==> after
                == app.scroll_up(viewport.full_page, width)
            &&& code == KeyCode::Char('d') && (control_alone || nothing_held) ==> after
                == app.scroll_down(viewport.half_page, height, width)
            &&& code == KeyCode::Char('u') && (control_alone || nothing_held) ==> after
                == app.scroll_up(viewport.half_page, width)
            &&& code == KeyCode::Char('w') && !held.control ==> after == app.next_word(
                width,
                WordMotionKind::Small,
            ).show_cursor(height, width)
            &&& code == KeyCode::Char('W') && !held.control ==> after == app.next_word(
                width,
                WordMotionKind::Big,
            ).show_cursor(height, width)
            &&& code == KeyCode::Char('b') && !held.control ==> after == app.prev_word(
                width,
                WordMotionKind::Small,
            ).show_cursor(height, width)
            &&& code == KeyCode::Char('B') && !held.control ==> after == app.prev_word(
                width,
                WordMotionKind::Big,
            ).show_cursor(height, width)
            &&& code == KeyCode::Char('n') ==> after == app.jump_to_match(
                app.next_match(),
                height,
                width,
            )
            &&& code == KeyCode::Char('N') ==> after == app.jump_to_match(
                app.prev_match(),
                height,
                width,
            )
            &&& code is Enter || code is Backspace || code is Other ==> after == app
            &&& !(code == KeyCode::Char('q')) ==> !(left is Quit)
            &&& !(code == KeyCode::Char('r')) ==> !(left is Reload)
            &&& left is Copy ==> app.mode is VisualBlock && code == KeyCode::Char('y')
                && !held.control
        }),
{
}

/// The control key and `v` begin a selection at the cursor. While there is one, they end it, and so
/// does the escape key; `y` copies what is selected, and the selection stays until that is done.
pub proof fn law_selections_begin_and_end(app: AppView, key: KeyEvent, viewport: Viewport)
    ensures
        ({
            let after = app.act(action_for(app.mode, key), viewport);
            let left = app.left_to_do(action_for(app.mode, key), viewport);
            let held = key.modifiers;
            let control_alone = !held.shift && held.control && !held.alt && !held.super_key
                && !held.hyper && !held.meta;
            &&& app.mode is Normal && key.code == KeyCode::Char('v') && control_alone ==> after.mode
                == ModeView::VisualBlock(app.cursor_position(viewport.width)) && after.status
                == "visual block selection started"@ && left is Continue
            &&& app.mode is VisualBlock && (key.code is Esc || key.code == KeyCode::Char('v')
                && control_alone) ==> after == (AppView {
                mode: ModeView::Normal,
                status: "visual selection cleared"@,
                ..app
            }) && left is Continue
            &&& app.mode is VisualBlock && key.code == KeyCode::Char('y') && !held.control ==> {
                &&& left matches OutcomeView::Copy(text) && app.selected_text(viewport.width)
                    == Some(text)
                &&& after.mode == app.mode
            }
            &&& app.mode is Normal && key.code is Esc ==> after == app
            &&& app.mode is Normal && key.code == KeyCode::Char('y') ==> after == app
        }),
{
}

/// What is typed goes into the query: letters at its end, and the backspace key takes the last one
/// away. The escape key leaves the search as it was; the enter key searches for the query.
pub proof fn law_queries_are_typed(app: AppView, query: Seq<char>, key: KeyEvent, viewport: Viewport)
    requires
        app.mode == ModeView::SearchInput(query),
    ensures
        ({
            let after = app.act(action_for(app.mode, key), viewport);
            &&& key.code is Esc ==> after == (AppView { mode: ModeView::Normal, ..app })
            &&& key.code is Backspace && query.len() > 0 ==> after == (AppView {
                mode: ModeView::SearchInput(query.take(query.len() - 1)),
                ..app
            })
            &&& key.code is Backspace && query.len() == 0 ==> after == app
            &&& key.code is Enter || key.code == KeyCode::Char('\n') || key.code
                == KeyCode::Char('\r') ==> after == (AppView {
                mode: ModeView::Normal,
                ..app.search(query, viewport.height, viewport.width)
            })
            &&& key.code matches KeyCode::Char(c) ==> c != '\n' && c != '\r' ==> after
                == if key.modifiers.control {
                app
            } else {
                AppView { mode: ModeView::SearchInput(query + seq![c]), ..app }
            }
            &&& key.code is Left || key.code is Right || key.code is Up || key.code is Down
                || key.code is PageUp || key.code is PageDown || key.code is Home || key.code is End
                || key.code is Other ==> after == app
        }),
{
    assert(query.len() > 0 ==> query.drop_last() =~= query.take(query.len() - 1));
    if let KeyCode::Char(c) = key.code {
        assert(query.push(c) =~= query + seq![c]);
    }
}

/// Whether a letter has a meaning, with or without the control key.
pub open spec fn is_command_letter(c: char) -> bool {
    c == 'q' || c == '?' || c == 'r' || c == '/' || c == 'n' || c == 'N' || c == 'w' || c == 'W'
        || c == 'b' || c == 'B' || c == 'h' || c == 'l' || c == 'j' || c == 'k' || c == 'f' || c
        == 'd' || c == 'u' || c == 'g' || c == 'G' || c == 'v' || c == 'y'
}

/// Keys without a meaning do nothing: letters that have none, and letters that have one only with
/// other keys held down, or without.
pub proof fn law_other_keys_do_nothing(app: AppView, c: char, held: KeyModifiers, viewport: Viewport)
    requires
        !(app.mode is SearchInput),
        ({
            let nothing_held = !held.shift && !held.control && !held.alt && !held.super_key
                && !held.hyper && !held.meta;
            let control_alone = !held.shift && held.control && !held.alt && !held.super_key
                && !held.hyper && !held.meta;
            ||| !is_command_letter(c)
            ||| (c == 'w' || c == 'W' || c == 'B') && held.control
            ||| c == 'b' && held.control && !control_alone
            ||| (c == 'f' || c == 'v') && !control_alone
            ||| (c == 'd' || c == 'u') && !control_alone && !nothing_held
            ||| c == 'y' && (held.control || app.mode is Normal)
        }),
    ensures
        ({
            let action = action_for(
                app.mode,
                (KeyEvent { code: KeyCode::Char(c), modifiers: held }),
            );
            app.act(action, viewport) == app && app.left_to_do(action, viewport) is Continue
        }),
{
}

/// Moving about changes neither the mode nor the search, nor what the viewer says.
pub proof fn law_moving_changes_no_mode(app: AppView, action: KeyAction, viewport: Viewport)
    requires
        action is NextWord || action is PrevWord || action is Left || action is Right || action
            is Down || action is Up || action is PageDown || action is PageUp || action
            is HalfPageDown || action is HalfPageUp || action is Top || action is Bottom,
    ensures
        ({
            let after = app.act(action, viewport);
            &&& after.mode == app.mode && after.status == app.status && after.show_help
                == app.show_help
            &&& same_search(app, after) && same_document(app, after)
            &&& app.left_to_do(action, viewport) is Continue
        }),
{
    let width = viewport.width;
    let height = viewport.height;
    match action {
        KeyAction::Down => {
            lemma_steps_keep_mode(app.clamp_cursor(width), height, width);
        },
        KeyAction::Up => {
            lemma_steps_keep_mode(app.clamp_cursor(width), height, width);
        },
        _ => {},
    }
}

proof fn lemma_steps_keep_mode(app: AppView, viewport_height: usize, content_width: u16)
    ensures
        forall|row: usize|
            {
                let after = #[trigger] app.enter_row(row, viewport_height, content_width);
                &&& after.mode == app.mode && after.status == app.status && after.show_help
                    == app.show_help
                &&& same_search(app, after) && same_document(app, after)
            },
        forall|row: usize|
            {
                let after = #[trigger] app.leave_image(row, viewport_height, content_width);
                &&& after.mode == app.mode && after.status == app.status && after.show_help
                    == app.show_help
                &&& same_search(app, after) && same_document(app, after)
            },
{
}

} // verus!
