//! Moving about: scrolling, the cursor, images on the way and words.
use vstd::prelude::*;

use crate::app::{App, AppView, CursorPosition};
use crate::motion::{
    find_next_word_start, find_prev_word_start, next_word, prev_word, WordMotionKind,
};
use crate::numbers::{minus, plus, smaller};
use crate::width::{text_columns, text_width};

verus! {

/// The rows that an image takes on the page: the first, and the one after the last.
#[derive(Clone, Copy, Debug, PartialEq, Eq, Structural)]
pub struct ImageVirtualBounds {
    pub image_index: usize,
    pub start_row: usize,
    pub end_row: usize,
}

impl AppView {
    /// The cursor is on the page.
    pub open spec fn clamp_cursor(self, content_width: u16) -> AppView {
        AppView {
            cursor_row: smaller(self.cursor_row, self.last_row(content_width)),
            ..self.count_rows(content_width)
        }
    }

    /// The first row on the screen so that the cursor is on it, with as little scrolling as
    /// possible.
    pub open spec fn scroll_to_cursor(self, viewport_height: usize, content_width: u16) -> usize {
        let limit = self.max_scroll(viewport_height, content_width);
        let below = minus(viewport_height, 1);
        if viewport_height == 0 || self.cursor_row < self.scroll {
            smaller(self.cursor_row, limit)
        } else if self.cursor_row > plus(self.scroll, below) {
            smaller(minus(self.cursor_row, below), limit)
        } else {
            smaller(self.scroll, limit)
        }
    }

    /// The cursor is on the page and on the screen.
    pub open spec fn show_cursor(self, viewport_height: usize, content_width: u16) -> AppView {
        let app = self.clamp_cursor(content_width);
        AppView { scroll: app.scroll_to_cursor(viewport_height, content_width), ..app }
    }

    /// No image is selected.
    pub open spec fn unfocused(self) -> AppView {
        AppView { focused_image: None, ..self }
    }

    /// The screen moves down, and the cursor with it.
    pub open spec fn scroll_down(
        self,
        n: usize,
        viewport_height: usize,
        content_width: u16,
    ) -> AppView {
        let app = self.unfocused().clamp_cursor(content_width);
        let scroll = smaller(plus(app.scroll, n), app.max_scroll(viewport_height, content_width));
        AppView {
            scroll,
            cursor_row: smaller(
                plus(app.cursor_row, minus(scroll, app.scroll)),
                app.last_row(content_width),
            ),
            ..app
        }
    }

    /// The screen moves up, and the cursor with it.
    pub open spec fn scroll_up(self, n: usize, content_width: u16) -> AppView {
        let app = self.unfocused().clamp_cursor(content_width);
        let scroll = minus(app.scroll, n);
        AppView {
            scroll,
            cursor_row: minus(app.cursor_row, minus(app.scroll, scroll)),
            ..app
        }
    }

    /// The cursor is on the first row.
    pub open spec fn jump_top(self) -> AppView {
        AppView { cursor_row: 0, scroll: 0, ..self.unfocused() }
    }

    /// The cursor is on the last row.
    pub open spec fn jump_bottom(self, viewport_height: usize, content_width: u16) -> AppView {
        let app = self.unfocused();
        AppView {
            cursor_row: app.last_row(content_width),
            ..app.count_rows(content_width)
        }.show_cursor(viewport_height, content_width)
    }

    /// The line of the document that the cursor is on.
    pub open spec fn cursor_line(self, content_width: u16) -> int {
        let app = self.clamp_cursor(content_width);
        let rows = app.page(content_width).doc_line_for_row;
        if app.cursor_row < rows.len() {
            rows[app.cursor_row as int]
        } else if self.lines.len() > 0 {
            self.lines.len() - 1
        } else {
            0
        }
    }

    /// The viewer after it has looked for the line that the cursor is on.
    pub open spec fn find_cursor(self, content_width: u16) -> AppView {
        self.clamp_cursor(content_width).show_lines()
    }

    /// How many rows the first `upto` images take together.
    pub open spec fn image_rows_upto(self, upto: int, content_width: u16) -> int
        decreases upto,
    {
        if upto <= 0 {
            0
        } else {
            self.image_rows_upto(upto - 1, content_width) + self.images[upto - 1].rows(
                self.picker,
                content_width,
            )
        }
    }

    /// The rows that an image takes, counted from its line and the rows of the images before it.
    pub open spec fn bounds_of(self, index: int, content_width: u16) -> ImageVirtualBounds {
        let before = self.image_rows_upto(index, content_width);
        let start_row = plus(
            plus(self.images[index].line_index, 1),
            if before <= usize::MAX {
                before as usize
            } else {
                usize::MAX
            },
        );
        ImageVirtualBounds {
            image_index: index as usize,
            start_row,
            end_row: plus(start_row, self.images[index].rows(self.picker, content_width) as usize),
        }
    }

    /// The rows that the first `upto` images take, without the images that take none.
    pub open spec fn bounds_upto(self, upto: int, content_width: u16) -> Seq<ImageVirtualBounds>
        decreases upto,
    {
        if upto <= 0 {
            Seq::empty()
        } else if self.images[upto - 1].rows(self.picker, content_width) == 0 {
            self.bounds_upto(upto - 1, content_width)
        } else {
            self.bounds_upto(upto - 1, content_width).push(
                self.bounds_of(upto - 1, content_width),
            )
        }
    }

    /// The rows that the images take.
    pub open spec fn bounds(self, content_width: u16) -> Seq<ImageVirtualBounds> {
        self.bounds_upto(self.images.len() as int, content_width)
    }

    /// The image that takes a row, if one does.
    pub open spec fn image_at_row(self, row: usize, content_width: u16) -> Option<usize> {
        match first_at_row(self.bounds(content_width), row) {
            Some(bounds) => Some(bounds.image_index),
            None => None,
        }
    }

    /// Whether the cursor is in the selected image.
    pub open spec fn is_in_focused_image(self, content_width: u16) -> bool {
        self.focused_image is Some && self.image_at_row(self.cursor_row, content_width)
            == self.focused_image
    }

    /// The rows of the selected image.
    pub open spec fn focused_bounds(self, content_width: u16) -> Option<ImageVirtualBounds> {
        if self.is_in_focused_image(content_width) {
            first_of_image(self.bounds(content_width), self.focused_image->0)
        } else {
            None
        }
    }

    /// The cursor moves to a row, and the image there is selected.
    pub open spec fn enter_row(
        self,
        row: usize,
        viewport_height: usize,
        content_width: u16,
    ) -> AppView {
        let app = AppView { cursor_row: row, ..self }.show_cursor(viewport_height, content_width);
        AppView { focused_image: app.image_at_row(app.cursor_row, content_width), ..app }
    }

    /// The cursor moves to a row, and no image is selected.
    pub open spec fn leave_image(
        self,
        row: usize,
        viewport_height: usize,
        content_width: u16,
    ) -> AppView {
        AppView { cursor_row: row, ..self }.show_cursor(
            viewport_height,
            content_width,
        ).unfocused()
    }

    /// The cursor moves down a row, or past the selected image.
    pub open spec fn step_down(self, viewport_height: usize, content_width: u16) -> AppView {
        let app = self.clamp_cursor(content_width);
        let last = app.last_row(content_width);
        if app.cursor_row >= last {
            app
        } else {
            match app.focused_bounds(content_width) {
                Some(bounds) => app.leave_image(
                    smaller(bounds.end_row, last),
                    viewport_height,
                    content_width,
                ),
                None => app.enter_row(
                    smaller(plus(app.cursor_row, 1), last),
                    viewport_height,
                    content_width,
                ),
            }
        }
    }

    /// The cursor moves up a row, or before the selected image.
    pub open spec fn step_up(self, viewport_height: usize, content_width: u16) -> AppView {
        let app = self.clamp_cursor(content_width);
        if app.cursor_row == 0 {
            app
        } else {
            match app.focused_bounds(content_width) {
                Some(bounds) => app.leave_image(
                    minus(bounds.start_row, 1),
                    viewport_height,
                    content_width,
                ),
                None => app.enter_row(
                    minus(app.cursor_row, 1),
                    viewport_height,
                    content_width,
                ),
            }
        }
    }

    /// Where the cursor is.
    pub open spec fn cursor_position(self, content_width: u16) -> CursorPosition {
        CursorPosition {
            row: self.clamp_cursor(content_width).cursor_row,
            column: self.column_on(self.cursor_line(content_width)),
        }
    }

    /// How many rows images take between the start of the page and a line.
    pub open spec fn image_rows_before_line(
        self,
        line_index: usize,
        upto: int,
        content_width: u16,
    ) -> int
        decreases upto,
    {
        if upto <= 0 {
            0
        } else {
            self.image_rows_before_line(line_index, upto - 1, content_width) + (
            if self.images[upto - 1].line_index < line_index {
                self.images[upto - 1].rows(self.picker, content_width)
            } else {
                0
            })
        }
    }

    /// The row of a line of the document.
    pub open spec fn row_of_line(self, line_index: usize, content_width: u16) -> usize {
        let row = line_index + self.image_rows_before_line(
            line_index,
            self.images.len() as int,
            content_width,
        );
        if row <= usize::MAX {
            row as usize
        } else {
            usize::MAX
        }
    }
}

/// The first bounds that a row lies in.
pub open spec fn first_at_row(bounds: Seq<ImageVirtualBounds>, row: usize) -> Option<
    ImageVirtualBounds,
>
    decreases bounds.len(),
{
    if bounds.len() == 0 {
        None
    } else if bounds[0].start_row <= row < bounds[0].end_row {
        Some(bounds[0])
    } else {
        first_at_row(bounds.drop_first(), row)
    }
}

/// The first bounds of an image.
pub open spec fn first_of_image(bounds: Seq<ImageVirtualBounds>, image_index: usize) -> Option<
    ImageVirtualBounds,
>
    decreases bounds.len(),
{
    if bounds.len() == 0 {
        None
    } else if bounds[0].image_index == image_index {
        Some(bounds[0])
    } else {
        first_of_image(bounds.drop_first(), image_index)
    }
}

impl App {
    /// Brings the cursor back onto the page.
    pub fn clamp_cursor_row(&mut self, content_width: u16)
        requires
            old(self)@.is_sound(),
        ensures
            final(self)@ == old(self)@.clamp_cursor(content_width),
            final(self)@.is_sound(),
    {
        let last = self.total_virtual_lines(content_width).saturating_sub(1);
        if self.cursor_row > last {
            self.cursor_row = last;
        }
    }

    /// Scrolls so that the cursor is on the screen.
    pub fn ensure_cursor_visible(&mut self, viewport_height: usize, content_width: u16)
        requires
            old(self)@.is_sound(),
        ensures
            final(self)@ == old(self)@.show_cursor(viewport_height, content_width),
            final(self)@.is_sound(),
    {
        self.clamp_cursor_row(content_width);
        let limit = self.max_scroll(viewport_height, content_width);
        let below = viewport_height.saturating_sub(1);
        if viewport_height == 0 || self.cursor_row < self.scroll {
            self.scroll = self.cursor_row;
        } else if self.cursor_row > self.scroll.saturating_add(below) {
            self.scroll = self.cursor_row.saturating_sub(below);
        }
        if self.scroll > limit {
            self.scroll = limit;
        }
    }

    /// Moves the screen down, and the cursor with it.
    pub fn scroll_down(&mut self, n: usize, viewport_height: usize, content_width: u16)
        requires
            old(self)@.is_sound(),
        ensures
            final(self)@ == old(self)@.scroll_down(n, viewport_height, content_width),
            final(self)@.is_sound(),
    {
        self.focused_image = None;
        self.clamp_cursor_row(content_width);
        let last = self.total_virtual_lines(content_width).saturating_sub(1);
        let limit = self.max_scroll(viewport_height, content_width);
        let mut next = self.scroll.saturating_add(n);
        if next > limit {
            next = limit;
        }
        let row = self.cursor_row.saturating_add(next.saturating_sub(self.scroll));
        self.scroll = next;
        self.cursor_row = if row <= last {
            row
        } else {
            last
        };
    }

    /// Moves the screen up, and the cursor with it.
    pub fn scroll_up(&mut self, n: usize, _viewport_height: usize, content_width: u16)
        requires
            old(self)@.is_sound(),
        ensures
            final(self)@ == old(self)@.scroll_up(n, content_width),
            final(self)@.is_sound(),
    {
        self.focused_image = None;
        self.clamp_cursor_row(content_width);
        let next = self.scroll.saturating_sub(n);
        let delta = self.scroll.saturating_sub(next);
        self.scroll = next;
        self.cursor_row = self.cursor_row.saturating_sub(delta);
    }

    /// Moves the cursor to the first row.
    pub fn jump_top(&mut self)
        ensures
            final(self)@ == old(self)@.jump_top(),
    {
        self.focused_image = None;
        self.cursor_row = 0;
        self.scroll = 0;
    }

    /// Moves the cursor to the last row.
    pub fn jump_bottom(&mut self, viewport_height: usize, content_width: u16)
        requires
            old(self)@.is_sound(),
        ensures
            final(self)@ == old(self)@.jump_bottom(viewport_height, content_width),
            final(self)@.is_sound(),
    {
        self.focused_image = None;
        let rows = self.total_virtual_lines(content_width);
        self.cursor_row = rows.saturating_sub(1);
        self.ensure_cursor_visible(viewport_height, content_width);
    }

    /// The line of the document that the cursor is on.
    pub fn cursor_doc_line_for_navigation(&mut self, content_width: u16) -> (line: usize)
        requires
            old(self)@.is_sound(),
        ensures
            line == old(self)@.cursor_line(content_width),
            final(self)@ == old(self)@.find_cursor(content_width),
            final(self)@.is_sound(),
    {
        self.clamp_cursor_row(content_width);
        let page = self.build_display_doc(content_width);
        assert(self.doc.lines@.len() == self@.lines.len());
        if self.cursor_row < page.doc_line_for_row.len() {
            assert(page@.doc_line_for_row[self.cursor_row as int]
                == page.doc_line_for_row@[self.cursor_row as int]);
            page.doc_line_for_row[self.cursor_row]
        } else {
            self.doc.lines.len().saturating_sub(1)
        }
    }

    /// The rows that the images take on the page.
    pub fn image_virtual_bounds(&self, content_width: u16) -> (bounds: Vec<ImageVirtualBounds>)
        ensures
            bounds@ == self@.bounds(content_width),
    {
        let ghost app = self@;
        let mut bounds: Vec<ImageVirtualBounds> = Vec::new();
        let mut before: usize = 0;
        let mut i: usize = 0;
        while i < self.images.len()
            invariant
                i <= self.images@.len(),
                app == self@,
                app.image_rows_upto(i as int, content_width) >= 0,
                before == if app.image_rows_upto(i as int, content_width) <= usize::MAX {
                    app.image_rows_upto(i as int, content_width)
                } else {
                    usize::MAX as int
                },
                bounds@ == app.bounds_upto(i as int, content_width),
            decreases self.images.len() - i,
        {
            assert(app.images[i as int] == self.images@[i as int]@);
            let height = self.image_height_for(&self.images[i], content_width);
            if height > 0 {
                let start_row = self.images[i].line_index.saturating_add(1).saturating_add(before);
                let end_row = start_row.saturating_add(height);
                bounds.push(ImageVirtualBounds { image_index: i, start_row, end_row });
                before = before.saturating_add(height);
            }
            i += 1;
        }
        bounds
    }

    /// The rows that an image takes on the page.
    pub fn image_bounds_for(&self, image_index: usize, content_width: u16) -> (bounds: Option<
        ImageVirtualBounds,
    >)
        ensures
            bounds == first_of_image(self@.bounds(content_width), image_index),
    {
        let all = self.image_virtual_bounds(content_width);
        let mut i: usize = 0;
        assert(all@.skip(0) == all@);
        while i < all.len()
            invariant
                i <= all@.len(),
                all@ == self@.bounds(content_width),
                first_of_image(all@.skip(i as int), image_index) == first_of_image(
                    all@,
                    image_index,
                ),
            decreases all.len() - i,
        {
            if all[i].image_index == image_index {
                return Some(all[i]);
            }
            assert(all@.skip(i as int).drop_first() == all@.skip(i + 1));
            i += 1;
        }
        None
    }

    /// The image that takes a row, if one does.
    pub fn image_at_virtual_row(&self, row: usize, content_width: u16) -> (image: Option<usize>)
        ensures
            image == self@.image_at_row(row, content_width),
    {
        let all = self.image_virtual_bounds(content_width);
        let mut i: usize = 0;
        assert(all@.skip(0) == all@);
        while i < all.len()
            invariant
                i <= all@.len(),
                all@ == self@.bounds(content_width),
                first_at_row(all@.skip(i as int), row) == first_at_row(all@, row),
            decreases all.len() - i,
        {
            if row >= all[i].start_row && row < all[i].end_row {
                return Some(all[i].image_index);
            }
            assert(all@.skip(i as int).drop_first() == all@.skip(i + 1));
            i += 1;
        }
        None
    }

    /// The rows of the selected image, if the cursor is in it.
    fn focused_image_bounds(&self, content_width: u16) -> (bounds: Option<ImageVirtualBounds>)
        ensures
            bounds == self@.focused_bounds(content_width),
    {
        let current = self.image_at_virtual_row(self.cursor_row, content_width);
        match (self.focused_image, current) {
            (Some(focused), Some(image)) => if focused == image {
                self.image_bounds_for(image, content_width)
            } else {
                None
            },
            _ => None,
        }
    }

    /// Moves the cursor to a row, and selects the image there.
    fn enter_row(&mut self, row: usize, viewport_height: usize, content_width: u16)
        requires
            old(self)@.is_sound(),
        ensures
            final(self)@ == old(self)@.enter_row(row, viewport_height, content_width),
    {
        self.cursor_row = row;
        self.ensure_cursor_visible(viewport_height, content_width);
        self.focused_image = self.image_at_virtual_row(self.cursor_row, content_width);
    }

    /// Moves the cursor to a row, with no image selected.
    fn leave_image(&mut self, row: usize, viewport_height: usize, content_width: u16)
        requires
            old(self)@.is_sound(),
        ensures
            final(self)@ == old(self)@.leave_image(row, viewport_height, content_width),
    {
        self.cursor_row = row;
        self.ensure_cursor_visible(viewport_height, content_width);
        self.focused_image = None;
    }

    /// Moves the cursor down a row, or past the selected image.
    pub fn scroll_down_with_image_focus(&mut self, viewport_height: usize, content_width: u16)
        requires
            old(self)@.is_sound(),
        ensures
            final(self)@ == old(self)@.step_down(viewport_height, content_width),
            final(self)@.is_sound(),
    {
        self.clamp_cursor_row(content_width);
        let last = self.total_virtual_lines(content_width).saturating_sub(1);
        if self.cursor_row >= last {
            return;
        }
        match self.focused_image_bounds(content_width) {
            Some(bounds) => {
                let row = if bounds.end_row <= last {
                    bounds.end_row
                } else {
                    last
                };
                self.leave_image(row, viewport_height, content_width);
            },
            None => {
                let row = self.cursor_row.saturating_add(1);
                self.enter_row(
                    if row <= last {
                        row
                    } else {
                        last
                    },
                    viewport_height,
                    content_width,
                );
            },
        }
    }

    /// Moves the cursor up a row, or before the selected image.
    pub fn scroll_up_with_image_focus(&mut self, viewport_height: usize, content_width: u16)
        requires
            old(self)@.is_sound(),
        ensures
            final(self)@ == old(self)@.step_up(viewport_height, content_width),
            final(self)@.is_sound(),
    {
        self.clamp_cursor_row(content_width);
        if self.cursor_row == 0 {
            return;
        }
        match self.focused_image_bounds(content_width) {
            Some(bounds) => self.leave_image(
                bounds.start_row.saturating_sub(1),
                viewport_height,
                content_width,
            ),
            None => {
                let row = self.cursor_row.saturating_sub(1);
                self.enter_row(row, viewport_height, content_width);
            },
        }
    }

    /// Where the cursor is.
    pub fn current_cursor_position(&mut self, content_width: u16) -> (position: CursorPosition)
        requires
            old(self)@.is_sound(),
        ensures
            position == old(self)@.cursor_position(content_width),
            final(self)@ == old(self)@.find_cursor(content_width),
            final(self)@.is_sound(),
    {
        let line = self.cursor_doc_line_for_navigation(content_width);
        CursorPosition { row: self.cursor_row, column: self.effective_cursor_column_for_line(line) }
    }

    /// Moves the cursor a column to the left.
    pub fn move_cursor_left(&mut self)
        ensures
            final(self)@ == (AppView {
                cursor_column: minus(old(self)@.cursor_column, 1),
                ..old(self)@
            }),
    {
        self.cursor_column = self.cursor_column.saturating_sub(1);
    }

    /// Moves the cursor a column to the right, as far as a line goes.
    pub fn move_cursor_right(&mut self, line_index: usize)
        ensures
            final(self)@ == (AppView {
                cursor_column: smaller(
                    plus(old(self)@.cursor_column, 1),
                    old(self)@.last_column(line_index as int),
                ),
                ..old(self)@
            }),
    {
        let last = self.max_cursor_column_for_line(line_index);
        let next = self.cursor_column.saturating_add(1);
        self.cursor_column = if next <= last {
            next
        } else {
            last
        };
    }

    /// The row of a line of the document.
    pub fn virtual_row_for_doc_line(&self, line_index: usize, content_width: u16) -> (row: usize)
        ensures
            row == self@.row_of_line(line_index, content_width),
    {
        let ghost app = self@;
        let mut row: usize = line_index;
        let mut i: usize = 0;
        while i < self.images.len()
            invariant
                i <= self.images@.len(),
                app == self@,
                app.image_rows_before_line(line_index, i as int, content_width) >= 0,
                row == if line_index + app.image_rows_before_line(
                    line_index,
                    i as int,
                    content_width,
                ) <= usize::MAX {
                    line_index + app.image_rows_before_line(line_index, i as int, content_width)
                } else {
                    usize::MAX as int
                },
            decreases self.images.len() - i,
        {
            assert(app.images[i as int] == self.images@[i as int]@);
            if self.images[i].line_index < line_index {
                let height = self.image_height_for(&self.images[i], content_width);
                row = row.saturating_add(height);
            }
            i += 1;
        }
        row
    }
}

impl AppView {
    /// The line and the column of the first word after a place.
    pub open spec fn word_after(
        self,
        line: int,
        column: usize,
        kind: WordMotionKind,
    ) -> Option<(int, usize)>
        decreases self.lines.len() - line,
    {
        if line >= self.lines.len() {
            None
        } else {
            match next_word(self.line_text(line), column as int, kind) {
                Some(target) => Some((line, target)),
                None => self.word_after(line + 1, 0, kind),
            }
        }
    }

    /// The line and the column of the last word before a place.
    pub open spec fn word_before(
        self,
        line: int,
        column: usize,
        kind: WordMotionKind,
    ) -> Option<(int, usize)>
        decreases line,
    {
        match prev_word(self.line_text(line), column as int, kind) {
            Some(target) => Some((line, target)),
            None => if line <= 0 {
                None
            } else {
                self.word_before(line - 1, text_columns(self.line_text(line - 1)), kind)
            },
        }
    }

    /// The cursor moves to a place, if there is one.
    pub open spec fn move_to(self, place: Option<(int, usize)>, content_width: u16) -> AppView {
        match place {
            Some((line, column)) => AppView {
                cursor_column: column,
                cursor_row: self.row_of_line(line as usize, content_width),
                focused_image: None,
                ..self
            },
            None => self,
        }
    }

    /// The cursor moves to the next word.
    pub open spec fn next_word(self, content_width: u16, kind: WordMotionKind) -> AppView {
        let line = self.cursor_line(content_width);
        let app = self.find_cursor(content_width);
        app.move_to(app.word_after(line, app.column_on(line), kind), content_width)
    }

    /// The cursor moves to the word before it.
    pub open spec fn prev_word(self, content_width: u16, kind: WordMotionKind) -> AppView {
        let line = self.cursor_line(content_width);
        let app = self.find_cursor(content_width);
        app.move_to(app.word_before(line, app.column_on(line), kind), content_width)
    }
}

impl App {
    /// Moves the cursor to a place.
    fn move_to(&mut self, line: usize, column: usize, content_width: u16)
        ensures
            final(self)@ == old(self)@.move_to(Some((line as int, column)), content_width),
    {
        self.cursor_row = self.virtual_row_for_doc_line(line, content_width);
        self.cursor_column = column;
        self.focused_image = None;
    }

    /// Moves the cursor to the next word, on this line or a later one.
    pub fn move_to_next_word(&mut self, content_width: u16, kind: WordMotionKind)
        requires
            old(self)@.is_sound(),
        ensures
            final(self)@ == old(self)@.next_word(content_width, kind),
            final(self)@.is_sound(),
    {
        let mut line = self.cursor_doc_line_for_navigation(content_width);
        let mut column = self.effective_cursor_column_for_line(line);
        let ghost app = self@;
        let ghost place = app.word_after(line as int, column, kind);
        while line < self.doc.lines.len()
            invariant
                app == self@,
                app.is_sound(),
                self.doc.lines@.len() == app.lines.len(),
                place == app.word_after(line as int, column, kind),
                app.move_to(place, content_width) == old(self)@.next_word(content_width, kind),
            decreases self.doc.lines.len() - line,
        {
            let text = self.line_text_at(line);
            if let Some(target) = find_next_word_start(text.as_str(), column, kind) {
                self.move_to(line, target, content_width);
                return;
            }
            line += 1;
            column = 0;
        }
    }

    /// Moves the cursor to the word before it, on this line or an earlier one.
    pub fn move_to_prev_word(&mut self, content_width: u16, kind: WordMotionKind)
        requires
            old(self)@.is_sound(),
        ensures
            final(self)@ == old(self)@.prev_word(content_width, kind),
            final(self)@.is_sound(),
    {
        let mut line = self.cursor_doc_line_for_navigation(content_width);
        let mut column = self.effective_cursor_column_for_line(line);
        let ghost app = self@;
        let ghost place = app.word_before(line as int, column, kind);
        loop
            invariant
                app == self@,
                app.is_sound(),
                place == app.word_before(line as int, column, kind),
                app.move_to(place, content_width) == old(self)@.prev_word(content_width, kind),
            decreases line,
        {
            let text = self.line_text_at(line);
            if let Some(target) = find_prev_word_start(text.as_str(), column, kind) {
                self.move_to(line, target, content_width);
                return;
            }
            if line == 0 {
                return;
            }
            line -= 1;
            let above = self.line_text_at(line);
            column = text_width(above.as_str());
        }
    }
}

} // verus!
