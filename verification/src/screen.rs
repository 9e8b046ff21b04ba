//! What is drawn where on the screen.
use vstd::prelude::*;

use crate::app::{
    plans_view, App, AppView, DisplayDoc, DisplayView, ImageRenderPlan, Mode, ModeView,
};
use crate::chars::{decimal, decimal_text, owned};
use crate::inline_image::placeholder;
use crate::keys::Viewport;
use crate::laws::pictures::lemma_asking_keeps_the_place;
use crate::laws::screens::law_screen_follows_the_cursor;
use crate::loading::{requests_view, ImageLoadRequest};
use crate::numbers::{larger, minus, plus, smaller};
use crate::selection::lines_with_selection;
use crate::source::{show_path, shown_path};
use crate::variant::{CropOptions, ImageResizeVariant, Rect, Resize};
use crate::width::{text_columns, text_width};

verus! {

/// How images are to be drawn, as the user asks for it.
#[derive(Clone, Copy, Debug, PartialEq, Eq, Structural)]
pub enum ImageProtocol {
    Auto,
    Halfblocks,
    Sixel,
    Kitty,
    Iterm2,
}

/// How a terminal draws images.
#[derive(Clone, Copy, Debug, PartialEq, Eq, Structural)]
pub enum ProtocolType {
    Halfblocks,
    Sixel,
    Kitty,
    Iterm2,
}

/// How images have to be drawn: left open if the user leaves it open.
pub fn protocol_override(image_protocol: ImageProtocol) -> (protocol: Option<ProtocolType>)
    ensures
        protocol == match image_protocol {
            ImageProtocol::Auto => None,
            ImageProtocol::Halfblocks => Some(ProtocolType::Halfblocks),
            ImageProtocol::Sixel => Some(ProtocolType::Sixel),
            ImageProtocol::Kitty => Some(ProtocolType::Kitty),
            ImageProtocol::Iterm2 => Some(ProtocolType::Iterm2),
        },
{
    match image_protocol {
        ImageProtocol::Auto => None,
        ImageProtocol::Halfblocks => Some(ProtocolType::Halfblocks),
        ImageProtocol::Sixel => Some(ProtocolType::Sixel),
        ImageProtocol::Kitty => Some(ProtocolType::Kitty),
        ImageProtocol::Iterm2 => Some(ProtocolType::Iterm2),
    }
}

/// How images are drawn: as they have to be, else in half blocks where the terminal cannot be
/// asked what it can do, else as the terminal says.
pub fn chosen_protocol(image_protocol: ImageProtocol, can_query: bool) -> (protocol: Option<
    ProtocolType,
>)
    ensures
        protocol == match image_protocol {
            ImageProtocol::Auto => if can_query {
                None
            } else {
                Some(ProtocolType::Halfblocks)
            },
            ImageProtocol::Halfblocks => Some(ProtocolType::Halfblocks),
            ImageProtocol::Sixel => Some(ProtocolType::Sixel),
            ImageProtocol::Kitty => Some(ProtocolType::Kitty),
            ImageProtocol::Iterm2 => Some(ProtocolType::Iterm2),
        },
{
    match protocol_override(image_protocol) {
        Some(protocol) => Some(protocol),
        None => if can_query {
            None
        } else {
            Some(ProtocolType::Halfblocks)
        },
    }
}

/// The size of a terminal cell, in pixels, where the terminal does not say it.
pub const DEFAULT_CELL_PIXELS: (u16, u16) = (10, 20);

/// What happens while a document is viewed, as far as the screen is concerned.
#[derive(Clone, Copy, Debug, PartialEq, Eq, Structural)]
pub enum ScreenEvent {
    /// The screen has been drawn.
    Drawn,
    /// Answers have arrived that change what is shown.
    ResultsChanged,
    Resized,
    KeyPressed,
    /// Time has passed, or something else has happened.
    Other,
}

/// Whether the screen has to be drawn, after an event: once it is drawn, it stays as it is until an
/// answer, a key or another size changes what it shows.
pub fn needs_redraw(needed: bool, event: ScreenEvent) -> (needs: bool)
    ensures
        needs == match event {
            ScreenEvent::Drawn => false,
            ScreenEvent::ResultsChanged => true,
            ScreenEvent::Resized => true,
            ScreenEvent::KeyPressed => true,
            ScreenEvent::Other => needed,
        },
{
    match event {
        ScreenEvent::Drawn => false,
        ScreenEvent::ResultsChanged | ScreenEvent::Resized | ScreenEvent::KeyPressed => true,
        ScreenEvent::Other => needed,
    }
}

/// What a terminal shows of the page: a status line and a frame around the page take their room.
pub open spec fn viewport_of(width: u16, height: u16) -> Viewport {
    let rows = minus(height as usize, 3);
    Viewport {
        height: rows,
        width: minus(width as usize, 2) as u16,
        half_page: larger(rows / 2, 1),
        full_page: larger(rows, 1),
    }
}

/// What a terminal shows of the page.
pub fn viewport_for(width: u16, height: u16) -> (viewport: Viewport)
    ensures
        viewport == viewport_of(width, height),
{
    let rows = height.saturating_sub(3) as usize;
    let half = rows / 2;
    Viewport {
        height: rows,
        width: width.saturating_sub(2),
        half_page: if half >= 1 {
            half
        } else {
            1
        },
        full_page: if rows >= 1 {
            rows
        } else {
            1
        },
    }
}

/// Whether any of an image's rows is on the screen.
pub open spec fn is_on_screen(plan: ImageRenderPlan, scroll: usize, inner: Rect) -> bool {
    larger(plan.start_row, scroll) < smaller(
        plus(plan.start_row, plan.height),
        plus(scroll, inner.height as usize),
    )
}

/// The area of the screen that shows an image's rows.
pub open spec fn shown_area(plan: ImageRenderPlan, scroll: usize, inner: Rect) -> Rect {
    let top = larger(plan.start_row, scroll);
    let bottom = smaller(
        plus(plan.start_row, plan.height),
        plus(scroll, inner.height as usize),
    );
    Rect {
        x: inner.x,
        y: if inner.y + (top - scroll) <= u16::MAX {
            (inner.y + (top - scroll)) as u16
        } else {
            u16::MAX
        },
        width: inner.width,
        height: (bottom - top) as u16,
    }
}

/// How an image is brought to the area that shows it: whole if all of its rows are on the screen,
/// else cut off at the top or at the bottom.
pub open spec fn shown_resize(plan: ImageRenderPlan, scroll: usize, inner: Rect) -> Resize {
    if plan.start_row >= scroll && plus(plan.start_row, plan.height) <= plus(
        scroll,
        inner.height as usize,
    ) {
        Resize::Fit
    } else {
        Resize::Crop(Some(CropOptions { clip_top: scroll > plan.start_row, clip_left: false }))
    }
}

/// The area of the screen that shows an image and how the image is brought to it, if any of its
/// rows is on the screen.
pub fn place_image(plan: ImageRenderPlan, scroll: usize, inner: Rect) -> (place: Option<
    (Rect, Resize),
>)
    ensures
        place == if is_on_screen(plan, scroll, inner) && inner.width > 0 {
            Some((shown_area(plan, scroll, inner), shown_resize(plan, scroll, inner)))
        } else {
            None
        },
{
    let plan_bottom = plan.start_row.saturating_add(plan.height);
    let view_bottom = scroll.saturating_add(inner.height as usize);
    let top = if plan.start_row >= scroll {
        plan.start_row
    } else {
        scroll
    };
    let bottom = if plan_bottom <= view_bottom {
        plan_bottom
    } else {
        view_bottom
    };
    if top >= bottom || inner.width == 0 {
        return None;
    }
    let area = Rect {
        x: inner.x,
        y: inner.y.saturating_add((top - scroll) as u16),
        width: inner.width,
        height: (bottom - top) as u16,
    };
    let resize = if plan.start_row >= scroll && plan_bottom <= view_bottom {
        Resize::Fit
    } else {
        Resize::Crop(Some(CropOptions { clip_top: top > plan.start_row, clip_left: false }))
    };
    Some((area, resize))
}

/// An image is drawn within the page's part of the screen, and it is drawn whole exactly if all of
/// its rows have room there.
pub proof fn law_images_stay_on_the_page(plan: ImageRenderPlan, scroll: usize, inner: Rect)
    requires
        is_on_screen(plan, scroll, inner),
        inner.y + inner.height <= u16::MAX,
        scroll + inner.height <= usize::MAX,
    ensures
        inner.y <= shown_area(plan, scroll, inner).y,
        shown_area(plan, scroll, inner).y + shown_area(plan, scroll, inner).height <= inner.y
            + inner.height,
        0 < shown_area(plan, scroll, inner).height,
        plan.start_row + plan.height <= usize::MAX ==> (shown_area(plan, scroll, inner).height
            == plan.height <==> shown_resize(plan, scroll, inner) == Resize::Fit),
{
}

/// What is drawn in the area of an image.
#[derive(Debug)]
pub enum ImageContent {
    /// The image in the size that the area asks for.
    Image,
    /// A text in its place.
    Text(String),
}

/// What an [`ImageContent`] holds.
pub enum ContentView {
    Image,
    Text(Seq<char>),
}

impl View for ImageContent {
    type V = ContentView;

    open spec fn view(&self) -> ContentView {
        match *self {
            ImageContent::Image => ContentView::Image,
            ImageContent::Text(text) => ContentView::Text(text@),
        }
    }
}

impl AppView {
    /// What is drawn in an area: the image if it is encoded for the size that is wanted there.
    pub open spec fn content_for(
        self,
        index: usize,
        wanted: Option<ImageResizeVariant>,
    ) -> ContentView {
        let image = self.images[index as int];
        if wanted is Some && image.active_variant == wanted && image.state is Some {
            ContentView::Image
        } else {
            ContentView::Text("  "@ + placeholder(image))
        }
    }

    /// The row of the cursor.
    pub open spec fn drawn_row(self, total_rows: usize) -> usize {
        smaller(self.cursor_row, minus(total_rows, 1))
    }

    /// The line of the document that a row of a page belongs to.
    pub open spec fn drawn_line(self, page: DisplayView, row: usize) -> int {
        if row < page.doc_line_for_row.len() {
            page.doc_line_for_row[row as int]
        } else if self.lines.len() > 0 {
            self.lines.len() - 1
        } else {
            0
        }
    }

    /// The viewer once the cursor is on the screen that is about to be drawn.
    pub open spec fn before_drawing(self, viewport_height: usize, content_width: u16) -> AppView {
        let shown = self.show_lines();
        let limit = shown.max_scroll(viewport_height, content_width);
        let app = shown.count_rows(content_width).clamp_cursor(content_width).show_cursor(
            viewport_height,
            content_width,
        );
        AppView { scroll: smaller(app.scroll, limit), ..app }
    }
}

/// What is drawn on the screen.
#[derive(Debug)]
pub struct Screen {
    pub page: DisplayDoc,
    /// How many rows the page has.
    pub total_rows: usize,
    /// The line of the document that the cursor is on.
    pub cursor_line: usize,
    /// The row of the screen that the cursor is on.
    pub cursor_row: usize,
    pub cursor_column: usize,
    /// What has to be asked of the loader.
    pub requests: Vec<ImageLoadRequest>,
}

impl App {
    /// Makes ready what is drawn on a screen.
    pub fn prepare_screen(&mut self, viewport_height: usize, content_width: u16) -> (screen: Screen)
        requires
            old(self)@.is_sound(),
        ensures
            final(self)@.is_sound(),
            screen.total_rows == old(self)@.counted_rows(content_width),
            plans_view(screen.page.image_plans@) == old(self)@.page(content_width).image_plans,
            screen.page@.doc_line_for_row == old(self)@.page(content_width).doc_line_for_row,
            ({
                let ready = old(self)@.before_drawing(viewport_height, content_width);
                let (app, requests) = ready.load_near_upto(
                    screen.page.image_plans@,
                    screen.page.image_plans@.len() as int,
                    viewport_height,
                );
                let row = app.drawn_row(screen.total_rows);
                let line = app.drawn_line(old(self)@.page(content_width), row);
                &&& requests_view(screen.requests@) == requests
                &&& screen.cursor_line == line
                &&& screen.cursor_row == minus(row, app.scroll)
                &&& screen.cursor_column == app.column_on(line)
                &&& screen.page@.lines == match app.selection(content_width) {
                    Some(selection) => lines_with_selection(
                        old(self)@.page(content_width).lines,
                        selection.block(),
                    ),
                    None => old(self)@.page(content_width).lines,
                }
                &&& final(self)@ == app.find_selection(content_width)
            }),
            old(self)@.is_laid_out(content_width) && viewport_height > 0 ==> {
                &&& screen.cursor_line == old(self)@.cursor_line(content_width)
                &&& screen.cursor_row < viewport_height
                &&& screen.cursor_row + final(self)@.scroll == old(self)@.row_of_cursor(
                    content_width,
                )
                &&& screen.cursor_column == old(self)@.column_on(
                    old(self)@.cursor_line(content_width),
                )
            },
    {
        let mut page = self.build_display_doc(content_width);
        assert(page@.lines.len() == page.lines@.len());
        assert(page@.doc_line_for_row.len() == page.doc_line_for_row@.len());
        let total_rows = if page.lines.len() >= 1 {
            page.lines.len()
        } else {
            1
        };
        let limit = self.max_scroll(viewport_height, content_width);
        self.clamp_cursor_row(content_width);
        self.ensure_cursor_visible(viewport_height, content_width);
        if self.scroll > limit {
            self.scroll = limit;
        }
        assert(self@ == old(self)@.before_drawing(viewport_height, content_width));
        let requests = self.request_images_near_viewport(&page, viewport_height);
        assert(self.doc.lines@.len() == self@.lines.len());
        let row = if self.cursor_row <= total_rows - 1 {
            self.cursor_row
        } else {
            total_rows - 1
        };
        let cursor_line = if row < page.doc_line_for_row.len() {
            assert(page@.doc_line_for_row[row as int] == page.doc_line_for_row@[row as int]);
            page.doc_line_for_row[row]
        } else {
            self.doc.lines.len().saturating_sub(1)
        };
        let cursor_row = row.saturating_sub(self.scroll);
        let cursor_column = self.effective_cursor_column_for_line(cursor_line);
        proof {
            let ready = old(self)@.before_drawing(viewport_height, content_width);
            let plans = page.image_plans@;
            lemma_asking_keeps_the_place(ready, plans, plans.len() as int, viewport_height);
            if old(self)@.is_laid_out(content_width) && viewport_height > 0 {
                law_screen_follows_the_cursor(old(self)@, viewport_height, content_width);
            }
        }
        self.apply_visual_selection_to_display_doc(&mut page, content_width);
        Screen { page, total_rows, cursor_line, cursor_row, cursor_column, requests }
    }
}

/// What the status line shows when help is wanted.
pub const HELP_TEXT: &'static str =
    "q quit | Ctrl-v visual block | y copy | Esc cancel | h/l,j/k move | w/W,b/B words | g/G top/bottom | d/u,Ctrl-d/u half-page | Ctrl-f/b page | / search | n/N next/prev | r reload | ? help";

/// A number as it is counted from one, but not past the last.
pub open spec fn ordinal(index: usize, count: usize) -> nat {
    smaller(plus(index, 1), count) as nat
}

impl AppView {
    /// Where the screen and the cursor are, for the status line.
    pub open spec fn place_text(self, total_rows: usize, line: usize, column: usize) -> Seq<char> {
        "  |  row "@ + decimal_text(ordinal(self.scroll, total_rows)) + " / "@ + decimal_text(
            total_rows as nat,
        ) + "  |  cursor "@ + decimal_text(
            ordinal(line, larger(self.lines.len() as usize, 1)),
        ) + ":"@ + decimal_text(plus(column, 1) as nat)
    }

    /// How far the images have been loaded, for the status line.
    pub open spec fn progress_text(self) -> Seq<char> {
        if self.images.len() == 0 {
            Seq::empty()
        } else {
            let (loaded, loading, failed) = self.progress();
            "  |  images "@ + decimal_text(loaded) + "/"@ + decimal_text(self.images.len())
                + ", loading "@ + decimal_text(loading) + ", failed "@ + decimal_text(failed)
        }
    }

    /// The image that is selected, for the status line.
    pub open spec fn focus_text(self) -> Seq<char> {
        match self.focused_image {
            Some(image) => "  |  image "@ + decimal_text(plus(image, 1) as nat) + " selected"@,
            None => Seq::empty(),
        }
    }

    /// The match that is active, for the status line.
    pub open spec fn match_text(self) -> Seq<char> {
        if self.search_matches.len() == 0 {
            Seq::empty()
        } else {
            "  |  match "@ + decimal_text((self.active_match + 1) as nat) + " / "@ + decimal_text(
                self.search_matches.len(),
            )
        }
    }

    /// What the status line shows.
    pub open spec fn status_text(self, total_rows: usize, line: usize, column: usize) -> Seq<char> {
        if self.show_help {
            HELP_TEXT@
        } else {
            match self.mode {
                ModeView::Normal => self.status + self.place_text(total_rows, line, column)
                    + "  |  ? help"@ + self.progress_text() + self.focus_text() + self.match_text(),
                ModeView::SearchInput(query) => "/"@ + query,
                ModeView::VisualBlock(_) => self.status + "  |  VISUAL BLOCK"@ + self.place_text(
                    total_rows,
                    line,
                    column,
                ) + "  |  y copy | Esc cancel"@ + self.progress_text(),
            }
        }
    }

    /// The title of the frame around the page.
    pub open spec fn title(self) -> Seq<char> {
        " mdvi "@ + shown_path(self.file_path) + " "@
    }
}

/// Adds a number to a text.
fn append_number(text: &mut String, number: usize)
    ensures
        final(text)@ == old(text)@ + decimal_text(number as nat),
{
    let digits = decimal(number as u64);
    text.append(digits.as_str());
}

/// A number as it is counted from one, but not past the last.
fn count_from_one(index: usize, count: usize) -> (number: usize)
    ensures
        number == ordinal(index, count),
{
    let next = index.saturating_add(1);
    if next <= count {
        next
    } else {
        count
    }
}

impl App {
    /// What is drawn in an area: the image if it is encoded for the size that is wanted there.
    pub fn image_content(&self, image_index: usize, wanted: Option<ImageResizeVariant>) -> (content:
        ImageContent)
        requires
            image_index < self@.images.len(),
        ensures
            content@ == self@.content_for(image_index, wanted),
    {
        let image = &self.images[image_index];
        assert(self@.images[image_index as int] == image@);
        if wanted.is_some() && image.active_variant == wanted && image.state.is_some() {
            ImageContent::Image
        } else {
            let mut text = owned("  ");
            text.append(image.image_placeholder());
            ImageContent::Text(text)
        }
    }

    /// Where the screen and the cursor are, for the status line.
    fn append_place(&self, text: &mut String, total_rows: usize, line: usize, column: usize)
        ensures
            final(text)@ == old(text)@ + self@.place_text(total_rows, line, column),
    {
        let lines = self.doc.lines.len();
        assert(lines == self@.lines.len());
        text.append("  |  row ");
        append_number(text, count_from_one(self.scroll, total_rows));
        text.append(" / ");
        append_number(text, total_rows);
        text.append("  |  cursor ");
        append_number(
            text,
            count_from_one(
                line,
                if lines >= 1 {
                    lines
                } else {
                    1
                },
            ),
        );
        text.append(":");
        append_number(text, column.saturating_add(1));
        assert(text@ =~= old(text)@ + self@.place_text(total_rows, line, column));
    }

    /// How far the images have been loaded, for the status line.
    fn append_progress(&self, text: &mut String)
        ensures
            final(text)@ == old(text)@ + self@.progress_text(),
    {
        if !self.images.is_empty() {
            let (loaded, loading, failed) = self.image_progress_counts();
            assert(self.images@.len() == self@.images.len());
            text.append("  |  images ");
            append_number(text, loaded);
            text.append("/");
            append_number(text, self.images.len());
            text.append(", loading ");
            append_number(text, loading);
            text.append(", failed ");
            append_number(text, failed);
        }
        assert(text@ =~= old(text)@ + self@.progress_text());
    }

    /// The image that is selected and the match that is active, for the status line.
    fn append_focus_and_match(&self, text: &mut String)
        requires
            self@.is_sound(),
        ensures
            final(text)@ == old(text)@ + self@.focus_text() + self@.match_text(),
    {
        if let Some(image) = self.focused_image {
            text.append("  |  image ");
            append_number(text, image.saturating_add(1));
            text.append(" selected");
        }
        assert(text@ =~= old(text)@ + self@.focus_text());
        if !self.search_matches.is_empty() {
            let count = self.search_matches.len();
            text.append("  |  match ");
            append_number(text, self.active_match + 1);
            text.append(" / ");
            append_number(text, count);
        }
        assert(text@ =~= old(text)@ + self@.focus_text() + self@.match_text());
    }

    /// What the status line shows.
    pub fn status_line(&self, total_rows: usize, cursor_line: usize, cursor_column: usize) -> (text:
        String)
        requires
            self@.is_sound(),
        ensures
            text@ == self@.status_text(total_rows, cursor_line, cursor_column),
    {
        if self.show_help {
            return owned(HELP_TEXT);
        }
        match &self.mode {
            Mode::Normal => {
                let mut text = owned(self.status.as_str());
                self.append_place(&mut text, total_rows, cursor_line, cursor_column);
                text.append("  |  ? help");
                self.append_progress(&mut text);
                self.append_focus_and_match(&mut text);
                text
            },
            Mode::SearchInput(query) => {
                let mut text = owned("/");
                text.append(query.as_str());
                text
            },
            Mode::VisualBlock(_) => {
                let mut text = owned(self.status.as_str());
                text.append("  |  VISUAL BLOCK");
                self.append_place(&mut text, total_rows, cursor_line, cursor_column);
                text.append("  |  y copy | Esc cancel");
                self.append_progress(&mut text);
                text
            },
        }
    }

    /// The title of the frame around the page.
    pub fn title(&self) -> (text: String)
        ensures
            text@ == self@.title(),
    {
        let mut text = owned(" mdvi ");
        let path = show_path(&self.file_path);
        text.append(path.as_str());
        text.append(" ");
        text
    }
}

/// The place `offset` cells from `start`, but not past `last`. Only sixteen bits of the offset
/// count.
pub open spec fn cell_from(start: u16, offset: int, last: u16) -> u16 {
    if start + offset % 0x10000 <= last {
        (start + offset % 0x10000) as u16
    } else {
        last
    }
}

/// The last of `count` cells from `start`.
pub open spec fn last_cell(start: u16, count: u16) -> u16 {
    if count == 0 {
        start
    } else if start + (count - 1) <= u16::MAX {
        (start + (count - 1)) as u16
    } else {
        u16::MAX
    }
}

/// The last of `count` cells from `start`.
fn last_of_cells(start: u16, count: u16) -> (last: u16)
    ensures
        last == last_cell(start, count),
{
    start.saturating_add(count.saturating_sub(1))
}

/// The place `offset` cells from `start`, but not past `last`.
fn move_cells(start: u16, offset: usize, last: u16) -> (cell: u16)
    ensures
        cell == cell_from(start, offset as int, last),
{
    let cell = start.saturating_add((offset % 0x10000) as u16);
    if cell <= last {
        cell
    } else {
        last
    }
}

/// Where the cursor of a query is on the status line: behind the slash and the query.
pub open spec fn query_cursor(query: Seq<char>, area: Rect) -> (u16, u16) {
    let behind_slash = if area.x < u16::MAX {
        (area.x + 1) as u16
    } else {
        u16::MAX
    };
    (
        cell_from(behind_slash, text_columns(query) as int, last_cell(area.x, area.width)),
        area.y,
    )
}

/// Where the cursor of a query is on the status line.
pub fn place_query_cursor(query: &str, area: Rect) -> (cell: (u16, u16))
    ensures
        cell == query_cursor(query@, area),
{
    let last = last_of_cells(area.x, area.width);
    (move_cells(area.x.saturating_add(1), text_width(query), last), area.y)
}

/// Where the cursor is on the page's part of the screen; nowhere if that has no room.
pub open spec fn page_cursor(row: usize, column: usize, inner: Rect) -> Option<(u16, u16)> {
    if inner.width == 0 || inner.height == 0 {
        None
    } else {
        Some(
            (
                cell_from(inner.x, column as int, last_cell(inner.x, inner.width)),
                cell_from(inner.y, row as int, u16::MAX),
            ),
        )
    }
}

/// Where the cursor is on the page's part of the screen; nowhere if that has no room.
pub fn place_page_cursor(row: usize, column: usize, inner: Rect) -> (cell: Option<(u16, u16)>)
    ensures
        cell == page_cursor(row, column, inner),
{
    if inner.width == 0 || inner.height == 0 {
        return None;
    }
    let last = last_of_cells(inner.x, inner.width);
    Some((move_cells(inner.x, column, last), move_cells(inner.y, row, u16::MAX)))
}

} // verus!
