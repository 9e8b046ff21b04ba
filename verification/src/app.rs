//! The viewer: a document, a cursor in it and what is shown of it.
use ratatui_image::picker::Picker;
use regex::Regex;
use std::collections::BTreeMap;
use std::path::PathBuf;
use vstd::prelude::*;

use crate::chars::{owned, same_text, trim_end, trimmed_end};
use crate::highlight::{highlight_lines, lines_with_matches};
use crate::inline_image::{inline_images_view, InlineImage, InlineView, MAX_IMAGE_CELL_HEIGHT};
use crate::numbers::{minus, smaller};
use crate::page::{images_view, ImageView};
use crate::renderer::RenderedDoc;
use crate::text::{
    duplicate_lines, group_text_views, line_plain_text, lines_view, plain_text, Line, LineView,
};
use crate::variant::in_order;
use crate::width::{text_columns, text_width};

verus! {

/// A place on the page: a row, counted with the rows that images take, and a column.
#[derive(Clone, Copy, Debug, PartialEq, Eq, Structural)]
pub struct CursorPosition {
    pub row: usize,
    pub column: usize,
}

/// What keys do at the moment.
#[derive(Debug)]
pub enum Mode {
    Normal,
    /// The query so far.
    SearchInput(String),
    /// Where the selection began.
    VisualBlock(CursorPosition),
}

/// What a [`Mode`] holds.
pub enum ModeView {
    Normal,
    SearchInput(Seq<char>),
    VisualBlock(CursorPosition),
}

impl View for Mode {
    type V = ModeView;

    open spec fn view(&self) -> ModeView {
        match *self {
            Mode::Normal => ModeView::Normal,
            Mode::SearchInput(query) => ModeView::SearchInput(query@),
            Mode::VisualBlock(anchor) => ModeView::VisualBlock(anchor),
        }
    }
}

/// Lines with matches marked, and what they were marked for.
#[derive(Debug)]
pub struct HighlightedLinesCache {
    pub query: Option<String>,
    pub active_match_line: Option<usize>,
    pub lines: Vec<Line>,
}

/// What a [`HighlightedLinesCache`] holds.
#[verifier::ext_equal]
pub struct HighlightView {
    pub query: Option<Seq<char>>,
    pub active_match_line: Option<usize>,
    pub lines: Seq<LineView>,
}

impl View for HighlightedLinesCache {
    type V = HighlightView;

    open spec fn view(&self) -> HighlightView {
        HighlightView {
            query: string_view(self.query),
            active_match_line: self.active_match_line,
            lines: lines_view(self.lines@),
        }
    }
}

/// What an optional string holds.
pub open spec fn string_view(text: Option<String>) -> Option<Seq<char>> {
    match text {
        Some(known) => Some(known@),
        None => None,
    }
}

/// The viewer.
pub struct App {
    pub file_path: PathBuf,
    pub file_content: String,
    pub doc: RenderedDoc,
    pub picker: Picker,
    pub images: Vec<InlineImage>,
    /// Which image has its caption on a line.
    pub image_index_by_line: BTreeMap<usize, usize>,
    /// The first row on the screen.
    pub scroll: usize,
    pub status: String,
    pub show_help: bool,
    pub mode: Mode,
    pub search_query: Option<String>,
    pub search_regex: Option<Regex>,
    /// The lines with a match.
    pub search_matches: Vec<usize>,
    pub active_match: usize,
    pub cursor_row: usize,
    pub cursor_column: usize,
    pub focused_image: Option<usize>,
    /// How many rows the page has, by the width of the screen.
    pub virtual_row_count_cache: BTreeMap<u16, usize>,
    pub highlighted_lines_cache: Option<HighlightedLinesCache>,
    /// The drive of `file://` addresses that name none, where paths have drives.
    pub system_drive: Option<String>,
}

/// What an [`App`] holds.
#[verifier::ext_equal]
pub struct AppView {
    pub file_path: PathBuf,
    pub file_content: Seq<char>,
    pub lines: Seq<LineView>,
    pub doc_images: Seq<ImageView>,
    pub picker: Picker,
    pub images: Seq<InlineView>,
    pub image_index_by_line: Map<usize, usize>,
    pub scroll: usize,
    pub status: Seq<char>,
    pub show_help: bool,
    pub mode: ModeView,
    pub search_query: Option<Seq<char>>,
    pub search_regex: Option<Regex>,
    pub search_matches: Seq<usize>,
    pub active_match: usize,
    pub cursor_row: usize,
    pub cursor_column: usize,
    pub focused_image: Option<usize>,
    pub row_counts: Map<u16, usize>,
    pub highlighted: Option<HighlightView>,
    pub system_drive: Option<Seq<char>>,
}

impl View for App {
    type V = AppView;

    open spec fn view(&self) -> AppView {
        AppView {
            file_path: self.file_path,
            file_content: self.file_content@,
            lines: lines_view(self.doc.lines@),
            doc_images: images_view(self.doc.images@),
            picker: self.picker,
            images: inline_images_view(self.images@),
            image_index_by_line: self.image_index_by_line@,
            scroll: self.scroll,
            status: self.status@,
            show_help: self.show_help,
            mode: self.mode@,
            search_query: string_view(self.search_query),
            search_regex: self.search_regex,
            search_matches: self.search_matches@,
            active_match: self.active_match,
            cursor_row: self.cursor_row,
            cursor_column: self.cursor_column,
            focused_image: self.focused_image,
            row_counts: self.virtual_row_count_cache@,
            highlighted: match self.highlighted_lines_cache {
                Some(cache) => Some(cache@),
                None => None,
            },
            system_drive: string_view(self.system_drive),
        }
    }
}

/// The rows that an image takes on the page.
#[derive(Clone, Copy, Debug, PartialEq, Eq, Structural)]
pub struct ImageRenderPlan {
    pub image_index: usize,
    pub start_row: usize,
    pub height: usize,
}

/// What an [`ImageRenderPlan`] holds.
pub struct PlanView {
    pub image_index: usize,
    pub start_row: int,
    pub height: int,
}

impl View for ImageRenderPlan {
    type V = PlanView;

    open spec fn view(&self) -> PlanView {
        PlanView {
            image_index: self.image_index,
            start_row: self.start_row as int,
            height: self.height as int,
        }
    }
}

/// The page: lines and the rows that images take below their captions.
#[derive(Debug)]
pub struct DisplayDoc {
    pub lines: Vec<Line>,
    pub image_plans: Vec<ImageRenderPlan>,
    /// The line of the document that each row belongs to.
    pub doc_line_for_row: Vec<usize>,
}

/// What a [`DisplayDoc`] holds.
#[verifier::ext_equal]
pub struct DisplayView {
    pub lines: Seq<LineView>,
    pub image_plans: Seq<PlanView>,
    pub doc_line_for_row: Seq<int>,
}

impl View for DisplayDoc {
    type V = DisplayView;

    open spec fn view(&self) -> DisplayView {
        DisplayView {
            lines: lines_view(self.lines@),
            image_plans: plans_view(self.image_plans@),
            doc_line_for_row: numbers_view(self.doc_line_for_row@),
        }
    }
}

/// What a run of plans holds.
pub open spec fn plans_view(plans: Seq<ImageRenderPlan>) -> Seq<PlanView> {
    Seq::new(plans.len(), |i: int| plans[i]@)
}

/// Numbers without their machine limits.
pub open spec fn numbers_view(numbers: Seq<usize>) -> Seq<int> {
    Seq::new(numbers.len(), |i: int| numbers[i] as int)
}

/// A page with one more line and the rows below it that its image takes.
pub open spec fn with_line(
    page: DisplayView,
    line: LineView,
    line_index: int,
    image: Option<usize>,
    rows: int,
) -> DisplayView {
    let lines = page.lines.push(line);
    DisplayView {
        lines: lines + Seq::new(rows as nat, |i: int| LineView::empty()),
        image_plans: if image is Some && rows > 0 {
            page.image_plans.push(
                PlanView {
                    image_index: image->0,
                    start_row: lines.len() as int,
                    height: rows,
                },
            )
        } else {
            page.image_plans
        },
        doc_line_for_row: page.doc_line_for_row.push(line_index) + Seq::new(
            rows as nat,
            |i: int| line_index,
        ),
    }
}

impl AppView {
    /// Whether every line that names an image names one that there is, the images' encoded sizes
    /// are in order, and the active match is one of the matches.
    pub open spec fn is_sound(self) -> bool {
        &&& forall|line: usize| #[trigger]
            self.image_index_by_line.contains_key(line) ==> self.image_index_by_line[line]
                < self.images.len()
        &&& forall|i: int|
            0 <= i < self.images.len() ==> in_order((#[trigger] self.images[i]).cached_variants)
        &&& self.search_matches.len() > 0 ==> self.active_match < self.search_matches.len()
    }

    /// The line of the match that was jumped to last.
    pub open spec fn active_match_line(self) -> Option<usize> {
        if self.active_match < self.search_matches.len() {
            Some(self.search_matches[self.active_match as int])
        } else {
            None
        }
    }

    /// Whether the lines with matches marked are at hand.
    pub open spec fn has_highlighted(self) -> bool {
        self.highlighted is Some && self.highlighted->0.query == self.search_query
            && self.highlighted->0.active_match_line == self.active_match_line()
    }

    /// The lines as they are shown: with the matches of the search marked.
    pub open spec fn shown_lines(self) -> Seq<LineView> {
        if self.search_regex is None {
            self.lines
        } else if self.has_highlighted() {
            self.highlighted->0.lines
        } else {
            lines_with_matches(self.lines, self.search_regex->0, self.active_match_line())
        }
    }

    /// The viewer after the lines have been shown: they stay at hand.
    pub open spec fn show_lines(self) -> AppView {
        if self.search_regex is None || self.has_highlighted() {
            self
        } else {
            AppView {
                highlighted: Some(
                    HighlightView {
                        query: self.search_query,
                        active_match_line: self.active_match_line(),
                        lines: self.shown_lines(),
                    },
                ),
                ..self
            }
        }
    }

    /// The image whose caption is on a line.
    pub open spec fn image_on(self, line_index: int) -> Option<usize> {
        if self.image_index_by_line.contains_key(line_index as usize) {
            Some(self.image_index_by_line[line_index as usize])
        } else {
            None
        }
    }

    /// How many rows the image takes whose caption is on a line.
    pub open spec fn rows_below(self, line_index: int, content_width: u16) -> int {
        match self.image_on(line_index) {
            Some(image) => self.images[image as int].rows(self.picker, content_width),
            None => 0,
        }
    }

    /// The page, as far as its first `upto` lines.
    pub open spec fn page_upto(
        self,
        shown: Seq<LineView>,
        upto: int,
        content_width: u16,
    ) -> DisplayView
        decreases upto,
    {
        if upto <= 0 {
            DisplayView {
                lines: Seq::empty(),
                image_plans: Seq::empty(),
                doc_line_for_row: Seq::empty(),
            }
        } else {
            with_line(
                self.page_upto(shown, upto - 1, content_width),
                shown[upto - 1],
                upto - 1,
                self.image_on(upto - 1),
                self.rows_below(upto - 1, content_width),
            )
        }
    }

    /// The page: the lines as they are shown, each with the rows below it that its image takes.
    pub open spec fn page(self, content_width: u16) -> DisplayView {
        self.page_upto(self.shown_lines(), self.shown_lines().len() as int, content_width)
    }

    /// How many rows the page has: at least one.
    pub open spec fn counted_rows(self, content_width: u16) -> usize {
        let rows = self.page(content_width).lines.len() as usize;
        if rows >= 1 {
            rows
        } else {
            1
        }
    }

    /// How many rows the page has, as far as it is remembered.
    pub open spec fn rows(self, content_width: u16) -> usize {
        if self.row_counts.contains_key(content_width) {
            self.row_counts[content_width]
        } else {
            self.counted_rows(content_width)
        }
    }

    /// The viewer after the rows have been counted: the count is remembered.
    pub open spec fn count_rows(self, content_width: u16) -> AppView {
        if self.row_counts.contains_key(content_width) {
            self
        } else {
            AppView {
                row_counts: self.row_counts.insert(content_width, self.counted_rows(content_width)),
                ..self.show_lines()
            }
        }
    }

    /// The last row of the page.
    pub open spec fn last_row(self, content_width: u16) -> usize {
        minus(self.rows(content_width), 1)
    }

    /// The first row on the screen when the end of the page is shown, with one row left empty.
    pub open spec fn max_scroll(self, viewport_height: usize, content_width: u16) -> usize {
        minus(self.rows(content_width), minus(viewport_height, 1))
    }

    /// The text of a line; empty past the end.
    pub open spec fn line_text(self, index: int) -> Seq<char> {
        if 0 <= index < self.lines.len() {
            plain_text(self.lines[index])
        } else {
            Seq::empty()
        }
    }

    /// The last column of a line that the cursor reaches: white space at the end does not count.
    pub open spec fn last_column(self, index: int) -> usize {
        minus(text_columns(trimmed_end(self.line_text(index))), 1)
    }

    /// The column that the cursor has on a line: its own, or the last one of a shorter line.
    pub open spec fn column_on(self, index: int) -> usize {
        smaller(self.cursor_column, self.last_column(index))
    }
}

impl App {
    /// Forgets how many rows the page has.
    pub fn invalidate_virtual_row_cache(&mut self)
        ensures
            final(self)@ == (AppView { row_counts: Map::empty(), ..old(self)@ }),
    {
        self.virtual_row_count_cache.clear();
    }

    /// Forgets the lines with matches marked.
    pub fn invalidate_highlight_cache(&mut self)
        ensures
            final(self)@ == (AppView { highlighted: None, ..old(self)@ }),
    {
        self.highlighted_lines_cache = None;
    }

    /// The line of the match that was jumped to last.
    pub fn active_match_line(&self) -> (line: Option<usize>)
        ensures
            line == self@.active_match_line(),
    {
        if self.active_match < self.search_matches.len() {
            Some(self.search_matches[self.active_match])
        } else {
            None
        }
    }

    /// The lines as they are shown: with the matches of the search marked.
    pub fn highlighted_lines(&mut self) -> (lines: Vec<Line>)
        ensures
            lines_view(lines@) == old(self)@.shown_lines(),
            final(self)@ == old(self)@.show_lines(),
    {
        let active_match_line = self.active_match_line();
        let regex = match &self.search_regex {
            Some(regex) => regex,
            None => return duplicate_lines(&self.doc.lines),
        };
        if let Some(cache) = &self.highlighted_lines_cache {
            if same_query(&cache.query, &self.search_query) && cache.active_match_line
                == active_match_line {
                return duplicate_lines(&cache.lines);
            }
        }
        let lines = highlight_lines(&self.doc.lines, regex, active_match_line);
        let query = match &self.search_query {
            Some(query) => Some(owned(query.as_str())),
            None => None,
        };
        self.highlighted_lines_cache =
        Some(
            HighlightedLinesCache { query, active_match_line, lines: duplicate_lines(&lines) },
        );
        lines
    }
}

impl App {
    /// How many rows an image takes.
    pub fn image_height_for(&self, image: &InlineImage, content_width: u16) -> (rows: usize)
        ensures
            rows == image@.rows(self@.picker, content_width),
            rows <= MAX_IMAGE_CELL_HEIGHT,
    {
        image.rows(&self.picker, content_width)
    }

    /// The page: the lines as they are shown, each with the rows below it that its image takes.
    pub fn build_display_doc(&mut self, content_width: u16) -> (page: DisplayDoc)
        requires
            old(self)@.is_sound(),
        ensures
            page@ == old(self)@.page(content_width),
            final(self)@ == old(self)@.show_lines(),
            final(self)@.is_sound(),
    {
        broadcast use group_text_views;

        let shown = self.highlighted_lines();
        let ghost app = old(self)@;
        let ghost all = app.shown_lines();
        let mut page = DisplayDoc {
            lines: Vec::new(),
            image_plans: Vec::new(),
            doc_line_for_row: Vec::new(),
        };
        let mut i: usize = 0;
        assert(page@ =~= app.page_upto(all, 0, content_width));
        while i < shown.len()
            invariant
                i <= shown@.len(),
                app.is_sound(),
                self@ == app.show_lines(),
                all == lines_view(shown@),
                page@ == app.page_upto(all, i as int, content_width),
            decreases shown.len() - i,
        {
            let image = match self.image_index_by_line.get(&i) {
                Some(image) => Some(*image),
                None => None,
            };
            assert(image == app.image_on(i as int));
            let rows = match image {
                Some(index) => {
                    assert(app.image_index_by_line.contains_key(i));
                    let rows = self.image_height_for(&self.images[index], content_width);
                    assert(self@.images[index as int] == self.images@[index as int]@);
                    rows
                },
                None => 0,
            };
            assert(rows == app.rows_below(i as int, content_width));
            add_line(&mut page, shown[i].duplicate(), i, image, rows);
            i += 1;
        }
        page
    }

    /// How many rows the page has.
    pub fn total_virtual_lines(&mut self, content_width: u16) -> (rows: usize)
        requires
            old(self)@.is_sound(),
        ensures
            rows == old(self)@.rows(content_width),
            final(self)@ == old(self)@.count_rows(content_width),
            final(self)@.is_sound(),
    {
        if let Some(rows) = self.virtual_row_count_cache.get(&content_width) {
            return *rows;
        }
        let page = self.build_display_doc(content_width);
        assert(page@.lines.len() == page.lines@.len());
        let rows = if page.lines.len() >= 1 {
            page.lines.len()
        } else {
            1
        };
        self.virtual_row_count_cache.insert(content_width, rows);
        rows
    }

    /// The first row on the screen when the end of the page is shown.
    pub fn max_scroll(&mut self, viewport_height: usize, content_width: u16) -> (row: usize)
        requires
            old(self)@.is_sound(),
        ensures
            row == old(self)@.max_scroll(viewport_height, content_width),
            final(self)@ == old(self)@.count_rows(content_width),
            final(self)@.is_sound(),
    {
        self.total_virtual_lines(content_width).saturating_sub(viewport_height.saturating_sub(1))
    }

    /// The text of a line; empty past the end.
    pub fn line_text_at(&self, index: usize) -> (text: String)
        ensures
            text@ == self@.line_text(index as int),
    {
        if index < self.doc.lines.len() {
            assert(self@.lines[index as int] == self.doc.lines@[index as int]@);
            line_plain_text(&self.doc.lines[index])
        } else {
            String::new()
        }
    }

    /// The columns of a line without the white space at its end.
    pub fn visible_line_width_at(&self, index: usize) -> (columns: usize)
        ensures
            columns == text_columns(trimmed_end(self@.line_text(index as int))),
    {
        let text = self.line_text_at(index);
        let visible = trim_end(text.as_str());
        text_width(visible.as_str())
    }

    /// The last column of a line that the cursor reaches.
    pub fn max_cursor_column_for_line(&self, index: usize) -> (column: usize)
        ensures
            column == self@.last_column(index as int),
    {
        self.visible_line_width_at(index).saturating_sub(1)
    }

    /// The column that the cursor has on a line.
    pub fn effective_cursor_column_for_line(&self, index: usize) -> (column: usize)
        ensures
            column == self@.column_on(index as int),
    {
        let last = self.max_cursor_column_for_line(index);
        if self.cursor_column <= last {
            self.cursor_column
        } else {
            last
        }
    }
}

/// Adds a line to a page, and the rows below it that its image takes.
fn add_line(
    page: &mut DisplayDoc,
    line: Line,
    line_index: usize,
    image: Option<usize>,
    rows: usize,
)
    requires
        image is None ==> rows == 0,
    ensures
        final(page)@ == with_line(old(page)@, line@, line_index as int, image, rows as int),
{
    broadcast use group_text_views;

    page.lines.push(line);
    page.doc_line_for_row.push(line_index);
    let start_row = page.lines.len();
    if let Some(image_index) = image {
        if rows > 0 {
            page.image_plans.push(ImageRenderPlan { image_index, start_row, height: rows });
        }
    }
    let ghost plans = page.image_plans@;
    let ghost lines = lines_view(page.lines@);
    let ghost numbers = numbers_view(page.doc_line_for_row@);
    assert(numbers =~= old(page)@.doc_line_for_row.push(line_index as int));
    assert(plans_view(plans) =~= with_line(
        old(page)@,
        line@,
        line_index as int,
        image,
        rows as int,
    ).image_plans);
    let mut k: usize = 0;
    assert(lines + Seq::new(0, |i: int| LineView::empty()) =~= lines);
    assert(numbers + Seq::new(0, |i: int| line_index as int) =~= numbers);
    while k < rows
        invariant
            k <= rows,
            page.image_plans@ == plans,
            lines_view(page.lines@) == lines + Seq::new(k as nat, |i: int| LineView::empty()),
            numbers_view(page.doc_line_for_row@) == numbers + Seq::new(
                k as nat,
                |i: int| line_index as int,
            ),
        decreases rows - k,
    {
        let ghost before = page@;
        page.lines.push(Line::empty());
        page.doc_line_for_row.push(line_index);
        assert(page@.lines == before.lines.push(LineView::empty()));
        assert(page@.doc_line_for_row =~= before.doc_line_for_row.push(line_index as int));
        assert(lines_view(page.lines@) =~= lines + Seq::new(
            (k + 1) as nat,
            |i: int| LineView::empty(),
        ));
        assert(numbers_view(page.doc_line_for_row@) =~= numbers + Seq::new(
            (k + 1) as nat,
            |i: int| line_index as int,
        ));
        k += 1;
    }
}

/// Whether two optional strings are equal.
fn same_query(a: &Option<String>, b: &Option<String>) -> (answer: bool)
    ensures
        answer == (string_view(*a) == string_view(*b)),
{
    match (a, b) {
        (Some(left), Some(right)) => same_text(left.as_str(), right.as_str()),
        (None, None) => true,
        _ => false,
    }
}

} // verus!
