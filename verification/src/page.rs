//! The page that a Markdown document is laid out on, event by event.
use syntect::easy::HighlightLines;
use vstd::prelude::*;

use crate::chars::{
    decimal, decimal_text, owned, repeat, repeated, split, split_text, strings_view, trim, trimmed,
    trimmed_start,
};
use crate::code::{extract_code_block_language_token, language_token};
use crate::html::{
    extract_html_images, html_images, html_images_view, HtmlImageTag, HtmlImageView, HtmlPatterns,
};
use crate::markdown::{EventView, MarkdownEvent, Tag, TagEnd, TagView};
use crate::renderer::{display_src_label, src_label, RenderedDoc, RenderedImage};
use crate::style::{Color, Modifier, Style};
use crate::syntax::{
    coloring_after, coloring_for, highlight_code_line, is_coloring_with, line_spans,
    new_code_highlighter, CodeHighlightAssets,
};
use crate::table::{
    drawn_table, lemma_row_push, lemma_rows_push, render_table, row_view, rows_view, RowView,
};
use crate::text::{group_text_views, lines_view, span_view, spans_view, Line, LineView, Span};

verus! {

/// A list that is open: the number of its next item, if its items are numbered.
#[derive(Clone, Copy, Debug, PartialEq, Eq, Structural)]
pub enum ListKind {
    Ordered(u64),
    Unordered,
}

/// A table that is being read.
#[derive(Debug)]
pub struct TableBuf {
    pub header: Vec<Vec<Span>>,
    pub rows: Vec<Vec<Vec<Span>>>,
    pub current_row: Vec<Vec<Span>>,
}

/// What a [`TableBuf`] holds.
#[verifier::ext_equal]
pub struct TableView {
    pub header: RowView,
    pub rows: Seq<RowView>,
    pub current_row: RowView,
}

impl View for TableBuf {
    type V = TableView;

    open spec fn view(&self) -> TableView {
        TableView {
            header: row_view(self.header@),
            rows: rows_view(self.rows@),
            current_row: row_view(self.current_row@),
        }
    }
}

/// What a [`RenderedImage`] holds.
pub struct ImageView {
    pub src: Seq<char>,
    pub line_index: nat,
    pub hinted_pixel_size: Option<(u32, u32)>,
}

impl View for RenderedImage {
    type V = ImageView;

    open spec fn view(&self) -> ImageView {
        ImageView {
            src: self.src@,
            line_index: self.line_index as nat,
            hinted_pixel_size: self.hinted_pixel_size,
        }
    }
}

/// What a run of images holds.
pub open spec fn images_view(images: Seq<RenderedImage>) -> Seq<ImageView> {
    Seq::new(images.len(), |i: int| images[i]@)
}

/// What a page is laid out with: the expressions for embedded HTML and, where code is to be
/// colored, what it is colored with.
pub struct RenderTools {
    pub patterns: HtmlPatterns,
    pub assets: Option<CodeHighlightAssets>,
}

/// A page, as far as it has been laid out.
#[verifier::ext_equal]
pub struct Page {
    /// The lines that are complete.
    pub lines: Seq<LineView>,
    /// The images so far.
    pub images: Seq<ImageView>,
    /// The spans of the line that is being filled.
    pub spans: LineView,
    /// The styles of the open elements, the innermost last.
    pub styles: Seq<Style>,
    /// The open lists, the innermost last.
    pub lists: Seq<ListKind>,
    /// Whether a code block is open.
    pub in_code_block: bool,
    /// How the open code block is colored.
    pub coloring: Option<HighlightLines<'static>>,
    /// How many block quotes are open.
    pub quotes: nat,
    /// The target of the open link.
    pub link: Option<Seq<char>>,
    /// The source of the open image, and its alternative text so far.
    pub image: Option<(Seq<char>, Seq<char>)>,
    /// The open table.
    pub table: Option<TableView>,
}

/// The plain style with one set of attributes.
pub open spec fn marked(modifier: Modifier) -> Style {
    Style::plain().with(modifier)
}

/// Dim text.
pub open spec fn dim_style() -> Style {
    marked(Modifier { dim: true, ..Modifier::none() })
}

/// The style of a heading.
pub open spec fn heading_style(level: u8) -> Style {
    if level == 1 {
        marked(Modifier { bold: true, underlined: true, ..Modifier::none() })
    } else if level == 2 {
        marked(Modifier { bold: true, ..Modifier::none() })
    } else if level <= 4 {
        marked(Modifier { bold: true, italic: true, ..Modifier::none() })
    } else {
        marked(Modifier { italic: true, ..Modifier::none() })
    }
}

/// The style of inline code.
pub open spec fn code_style() -> Style {
    Style {
        fg: Some(Color::Rgb(200, 200, 200)),
        bg: Some(Color::Rgb(45, 45, 45)),
        add_modifier: Modifier::none(),
    }
}

/// What marks a line of a block quote.
pub open spec fn quote_prefix(depth: nat) -> Seq<char> {
    repeated("  "@, if depth > 0 { (depth - 1) as nat } else { 0 }) + "│ "@
}

/// How far the items of the innermost list are moved in.
pub open spec fn list_indent(lists: Seq<ListKind>) -> Seq<char> {
    repeated("  "@, if lists.len() > 0 { (lists.len() - 1) as nat } else { 0 })
}

/// What marks an item of the innermost list.
pub open spec fn item_marker(lists: Seq<ListKind>) -> Seq<char> {
    if lists.len() == 0 {
        "• "@
    } else {
        match lists.last() {
            ListKind::Ordered(n) => decimal_text(n as nat) + ". "@,
            ListKind::Unordered => "• "@,
        }
    }
}

/// The lists after an item of the innermost has been numbered.
pub open spec fn lists_after_item(lists: Seq<ListKind>) -> Seq<ListKind> {
    if lists.len() == 0 {
        lists
    } else {
        match lists.last() {
            ListKind::Ordered(n) => lists.update(
                lists.len() - 1,
                ListKind::Ordered(
                    if n == u64::MAX {
                        0
                    } else {
                        (n + 1) as u64
                    },
                ),
            ),
            ListKind::Unordered => lists,
        }
    }
}

/// The caption of an image: its alternative text, or else its source.
pub open spec fn caption(src: Seq<char>, alt: Seq<char>) -> LineView {
    seq![
        span_view("[image] "@, marked(Modifier { dim: true, bold: true, ..Modifier::none() })),
        if trimmed(alt).len() == 0 {
            span_view(src_label(src), marked(Modifier { underlined: true, ..Modifier::none() }))
        } else {
            span_view(trimmed(alt), Style::plain())
        },
    ]
}

/// The text behind the fence that opens a code block, without the blanks around it.
pub open spec fn fence_info(tag: TagView) -> Seq<char> {
    match tag {
        TagView::FencedCode(info) => trimmed(info),
        _ => Seq::empty(),
    }
}

/// The language of a code block.
pub open spec fn block_language(info: Seq<char>) -> Option<Seq<char>> {
    if language_token(info).len() > 0 {
        Some(language_token(info))
    } else {
        None
    }
}

/// The spans of a line of code: moved in, in its colors or, where there are none, dim.
pub open spec fn code_line(line: Seq<char>, colored: LineView, style: Style) -> LineView {
    if colored.len() == 0 {
        seq![span_view("  "@, style), span_view(line, style)]
    } else {
        seq![span_view("  "@, style)] + colored
    }
}

impl Page {
    /// The page before the first event.
    pub open spec fn blank_page() -> Page {
        Page {
            lines: Seq::empty(),
            images: Seq::empty(),
            spans: Seq::empty(),
            styles: seq![Style::plain()],
            lists: Seq::empty(),
            in_code_block: false,
            coloring: None,
            quotes: 0,
            link: None,
            image: None,
            table: None,
        }
    }

    /// The style that text is in.
    pub open spec fn style(self) -> Style {
        if self.styles.len() == 0 {
            Style::plain()
        } else {
            self.styles.last()
        }
    }

    /// The line that is being filled is complete.
    pub open spec fn end_line(self) -> Page {
        Page { lines: self.lines.push(self.spans), spans: Seq::empty(), ..self }
    }

    /// The line that is being filled, if anything is on it, is complete.
    pub open spec fn end_open_line(self) -> Page {
        if self.spans.len() == 0 {
            self
        } else {
            self.end_line()
        }
    }

    /// A complete line is added.
    pub open spec fn add_line(self, line: LineView) -> Page {
        Page { lines: self.lines.push(line), ..self }
    }

    /// What follows stands after a blank line.
    pub open spec fn leave_blank(self) -> Page {
        let page = self.end_open_line();
        if page.lines.len() > 0 && page.lines.last().len() == 0 {
            page
        } else {
            page.add_line(Seq::empty())
        }
    }

    /// A span is added to the line that is being filled.
    pub open spec fn add_span(self, text: Seq<char>, style: Style) -> Page {
        Page { spans: self.spans.push(span_view(text, style)), ..self }
    }

    /// An element in its own style is opened.
    pub open spec fn open_style(self, style: Style) -> Page {
        Page { styles: self.styles.push(style), ..self }
    }

    /// The innermost style is closed.
    pub open spec fn close_style(self) -> Page {
        if self.styles.len() == 0 {
            self
        } else {
            Page { styles: self.styles.drop_last(), ..self }
        }
    }

    /// An image and its caption are added.
    pub open spec fn add_image(
        self,
        src: Seq<char>,
        alt: Seq<char>,
        size: Option<(u32, u32)>,
    ) -> Page {
        Page {
            lines: self.lines.push(caption(src, alt)),
            images: self.images.push(
                ImageView {
                    src,
                    line_index: self.lines.len(),
                    hinted_pixel_size: size,
                },
            ),
            ..self
        }
    }

    /// Images of embedded HTML are added, each with a blank line after it.
    pub open spec fn add_html_images(self, images: Seq<HtmlImageView>) -> Page
        decreases images.len(),
    {
        if images.len() == 0 {
            self
        } else {
            self.add_html_images(images.drop_last()).add_image(
                images.last().src,
                images.last().alt,
                images.last().hinted_pixel_size,
            ).add_line(Seq::empty())
        }
    }

    /// Embedded HTML is added: its images if it has any, else the HTML itself, dim.
    pub open spec fn add_html(self, html: Seq<char>, tools: RenderTools) -> Page {
        let images = html_images(html, tools.patterns);
        if images.len() == 0 {
            self.add_span(html, dim_style())
        } else {
            self.leave_blank().add_html_images(images)
        }
    }

    /// The prefix of a quoted line is added where a line begins.
    pub open spec fn begin_quoted_line(self) -> Page {
        if self.spans.len() == 0 && self.quotes > 0 {
            self.add_span(quote_prefix(self.quotes), dim_style())
        } else {
            self
        }
    }

    /// The spans that the open code block colors a line with.
    pub open spec fn colored(self, line: Seq<char>, tools: RenderTools) -> LineView {
        match (self.coloring, tools.assets) {
            (Some(state), Some(assets)) => line_spans(state, line, assets.syntax_set),
            _ => Seq::empty(),
        }
    }

    /// The coloring after a line.
    pub open spec fn colored_on(self, line: Seq<char>, tools: RenderTools) -> Page {
        match (self.coloring, tools.assets) {
            (Some(state), Some(assets)) => Page {
                coloring: Some(coloring_after(state, line, assets.syntax_set)),
                ..self
            },
            _ => self,
        }
    }

    /// A line of code is added.
    pub open spec fn add_code_line(self, line: Seq<char>, tools: RenderTools) -> Page {
        if line.len() == 0 {
            self.end_line()
        } else {
            let style = self.style().with(Modifier { dim: true, ..Modifier::none() });
            Page {
                spans: self.spans + code_line(line, self.colored(line, tools), style),
                ..self.colored_on(line, tools)
            }.end_line()
        }
    }

    /// Lines of code are added.
    pub open spec fn add_code_lines(self, lines: Seq<Seq<char>>, tools: RenderTools) -> Page
        decreases lines.len(),
    {
        if lines.len() == 0 {
            self
        } else {
            self.add_code_lines(lines.drop_last(), tools).add_code_line(lines.last(), tools)
        }
    }

    /// Text is added.
    pub open spec fn add_text(self, text: Seq<char>, tools: RenderTools) -> Page {
        if self.in_code_block {
            self.add_code_lines(split_text(text, '\n'), tools)
        } else {
            self.begin_quoted_line().add_span(text, self.style())
        }
    }

    /// A code block is opened.
    pub open spec fn open_code_block(self, info: Seq<char>, tools: RenderTools) -> Page {
        let page = self.leave_blank();
        Page {
            in_code_block: true,
            coloring: match tools.assets {
                Some(assets) => coloring_for(assets, block_language(info)),
                None => None,
            },
            ..page.add_line(seq![span_view("```"@ + info, dim_style())])
        }
    }

    /// An item of the innermost list is opened.
    pub open spec fn open_item(self) -> Page {
        let page = self.end_open_line();
        Page { lists: lists_after_item(page.lists), ..page }.add_span(
            list_indent(page.lists) + item_marker(page.lists),
            Style::plain(),
        )
    }

    /// An element is opened.
    pub open spec fn start(self, tag: TagView, tools: RenderTools) -> Page {
        match tag {
            TagView::Heading(level) => self.leave_blank().open_style(heading_style(level)),
            TagView::BlockQuote => Page { quotes: self.quotes + 1, ..self }.begin_quoted_line(),
            TagView::IndentedCode => self.open_code_block(fence_info(tag), tools),
            TagView::FencedCode(_) => self.open_code_block(fence_info(tag), tools),
            TagView::List(first) => Page {
                lists: self.lists.push(
                    match first {
                        Some(n) => ListKind::Ordered(n),
                        None => ListKind::Unordered,
                    },
                ),
                ..self
            },
            TagView::Item => self.open_item(),
            TagView::Emphasis => self.open_style(
                self.style().with(Modifier { italic: true, ..Modifier::none() }),
            ),
            TagView::Strong => self.open_style(
                self.style().with(Modifier { bold: true, ..Modifier::none() }),
            ),
            TagView::Strikethrough => self.open_style(
                self.style().with(Modifier { crossed_out: true, ..Modifier::none() }),
            ),
            TagView::Link(url) => Page {
                link: Some(url),
                ..self.open_style(
                    self.style().with(Modifier { underlined: true, ..Modifier::none() }),
                )
            },
            TagView::Image(url) => Page {
                image: Some((url, Seq::empty())),
                ..self.leave_blank()
            },
            TagView::Table => Page {
                table: Some(
                    TableView {
                        header: Seq::empty(),
                        rows: Seq::empty(),
                        current_row: Seq::empty(),
                    },
                ),
                ..self.leave_blank()
            },
            TagView::FootnoteDefinition(name) => self.leave_blank().add_span(
                "[^"@ + name + "] "@,
                dim_style(),
            ),
        }
    }

    /// A cell, the header, a row or the whole of the open table is complete.
    pub open spec fn end_table_part(self, tag: TagEnd) -> Page {
        match self.table {
            None => self,
            Some(table) => match tag {
                TagEnd::TableCell => Page {
                    table: Some(
                        TableView { current_row: table.current_row.push(self.spans), ..table },
                    ),
                    spans: Seq::empty(),
                    ..self
                },
                TagEnd::TableHead => Page {
                    table: Some(
                        TableView {
                            header: table.current_row,
                            current_row: Seq::empty(),
                            ..table
                        },
                    ),
                    ..self
                },
                TagEnd::TableRow => Page {
                    table: Some(
                        TableView {
                            rows: table.rows.push(table.current_row),
                            current_row: Seq::empty(),
                            ..table
                        },
                    ),
                    ..self
                },
                _ => Page {
                    table: None,
                    lines: (self.lines + drawn_table(table.header, table.rows)).push(Seq::empty()),
                    ..self
                },
            },
        }
    }

    /// The open link is closed: its target follows its text.
    pub open spec fn end_link(self) -> Page {
        let page = self.close_style();
        match page.link {
            Some(url) => Page { link: None, ..page.add_span(" ("@ + url + ")"@, dim_style()) },
            None => page,
        }
    }

    /// An element is closed.
    pub open spec fn end(self, tag: TagEnd) -> Page {
        match tag {
            TagEnd::Paragraph => self.end_line().add_line(Seq::empty()),
            TagEnd::Heading => self.end_line().close_style().add_line(Seq::empty()),
            TagEnd::BlockQuote => {
                let page = self.end_open_line();
                Page {
                    quotes: if page.quotes > 0 {
                        (page.quotes - 1) as nat
                    } else {
                        0
                    },
                    ..page.add_line(Seq::empty())
                }
            },
            TagEnd::CodeBlock => Page {
                in_code_block: false,
                coloring: None,
                ..self.end_open_line().add_line(
                    seq![span_view("```"@, dim_style())],
                ).add_line(Seq::empty())
            },
            TagEnd::List => Page {
                lists: if self.lists.len() > 0 {
                    self.lists.drop_last()
                } else {
                    self.lists
                },
                ..self.add_line(Seq::empty())
            },
            TagEnd::Item => self.end_line(),
            TagEnd::Emphasis => self.close_style(),
            TagEnd::Strong => self.close_style(),
            TagEnd::Strikethrough => self.close_style(),
            TagEnd::Link => self.end_link(),
            TagEnd::Image => self,
            _ => self.end_table_part(tag),
        }
    }

    /// What an event adds to the alternative text of an open image.
    pub open spec fn alt_part(event: EventView) -> Seq<char> {
        match event {
            EventView::Text(text) => text,
            EventView::Code(text) => text,
            EventView::Html(text) => text,
            EventView::InlineHtml(text) => text,
            EventView::InlineMath(text) => text,
            EventView::DisplayMath(text) => text,
            EventView::SoftBreak => seq![' '],
            EventView::HardBreak => seq![' '],
            _ => Seq::empty(),
        }
    }

    /// An event inside an image: everything but its end goes into the alternative text.
    pub open spec fn step_in_image(self, event: EventView) -> Page {
        let (src, alt) = self.image->0;
        if event == EventView::End(TagEnd::Image) {
            Page { image: None, ..self }.add_image(src, alt, None).add_line(Seq::empty())
        } else {
            Page { image: Some((src, alt + Page::alt_part(event))), ..self }
        }
    }

    /// An event outside of images.
    pub open spec fn step_outside(self, event: EventView, tools: RenderTools) -> Page {
        match event {
            EventView::Start(tag) => self.start(tag, tools),
            EventView::End(tag) => self.end(tag),
            EventView::Text(text) => self.add_text(text, tools),
            EventView::Code(text) => self.add_span(" "@ + text + " "@, code_style()),
            EventView::Html(html) => self.add_html(html, tools),
            EventView::InlineHtml(html) => self.add_html(html, tools),
            EventView::SoftBreak => self.add_span(" "@, Style::plain()),
            EventView::HardBreak => self.end_line(),
            EventView::Rule => self.end_line().add_line(
                seq![span_view(repeated("─"@, 72), dim_style())],
            ),
            EventView::TaskListMarker(done) => self.add_span(
                if done {
                    "[x] "@
                } else {
                    "[ ] "@
                },
                marked(Modifier { bold: true, ..Modifier::none() }),
            ),
            EventView::FootnoteReference(name) => self.add_span("[^"@ + name + "]"@, dim_style()),
            EventView::InlineMath(text) => self.add_span(
                "$"@ + text + "$"@,
                marked(Modifier { italic: true, ..Modifier::none() }),
            ),
            EventView::DisplayMath(text) => self.add_span(
                "$"@ + text + "$"@,
                marked(Modifier { italic: true, ..Modifier::none() }),
            ),
            EventView::Other => self,
        }
    }

    /// The page after an event.
    pub open spec fn step(self, event: EventView, tools: RenderTools) -> Page {
        if self.image is Some {
            self.step_in_image(event)
        } else {
            self.step_outside(event, tools)
        }
    }

    /// The page after a run of events.
    pub open spec fn steps(self, events: Seq<EventView>, tools: RenderTools) -> Page
        decreases events.len(),
    {
        if events.len() == 0 {
            self
        } else {
            self.steps(events.drop_last(), tools).step(events.last(), tools)
        }
    }
}

/// What a [`RenderedDoc`] holds.
#[verifier::ext_equal]
pub struct DocView {
    pub lines: Seq<LineView>,
    pub images: Seq<ImageView>,
}

impl View for RenderedDoc {
    type V = DocView;

    open spec fn view(&self) -> DocView {
        DocView { lines: lines_view(self.lines@), images: images_view(self.images@) }
    }
}

/// Lines without the empty ones at the end.
pub open spec fn without_trailing_blanks(lines: Seq<LineView>) -> Seq<LineView>
    decreases lines.len(),
{
    if lines.len() > 0 && lines.last().len() == 0 {
        without_trailing_blanks(lines.drop_last())
    } else {
        lines
    }
}

/// What stands in place of a document without any lines.
pub open spec fn empty_notice() -> LineView {
    seq![span_view("(empty markdown file)"@, dim_style())]
}

impl Page {
    /// The document when there are no more events.
    pub open spec fn finished(self) -> DocView {
        let page = match self.image {
            Some((src, alt)) => self.end_open_line().add_image(src, alt, None),
            None => self.end_open_line(),
        };
        let lines = without_trailing_blanks(page.lines);
        DocView {
            lines: if lines.len() == 0 {
                seq![empty_notice()]
            } else {
                lines
            },
            images: page.images,
        }
    }
}

/// The document that a run of events is laid out to.
pub open spec fn laid_out(events: Seq<EventView>, tools: RenderTools) -> DocView {
    Page::blank_page().steps(events, tools).finished()
}

/// Whether every image's caption stands on the line that the image names, no two on one line, in
/// the order of the images.
pub open spec fn captions_stand(lines: Seq<LineView>, images: Seq<ImageView>) -> bool {
    &&& forall|i: int|
        #![trigger images[i]]
        0 <= i < images.len() ==> images[i].line_index < lines.len() && is_caption(
            lines[images[i].line_index as int],
        )
    &&& forall|i: int, j: int|
        #![trigger images[i], images[j]]
        0 <= i < j < images.len() ==> images[i].line_index < images[j].line_index
}

/// Whether a line is the caption of an image.
pub open spec fn is_caption(line: LineView) -> bool {
    exists|src: Seq<char>, alt: Seq<char>| line == #[trigger] caption(src, alt)
}

/// Whether `b` continues `a`: nothing that was laid out is lost, and what comes with it is whole.
pub open spec fn continues(a: Page, b: Page) -> bool {
    &&& captions_stand(a.lines, a.images) ==> captions_stand(b.lines, b.images)
    &&& a.lines.len() <= b.lines.len()
    &&& b.lines.take(a.lines.len() as int) == a.lines
    &&& a.images.len() <= b.images.len()
    &&& b.images.take(a.images.len() as int) == a.images
    &&& b.quotes <= a.quotes + 1
}

proof fn lemma_add_lines(page: Page, more: Seq<LineView>)
    ensures
        captions_stand(page.lines, page.images) ==> captions_stand(
            page.lines + more,
            page.images,
        ),
        (page.lines + more).take(page.lines.len() as int) == page.lines,
{
    assert((page.lines + more).take(page.lines.len() as int) =~= page.lines);
}

proof fn lemma_add_line(page: Page, line: LineView)
    ensures
        captions_stand(page.lines, page.images) ==> captions_stand(
            page.lines.push(line),
            page.images,
        ),
        page.lines.push(line).take(page.lines.len() as int) == page.lines,
        page.images.take(page.images.len() as int) == page.images,
{
    assert(page.lines.push(line).take(page.lines.len() as int) =~= page.lines);
    assert(page.images.take(page.images.len() as int) =~= page.images);
}

proof fn lemma_continues_transitive(a: Page, b: Page, c: Page)
    requires
        continues(a, b),
        continues(b, c),
        c.quotes <= a.quotes + 1,
    ensures
        continues(a, c),
{
    assert(c.lines.take(a.lines.len() as int) =~= b.lines.take(a.lines.len() as int));
    assert(c.images.take(a.images.len() as int) =~= b.images.take(a.images.len() as int));
}

pub proof fn lemma_image_continues(
    page: Page,
    src: Seq<char>,
    alt: Seq<char>,
    size: Option<(u32, u32)>,
)
    ensures
        continues(page, page.add_image(src, alt, size)),
{
    let next = page.add_image(src, alt, size);
    lemma_add_line(page, caption(src, alt));
    assert(next.images.take(page.images.len() as int) =~= page.images);
    assert(is_caption(next.lines[page.lines.len() as int]));
}

proof fn lemma_line_continues(page: Page, line: LineView)
    ensures
        continues(page, page.add_line(line)),
{
    lemma_add_line(page, line);
}

proof fn lemma_blank_continues(page: Page)
    ensures
        continues(page, page.end_line()),
        continues(page, page.end_open_line()),
        continues(page, page.leave_blank()),
        page.leave_blank().quotes == page.quotes,
        page.leave_blank().image == page.image,
        page.leave_blank().table == page.table,
        page.leave_blank().coloring == page.coloring,
{
    assert(page.lines.take(page.lines.len() as int) =~= page.lines);
    lemma_add_line(page, page.spans);
    let open = page.end_open_line();
    lemma_line_continues(open, Seq::empty());
    assert(open.lines.take(open.lines.len() as int) =~= open.lines);
    assert(open.images.take(open.images.len() as int) =~= open.images);
    lemma_continues_transitive(page, open, page.leave_blank());
}

proof fn lemma_html_images_continue(page: Page, images: Seq<HtmlImageView>)
    ensures
        continues(page, page.add_html_images(images)),
        page.add_html_images(images).quotes == page.quotes,
        page.add_html_images(images).coloring == page.coloring,
    decreases images.len(),
{
    if images.len() == 0 {
        lemma_blank_continues(page);
        assert(page.lines.take(page.lines.len() as int) =~= page.lines);
    } else {
        let before = page.add_html_images(images.drop_last());
        lemma_html_images_continue(page, images.drop_last());
        let last = images.last();
        let captioned = before.add_image(last.src, last.alt, last.hinted_pixel_size);
        lemma_image_continues(before, last.src, last.alt, last.hinted_pixel_size);
        lemma_line_continues(captioned, Seq::empty());
        lemma_continues_transitive(before, captioned, captioned.add_line(Seq::empty()));
        lemma_continues_transitive(page, before, captioned.add_line(Seq::empty()));
    }
}

proof fn lemma_code_lines_continue(page: Page, lines: Seq<Seq<char>>, tools: RenderTools)
    ensures
        continues(page, page.add_code_lines(lines, tools)),
        page.add_code_lines(lines, tools).quotes == page.quotes,
        page.coloring is None ==> page.add_code_lines(lines, tools).coloring is None,
    decreases lines.len(),
{
    if lines.len() == 0 {
        lemma_blank_continues(page);
        assert(page.lines.take(page.lines.len() as int) =~= page.lines);
    } else {
        let before = page.add_code_lines(lines.drop_last(), tools);
        lemma_code_lines_continue(page, lines.drop_last(), tools);
        let after = before.add_code_line(lines.last(), tools);
        lemma_add_line(before, after.lines.last());
        assert(after.lines =~= before.lines.push(after.lines.last()));
        lemma_continues_transitive(page, before, after);
    }
}

proof fn lemma_table_continues(page: Page, tag: TagEnd)
    ensures
        continues(page, page.end_table_part(tag)),
        page.end_table_part(tag).coloring == page.coloring,
{
    assert(page.lines.take(page.lines.len() as int) =~= page.lines);
    assert(page.images.take(page.images.len() as int) =~= page.images);
    if page.table is Some {
        let drawn = drawn_table(page.table->0.header, page.table->0.rows);
        lemma_add_lines(page, drawn.push(Seq::empty()));
        assert((page.lines + drawn).push(Seq::empty()) =~= page.lines + drawn.push(Seq::empty()));
    }
}

proof fn lemma_start_continues(page: Page, tag: TagView, tools: RenderTools)
    ensures
        continues(page, page.start(tag, tools)),
{
    lemma_blank_continues(page);
    assert(page.lines.take(page.lines.len() as int) =~= page.lines);
    assert(page.images.take(page.images.len() as int) =~= page.images);
    let blank = page.leave_blank();
    match tag {
        TagView::IndentedCode => {
            let info = fence_info(tag);
            let line = seq![span_view("```"@ + info, dim_style())];
            lemma_line_continues(blank, line);
            lemma_continues_transitive(page, blank, page.start(tag, tools));
        },
        TagView::FencedCode(_) => {
            let info = fence_info(tag);
            let line = seq![span_view("```"@ + info, dim_style())];
            lemma_line_continues(blank, line);
            lemma_continues_transitive(page, blank, page.start(tag, tools));
        },
        _ => {},
    }
}

proof fn lemma_end_continues(page: Page, tag: TagEnd)
    ensures
        continues(page, page.end(tag)),
{
    lemma_blank_continues(page);
    lemma_table_continues(page, tag);
    assert(page.lines.take(page.lines.len() as int) =~= page.lines);
    let closed = page.end_line();
    lemma_line_continues(closed, Seq::empty());
    lemma_continues_transitive(page, closed, closed.add_line(Seq::empty()));
    let open = page.end_open_line();
    lemma_line_continues(open, Seq::empty());
    lemma_continues_transitive(page, open, open.add_line(Seq::empty()));
    let fence = open.add_line(seq![span_view("```"@, dim_style())]);
    lemma_line_continues(open, seq![span_view("```"@, dim_style())]);
    lemma_line_continues(fence, Seq::empty());
    lemma_continues_transitive(page, open, fence);
    lemma_continues_transitive(page, fence, fence.add_line(Seq::empty()));
    lemma_line_continues(page, Seq::empty());
}

/// An event only ever adds to a page: the lines and the images that were there stay as they are,
/// and images keep the lines of their captions.
pub proof fn law_step_continues(page: Page, event: EventView, tools: RenderTools)
    ensures
        continues(page, page.step(event, tools)),
{
    assert(page.lines.take(page.lines.len() as int) =~= page.lines);
    assert(page.images.take(page.images.len() as int) =~= page.images);
    lemma_blank_continues(page);
    if page.image is Some {
        let (src, alt) = page.image->0;
        let closed = Page { image: None, ..page };
        lemma_image_continues(closed, src, alt, None);
        let captioned = closed.add_image(src, alt, None);
        lemma_line_continues(captioned, Seq::empty());
        lemma_continues_transitive(closed, captioned, captioned.add_line(Seq::empty()));
    } else {
        match event {
            EventView::Start(tag) => lemma_start_continues(page, tag, tools),
            EventView::End(tag) => lemma_end_continues(page, tag),
            EventView::Text(text) => {
                lemma_code_lines_continue(page, split_text(text, '\n'), tools);
            },
            EventView::Html(html) => {
                let blank = page.leave_blank();
                let images = html_images(html, tools.patterns);
                lemma_html_images_continue(blank, images);
                lemma_continues_transitive(page, blank, blank.add_html_images(images));
            },
            EventView::InlineHtml(html) => {
                let blank = page.leave_blank();
                let images = html_images(html, tools.patterns);
                lemma_html_images_continue(blank, images);
                lemma_continues_transitive(page, blank, blank.add_html_images(images));
            },
            EventView::Rule => {
                let closed = page.end_line();
                let rule = seq![span_view(repeated("─"@, 72), dim_style())];
                lemma_line_continues(closed, rule);
                lemma_continues_transitive(page, closed, closed.add_line(rule));
            },
            _ => {},
        }
    }
}

/// Whether an event opens a code block that may name a language.
pub open spec fn may_color(event: EventView) -> bool {
    event matches EventView::Start(TagView::FencedCode(_))
}

/// The same tools without colors for code.
pub open spec fn without_colors(tools: RenderTools) -> RenderTools {
    RenderTools { assets: None, ..tools }
}

proof fn lemma_code_lines_uncolored(page: Page, lines: Seq<Seq<char>>, tools: RenderTools)
    requires
        page.coloring is None,
    ensures
        page.add_code_lines(lines, tools) == page.add_code_lines(lines, without_colors(tools)),
    decreases lines.len(),
{
    if lines.len() > 0 {
        lemma_code_lines_uncolored(page, lines.drop_last(), tools);
        lemma_code_lines_continue(page, lines.drop_last(), tools);
    }
}

proof fn lemma_no_language_for_indented_code()
    ensures
        block_language(Seq::empty()) is None,
{
    assert(trimmed_start(Seq::<char>::empty()) =~= Seq::<char>::empty());
    assert(language_token(Seq::empty()) =~= Seq::<char>::empty());
}

/// Colors for code make no difference where no event opens a fenced code block.
pub proof fn law_colors_need_fences(events: Seq<EventView>, tools: RenderTools)
    requires
        forall|i: int| 0 <= i < events.len() ==> !may_color(#[trigger] events[i]),
    ensures
        Page::blank_page().steps(events, tools) == Page::blank_page().steps(
            events,
            without_colors(tools),
        ),
        Page::blank_page().steps(events, tools).coloring is None,
    decreases events.len(),
{
    if events.len() > 0 {
        law_colors_need_fences(events.drop_last(), tools);
        let page = Page::blank_page().steps(events.drop_last(), tools);
        let event = events.last();
        assert(!may_color(events[events.len() - 1]));
        if page.image is None {
            match event {
                EventView::Start(tag) => {
                    lemma_no_language_for_indented_code();
                },
                EventView::End(tag) => {
                    lemma_table_continues(page, tag);
                },
                EventView::Text(text) => {
                    lemma_code_lines_uncolored(page, split_text(text, '\n'), tools);
                    lemma_code_lines_continue(page, split_text(text, '\n'), tools);
                },
                EventView::Html(html) => {
                    lemma_html_images_continue(
                        page.leave_blank(),
                        html_images(html, tools.patterns),
                    );
                },
                EventView::InlineHtml(html) => {
                    lemma_html_images_continue(
                        page.leave_blank(),
                        html_images(html, tools.patterns),
                    );
                },
                _ => {},
            }
        }
    }
}

/// Lays out a document on a page.
pub struct Renderer<'a> {
    lines: Vec<Line>,
    images: Vec<RenderedImage>,
    spans: Vec<Span>,
    styles: Vec<Style>,
    lists: Vec<ListKind>,
    in_code_block: bool,
    coloring: Option<HighlightLines<'a>>,
    quotes: usize,
    link: Option<String>,
    image: Option<(String, String)>,
    table: Option<TableBuf>,
}

impl<'a> View for Renderer<'a> {
    type V = Page;

    closed spec fn view(&self) -> Page {
        Page {
            lines: lines_view(self.lines@),
            images: images_view(self.images@),
            spans: spans_view(self.spans@),
            styles: self.styles@,
            lists: self.lists@,
            in_code_block: self.in_code_block,
            coloring: self.coloring,
            quotes: self.quotes as nat,
            link: match self.link {
                Some(url) => Some(url@),
                None => None,
            },
            image: match self.image {
                Some((src, alt)) => Some((src@, alt@)),
                None => None,
            },
            table: match self.table {
                Some(table) => Some(table@),
                None => None,
            },
        }
    }
}

/// Whether the coloring of a page, if there is one, goes with the tools.
pub open spec fn fits_tools(page: Page, tools: RenderTools) -> bool {
    page.coloring is Some ==> tools.assets is Some && is_coloring_with(
        page.coloring->0,
        tools.assets->0.syntax_set,
    )
}

impl<'a> Renderer<'a> {
    /// An empty page.
    pub fn new() -> (renderer: Renderer<'a>)
        ensures
            renderer@ == Page::blank_page(),
    {
        let mut styles: Vec<Style> = Vec::new();
        styles.push(Style::new());
        let renderer = Renderer {
            lines: Vec::new(),
            images: Vec::new(),
            spans: Vec::new(),
            styles,
            lists: Vec::new(),
            in_code_block: false,
            coloring: None,
            quotes: 0,
            link: None,
            image: None,
            table: None,
        };
        assert(renderer@ =~= Page::blank_page());
        renderer
    }

    /// The style that text is in.
    fn style(&self) -> (style: Style)
        ensures
            style == self@.style(),
    {
        if self.styles.len() == 0 {
            Style::new()
        } else {
            self.styles[self.styles.len() - 1]
        }
    }

    /// The line that is being filled is complete.
    fn end_line(&mut self)
        ensures
            final(self)@ == old(self)@.end_line(),
    {
        broadcast use group_text_views;

        let mut spans: Vec<Span> = Vec::new();
        std::mem::swap(&mut spans, &mut self.spans);
        self.lines.push(Line { spans });
        assert(self@.spans =~= LineView::empty());
        assert(self@ =~= old(self)@.end_line());
    }

    /// The line that is being filled, if anything is on it, is complete.
    fn end_open_line(&mut self)
        ensures
            final(self)@ == old(self)@.end_open_line(),
    {
        if !self.spans.is_empty() {
            self.end_line();
        }
    }

    /// A complete line is added.
    fn add_line(&mut self, line: Line)
        ensures
            final(self)@ == old(self)@.add_line(line@),
    {
        broadcast use group_text_views;

        self.lines.push(line);
        assert(self@ =~= old(self)@.add_line(line@));
    }

    /// An empty line is added.
    fn add_empty_line(&mut self)
        ensures
            final(self)@ == old(self)@.add_line(Seq::empty()),
    {
        self.add_line(Line::empty());
    }

    /// What follows stands after a blank line.
    fn leave_blank(&mut self)
        ensures
            final(self)@ == old(self)@.leave_blank(),
    {
        self.end_open_line();
        let blank = self.lines.len() > 0 && self.lines[self.lines.len() - 1].spans.is_empty();
        assert(self.lines@.len() > 0 ==> self@.lines.last() == self.lines@.last()@);
        if !blank {
            self.add_empty_line();
        }
    }

    /// A span is added to the line that is being filled.
    fn add_span(&mut self, text: String, style: Style)
        ensures
            final(self)@ == old(self)@.add_span(text@, style),
    {
        broadcast use group_text_views;

        self.spans.push(Span::styled(text, style));
        assert(self@ =~= old(self)@.add_span(text@, style));
    }

    /// An element in its own style is opened.
    fn open_style(&mut self, style: Style)
        ensures
            final(self)@ == old(self)@.open_style(style),
    {
        self.styles.push(style);
        assert(self@ =~= old(self)@.open_style(style));
    }

    /// An element is opened that adds attributes to the style around it.
    fn open_modifier(&mut self, modifier: Modifier)
        ensures
            final(self)@ == old(self)@.open_style(old(self)@.style().with(modifier)),
    {
        let style = self.style().add_modifier(modifier);
        self.open_style(style);
    }

    /// The innermost style is closed.
    fn close_style(&mut self)
        ensures
            final(self)@ == old(self)@.close_style(),
    {
        let _ = self.styles.pop();
        assert(self@ =~= old(self)@.close_style());
    }

    /// An image and its caption are added.
    fn add_image(&mut self, src: String, alt: &str, size: Option<(u32, u32)>)
        ensures
            final(self)@ == old(self)@.add_image(src@, alt@, size),
    {
        broadcast use group_text_views;

        let text = trim(alt);
        let line_index = self.lines.len();
        let mut spans: Vec<Span> = Vec::new();
        spans.push(
            Span::styled(
                owned("[image] "),
                Style::new().add_modifier(Modifier::dim().union(Modifier::bold())),
            ),
        );
        if text.as_str().is_empty() {
            spans.push(
                Span::styled(
                    display_src_label(src.as_str()),
                    Style::new().add_modifier(Modifier::underlined()),
                ),
            );
        } else {
            spans.push(Span::raw(text));
        }
        assert(spans_view(spans@) =~= caption(src@, alt@));
        let ghost image = RenderedImage { src, line_index, hinted_pixel_size: size };
        self.lines.push(Line { spans });
        self.images.push(RenderedImage { src, line_index, hinted_pixel_size: size });
        assert(self@.images =~= old(self)@.images.push(image@));
        assert(self@ =~= old(self)@.add_image(src@, alt@, size));
    }

    /// Images of embedded HTML are added, each with a blank line after it.
    fn add_html_images(&mut self, images: &Vec<HtmlImageTag>)
        ensures
            final(self)@ == old(self)@.add_html_images(html_images_view(images@)),
            final(self)@.coloring == old(self)@.coloring,
    {
        let ghost all = html_images_view(images@);
        let mut i: usize = 0;
        assert(all.take(0) == Seq::<HtmlImageView>::empty());
        while i < images.len()
            invariant
                i <= images@.len(),
                all == html_images_view(images@),
                self@ == old(self)@.add_html_images(all.take(i as int)),
                self@.coloring == old(self)@.coloring,
            decreases images.len() - i,
        {
            assert(all.take(i + 1).drop_last() == all.take(i as int));
            let image = &images[i];
            self.add_image(owned(image.src.as_str()), image.alt.as_str(), image.hinted_pixel_size);
            self.add_empty_line();
            i += 1;
        }
        assert(all.take(i as int) == all);
    }

    /// Embedded HTML is added: its images if it has any, else the HTML itself, dim.
    fn add_html(&mut self, html: &str, tools: &'a RenderTools)
        ensures
            final(self)@ == old(self)@.add_html(html@, *tools),
            final(self)@.coloring == old(self)@.coloring,
    {
        let images = extract_html_images(html, &tools.patterns);
        if images.is_empty() {
            self.add_span(owned(html), Style::new().add_modifier(Modifier::dim()));
        } else {
            self.leave_blank();
            self.add_html_images(&images);
        }
    }

    /// The prefix of a quoted line is added where a line begins.
    fn begin_quoted_line(&mut self)
        ensures
            final(self)@ == old(self)@.begin_quoted_line(),
    {
        if self.spans.is_empty() && self.quotes > 0 {
            let mut prefix = repeat("  ", self.quotes - 1);
            prefix.append("│ ");
            self.add_span(prefix, Style::new().add_modifier(Modifier::dim()));
        }
    }

    /// The spans that the open code block colors a line with; the coloring moves on.
    fn color_line(&mut self, line: &str, tools: &'a RenderTools) -> (colored: Vec<Span>)
        requires
            fits_tools(old(self)@, *tools),
        ensures
            spans_view(colored@) == old(self)@.colored(line@, *tools),
            final(self)@ == old(self)@.colored_on(line@, *tools),
            fits_tools(final(self)@, *tools),
    {
        let mut state: Option<HighlightLines<'a>> = None;
        std::mem::swap(&mut state, &mut self.coloring);
        match (state, &tools.assets) {
            (Some(mut state), Some(assets)) => {
                let colored = highlight_code_line(line, &mut state, &assets.syntax_set);
                self.coloring = Some(state);
                assert(self@ =~= old(self)@.colored_on(line@, *tools));
                colored
            },
            _ => {
                let colored: Vec<Span> = Vec::new();
                assert(spans_view(colored@) =~= LineView::empty());
                assert(self@ =~= old(self)@);
                colored
            },
        }
    }

    /// A line of code is added.
    fn add_code_line(&mut self, line: &str, tools: &'a RenderTools)
        requires
            fits_tools(old(self)@, *tools),
        ensures
            final(self)@ == old(self)@.add_code_line(line@, *tools),
            fits_tools(final(self)@, *tools),
    {
        broadcast use group_text_views;

        if !line.is_empty() {
            let style = self.style().add_modifier(Modifier::dim());
            let colored = self.color_line(line, tools);
            let mut spans = code_line_spans(line, colored, style);
            self.spans.append(&mut spans);
            assert(self@ =~= Page {
                spans: old(self)@.spans + code_line(
                    line@,
                    old(self)@.colored(line@, *tools),
                    style,
                ),
                ..old(self)@.colored_on(line@, *tools)
            });
        }
        self.end_line();
    }

    /// Text of a code block is added, line by line.
    fn append_code_block_text(&mut self, text: &str, tools: &'a RenderTools)
        requires
            fits_tools(old(self)@, *tools),
        ensures
            final(self)@ == old(self)@.add_code_lines(split_text(text@, '\n'), *tools),
            fits_tools(final(self)@, *tools),
    {
        let lines = split(text, '\n');
        let ghost all = strings_view(lines@);
        let mut i: usize = 0;
        assert(all.take(0) == Seq::<Seq<char>>::empty());
        while i < lines.len()
            invariant
                i <= lines@.len(),
                all == strings_view(lines@),
                fits_tools(self@, *tools),
                self@ == old(self)@.add_code_lines(all.take(i as int), *tools),
            decreases lines.len() - i,
        {
            assert(all.take(i + 1).drop_last() == all.take(i as int));
            self.add_code_line(lines[i].as_str(), tools);
            i += 1;
        }
        assert(all.take(i as int) == all);
    }

    /// Text is added.
    fn add_text(&mut self, text: &str, tools: &'a RenderTools)
        requires
            fits_tools(old(self)@, *tools),
        ensures
            final(self)@ == old(self)@.add_text(text@, *tools),
            fits_tools(final(self)@, *tools),
    {
        if self.in_code_block {
            self.append_code_block_text(text, tools);
        } else {
            let style = self.style();
            self.begin_quoted_line();
            self.add_span(owned(text), style);
        }
    }
}

impl<'a> Renderer<'a> {
    /// A code block is opened.
    fn open_code_block(&mut self, info: &str, tools: &'a RenderTools)
        ensures
            final(self)@ == old(self)@.open_code_block(info@, *tools),
            fits_tools(final(self)@, *tools),
    {
        broadcast use group_text_views;

        self.leave_blank();
        let mut fence = owned("```");
        fence.append(info);
        let header = Span::styled(fence, Style::new().add_modifier(Modifier::dim()));
        self.add_line(Line::of_span(header));
        self.in_code_block = true;
        self.coloring = match &tools.assets {
            Some(assets) => new_code_highlighter(extract_code_block_language_token(info), assets),
            None => None,
        };
        assert(self@ =~= old(self)@.open_code_block(info@, *tools));
    }

    /// An item of the innermost list is opened.
    fn open_item(&mut self)
        ensures
            final(self)@ == old(self)@.open_item(),
    {
        self.end_open_line();
        let ghost before = self@;
        let depth = self.lists.len();
        let mut text = repeat(
            "  ",
            if depth > 0 {
                depth - 1
            } else {
                0
            },
        );
        if depth == 0 {
            text.append("• ");
        } else {
            match self.lists[depth - 1] {
                ListKind::Ordered(n) => {
                    let mut marker = decimal(n);
                    marker.append(". ");
                    text.append(marker.as_str());
                    self.lists.set(depth - 1, ListKind::Ordered(n.wrapping_add(1)));
                },
                ListKind::Unordered => {
                    text.append("• ");
                },
            }
        }
        assert(self@ =~= Page { lists: lists_after_item(before.lists), ..before });
        self.add_span(text, Style::new());
    }

    /// An element is opened.
    fn start(&mut self, tag: &Tag, tools: &'a RenderTools)
        requires
            old(self)@.quotes < usize::MAX,
            fits_tools(old(self)@, *tools),
        ensures
            final(self)@ == old(self)@.start(tag@, *tools),
            fits_tools(final(self)@, *tools),
    {
        match tag {
            Tag::Heading(level) => {
                self.leave_blank();
                self.open_style(style_of_heading(*level));
            },
            Tag::BlockQuote => {
                self.quotes += 1;
                assert(self@ =~= Page { quotes: old(self)@.quotes + 1, ..old(self)@ });
                self.begin_quoted_line();
            },
            Tag::IndentedCode => {
                let info = String::new();
                self.open_code_block(info.as_str(), tools);
            },
            Tag::FencedCode(info) => {
                let info = trim(info.as_str());
                self.open_code_block(info.as_str(), tools);
            },
            Tag::List(first) => {
                self.lists.push(
                    match *first {
                        Some(n) => ListKind::Ordered(n),
                        None => ListKind::Unordered,
                    },
                );
                assert(self@ =~= old(self)@.start(tag@, *tools));
            },
            Tag::Item => self.open_item(),
            Tag::Emphasis => self.open_modifier(Modifier::italic()),
            Tag::Strong => self.open_modifier(Modifier::bold()),
            Tag::Strikethrough => self.open_modifier(Modifier::crossed_out()),
            Tag::Link(url) => {
                self.open_modifier(Modifier::underlined());
                self.link = Some(owned(url.as_str()));
                assert(self@ =~= old(self)@.start(tag@, *tools));
            },
            Tag::Image(url) => {
                self.leave_blank();
                self.image = Some((owned(url.as_str()), String::new()));
                assert(self@ =~= old(self)@.start(tag@, *tools));
            },
            Tag::Table => {
                self.leave_blank();
                let table = TableBuf {
                    header: Vec::new(),
                    rows: Vec::new(),
                    current_row: Vec::new(),
                };
                assert(row_view(table.header@) =~= RowView::empty());
                assert(rows_view(table.rows@) =~= Seq::<RowView>::empty());
                self.table = Some(table);
                assert(self@ =~= old(self)@.start(tag@, *tools));
            },
            Tag::FootnoteDefinition(name) => {
                self.leave_blank();
                let mut text = owned("[^");
                text.append(name.as_str());
                text.append("] ");
                self.add_span(text, Style::new().add_modifier(Modifier::dim()));
            },
        }
    }

    /// A cell, the header, a row or the whole of the open table is complete.
    fn end_table_part(&mut self, tag: TagEnd)
        ensures
            final(self)@ == old(self)@.end_table_part(tag),
    {
        broadcast use {group_text_views, lemma_row_push, lemma_rows_push};

        let mut open: Option<TableBuf> = None;
        std::mem::swap(&mut open, &mut self.table);
        if let Some(mut table) = open {
            let ghost before = table@;
            match tag {
                TagEnd::TableCell => {
                    let mut spans: Vec<Span> = Vec::new();
                    std::mem::swap(&mut spans, &mut self.spans);
                    table.current_row.push(spans);
                    self.table = Some(table);
                    assert(self@.spans =~= LineView::empty());
                    assert(self@ =~= old(self)@.end_table_part(tag));
                },
                TagEnd::TableHead => {
                    let mut row: Vec<Vec<Span>> = Vec::new();
                    std::mem::swap(&mut row, &mut table.current_row);
                    table.header = row;
                    assert(table@.current_row =~= RowView::empty());
                    self.table = Some(table);
                    assert(self@ =~= old(self)@.end_table_part(tag));
                },
                TagEnd::TableRow => {
                    let mut row: Vec<Vec<Span>> = Vec::new();
                    std::mem::swap(&mut row, &mut table.current_row);
                    table.rows.push(row);
                    assert(table@.current_row =~= RowView::empty());
                    self.table = Some(table);
                    assert(self@ =~= old(self)@.end_table_part(tag));
                },
                _ => {
                    let mut lines = render_table(&table.header, &table.rows);
                    let ghost drawn = lines@;
                    self.lines.append(&mut lines);
                    assert(lines_view(self.lines@) =~= lines_view(old(self).lines@) + lines_view(
                        drawn,
                    ));
                    self.add_empty_line();
                    assert(self@ =~= old(self)@.end_table_part(tag));
                },
            }
        } else {
            assert(self@ =~= old(self)@);
        }
    }

    /// The open link is closed: its target follows its text.
    fn end_link(&mut self)
        ensures
            final(self)@ == old(self)@.end_link(),
    {
        self.close_style();
        let mut open: Option<String> = None;
        std::mem::swap(&mut open, &mut self.link);
        if let Some(url) = open {
            let mut text = owned(" (");
            text.append(url.as_str());
            text.append(")");
            self.add_span(text, Style::new().add_modifier(Modifier::dim()));
        }
        assert(self@ =~= old(self)@.end_link());
    }

    /// An element is closed.
    fn end(&mut self, tag: TagEnd)
        ensures
            final(self)@ == old(self)@.end(tag),
    {
        broadcast use group_text_views;

        match tag {
            TagEnd::Paragraph => {
                self.end_line();
                self.add_empty_line();
            },
            TagEnd::Heading => {
                self.end_line();
                self.close_style();
                self.add_empty_line();
            },
            TagEnd::BlockQuote => {
                self.end_open_line();
                self.quotes = self.quotes.saturating_sub(1);
                self.add_empty_line();
                assert(self@ =~= old(self)@.end(tag));
            },
            TagEnd::CodeBlock => {
                self.end_open_line();
                let fence = Span::styled(owned("```"), Style::new().add_modifier(Modifier::dim()));
                self.add_line(Line::of_span(fence));
                self.add_empty_line();
                self.in_code_block = false;
                self.coloring = None;
                assert(self@ =~= old(self)@.end(tag));
            },
            TagEnd::List => {
                let _ = self.lists.pop();
                self.add_empty_line();
                assert(self@ =~= old(self)@.end(tag));
            },
            TagEnd::Item => self.end_line(),
            TagEnd::Emphasis => self.close_style(),
            TagEnd::Strong => self.close_style(),
            TagEnd::Strikethrough => self.close_style(),
            TagEnd::Link => self.end_link(),
            TagEnd::Image => {},
            _ => self.end_table_part(tag),
        }
    }

    /// An event inside an image: everything but its end goes into the alternative text.
    fn step_in_image(&mut self, event: &MarkdownEvent)
        requires
            old(self)@.image is Some,
        ensures
            final(self)@ == old(self)@.step_in_image(event@),
    {
        let mut open: Option<(String, String)> = None;
        std::mem::swap(&mut open, &mut self.image);
        if let Some((src, mut alt)) = open {
            match event {
                MarkdownEvent::End(TagEnd::Image) => {
                    self.add_image(src, alt.as_str(), None);
                    self.add_empty_line();
                    assert(self@ =~= old(self)@.step_in_image(event@));
                    return;
                },
                MarkdownEvent::Text(text)
                | MarkdownEvent::Code(text)
                | MarkdownEvent::Html(text)
                | MarkdownEvent::InlineHtml(text)
                | MarkdownEvent::InlineMath(text)
                | MarkdownEvent::DisplayMath(text) => alt.append(text.as_str()),
                MarkdownEvent::SoftBreak | MarkdownEvent::HardBreak => alt.push(' '),
                _ => {},
            }
            assert(alt@ =~= (old(self)@.image->0).1 + Page::alt_part(event@));
            self.image = Some((src, alt));
            assert(self@ =~= old(self)@.step_in_image(event@));
        }
    }

    /// An event outside of images.
    fn step_outside(&mut self, event: &MarkdownEvent, tools: &'a RenderTools)
        requires
            old(self)@.quotes < usize::MAX,
            fits_tools(old(self)@, *tools),
        ensures
            final(self)@ == old(self)@.step_outside(event@, *tools),
            fits_tools(final(self)@, *tools),
    {
        broadcast use group_text_views;

        match event {
            MarkdownEvent::Start(tag) => self.start(tag, tools),
            MarkdownEvent::End(tag) => self.end(*tag),
            MarkdownEvent::Text(text) => self.add_text(text.as_str(), tools),
            MarkdownEvent::Code(text) => {
                let style = Style::new().fg(Color::Rgb(200, 200, 200)).bg(Color::Rgb(45, 45, 45));
                self.add_span(between(" ", text.as_str(), " "), style);
            },
            MarkdownEvent::Html(html) | MarkdownEvent::InlineHtml(html) => self.add_html(
                html.as_str(),
                tools,
            ),
            MarkdownEvent::SoftBreak => self.add_span(owned(" "), Style::new()),
            MarkdownEvent::HardBreak => self.end_line(),
            MarkdownEvent::Rule => {
                self.end_line();
                let rule = Span::styled(
                    repeat("─", 72),
                    Style::new().add_modifier(Modifier::dim()),
                );
                self.add_line(Line::of_span(rule));
            },
            MarkdownEvent::TaskListMarker(done) => {
                let marker = if *done {
                    "[x] "
                } else {
                    "[ ] "
                };
                self.add_span(owned(marker), Style::new().add_modifier(Modifier::bold()));
            },
            MarkdownEvent::FootnoteReference(name) => self.add_span(
                between("[^", name.as_str(), "]"),
                Style::new().add_modifier(Modifier::dim()),
            ),
            MarkdownEvent::InlineMath(text) | MarkdownEvent::DisplayMath(text) => self.add_span(
                between("$", text.as_str(), "$"),
                Style::new().add_modifier(Modifier::italic()),
            ),
            MarkdownEvent::Other => {},
        }
    }

    /// Lays out one event.
    pub fn step(&mut self, event: &MarkdownEvent, tools: &'a RenderTools)
        requires
            old(self)@.quotes < usize::MAX,
            fits_tools(old(self)@, *tools),
        ensures
            final(self)@ == old(self)@.step(event@, *tools),
            fits_tools(final(self)@, *tools),
    {
        if self.image.is_some() {
            self.step_in_image(event);
        } else {
            self.step_outside(event, tools);
        }
    }
}

impl<'a> Renderer<'a> {
    /// The document when there are no more events.
    pub fn finish(self) -> (doc: RenderedDoc)
        ensures
            doc@ == self@.finished(),
    {
        broadcast use group_text_views;

        let mut page = self;
        page.end_open_line();
        let mut open: Option<(String, String)> = None;
        std::mem::swap(&mut open, &mut page.image);
        if let Some((src, alt)) = open {
            page.add_image(src, alt.as_str(), None);
        }
        let Renderer { mut lines, images, .. } = page;
        let ghost all = lines_view(lines@);
        while lines.len() > 0 && lines[lines.len() - 1].spans.is_empty()
            invariant
                without_trailing_blanks(lines_view(lines@)) == without_trailing_blanks(all),
            decreases lines.len(),
        {
            assert(lines_view(lines@).last() == lines@.last()@);
            assert(lines_view(lines@).drop_last() =~= lines_view(lines@.drop_last()));
            let _ = lines.pop();
        }
        assert(lines@.len() > 0 ==> lines_view(lines@).last() == lines@.last()@);
        if lines.is_empty() {
            let notice = Span::styled(
                owned("(empty markdown file)"),
                Style::new().add_modifier(Modifier::dim()),
            );
            lines.push(Line::of_span(notice));
            assert(lines_view(lines@) =~= seq![empty_notice()]);
        }
        RenderedDoc { lines, images }
    }
}

/// The style of a heading.
pub fn style_of_heading(level: u8) -> (style: Style)
    ensures
        style == heading_style(level),
{
    if level == 1 {
        Style::new().add_modifier(Modifier::bold().union(Modifier::underlined()))
    } else if level == 2 {
        Style::new().add_modifier(Modifier::bold())
    } else if level <= 4 {
        Style::new().add_modifier(Modifier::bold().union(Modifier::italic()))
    } else {
        Style::new().add_modifier(Modifier::italic())
    }
}

/// A text between two others.
fn between(before: &str, text: &str, after: &str) -> (whole: String)
    ensures
        whole@ == before@ + text@ + after@,
{
    let mut whole = owned(before);
    whole.append(text);
    whole.append(after);
    whole
}

/// The spans of a line of code: moved in, in its colors or, where there are none, dim.
pub fn code_line_spans(line: &str, colored: Vec<Span>, style: Style) -> (spans: Vec<Span>)
    ensures
        spans_view(spans@) == code_line(line@, spans_view(colored@), style),
{
    broadcast use group_text_views;

    let mut spans: Vec<Span> = Vec::new();
    spans.push(Span::styled(owned("  "), style));
    if colored.is_empty() {
        spans.push(Span::styled(owned(line), style));
        assert(spans_view(spans@) =~= code_line(line@, spans_view(colored@), style));
    } else {
        let mut rest = colored;
        spans.append(&mut rest);
        assert(spans_view(spans@) =~= code_line(line@, spans_view(colored@), style));
    }
    spans
}

} // verus!
