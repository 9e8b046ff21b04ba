//! What the elements of a document look like on the page.
use syntect::easy::HighlightLines;
use syntect::parsing::SyntaxSet;
use vstd::prelude::*;

use crate::chars::{decimal_text, repeated, split_text, trimmed};
use crate::code::language_token;
use crate::html::{html_images, HtmlImageView};
use crate::markdown::{EventView, TagEnd, TagView};
use crate::page::{
    caption, without_trailing_blanks, ImageView, ListKind, Page, RenderTools,
};
use crate::renderer::src_label;
use crate::style::{Color, Modifier, Style};
use crate::syntax::{
    colored_line, coloring, coloring_after, line_spans, syntax_by_extension, syntax_by_name,
    syntax_by_token, CodeHighlightAssets,
};
use crate::table::drawn_table;
use crate::text::{LineView, SpanView};

verus! {

/// A style without colors.
pub open spec fn uncolored(
    bold: bool,
    dim: bool,
    italic: bool,
    underlined: bool,
    crossed_out: bool,
) -> Style {
    Style {
        fg: None,
        bg: None,
        add_modifier: Modifier { bold, dim, italic, underlined, reversed: false, crossed_out },
    }
}

/// Text that is dim and nothing else.
pub open spec fn faint() -> Style {
    uncolored(false, true, false, false, false)
}

/// Text without any attribute.
pub open spec fn unmarked() -> Style {
    uncolored(false, false, false, false, false)
}

/// Emphasis, strong text, struck text and links keep the style that they stand in and add one
/// attribute each. Headings begin anew: the first level is bold and underlined, the second bold, the
/// third and fourth bold and italic, the others italic.
pub proof fn law_elements_have_their_styles(page: Page, level: u8, url: Seq<char>, tools: RenderTools)
    requires
        page.image is None,
        page.styles.len() > 0,
    ensures
        ({
            let outer = page.styles.last();
            let emphasis = page.step(EventView::Start(TagView::Emphasis), tools);
            let strong = page.step(EventView::Start(TagView::Strong), tools);
            let struck = page.step(EventView::Start(TagView::Strikethrough), tools);
            let link = page.step(EventView::Start(TagView::Link(url)), tools);
            let heading = page.step(EventView::Start(TagView::Heading(level)), tools);
            &&& emphasis == (Page {
                styles: page.styles.push(
                    Style {
                        add_modifier: Modifier { italic: true, ..outer.add_modifier },
                        ..outer
                    },
                ),
                ..page
            })
            &&& strong == (Page {
                styles: page.styles.push(
                    Style { add_modifier: Modifier { bold: true, ..outer.add_modifier }, ..outer },
                ),
                ..page
            })
            &&& struck == (Page {
                styles: page.styles.push(
                    Style {
                        add_modifier: Modifier { crossed_out: true, ..outer.add_modifier },
                        ..outer
                    },
                ),
                ..page
            })
            &&& link == (Page {
                styles: page.styles.push(
                    Style {
                        add_modifier: Modifier { underlined: true, ..outer.add_modifier },
                        ..outer
                    },
                ),
                link: Some(url),
                ..page
            })
            &&& heading.styles == page.styles.push(
                uncolored(level <= 4, false, level >= 3, level == 1, false),
            ) || level == 0
        }),
{
}

/// Whether a text marks a line of a quote of some depth: two blanks for each outer quote, then a bar
/// and a blank.
pub open spec fn is_quote_mark(text: Seq<char>, depth: nat) -> bool {
    &&& text.len() == 2 * depth
    &&& forall|i: int| 0 <= i < text.len() - 2 ==> #[trigger] text[i] == ' '
    &&& text[text.len() - 2] == '│'
    &&& text[text.len() - 1] == ' '
}

proof fn lemma_blanks(count: nat)
    ensures
        repeated("  "@, count).len() == 2 * count,
        forall|i: int|
            0 <= i < repeated("  "@, count).len() ==> #[trigger] repeated("  "@, count)[i] == ' ',
    decreases count,
{
    reveal_strlit("  ");
    if count > 0 {
        lemma_blanks((count - 1) as nat);
    }
}

/// Text is added to the line that is being filled, in the style of the innermost element. The first
/// text of a line in block quotes stands behind the mark of the quotes, which is dim.
pub proof fn law_text_is_added_in_its_style(page: Page, text: Seq<char>, tools: RenderTools)
    requires
        page.image is None,
        !page.in_code_block,
        page.styles.len() > 0,
    ensures
        ({
            let after = page.step(EventView::Text(text), tools);
            let span = SpanView { text, style: page.styles.last() };
            &&& after == (Page { spans: after.spans, ..page })
            &&& page.spans.len() > 0 || page.quotes == 0 ==> after.spans == page.spans.push(span)
            &&& page.spans.len() == 0 && page.quotes > 0 ==> {
                &&& after.spans.len() == 2
                &&& is_quote_mark(after.spans[0].text, page.quotes)
                &&& after.spans[0].style == faint()
                &&& after.spans[1] == span
            }
        }),
{
    reveal_strlit("│ ");
    if page.quotes > 0 {
        lemma_blanks((page.quotes - 1) as nat);
    }
}

/// A block quote is one deeper than what it stands in, and its mark comes first on its line. When it
/// ends, its last line is complete, and a blank line follows.
pub proof fn law_quotes_are_marked(page: Page, tools: RenderTools)
    requires
        page.image is None,
    ensures
        ({
            let opened = page.step(EventView::Start(TagView::BlockQuote), tools);
            let closed = page.step(EventView::End(TagEnd::BlockQuote), tools);
            &&& opened.quotes == page.quotes + 1
            &&& opened == (Page { quotes: opened.quotes, spans: opened.spans, ..page })
            &&& page.spans.len() > 0 ==> opened.spans == page.spans
            &&& page.spans.len() == 0 ==> {
                &&& opened.spans.len() == 1
                &&& is_quote_mark(opened.spans[0].text, page.quotes + 1)
                &&& opened.spans[0].style == faint()
            }
            &&& page.quotes > 0 ==> closed.quotes == page.quotes - 1
            &&& page.quotes == 0 ==> closed.quotes == 0
            &&& closed.spans.len() == 0
            &&& page.spans.len() > 0 ==> closed.lines == page.lines + seq![
                page.spans,
                Seq::<SpanView>::empty(),
            ]
            &&& page.spans.len() == 0 ==> closed.lines == page.lines + seq![
                Seq::<SpanView>::empty(),
            ]
        }),
{
    reveal_strlit("│ ");
    lemma_blanks(page.quotes);
    let closed = page.step(EventView::End(TagEnd::BlockQuote), tools);
    assert(closed.lines =~= page.lines + seq![page.spans, Seq::<SpanView>::empty()] || closed.lines
        =~= page.lines + seq![Seq::<SpanView>::empty()]);
}

/// Whether a page begins anew after a blank line: what was on the line that was being filled is
/// complete, and one blank line follows, unless there is one already.
pub open spec fn is_after_blank(before: Page, lines: Seq<LineView>, spans: LineView) -> bool {
    let blank = Seq::<SpanView>::empty();
    &&& spans.len() == 0
    &&& if before.spans.len() > 0 {
        lines == before.lines + seq![before.spans, blank]
    } else if before.lines.len() > 0 && before.lines.last().len() == 0 {
        lines == before.lines
    } else {
        lines == before.lines + seq![blank]
    }
}

proof fn lemma_leave_blank(page: Page)
    ensures
        is_after_blank(page, page.leave_blank().lines, page.leave_blank().spans),
{
    let blank = page.leave_blank();
    if page.spans.len() > 0 {
        assert(page.end_open_line().lines.last() == page.spans);
        assert(blank.lines =~= page.lines + seq![page.spans, Seq::<SpanView>::empty()]);
    } else if !(page.lines.len() > 0 && page.lines.last().len() == 0) {
        assert(blank.lines =~= page.lines + seq![Seq::<SpanView>::empty()]);
    }
}

/// Headings, code blocks, images, tables and footnotes begin after a blank line.
pub proof fn law_blocks_are_set_apart(page: Page, tag: TagView, tools: RenderTools)
    requires
        page.image is None,
    ensures
        ({
            let after = page.step(EventView::Start(tag), tools);
            &&& tag is Heading || tag is Image || tag is Table ==> is_after_blank(
                page,
                after.lines,
                after.spans,
            )
            &&& tag is IndentedCode || tag is FencedCode ==> after.lines.len() > 0
                && is_after_blank(page, after.lines.drop_last(), after.spans)
            &&& tag matches TagView::FootnoteDefinition(name) ==> is_after_blank(
                page,
                after.lines,
                Seq::empty(),
            ) && after.spans == seq![
                SpanView { text: "[^"@ + name + "] "@, style: faint() },
            ]
            &&& tag is BlockQuote || tag is List || tag is Emphasis || tag is Strong || tag
                is Strikethrough || tag is Link ==> after.lines == page.lines
        }),
{
    let after = page.step(EventView::Start(tag), tools);
    let blank = page.leave_blank();
    lemma_leave_blank(page);
    if tag is IndentedCode || tag is FencedCode {
        assert(after.lines.drop_last() =~= blank.lines);
    }
}

/// Paragraphs and headings end with their last line and a blank one, items with their last line,
/// lists with a blank line. A line break completes a line, too.
pub proof fn law_blocks_end_their_lines(page: Page, tools: RenderTools)
    requires
        page.image is None,
    ensures
        ({
            let blank = Seq::<SpanView>::empty();
            let paragraph = page.step(EventView::End(TagEnd::Paragraph), tools);
            let heading = page.step(EventView::End(TagEnd::Heading), tools);
            let item = page.step(EventView::End(TagEnd::Item), tools);
            let list = page.step(EventView::End(TagEnd::List), tools);
            let broken = page.step(EventView::HardBreak, tools);
            &&& paragraph == (Page {
                lines: page.lines + seq![page.spans, blank],
                spans: blank,
                ..page
            })
            &&& heading == (Page {
                lines: page.lines + seq![page.spans, blank],
                spans: blank,
                styles: heading.styles,
                ..page
            })
            &&& item == (Page { lines: page.lines + seq![page.spans], spans: blank, ..page })
            &&& broken == (Page { lines: page.lines + seq![page.spans], spans: blank, ..page })
            &&& list == (Page { lines: page.lines + seq![blank], lists: list.lists, ..page })
        }),
{
    let blank = Seq::<SpanView>::empty();
    assert(page.lines.push(page.spans).push(blank) =~= page.lines + seq![page.spans, blank]);
    assert(page.lines.push(page.spans) =~= page.lines + seq![page.spans]);
    assert(page.lines.push(blank) =~= page.lines + seq![blank]);
}

/// Whether a text is a mark behind two blanks for each of some lists.
pub open spec fn is_moved_in(text: Seq<char>, outer: nat, mark: Seq<char>) -> bool {
    &&& text.len() == 2 * outer + mark.len()
    &&& forall|i: int| 0 <= i < 2 * outer ==> #[trigger] text[i] == ' '
    &&& text.skip(2 * outer as int) == mark
}

/// A list is opened inside those that are open; its items are numbered from its first number on, if
/// it has one. An item begins a line, two blanks further in for each outer list, with its number or
/// a bullet.
pub proof fn law_items_are_marked(page: Page, first: Option<u64>, tools: RenderTools)
    requires
        page.image is None,
    ensures
        ({
            let list = page.step(EventView::Start(TagView::List(first)), tools);
            let item = page.step(EventView::Start(TagView::Item), tools);
            let depth = page.lists.len();
            &&& list.lists.len() == page.lists.len() + 1 && list.lists.drop_last() == page.lists
            &&& first matches Some(n) ==> list.lists.last() == ListKind::Ordered(n)
            &&& first is None ==> list.lists.last() == ListKind::Unordered
            &&& list.spans == page.spans && list.styles == page.styles
            &&& page.spans.len() > 0 ==> item.lines == page.lines.push(page.spans)
            &&& page.spans.len() == 0 ==> item.lines == page.lines
            &&& item.spans.len() == 1 && item.spans[0].style == unmarked()
            &&& is_moved_in(
                item.spans[0].text,
                if depth > 0 {
                    (depth - 1) as nat
                } else {
                    0
                },
                if depth > 0 && page.lists.last() is Ordered {
                    decimal_text(page.lists.last()->Ordered_0 as nat) + ". "@
                } else {
                    "• "@
                },
            )
        }),
{
    let depth = page.lists.len();
    let outer: nat = if depth > 0 {
        (depth - 1) as nat
    } else {
        0
    };
    lemma_blanks(outer);
    let indent = repeated("  "@, outer);
    let item = page.step(EventView::Start(TagView::Item), tools);
    let mark = if depth > 0 && page.lists.last() is Ordered {
        decimal_text(page.lists.last()->Ordered_0 as nat) + ". "@
    } else {
        "• "@
    };
    assert(item.spans[0].text == indent + mark);
    assert((indent + mark).skip(2 * outer as int) =~= mark);
    let list = page.step(EventView::Start(TagView::List(first)), tools);
    assert(list.lists.drop_last() =~= page.lists);
}

/// Code stands between blanks in light gray on dark gray, math between dollar signs in italics, a
/// task behind a bold box, a footnote by its name. A line break in the source is a blank.
pub proof fn law_inline_elements_are_marked(
    page: Page,
    text: Seq<char>,
    done: bool,
    tools: RenderTools,
)
    requires
        page.image is None,
    ensures
        page.step(EventView::Code(text), tools) == (Page {
            spans: page.spans.push(
                SpanView {
                    text: " "@ + text + " "@,
                    style: Style {
                        fg: Some(Color::Rgb(200, 200, 200)),
                        bg: Some(Color::Rgb(45, 45, 45)),
                        add_modifier: unmarked().add_modifier,
                    },
                },
            ),
            ..page
        }),
        page.step(EventView::InlineMath(text), tools) == (Page {
            spans: page.spans.push(
                SpanView {
                    text: "$"@ + text + "$"@,
                    style: uncolored(false, false, true, false, false),
                },
            ),
            ..page
        }),
        page.step(EventView::DisplayMath(text), tools) == page.step(
            EventView::InlineMath(text),
            tools,
        ),
        page.step(EventView::TaskListMarker(done), tools) == (Page {
            spans: page.spans.push(
                SpanView {
                    text: if done {
                        "[x] "@
                    } else {
                        "[ ] "@
                    },
                    style: uncolored(true, false, false, false, false),
                },
            ),
            ..page
        }),
        page.step(EventView::FootnoteReference(text), tools) == (Page {
            spans: page.spans.push(SpanView { text: "[^"@ + text + "]"@, style: faint() }),
            ..page
        }),
        page.step(EventView::SoftBreak, tools) == (Page {
            spans: page.spans.push(SpanView { text: " "@, style: unmarked() }),
            ..page
        }),
        page.step(EventView::Other, tools) == page,
{
}

proof fn lemma_rule(count: nat)
    ensures
        repeated("─"@, count).len() == count,
        forall|i: int|
            0 <= i < count ==> #[trigger] repeated("─"@, count)[i] == '─',
    decreases count,
{
    reveal_strlit("─");
    if count > 0 {
        lemma_rule((count - 1) as nat);
    }
}

/// A rule stands on a line of its own: 72 dashes, dim.
pub proof fn law_rules_are_drawn(page: Page, tools: RenderTools)
    requires
        page.image is None,
    ensures
        ({
            let after = page.step(EventView::Rule, tools);
            let rule = after.lines.last();
            &&& after == (Page {
                lines: page.lines + seq![page.spans, rule],
                spans: Seq::empty(),
                ..page
            })
            &&& rule.len() == 1 && rule[0].style == faint() && rule[0].text.len() == 72
            &&& forall|i: int| 0 <= i < 72 ==> #[trigger] rule[0].text[i] == '─'
        }),
{
    lemma_rule(72);
    let after = page.step(EventView::Rule, tools);
    assert(after.lines =~= page.lines + seq![page.spans, after.lines.last()]);
}

/// The target of a link follows its text, dim and in brackets. The link is closed with it.
pub proof fn law_links_show_their_targets(page: Page, tools: RenderTools)
    requires
        page.image is None,
        page.styles.len() > 0,
    ensures
        ({
            let after = page.step(EventView::End(TagEnd::Link), tools);
            &&& after.link is None
            &&& page.link matches Some(url) ==> after.spans == page.spans.push(
                SpanView { text: " ("@ + url + ")"@, style: faint() },
            )
            &&& page.link is None ==> after.spans == page.spans
            &&& after == (Page {
                spans: after.spans,
                styles: page.styles.drop_last(),
                link: None,
                ..page
            })
        }),
{
}

/// A code block begins with its fence and what stands behind it, dim, and ends with a fence and a
/// blank line. Only a fenced block has something behind its fence: what the document has there,
/// without the blanks around it, and its first word is the language.
pub proof fn law_code_blocks_are_fenced(page: Page, info: Seq<char>, tools: RenderTools)
    requires
        page.image is None,
    ensures
        ({
            let fenced = page.step(EventView::Start(TagView::FencedCode(info)), tools);
            let indented = page.step(EventView::Start(TagView::IndentedCode), tools);
            let closed = page.step(EventView::End(TagEnd::CodeBlock), tools);
            let fence = seq![SpanView { text: "```"@, style: faint() }];
            &&& fenced.in_code_block && indented.in_code_block && !closed.in_code_block
            &&& fenced.lines.last() == seq![
                SpanView { text: "```"@ + trimmed(info), style: faint() },
            ]
            &&& indented.lines.last() == fence
            &&& closed.coloring is None && closed.spans.len() == 0
            &&& closed.lines == if page.spans.len() > 0 {
                page.lines + seq![page.spans, fence, Seq::empty()]
            } else {
                page.lines + seq![fence, Seq::empty()]
            }
            &&& tools.assets is None ==> fenced.coloring is None && indented.coloring is None
        }),
{
    let fence = seq![SpanView { text: "```"@, style: faint() }];
    let closed = page.step(EventView::End(TagEnd::CodeBlock), tools);
    let indented = page.step(EventView::Start(TagView::IndentedCode), tools);
    assert("```"@ + Seq::<char>::empty() =~= "```"@);
    assert(indented.lines.last() =~= fence);
    assert(closed.lines =~= if page.spans.len() > 0 {
        page.lines + seq![page.spans, fence, Seq::empty()]
    } else {
        page.lines + seq![fence, Seq::empty()]
    });
}

/// What an uncolored line of code looks like: moved in by two blanks and dim. An empty one stays
/// empty.
pub open spec fn is_code_line(line: LineView, text: Seq<char>, style: Style) -> bool {
    let dimmed = Style { add_modifier: Modifier { dim: true, ..style.add_modifier }, ..style };
    if text.len() == 0 {
        line.len() == 0
    } else {
        line == seq![SpanView { text: "  "@, style: dimmed }, SpanView { text, style: dimmed }]
    }
}

/// Every line of the text in a code block is a line of the page, in order.
pub proof fn law_code_is_shown_line_by_line(page: Page, texts: Seq<Seq<char>>, tools: RenderTools)
    requires
        page.spans.len() == 0,
        page.styles.len() > 0,
        page.coloring is None || tools.assets is None,
    ensures
        ({
            let after = page.add_code_lines(texts, tools);
            &&& after == (Page { lines: after.lines, ..page })
            &&& after.lines.len() == page.lines.len() + texts.len()
            &&& after.lines.take(page.lines.len() as int) == page.lines
            &&& forall|i: int|
                0 <= i < texts.len() ==> is_code_line(
                    #[trigger] after.lines[page.lines.len() + i],
                    texts[i],
                    page.styles.last(),
                )
        }),
    decreases texts.len(),
{
    let after = page.add_code_lines(texts, tools);
    if texts.len() == 0 {
        assert(after.lines.take(page.lines.len() as int) =~= page.lines);
    } else {
        let before = page.add_code_lines(texts.drop_last(), tools);
        law_code_is_shown_line_by_line(page, texts.drop_last(), tools);
        let line = after.lines.last();
        assert(after.lines == before.lines.push(line));
        assert(is_code_line(line, texts.last(), page.styles.last())) by {
            if texts.last().len() > 0 {
                let style = page.styles.last();
                let dimmed = Style {
                    add_modifier: Modifier { dim: true, ..style.add_modifier },
                    ..style
                };
                assert(line =~= seq![
                    SpanView { text: "  "@, style: dimmed },
                    SpanView { text: texts.last(), style: dimmed },
                ]);
            }
        }
        assert(after.lines.take(page.lines.len() as int) =~= page.lines) by {
            assert(before.lines.take(page.lines.len() as int) == page.lines);
            assert forall|i: int| 0 <= i < page.lines.len() implies after.lines[i]
                == #[trigger] page.lines[i] by {
                assert(before.lines.take(page.lines.len() as int)[i] == before.lines[i]);
            }
        }
        assert(after.spans =~= page.spans);
        assert forall|i: int| 0 <= i < texts.len() implies is_code_line(
            #[trigger] after.lines[page.lines.len() + i],
            texts[i],
            page.styles.last(),
        ) by {
            if i < texts.len() - 1 {
                assert(before.lines[page.lines.len() + i] == after.lines[page.lines.len() + i]);
                assert(texts.drop_last()[i] == texts[i]);
            }
        }
    }
}

/// The text of a code block is taken apart at its line breaks.
pub proof fn law_code_is_taken_apart(page: Page, text: Seq<char>, tools: RenderTools)
    requires
        page.image is None,
        page.in_code_block,
        page.spans.len() == 0,
        page.styles.len() > 0,
        page.coloring is None || tools.assets is None,
    ensures
        ({
            let after = page.step(EventView::Text(text), tools);
            let texts = split_text(text, '\n');
            &&& after == (Page { lines: after.lines, ..page })
            &&& after.lines.len() == page.lines.len() + texts.len()
            &&& forall|i: int|
                0 <= i < texts.len() ==> is_code_line(
                    #[trigger] after.lines[page.lines.len() + i],
                    texts[i],
                    page.styles.last(),
                )
        }),
{
    law_code_is_shown_line_by_line(page, split_text(text, '\n'), tools);
}

/// The caption of an image says that it is one, in bold and dim, and then what it shows; where
/// nothing is said of that, its source, underlined.
pub proof fn law_captions_describe_images(src: Seq<char>, alt: Seq<char>)
    ensures
        caption(src, alt).len() == 2,
        caption(src, alt)[0] == (SpanView {
            text: "[image] "@,
            style: uncolored(true, true, false, false, false),
        }),
        trimmed(alt).len() > 0 ==> caption(src, alt)[1] == (SpanView {
            text: trimmed(alt),
            style: unmarked(),
        }),
        trimmed(alt).len() == 0 ==> caption(src, alt)[1] == (SpanView {
            text: src_label(src),
            style: uncolored(false, false, false, true, false),
        }),
{
}

/// Everything that is said inside an image goes into its description, and nothing onto the page.
/// The image stands on the line of its caption, and a blank line follows.
pub proof fn law_images_are_described(page: Page, event: EventView, url: Seq<char>, tools: RenderTools)
    ensures
        page.image is None ==> page.step(EventView::Start(TagView::Image(url)), tools).image
            == Some((url, Seq::<char>::empty())),
        page.image matches Some((src, alt)) ==> {
            let after = page.step(event, tools);
            if event == EventView::End(TagEnd::Image) {
                after == (Page {
                    image: None,
                    lines: page.lines + seq![caption(src, alt), Seq::empty()],
                    images: page.images.push(
                        ImageView {
                            src,
                            line_index: page.lines.len(),
                            hinted_pixel_size: None,
                        },
                    ),
                    ..page
                })
            } else {
                after == (Page {
                    image: Some(
                        (
                            src,
                            match event {
                                EventView::Text(said) => alt + said,
                                EventView::Code(said) => alt + said,
                                EventView::Html(said) => alt + said,
                                EventView::InlineHtml(said) => alt + said,
                                EventView::InlineMath(said) => alt + said,
                                EventView::DisplayMath(said) => alt + said,
                                EventView::SoftBreak => alt.push(' '),
                                EventView::HardBreak => alt.push(' '),
                                _ => alt,
                            },
                        ),
                    ),
                    ..page
                })
            }
        },
        page.image is None ==> page.step(EventView::End(TagEnd::Image), tools) == page,
{
    if let Some((src, alt)) = page.image {
        let after = page.step(event, tools);
        assert(alt + Seq::<char>::empty() =~= alt);
        assert(alt + seq![' '] =~= alt.push(' '));
        if event == EventView::End(TagEnd::Image) {
            assert(after.lines =~= page.lines + seq![caption(src, alt), Seq::empty()]);
        }
    }
}

/// Embedded HTML without images is shown as it is, dim. Of HTML with images only the images are
/// shown: every one by its caption and a blank line, in order, with the size that it is given.
pub proof fn law_html_is_shown_by_its_images(page: Page, html: Seq<char>, tools: RenderTools)
    requires
        page.image is None,
    ensures
        page.step(EventView::InlineHtml(html), tools) == page.step(EventView::Html(html), tools),
        html_images(html, tools.patterns).len() == 0 ==> page.step(EventView::Html(html), tools)
            == (Page {
            spans: page.spans.push(SpanView { text: html, style: faint() }),
            ..page
        }),
        html_images(html, tools.patterns).len() > 0 ==> ({
            let found = html_images(html, tools.patterns);
            let after = page.step(EventView::Html(html), tools);
            let begin = after.lines.len() - 2 * found.len();
            &&& begin >= 0 && is_after_blank(page, after.lines.take(begin), after.spans)
            &&& after.images.len() == page.images.len() + found.len()
            &&& after.images.take(page.images.len() as int) == page.images
            &&& forall|i: int|
                0 <= i < found.len() ==> {
                    &&& #[trigger] after.images[page.images.len() + i] == ImageView {
                        src: found[i].src,
                        line_index: (begin + 2 * i) as nat,
                        hinted_pixel_size: found[i].hinted_pixel_size,
                    }
                    &&& after.lines[begin + 2 * i] == caption(found[i].src, found[i].alt)
                    &&& after.lines[begin + 2 * i + 1].len() == 0
                }
        }),
{
    let found = html_images(html, tools.patterns);
    let blank = page.leave_blank();
    lemma_leave_blank(page);
    lemma_html_images(blank, found);
    let after = blank.add_html_images(found);
    let begin = after.lines.len() - 2 * found.len();
    assert(after.lines.take(begin) == blank.lines);
}

proof fn lemma_html_images(page: Page, found: Seq<HtmlImageView>)
    ensures
        ({
            let after = page.add_html_images(found);
            let begin = page.lines.len();
            &&& after == (Page { lines: after.lines, images: after.images, ..page })
            &&& after.lines.len() == begin + 2 * found.len()
            &&& after.lines.take(begin as int) == page.lines
            &&& after.images.len() == page.images.len() + found.len()
            &&& after.images.take(page.images.len() as int) == page.images
            &&& forall|i: int|
                0 <= i < found.len() ==> {
                    &&& #[trigger] after.images[page.images.len() + i] == ImageView {
                        src: found[i].src,
                        line_index: (begin + 2 * i) as nat,
                        hinted_pixel_size: found[i].hinted_pixel_size,
                    }
                    &&& after.lines[begin + 2 * i] == caption(found[i].src, found[i].alt)
                    &&& after.lines[begin + 2 * i + 1].len() == 0
                }
        }),
    decreases found.len(),
{
    let after = page.add_html_images(found);
    let begin = page.lines.len();
    if found.len() == 0 {
        assert(after.lines.take(begin as int) =~= page.lines);
        assert(after.images.take(page.images.len() as int) =~= page.images);
    } else {
        let before = page.add_html_images(found.drop_last());
        lemma_html_images(page, found.drop_last());
        let last = found.last();
        assert(after.lines == before.lines.push(caption(last.src, last.alt)).push(Seq::empty()));
        assert(after.lines.take(begin as int) =~= before.lines.take(begin as int));
        assert(after.images.take(page.images.len() as int) =~= before.images.take(
            page.images.len() as int,
        ));
        assert forall|i: int| 0 <= i < found.len() implies {
            &&& #[trigger] after.images[page.images.len() + i] == ImageView {
                src: found[i].src,
                line_index: (begin + 2 * i) as nat,
                hinted_pixel_size: found[i].hinted_pixel_size,
            }
            &&& after.lines[begin + 2 * i] == caption(found[i].src, found[i].alt)
            &&& after.lines[begin + 2 * i + 1].len() == 0
        } by {
            if i < found.len() - 1 {
                assert(found.drop_last()[i] == found[i]);
                assert(before.images[page.images.len() + i] == after.images[page.images.len() + i]);
                assert(before.lines[begin + 2 * i] == after.lines[begin + 2 * i]);
                assert(before.lines[begin + 2 * i + 1] == after.lines[begin + 2 * i + 1]);
            }
        }
    }
}

/// The cells of a table are collected in rows, those of the head apart. When the table ends, it is
/// drawn, and a blank line follows.
pub proof fn law_tables_are_collected(page: Page, tools: RenderTools)
    requires
        page.image is None,
    ensures
        ({
            let opened = page.step(EventView::Start(TagView::Table), tools);
            &&& opened.table is Some && opened.table->0.header.len() == 0
                && opened.table->0.rows.len() == 0 && opened.table->0.current_row.len() == 0
        }),
        page.table matches Some(table) ==> {
            let cell = page.step(EventView::End(TagEnd::TableCell), tools);
            let head = page.step(EventView::End(TagEnd::TableHead), tools);
            let row = page.step(EventView::End(TagEnd::TableRow), tools);
            let closed = page.step(EventView::End(TagEnd::Table), tools);
            &&& cell.table is Some && cell.table->0.current_row == table.current_row.push(page.spans)
                && cell.table->0.header == table.header && cell.table->0.rows == table.rows
                && cell.spans.len() == 0 && cell.lines == page.lines
            &&& head.table is Some && head.table->0.header == table.current_row
                && head.table->0.rows == table.rows && head.table->0.current_row.len() == 0
                && head.lines == page.lines && head.spans == page.spans
            &&& row.table is Some && row.table->0.rows == table.rows.push(table.current_row)
                && row.table->0.header == table.header && row.table->0.current_row.len() == 0
                && row.lines == page.lines && row.spans == page.spans
            &&& closed.table is None && closed.lines == page.lines + drawn_table(
                table.header,
                table.rows,
            ) + seq![Seq::<SpanView>::empty()] && closed.spans == page.spans
        },
        page.table is None ==> {
            &&& page.step(EventView::End(TagEnd::TableCell), tools) == page
            &&& page.step(EventView::End(TagEnd::TableHead), tools) == page
            &&& page.step(EventView::End(TagEnd::TableRow), tools) == page
            &&& page.step(EventView::End(TagEnd::Table), tools) == page
        },
{
    if let Some(table) = page.table {
        let closed = page.step(EventView::End(TagEnd::Table), tools);
        assert(closed.lines =~= page.lines + drawn_table(table.header, table.rows) + seq![
            Seq::<SpanView>::empty(),
        ]);
    }
}

proof fn lemma_kept_lines(lines: Seq<LineView>)
    ensures
        ({
            let kept = without_trailing_blanks(lines);
            &&& kept.len() <= lines.len()
            &&& kept == lines.take(kept.len() as int)
            &&& kept.len() > 0 ==> kept.last().len() > 0
            &&& forall|i: int|
                kept.len() <= i < lines.len() ==> (#[trigger] lines[i]).len() == 0
        }),
    decreases lines.len(),
{
    let kept = without_trailing_blanks(lines);
    if lines.len() > 0 && lines.last().len() == 0 {
        lemma_kept_lines(lines.drop_last());
        assert(lines.drop_last().take(kept.len() as int) =~= lines.take(kept.len() as int));
        assert forall|i: int| kept.len() <= i < lines.len() implies (#[trigger] lines[i]).len()
            == 0 by {
            if i < lines.len() - 1 {
                assert(lines.drop_last()[i] == lines[i]);
            }
        }
    } else {
        assert(lines.take(lines.len() as int) =~= lines);
    }
}

/// The lines of a page with the one that is being filled, if anything is on it.
pub open spec fn filled_lines(page: Page) -> Seq<LineView> {
    if page.spans.len() > 0 {
        page.lines.push(page.spans)
    } else {
        page.lines
    }
}

/// All lines of a page, with the caption of an image that is still open.
pub open spec fn all_lines(page: Page) -> Seq<LineView> {
    match page.image {
        Some((src, alt)) => filled_lines(page).push(caption(src, alt)),
        None => filled_lines(page),
    }
}

/// A document has all lines of its page, with the one that was still being filled and the caption of
/// an image that was still open, up to the last that is not blank. Where there is none, a dim notice
/// stands in their place.
pub proof fn law_documents_have_all_lines(page: Page)
    ensures
        (forall|i: int| 0 <= i < all_lines(page).len() ==> (#[trigger] all_lines(page)[i]).len() == 0)
            ==> page.finished().lines == seq![
            seq![SpanView { text: "(empty markdown file)"@, style: faint() }],
        ],
        (exists|i: int| 0 <= i < all_lines(page).len() && (#[trigger] all_lines(page)[i]).len() > 0)
            ==> {
            let lines = page.finished().lines;
            &&& 0 < lines.len() <= all_lines(page).len() && lines.last().len() > 0
            &&& lines == all_lines(page).take(lines.len() as int)
            &&& forall|i: int|
                lines.len() <= i < all_lines(page).len() ==> (#[trigger] all_lines(page)[i]).len()
                    == 0
        },
        page.image is None ==> page.finished().images == page.images,
        page.image matches Some((src, alt)) ==> page.finished().images == page.images.push(
            ImageView { src, line_index: filled_lines(page).len(), hinted_pixel_size: None },
        ),
{
    let all = all_lines(page);
    lemma_kept_lines(all);
    let kept = without_trailing_blanks(all);
    if kept.len() > 0 {
        assert(all[kept.len() - 1].len() > 0);
    }
}

/// A colored line of code is moved in like any other, and stands in its colors; where it cannot be
/// colored, it looks like code without colors. The coloring goes on behind the line. An empty line
/// stays empty.
pub proof fn law_colored_code_is_shown(
    page: Page,
    line: Seq<char>,
    assets: CodeHighlightAssets,
    tools: RenderTools,
)
    requires
        page.spans.len() == 0,
        page.styles.len() > 0,
        page.coloring is Some,
        tools.assets == Some(assets),
    ensures
        ({
            let after = page.add_code_line(line, tools);
            let colored = line_spans(page.coloring->0, line, assets.syntax_set);
            let style = page.styles.last();
            let shown = after.lines.last();
            &&& after == (Page {
                lines: page.lines.push(shown),
                coloring: after.coloring,
                ..page
            })
            &&& line.len() == 0 ==> shown.len() == 0 && after.coloring == page.coloring
            &&& line.len() > 0 ==> after.coloring == Some(
                coloring_after(page.coloring->0, line, assets.syntax_set),
            )
            &&& line.len() > 0 && colored.len() > 0 ==> shown.skip(1) == colored && shown[0] == (
            SpanView {
                text: "  "@,
                style: Style {
                    add_modifier: Modifier { dim: true, ..style.add_modifier },
                    ..style
                },
            })
            &&& line.len() > 0 && colored.len() == 0 ==> is_code_line(shown, line, style)
        }),
{
    let after = page.add_code_line(line, tools);
    let colored = line_spans(page.coloring->0, line, assets.syntax_set);
    let shown = after.lines.last();
    assert(after.lines =~= page.lines.push(shown));
    if line.len() > 0 {
        assert(page.spans + colored =~= colored);
        if colored.len() > 0 {
            assert(shown.skip(1) =~= colored);
        } else {
            assert(is_code_line(shown, line, page.styles.last()));
        }
    }
}

/// The pieces of a colored line are spans in their colors and with their attributes, in order.
pub proof fn law_pieces_keep_their_colors(
    state: HighlightLines<'static>,
    line: Seq<char>,
    set: SyntaxSet,
    i: int,
)
    ensures
        colored_line(state, line, set) is None ==> line_spans(state, line, set).len() == 0,
        colored_line(state, line, set) matches Some(pieces) ==> {
            let spans = line_spans(state, line, set);
            &&& spans.len() == pieces.len()
            &&& 0 <= i < pieces.len() ==> spans[i] == (SpanView {
                text: pieces[i].text,
                style: Style {
                    fg: Some(pieces[i].color),
                    bg: None,
                    add_modifier: Modifier {
                        bold: pieces[i].bold,
                        dim: false,
                        italic: pieces[i].italic,
                        underlined: pieces[i].underline,
                        reversed: false,
                        crossed_out: false,
                    },
                },
            })
        },
{
}

/// A code block is colored by the syntax of its language: one that the name stands for as a token,
/// else as an extension, else as a name. Without a language or a syntax it is not colored.
pub proof fn law_languages_choose_the_colors(
    page: Page,
    info: Seq<char>,
    assets: CodeHighlightAssets,
    tools: RenderTools,
)
    requires
        page.image is None,
        tools.assets == Some(assets),
    ensures
        ({
            let opened = page.step(EventView::Start(TagView::FencedCode(info)), tools);
            let language = language_token(trimmed(info));
            let set = assets.syntax_set;
            let token = syntax_by_token(set, language);
            let extension = syntax_by_extension(set, language);
            let name = syntax_by_name(set, language);
            &&& language.len() == 0 ==> opened.coloring is None
            &&& language.len() > 0 && token is Some ==> opened.coloring == Some(
                coloring(token->0, assets.theme),
            )
            &&& language.len() > 0 && token is None && extension is Some ==> opened.coloring
                == Some(coloring(extension->0, assets.theme))
            &&& language.len() > 0 && token is None && extension is None && name is Some
                ==> opened.coloring == Some(coloring(name->0, assets.theme))
            &&& token is None && extension is None && name is None ==> opened.coloring is None
        }),
{
}

} // verus!
