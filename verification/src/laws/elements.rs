//! What elements do to the page, and that nothing is left of them when they have ended.
use vstd::prelude::*;

use crate::chars::split_text;
use crate::html::{html_images, HtmlImageView};
use crate::laws::marks::unmarked;
use crate::markdown::{EventView, TagEnd, TagView};
use crate::page::{ListKind, Page, RenderTools};

verus! {

/// A run of events whose elements end in the order in which they should.
pub enum Nest {
    Nothing,
    /// An event that neither opens nor closes an element.
    Leaf(EventView),
    /// An element and what is in it.
    Element(TagView, Box<Nest>),
    /// One run after another.
    Both(Box<Nest>, Box<Nest>),
}

/// What closes an element. Footnotes are not closed: they go on to the end of their paragraph.
pub open spec fn end_of(tag: TagView) -> Option<TagEnd> {
    match tag {
        TagView::Heading(_) => Some(TagEnd::Heading),
        TagView::BlockQuote => Some(TagEnd::BlockQuote),
        TagView::IndentedCode => Some(TagEnd::CodeBlock),
        TagView::FencedCode(_) => Some(TagEnd::CodeBlock),
        TagView::List(_) => Some(TagEnd::List),
        TagView::Item => Some(TagEnd::Item),
        TagView::Emphasis => Some(TagEnd::Emphasis),
        TagView::Strong => Some(TagEnd::Strong),
        TagView::Strikethrough => Some(TagEnd::Strikethrough),
        TagView::Link(_) => Some(TagEnd::Link),
        TagView::Image(_) => Some(TagEnd::Image),
        TagView::Table => Some(TagEnd::Table),
        TagView::FootnoteDefinition(_) => None,
    }
}

/// Whether an event neither opens nor closes an element.
pub open spec fn is_leaf(event: EventView) -> bool {
    match event {
        EventView::Start(tag) => end_of(tag) is None,
        EventView::End(tag) => match tag {
            TagEnd::Paragraph => true,
            TagEnd::TableCell => true,
            TagEnd::TableHead => true,
            TagEnd::TableRow => true,
            _ => false,
        },
        _ => true,
    }
}

/// The events of a run.
pub open spec fn events_of(nest: Nest) -> Seq<EventView>
    decreases nest,
{
    match nest {
        Nest::Nothing => Seq::empty(),
        Nest::Leaf(event) => seq![event],
        Nest::Element(tag, inner) => seq![EventView::Start(tag)] + events_of(*inner) + seq![
            EventView::End(end_of(tag)->0),
        ],
        Nest::Both(first, second) => events_of(*first) + events_of(*second),
    }
}

/// Whether a run has an image in it.
pub open spec fn has_image(nest: Nest) -> bool
    decreases nest,
{
    match nest {
        Nest::Nothing => false,
        Nest::Leaf(_) => false,
        Nest::Element(tag, inner) => tag is Image || has_image(*inner),
        Nest::Both(first, second) => has_image(*first) || has_image(*second),
    }
}

/// Whether elements are what they should be: no leaf opens or closes one, and there is no image in
/// the description of another.
pub open spec fn is_proper(nest: Nest) -> bool
    decreases nest,
{
    match nest {
        Nest::Nothing => true,
        Nest::Leaf(event) => is_leaf(event),
        Nest::Element(tag, inner) => end_of(tag) is Some && is_proper(*inner) && (tag is Image
            ==> !has_image(*inner)),
        Nest::Both(first, second) => is_proper(*first) && is_proper(*second),
    }
}

/// How many items of the innermost list that is open at its beginning a run holds.
pub open spec fn items_in(nest: Nest) -> nat
    decreases nest,
{
    match nest {
        Nest::Nothing => 0,
        Nest::Leaf(_) => 0,
        Nest::Element(tag, inner) => match tag {
            TagView::List(_) => 0,
            TagView::Image(_) => 0,
            TagView::Item => 1 + items_in(*inner),
            _ => items_in(*inner),
        },
        Nest::Both(first, second) => items_in(*first) + items_in(*second),
    }
}

/// Whether lists are as they were, but for the items that the innermost has got since.
pub open spec fn lists_go_on(before: Seq<ListKind>, after: Seq<ListKind>, items: nat) -> bool {
    &&& after.len() == before.len()
    &&& forall|i: int| 0 <= i < before.len() - 1 ==> #[trigger] after[i] == before[i]
    &&& before.len() > 0 ==> match before.last() {
        ListKind::Unordered => after.last() == ListKind::Unordered,
        ListKind::Ordered(n) => after.last() is Ordered && after.last()->Ordered_0 == (n + items)
            % 0x1_0000_0000_0000_0000,
    }
}

/// Whether the same elements are open on two pages.
pub open spec fn same_open_elements(before: Page, after: Page, items: nat) -> bool {
    &&& after.styles == before.styles
    &&& after.quotes == before.quotes
    &&& lists_go_on(before.lists, after.lists, items)
    &&& !before.in_code_block ==> !after.in_code_block
    &&& before.in_code_block ==> after.in_code_block || after.coloring is None
    &&& !before.in_code_block && before.coloring is None ==> after.coloring is None
    &&& before.link is None ==> after.link is None
    &&& before.table is None ==> after.table is None
    &&& before.image is None ==> after.image is None
}

proof fn lemma_lists_go_on(a: Seq<ListKind>, b: Seq<ListKind>, c: Seq<ListKind>, m: nat, n: nat)
    requires
        lists_go_on(a, b, m),
        lists_go_on(b, c, n),
    ensures
        lists_go_on(a, c, m + n),
{
    if a.len() > 0 {
        if let ListKind::Ordered(first) = a.last() {
            let next = b.last()->Ordered_0 as int;
            assert((next + n) % 0x1_0000_0000_0000_0000 == (first + (m + n))
                % 0x1_0000_0000_0000_0000) by (nonlinear_arith)
                requires
                    next == (first + m) % 0x1_0000_0000_0000_0000,
            ;
        }
        assert forall|i: int| 0 <= i < a.len() - 1 implies #[trigger] c[i] == a[i] by {
            assert(b[i] == a[i]);
        }
    }
}

pub proof fn lemma_steps_both(
    page: Page,
    first: Seq<EventView>,
    second: Seq<EventView>,
    tools: RenderTools,
)
    ensures
        page.steps(first + second, tools) == page.steps(first, tools).steps(second, tools),
    decreases second.len(),
{
    if second.len() == 0 {
        assert(first + second == first);
    } else {
        lemma_steps_both(page, first, second.drop_last(), tools);
        assert((first + second).drop_last() == first + second.drop_last());
        assert((first + second).last() == second.last());
    }
}

pub proof fn lemma_step_once(page: Page, event: EventView, tools: RenderTools)
    ensures
        page.steps(seq![event], tools) == page.step(event, tools),
{
    assert(seq![event].drop_last() == Seq::<EventView>::empty());
    assert(page.steps(Seq::empty(), tools) == page);
}

proof fn lemma_code_lines_keep(page: Page, lines: Seq<Seq<char>>, tools: RenderTools)
    ensures
        ({
            let after = page.add_code_lines(lines, tools);
            after == (Page {
                lines: after.lines,
                spans: after.spans,
                coloring: after.coloring,
                ..page
            }) && (page.coloring is None ==> after.coloring is None)
        }),
    decreases lines.len(),
{
    if lines.len() > 0 {
        lemma_code_lines_keep(page, lines.drop_last(), tools);
    }
}

proof fn lemma_html_images_keep(page: Page, images: Seq<HtmlImageView>)
    ensures
        ({
            let after = page.add_html_images(images);
            after == (Page { lines: after.lines, images: after.images, ..page })
        }),
    decreases images.len(),
{
    if images.len() > 0 {
        lemma_html_images_keep(page, images.drop_last());
    }
}

/// An event that neither opens nor closes an element leaves all of them open.
pub proof fn law_leaves_open_nothing(page: Page, event: EventView, tools: RenderTools)
    requires
        is_leaf(event),
    ensures
        same_open_elements(page, page.step(event, tools), 0),
        page.step(event, tools).in_code_block == page.in_code_block,
        page.image is Some ==> page.step(event, tools).image is Some,
{
    if page.image is None {
        match event {
            EventView::Text(text) => {
                lemma_code_lines_keep(page, split_text(text, '\n'), tools);
            },
            EventView::Html(html) => {
                lemma_html_images_keep(page.leave_blank(), html_images(html, tools.patterns));
            },
            EventView::InlineHtml(html) => {
                lemma_html_images_keep(page.leave_blank(), html_images(html, tools.patterns));
            },
            _ => {},
        }
    }
    lemma_no_item(page.lists);
}

proof fn lemma_no_item(lists: Seq<ListKind>)
    ensures
        lists_go_on(lists, lists, 0),
{
    if lists.len() > 0 {
        if let ListKind::Ordered(n) = lists.last() {
            assert((n + 0) % 0x1_0000_0000_0000_0000 == n);
        }
    }
}

proof fn lemma_swallowed(page: Page, nest: Nest, tools: RenderTools)
    requires
        page.image is Some,
        is_proper(nest),
        !has_image(nest),
    ensures
        ({
            let after = page.steps(events_of(nest), tools);
            after == (Page { image: after.image, ..page }) && after.image is Some
        }),
    decreases nest,
{
    match nest {
        Nest::Nothing => {},
        Nest::Leaf(event) => {
            lemma_step_once(page, event, tools);
        },
        Nest::Element(tag, inner) => {
            let start = EventView::Start(tag);
            let end = EventView::End(end_of(tag)->0);
            lemma_step_once(page, start, tools);
            let opened = page.step(start, tools);
            lemma_swallowed(opened, *inner, tools);
            lemma_steps_both(page, seq![start], events_of(*inner), tools);
            let inside = opened.steps(events_of(*inner), tools);
            lemma_step_once(inside, end, tools);
            lemma_steps_both(page, seq![start] + events_of(*inner), seq![end], tools);
        },
        Nest::Both(first, second) => {
            lemma_swallowed(page, *first, tools);
            let between = page.steps(events_of(*first), tools);
            lemma_swallowed(between, *second, tools);
            lemma_steps_both(page, events_of(*first), events_of(*second), tools);
        },
    }
}

/// When elements have ended that end in order, the same elements are open as before: text stands in
/// the styles, quotes and lists in which it stood, the items of a list are counted one by one, and
/// no code block, link, image or table stays open.
pub proof fn law_elements_are_closed(page: Page, nest: Nest, tools: RenderTools)
    requires
        page.image is None,
        is_proper(nest),
    ensures
        same_open_elements(page, page.steps(events_of(nest), tools), items_in(nest)),
    decreases nest,
{
    match nest {
        Nest::Nothing => {
            lemma_no_item(page.lists);
        },
        Nest::Leaf(event) => {
            lemma_step_once(page, event, tools);
            law_leaves_open_nothing(page, event, tools);
        },
        Nest::Element(tag, inner) => {
            let start = EventView::Start(tag);
            let end = EventView::End(end_of(tag)->0);
            lemma_step_once(page, start, tools);
            let opened = page.step(start, tools);
            lemma_steps_both(page, seq![start], events_of(*inner), tools);
            let inside = opened.steps(events_of(*inner), tools);
            lemma_step_once(inside, end, tools);
            lemma_steps_both(page, seq![start] + events_of(*inner), seq![end], tools);
            let after = inside.step(end, tools);
            if tag is Image {
                lemma_swallowed(opened, *inner, tools);
                lemma_no_item(page.lists);
            } else {
                law_elements_are_closed(opened, *inner, tools);
                lemma_element(page, tag, inside, items_in(*inner), tools);
            }
        },
        Nest::Both(first, second) => {
            law_elements_are_closed(page, *first, tools);
            let between = page.steps(events_of(*first), tools);
            law_elements_are_closed(between, *second, tools);
            lemma_steps_both(page, events_of(*first), events_of(*second), tools);
            let after = between.steps(events_of(*second), tools);
            lemma_lists_go_on(
                page.lists,
                between.lists,
                after.lists,
                items_in(*first),
                items_in(*second),
            );
        },
    }
}

proof fn lemma_element(page: Page, tag: TagView, inside: Page, items: nat, tools: RenderTools)
    requires
        page.image is None,
        end_of(tag) is Some,
        !(tag is Image),
        same_open_elements(page.step(EventView::Start(tag), tools), inside, items),
    ensures
        same_open_elements(
            page,
            inside.step(EventView::End(end_of(tag)->0), tools),
            match tag {
                TagView::List(_) => 0,
                TagView::Item => 1 + items,
                _ => items,
            },
        ),
{
    let opened = page.step(EventView::Start(tag), tools);
    let after = inside.step(EventView::End(end_of(tag)->0), tools);
    assert(opened.image is None);
    match tag {
        TagView::List(_) => {
            assert(after.lists =~= page.lists) by {
                assert forall|i: int| 0 <= i < page.lists.len() implies #[trigger] after.lists[i]
                    == page.lists[i] by {
                    assert(inside.lists[i] == opened.lists[i]);
                }
            }
            lemma_no_item(page.lists);
        },
        TagView::Item => {
            assert(lists_go_on(page.lists, opened.lists, 1)) by {
                if page.lists.len() > 0 {
                    if let ListKind::Ordered(n) = page.lists.last() {
                        assert(opened.lists.last() is Ordered);
                        assert(opened.lists.last()->Ordered_0 == (n + 1)
                            % 0x1_0000_0000_0000_0000);
                    }
                }
            }
            lemma_lists_go_on(page.lists, opened.lists, inside.lists, 1, items);
        },
        TagView::Heading(_) => {
            assert(after.styles =~= page.styles);
        },
        TagView::Emphasis => {
            assert(after.styles =~= page.styles);
        },
        TagView::Strong => {
            assert(after.styles =~= page.styles);
        },
        TagView::Strikethrough => {
            assert(after.styles =~= page.styles);
        },
        TagView::Link(_) => {
            assert(after.styles =~= page.styles);
        },
        _ => {},
    }
}

/// A heading of any level with any text in it leaves the styles that are open as they were.
pub proof fn law_headings_are_closed(page: Page, level: u8, text: Seq<char>, tools: RenderTools)
    requires
        page.image is None,
    ensures
        page.step(EventView::Start(TagView::Heading(level)), tools).step(
            EventView::Text(text),
            tools,
        ).step(EventView::End(TagEnd::Heading), tools).styles == page.styles,
{
    let start = EventView::Start(TagView::Heading(level));
    let opened = page.step(start, tools);
    law_leaves_open_nothing(opened, EventView::Text(text), tools);
    let inside = opened.step(EventView::Text(text), tools);
    lemma_element(page, TagView::Heading(level), inside, 0, tools);
}

/// A document begins with nothing open, and nothing is open when its elements have ended.
pub proof fn law_documents_begin_and_end_with_nothing_open(nest: Nest, tools: RenderTools)
    requires
        is_proper(nest),
    ensures
        ({
            let page = Page::blank_page().steps(events_of(nest), tools);
            &&& page.styles.len() == 1 && page.styles[0] == unmarked()
            &&& page.quotes == 0 && page.lists.len() == 0 && !page.in_code_block
            &&& page.coloring is None && page.link is None && page.table is None
                && page.image is None
        }),
        Page::blank_page().lines.len() == 0 && Page::blank_page().images.len() == 0
            && Page::blank_page().spans.len() == 0,
{
    law_elements_are_closed(Page::blank_page(), nest, tools);
}

/// Whether a run has an element in it that ends in some way.
pub open spec fn has_kind(nest: Nest, kind: TagEnd) -> bool
    decreases nest,
{
    match nest {
        Nest::Nothing => false,
        Nest::Leaf(_) => false,
        Nest::Element(tag, inner) => end_of(tag) == Some(kind) || has_kind(*inner, kind),
        Nest::Both(first, second) => has_kind(*first, kind) || has_kind(*second, kind),
    }
}

/// What an element opens changes nothing but what it is about: the link, the code block or the table
/// that is open around it stays open.
pub proof fn law_elements_leave_what_is_around_them(page: Page, nest: Nest, tools: RenderTools)
    requires
        page.image is None,
        is_proper(nest),
    ensures
        ({
            let after = page.steps(events_of(nest), tools);
            &&& !has_kind(nest, TagEnd::Link) ==> after.link == page.link
            &&& !has_kind(nest, TagEnd::CodeBlock) ==> after.in_code_block == page.in_code_block
            &&& !has_kind(nest, TagEnd::Table) ==> (after.table is Some <==> page.table is Some)
            &&& after.image is None
        }),
    decreases nest,
{
    match nest {
        Nest::Nothing => {},
        Nest::Leaf(event) => {
            lemma_step_once(page, event, tools);
            lemma_leaf_keeps(page, event, tools);
        },
        Nest::Element(tag, inner) => {
            let start = EventView::Start(tag);
            let end = EventView::End(end_of(tag)->0);
            lemma_step_once(page, start, tools);
            let opened = page.step(start, tools);
            lemma_steps_both(page, seq![start], events_of(*inner), tools);
            let inside = opened.steps(events_of(*inner), tools);
            lemma_step_once(inside, end, tools);
            lemma_steps_both(page, seq![start] + events_of(*inner), seq![end], tools);
            if tag is Image {
                lemma_swallowed(opened, *inner, tools);
            } else {
                law_elements_leave_what_is_around_them(opened, *inner, tools);
            }
        },
        Nest::Both(first, second) => {
            law_elements_leave_what_is_around_them(page, *first, tools);
            let between = page.steps(events_of(*first), tools);
            law_elements_leave_what_is_around_them(between, *second, tools);
            lemma_steps_both(page, events_of(*first), events_of(*second), tools);
        },
    }
}

proof fn lemma_leaf_keeps(page: Page, event: EventView, tools: RenderTools)
    requires
        page.image is None,
        is_leaf(event),
    ensures
        ({
            let after = page.step(event, tools);
            &&& after.link == page.link && after.in_code_block == page.in_code_block
            &&& after.table is Some <==> page.table is Some
            &&& after.image is None
        }),
{
    match event {
        EventView::Text(text) => {
            lemma_code_lines_keep(page, split_text(text, '\n'), tools);
        },
        EventView::Html(html) => {
            lemma_html_images_keep(page.leave_blank(), html_images(html, tools.patterns));
        },
        EventView::InlineHtml(html) => {
            lemma_html_images_keep(page.leave_blank(), html_images(html, tools.patterns));
        },
        _ => {},
    }
}

/// What begins adds to the page and opens one thing; nothing else changes, and no image is added.
pub proof fn law_beginnings_open_one_thing(page: Page, tag: TagView, tools: RenderTools)
    requires
        page.image is None,
    ensures
        ({
            let after = page.step(EventView::Start(tag), tools);
            let plain = Page { lines: after.lines, spans: after.spans, ..page };
            match tag {
                TagView::Heading(_) => after == (Page { styles: after.styles, ..plain }),
                TagView::BlockQuote => after == (Page { quotes: after.quotes, ..plain }),
                TagView::IndentedCode => after == (Page {
                    in_code_block: true,
                    coloring: after.coloring,
                    ..plain
                }),
                TagView::FencedCode(_) => after == (Page {
                    in_code_block: true,
                    coloring: after.coloring,
                    ..plain
                }),
                TagView::List(_) => after == (Page { lists: after.lists, ..plain }),
                TagView::Item => after == (Page { lists: after.lists, ..plain }),
                TagView::Emphasis => after == (Page { styles: after.styles, ..plain }),
                TagView::Strong => after == (Page { styles: after.styles, ..plain }),
                TagView::Strikethrough => after == (Page { styles: after.styles, ..plain }),
                TagView::Link(_) => after == (Page {
                    styles: after.styles,
                    link: after.link,
                    ..plain
                }),
                TagView::Image(_) => after == (Page { image: after.image, ..plain }),
                TagView::Table => after == (Page { table: after.table, ..plain }),
                TagView::FootnoteDefinition(_) => after == plain,
            }
        }),
{
}

/// What ends adds to the page and closes one thing; nothing else changes, and no image is added
/// unless one ends.
pub proof fn law_ends_close_one_thing(page: Page, tag: TagEnd, tools: RenderTools)
    requires
        page.image is None,
    ensures
        ({
            let after = page.step(EventView::End(tag), tools);
            let plain = Page { lines: after.lines, spans: after.spans, ..page };
            match tag {
                TagEnd::Paragraph => after == plain,
                TagEnd::Heading => after == (Page { styles: after.styles, ..plain }),
                TagEnd::BlockQuote => after == (Page { quotes: after.quotes, ..plain }),
                TagEnd::CodeBlock => after == (Page {
                    in_code_block: false,
                    coloring: None,
                    ..plain
                }),
                TagEnd::List => after == (Page { lists: after.lists, ..plain }),
                TagEnd::Item => after == plain,
                TagEnd::Emphasis => after == (Page { styles: after.styles, ..page }),
                TagEnd::Strong => after == (Page { styles: after.styles, ..page }),
                TagEnd::Strikethrough => after == (Page { styles: after.styles, ..page }),
                TagEnd::Link => after == (Page { styles: after.styles, link: None, ..plain }),
                TagEnd::Image => after == page,
                _ => after == (Page { table: after.table, ..plain }),
            }
        }),
{
}

} // verus!
