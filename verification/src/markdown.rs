//! Markdown as a run of events.
use vstd::prelude::*;

verus! {

/// An event of the `pulldown-cmark` parser.
#[verifier::external_type_specification]
#[verifier::external_body]
pub struct ExParserEvent<'a>(pulldown_cmark::Event<'a>);

/// An element that begins. Elements that need no treatment when they begin have no variant.
#[derive(Debug)]
pub enum Tag {
    Heading(u8),
    BlockQuote,
    IndentedCode,
    FencedCode(String),
    List(Option<u64>),
    Item,
    Emphasis,
    Strong,
    Strikethrough,
    Link(String),
    Image(String),
    Table,
    FootnoteDefinition(String),
}

/// An element that ends. Elements that need no treatment when they end have no variant.
#[derive(Clone, Copy, Debug, PartialEq, Eq, Structural)]
pub enum TagEnd {
    Paragraph,
    Heading,
    BlockQuote,
    CodeBlock,
    List,
    Item,
    Emphasis,
    Strong,
    Strikethrough,
    Link,
    Image,
    TableCell,
    TableHead,
    TableRow,
    Table,
}

/// A step of a Markdown document.
#[derive(Debug)]
pub enum MarkdownEvent {
    Start(Tag),
    End(TagEnd),
    Text(String),
    Code(String),
    InlineMath(String),
    DisplayMath(String),
    Html(String),
    InlineHtml(String),
    FootnoteReference(String),
    SoftBreak,
    HardBreak,
    Rule,
    TaskListMarker(bool),
    Other,
}

/// What a [`Tag`] holds.
pub enum TagView {
    Heading(u8),
    BlockQuote,
    IndentedCode,
    FencedCode(Seq<char>),
    List(Option<u64>),
    Item,
    Emphasis,
    Strong,
    Strikethrough,
    Link(Seq<char>),
    Image(Seq<char>),
    Table,
    FootnoteDefinition(Seq<char>),
}

/// What an [`MarkdownEvent`] holds.
pub enum EventView {
    Start(TagView),
    End(TagEnd),
    Text(Seq<char>),
    Code(Seq<char>),
    InlineMath(Seq<char>),
    DisplayMath(Seq<char>),
    Html(Seq<char>),
    InlineHtml(Seq<char>),
    FootnoteReference(Seq<char>),
    SoftBreak,
    HardBreak,
    Rule,
    TaskListMarker(bool),
    Other,
}

impl View for Tag {
    type V = TagView;

    open spec fn view(&self) -> TagView {
        match *self {
            Tag::Heading(level) => TagView::Heading(level),
            Tag::BlockQuote => TagView::BlockQuote,
            Tag::IndentedCode => TagView::IndentedCode,
            Tag::FencedCode(info) => TagView::FencedCode(info@),
            Tag::List(start) => TagView::List(start),
            Tag::Item => TagView::Item,
            Tag::Emphasis => TagView::Emphasis,
            Tag::Strong => TagView::Strong,
            Tag::Strikethrough => TagView::Strikethrough,
            Tag::Link(url) => TagView::Link(url@),
            Tag::Image(url) => TagView::Image(url@),
            Tag::Table => TagView::Table,
            Tag::FootnoteDefinition(name) => TagView::FootnoteDefinition(name@),
        }
    }
}

impl View for MarkdownEvent {
    type V = EventView;

    open spec fn view(&self) -> EventView {
        match *self {
            MarkdownEvent::Start(tag) => EventView::Start(tag@),
            MarkdownEvent::End(tag) => EventView::End(tag),
            MarkdownEvent::Text(text) => EventView::Text(text@),
            MarkdownEvent::Code(text) => EventView::Code(text@),
            MarkdownEvent::InlineMath(text) => EventView::InlineMath(text@),
            MarkdownEvent::DisplayMath(text) => EventView::DisplayMath(text@),
            MarkdownEvent::Html(text) => EventView::Html(text@),
            MarkdownEvent::InlineHtml(text) => EventView::InlineHtml(text@),
            MarkdownEvent::FootnoteReference(name) => EventView::FootnoteReference(name@),
            MarkdownEvent::SoftBreak => EventView::SoftBreak,
            MarkdownEvent::HardBreak => EventView::HardBreak,
            MarkdownEvent::Rule => EventView::Rule,
            MarkdownEvent::TaskListMarker(done) => EventView::TaskListMarker(done),
            MarkdownEvent::Other => EventView::Other,
        }
    }
}

/// What a run of events holds.
pub open spec fn events_view(events: Seq<MarkdownEvent>) -> Seq<EventView> {
    Seq::new(events.len(), |i: int| events[i]@)
}

/// Which extensions the parser understands beyond CommonMark.
#[derive(Clone, Copy, PartialEq, Eq, Structural, Debug)]
pub struct Extensions {
    pub tables: bool,
    pub footnotes: bool,
    pub strikethrough: bool,
    pub task_lists: bool,
}

/// The events that the parser makes of a text.
pub uninterp spec fn parsed(text: Seq<char>, extensions: Extensions) -> Seq<
    pulldown_cmark::Event<'static>,
>;

/// What a parser event says in terms of this module.
pub uninterp spec fn event_meaning(event: pulldown_cmark::Event<'static>) -> EventView;

/// `Parser::new_ext` runs through the text and yields its events.
#[verifier::external_body]
fn parse(text: &str, extensions: Extensions) -> (events: Vec<pulldown_cmark::Event<'static>>)
    ensures
        events@ == parsed(text@, extensions),
{
    let mut options = pulldown_cmark::Options::empty();
    options.set(pulldown_cmark::Options::ENABLE_TABLES, extensions.tables);
    options.set(pulldown_cmark::Options::ENABLE_FOOTNOTES, extensions.footnotes);
    options.set(pulldown_cmark::Options::ENABLE_STRIKETHROUGH, extensions.strikethrough);
    options.set(pulldown_cmark::Options::ENABLE_TASKLISTS, extensions.task_lists);
    pulldown_cmark::Parser::new_ext(text, options).map(|event| event.into_static()).collect()
}

/// Whether an event carries text of its own.
pub open spec fn is_text_event(event: EventView) -> bool {
    event is Text || event is Code || event is InlineMath || event is DisplayMath || event is Html
        || event is InlineHtml || event is FootnoteReference
}

/// The variants of a parser event that carry text of their own.
#[verifier::external_body]
fn as_text_event(event: &pulldown_cmark::Event<'static>) -> (same: Option<MarkdownEvent>)
    ensures
        same is Some <==> is_text_event(event_meaning(*event)),
        same is Some ==> same->0@ == event_meaning(*event),
{
    Some(match event {
        pulldown_cmark::Event::Text(text) => MarkdownEvent::Text(text.to_string()),
        pulldown_cmark::Event::Code(text) => MarkdownEvent::Code(text.to_string()),
        pulldown_cmark::Event::InlineMath(text) => MarkdownEvent::InlineMath(text.to_string()),
        pulldown_cmark::Event::DisplayMath(text) => MarkdownEvent::DisplayMath(text.to_string()),
        pulldown_cmark::Event::Html(text) => MarkdownEvent::Html(text.to_string()),
        pulldown_cmark::Event::InlineHtml(text) => MarkdownEvent::InlineHtml(text.to_string()),
        pulldown_cmark::Event::FootnoteReference(name) => {
            MarkdownEvent::FootnoteReference(name.to_string())
        },
        _ => return None,
    })
}

/// Whether an event stands for itself: breaks, rules and check boxes.
pub open spec fn is_mark_event(event: EventView) -> bool {
    event is SoftBreak || event is HardBreak || event is Rule || event is TaskListMarker
}

/// The variants of a parser event that stand for themselves.
#[verifier::external_body]
fn as_mark_event(event: &pulldown_cmark::Event<'static>) -> (same: Option<MarkdownEvent>)
    ensures
        same is Some <==> is_mark_event(event_meaning(*event)),
        same is Some ==> same->0@ == event_meaning(*event),
{
    match event {
        pulldown_cmark::Event::SoftBreak => Some(MarkdownEvent::SoftBreak),
        pulldown_cmark::Event::HardBreak => Some(MarkdownEvent::HardBreak),
        pulldown_cmark::Event::Rule => Some(MarkdownEvent::Rule),
        pulldown_cmark::Event::TaskListMarker(done) => Some(MarkdownEvent::TaskListMarker(*done)),
        _ => None,
    }
}

/// Whether a tag opens a block.
pub open spec fn is_block_tag(tag: TagView) -> bool {
    tag is Heading || tag is BlockQuote || tag is IndentedCode || tag is FencedCode || tag is List
        || tag is Item || tag is Table || tag is FootnoteDefinition
}

/// Whether an event opens a block.
pub open spec fn opens_block(event: EventView) -> bool {
    event matches EventView::Start(tag) && is_block_tag(tag)
}

/// Whether an event opens a stretch of text.
pub open spec fn opens_inline(event: EventView) -> bool {
    event matches EventView::Start(tag) && !is_block_tag(tag)
}

/// The parser events that open a block, without those that need no treatment.
#[verifier::external_body]
fn as_block_start(event: &pulldown_cmark::Event<'static>) -> (opened: Option<Tag>)
    ensures
        opened is Some <==> opens_block(event_meaning(*event)),
        opened is Some ==> event_meaning(*event) == EventView::Start(opened->0@),
{
    let pulldown_cmark::Event::Start(tag) = event else { return None };
    Some(match tag {
        pulldown_cmark::Tag::Heading { level, .. } => Tag::Heading(*level as u8),
        pulldown_cmark::Tag::BlockQuote(_) => Tag::BlockQuote,
        pulldown_cmark::Tag::CodeBlock(kind) => match kind {
            pulldown_cmark::CodeBlockKind::Fenced(info) => Tag::FencedCode(info.to_string()),
            pulldown_cmark::CodeBlockKind::Indented => Tag::IndentedCode,
        },
        pulldown_cmark::Tag::List(start) => Tag::List(*start),
        pulldown_cmark::Tag::Item => Tag::Item,
        pulldown_cmark::Tag::Table(_) => Tag::Table,
        pulldown_cmark::Tag::FootnoteDefinition(name) => Tag::FootnoteDefinition(name.to_string()),
        _ => return None,
    })
}

/// The parser events that open a stretch of text, without those that need no treatment.
#[verifier::external_body]
fn as_inline_start(event: &pulldown_cmark::Event<'static>) -> (opened: Option<Tag>)
    ensures
        opened is Some <==> opens_inline(event_meaning(*event)),
        opened is Some ==> event_meaning(*event) == EventView::Start(opened->0@),
{
    let pulldown_cmark::Event::Start(tag) = event else { return None };
    Some(match tag {
        pulldown_cmark::Tag::Emphasis => Tag::Emphasis,
        pulldown_cmark::Tag::Strong => Tag::Strong,
        pulldown_cmark::Tag::Strikethrough => Tag::Strikethrough,
        pulldown_cmark::Tag::Link { dest_url, .. } => Tag::Link(dest_url.to_string()),
        pulldown_cmark::Tag::Image { dest_url, .. } => Tag::Image(dest_url.to_string()),
        _ => return None,
    })
}

/// Whether a tag closes a block that is not part of a table.
pub open spec fn is_block_end(tag: TagEnd) -> bool {
    tag is Paragraph || tag is Heading || tag is BlockQuote || tag is CodeBlock || tag is List
        || tag is Item
}

/// Whether an event closes a block that is not part of a table.
pub open spec fn closes_block(event: EventView) -> bool {
    event matches EventView::End(tag) && is_block_end(tag)
}

/// Whether an event closes a stretch of text or a part of a table.
pub open spec fn closes_inline(event: EventView) -> bool {
    event matches EventView::End(tag) && !is_block_end(tag)
}

/// The parser events that close a block, without tables and those that need no treatment.
#[verifier::external_body]
fn as_block_end(event: &pulldown_cmark::Event<'static>) -> (closed: Option<TagEnd>)
    ensures
        closed is Some <==> closes_block(event_meaning(*event)),
        closed is Some ==> event_meaning(*event) == EventView::End(closed->0),
{
    let pulldown_cmark::Event::End(tag) = event else { return None };
    match tag {
        pulldown_cmark::TagEnd::Paragraph => Some(TagEnd::Paragraph),
        pulldown_cmark::TagEnd::Heading(_) => Some(TagEnd::Heading),
        pulldown_cmark::TagEnd::BlockQuote(_) => Some(TagEnd::BlockQuote),
        pulldown_cmark::TagEnd::CodeBlock => Some(TagEnd::CodeBlock),
        pulldown_cmark::TagEnd::List(_) => Some(TagEnd::List),
        pulldown_cmark::TagEnd::Item => Some(TagEnd::Item),
        _ => None,
    }
}

/// The parser events that close a stretch of text or a part of a table.
#[verifier::external_body]
fn as_inline_end(event: &pulldown_cmark::Event<'static>) -> (closed: Option<TagEnd>)
    ensures
        closed is Some <==> closes_inline(event_meaning(*event)),
        closed is Some ==> event_meaning(*event) == EventView::End(closed->0),
{
    let pulldown_cmark::Event::End(tag) = event else { return None };
    match tag {
        pulldown_cmark::TagEnd::Emphasis => Some(TagEnd::Emphasis),
        pulldown_cmark::TagEnd::Strong => Some(TagEnd::Strong),
        pulldown_cmark::TagEnd::Strikethrough => Some(TagEnd::Strikethrough),
        pulldown_cmark::TagEnd::Link => Some(TagEnd::Link),
        pulldown_cmark::TagEnd::Image => Some(TagEnd::Image),
        pulldown_cmark::TagEnd::TableCell => Some(TagEnd::TableCell),
        pulldown_cmark::TagEnd::TableHead => Some(TagEnd::TableHead),
        pulldown_cmark::TagEnd::TableRow => Some(TagEnd::TableRow),
        pulldown_cmark::TagEnd::Table => Some(TagEnd::Table),
        _ => None,
    }
}

/// What a parser event says.
fn read_event(event: &pulldown_cmark::Event<'static>) -> (read: MarkdownEvent)
    ensures
        read@ == event_meaning(*event),
{
    if let Some(same) = as_text_event(event) {
        return same;
    }
    if let Some(same) = as_mark_event(event) {
        return same;
    }
    if let Some(tag) = as_block_start(event) {
        return MarkdownEvent::Start(tag);
    }
    if let Some(tag) = as_inline_start(event) {
        return MarkdownEvent::Start(tag);
    }
    if let Some(tag) = as_block_end(event) {
        return MarkdownEvent::End(tag);
    }
    if let Some(tag) = as_inline_end(event) {
        return MarkdownEvent::End(tag);
    }
    MarkdownEvent::Other
}

/// The extensions that documents are read with.
pub open spec fn document_extensions() -> Extensions {
    Extensions { tables: true, footnotes: true, strikethrough: true, task_lists: true }
}

/// The events of a Markdown document.
pub open spec fn document_events(text: Seq<char>) -> Seq<EventView> {
    Seq::new(
        parsed(text, document_extensions()).len(),
        |i: int| event_meaning(parsed(text, document_extensions())[i]),
    )
}

/// The events of a Markdown document, with tables, footnotes, strikethrough and task lists.
pub fn read_document(text: &str) -> (events: Vec<MarkdownEvent>)
    ensures
        events_view(events@) == document_events(text@),
{
    let extensions = Extensions {
        tables: true,
        footnotes: true,
        strikethrough: true,
        task_lists: true,
    };
    let parser_events = parse(text, extensions);
    let mut events: Vec<MarkdownEvent> = Vec::new();
    let mut i: usize = 0;
    while i < parser_events.len()
        invariant
            i <= parser_events@.len(),
            events@.len() == i,
            forall|k: int|
                0 <= k < i ==> (#[trigger] events@[k])@ == event_meaning(parser_events@[k]),
        decreases parser_events.len() - i,
    {
        events.push(read_event(&parser_events[i]));
        i += 1;
    }
    assert(events_view(events@) =~= document_events(text@));
    events
}

} // verus!
