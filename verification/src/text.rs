//! Styled text: spans, and lines made of spans.
use vstd::prelude::*;

use crate::chars::owned;
use crate::style::Style;

verus! {

/// A run of text in one style.
#[derive(Debug)]
pub struct Span {
    pub content: String,
    pub style: Style,
}

/// What a span holds.
#[verifier::ext_equal]
pub struct SpanView {
    pub text: Seq<char>,
    pub style: Style,
}

impl View for Span {
    type V = SpanView;

    open spec fn view(&self) -> SpanView {
        SpanView { text: self.content@, style: self.style }
    }
}

/// What a run of spans holds.
pub open spec fn spans_view(spans: Seq<Span>) -> Seq<SpanView> {
    Seq::new(spans.len(), |i: int| spans[i]@)
}

pub broadcast proof fn lemma_spans_push(spans: Seq<Span>, span: Span)
    ensures
        #[trigger] spans_view(spans.push(span)) == spans_view(spans).push(span@),
{
    assert(spans_view(spans.push(span)) =~= spans_view(spans).push(span@));
}

pub broadcast proof fn lemma_spans_add(a: Seq<Span>, b: Seq<Span>)
    ensures
        #[trigger] spans_view(a + b) == spans_view(a) + spans_view(b),
{
    assert(spans_view(a + b) =~= spans_view(a) + spans_view(b));
}

/// A span with the given text and style.
pub open spec fn span_view(text: Seq<char>, style: Style) -> SpanView {
    SpanView { text, style }
}

impl Span {
    /// A span in the given style.
    pub fn styled(content: String, style: Style) -> (span: Span)
        ensures
            span@ == span_view(content@, style),
            span.content == content,
    {
        Span { content, style }
    }

    /// A span in the plain style.
    pub fn raw(content: String) -> (span: Span)
        ensures
            span@ == span_view(content@, Style::plain()),
            span.content == content,
    {
        Span { content, style: Style::new() }
    }

    /// A copy of this span.
    pub fn duplicate(&self) -> (copy: Span)
        ensures
            copy == *self,
    {
        Span { content: self.content.clone(), style: self.style }
    }
}

/// A line of spans.
#[derive(Debug)]
pub struct Line {
    pub spans: Vec<Span>,
}

/// What a line holds.
pub type LineView = Seq<SpanView>;

impl View for Line {
    type V = LineView;

    open spec fn view(&self) -> LineView {
        spans_view(self.spans@)
    }
}

/// What a run of lines holds.
pub open spec fn lines_view(lines: Seq<Line>) -> Seq<LineView> {
    Seq::new(lines.len(), |i: int| lines[i]@)
}

pub broadcast proof fn lemma_lines_push(lines: Seq<Line>, line: Line)
    ensures
        #[trigger] lines_view(lines.push(line)) == lines_view(lines).push(line@),
{
    assert(lines_view(lines.push(line)) =~= lines_view(lines).push(line@));
}

pub broadcast group group_text_views {
    lemma_spans_push,
    lemma_spans_add,
    lemma_lines_push,
}

/// The text of a run of spans, without its styles.
pub open spec fn plain_text(spans: Seq<SpanView>) -> Seq<char>
    decreases spans.len(),
{
    if spans.len() == 0 {
        Seq::empty()
    } else {
        plain_text(spans.drop_last()) + spans.last().text
    }
}

impl Line {
    /// A line without spans.
    pub fn empty() -> (line: Line)
        ensures
            line@ == LineView::empty(),
            line.spans@.len() == 0,
    {
        let line = Line { spans: Vec::new() };
        assert(line@ =~= LineView::empty());
        line
    }

    /// A line of one span.
    pub fn of_span(span: Span) -> (line: Line)
        ensures
            line@ == seq![span@],
    {
        let mut spans: Vec<Span> = Vec::new();
        spans.push(span);
        let line = Line { spans };
        assert(line@ =~= seq![span@]);
        line
    }

    /// A line of one plain span.
    pub fn raw(text: &str) -> (line: Line)
        ensures
            line@ == seq![span_view(text@, Style::plain())],
    {
        Line::of_span(Span::raw(owned(text)))
    }

    /// A copy of this line.
    pub fn duplicate(&self) -> (copy: Line)
        ensures
            copy@ == self@,
            copy.spans@ == self.spans@,
    {
        let mut spans: Vec<Span> = Vec::new();
        let mut i: usize = 0;
        while i < self.spans.len()
            invariant
                i <= self.spans@.len(),
                spans@ == self.spans@.take(i as int),
            decreases self.spans.len() - i,
        {
            spans.push(self.spans[i].duplicate());
            assert(self.spans@.take(i + 1) == self.spans@.take(i as int).push(
                self.spans@[i as int],
            ));
            i += 1;
        }
        assert(self.spans@.take(i as int) == self.spans@);
        Line { spans }
    }
}

/// A copy of every line.
pub fn duplicate_lines(lines: &Vec<Line>) -> (copy: Vec<Line>)
    ensures
        lines_view(copy@) == lines_view(lines@),
{
    broadcast use lemma_lines_push;

    let mut copy: Vec<Line> = Vec::new();
    let mut i: usize = 0;
    assert(lines_view(copy@) =~= lines_view(lines@.take(0)));
    while i < lines.len()
        invariant
            i <= lines@.len(),
            lines_view(copy@) == lines_view(lines@.take(i as int)),
        decreases lines.len() - i,
    {
        copy.push(lines[i].duplicate());
        assert(lines@.take(i + 1) == lines@.take(i as int).push(lines@[i as int]));
        assert(lines_view(lines@.take(i + 1)) == lines_view(lines@.take(i as int)).push(
            lines@[i as int]@,
        ));
        i += 1;
    }
    assert(lines@.take(i as int) == lines@);
    copy
}

/// The text of a line, without its styles.
pub fn line_plain_text(line: &Line) -> (text: String)
    ensures
        text@ == plain_text(line@),
{
    let mut text = String::new();
    let mut i: usize = 0;
    assert(line@.take(0) == LineView::empty());
    while i < line.spans.len()
        invariant
            i <= line.spans@.len(),
            text@ == plain_text(line@.take(i as int)),
        decreases line.spans.len() - i,
    {
        text.append(line.spans[i].content.as_str());
        assert(line@.take(i + 1).drop_last() == line@.take(i as int));
        i += 1;
    }
    assert(line@.take(i as int) == line@);
    text
}

} // verus!
