//! Highlighting parts of a styled line.
use regex::Regex;
use vstd::prelude::*;

use crate::chars::{chars_of, string_of};
use crate::pattern::{
    find_ranges, has_full_matches, is_literal, match_ranges, on_boundary,
};
use crate::style::{Modifier, Style};
use crate::text::{
    group_text_views, line_plain_text, lines_view, plain_text, span_view, spans_view, Line,
    LineView, Span, SpanView,
};
use crate::width::{
    byte_len, char_index_for_byte, chars_before, law_byte_offset_round_trip,
    lemma_byte_len_encoding, lemma_byte_len_take, lemma_chars_before_monotonic,
};

verus! {

/// The character that a byte offset of `text` stands before; an offset past the end lies past
/// every character.
pub open spec fn char_place(text: Seq<char>, offset: int) -> int {
    if offset <= byte_len(text) {
        chars_before(text, offset)
    } else {
        text.len() as int + 1
    }
}

/// Byte ranges of `text` as ranges of characters.
pub open spec fn char_ranges(text: Seq<char>, ranges: Seq<(usize, usize)>) -> Seq<(int, int)> {
    Seq::new(
        ranges.len(),
        |i: int| (char_place(text, ranges[i].0 as int), char_place(text, ranges[i].1 as int)),
    )
}

/// One piece of a span, or none where it would hold no character.
pub open spec fn piece(text: Seq<char>, from: int, to: int, style: Style) -> Seq<SpanView> {
    if from < to {
        seq![span_view(text.subrange(from, to), style)]
    } else {
        Seq::empty()
    }
}

/// The pieces that a span starting at `start` is cut into from its character `cursor` on, and the
/// range to go on with behind it. The ranges are taken in turn from `next` on: one that is over
/// before the span is passed by, and the first that begins or ends behind the span is kept for
/// what follows. What lies between two ranges keeps the style `base`.
pub open spec fn span_pieces(
    text: Seq<char>,
    base: Style,
    start: int,
    ranges: Seq<(int, int)>,
    next: int,
    cursor: int,
    top: Style,
) -> (Seq<SpanView>, int)
    decreases ranges.len() - next,
{
    let end = start + text.len();
    let rest = piece(text, cursor, text.len() as int, base);
    if next >= ranges.len() {
        (rest, next)
    } else if ranges[next].1 <= start {
        span_pieces(text, base, start, ranges, next + 1, cursor, top)
    } else if ranges[next].0 >= end {
        (rest, next)
    } else {
        let from = if ranges[next].0 < start { 0 } else { ranges[next].0 - start };
        let to = if ranges[next].1 < end { ranges[next].1 - start } else { text.len() as int };
        let now = piece(text, cursor, from, base) + piece(text, from, to, base.overlaid(top));
        let reached = if from < to { to } else { cursor };
        if ranges[next].1 <= end {
            let after = span_pieces(text, base, start, ranges, next + 1, reached, top);
            (now + after.0, after.1)
        } else {
            (now + piece(text, reached, text.len() as int, base), next)
        }
    }
}

/// A line cut up along the ranges, and the range that would come next.
pub open spec fn line_pieces(spans: Seq<SpanView>, ranges: Seq<(int, int)>, top: Style) -> (
    Seq<SpanView>,
    int,
)
    decreases spans.len(),
{
    if spans.len() == 0 {
        (Seq::empty(), 0)
    } else {
        let before = line_pieces(spans.drop_last(), ranges, top);
        let last = span_pieces(
            spans.last().text,
            spans.last().style,
            plain_text(spans.drop_last()).len() as int,
            ranges,
            before.1,
            0,
            top,
        );
        (before.0 + last.0, last.1)
    }
}

/// A line with `top` laid over what the ranges cover.
pub open spec fn highlighted_spans(
    spans: Seq<SpanView>,
    ranges: Seq<(int, int)>,
    top: Style,
) -> Seq<SpanView> {
    line_pieces(spans, ranges, top).0
}

/// Whether some range covers the character at `at`.
pub open spec fn is_inside(ranges: Seq<(int, int)>, at: int) -> bool {
    exists|i: int| 0 <= i < ranges.len() && (#[trigger] ranges[i]).0 <= at < ranges[i].1
}

/// The style of the character at `at`, once covered characters are overlaid.
pub open spec fn style_at(ranges: Seq<(int, int)>, at: int, base: Style, top: Style) -> Style {
    if is_inside(ranges, at) {
        base.overlaid(top)
    } else {
        base
    }
}

/// Whether ranges of characters go from left to right without overlap, each with a character in
/// it.
pub open spec fn in_order(ranges: Seq<(int, int)>) -> bool {
    &&& forall|i: int| 0 <= i < ranges.len() ==> (#[trigger] ranges[i]).0 < ranges[i].1
    &&& forall|i: int, j: int|
        #![trigger ranges[i], ranges[j]]
        0 <= i < j < ranges.len() ==> ranges[i].1 <= ranges[j].0
}

/// Every character of a line with the style it is drawn in.
pub open spec fn styled_chars(spans: Seq<SpanView>) -> Seq<(char, Style)>
    decreases spans.len(),
{
    if spans.len() == 0 {
        Seq::empty()
    } else {
        styled_chars(spans.drop_last()) + Seq::new(
            spans.last().text.len(),
            |i: int| (spans.last().text[i], spans.last().style),
        )
    }
}

proof fn lemma_styled_chars_add(a: Seq<SpanView>, b: Seq<SpanView>)
    ensures
        styled_chars(a + b) == styled_chars(a) + styled_chars(b),
        plain_text(a + b) == plain_text(a) + plain_text(b),
    decreases b.len(),
{
    if b.len() == 0 {
        assert(a + b == a);
        assert(styled_chars(b) == Seq::<(char, Style)>::empty());
    } else {
        lemma_styled_chars_add(a, b.drop_last());
        assert((a + b).drop_last() == a + b.drop_last());
        assert(styled_chars(a + b) =~= styled_chars(a) + styled_chars(b));
        assert(plain_text(a + b) =~= plain_text(a) + plain_text(b));
    }
}

pub proof fn lemma_styled_chars_len(spans: Seq<SpanView>)
    ensures
        styled_chars(spans).len() == plain_text(spans).len(),
        forall|i: int|
            0 <= i < plain_text(spans).len() ==> (#[trigger] styled_chars(spans)[i]).0
                == plain_text(spans)[i],
    decreases spans.len(),
{
    if spans.len() > 0 {
        lemma_styled_chars_len(spans.drop_last());
    }
}

proof fn lemma_piece(text: Seq<char>, from: int, to: int, style: Style)
    requires
        0 <= from <= to <= text.len(),
    ensures
        styled_chars(piece(text, from, to, style)) == Seq::new(
            (to - from) as nat,
            |i: int| (text[from + i], style),
        ),
{
    let pieces = piece(text, from, to, style);
    if from < to {
        assert(pieces.drop_last() == Seq::<SpanView>::empty());
        assert(styled_chars(pieces.drop_last()) == Seq::<(char, Style)>::empty());
    }
    assert(styled_chars(pieces) =~= Seq::new((to - from) as nat, |i: int| (text[from + i], style)));
}

/// The characters of a span from `from` to `to`, the covered ones overlaid.
spec fn overlaid_chars(
    text: Seq<char>,
    base: Style,
    start: int,
    ranges: Seq<(int, int)>,
    from: int,
    to: int,
    top: Style,
) -> Seq<(char, Style)> {
    Seq::new(
        (to - from) as nat,
        |i: int| (text[from + i], style_at(ranges, start + from + i, base, top)),
    )
}

/// A range that the span behind goes on with has not been over before it.
proof fn lemma_range_behind(
    text: Seq<char>,
    base: Style,
    start: int,
    ranges: Seq<(int, int)>,
    next: int,
    cursor: int,
    top: Style,
)
    requires
        0 <= next <= ranges.len(),
        forall|j: int| 0 <= j < next ==> (#[trigger] ranges[j]).1 <= start + text.len(),
    ensures
        next <= span_pieces(text, base, start, ranges, next, cursor, top).1 <= ranges.len(),
        forall|j: int|
            0 <= j < span_pieces(text, base, start, ranges, next, cursor, top).1 ==> (
            #[trigger] ranges[j]).1 <= start + text.len(),
    decreases ranges.len() - next,
{
    if next < ranges.len() {
        let end = start + text.len();
        if ranges[next].1 <= start {
            lemma_range_behind(text, base, start, ranges, next + 1, cursor, top);
        } else if ranges[next].0 < end && ranges[next].1 <= end {
            let from = if ranges[next].0 < start { 0 } else { ranges[next].0 - start };
            let to = if ranges[next].1 < end { ranges[next].1 - start } else { text.len() as int };
            let reached = if from < to { to } else { cursor };
            lemma_range_behind(text, base, start, ranges, next + 1, reached, top);
        }
    }
}

/// A piece without a covered character, or with covered ones alone.
proof fn lemma_even_piece(
    text: Seq<char>,
    base: Style,
    start: int,
    ranges: Seq<(int, int)>,
    from: int,
    to: int,
    top: Style,
    covered: bool,
)
    requires
        0 <= from <= to <= text.len(),
        forall|at: int| start + from <= at < start + to ==> is_inside(ranges, at) == covered,
    ensures
        styled_chars(
            piece(
                text,
                from,
                to,
                if covered {
                    base.overlaid(top)
                } else {
                    base
                },
            ),
        ) == overlaid_chars(text, base, start, ranges, from, to, top),
{
    let style = if covered { base.overlaid(top) } else { base };
    lemma_piece(text, from, to, style);
    assert(styled_chars(piece(text, from, to, style)) =~= overlaid_chars(
        text,
        base,
        start,
        ranges,
        from,
        to,
        top,
    ));
}

/// Ranges in order overlay exactly what they cover of a span.
#[verifier::spinoff_prover]
#[verifier::rlimit(30)]
proof fn lemma_span_pieces(
    text: Seq<char>,
    base: Style,
    start: int,
    ranges: Seq<(int, int)>,
    next: int,
    cursor: int,
    top: Style,
)
    requires
        in_order(ranges),
        0 <= next <= ranges.len(),
        0 <= cursor <= text.len(),
        forall|j: int| 0 <= j < next ==> (#[trigger] ranges[j]).1 <= start + cursor,
        cursor > 0 && next < ranges.len() ==> ranges[next].0 >= start + cursor,
    ensures
        styled_chars(span_pieces(text, base, start, ranges, next, cursor, top).0)
            == overlaid_chars(text, base, start, ranges, cursor, text.len() as int, top),
    decreases ranges.len() - next,
{
    let len = text.len() as int;
    let end = start + len;
    if next < ranges.len() && ranges[next].1 <= start {
        lemma_span_pieces(text, base, start, ranges, next + 1, cursor, top);
    } else if next == ranges.len() || ranges[next].0 >= end {
        assert forall|at: int| start + cursor <= at < end implies !is_inside(ranges, at) by {
            lemma_uncovered(ranges, next, at);
        }
        lemma_even_piece(text, base, start, ranges, cursor, len, top, false);
    } else {
        let from = if ranges[next].0 < start { 0 } else { ranges[next].0 - start };
        let to = if ranges[next].1 < end { ranges[next].1 - start } else { len };
        let plain = piece(text, cursor, from, base);
        let marked = piece(text, from, to, base.overlaid(top));
        let reached = if from < to { to } else { cursor };
        assert(cursor <= from <= to == reached);
        let after = if ranges[next].1 <= end {
            span_pieces(text, base, start, ranges, next + 1, to, top).0
        } else {
            piece(text, to, len, base)
        };
        assert(span_pieces(text, base, start, ranges, next, cursor, top).0 == plain + marked
            + after);
        assert(styled_chars(plain) == overlaid_chars(text, base, start, ranges, cursor, from, top))
            by {
            assert forall|at: int| start + cursor <= at < start + from implies !is_inside(
                ranges,
                at,
            ) by {
                lemma_uncovered(ranges, next, at);
            }
            lemma_even_piece(text, base, start, ranges, cursor, from, top, false);
        }
        assert(styled_chars(marked) == overlaid_chars(text, base, start, ranges, from, to, top))
            by {
            assert forall|at: int| start + from <= at < start + to implies is_inside(
                ranges,
                at,
            ) by {
                assert(ranges[next].0 <= at < ranges[next].1);
            }
            lemma_even_piece(text, base, start, ranges, from, to, top, true);
        }
        assert(styled_chars(after) == overlaid_chars(text, base, start, ranges, to, len, top)) by {
            if ranges[next].1 <= end {
                lemma_span_pieces(text, base, start, ranges, next + 1, to, top);
            } else {
                lemma_even_piece(text, base, start, ranges, to, len, top, false);
            }
        }
        assert(styled_chars(plain + marked + after) == overlaid_chars(
            text,
            base,
            start,
            ranges,
            cursor,
            len,
            top,
        )) by {
            lemma_styled_chars_add(plain, marked);
            lemma_styled_chars_add(plain + marked, after);
            lemma_overlaid_chars_add(text, base, start, ranges, cursor, from, to, top);
            lemma_overlaid_chars_add(text, base, start, ranges, cursor, to, len, top);
        }
    }
}

proof fn lemma_overlaid_chars_add(
    text: Seq<char>,
    base: Style,
    start: int,
    ranges: Seq<(int, int)>,
    from: int,
    mid: int,
    to: int,
    top: Style,
)
    requires
        from <= mid <= to,
    ensures
        overlaid_chars(text, base, start, ranges, from, to, top) == overlaid_chars(
            text,
            base,
            start,
            ranges,
            from,
            mid,
            top,
        ) + overlaid_chars(text, base, start, ranges, mid, to, top),
{
    assert(overlaid_chars(text, base, start, ranges, from, to, top) =~= overlaid_chars(
        text,
        base,
        start,
        ranges,
        from,
        mid,
        top,
    ) + overlaid_chars(text, base, start, ranges, mid, to, top));
}

/// A character between two ranges is covered by none.
proof fn lemma_uncovered(ranges: Seq<(int, int)>, next: int, at: int)
    requires
        in_order(ranges),
        0 <= next <= ranges.len(),
        forall|j: int| 0 <= j < next ==> (#[trigger] ranges[j]).1 <= at,
        next < ranges.len() ==> at < ranges[next].0,
    ensures
        !is_inside(ranges, at),
{
    if is_inside(ranges, at) {
        let i = choose|i: int|
            0 <= i < ranges.len() && (#[trigger] ranges[i]).0 <= at < ranges[i].1;
        if next < i {
            assert(ranges[next].1 <= ranges[i].0);
        }
    }
}

/// Ranges in order change no character of a line, and overlay the style of exactly those that they
/// cover.
pub proof fn law_highlight_overlays_covered_chars(
    spans: Seq<SpanView>,
    ranges: Seq<(int, int)>,
    top: Style,
)
    requires
        in_order(ranges),
    ensures
        plain_text(highlighted_spans(spans, ranges, top)) == plain_text(spans),
        styled_chars(highlighted_spans(spans, ranges, top)) == Seq::new(
            styled_chars(spans).len(),
            |i: int|
                (
                    styled_chars(spans)[i].0,
                    style_at(ranges, i, styled_chars(spans)[i].1, top),
                ),
        ),
{
    lemma_line_pieces(spans, ranges, top);
    let out = highlighted_spans(spans, ranges, top);
    lemma_styled_chars_len(out);
    lemma_styled_chars_len(spans);
    assert(plain_text(out) =~= plain_text(spans)) by {
        assert forall|i: int| 0 <= i < plain_text(spans).len() implies plain_text(out)[i]
            == plain_text(spans)[i] by {
            assert(styled_chars(out)[i].0 == plain_text(out)[i]);
            assert(styled_chars(spans)[i].0 == plain_text(spans)[i]);
        }
    }
}

proof fn lemma_line_pieces(spans: Seq<SpanView>, ranges: Seq<(int, int)>, top: Style)
    requires
        in_order(ranges),
    ensures
        styled_chars(line_pieces(spans, ranges, top).0) == Seq::new(
            styled_chars(spans).len(),
            |i: int|
                (
                    styled_chars(spans)[i].0,
                    style_at(ranges, i, styled_chars(spans)[i].1, top),
                ),
        ),
        0 <= line_pieces(spans, ranges, top).1 <= ranges.len(),
        forall|j: int|
            0 <= j < line_pieces(spans, ranges, top).1 ==> (#[trigger] ranges[j]).1 <= plain_text(
                spans,
            ).len(),
    decreases spans.len(),
{
    let out = line_pieces(spans, ranges, top).0;
    let want = Seq::new(
        styled_chars(spans).len(),
        |i: int|
            (styled_chars(spans)[i].0, style_at(ranges, i, styled_chars(spans)[i].1, top)),
    );
    if spans.len() > 0 {
        let before = spans.drop_last();
        let start = plain_text(before).len() as int;
        lemma_line_pieces(before, ranges, top);
        lemma_styled_chars_len(before);
        let next = line_pieces(before, ranges, top).1;
        let last = spans.last();
        lemma_span_pieces(last.text, last.style, start, ranges, next, 0, top);
        lemma_range_behind(last.text, last.style, start, ranges, next, 0, top);
        lemma_styled_chars_add(
            line_pieces(before, ranges, top).0,
            span_pieces(last.text, last.style, start, ranges, next, 0, top).0,
        );
    }
    assert(styled_chars(out) =~= want);
}

/// What the exec form of a list of character ranges stands for.
spec fn ranges_of(ranges: Seq<(usize, usize)>) -> Seq<(int, int)> {
    Seq::new(ranges.len(), |i: int| (ranges[i].0 as int, ranges[i].1 as int))
}

/// The character that a byte offset of a text with `bytes` bytes stands before.
fn place_of(chars: &Vec<char>, bytes: usize, offset: usize) -> (place: usize)
    requires
        bytes == byte_len(chars@),
    ensures
        place == char_place(chars@, offset as int),
{
    if offset <= bytes {
        char_index_for_byte(chars, offset)
    } else {
        proof {
            lemma_byte_len_take(chars@, 0, chars@.len() as int);
            assert(chars@.take(chars@.len() as int) == chars@);
        }
        chars.len() + 1
    }
}

/// Byte ranges of `text` as ranges of characters.
fn to_char_ranges(text: &str, ranges: &Vec<(usize, usize)>) -> (out: Vec<(usize, usize)>)
    ensures
        ranges_of(out@) == char_ranges(text@, ranges@),
{
    let chars = chars_of(text);
    let bytes = text.as_bytes().len();
    proof {
        lemma_byte_len_encoding(text@);
    }
    let mut out: Vec<(usize, usize)> = Vec::new();
    let mut i: usize = 0;
    while i < ranges.len()
        invariant
            i <= ranges@.len(),
            chars@ == text@,
            bytes == byte_len(text@),
            out@.len() == i,
            forall|k: int|
                0 <= k < i ==> (#[trigger] out@[k]).0 == char_place(text@, ranges@[k].0 as int)
                    && out@[k].1 == char_place(text@, ranges@[k].1 as int),
        decreases ranges.len() - i,
    {
        let start = place_of(&chars, bytes, ranges[i].0);
        let end = place_of(&chars, bytes, ranges[i].1);
        out.push((start, end));
        i += 1;
    }
    assert(ranges_of(out@) =~= char_ranges(text@, ranges@));
    out
}

/// Puts one piece of a span behind `out`, unless it would hold no character.
fn push_piece(out: &mut Vec<Span>, chars: &Vec<char>, from: usize, to: usize, style: Style)
    requires
        to <= chars@.len(),
    ensures
        spans_view(final(out)@) == spans_view(old(out)@) + piece(
            chars@,
            from as int,
            to as int,
            style,
        ),
{
    broadcast use group_text_views;

    if from < to {
        out.push(Span::styled(string_of(chars, from, to), style));
    }
    assert(spans_view(out@) =~= spans_view(old(out)@) + piece(
        chars@,
        from as int,
        to as int,
        style,
    ));
}

/// Puts the pieces of a span that starts at `start` behind `out`, and returns the range to go on
/// with.
fn push_span_pieces(
    out: &mut Vec<Span>,
    chars: &Vec<char>,
    base: Style,
    start: usize,
    ranges: &Vec<(usize, usize)>,
    first: usize,
    top: Style,
) -> (behind: usize)
    requires
        first <= ranges@.len(),
        start + chars@.len() <= usize::MAX,
    ensures
        behind <= ranges@.len(),
        spans_view(final(out)@) == spans_view(old(out)@) + span_pieces(
            chars@,
            base,
            start as int,
            ranges_of(ranges@),
            first as int,
            0,
            top,
        ).0,
        behind == span_pieces(
            chars@,
            base,
            start as int,
            ranges_of(ranges@),
            first as int,
            0,
            top,
        ).1,
{
    let len = chars.len();
    let end = start + len;
    let ghost covered = ranges_of(ranges@);
    let ghost whole = span_pieces(chars@, base, start as int, covered, first as int, 0, top);
    let mut next: usize = first;
    let mut cursor: usize = 0;
    while next < ranges.len()
        invariant
            next <= ranges@.len(),
            cursor <= len == chars@.len(),
            end == start + len,
            covered == ranges_of(ranges@),
            whole == span_pieces(chars@, base, start as int, covered, first as int, 0, top),
            spans_view(out@) + span_pieces(
                chars@,
                base,
                start as int,
                covered,
                next as int,
                cursor as int,
                top,
            ).0 == spans_view(old(out)@) + whole.0,
            span_pieces(
                chars@,
                base,
                start as int,
                covered,
                next as int,
                cursor as int,
                top,
            ).1 == whole.1,
        decreases ranges.len() - next,
    {
        let (range_start, range_end) = ranges[next];
        assert(covered[next as int] == (range_start as int, range_end as int));
        if range_end <= start {
            next += 1;
        } else if range_start >= end {
            push_piece(out, chars, cursor, len, base);
            return next;
        } else {
            let from = if range_start < start {
                0
            } else {
                range_start - start
            };
            let to = if range_end < end {
                range_end - start
            } else {
                len
            };
            let ghost earlier = spans_view(out@);
            let ghost plain = piece(chars@, cursor as int, from as int, base);
            let ghost marked = piece(chars@, from as int, to as int, base.overlaid(top));
            push_piece(out, chars, cursor, from, base);
            push_piece(out, chars, from, to, base.patch(top));
            let reached = if from < to {
                to
            } else {
                cursor
            };
            if range_end <= end {
                let ghost after = span_pieces(
                    chars@,
                    base,
                    start as int,
                    covered,
                    next + 1,
                    reached as int,
                    top,
                ).0;
                assert(earlier + plain + marked + after == earlier + (plain + marked + after));
                cursor = reached;
                next += 1;
            } else {
                let ghost after = piece(chars@, reached as int, len as int, base);
                assert(earlier + plain + marked + after == earlier + (plain + marked + after));
                push_piece(out, chars, reached, len, base);
                return next;
            }
        }
    }
    push_piece(out, chars, cursor, len, base);
    next
}

/// A line with `highlight_style` laid over what the byte ranges cover.
pub fn apply_highlight_ranges(
    line: &Line,
    ranges: &Vec<(usize, usize)>,
    highlight_style: Style,
) -> (out: Line)
    requires
        forall|i: int|
            #![trigger ranges@[i]]
            0 <= i < ranges@.len() ==> on_boundary(plain_text(line@), ranges@[i].0 as int)
                && on_boundary(plain_text(line@), ranges@[i].1 as int),
    ensures
        out@ == highlighted_spans(
            line@,
            char_ranges(plain_text(line@), ranges@),
            highlight_style,
        ),
{
    broadcast use group_text_views;

    let text = line_plain_text(line);
    let cuts = to_char_ranges(text.as_str(), ranges);
    let total = chars_of(text.as_str()).len();
    let ghost covered = ranges_of(cuts@);
    let mut out: Vec<Span> = Vec::new();
    let mut offset: usize = 0;
    let mut next: usize = 0;
    let mut i: usize = 0;
    assert(line@.take(0) == LineView::empty());
    assert(spans_view(out@) == Seq::<SpanView>::empty());
    while i < line.spans.len()
        invariant
            i <= line.spans@.len(),
            total == plain_text(line@).len(),
            covered == ranges_of(cuts@),
            next <= cuts@.len(),
            offset == plain_text(line@.take(i as int)).len(),
            spans_view(out@) == line_pieces(line@.take(i as int), covered, highlight_style).0,
            next == line_pieces(line@.take(i as int), covered, highlight_style).1,
        decreases line.spans.len() - i,
    {
        let chars = chars_of(line.spans[i].content.as_str());
        assert(line@.take(i + 1).drop_last() == line@.take(i as int));
        assert(line@.take(i + 1).last() == line.spans@[i as int]@);
        proof {
            lemma_plain_text_prefix(line@, i + 1);
        }
        next = push_span_pieces(
            &mut out,
            &chars,
            line.spans[i].style,
            offset,
            &cuts,
            next,
            highlight_style,
        );
        offset += chars.len();
        i += 1;
    }
    assert(line@.take(i as int) == line@);
    Line { spans: out }
}

proof fn lemma_plain_text_prefix(spans: Seq<SpanView>, upto: int)
    requires
        0 <= upto <= spans.len(),
    ensures
        plain_text(spans.take(upto)).len() <= plain_text(spans).len(),
    decreases spans.len() - upto,
{
    if upto == spans.len() {
        assert(spans.take(upto) == spans);
    } else {
        lemma_plain_text_prefix(spans, upto + 1);
        assert(spans.take(upto + 1).drop_last() == spans.take(upto));
    }
}

/// How a match is marked; the one that the reader is at stands out more.
pub open spec fn match_style(active: bool) -> Style {
    Style::plain().with(Modifier { reversed: true, bold: active, ..Modifier::none() })
}

/// A line with the matches of an expression marked.
pub open spec fn line_with_matches(line: LineView, expression: Regex, active: bool) -> LineView {
    let ranges = match_ranges(expression, plain_text(line));
    if ranges.len() == 0 {
        line
    } else {
        highlighted_spans(line, char_ranges(plain_text(line), ranges), match_style(active))
    }
}

/// All lines with the matches of an expression marked.
pub open spec fn lines_with_matches(
    lines: Seq<LineView>,
    expression: Regex,
    active_match_line: Option<usize>,
) -> Seq<LineView> {
    Seq::new(
        lines.len(),
        |i: int|
            line_with_matches(
                lines[i],
                expression,
                active_match_line is Some && active_match_line->0 == i,
            ),
    )
}

/// All lines with the matches of an expression marked.
pub fn highlight_lines(
    lines: &Vec<Line>,
    expression: &Regex,
    active_match_line: Option<usize>,
) -> (out: Vec<Line>)
    ensures
        lines_view(out@) == lines_with_matches(
            lines_view(lines@),
            *expression,
            active_match_line,
        ),
        is_literal(*expression) ==> forall|k: int|
            0 <= k < lines@.len() ==> plain_text((#[trigger] out@[k])@) == plain_text(lines@[k]@),
{
    let mut out: Vec<Line> = Vec::new();
    let mut i: usize = 0;
    while i < lines.len()
        invariant
            i <= lines@.len(),
            out@.len() == i,
            forall|k: int|
                0 <= k < i ==> (#[trigger] out@[k])@ == line_with_matches(
                    lines@[k]@,
                    *expression,
                    active_match_line is Some && active_match_line->0 == k,
                ),
            is_literal(*expression) ==> forall|k: int|
                0 <= k < i ==> plain_text((#[trigger] out@[k])@) == plain_text(lines@[k]@),
        decreases lines.len() - i,
    {
        let text = line_plain_text(&lines[i]);
        let ranges = find_ranges(expression, text.as_str());
        proof {
            if is_literal(*expression) {
                assert(lines_view(lines@)[i as int] == lines@[i as int]@);
                law_matches_keep_text(
                    lines_view(lines@),
                    *expression,
                    active_match_line,
                    i as int,
                );
            }
        }
        let active = match active_match_line {
            Some(index) => index == i,
            None => false,
        };
        if ranges.is_empty() {
            out.push(lines[i].duplicate());
        } else {
            let style = if active {
                Style::new().add_modifier(Modifier::reversed().union(Modifier::bold()))
            } else {
                Style::new().add_modifier(Modifier::reversed())
            };
            assert(style == match_style(active));
            out.push(apply_highlight_ranges(&lines[i], &ranges, style));
        }
        i += 1;
    }
    assert(lines_view(out@) =~= lines_with_matches(
        lines_view(lines@),
        *expression,
        active_match_line,
    ));
    out
}

/// Marking matches with characters in them never changes what a line says, and marks exactly the
/// characters that match.
pub proof fn law_matches_keep_text(
    lines: Seq<LineView>,
    expression: Regex,
    active_match_line: Option<usize>,
    i: int,
)
    requires
        0 <= i < lines.len(),
        has_full_matches(expression, plain_text(lines[i])),
    ensures
        plain_text(lines_with_matches(lines, expression, active_match_line)[i]) == plain_text(
            lines[i],
        ),
        styled_chars(lines_with_matches(lines, expression, active_match_line)[i]) == Seq::new(
            styled_chars(lines[i]).len(),
            |k: int|
                (
                    styled_chars(lines[i])[k].0,
                    style_at(
                        char_ranges(
                            plain_text(lines[i]),
                            match_ranges(expression, plain_text(lines[i])),
                        ),
                        k,
                        styled_chars(lines[i])[k].1,
                        match_style(active_match_line is Some && active_match_line->0 == i),
                    ),
                ),
        ),
{
    let text = plain_text(lines[i]);
    let ranges = match_ranges(expression, text);
    let covered = char_ranges(text, ranges);
    let active = active_match_line is Some && active_match_line->0 == i;
    assert forall|k: int| 0 <= k < covered.len() implies (#[trigger] covered[k]).0
        < covered[k].1 by {
        assert(ranges[k].0 < ranges[k].1);
        lemma_places_in_order(text, ranges[k].0 as int, ranges[k].1 as int);
    }
    assert forall|k: int, l: int|
        #![trigger covered[k], covered[l]]
        0 <= k < l < covered.len() implies covered[k].1 <= covered[l].0 by {
        assert(ranges[k].1 <= ranges[l].0);
        assert(ranges[l].0 < ranges[l].1);
        lemma_places_in_order(text, ranges[k].1 as int, ranges[l].0 as int);
    }
    law_highlight_overlays_covered_chars(lines[i], covered, match_style(active));
    if ranges.len() == 0 {
        assert(styled_chars(lines[i]) =~= Seq::new(
            styled_chars(lines[i]).len(),
            |k: int|
                (
                    styled_chars(lines[i])[k].0,
                    style_at(covered, k, styled_chars(lines[i])[k].1, match_style(active)),
                ),
        ));
    }
}

proof fn lemma_places_in_order(text: Seq<char>, a: int, b: int)
    requires
        a <= b <= byte_len(text),
        on_boundary(text, a),
        on_boundary(text, b),
    ensures
        char_place(text, a) <= char_place(text, b),
        a < b ==> char_place(text, a) < char_place(text, b),
{
    lemma_chars_before_monotonic(text, a, b);
    law_byte_offset_round_trip(text, text.len() as int);
    assert(text.take(text.len() as int) == text);
}

} // verus!
