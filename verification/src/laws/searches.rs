//! What a search finds and shows, and what is left of a viewer when its document is read anew.
use regex::Regex;
use std::path::PathBuf;
use vstd::prelude::*;

use crate::app::AppView;
use crate::chars::decimal_text;
use crate::coherence::{lemma_jump_keeps_coherence, lemma_search_keeps_coherence};
use crate::highlight::{
    char_place, char_ranges, highlighted_spans, is_inside, law_matches_keep_text,
    lemma_styled_chars_len, line_pieces, lines_with_matches, span_pieces, styled_chars,
};
use crate::inline_image::{prepared_images, ImageLoadState};
use crate::keys::same_document;
use crate::laws::places::{law_jumps_lead_to_the_match, lemma_same_page};
use crate::loading::opened;
use crate::page::DocView;
use crate::pattern::{
    compiled, error_text, escaped, has_full_matches, is_meta_character, match_ranges,
    search_pattern,
};
use crate::search::{law_search_finds_every_match, line_matches, matching_lines};
use crate::source::shown_path;
use crate::style::{Modifier, Style};
use crate::text::{plain_text, LineView, SpanView};
use crate::width::{byte_len, law_byte_offset_round_trip, lemma_byte_len_take, lemma_chars_before};

verus! {

/// Whether a line is the first in which an expression matches.
pub open spec fn is_first_match(lines: Seq<LineView>, expression: Regex, line: int) -> bool {
    &&& 0 <= line < lines.len() && line_matches(lines[line], expression)
    &&& forall|l: int| 0 <= l < line ==> !line_matches(#[trigger] lines[l], expression)
}

/// Whether numbers grow from one to the next.
pub open spec fn grow(numbers: Seq<usize>) -> bool {
    forall|j: int, k: int|
        #![trigger numbers[j], numbers[k]]
        0 <= j < k < numbers.len() ==> numbers[j] < numbers[k]
}

impl AppView {
    /// Whether the cursor of a viewer is on the first row of its screen, or as near to it as the
    /// page allows.
    pub open spec fn is_at_top(
        self,
        after: AppView,
        viewport_height: usize,
        content_width: u16,
    ) -> bool {
        &&& after.scroll <= after.cursor_row
        &&& viewport_height > 0 ==> after.cursor_row < after.scroll + viewport_height
        &&& self.may_be_first(after.scroll as int, viewport_height, content_width)
        &&& after.scroll < after.cursor_row ==> !self.may_be_first(
            after.scroll + 1,
            viewport_height,
            content_width,
        )
    }
}

/// A search for a text puts the cursor on the first line that the text is found in, as the active
/// match. Where it is found nowhere, the cursor stays. Either way the viewer keeps what it searches
/// for, and says how many lines were found.
pub proof fn law_searches_go_to_the_first_match(
    app: AppView,
    query: Seq<char>,
    expression: Regex,
    viewport_height: usize,
    content_width: u16,
)
    requires
        app.is_laid_out(content_width),
        app.lines.len() <= usize::MAX,
        query.len() > 0,
        search_pattern(query) == Ok::<Regex, regex::Error>(expression),
    ensures
        ({
            let after = app.search(query, viewport_height, content_width);
            let found = exists|l: int|
                0 <= l < app.lines.len() && line_matches(#[trigger] app.lines[l], expression);
            &&& after.search_query == Some(query) && after.search_regex == Some(expression)
            &&& forall|l: int|
                0 <= l < app.lines.len() ==> (line_matches(#[trigger] app.lines[l], expression)
                    <==> after.search_matches.contains(l as usize))
            &&& grow(after.search_matches)
            &&& found ==> {
                &&& after.active_match == 0
                &&& is_first_match(app.lines, expression, after.cursor_line(content_width))
                &&& after.active_match_line() == Some(after.cursor_line(content_width) as usize)
                &&& after.status == decimal_text(after.search_matches.len()) + " matches for /"@
                    + query
                &&& app.is_at_top(after, viewport_height, content_width)
            }
            &&& !found ==> {
                &&& after.cursor_row == app.cursor_row && after.scroll == app.scroll
                &&& after.search_matches.len() == 0
                &&& after.status == "no matches for /"@ + query
            }
            &&& after.focused_image is None && after.cursor_column == app.cursor_column
            &&& after.mode == app.mode && after.show_help == app.show_help
            &&& same_document(app, after)
        }),
{
    law_search_finds_every_match(app.lines, expression);
    let matches = matching_lines(app.lines, expression);
    let found = AppView {
        row_counts: Map::empty(),
        ..AppView {
            search_query: Some(query),
            search_regex: Some(expression),
            ..app
        }.find_matches()
    };
    assert(found.is_sound() && found.is_coherent());
    lemma_same_page(app, found, content_width);
    if matches.len() > 0 {
        law_jumps_lead_to_the_match(found, 0, viewport_height, content_width);
        let after = app.search(query, viewport_height, content_width);
        let gone = found.go_to_match(0, viewport_height, content_width);
        lemma_search_keeps_coherence(app, query, viewport_height, content_width);
        lemma_same_cursor_line(gone, after, content_width);
        let line = matches[0] as int;
        assert(matches.contains(line as usize));
        assert(line_matches(app.lines[line], expression));
        assert forall|l: int| 0 <= l < line implies !line_matches(
            #[trigger] app.lines[l],
            expression,
        ) by {
            if line_matches(app.lines[l], expression) {
                assert(matches.contains(l as usize));
                let k = choose|k: int| 0 <= k < matches.len() && matches[k] == l as usize;
                if k > 0 {
                    assert(matches[0] < matches[k]);
                }
            }
        }
    } else {
        assert forall|l: int| 0 <= l < app.lines.len() implies !line_matches(
            #[trigger] app.lines[l],
            expression,
        ) by {
            if line_matches(app.lines[l], expression) {
                assert(matches.contains(l as usize));
            }
        }
    }
}

/// What the status says does not matter to the line of the cursor.
proof fn lemma_same_cursor_line(a: AppView, b: AppView, content_width: u16)
    requires
        b == (AppView { status: b.status, ..a }),
    ensures
        a.cursor_line(content_width) == b.cursor_line(content_width),
{
    lemma_page_without_status(a, b, content_width);
    let x = a.clamp_cursor(content_width);
    let y = b.clamp_cursor(content_width);
    assert(y == (AppView { status: y.status, ..x }));
    lemma_page_without_status(x, y, content_width);
}

proof fn lemma_page_without_status(a: AppView, b: AppView, content_width: u16)
    requires
        b == (AppView { status: b.status, ..a }),
    ensures
        a.page(content_width) == b.page(content_width),
        a.rows(content_width) == b.rows(content_width),
{
    lemma_page_upto_without_status(
        a,
        b,
        a.shown_lines(),
        a.shown_lines().len() as int,
        content_width,
    );
}

proof fn lemma_page_upto_without_status(
    a: AppView,
    b: AppView,
    shown: Seq<LineView>,
    upto: int,
    content_width: u16,
)
    requires
        b == (AppView { status: b.status, ..a }),
    ensures
        a.page_upto(shown, upto, content_width) == b.page_upto(shown, upto, content_width),
    decreases upto,
{
    if upto > 0 {
        lemma_page_upto_without_status(a, b, shown, upto - 1, content_width);
    }
}

/// An empty query ends the search: nothing is marked any more, and the cursor stays. A query that
/// cannot be searched for changes nothing but the status.
pub proof fn law_empty_queries_end_the_search(
    app: AppView,
    query: Seq<char>,
    viewport_height: usize,
    content_width: u16,
)
    ensures
        ({
            let cleared = app.search(Seq::empty(), viewport_height, content_width);
            &&& cleared.search_query is None && cleared.search_regex is None
                && cleared.search_matches.len() == 0
            &&& cleared.shown_lines() == app.lines
            &&& cleared.cursor_row == app.cursor_row && cleared.scroll == app.scroll
                && cleared.cursor_column == app.cursor_column && cleared.mode == app.mode
            &&& cleared.focused_image is None
            &&& cleared.status == "search cleared"@
            &&& same_document(app, cleared)
        }),
        query.len() > 0 && search_pattern(query) is Err ==> app.search(
            query,
            viewport_height,
            content_width,
        ) == (AppView {
            status: "invalid search: "@ + error_text(search_pattern(query)->Err_0),
            ..app
        }),
{
}

/// The next match is on the next line that was found, and after the last one on the first; the
/// cursor is put there, and that match is marked as the active one.
pub proof fn law_next_match_is_on_the_next_line_found(
    app: AppView,
    viewport_height: usize,
    content_width: u16,
)
    requires
        app.is_laid_out(content_width),
        app.search_matches.len() > 0,
        app.search_matches.len() <= usize::MAX,
        grow(app.search_matches),
        forall|k: int|
            0 <= k < app.search_matches.len() ==> (#[trigger] app.search_matches[k])
                < app.lines.len(),
    ensures
        ({
            let here = app.active_match_line()->0;
            let after = app.jump_to_match(app.next_match(), viewport_height, content_width);
            let there = after.active_match_line()->0;
            let is_last = forall|k: int|
                0 <= k < app.search_matches.len() ==> (#[trigger] app.search_matches[k]) <= here;
            &&& after.active_match_line() is Some
            &&& app.search_matches.contains(there)
            &&& !is_last ==> here < there && forall|k: int|
                0 <= k < app.search_matches.len() && (#[trigger] app.search_matches[k]) > here
                    ==> there <= app.search_matches[k]
            &&& is_last ==> forall|k: int|
                0 <= k < app.search_matches.len() ==> there <= #[trigger] app.search_matches[k]
            &&& after.cursor_line(content_width) == there
            &&& app.is_at_top(after, viewport_height, content_width)
            &&& after.search_matches == app.search_matches && after.search_regex
                == app.search_regex && after.search_query == app.search_query
            &&& after.focused_image is None && same_document(app, after)
            &&& after.mode == app.mode && after.status == app.status && after.cursor_column
                == app.cursor_column && after.show_help == app.show_help
        }),
{
    crate::search::law_next_and_previous_match(app);
    let n = app.search_matches.len() as int;
    let here = app.active_match as int;
    if here + 1 < n {
        assert((here + 1) % n == here + 1) by (nonlinear_arith)
            requires
                0 <= here + 1 < n,
        ;
        assert(app.search_matches[here] < app.search_matches[here + 1]);
    } else {
        assert(n % n == 0) by (nonlinear_arith)
            requires
                n > 0,
        ;
    }
    lemma_jumped(app, app.next_match(), viewport_height, content_width);
}

/// The match before is on the line before that was found, and before the first one on the last; the
/// cursor is put there, and that match is marked as the active one.
pub proof fn law_previous_match_is_on_the_line_found_before(
    app: AppView,
    viewport_height: usize,
    content_width: u16,
)
    requires
        app.is_laid_out(content_width),
        app.search_matches.len() > 0,
        app.search_matches.len() <= usize::MAX,
        grow(app.search_matches),
        forall|k: int|
            0 <= k < app.search_matches.len() ==> (#[trigger] app.search_matches[k])
                < app.lines.len(),
    ensures
        ({
            let here = app.active_match_line()->0;
            let after = app.jump_to_match(app.prev_match(), viewport_height, content_width);
            let there = after.active_match_line()->0;
            let is_first = forall|k: int|
                0 <= k < app.search_matches.len() ==> (#[trigger] app.search_matches[k]) >= here;
            &&& after.active_match_line() is Some
            &&& app.search_matches.contains(there)
            &&& !is_first ==> there < here && forall|k: int|
                0 <= k < app.search_matches.len() && (#[trigger] app.search_matches[k]) < here
                    ==> app.search_matches[k] <= there
            &&& is_first ==> forall|k: int|
                0 <= k < app.search_matches.len() ==> (#[trigger] app.search_matches[k]) <= there
            &&& after.cursor_line(content_width) == there
            &&& app.is_at_top(after, viewport_height, content_width)
            &&& after.search_matches == app.search_matches && after.search_regex
                == app.search_regex && after.search_query == app.search_query
            &&& after.focused_image is None && same_document(app, after)
            &&& after.mode == app.mode && after.status == app.status && after.cursor_column
                == app.cursor_column && after.show_help == app.show_help
        }),
{
    let here = app.active_match as int;
    if here > 0 {
        assert(app.search_matches[here - 1] < app.search_matches[here]);
    }
    lemma_jumped(app, app.prev_match(), viewport_height, content_width);
}

proof fn lemma_jumped(app: AppView, index: usize, viewport_height: usize, content_width: u16)
    requires
        app.is_laid_out(content_width),
        index < app.search_matches.len(),
        app.search_matches[index as int] < app.lines.len(),
    ensures
        ({
            let after = app.jump_to_match(index, viewport_height, content_width);
            &&& after.active_match_line() == Some(app.search_matches[index as int])
            &&& after.cursor_line(content_width) == app.search_matches[index as int]
            &&& app.is_at_top(after, viewport_height, content_width)
            &&& after.search_matches == app.search_matches && after.search_regex
                == app.search_regex && after.search_query == app.search_query
            &&& after.focused_image is None && same_document(app, after)
            &&& after.mode == app.mode && after.status == app.status && after.cursor_column
                == app.cursor_column && after.show_help == app.show_help
        }),
{
    let there = AppView { active_match: index, focused_image: None, highlighted: None, ..app };
    lemma_jump_keeps_coherence(app, index, viewport_height, content_width);
    assert(there.is_coherent()) by {
        assert forall|w: u16| #[trigger] there.row_counts.contains_key(w) implies
            there.row_counts[w] == there.true_rows(w) by {
            crate::coherence::lemma_same_layout_same_rows(app, there, app.lines.len() as int, w);
        }
    }
    lemma_same_page(app, there, content_width);
    law_jumps_lead_to_the_match(there, index, viewport_height, content_width);
}

/// Without matches there is nowhere to go: the viewer says so and stays as it is.
pub proof fn law_no_match_is_no_jump(
    app: AppView,
    index: usize,
    viewport_height: usize,
    content_width: u16,
)
    requires
        app.search_matches.len() == 0,
    ensures
        app.jump_to_match(index, viewport_height, content_width) == (AppView {
            status: "no active search results"@,
            ..app
        }),
{
}

/// Whether a match covers character `i` of a text.
pub open spec fn is_matched(expression: Regex, text: Seq<char>, i: int) -> bool {
    exists|k: int|
        {
            &&& 0 <= k < match_ranges(expression, text).len()
            &&& (#[trigger] match_ranges(expression, text)[k]).0 <= byte_len(text.take(i))
                < match_ranges(expression, text)[k].1
        }
}

/// While there is a search, the characters that match are shown reversed, on the line of the active
/// match in bold, too. No other character changes, and no color.
pub proof fn law_matches_are_marked(
    lines: Seq<LineView>,
    expression: Regex,
    active: Option<usize>,
    line: int,
    i: int,
)
    requires
        0 <= line < lines.len(),
        0 <= i < plain_text(lines[line]).len(),
        has_full_matches(expression, plain_text(lines[line])),
    ensures
        lines_with_matches(lines, expression, active).len() == lines.len(),
        ({
            let before = styled_chars(lines[line])[i];
            let after = styled_chars(lines_with_matches(lines, expression, active)[line])[i];
            let matched = is_matched(expression, plain_text(lines[line]), i);
            let is_active = active is Some && active->0 == line;
            &&& after.0 == before.0 == plain_text(lines[line])[i]
            &&& after.1.fg == before.1.fg && after.1.bg == before.1.bg
            &&& !matched ==> after.1.add_modifier == before.1.add_modifier
            &&& matched && is_active ==> after.1.add_modifier == (Modifier {
                reversed: true,
                bold: true,
                ..before.1.add_modifier
            })
            &&& matched && !is_active ==> after.1.add_modifier == (Modifier {
                reversed: true,
                ..before.1.add_modifier
            })
        }),
{
    law_matches_keep_text(lines, expression, active, line);
    lemma_styled_chars_len(lines[line]);
    let text = plain_text(lines[line]);
    let ranges = match_ranges(expression, text);
    let covered = char_ranges(text, ranges);
    assert forall|k: int| 0 <= k < ranges.len() implies ((#[trigger] ranges[k]).0 <= byte_len(
        text.take(i),
    ) < ranges[k].1 <==> covered[k].0 <= i < covered[k].1) by {
        lemma_place(text, ranges[k].0 as int, i);
        lemma_place(text, ranges[k].1 as int, i);
    }
    if is_inside(covered, i) {
        let k = choose|k: int|
            0 <= k < covered.len() && (#[trigger] covered[k]).0 <= i < covered[k].1;
        assert(ranges[k].0 <= byte_len(text.take(i)) < ranges[k].1);
    }
    if is_matched(expression, text, i) {
        let k = choose|k: int|
            0 <= k < ranges.len() && (#[trigger] ranges[k]).0 <= byte_len(text.take(i))
                < ranges[k].1;
        assert(covered[k].0 <= i < covered[k].1);
    }
}

proof fn lemma_place(text: Seq<char>, offset: int, i: int)
    requires
        0 <= i < text.len(),
        0 <= offset <= byte_len(text),
        crate::pattern::on_boundary(text, offset),
    ensures
        offset <= byte_len(text.take(i)) <==> char_place(text, offset) <= i,
{
    let place = char_place(text, offset);
    crate::width::lemma_chars_before_monotonic(text, offset, offset);
    law_byte_offset_round_trip(text, text.len() as int);
    assert(text.take(text.len() as int) == text);
    assert(byte_len(text.take(place)) == offset) by {
        if offset >= byte_len(text) {
            lemma_chars_before(text, offset, text.len() as int);
        }
    }
    if place <= i {
        lemma_byte_len_take(text, place, i);
    } else {
        lemma_byte_len_take(text, i, place);
    }
}

/// A document is opened at the line that is asked for, counted from one, with nothing selected,
/// searched for or loaded.
pub proof fn law_documents_are_opened_at_a_line(
    path: PathBuf,
    content: Seq<char>,
    doc: DocView,
    start_line: usize,
    picker: ratatui_image::picker::Picker,
    drive: Option<Seq<char>>,
)
    ensures
        ({
            let app = opened(path, content, doc, start_line, picker, drive);
            &&& start_line > 0 ==> app.cursor_row + 1 == start_line && app.scroll + 1 == start_line
            &&& start_line == 0 ==> app.cursor_row == 0 && app.scroll == 0
            &&& app.cursor_column == 0 && app.focused_image is None && !app.show_help
            &&& app.mode is Normal && app.search_regex is None && app.search_query is None
                && app.search_matches.len() == 0
            &&& app.lines == doc.lines && app.file_content == content && app.file_path == path
            &&& app.shown_lines() == doc.lines
            &&& app.picker == picker && app.system_drive == drive && app.doc_images == doc.images
            &&& app.images.len() == doc.images.len()
            &&& forall|i: int|
                0 <= i < app.images.len() ==> (#[trigger] app.images[i]).load_state != (
                ImageLoadState::Loaded) && app.images[i].load_state != ImageLoadState::Loading
                    && app.images[i].state is None && app.images[i].line_index
                    == doc.images[i].line_index as usize && app.images[i].hinted_pixel_size
                    == doc.images[i].hinted_pixel_size
            &&& app.images.len() == 0 ==> app.status == decimal_text(doc.lines.len()) + " lines"@
            &&& app.images.len() > 0 ==> app.status == decimal_text(doc.lines.len()) + " lines, "@
                + decimal_text(app.images.len()) + " images (lazy load)"@
        }),
{
}

/// When a document is read anew, the viewer shows what it says now, at the place where it was. A
/// search goes on: its matches are those in the new lines. Images are loaded anew.
pub proof fn law_reloading_keeps_place_and_search(app: AppView, content: Seq<char>, doc: DocView)
    requires
        doc.lines.len() <= usize::MAX,
    ensures
        ({
            let after = app.reloaded(content, doc);
            &&& after.lines == doc.lines && after.file_content == content
            &&& after.cursor_row == app.cursor_row && after.scroll == app.scroll
                && after.cursor_column == app.cursor_column && after.mode == app.mode
                && after.show_help == app.show_help && after.file_path == app.file_path
                && after.picker == app.picker && after.doc_images == doc.images
            &&& after.focused_image is None
            &&& after.search_query == app.search_query && after.search_regex == app.search_regex
            &&& app.search_regex matches Some(expression) ==> after.active_match == 0 && grow(
                after.search_matches,
            ) && forall|l: int|
                0 <= l < doc.lines.len() ==> (line_matches(#[trigger] doc.lines[l], expression)
                    <==> after.search_matches.contains(l as usize))
            &&& app.search_regex is None ==> after.shown_lines() == doc.lines
                && after.search_matches == app.search_matches && after.active_match
                == app.active_match
            &&& after.images == prepared_images(app.file_path, doc.images, app.system_drive)
            &&& doc.images.len() == 0 ==> after.status == "reloaded "@ + shown_path(app.file_path)
            &&& doc.images.len() > 0 ==> after.status == "reloaded "@ + shown_path(app.file_path)
                + " ("@ + decimal_text(doc.images.len()) + " images, lazy load)"@
        }),
{
    if let Some(expression) = app.search_regex {
        law_search_finds_every_match(doc.lines, expression);
    }
}

/// A search looks for its query as it stands, whatever its case: every character with a meaning in
/// patterns has a backslash before it.
pub proof fn law_queries_are_taken_literally(query: Seq<char>, c: char)
    ensures
        search_pattern(query) == compiled(escaped(query), true),
        escaped(Seq::empty()).len() == 0,
        is_meta_character(c) ==> escaped(query.push(c)) == escaped(query) + seq!['\\', c],
        !is_meta_character(c) ==> escaped(query.push(c)) == escaped(query) + seq![c],
{
    assert(query.push(c).drop_last() == query);
    assert(escaped(query).push('\\').push(c) =~= escaped(query) + seq!['\\', c]);
    assert(escaped(query).push(c) =~= escaped(query) + seq![c]);
}

proof fn lemma_pieces_are_not_empty(
    text: Seq<char>,
    base: Style,
    start: int,
    ranges: Seq<(int, int)>,
    next: int,
    cursor: int,
    top: Style,
)
    requires
        0 <= cursor <= text.len(),
        forall|i: int| 0 <= i < ranges.len() ==> (#[trigger] ranges[i]).0 <= ranges[i].1,
        0 <= next,
    ensures
        forall|i: int|
            0 <= i < span_pieces(text, base, start, ranges, next, cursor, top).0.len() ==> (
            #[trigger] span_pieces(text, base, start, ranges, next, cursor, top).0[i]).text.len()
                > 0,
    decreases ranges.len() - next,
{
    if next < ranges.len() && ranges[next].0 < start + text.len() {
        if ranges[next].1 <= start {
            lemma_pieces_are_not_empty(text, base, start, ranges, next + 1, cursor, top);
        } else if ranges[next].1 <= start + text.len() {
            let from = if ranges[next].0 < start {
                0
            } else {
                ranges[next].0 - start
            };
            let to = if ranges[next].1 < start + text.len() {
                ranges[next].1 - start
            } else {
                text.len() as int
            };
            let reached = if from < to {
                to
            } else {
                cursor
            };
            lemma_pieces_are_not_empty(text, base, start, ranges, next + 1, reached, top);
        }
    } else if next < ranges.len() && ranges[next].1 <= start {
        lemma_pieces_are_not_empty(text, base, start, ranges, next + 1, cursor, top);
    }
}

/// Marking leaves no span without a character.
pub proof fn law_marked_spans_are_not_empty(
    spans: Seq<SpanView>,
    ranges: Seq<(int, int)>,
    top: Style,
)
    requires
        forall|i: int| 0 <= i < ranges.len() ==> (#[trigger] ranges[i]).0 <= ranges[i].1,
    ensures
        forall|i: int|
            0 <= i < highlighted_spans(spans, ranges, top).len() ==> (#[trigger] highlighted_spans(
                spans,
                ranges,
                top,
            )[i]).text.len() > 0,
        line_pieces(spans, ranges, top).1 >= 0,
    decreases spans.len(),
{
    if spans.len() > 0 {
        law_marked_spans_are_not_empty(spans.drop_last(), ranges, top);
        let before = line_pieces(spans.drop_last(), ranges, top);
        let start = plain_text(spans.drop_last()).len() as int;
        let last = spans.last();
        lemma_pieces_are_not_empty(last.text, last.style, start, ranges, before.1, 0, top);
        lemma_next_is_ahead(last.text, last.style, start, ranges, before.1, 0, top);
        let pieces = span_pieces(last.text, last.style, start, ranges, before.1, 0, top).0;
        let all = highlighted_spans(spans, ranges, top);
        assert(all == before.0 + pieces);
        assert forall|i: int| 0 <= i < all.len() implies (#[trigger] all[i]).text.len() > 0 by {
            if i < before.0.len() {
                assert(all[i] == highlighted_spans(spans.drop_last(), ranges, top)[i]);
            } else {
                assert(all[i] == pieces[i - before.0.len()]);
            }
        }
    }
}

proof fn lemma_next_is_ahead(
    text: Seq<char>,
    base: Style,
    start: int,
    ranges: Seq<(int, int)>,
    next: int,
    cursor: int,
    top: Style,
)
    ensures
        span_pieces(text, base, start, ranges, next, cursor, top).1 >= next,
    decreases ranges.len() - next,
{
    if next < ranges.len() {
        let from = if ranges[next].0 < start {
            0
        } else {
            ranges[next].0 - start
        };
        let to = if ranges[next].1 < start + text.len() {
            ranges[next].1 - start
        } else {
            text.len() as int
        };
        let reached = if from < to {
            to
        } else {
            cursor
        };
        lemma_next_is_ahead(text, base, start, ranges, next + 1, cursor, top);
        lemma_next_is_ahead(text, base, start, ranges, next + 1, reached, top);
    }
}

} // verus!
