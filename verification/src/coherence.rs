//! What the viewer remembers is what it would find if it looked again.
use ratatui_image::protocol::StatefulProtocol;
use vstd::prelude::*;

use crate::app::{AppView, ImageRenderPlan};
use crate::highlight::lines_with_matches;
use crate::image_work::is_after_results;
use crate::inline_image::{cell_pixels, law_images_take_a_bounded_number_of_rows, InlineView};
use crate::keys::{same_document, same_search, KeyAction, Viewport};
use crate::loading::{ImageLoadResult, ImageResizeResult};
use crate::numbers::{minus, plus, smaller};
use crate::page::DocView;
use crate::pattern::search_pattern;
use crate::search::law_next_and_previous_match;
use crate::text::LineView;
use crate::variant::{ImageResizeVariant, Rect, Resize};

verus! {

impl AppView {
    /// The lines with the matches of the search marked, as they are now.
    pub open spec fn true_lines(self) -> Seq<LineView> {
        match self.search_regex {
            Some(expression) => lines_with_matches(
                self.lines,
                expression,
                self.active_match_line(),
            ),
            None => self.lines,
        }
    }

    /// How many rows the first `upto` lines take with their images, as they are now.
    pub open spec fn true_rows_upto(self, upto: int, content_width: u16) -> int
        decreases upto,
    {
        if upto <= 0 {
            0
        } else {
            self.true_rows_upto(upto - 1, content_width) + 1 + self.rows_below(
                upto - 1,
                content_width,
            )
        }
    }

    /// How many rows the page has, as it is now.
    pub open spec fn true_rows(self, content_width: u16) -> usize {
        let rows = self.true_rows_upto(self.lines.len() as int, content_width) as usize;
        if rows >= 1 {
            rows
        } else {
            1
        }
    }

    /// Whether what is remembered is what holds now.
    pub open spec fn is_coherent(self) -> bool {
        &&& forall|width: u16| #[trigger]
            self.row_counts.contains_key(width) ==> self.row_counts[width] == self.true_rows(width)
        &&& self.search_regex is Some && self.has_highlighted() ==> self.highlighted->0.lines
            == self.true_lines()
    }
}

pub proof fn lemma_rows_below(app: AppView, line: int, content_width: u16)
    ensures
        app.rows_below(line, content_width) >= 0,
{
    if let Some(image) = app.image_on(line) {
        lemma_image_rows(app.images[image as int], app, content_width);
    }
}

pub proof fn lemma_image_rows(image: InlineView, app: AppView, content_width: u16)
    ensures
        image.rows(app.picker, content_width) >= 0,
{
    if let Some((width, height)) = image.known_size() {
        law_images_take_a_bounded_number_of_rows(
            width,
            height,
            cell_pixels(app.picker),
            content_width,
        );
    }
}

pub proof fn lemma_page_rows(app: AppView, shown: Seq<LineView>, upto: int, content_width: u16)
    requires
        0 <= upto <= shown.len(),
    ensures
        app.page_upto(shown, upto, content_width).lines.len() == app.true_rows_upto(
            upto,
            content_width,
        ),
    decreases upto,
{
    if upto > 0 {
        lemma_page_rows(app, shown, upto - 1, content_width);
        lemma_rows_below(app, upto - 1, content_width);
    }
}

/// A viewer that is coherent shows what it would show if it remembered nothing, and counts the rows
/// that it would count.
pub proof fn law_memory_is_true(app: AppView, content_width: u16)
    requires
        app.is_coherent(),
    ensures
        app.shown_lines() == app.true_lines(),
        app.rows(content_width) == app.true_rows(content_width),
        app.counted_rows(content_width) == app.true_rows(content_width),
{
    assert(app.true_lines().len() == app.lines.len());
    lemma_page_rows(app, app.shown_lines(), app.lines.len() as int, content_width);
}

/// Whether two viewers have the same lines, with images of the same sizes on the same lines.
pub open spec fn same_layout(a: AppView, b: AppView) -> bool {
    &&& a.lines == b.lines
    &&& a.picker == b.picker
    &&& a.image_index_by_line == b.image_index_by_line
    &&& a.images.len() == b.images.len()
    &&& forall|i: int|
        0 <= i < a.images.len() ==> (#[trigger] a.images[i]).known_size()
            == b.images[i].known_size()
}

pub proof fn lemma_same_layout_same_rows(a: AppView, b: AppView, upto: int, content_width: u16)
    requires
        same_layout(a, b),
        a.is_sound(),
    ensures
        a.true_rows_upto(upto, content_width) == b.true_rows_upto(upto, content_width),
    decreases upto,
{
    if upto > 0 {
        lemma_same_layout_same_rows(a, b, upto - 1, content_width);
        let line = (upto - 1) as usize;
        if a.image_index_by_line.contains_key(line) {
            let image = a.image_index_by_line[line] as int;
            assert(a.images[image].known_size() == b.images[image].known_size());
        }
    }
}

/// What is remembered stays true as long as neither the layout nor the search changes.
pub proof fn law_memory_stays_true(a: AppView, b: AppView)
    requires
        a.is_sound(),
        a.is_coherent(),
        same_layout(a, b),
        same_search(a, b),
        b.row_counts == a.row_counts || b.row_counts == Map::<u16, usize>::empty(),
        b.highlighted == a.highlighted || b.highlighted is None,
    ensures
        b.is_coherent(),
{
    assert forall|width: u16| #[trigger] b.row_counts.contains_key(width) implies b.row_counts[width]
        == b.true_rows(width) by {
        lemma_same_layout_same_rows(a, b, a.lines.len() as int, width);
    }
}

pub proof fn lemma_showing_keeps_coherence(app: AppView)
    requires
        app.is_sound(),
        app.is_coherent(),
    ensures
        app.show_lines().is_coherent(),
        app.show_lines().is_sound(),
{
    let after = app.show_lines();
    assert forall|width: u16| #[trigger]
        after.row_counts.contains_key(width) implies after.row_counts[width]
        == after.true_rows(width) by {
        lemma_same_layout_same_rows(app, after, app.lines.len() as int, width);
    }
}

pub proof fn lemma_counting_keeps_coherence(app: AppView, content_width: u16)
    requires
        app.is_sound(),
        app.is_coherent(),
    ensures
        app.count_rows(content_width).is_coherent(),
        app.count_rows(content_width).is_sound(),
{
    let shown = app.show_lines();
    let after = app.count_rows(content_width);
    lemma_showing_keeps_coherence(app);
    law_memory_is_true(app, content_width);
    assert forall|width: u16| #[trigger]
        after.row_counts.contains_key(width) implies after.row_counts[width]
        == after.true_rows(width) by {
        lemma_same_layout_same_rows(app, after, app.lines.len() as int, width);
    }
}

pub proof fn lemma_cursor_keeps_coherence(app: AppView, viewport_height: usize, content_width: u16)
    requires
        app.is_sound(),
        app.is_coherent(),
    ensures
        app.clamp_cursor(content_width).is_coherent(),
        app.clamp_cursor(content_width).is_sound(),
        app.show_cursor(viewport_height, content_width).is_coherent(),
        app.show_cursor(viewport_height, content_width).is_sound(),
        app.find_cursor(content_width).is_coherent(),
        app.find_cursor(content_width).is_sound(),
{
    lemma_counting_keeps_coherence(app, content_width);
    let clamped = app.clamp_cursor(content_width);
    law_memory_stays_true(app.count_rows(content_width), clamped);
    law_memory_stays_true(clamped, app.show_cursor(viewport_height, content_width));
    lemma_showing_keeps_coherence(clamped);
}

pub proof fn lemma_moved_keeps_coherence(a: AppView, b: AppView)
    requires
        a.is_sound(),
        a.is_coherent(),
        same_document(a, b),
        same_search(a, b),
        b.row_counts == a.row_counts,
        b.highlighted == a.highlighted,
    ensures
        b.is_coherent(),
        b.is_sound(),
{
    law_memory_stays_true(a, b);
}

proof fn lemma_moves_keep_coherence(app: AppView, action: KeyAction, viewport: Viewport)
    requires
        app.is_sound(),
        app.is_coherent(),
        !(action is NextMatch),
        !(action is PrevMatch),
    ensures
        app.act_on_cursor(action, viewport).is_coherent(),
{
    let height = viewport.height;
    let width = viewport.width;
    let after = app.act_on_cursor(action, viewport);
    lemma_cursor_keeps_coherence(app, height, width);
    lemma_moved_keeps_coherence(app, app.unfocused());
    lemma_cursor_keeps_coherence(app.unfocused(), height, width);
    match action {
        KeyAction::NextWord(kind) => {
            lemma_moved_keeps_coherence(app.find_cursor(width), app.next_word(width, kind));
            lemma_cursor_keeps_coherence(app.next_word(width, kind), height, width);
        },
        KeyAction::PrevWord(kind) => {
            lemma_moved_keeps_coherence(app.find_cursor(width), app.prev_word(width, kind));
            lemma_cursor_keeps_coherence(app.prev_word(width, kind), height, width);
        },
        KeyAction::Left => lemma_moved_keeps_coherence(app, after),
        KeyAction::Right => lemma_moved_keeps_coherence(app.find_cursor(width), after),
        KeyAction::Down => lemma_step_keeps_coherence(app, height, width),
        KeyAction::Up => lemma_step_keeps_coherence(app, height, width),
        KeyAction::PageDown => lemma_moved_keeps_coherence(
            app.unfocused().clamp_cursor(width),
            after,
        ),
        KeyAction::PageUp => lemma_moved_keeps_coherence(
            app.unfocused().clamp_cursor(width),
            after,
        ),
        KeyAction::HalfPageDown => lemma_moved_keeps_coherence(
            app.unfocused().clamp_cursor(width),
            after,
        ),
        KeyAction::HalfPageUp => lemma_moved_keeps_coherence(
            app.unfocused().clamp_cursor(width),
            after,
        ),
        KeyAction::Top => lemma_moved_keeps_coherence(app, after),
        KeyAction::Bottom => {
            let plain = app.unfocused();
            lemma_counting_keeps_coherence(plain, width);
            let low = AppView { cursor_row: plain.last_row(width), ..plain.count_rows(width) };
            lemma_moved_keeps_coherence(plain.count_rows(width), low);
            lemma_cursor_keeps_coherence(low, height, width);
        },
        _ => {},
    }
}

proof fn lemma_row_keeps_coherence(app: AppView, row: usize, height: usize, width: u16)
    requires
        app.is_sound(),
        app.is_coherent(),
    ensures
        app.enter_row(row, height, width).is_coherent(),
        app.leave_image(row, height, width).is_coherent(),
{
    let moved = AppView { cursor_row: row, ..app };
    lemma_moved_keeps_coherence(app, moved);
    lemma_cursor_keeps_coherence(moved, height, width);
    let shown = moved.show_cursor(height, width);
    lemma_moved_keeps_coherence(shown, app.enter_row(row, height, width));
    lemma_moved_keeps_coherence(shown, app.leave_image(row, height, width));
}

proof fn lemma_step_keeps_coherence(app: AppView, height: usize, width: u16)
    requires
        app.is_sound(),
        app.is_coherent(),
    ensures
        app.step_down(height, width).is_coherent(),
        app.step_up(height, width).is_coherent(),
{
    lemma_cursor_keeps_coherence(app, height, width);
    let clamped = app.clamp_cursor(width);
    let last = clamped.last_row(width);
    match clamped.focused_bounds(width) {
        Some(bounds) => {
            lemma_row_keeps_coherence(clamped, smaller(bounds.end_row, last), height, width);
            lemma_row_keeps_coherence(clamped, minus(bounds.start_row, 1), height, width);
        },
        None => {
            lemma_row_keeps_coherence(
                clamped,
                smaller(plus(clamped.cursor_row, 1), last),
                height,
                width,
            );
            lemma_row_keeps_coherence(clamped, minus(clamped.cursor_row, 1), height, width);
        },
    }
}

pub proof fn lemma_match_keeps_coherence(app: AppView, index: usize, height: usize, width: u16)
    requires
        app.is_sound(),
        app.is_coherent(),
    ensures
        app.go_to_match(index, height, width).is_coherent(),
{
    let row = app.row_of_line(app.search_matches[index as int], width);
    let moved = AppView { cursor_row: row, ..app };
    lemma_moved_keeps_coherence(app, moved);
    lemma_counting_keeps_coherence(moved, width);
    lemma_moved_keeps_coherence(moved.count_rows(width), app.go_to_match(index, height, width));
}

pub proof fn lemma_jump_keeps_coherence(app: AppView, index: usize, height: usize, width: u16)
    requires
        app.is_sound(),
        app.is_coherent(),
        index < app.search_matches.len(),
    ensures
        app.jump_to_match(index, height, width).is_coherent(),
{
    let there = AppView { active_match: index, focused_image: None, highlighted: None, ..app };
    assert forall|w: u16| #[trigger] there.row_counts.contains_key(w) implies there.row_counts[w]
        == there.true_rows(w) by {
        lemma_same_layout_same_rows(app, there, app.lines.len() as int, w);
    }
    lemma_match_keeps_coherence(there, index, height, width);
}

pub proof fn lemma_search_keeps_coherence(app: AppView, query: Seq<char>, height: usize, width: u16)
    requires
        app.is_sound(),
        app.is_coherent(),
    ensures
        app.search(query, height, width).is_coherent(),
        app.search(query, height, width).is_sound(),
{
    if query.len() > 0 {
        match search_pattern(query) {
            Ok(expression) => {
                let found = AppView {
                    row_counts: Map::empty(),
                    ..AppView {
                        search_query: Some(query),
                        search_regex: Some(expression),
                        ..app
                    }.find_matches()
                };
                assert(found.is_sound());
                assert(found.is_coherent());
                if found.search_matches.len() > 0 {
                    lemma_match_keeps_coherence(found, 0, height, width);
                    let there = found.go_to_match(0, height, width);
                    lemma_moved_keeps_coherence(there, app.search(query, height, width));
                }
            },
            Err(error) => {
                lemma_moved_keeps_coherence(app, app.search(query, height, width));
            },
        }
    }
}

/// Whatever keys do, what is remembered is what holds.
pub proof fn law_keys_keep_memory_true(app: AppView, action: KeyAction, viewport: Viewport)
    requires
        app.is_sound(),
        app.is_coherent(),
        app.search_matches.len() <= usize::MAX,
    ensures
        app.act(action, viewport).is_coherent(),
{
    let height = viewport.height;
    let width = viewport.width;
    let after = app.act(action, viewport);
    match action {
        KeyAction::NextMatch => {
            if app.search_matches.len() > 0 {
                law_next_and_previous_match(app);
                lemma_jump_keeps_coherence(app, app.next_match(), height, width);
            } else {
                lemma_moved_keeps_coherence(app, after);
            }
        },
        KeyAction::PrevMatch => {
            if app.search_matches.len() > 0 {
                law_next_and_previous_match(app);
                lemma_jump_keeps_coherence(app, app.prev_match(), height, width);
            } else {
                lemma_moved_keeps_coherence(app, after);
            }
        },
        KeyAction::SubmitSearch => {
            let query = app.typed_query();
            lemma_search_keeps_coherence(app, query, height, width);
            lemma_moved_keeps_coherence(app.search(query, height, width), after);
        },
        KeyAction::CancelSearch => lemma_moved_keeps_coherence(app, after),
        KeyAction::EraseChar => lemma_moved_keeps_coherence(app, after),
        KeyAction::TypeChar(_) => lemma_moved_keeps_coherence(app, after),
        KeyAction::EndSelection => lemma_moved_keeps_coherence(app, after),
        KeyAction::ToggleHelp => lemma_moved_keeps_coherence(app, after),
        KeyAction::BeginSearch => lemma_moved_keeps_coherence(app, after),
        KeyAction::BeginSelection => {
            lemma_cursor_keeps_coherence(app, height, width);
            lemma_moved_keeps_coherence(app.find_cursor(width), after);
        },
        KeyAction::Copy => {
            lemma_cursor_keeps_coherence(app, height, width);
            if app.mode is VisualBlock {
                lemma_showing_keeps_coherence(app.find_cursor(width));
            } else {
                lemma_moved_keeps_coherence(app, after);
            }
        },
        _ => lemma_moves_keep_coherence(app, action, viewport),
    }
}

/// A document that is read again begins with nothing remembered.
pub proof fn law_reloading_forgets(app: AppView, content: Seq<char>, doc: DocView)
    ensures
        app.reloaded(content, doc).is_coherent(),
{
}

/// Whatever happens to images, what is remembered is what holds.
pub proof fn law_images_keep_memory_true(
    app: AppView,
    index: usize,
    offered: Rect,
    resize: Resize,
    result: ImageResizeResult,
)
    requires
        app.is_sound(),
        app.is_coherent(),
    ensures
        app.begin_loading(index).is_coherent(),
        app.fail_loading(index).is_coherent(),
        app.ask_for_size(index, offered, resize).is_coherent(),
        app.receive(result).is_coherent(),
{
    if app.can_load(index) && app.images[index as int].source is Some {
        law_memory_stays_true(app, app.begin_loading(index));
    }
    lemma_memory_of_nothing(app.begin_loading(index), app);
    lemma_memory_of_nothing(app.fail_loading(index), app);
    if let Some(variant) = app.wanted(index, offered, resize) {
        lemma_asking_keeps_size(app.images[index as int], variant);
    }
    law_memory_stays_true(app, app.ask_for_size(index, offered, resize));
    law_memory_stays_true(app, app.receive(result));
}

/// Room is made for images before they are loaded: that they are on their way changes nothing.
pub proof fn law_loading_keeps_the_layout(app: AppView, index: usize)
    requires
        app.load_request(index) is Some,
    ensures
        same_layout(app, app.begin_loading(index)),
{
}

proof fn lemma_asking_keeps_size(image: InlineView, variant: ImageResizeVariant)
    ensures
        image.ask_for(variant).known_size() == image.known_size(),
{
}

proof fn lemma_memory_of_nothing(after: AppView, before: AppView)
    requires
        before.is_coherent(),
        after.lines == before.lines,
        same_search(before, after),
        after.highlighted == before.highlighted,
    ensures
        after.row_counts == Map::<u16, usize>::empty() ==> after.is_coherent(),
{
}

proof fn lemma_results_keep_layout(
    app: AppView,
    results: Seq<ImageLoadResult>,
    encoders: Seq<(StatefulProtocol, StatefulProtocol)>,
)
    ensures
        ({
            let (after, news) = app.take_results(results, encoders);
            &&& after.lines == app.lines
            &&& same_search(app, after)
            &&& after.highlighted == app.highlighted
            &&& after.row_counts == app.row_counts
            &&& !news ==> same_layout(app, after)
        }),
    decreases results.len(),
{
    if results.len() > 0 {
        lemma_results_keep_layout(app, results.drop_last(), encoders);
    }
}

/// Whatever the loader answers, what is remembered is what holds.
pub proof fn law_answers_keep_memory_true(
    before: AppView,
    after: AppView,
    results: Seq<ImageLoadResult>,
    encoders: Seq<(StatefulProtocol, StatefulProtocol)>,
)
    requires
        before.is_sound(),
        before.is_coherent(),
        is_after_results(before, after, results, encoders),
    ensures
        after.is_coherent(),
{
    lemma_results_keep_layout(before, results, encoders);
    let (app, news) = before.take_results(results, encoders);
    if news {
        lemma_memory_of_nothing(after, before);
    } else {
        law_memory_stays_true(before, after);
    }
}

proof fn lemma_loading_near_keeps_coherence(
    app: AppView,
    plans: Seq<ImageRenderPlan>,
    upto: int,
    viewport_height: usize,
)
    requires
        app.is_sound(),
        app.is_coherent(),
    ensures
        app.load_near_upto(plans, upto, viewport_height).0.is_coherent(),
        app.load_near_upto(plans, upto, viewport_height).0.is_sound(),
    decreases upto,
{
    if upto > 0 {
        lemma_loading_near_keeps_coherence(app, plans, upto - 1, viewport_height);
        let before = app.load_near_upto(plans, upto - 1, viewport_height).0;
        let index = plans[upto - 1].image_index;
        lemma_begin_loading_keeps_coherence(before, index);
    }
}

proof fn lemma_begin_loading_keeps_coherence(app: AppView, index: usize)
    requires
        app.is_sound(),
        app.is_coherent(),
    ensures
        app.begin_loading(index).is_coherent(),
        app.begin_loading(index).is_sound(),
{
    if app.can_load(index) && app.images[index as int].source is Some {
        law_memory_stays_true(app, app.begin_loading(index));
    }
    lemma_memory_of_nothing(app.begin_loading(index), app);
}

/// Whatever is drawn, what is remembered is what holds.
pub proof fn law_drawing_keeps_memory_true(
    app: AppView,
    plans: Seq<ImageRenderPlan>,
    viewport_height: usize,
    content_width: u16,
)
    requires
        app.is_sound(),
        app.is_coherent(),
    ensures
        app.before_drawing(viewport_height, content_width).load_near_upto(
            plans,
            plans.len() as int,
            viewport_height,
        ).0.find_selection(content_width).is_coherent(),
{
    let shown = app.show_lines();
    lemma_showing_keeps_coherence(app);
    let counted = shown.count_rows(content_width);
    lemma_counting_keeps_coherence(shown, content_width);
    let clamped = counted.clamp_cursor(content_width);
    lemma_cursor_keeps_coherence(counted, viewport_height, content_width);
    lemma_cursor_keeps_coherence(clamped, viewport_height, content_width);
    let ready = app.before_drawing(viewport_height, content_width);
    lemma_moved_keeps_coherence(clamped.show_cursor(viewport_height, content_width), ready);
    lemma_loading_near_keeps_coherence(ready, plans, plans.len() as int, viewport_height);
    let loaded = ready.load_near_upto(plans, plans.len() as int, viewport_height).0;
    lemma_cursor_keeps_coherence(loaded, viewport_height, content_width);
}

} // verus!
