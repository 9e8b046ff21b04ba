//! How lines, rows and images lie on the page.
use ratatui_image::protocol::StatefulProtocol;
use vstd::prelude::*;

use crate::app::{AppView, PlanView};
use crate::coherence::{law_memory_is_true, lemma_image_rows, lemma_page_rows, lemma_rows_below};
use crate::highlight::law_matches_keep_text;
use crate::inline_image::InlineView;
use crate::loading::{
    index_by_line, lemma_index_by_line, opened, ImageLoadResult, ImageResizeResult,
};
use crate::navigation::{first_at_row, ImageVirtualBounds};
use crate::page::{captions_stand, DocView};
use crate::pattern::has_full_matches;
use crate::text::{plain_text, LineView};
use crate::variant::{Rect, Resize};

verus! {

/// Whether images stand on lines of their own, in the order of the lines.
pub open spec fn in_line_order(images: Seq<InlineView>, lines: nat) -> bool {
    &&& forall|i: int|
        0 <= i < images.len() ==> (#[trigger] images[i]).line_index < lines
    &&& forall|i: int, j: int|
        #![trigger images[i], images[j]]
        0 <= i < j < images.len() ==> images[i].line_index < images[j].line_index
}

impl AppView {
    /// Whether images stand on lines of their own, in order, and are found there.
    pub open spec fn is_indexed(self) -> bool {
        &&& self.lines.len() <= usize::MAX
        &&& self.images.len() <= usize::MAX
        &&& in_line_order(self.images, self.lines.len())
        &&& self.image_index_by_line == index_by_line(self.images, self.images.len() as int)
    }
}

/// The images of a document stand in order when it is opened: their captions do.
pub proof fn law_opened_documents_are_indexed(
    file_path: std::path::PathBuf,
    content: Seq<char>,
    doc: DocView,
    start_line: usize,
    picker: ratatui_image::picker::Picker,
    system_drive: Option<Seq<char>>,
)
    requires
        captions_stand(doc.lines, doc.images),
        doc.lines.len() <= usize::MAX,
        doc.images.len() <= usize::MAX,
    ensures
        opened(file_path, content, doc, start_line, picker, system_drive).is_indexed(),
        opened(file_path, content, doc, start_line, picker, system_drive).is_coherent(),
{
    let app = opened(file_path, content, doc, start_line, picker, system_drive);
    assert forall|i: int| 0 <= i < app.images.len() implies (#[trigger] app.images[i]).line_index
        < app.lines.len() by {
        assert(doc.images[i].line_index < doc.lines.len());
    }
    assert forall|i: int, j: int|
        #![trigger app.images[i], app.images[j]]
        0 <= i < j < app.images.len() implies app.images[i].line_index
        < app.images[j].line_index by {
        assert(doc.images[i].line_index < doc.images[j].line_index);
        assert(doc.images[j].line_index < doc.lines.len());
    }
}

/// The images of a document stand in order when it is read again.
pub proof fn law_reloaded_documents_are_indexed(app: AppView, content: Seq<char>, doc: DocView)
    requires
        captions_stand(doc.lines, doc.images),
        doc.lines.len() <= usize::MAX,
        doc.images.len() <= usize::MAX,
    ensures
        app.reloaded(content, doc).is_indexed(),
{
    law_opened_documents_are_indexed(
        app.file_path,
        content,
        doc,
        0,
        app.picker,
        app.system_drive,
    );
}

proof fn lemma_same_lines_same_index(a: Seq<InlineView>, b: Seq<InlineView>, upto: int)
    requires
        0 <= upto <= a.len() == b.len(),
        forall|i: int| 0 <= i < a.len() ==> (#[trigger] a[i]).line_index == b[i].line_index,
    ensures
        index_by_line(a, upto) == index_by_line(b, upto),
    decreases upto,
{
    if upto > 0 {
        lemma_same_lines_same_index(a, b, upto - 1);
        assert(a[upto - 1].line_index == b[upto - 1].line_index);
    }
}

/// Images are found on their lines as long as neither changes.
pub proof fn law_index_stays_true(a: AppView, b: AppView)
    requires
        a.is_indexed(),
        a.lines.len() == b.lines.len(),
        a.image_index_by_line == b.image_index_by_line,
        a.images.len() == b.images.len(),
        forall|i: int|
            0 <= i < a.images.len() ==> (#[trigger] a.images[i]).line_index
                == b.images[i].line_index,
    ensures
        b.is_indexed(),
{
    lemma_same_lines_same_index(a.images, b.images, a.images.len() as int);
    assert forall|i: int| 0 <= i < b.images.len() implies (#[trigger] b.images[i]).line_index
        < b.lines.len() by {
        assert(a.images[i].line_index < a.lines.len());
    }
    assert forall|i: int, j: int|
        #![trigger b.images[i], b.images[j]]
        0 <= i < j < b.images.len() implies b.images[i].line_index < b.images[j].line_index by {
        assert(a.images[i].line_index < a.images[j].line_index);
    }
}

/// Whatever happens to images, they are found on their lines.
pub proof fn law_images_keep_their_lines(
    app: AppView,
    index: usize,
    offered: Rect,
    resize: Resize,
    encoded: ImageResizeResult,
    loaded: ImageLoadResult,
    encoders: (StatefulProtocol, StatefulProtocol),
)
    requires
        app.is_indexed(),
    ensures
        app.begin_loading(index).is_indexed(),
        app.fail_loading(index).is_indexed(),
        app.ask_for_size(index, offered, resize).is_indexed(),
        app.receive(encoded).is_indexed(),
        app.take_result(loaded, encoders).is_indexed(),
{
    law_index_stays_true(app, app.begin_loading(index));
    law_index_stays_true(app, app.fail_loading(index));
    law_index_stays_true(app, app.ask_for_size(index, offered, resize));
    law_index_stays_true(app, app.receive(encoded));
    law_index_stays_true(app, app.take_result(loaded, encoders));
}

proof fn lemma_image_on_line(app: AppView, line: int)
    requires
        app.is_indexed(),
        0 <= line < app.lines.len(),
    ensures
        app.image_on(line) matches Some(image) ==> image < app.images.len()
            && app.images[image as int].line_index == line,
        app.image_on(line) is None ==> forall|i: int|
            0 <= i < app.images.len() ==> (#[trigger] app.images[i]).line_index != line,
{
    lemma_index_by_line(app.images, app.images.len() as int);
    assert forall|i: int|
        0 <= i < app.images.len() && app.image_on(line) is None implies (
    #[trigger] app.images[i]).line_index != line by {
        assert(app.image_index_by_line.contains_key(app.images[i].line_index));
    }
}

proof fn lemma_rows_before_next_line(app: AppView, line: usize, upto: int, content_width: u16)
    requires
        app.is_indexed(),
        line < app.lines.len(),
        0 <= upto <= app.images.len(),
    ensures
        app.image_rows_before_line((line + 1) as usize, upto, content_width)
            == app.image_rows_before_line(line, upto, content_width) + (
        if app.image_on(line as int) is Some && app.image_on(line as int)->0 < upto {
            app.rows_below(line as int, content_width)
        } else {
            0
        }),
    decreases upto,
{
    lemma_image_on_line(app, line as int);
    if upto > 0 {
        lemma_rows_before_next_line(app, line, upto - 1, content_width);
        let image = app.images[upto - 1];
        if app.image_on(line as int) is Some {
            let there = app.image_on(line as int)->0 as int;
            assert(app.images[there].line_index == line);
            if there < upto - 1 {
                assert(app.images[there].line_index < app.images[upto - 1].line_index);
            } else if there > upto - 1 {
                assert(app.images[upto - 1].line_index < app.images[there].line_index);
            }
        }
    }
}

proof fn lemma_no_rows_before_first_line(app: AppView, upto: int, content_width: u16)
    ensures
        app.image_rows_before_line(0, upto, content_width) == 0,
    decreases upto,
{
    if upto > 0 {
        lemma_no_rows_before_first_line(app, upto - 1, content_width);
    }
}

pub proof fn lemma_rows_before_line(app: AppView, line: int, content_width: u16)
    requires
        app.is_indexed(),
        0 <= line <= app.lines.len(),
    ensures
        app.true_rows_upto(line, content_width) == line + app.image_rows_before_line(
            line as usize,
            app.images.len() as int,
            content_width,
        ),
    decreases line,
{
    if line > 0 {
        lemma_rows_before_line(app, line - 1, content_width);
        lemma_rows_before_next_line(
            app,
            (line - 1) as usize,
            app.images.len() as int,
            content_width,
        );
        lemma_image_on_line(app, line - 1);
    } else {
        lemma_no_rows_before_first_line(app, app.images.len() as int, content_width);
    }
}

pub proof fn lemma_page_grows(app: AppView, shown: Seq<LineView>, m: int, n: int, content_width: u16)
    requires
        0 <= m <= n <= shown.len(),
    ensures
        ({
            let small = app.page_upto(shown, m, content_width);
            let large = app.page_upto(shown, n, content_width);
            &&& small.lines.len() <= large.lines.len()
            &&& large.lines.take(small.lines.len() as int) == small.lines
            &&& small.doc_line_for_row.len() == small.lines.len()
            &&& large.doc_line_for_row.len() == large.lines.len()
            &&& large.doc_line_for_row.take(small.lines.len() as int) == small.doc_line_for_row
        }),
    decreases n,
{
    let small = app.page_upto(shown, m, content_width);
    let large = app.page_upto(shown, n, content_width);
    if m < n {
        lemma_page_grows(app, shown, m, n - 1, content_width);
        let before = app.page_upto(shown, n - 1, content_width);
        lemma_rows_below(app, n - 1, content_width);
        assert(large.lines.take(small.lines.len() as int) =~= before.lines.take(
            small.lines.len() as int,
        ));
        assert(large.doc_line_for_row.take(small.lines.len() as int)
            =~= before.doc_line_for_row.take(small.lines.len() as int));
    } else {
        if n > 0 {
            lemma_page_grows(app, shown, n - 1, n - 1, content_width);
            lemma_rows_below(app, n - 1, content_width);
        }
        assert(large.lines.take(large.lines.len() as int) =~= large.lines);
        assert(large.doc_line_for_row.take(large.lines.len() as int) =~= large.doc_line_for_row);
    }
}

/// The rows of a page belong to lines in the order of the lines.
proof fn lemma_rows_in_order(app: AppView, shown: Seq<LineView>, upto: int, content_width: u16)
    requires
        0 <= upto <= shown.len(),
    ensures
        forall|k: int|
            0 <= k < app.page_upto(shown, upto, content_width).doc_line_for_row.len() ==> 0 <= (
            #[trigger] app.page_upto(shown, upto, content_width).doc_line_for_row[k]) < upto,
        forall|k: int, l: int|
            #![trigger app.page_upto(shown, upto, content_width).doc_line_for_row[k],
                app.page_upto(shown, upto, content_width).doc_line_for_row[l]]
            0 <= k <= l < app.page_upto(shown, upto, content_width).doc_line_for_row.len()
                ==> app.page_upto(shown, upto, content_width).doc_line_for_row[k] <= app.page_upto(
                shown,
                upto,
                content_width,
            ).doc_line_for_row[l],
    decreases upto,
{
    if upto > 0 {
        lemma_rows_in_order(app, shown, upto - 1, content_width);
        lemma_rows_below(app, upto - 1, content_width);
        let before = app.page_upto(shown, upto - 1, content_width).doc_line_for_row;
        let rows = app.page_upto(shown, upto, content_width).doc_line_for_row;
        assert forall|k: int| 0 <= k < rows.len() implies #[trigger] rows[k] == if k
            < before.len() {
            before[k]
        } else {
            upto - 1
        } by {}
        assert forall|k: int, l: int|
            #![trigger rows[k], rows[l]]
            0 <= k <= l < rows.len() implies rows[k] <= rows[l] by {
            if l < before.len() {
                assert(before[k] <= before[l]);
            } else if k < before.len() {
                assert(before[k] < upto - 1);
            }
        }
    }
}

/// The page has a row for every line and for every row that an image takes, and its rows belong to
/// lines in the order of the lines.
pub proof fn law_page_has_all_rows(app: AppView, content_width: u16)
    requires
        app.is_indexed(),
        app.is_coherent(),
    ensures
        app.page(content_width).lines.len() == app.lines.len() + app.image_rows_upto(
            app.images.len() as int,
            content_width,
        ),
        app.page(content_width).doc_line_for_row.len() == app.page(content_width).lines.len(),
        forall|k: int|
            0 <= k < app.page(content_width).doc_line_for_row.len() ==> 0 <= (#[trigger] app.page(
                content_width,
            ).doc_line_for_row[k]) < app.lines.len(),
        forall|k: int, l: int|
            #![trigger app.page(content_width).doc_line_for_row[k],
                app.page(content_width).doc_line_for_row[l]]
            0 <= k <= l < app.page(content_width).doc_line_for_row.len() ==> app.page(
                content_width,
            ).doc_line_for_row[k] <= app.page(content_width).doc_line_for_row[l],
{
    let shown = app.shown_lines();
    let lines = app.lines.len() as int;
    law_memory_is_true(app, content_width);
    assert(shown.len() == lines);
    lemma_page_rows(app, shown, lines, content_width);
    lemma_rows_before_line(app, lines, content_width);
    lemma_rows_of_first_images(
        app,
        app.images.len() as int,
        lines as usize,
        app.images.len() as int,
        content_width,
    );
    lemma_page_grows(app, shown, lines, lines, content_width);
    lemma_rows_in_order(app, shown, lines, content_width);
}

/// Every line of the document stands on the row that is counted for it, and says there what it says
/// in the document. That row is the first one that belongs to the line.
pub proof fn law_lines_stand_on_their_rows(app: AppView, line: usize, content_width: u16)
    requires
        app.is_indexed(),
        app.is_coherent(),
        line < app.lines.len(),
        app.page(content_width).lines.len() <= usize::MAX,
    ensures
        app.row_of_line(line, content_width) < app.page(content_width).lines.len(),
        app.page(content_width).lines[app.row_of_line(line, content_width) as int]
            == app.true_lines()[line as int],
        app.searches_text() ==> plain_text(
            app.page(content_width).lines[app.row_of_line(line, content_width) as int],
        ) == plain_text(app.lines[line as int]),
        app.page(content_width).doc_line_for_row[app.row_of_line(line, content_width) as int]
            == line,
        forall|k: int|
            0 <= k < app.row_of_line(line, content_width) ==> (#[trigger] app.page(
                content_width,
            ).doc_line_for_row[k]) < line,
{
    let shown = app.shown_lines();
    law_memory_is_true(app, content_width);
    assert(shown.len() == app.lines.len());
    let page = app.page(content_width);
    let before = app.page_upto(shown, line as int, content_width);
    let after = app.page_upto(shown, line + 1, content_width);
    lemma_page_rows(app, shown, line as int, content_width);
    lemma_rows_before_line(app, line as int, content_width);
    lemma_page_grows(app, shown, line as int, line + 1, content_width);
    lemma_page_grows(app, shown, line + 1, shown.len() as int, content_width);
    lemma_rows_below(app, line as int, content_width);
    let row = before.lines.len() as int;
    assert(after.lines[row] == shown[line as int]);
    assert(after.doc_line_for_row[row] == line);
    assert(page.lines.take(after.lines.len() as int)[row] == page.lines[row]);
    assert(page.doc_line_for_row.take(after.lines.len() as int)[row] == page.doc_line_for_row[row]);
    lemma_rows_in_order(app, shown, line as int, content_width);
    assert forall|k: int| 0 <= k < row implies (#[trigger] page.doc_line_for_row[k]) < line by {
        assert(before.doc_line_for_row[k] < line);
        assert(after.doc_line_for_row.take(row)[k] == after.doc_line_for_row[k]);
        assert(page.doc_line_for_row.take(after.lines.len() as int)[k]
            == page.doc_line_for_row[k]);
    }
    if let Some(expression) = app.search_regex {
        if app.searches_text() {
            assert(has_full_matches(expression, plain_text(app.lines[line as int])));
            law_matches_keep_text(app.lines, expression, app.active_match_line(), line as int);
        }
    }
}

/// Whether plans and bounds give the same rows to the same images.
pub open spec fn same_rows(plans: Seq<PlanView>, bounds: Seq<ImageVirtualBounds>) -> bool {
    &&& plans.len() == bounds.len()
    &&& forall|i: int|
        #![trigger plans[i]]
        #![trigger bounds[i]]
        0 <= i < plans.len() ==> plans[i].image_index == bounds[i].image_index
            && plans[i].start_row == bounds[i].start_row && plans[i].start_row + plans[i].height
            == bounds[i].end_row
}

proof fn lemma_rows_of_first_images(
    app: AppView,
    upto: int,
    line: usize,
    k: int,
    content_width: u16,
)
    requires
        app.is_indexed(),
        0 <= upto <= k <= app.images.len(),
        forall|i: int| 0 <= i < upto ==> (#[trigger] app.images[i]).line_index < line,
        forall|i: int| upto <= i < k ==> (#[trigger] app.images[i]).line_index >= line,
    ensures
        app.image_rows_before_line(line, k, content_width) == app.image_rows_upto(
            upto,
            content_width,
        ),
    decreases k,
{
    if k > upto {
        assert(app.images[k - 1].line_index >= line);
        lemma_rows_of_first_images(app, upto, line, k - 1, content_width);
    } else if k > 0 {
        assert(app.images[k - 1].line_index < line);
        lemma_rows_of_first_images(app, upto - 1, line, k - 1, content_width);
    }
}

proof fn lemma_image_rows_upto(app: AppView, upto: int, content_width: u16)
    requires
        upto <= app.images.len(),
    ensures
        app.image_rows_upto(upto, content_width) >= 0,
        upto > 0 ==> app.images[upto - 1].rows(app.picker, content_width) >= 0,
    decreases upto,
{
    if upto > 0 {
        lemma_image_rows_upto(app, upto - 1, content_width);
        lemma_image_rows(app.images[upto - 1], app, content_width);
    }
}

proof fn lemma_plans_upto(
    app: AppView,
    shown: Seq<LineView>,
    line: int,
    upto: int,
    content_width: u16,
)
    requires
        app.is_indexed(),
        shown.len() == app.lines.len(),
        0 <= line <= shown.len(),
        0 <= upto <= app.images.len(),
        forall|i: int| 0 <= i < upto ==> (#[trigger] app.images[i]).line_index < line,
        forall|i: int|
            upto <= i < app.images.len() ==> (#[trigger] app.images[i]).line_index >= line,
        app.page_upto(shown, shown.len() as int, content_width).lines.len() <= usize::MAX,
    ensures
        same_rows(
            app.page_upto(shown, line, content_width).image_plans,
            app.bounds_upto(upto, content_width),
        ),
    decreases line,
{
    if line == 0 {
        if upto > 0 {
            assert(app.images[0].line_index < line);
        }
    } else {
        let last = line - 1;
        lemma_image_on_line(app, last);
        lemma_rows_below(app, last, content_width);
        let before = app.page_upto(shown, last, content_width);
        if upto > 0 && app.images[upto - 1].line_index == last {
            assert forall|i: int| 0 <= i < upto - 1 implies (#[trigger] app.images[i]).line_index
                < last by {
                assert(app.images[i].line_index < app.images[upto - 1].line_index);
            }
            lemma_plans_upto(app, shown, last, upto - 1, content_width);
            let image = app.image_on(last)->0 as int;
            assert(image == upto - 1) by {
                assert(app.image_on(last) is Some);
                if image < upto - 1 {
                    assert(app.images[image].line_index < app.images[upto - 1].line_index);
                } else if image > upto - 1 {
                    assert(app.images[upto - 1].line_index < app.images[image].line_index);
                }
            }
            lemma_page_rows(app, shown, last, content_width);
            lemma_rows_before_line(app, last, content_width);
            lemma_rows_of_first_images(
                app,
                upto - 1,
                last as usize,
                app.images.len() as int,
                content_width,
            );
            lemma_page_grows(app, shown, line, shown.len() as int, content_width);
            lemma_image_rows_upto(app, upto - 1, content_width);
            let rows = app.images[upto - 1].rows(app.picker, content_width);
            let after = app.page_upto(shown, line, content_width);
            assert(after.lines.len() == before.lines.len() + 1 + rows);
            assert(before.lines.len() == last + app.image_rows_upto(upto - 1, content_width));
            let bounds = app.bounds_of(upto - 1, content_width);
            assert(bounds.start_row == before.lines.len() + 1);
            assert(bounds.end_row == before.lines.len() + 1 + rows);
        } else {
            assert forall|i: int| 0 <= i < upto implies (#[trigger] app.images[i]).line_index
                < last by {
                if i < upto - 1 {
                    assert(app.images[i].line_index < app.images[upto - 1].line_index);
                }
                assert(app.images[upto - 1].line_index < line);
            }
            assert(app.image_on(last) is None) by {
                if let Some(image) = app.image_on(last) {
                    assert(app.images[image as int].line_index == last);
                }
            }
            lemma_plans_upto(app, shown, last, upto, content_width);
        }
    }
}

/// Whether rows of images come in the order of the images, each image with a row of its own and
/// with a row between it and the next.
pub open spec fn stand_apart(bounds: Seq<ImageVirtualBounds>) -> bool {
    &&& forall|i: int|
        0 <= i < bounds.len() ==> (#[trigger] bounds[i]).start_row < bounds[i].end_row
    &&& forall|i: int, j: int|
        #![trigger bounds[i], bounds[j]]
        0 <= i < j < bounds.len() ==> bounds[i].image_index < bounds[j].image_index
            && bounds[i].end_row < bounds[j].start_row
}

proof fn lemma_all_image_rows(app: AppView, upto: int, content_width: u16)
    requires
        0 <= upto <= app.images.len(),
    ensures
        app.image_rows_upto(upto, content_width) <= app.image_rows_upto(
            app.images.len() as int,
            content_width,
        ),
    decreases app.images.len() - upto,
{
    if upto < app.images.len() {
        lemma_all_image_rows(app, upto + 1, content_width);
        lemma_image_rows(app.images[upto], app, content_width);
    }
}

/// Where an image's rows end is where the next line stands, so that the next image begins below it.
proof fn lemma_bounds_stand_apart(app: AppView, upto: int, content_width: u16)
    requires
        app.is_indexed(),
        0 <= upto <= app.images.len(),
        app.lines.len() + app.image_rows_upto(app.images.len() as int, content_width)
            <= usize::MAX,
    ensures
        stand_apart(app.bounds_upto(upto, content_width)),
        forall|i: int|
            0 <= i < app.bounds_upto(upto, content_width).len() ==> (#[trigger] app.bounds_upto(
                upto,
                content_width,
            )[i]).image_index < upto,
        forall|i: int|
            0 <= i < app.bounds_upto(upto, content_width).len() ==> upto > 0 && (
            #[trigger] app.bounds_upto(upto, content_width)[i]).end_row <= app.images[upto
                - 1].line_index + 1 + app.image_rows_upto(upto, content_width),
        forall|k: int|
            0 <= k < upto && (#[trigger] app.images[k]).rows(app.picker, content_width) > 0
                ==> exists|i: int|
                0 <= i < app.bounds_upto(upto, content_width).len() && (
                #[trigger] app.bounds_upto(upto, content_width)[i]).image_index == k,
    decreases upto,
{
    if upto > 0 {
        let last = upto - 1;
        lemma_bounds_stand_apart(app, last, content_width);
        lemma_image_rows_upto(app, upto, content_width);
        lemma_image_rows_upto(app, last, content_width);
        lemma_all_image_rows(app, upto, content_width);
        let before = app.bounds_upto(last, content_width);
        let bounds = app.bounds_upto(upto, content_width);
        let rows = app.images[last].rows(app.picker, content_width);
        assert(app.images[last].line_index < app.lines.len());
        if last > 0 {
            assert(app.images[last - 1].line_index < app.images[last].line_index);
        }
        if rows > 0 {
            let next = app.bounds_of(last, content_width);
            assert(next.start_row == app.images[last].line_index + 1 + app.image_rows_upto(
                last,
                content_width,
            ));
            assert(next.end_row == next.start_row + rows);
            assert forall|i: int| 0 <= i < bounds.len() implies #[trigger] bounds[i] == if i
                < before.len() {
                before[i]
            } else {
                next
            } by {}
            assert forall|k: int|
                0 <= k < upto && (#[trigger] app.images[k]).rows(
                    app.picker,
                    content_width,
                ) > 0 implies exists|i: int|
                0 <= i < bounds.len() && (#[trigger] bounds[i]).image_index == k by {
                if k < last {
                    let i = choose|i: int|
                        0 <= i < before.len() && (#[trigger] before[i]).image_index == k;
                    assert(bounds[i].image_index == k);
                } else {
                    assert(bounds[bounds.len() - 1].image_index == k);
                }
            }
        }
    }
}

/// The rows that images are drawn on are those that the cursor finds them on: every image that
/// takes rows has its own, in the order of the images, with a row between two of them.
pub proof fn law_images_are_found_where_they_are_drawn(app: AppView, content_width: u16)
    requires
        app.is_indexed(),
        app.is_coherent(),
        app.page(content_width).lines.len() <= usize::MAX,
    ensures
        same_rows(app.page(content_width).image_plans, app.bounds(content_width)),
        stand_apart(app.bounds(content_width)),
        forall|k: int|
            0 <= k < app.images.len() && (#[trigger] app.images[k]).rows(app.picker, content_width)
                > 0 ==> exists|i: int|
                0 <= i < app.bounds(content_width).len() && (#[trigger] app.bounds(
                    content_width,
                )[i]).image_index == k,
{
    law_memory_is_true(app, content_width);
    law_page_has_all_rows(app, content_width);
    lemma_bounds_stand_apart(app, app.images.len() as int, content_width);
    assert(app.shown_lines().len() == app.lines.len());
    lemma_plans_upto(
        app,
        app.shown_lines(),
        app.lines.len() as int,
        app.images.len() as int,
        content_width,
    );
}

proof fn lemma_first_at_row(bounds: Seq<ImageVirtualBounds>, row: usize)
    ensures
        first_at_row(bounds, row) matches Some(found) ==> bounds.contains(found)
            && found.start_row <= row < found.end_row,
        first_at_row(bounds, row) is None ==> forall|i: int|
            0 <= i < bounds.len() ==> !((#[trigger] bounds[i]).start_row <= row
                < bounds[i].end_row),
    decreases bounds.len(),
{
    if bounds.len() > 0 {
        let rest = bounds.drop_first();
        lemma_first_at_row(rest, row);
        if !(bounds[0].start_row <= row < bounds[0].end_row) {
            if let Some(found) = first_at_row(rest, row) {
                let k = choose|k: int| 0 <= k < rest.len() && rest[k] == found;
                assert(bounds[k + 1] == found);
            } else {
                assert forall|i: int| 0 <= i < bounds.len() implies !((
                #[trigger] bounds[i]).start_row <= row < bounds[i].end_row) by {
                    if i > 0 {
                        assert(rest[i - 1] == bounds[i]);
                    }
                }
            }
        } else {
            assert(bounds[0] == first_at_row(bounds, row)->0);
        }
    }
}

/// The image that a row belongs to is one that takes the row, and it is found wherever there is
/// one.
pub proof fn law_image_at_row(app: AppView, row: usize, content_width: u16)
    ensures
        app.image_at_row(row, content_width) is Some <==> exists|i: int|
            0 <= i < app.bounds(content_width).len() && (#[trigger] app.bounds(
                content_width,
            )[i]).start_row <= row < app.bounds(content_width)[i].end_row,
        app.image_at_row(row, content_width) matches Some(image) ==> exists|i: int|
            0 <= i < app.bounds(content_width).len() && (#[trigger] app.bounds(
                content_width,
            )[i]).image_index == image && app.bounds(content_width)[i].start_row <= row
                < app.bounds(content_width)[i].end_row,
{
    let bounds = app.bounds(content_width);
    lemma_first_at_row(bounds, row);
    if let Some(found) = first_at_row(bounds, row) {
        let k = choose|k: int| 0 <= k < bounds.len() && bounds[k] == found;
        assert(bounds[k].start_row <= row < bounds[k].end_row);
    }
}

/// The cursor is on the page and on the screen, and the screen shows no more of what follows the
/// page than it may.
pub proof fn law_cursor_is_shown(app: AppView, viewport_height: usize, content_width: u16)
    requires
        viewport_height > 0,
    ensures
        ({
            let shown = app.show_cursor(viewport_height, content_width);
            &&& shown.scroll <= shown.cursor_row
            &&& shown.cursor_row <= shown.scroll + viewport_height - 1
            &&& shown.cursor_row <= shown.last_row(content_width)
            &&& shown.scroll <= shown.max_scroll(viewport_height, content_width)
        }),
{
}

/// Scrolling up by as much as was scrolled down leads back, as long as the end of the page was not
/// reached.
pub proof fn law_scrolling_up_undoes_scrolling_down(
    app: AppView,
    n: usize,
    viewport_height: usize,
    content_width: u16,
)
    requires
        app.scroll + n <= app.unfocused().max_scroll(viewport_height, content_width),
        app.cursor_row + n <= app.unfocused().last_row(content_width),
    ensures
        app.scroll_down(n, viewport_height, content_width).scroll_up(n, content_width).scroll
            == app.scroll,
        app.scroll_down(n, viewport_height, content_width).scroll_up(n, content_width).cursor_row
            == app.cursor_row,
{
}

} // verus!
