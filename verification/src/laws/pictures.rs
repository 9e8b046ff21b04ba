//! Which images are loaded, encoded and drawn, and where.
use ratatui_image::protocol::StatefulProtocol;
use vstd::prelude::*;

use crate::app::{AppView, ImageRenderPlan};
use crate::inline_image::{
    ceil_div, encoder_cell, encoder_pixels, image_height, image_width, is_encodable, placeholder,
    prepared, rows_for_size, taken_area, ImageLoadState, InlineView,
};
use crate::loading::{
    probe_for, probes_upto, ImageLoadResult, ImageLoadResultPayload, ImageResizeResult, JobView,
    RequestView,
};
use crate::page::ImageView;
use crate::screen::{
    is_on_screen, shown_area, shown_resize, viewport_of, ContentView, ProtocolType,
};
use crate::source::{resolved_source, SourceView};
use crate::variant::{
    entries_before, has_variant, image_for, in_order, kept_entries,
    law_store_loses_what_is_taken_out, law_variants_are_ordered, lemma_entries_split, variant_for,
    with_entry, without_entry, CropOptions, Entries, ImageResizeMode, ImageResizeVariant, Rect,
    Resize,
};

verus! {

/// Whether a row of the page is on a screen that begins at another.
pub open spec fn is_shown(row: int, scroll: usize, rows: int) -> bool {
    scroll <= row < scroll + rows
}

/// Whether a row of the page belongs to an image.
pub open spec fn is_row_of(plan: ImageRenderPlan, row: int) -> bool {
    plan.start_row <= row < plan.start_row + plan.height
}

/// An image is on the screen exactly if one of its rows is.
pub proof fn law_images_are_on_screen_by_their_rows(
    plan: ImageRenderPlan,
    scroll: usize,
    inner: Rect,
)
    requires
        plan.start_row + plan.height <= usize::MAX,
        scroll + inner.height <= usize::MAX,
    ensures
        is_on_screen(plan, scroll, inner) <==> exists|row: int|
            #[trigger] is_row_of(plan, row) && is_shown(row, scroll, inner.height as int),
{
    if is_on_screen(plan, scroll, inner) {
        let row = if plan.start_row >= scroll {
            plan.start_row as int
        } else {
            scroll as int
        };
        assert(is_row_of(plan, row) && is_shown(row, scroll, inner.height as int));
    }
}

/// An image is drawn where its rows are: a row of the screen shows one of them exactly if it lies in
/// the image's area, which is as wide as the page.
pub proof fn law_images_are_drawn_on_their_rows(
    plan: ImageRenderPlan,
    scroll: usize,
    inner: Rect,
    row: int,
)
    requires
        is_on_screen(plan, scroll, inner),
        plan.start_row + plan.height <= usize::MAX,
        scroll + inner.height <= usize::MAX,
        inner.y + inner.height <= u16::MAX,
    ensures
        ({
            let area = shown_area(plan, scroll, inner);
            &&& area.x == inner.x && area.width == inner.width
            &&& is_row_of(plan, row) && is_shown(row, scroll, inner.height as int) <==> area.y
                <= inner.y + (row - scroll) < area.y + area.height
        }),
{
}

/// An image is drawn whole where all of its rows are on the screen. Else it is cut off: at the top
/// exactly if its first row is above the screen, and never at the left.
pub proof fn law_images_are_cut_where_the_screen_ends(
    plan: ImageRenderPlan,
    scroll: usize,
    inner: Rect,
)
    requires
        plan.start_row + plan.height <= usize::MAX,
        scroll + inner.height <= usize::MAX,
    ensures
        shown_resize(plan, scroll, inner) is Fit || shown_resize(plan, scroll, inner) is Crop,
        plan.height > 0 ==> (shown_resize(plan, scroll, inner) is Fit <==> forall|row: int|
            #[trigger] is_row_of(plan, row) ==> is_shown(row, scroll, inner.height as int)),
        shown_resize(plan, scroll, inner) matches Resize::Crop(cut) ==> cut == Some(
            CropOptions { clip_top: plan.start_row < scroll, clip_left: false },
        ),
{
    if plan.height > 0 {
        let first = plan.start_row as int;
        let last = plan.start_row + plan.height - 1;
        assert(is_row_of(plan, first) && is_row_of(plan, last));
    }
}

/// A terminal shows three rows less than it has and two columns less; half a page and a page are
/// steps of at least one row.
pub proof fn law_frame_and_status_take_their_room(width: u16, height: u16)
    ensures
        ({
            let viewport = viewport_of(width, height);
            &&& height >= 3 ==> viewport.height + 3 == height
            &&& height < 3 ==> viewport.height == 0
            &&& width >= 2 ==> viewport.width + 2 == width
            &&& width < 2 ==> viewport.width == 0
            &&& viewport.height > 0 ==> viewport.full_page == viewport.height
            &&& viewport.height == 0 ==> viewport.full_page == 1
            &&& viewport.height >= 2 ==> viewport.height - 1 <= 2 * viewport.half_page
                <= viewport.height
            &&& viewport.height < 2 ==> viewport.half_page == 1
        }),
{
}

/// Whether an image has a row on a screen, or no farther from it than two screens.
pub open spec fn is_within_two_screens(
    plan: ImageRenderPlan,
    scroll: usize,
    viewport_height: usize,
) -> bool {
    &&& plan.start_row + plan.height >= scroll - 2 * viewport_height
    &&& plan.start_row <= scroll + viewport_height + 2 * viewport_height
}

/// Whether one of the first `upto` plans asks for an image that is on the screen or near it.
pub open spec fn is_called_for(
    app: AppView,
    plans: Seq<ImageRenderPlan>,
    upto: int,
    viewport_height: usize,
    index: int,
) -> bool {
    exists|k: int|
        0 <= k < upto && (#[trigger] plans[k]).image_index == index && is_within_two_screens(
            plans[k],
            app.scroll,
            viewport_height,
        )
}

/// The request to load an image is among requests, once.
pub open spec fn is_asked_for_once(
    requests: Seq<RequestView>,
    index: int,
    source: SourceView,
) -> bool {
    exists|r: int|
        0 <= r < requests.len() && (#[trigger] requests[r]).image_index == index
            && requests[r].job == JobView::LoadImage(source) && forall|other: int|
            0 <= other < requests.len() && other != r ==> (#[trigger] requests[other]).image_index
                != index
}

proof fn lemma_near_images(
    app: AppView,
    plans: Seq<ImageRenderPlan>,
    upto: int,
    viewport_height: usize,
    index: int,
)
    requires
        0 <= upto <= plans.len(),
        0 <= index < app.images.len() <= usize::MAX,
    ensures
        ({
            let (after, requests) = app.load_near_upto(plans, upto, viewport_height);
            let called = is_called_for(app, plans, upto, viewport_height, index);
            let before = app.images[index];
            let waits = before.load_state == ImageLoadState::NotRequested;
            &&& after.images.len() == app.images.len()
            &&& called && waits && before.source is Some ==> is_asked_for_once(
                requests,
                index,
                before.source->0,
            ) && after.images[index].load_state == ImageLoadState::Loading
            &&& called && waits && before.source is None ==> after.images[index].load_state
                == ImageLoadState::Failed
            &&& !(called && waits) ==> after.images[index] == before
            &&& called ==> after.images[index] == before.begin_loading()
            &&& !(called && waits && before.source is Some) ==> forall|r: int|
                0 <= r < requests.len() ==> (#[trigger] requests[r]).image_index != index
        }),
    decreases upto,
{
    if upto > 0 {
        lemma_near_images(app, plans, upto - 1, viewport_height, index);
        let plan = plans[upto - 1];
        let (before, requests) = app.load_near_upto(plans, upto - 1, viewport_height);
        let (after, more) = app.load_near_upto(plans, upto, viewport_height);
        assert(app.is_near(plan, viewport_height) <==> is_within_two_screens(
            plan,
            app.scroll,
            viewport_height,
        ));
        let was = is_called_for(app, plans, upto - 1, viewport_height, index);
        let is = is_called_for(app, plans, upto, viewport_height, index);
        if was {
            let k = choose|k: int|
                0 <= k < upto - 1 && (#[trigger] plans[k]).image_index == index
                    && is_within_two_screens(plans[k], app.scroll, viewport_height);
            assert(0 <= k < upto && plans[k].image_index == index);
            assert(is);
        }
        if plan.image_index == index && app.is_near(plan, viewport_height) {
            assert(is);
            if !was && app.images[index].load_state == ImageLoadState::NotRequested {
                assert(before.images[index] == app.images[index]);
                if app.images[index].source is Some {
                    let r = requests.len() as int;
                    assert(more[r].image_index == index);
                }
            }
        } else {
            assert(is <==> was);
        }
        if is_asked_for_once(requests, index, app.images[index].source->0) {
            let r = choose|r: int|
                0 <= r < requests.len() && (#[trigger] requests[r]).image_index == index
                    && requests[r].job == JobView::LoadImage(app.images[index].source->0) && forall|
                    other: int,
                |
                    0 <= other < requests.len() && other != r ==> (
                    #[trigger] requests[other]).image_index != index;
            if more != requests {
                assert(more == requests.push(more.last()));
                if plan.image_index != index {
                    assert(more.last().image_index != index);
                }
            }
            assert(more[r] == requests[r]);
            assert forall|other: int| 0 <= other < more.len() && other != r implies (
            #[trigger] more[other]).image_index != index by {
                if other < requests.len() {
                    assert(more[other] == requests[other]);
                }
            }
        }
    }
}

/// Asking for images changes nothing but the images and the counts of rows.
pub proof fn lemma_asking_keeps_the_place(
    app: AppView,
    plans: Seq<ImageRenderPlan>,
    upto: int,
    viewport_height: usize,
)
    ensures
        ({
            let after = app.load_near_upto(plans, upto, viewport_height).0;
            after == (AppView { images: after.images, row_counts: after.row_counts, ..app })
        }),
    decreases upto,
{
    if upto > 0 {
        lemma_asking_keeps_the_place(app, plans, upto - 1, viewport_height);
    }
}

/// Before the screen is drawn, every image is asked for, once, that has a row on it or within two
/// screens above or below, unless that has been done; and no other.
pub proof fn law_near_images_are_asked_for(
    app: AppView,
    plans: Seq<ImageRenderPlan>,
    viewport_height: usize,
    index: int,
)
    requires
        0 <= index < app.images.len() <= usize::MAX,
    ensures
        ({
            let (after, requests) = app.load_near_upto(plans, plans.len() as int, viewport_height);
            let image = app.images[index];
            let called = exists|k: int|
                0 <= k < plans.len() && (#[trigger] plans[k]).image_index == index
                    && is_within_two_screens(plans[k], app.scroll, viewport_height);
            let waits = image.load_state == ImageLoadState::NotRequested;
            &&& called && waits && image.source is Some ==> is_asked_for_once(
                requests,
                index,
                image.source->0,
            ) && after.images[index].load_state == ImageLoadState::Loading
            &&& called && waits && image.source is None ==> after.images[index].load_state
                == ImageLoadState::Failed
            &&& !(called && waits) ==> after.images[index] == image
            &&& called ==> after.images[index] == image.begin_loading()
            &&& !(called && waits && image.source is Some) ==> forall|r: int|
                0 <= r < requests.len() ==> (#[trigger] requests[r]).image_index != index
        }),
{
    lemma_near_images(app, plans, plans.len() as int, viewport_height, index);
    assert(is_called_for(app, plans, plans.len() as int, viewport_height, index) <==> exists|k: int|
        0 <= k < plans.len() && (#[trigger] plans[k]).image_index == index && is_within_two_screens(
            plans[k],
            app.scroll,
            viewport_height,
        ));
}

/// An image that is on the screen has been asked for when the screen is drawn.
pub proof fn law_images_on_screen_are_asked_for(
    app: AppView,
    plans: Seq<ImageRenderPlan>,
    k: int,
    inner: Rect,
)
    requires
        0 <= k < plans.len(),
        plans[k].image_index < app.images.len() <= usize::MAX,
        is_on_screen(plans[k], app.scroll, inner),
    ensures
        ({
            let (after, requests) = app.load_near_upto(
                plans,
                plans.len() as int,
                inner.height as usize,
            );
            let index = plans[k].image_index as int;
            &&& after.images[index].load_state != ImageLoadState::NotRequested
            &&& app.images[index].load_state == ImageLoadState::NotRequested
                && app.images[index].source is Some ==> is_asked_for_once(
                requests,
                index,
                app.images[index].source->0,
            )
        }),
{
    let index = plans[k].image_index as int;
    assert(is_within_two_screens(plans[k], app.scroll, inner.height as usize));
    assert(is_called_for(app, plans, plans.len() as int, inner.height as usize, index));
    lemma_near_images(app, plans, plans.len() as int, inner.height as usize, index);
}

/// An image with a row on the screen, or on one of the two screens above it or the two below, has
/// been asked for when the screen is drawn.
pub proof fn law_images_with_a_near_row_are_asked_for(
    app: AppView,
    plans: Seq<ImageRenderPlan>,
    k: int,
    row: int,
    viewport_height: usize,
)
    requires
        0 <= k < plans.len(),
        plans[k].image_index < app.images.len() <= usize::MAX,
        is_row_of(plans[k], row),
        app.scroll - 2 * viewport_height <= row < app.scroll + 3 * viewport_height,
    ensures
        ({
            let (after, requests) = app.load_near_upto(plans, plans.len() as int, viewport_height);
            let index = plans[k].image_index as int;
            &&& after.images[index].load_state != ImageLoadState::NotRequested
            &&& app.images[index].load_state == ImageLoadState::NotRequested
                && app.images[index].source is Some ==> is_asked_for_once(
                requests,
                index,
                app.images[index].source->0,
            )
        }),
{
    let index = plans[k].image_index as int;
    assert(is_within_two_screens(plans[k], app.scroll, viewport_height));
    assert(is_called_for(app, plans, plans.len() as int, viewport_height, index));
    lemma_near_images(app, plans, plans.len() as int, viewport_height, index);
}

/// What an image is and where it stands stays, whatever comes of its loading. An image is loaded
/// with the size and the encoders of what was found; nothing is left of an earlier try.
pub proof fn law_answers_decide_the_state(
    image: InlineView,
    payload: ImageLoadResultPayload,
    encoders: (StatefulProtocol, StatefulProtocol),
)
    ensures
        ({
            let after = image.take_result(payload, encoders);
            &&& after.line_index == image.line_index && after.source == image.source
            &&& payload matches ImageLoadResultPayload::LoadedImage(Some(found)) ==> {
                &&& after.load_state == ImageLoadState::Loaded
                &&& after.pixel_size == Some((image_width(found), image_height(found)))
                &&& after.known_size() == Some((image_width(found), image_height(found)))
                &&& after.state == Some(encoders.0) && after.scratch_state == Some(encoders.1)
                &&& after.active_variant is None && after.cached_variants.len() == 0
                &&& !after.resize_pending && !after.has_encoded_state
                &&& after.hinted_pixel_size == image.hinted_pixel_size
                &&& after.pending_variant is None
            }
            &&& payload matches ImageLoadResultPayload::LoadedImage(None) ==> {
                &&& after.load_state == ImageLoadState::Failed
                &&& after.reference() is None && !after.resize_pending
                &&& after.pixel_size == image.pixel_size && after.hinted_pixel_size
                    == image.hinted_pixel_size
            }
            &&& payload matches ImageLoadResultPayload::ProbedDimensions(size) ==> {
                &&& after == (InlineView { hinted_pixel_size: after.hinted_pixel_size, ..image })
                &&& image.pixel_size is None && image.hinted_pixel_size is None
                    ==> after.hinted_pixel_size == size
                &&& image.pixel_size is Some || image.hinted_pixel_size is Some || size is None
                    ==> after == image
            }
            &&& payload is LoadedImage ==> image.is_news(payload)
            &&& payload is ProbedDimensions ==> (image.is_news(payload) <==> after != image)
        }),
{
}

/// An image has the size that it was found to have, else the one that is promised, else one of 900
/// by 500 pixels; one that could not be loaded has none unless one is promised, and takes no rows.
pub proof fn law_sizes_are_known_before_images(
    image: InlineView,
    picker: ratatui_image::picker::Picker,
    content_width: u16,
)
    ensures
        image.pixel_size is Some ==> image.known_size() == image.pixel_size,
        image.pixel_size is None && image.hinted_pixel_size is Some ==> image.known_size()
            == image.hinted_pixel_size,
        image.pixel_size is None && image.hinted_pixel_size is None && image.load_state
            == ImageLoadState::Failed ==> image.known_size() is None && image.rows(
            picker,
            content_width,
        ) == 0,
        image.pixel_size is None && image.hinted_pixel_size is None && image.load_state
            != ImageLoadState::Failed ==> image.known_size() == Some((900u32, 500u32)),
{
}

proof fn lemma_ceil(a: int, b: int)
    requires
        a >= 0,
        b > 0,
    ensures
        (ceil_div(a, b) - 1) * b < a <= ceil_div(a, b) * b,
{
    let q = a / b;
    assert(a == q * b + a % b && 0 <= a % b < b) by (nonlinear_arith)
        requires
            b > 0,
            q == a / b,
    ;
    assert((q + 1) * b == q * b + b) by (nonlinear_arith);
    assert((q - 1) * b == q * b - b) by (nonlinear_arith);
}

/// An image is drawn no wider than the page and in its proportions: its rows are the fewest that
/// hold its height, which is the least that is in proportion to the width it is drawn with. No
/// image takes more than eighteen rows.
pub proof fn law_images_keep_their_proportions(
    width: u32,
    height: u32,
    cell: (u16, u16),
    content_width: u16,
    shown_width: int,
    shown_height: int,
)
    requires
        width > 0,
        height > 0,
        content_width > 0,
        cell.0 > 0,
        cell.1 > 0,
        shown_width == width || shown_width == content_width * cell.0,
        shown_width <= width,
        shown_width <= content_width * cell.0,
        (shown_height - 1) * width < height * shown_width <= shown_height * width,
    ensures
        ({
            let rows = rows_for_size(Some((width, height)), cell, content_width);
            &&& rows <= 18
            &&& (rows - 1) * cell.1 < shown_height
            &&& rows < 18 ==> shown_height <= rows * cell.1
        }),
{
    let exact = ceil_div(height * shown_width, width as int);
    assert(content_width * cell.0 > 0) by (nonlinear_arith)
        requires
            content_width > 0,
            cell.0 > 0,
    ;
    assert(height * shown_width > 0) by (nonlinear_arith)
        requires
            height > 0,
            shown_width > 0,
    ;
    lemma_ceil(height * shown_width, width as int);
    assert(exact == shown_height) by (nonlinear_arith)
        requires
            width > 0,
            (exact - 1) * width < height * shown_width <= exact * width,
            (shown_height - 1) * width < height * shown_width <= shown_height * width,
    ;
    assert(exact > 0) by (nonlinear_arith)
        requires
            width > 0,
            0 < height * shown_width <= exact * width,
    ;
    lemma_ceil(exact, cell.1 as int);
    let rows = ceil_div(exact, cell.1 as int);
    assert(rows > 18 ==> 17 * cell.1 < exact) by (nonlinear_arith)
        requires
            (rows - 1) * cell.1 < exact,
    ;
}

/// How many images are in a state of loading.
pub open spec fn count_in(images: Seq<InlineView>, state: ImageLoadState) -> nat {
    images.filter(|image: InlineView| image.load_state == state).len()
}

proof fn lemma_count_in(images: Seq<InlineView>, upto: int, state: ImageLoadState)
    requires
        0 < upto <= images.len(),
    ensures
        count_in(images.take(upto), state) == count_in(images.take(upto - 1), state) + (
        if images[upto - 1].load_state == state {
            1nat
        } else {
            0nat
        }),
{
    reveal(Seq::filter);
    assert(images.take(upto).drop_last() == images.take(upto - 1));
}

/// The progress tells how many images are loaded, are on their way and have failed.
pub proof fn law_progress_counts_states(app: AppView, upto: int)
    requires
        0 <= upto <= app.images.len(),
    ensures
        app.progress_upto(upto).0 == count_in(app.images.take(upto), ImageLoadState::Loaded),
        app.progress_upto(upto).1 == count_in(app.images.take(upto), ImageLoadState::Loading),
        app.progress_upto(upto).2 == count_in(app.images.take(upto), ImageLoadState::Failed),
    decreases upto,
{
    if upto > 0 {
        law_progress_counts_states(app, upto - 1);
        lemma_count_in(app.images, upto, ImageLoadState::Loaded);
        lemma_count_in(app.images, upto, ImageLoadState::Loading);
        lemma_count_in(app.images, upto, ImageLoadState::Failed);
    } else {
        reveal(Seq::filter);
        assert(app.images.take(0).len() == 0);
    }
}

/// What concerns one image leaves the others, and everything else but the counts of rows, as they
/// are.
pub proof fn law_images_do_not_meddle(
    app: AppView,
    index: usize,
    result: ImageLoadResult,
    resized: ImageResizeResult,
    encoders: (StatefulProtocol, StatefulProtocol),
    offered: Rect,
    resize: Resize,
    other: int,
)
    requires
        0 <= other < app.images.len() <= usize::MAX,
    ensures
        index != other ==> app.begin_loading(index).images[other] == app.images[other],
        index != other ==> app.fail_loading(index).images[other] == app.images[other],
        index != other ==> app.ask_for_size(index, offered, resize).images[other]
            == app.images[other],
        result.image_index != other ==> app.take_result(result, encoders).images[other]
            == app.images[other],
        resized.image_index != other ==> app.receive(resized).images[other] == app.images[other],
        app.begin_loading(index) == (AppView {
            images: app.begin_loading(index).images,
            row_counts: app.begin_loading(index).row_counts,
            ..app
        }),
        app.fail_loading(index) == (AppView {
            images: app.fail_loading(index).images,
            row_counts: app.fail_loading(index).row_counts,
            ..app
        }),
        app.ask_for_size(index, offered, resize) == (AppView {
            images: app.ask_for_size(index, offered, resize).images,
            ..app
        }),
        app.take_result(result, encoders) == (AppView {
            images: app.take_result(result, encoders).images,
            ..app
        }),
        app.receive(resized) == (AppView { images: app.receive(resized).images, ..app }),
        index < app.images.len() ==> app.fail_loading(index).images[index as int].load_state
            == ImageLoadState::Failed && app.fail_loading(index).images[index as int].reference()
            is None,
{
}

/// In place of an image stands what is being done about it; the image itself is drawn exactly where
/// it is encoded in the size that is wanted.
pub proof fn law_placeholders_tell_what_is_going_on(
    app: AppView,
    index: usize,
    wanted: Option<ImageResizeVariant>,
)
    requires
        index < app.images.len(),
    ensures
        ({
            let image = app.images[index as int];
            let content = app.content_for(index, wanted);
            let draws = wanted is Some && image.state is Some && image.active_variant == wanted;
            &&& content is Image <==> draws
            &&& content matches ContentView::Text(text) ==> text == "  "@ + placeholder(image)
            &&& image.resize_pending || image.load_state == ImageLoadState::Loaded ==> placeholder(
                image,
            ) == "[rendering image...]"@
            &&& !image.resize_pending && image.load_state == ImageLoadState::Loading ==> placeholder(
                image,
            ) == "[loading image...]"@
            &&& !image.resize_pending && image.load_state == ImageLoadState::Failed ==> placeholder(
                image,
            ) == "[image unavailable]"@
            &&& !image.resize_pending && image.load_state == ImageLoadState::NotRequested
                ==> placeholder(image) == "[image pending]"@
        }),
{
}

/// Whether entries hold an image for a variant.
pub open spec fn holds(
    entries: Entries,
    variant: ImageResizeVariant,
    image: StatefulProtocol,
) -> bool {
    exists|i: int| 0 <= i < entries.len() && #[trigger] entries[i] == (variant, image)
}

/// What a store holds is found in it, and nothing else.
pub proof fn law_store_finds_what_it_holds(
    entries: Entries,
    variant: ImageResizeVariant,
    image: StatefulProtocol,
)
    requires
        in_order(entries),
    ensures
        holds(entries, variant, image) <==> has_variant(entries, variant) && image_for(
            entries,
            variant,
        ) == image,
{
    lemma_entries_split(entries, variant);
    let at = entries_before(entries, variant);
    if holds(entries, variant, image) {
        let i = choose|i: int|
            0 <= i < entries.len() && #[trigger] entries[i] == (variant, image);
        assert(i >= at);
        if i > at {
            assert(entries[at].0.order() < entries[i].0.order());
        }
    }
    if has_variant(entries, variant) && image_for(entries, variant) == image {
        assert(entries[at] == (variant, image));
    }
}

/// Putting an image into a store and taking one out leaves the images of all other variants.
pub proof fn law_store_keeps_the_others(
    entries: Entries,
    variant: ImageResizeVariant,
    image: StatefulProtocol,
    other: ImageResizeVariant,
    kept: StatefulProtocol,
)
    requires
        in_order(entries),
        other != variant,
    ensures
        holds(with_entry(entries, variant, image), other, kept) <==> holds(entries, other, kept),
        holds(without_entry(entries, variant), other, kept) <==> holds(entries, other, kept),
        holds(with_entry(entries, variant, image), variant, image),
        !has_variant(entries, variant) ==> with_entry(entries, variant, image).len()
            == entries.len() + 1,
        has_variant(entries, variant) ==> with_entry(entries, variant, image).len()
            == entries.len(),
{
    lemma_entries_split(entries, variant);
    let at = entries_before(entries, variant);
    let more = with_entry(entries, variant, image);
    let less = without_entry(entries, variant);
    assert(more[at] == (variant, image));
    if holds(entries, other, kept) {
        let i = choose|i: int| 0 <= i < entries.len() && #[trigger] entries[i] == (other, kept);
        if has_variant(entries, variant) {
            assert(i != at);
            assert(more[i] == (other, kept));
            let j = if i < at {
                i
            } else {
                i - 1
            };
            assert(less[j] == (other, kept));
        } else {
            let j = if i < at {
                i
            } else {
                i + 1
            };
            assert(more[j] == (other, kept));
        }
    }
    if holds(more, other, kept) {
        let i = choose|i: int| 0 <= i < more.len() && #[trigger] more[i] == (other, kept);
        assert(i != at);
        if has_variant(entries, variant) {
            assert(entries[i] == (other, kept));
        } else {
            let j = if i < at {
                i
            } else {
                i - 1
            };
            assert(entries[j] == (other, kept));
        }
    }
    if holds(less, other, kept) {
        let i = choose|i: int| 0 <= i < less.len() && #[trigger] less[i] == (other, kept);
        if has_variant(entries, variant) {
            let j = if i < at {
                i
            } else {
                i + 1
            };
            assert(entries[j] == (other, kept));
        }
    }
}

/// A store of no more than twenty-four entries is kept as it is; of a larger one the last
/// twenty-four are.
pub proof fn law_store_keeps_the_largest(entries: Entries)
    ensures
        entries.len() <= 24 ==> kept_entries(entries) == entries,
        entries.len() > 24 ==> kept_entries(entries).len() == 24 && forall|i: int|
            0 <= i < 24 ==> #[trigger] kept_entries(entries)[i] == entries[entries.len() - 24 + i],
{
}

/// Variants are ordered by width, then by height, then by mode.
pub proof fn law_variants_are_ordered_by_size(a: ImageResizeVariant, b: ImageResizeVariant)
    ensures
        a.width < b.width ==> a.order() < b.order(),
        a.width == b.width && a.height < b.height ==> a.order() < b.order(),
        a.width == b.width && a.height == b.height ==> {
            &&& a.mode is Fit && !(b.mode is Fit) ==> a.order() < b.order()
            &&& a.mode is Crop && b.mode is Scale ==> a.order() < b.order()
            &&& a.mode matches ImageResizeMode::Crop { clip_top, clip_left } ==> b.mode
                matches ImageResizeMode::Crop { clip_top: top, clip_left: left } ==> {
                &&& !clip_top && top ==> a.order() < b.order()
                &&& clip_top == top && !clip_left && left ==> a.order() < b.order()
            }
        },
{
    law_variants_are_ordered(a, b);
}

/// A variant tells the size of the area and how the image is brought to it.
pub proof fn law_variants_tell_areas_apart(a: Resize, b: Resize, area: Rect, other: Rect)
    ensures
        variant_for(a, area).width == area.width && variant_for(a, area).height == area.height,
        variant_for(a, area) == variant_for(b, other) ==> area.width == other.width && area.height
            == other.height && (a is Fit <==> b is Fit) && (a is Scale <==> b is Scale),
        forall|x: CropOptions, y: CropOptions|
            a == Resize::Crop(Some(x)) && b == Resize::Crop(Some(y)) && x != y
                ==> #[trigger] variant_for(Resize::Crop(Some(x)), area) != #[trigger] variant_for(
                Resize::Crop(Some(y)),
                area,
            ),
        a == Resize::Crop(None) && b == Resize::Crop(
            Some(CropOptions { clip_top: false, clip_left: false }),
        ) ==> variant_for(a, area) == variant_for(b, area),
{
}

/// A size that is drawn costs nothing. One that is kept is drawn at once, from the encoder that was
/// kept for it. For any other an encoder leaves, if there is one to spare and none is on its way;
/// then the size is waited for, and the encoder is gone from the image.
pub proof fn law_sizes_are_asked_for_once(image: InlineView, variant: ImageResizeVariant)
    requires
        image.is_sound(),
    ensures
        ({
            let after = image.ask_for(variant);
            &&& image.draws(variant) ==> after == image && image.leaving(variant) is None
            &&& !image.draws(variant) && has_variant(image.cached_variants, variant) ==> {
                &&& after.draws(variant)
                &&& after.state == Some(image_for(image.cached_variants, variant))
                &&& image.leaving(variant) is None
            }
            &&& image.resize_pending ==> image.leaving(variant) is None
            &&& !image.draws(variant) && !has_variant(image.cached_variants, variant)
                && !image.resize_pending && (image.scratch_state is Some
                || image.cached_variants.len() > 0 || image.active_variant is None && image.state
                is Some) ==> image.leaving(variant) is Some
            &&& image.leaving(variant) is Some ==> {
                &&& after.resize_pending && after.pending_variant == Some(variant)
                &&& after.leaving(variant) is None && after.ask_for(variant) == after
                &&& after.active_variant == image.active_variant
                &&& image.active_variant is Some ==> after.state == image.state
                &&& image.scratch_state is Some ==> image.leaving(variant) == image.scratch_state
                    && after.scratch_state is None && after.cached_variants
                    == image.cached_variants && after.state == image.state
                &&& image.scratch_state is None && image.cached_variants.len() > 0
                    ==> image.cached_variants == seq![
                    (image.cached_variants[0].0, image.leaving(variant)->0),
                ] + after.cached_variants && after.state == image.state
                &&& image.scratch_state is None && image.cached_variants.len() == 0
                    ==> image.leaving(variant) == image.state && after.state is None
            }
            &&& !image.draws(variant) && !has_variant(image.cached_variants, variant)
                && image.leaving(variant) is None ==> after == image
            &&& after.load_state == image.load_state && after.source == image.source
                && after.line_index == image.line_index && after.known_size()
                == image.known_size()
        }),
{
    let after = image.ask_for(variant);
    if image.leaving(variant) is Some && image.scratch_state is None && image.cached_variants.len()
        > 0 {
        assert(image.cached_variants =~= seq![
            (image.cached_variants[0].0, image.leaving(variant)->0),
        ] + after.cached_variants);
    }
    if image.leaving(variant) is Some {
        lemma_entries_split(image.cached_variants, variant);
        lemma_rest_has_not(image, variant);
    }
}

proof fn lemma_rest_has_not(image: InlineView, variant: ImageResizeVariant)
    requires
        image.is_sound(),
        image.leaving(variant) is Some,
    ensures
        !has_variant(image.ask_for(variant).cached_variants, variant),
        in_order(image.ask_for(variant).cached_variants),
{
    let rest = image.ask_for(variant).cached_variants;
    let entries = image.cached_variants;
    if rest != entries {
        assert(rest == entries.drop_first());
        assert forall|i: int, j: int|
            #![trigger rest[i], rest[j]]
            0 <= i < j < rest.len() implies rest[i].0.order() < rest[j].0.order() by {
            assert(rest[i] == entries[i + 1] && rest[j] == entries[j + 1]);
        }
    }
    if has_variant(rest, variant) {
        let found = image_for(rest, variant);
        law_store_finds_what_it_holds(rest, variant, found);
        let i = choose|i: int| 0 <= i < rest.len() && #[trigger] rest[i] == (variant, found);
        if rest != entries {
            assert(entries[i + 1] == (variant, found));
        } else {
            assert(entries[i] == (variant, found));
        }
        law_store_finds_what_it_holds(entries, variant, found);
    }
}

/// An encoding that arrives ends the wait. It is drawn if it was waited for or if nothing encoded is
/// drawn; else what is drawn stays and the encoding is kept.
pub proof fn law_encodings_are_drawn_or_kept(
    image: InlineView,
    variant: ImageResizeVariant,
    encoder: StatefulProtocol,
)
    requires
        image.is_sound(),
        image.cached_variants.len() < 24,
    ensures
        ({
            let after = image.receive(variant, encoder);
            let waited = image.pending_variant == Some(variant) || image.active_variant is None;
            &&& !after.resize_pending && after.pending_variant is None && after.has_encoded_state
            &&& waited ==> after.state == Some(encoder) && after.active_variant == Some(variant)
            &&& !waited ==> after.state == image.state && after.active_variant
                == image.active_variant && holds(after.cached_variants, variant, encoder)
            &&& waited && image.active_variant is Some && image.state is Some ==> holds(
                after.cached_variants,
                image.active_variant->0,
                image.state->0,
            )
            &&& waited && image.active_variant is None && image.state is Some
                && image.scratch_state is None ==> after.scratch_state == image.state
            &&& image.scratch_state is Some ==> after.scratch_state == image.scratch_state
            &&& after.load_state == image.load_state && after.known_size() == image.known_size()
        }),
{
    let other = ImageResizeVariant {
        width: (if variant.width == 0 {
            1u16
        } else {
            0u16
        }),
        ..variant
    };
    law_store_keeps_the_others(image.cached_variants, variant, encoder, other, encoder);
    if image.active_variant is Some && image.state is Some {
        let previous = image.active_variant->0;
        let another = ImageResizeVariant {
            width: (if previous.width == 0 {
                1u16
            } else {
                0u16
            }),
            ..previous
        };
        law_store_keeps_the_others(
            image.cached_variants,
            previous,
            image.state->0,
            another,
            image.state->0,
        );
    }
}

/// An encoder that could not be sent away comes back to the image and is no longer waited for.
pub proof fn law_encoders_come_back(image: InlineView, encoder: StatefulProtocol)
    ensures
        ({
            let after = image.take_back(encoder);
            &&& !after.resize_pending && after.pending_variant is None
            &&& image.scratch_state is None ==> after.scratch_state == Some(encoder) && after.state
                == image.state
            &&& image.scratch_state is Some ==> after.scratch_state == image.scratch_state
            &&& image.scratch_state is Some && image.state is None ==> after.state == Some(encoder)
            &&& image.state is Some ==> after.state == image.state
            &&& after.cached_variants == image.cached_variants && after.active_variant
                == image.active_variant && after.load_state == image.load_state
        }),
{
}

/// The size of an image is asked for ahead exactly if the image lies in a file and no size is
/// promised.
pub proof fn law_sizes_of_files_are_asked_for(images: Seq<InlineView>, upto: int, index: int)
    requires
        0 <= upto <= images.len() <= usize::MAX,
        0 <= index < upto,
    ensures
        (exists|r: int|
            0 <= r < probes_upto(images, upto).len() && (#[trigger] probes_upto(
                images,
                upto,
            )[r]).image_index == index) <==> images[index].hinted_pixel_size is None
            && images[index].source is Some && images[index].source->0 is Local,
        forall|r: int|
            0 <= r < probes_upto(images, upto).len() ==> {
                let request = #[trigger] probes_upto(images, upto)[r];
                &&& request.image_index < upto
                &&& request.image_index == index ==> images[index].source == Some(
                    SourceView::Local(request.job->ProbeLocalDimensions_0),
                ) && request.job is ProbeLocalDimensions
            },
    decreases upto,
{
    let requests = probes_upto(images, upto);
    let before = probes_upto(images, upto - 1);
    if index < upto - 1 {
        law_sizes_of_files_are_asked_for(images, upto - 1, index);
        assert forall|r: int| 0 <= r < before.len() implies requests[r] == #[trigger] before[r] by {
        }
        if exists|r: int| 0 <= r < before.len() && (#[trigger] before[r]).image_index == index {
            let r = choose|r: int|
                0 <= r < before.len() && (#[trigger] before[r]).image_index == index;
            assert(requests[r].image_index == index);
        }
    } else {
        lemma_probes_before(images, upto - 1);
        if probe_for(images[index], index) is Some {
            assert(requests[before.len() as int].image_index == index);
        }
        assert forall|r: int| 0 <= r < before.len() implies requests[r] == #[trigger] before[r] by {
        }
    }
}

proof fn lemma_probes_before(images: Seq<InlineView>, upto: int)
    requires
        0 <= upto <= images.len() <= usize::MAX,
    ensures
        forall|r: int|
            0 <= r < probes_upto(images, upto).len() ==> (#[trigger] probes_upto(
                images,
                upto,
            )[r]).image_index < upto,
    decreases upto,
{
    if upto > 0 {
        lemma_probes_before(images, upto - 1);
        let before = probes_upto(images, upto - 1);
        assert forall|r: int| 0 <= r < before.len() implies probes_upto(images, upto)[r]
            == #[trigger] before[r] by {}
    }
}

/// Loading is asked for of an image that has not been asked for, and of no other. An image without a
/// source has failed at once.
pub proof fn law_loading_is_asked_for_once(image: InlineView)
    ensures
        ({
            let after = image.begin_loading();
            let waits = image.load_state == ImageLoadState::NotRequested;
            &&& !waits ==> after == image
            &&& waits && image.source is Some ==> after.load_state == ImageLoadState::Loading
            &&& waits && image.source is None ==> after.load_state == ImageLoadState::Failed
            &&& waits ==> after.reference() is None && !after.resize_pending
            &&& after.begin_loading() == after
            &&& after.line_index == image.line_index && after.source == image.source
                && after.pixel_size == image.pixel_size && after.hinted_pixel_size
                == image.hinted_pixel_size
        }),
{
}

/// The size that an image is wanted in is that of the area that it takes of what it is offered, by
/// its encoder; none where it takes nothing.
pub proof fn law_sizes_are_wanted_by_area(image: InlineView, resize: Resize, offered: Rect)
    requires
        image.reference() is Some,
    ensures
        ({
            let encoder = image.reference()->0;
            let taken = taken_area(
                encoder_pixels(encoder),
                encoder_cell(encoder),
                resize,
                offered,
            );
            &&& taken.width == 0 || taken.height == 0 <==> image.wanted(resize, offered) is None
            &&& image.wanted(resize, offered) matches Some(variant) ==> variant.width == taken.width
                && variant.height == taken.height && (variant.mode is Fit <==> resize is Fit) && (
            variant.mode is Crop <==> resize is Crop) && (variant.mode is Scale <==> resize
                is Scale) && (forall|cut: CropOptions|
                resize == Resize::Crop(Some(cut)) ==> variant.mode == #[trigger] crop_mode(cut))
        }),
{
}

/// The mode of an image that is cut.
pub open spec fn crop_mode(cut: CropOptions) -> ImageResizeMode {
    ImageResizeMode::Crop { clip_top: cut.clip_top, clip_left: cut.clip_left }
}

/// Without an encoder there is no size to want.
pub proof fn law_no_encoder_no_size(image: InlineView, resize: Resize, offered: Rect)
    ensures
        image.state is None && image.scratch_state is None && image.cached_variants.len() == 0
            ==> image.wanted(resize, offered) is None,
        image.state is None && image.scratch_state is Some ==> image.reference()
            == image.scratch_state,
        image.state is None && image.scratch_state is None && image.cached_variants.len() > 0
            ==> image.reference() == Some(image.cached_variants[0].1),
        image.state is Some ==> image.reference() == image.state,
{
}

/// What can be encoded keeps to sixteen bits, in cells and in pixels, and to the memory of a small
/// machine. Of two areas with cells the smaller one can be encoded if the larger one can.
pub proof fn law_areas_to_encode_are_small(
    kind: ProtocolType,
    area: Rect,
    smaller: Rect,
    cell: (u16, u16),
)
    requires
        area.width > 0,
        area.height > 0,
        is_encodable(kind, area, cell),
    ensures
        kind != ProtocolType::Sixel,
        0 < area.width * cell.0 < 0x10000,
        0 < area.height * cell.1 < 0x10000,
        area.width * area.height < 0x10000,
        area.height < 0x8000,
        16 * ((area.width * cell.0) * (area.height * cell.1)) < 0x8000_0000,
        smaller.width <= area.width && smaller.height <= area.height ==> is_encodable(
            kind,
            smaller,
            cell,
        ),
{
    assert(0 < area.width * cell.0 && 0 < area.height * cell.1) by (nonlinear_arith)
        requires
            area.width > 0,
            area.height > 0,
            cell.0 > 0,
            cell.1 > 0,
    ;
    if smaller.width <= area.width && smaller.height <= area.height {
        assert(0 <= smaller.width * cell.0 <= area.width * cell.0) by (nonlinear_arith)
            requires
                smaller.width <= area.width,
        ;
        assert(0 <= smaller.height * cell.1 <= area.height * cell.1) by (nonlinear_arith)
            requires
                smaller.height <= area.height,
        ;
        assert(smaller.width * smaller.height <= area.width * area.height) by (nonlinear_arith)
            requires
                smaller.width <= area.width,
                smaller.height <= area.height,
        ;
        let (w, h) = (smaller.width * cell.0, smaller.height * cell.1);
        let (x, y) = (area.width * cell.0, area.height * cell.1);
        assert(w * h <= x * y) by (nonlinear_arith)
            requires
                0 <= w <= x,
                0 <= h <= y,
        ;
    }
}

/// Before anything is loaded, an image comes from where its source leads, and waits to be asked for;
/// one whose source leads nowhere has failed.
pub proof fn law_images_are_prepared(
    path: std::path::PathBuf,
    image: ImageView,
    drive: Option<Seq<char>>,
)
    requires
        image.line_index <= usize::MAX,
    ensures
        ({
            let ready = prepared(path, image, drive);
            &&& ready.line_index == image.line_index
            &&& ready.source == resolved_source(path, image.src, drive)
            &&& ready.source is Some ==> ready.load_state == ImageLoadState::NotRequested
            &&& ready.source is None ==> ready.load_state == ImageLoadState::Failed
            &&& ready.hinted_pixel_size == image.hinted_pixel_size && ready.pixel_size is None
            &&& ready.reference() is None && !ready.resize_pending && !ready.has_encoded_state
                && ready.active_variant is None
        }),
{
}

/// A size that is kept is taken out of the store to be drawn; what was drawn before takes its place
/// there, and all other sizes stay.
pub proof fn law_drawn_and_kept_sizes_change_places(
    image: InlineView,
    variant: ImageResizeVariant,
    other: ImageResizeVariant,
    kept: StatefulProtocol,
)
    requires
        image.is_sound(),
        image.state is Some,
        image.active_variant is Some,
        image.active_variant != Some(variant),
        has_variant(image.cached_variants, variant),
        other != variant,
        image.active_variant != Some(other),
    ensures
        ({
            let after = image.ask_for(variant);
            &&& after.state == Some(image_for(image.cached_variants, variant))
            &&& after.active_variant == Some(variant)
            &&& holds(after.cached_variants, image.active_variant->0, image.state->0)
            &&& !holds(
                after.cached_variants,
                variant,
                image_for(image.cached_variants, variant),
            )
            &&& holds(image.cached_variants, other, kept) <==> holds(
                after.cached_variants,
                other,
                kept,
            )
            &&& after.scratch_state == image.scratch_state
        }),
{
    let entries = image.cached_variants;
    let drawn = image_for(entries, variant);
    let previous = image.active_variant->0;
    let rest = without_entry(entries, variant);
    law_store_loses_what_is_taken_out(entries, variant);
    lemma_entries_split(entries, variant);
    law_store_keeps_the_others(entries, variant, drawn, other, kept);
    law_store_keeps_the_others(rest, previous, image.state->0, other, kept);
    law_store_keeps_the_others(rest, previous, image.state->0, variant, drawn);
    law_store_finds_what_it_holds(rest, variant, drawn);
    assert(rest.len() == entries.len() - 1);
}

/// An encoding that arrives is put beside the others: all other sizes stay as they are.
pub proof fn law_encodings_leave_the_others(
    image: InlineView,
    variant: ImageResizeVariant,
    encoder: StatefulProtocol,
    other: ImageResizeVariant,
    kept: StatefulProtocol,
)
    requires
        image.is_sound(),
        image.cached_variants.len() < 24,
        other != variant,
        image.active_variant != Some(other),
    ensures
        holds(image.cached_variants, other, kept) <==> holds(
            image.receive(variant, encoder).cached_variants,
            other,
            kept,
        ),
{
    law_store_keeps_the_others(image.cached_variants, variant, encoder, other, kept);
    if image.active_variant is Some && image.state is Some {
        law_store_keeps_the_others(
            image.cached_variants,
            image.active_variant->0,
            image.state->0,
            other,
            kept,
        );
    }
}

} // verus!
