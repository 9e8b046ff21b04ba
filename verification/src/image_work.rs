//! What the viewer asks of those who load and resize images, and what it makes of their answers.
use ratatui_image::picker::Picker;
use ratatui_image::protocol::StatefulProtocol;
use std::collections::VecDeque;
use vstd::prelude::*;

use crate::app::{App, AppView, DisplayDoc, ImageRenderPlan};
use crate::inline_image::{
    cell_pixels, encoder_cell, encoder_image, encoder_kind, encoder_pixels, font_size,
    image_height, image_width, inline_images_view, law_encoders_keep_their_cells, new_encoder,
    pixels_of, terminal_kind, underlaid_image, ImageLoadState, InlineImage, InlineView,
};
use crate::loading::{
    opened, requests_view, ImageLoadJob, ImageLoadRequest, ImageLoadResult, ImageLoadResultPayload,
    ImageResizeRequest, ImageResizeResult, JobView, RequestView, IMAGE_PRELOAD_VIEWPORTS,
    MAX_IMAGE_RESULTS_PER_TICK,
};
use crate::numbers::{minus, plus};
use crate::page::DocView;
use crate::variant::{image_resize_variant, variant_for, ImageResizeVariant, Rect, Resize};

verus! {

impl InlineView {
    /// The image after its loading has been asked for: without a source it fails at once.
    pub open spec fn begin_loading(self) -> InlineView {
        if self.load_state != ImageLoadState::NotRequested {
            self
        } else if self.source is None {
            InlineView {
                has_encoded_state: self.has_encoded_state,
                ..self.reset(ImageLoadState::Failed)
            }
        } else {
            self.reset(ImageLoadState::Loading)
        }
    }

    /// The size that is promised for the image, once its file has been looked at.
    pub open spec fn probed(self, dimensions: Option<(u32, u32)>) -> InlineView {
        if dimensions is Some && self.pixel_size is None && self.hinted_pixel_size is None {
            InlineView { hinted_pixel_size: dimensions, ..self }
        } else {
            self
        }
    }

    /// Whether an answer of the loader tells anything new.
    pub open spec fn is_news(self, payload: ImageLoadResultPayload) -> bool {
        match payload {
            ImageLoadResultPayload::LoadedImage(_) => true,
            ImageLoadResultPayload::ProbedDimensions(dimensions) => dimensions is Some
                && self.pixel_size is None && self.hinted_pixel_size is None,
        }
    }

    /// The image after an answer of the loader, with the encoders that were made for it.
    pub open spec fn take_result(
        self,
        payload: ImageLoadResultPayload,
        encoders: (StatefulProtocol, StatefulProtocol),
    ) -> InlineView {
        match payload {
            ImageLoadResultPayload::LoadedImage(Some(image)) => self.loaded(
                (image_width(image), image_height(image)),
                encoders.0,
                encoders.1,
            ),
            ImageLoadResultPayload::LoadedImage(None) => self.reset(ImageLoadState::Failed),
            ImageLoadResultPayload::ProbedDimensions(dimensions) => self.probed(dimensions),
        }
    }
}

/// Whether encoders were made for an image and a terminal.
pub open spec fn are_encoders_for(
    encoders: (StatefulProtocol, StatefulProtocol),
    image: image::DynamicImage,
    picker: Picker,
) -> bool {
    &&& encoder_image(encoders.0) == underlaid_image(picker, image)
    &&& encoder_image(encoders.1) == underlaid_image(picker, image)
    &&& encoder_pixels(encoders.0) == (image_width(image), image_height(image))
    &&& encoder_pixels(encoders.1) == (image_width(image), image_height(image))
    &&& encoder_cell(encoders.0) == cell_pixels(picker)
    &&& encoder_cell(encoders.1) == cell_pixels(picker)
    &&& encoder_kind(encoders.0) == terminal_kind(picker)
    &&& encoder_kind(encoders.1) == terminal_kind(picker)
}

/// Whether encoders were made for what the loader found, if it found an image.
pub open spec fn fit_result(
    encoders: (StatefulProtocol, StatefulProtocol),
    result: ImageLoadResult,
    picker: Picker,
) -> bool {
    match result.payload {
        ImageLoadResultPayload::LoadedImage(Some(image)) => are_encoders_for(
            encoders,
            image,
            picker,
        ),
        _ => true,
    }
}

impl AppView {
    /// The viewer with one image replaced.
    pub open spec fn with_image(self, index: usize, image: InlineView) -> AppView {
        AppView { images: self.images.update(index as int, image), ..self }
    }

    /// Whether an image would be loaded if it were asked for.
    pub open spec fn can_load(self, index: usize) -> bool {
        index < self.images.len() && self.images[index as int].load_state
            == ImageLoadState::NotRequested
    }

    /// The viewer after the loading of an image has been asked for. An image that fails may take
    /// other rows than before, so the rows have to be counted again.
    pub open spec fn begin_loading(self, index: usize) -> AppView {
        if !self.can_load(index) {
            self
        } else {
            AppView {
                row_counts: if self.images[index as int].source is None {
                    Map::empty()
                } else {
                    self.row_counts
                },
                ..self.with_image(index, self.images[index as int].begin_loading())
            }
        }
    }

    /// What has to be asked of the loader for an image.
    pub open spec fn load_request(self, index: usize) -> Option<RequestView> {
        if self.can_load(index) && self.images[index as int].source is Some {
            Some(
                RequestView {
                    image_index: index,
                    job: JobView::LoadImage(self.images[index as int].source->0),
                },
            )
        } else {
            None
        }
    }

    /// The viewer after an image could not be asked for.
    pub open spec fn fail_loading(self, index: usize) -> AppView {
        if index < self.images.len() {
            AppView {
                row_counts: Map::empty(),
                ..self.with_image(
                    index,
                    self.images[index as int].reset(ImageLoadState::Failed),
                )
            }
        } else {
            self
        }
    }

    /// Whether the rows of an image are on the screen or near it.
    pub open spec fn is_near(self, plan: ImageRenderPlan, viewport_height: usize) -> bool {
        let ahead = if viewport_height * IMAGE_PRELOAD_VIEWPORTS <= usize::MAX {
            (viewport_height * IMAGE_PRELOAD_VIEWPORTS) as usize
        } else {
            usize::MAX
        };
        plus(plan.start_row, plan.height) >= minus(self.scroll, ahead) && plan.start_row <= plus(
            plus(self.scroll, viewport_height),
            ahead,
        )
    }

    /// The viewer after the images near the screen have been asked for, as far as the first `upto`
    /// plans, and what has to be asked of the loader.
    pub open spec fn load_near_upto(
        self,
        plans: Seq<ImageRenderPlan>,
        upto: int,
        viewport_height: usize,
    ) -> (AppView, Seq<RequestView>)
        decreases upto,
    {
        if upto <= 0 {
            (self, Seq::empty())
        } else {
            let (app, requests) = self.load_near_upto(plans, upto - 1, viewport_height);
            let plan = plans[upto - 1];
            if self.is_near(plan, viewport_height) {
                (
                    app.begin_loading(plan.image_index),
                    match app.load_request(plan.image_index) {
                        Some(request) => requests.push(request),
                        None => requests,
                    },
                )
            } else {
                (app, requests)
            }
        }
    }

    /// The size that an image has to be encoded for.
    pub open spec fn wanted(
        self,
        index: usize,
        offered: Rect,
        resize: Resize,
    ) -> Option<ImageResizeVariant> {
        if index < self.images.len() {
            self.images[index as int].wanted(resize, offered)
        } else {
            None
        }
    }

    /// The viewer after an image has been asked for in a size.
    pub open spec fn ask_for_size(self, index: usize, offered: Rect, resize: Resize) -> AppView {
        match self.wanted(index, offered, resize) {
            Some(variant) => self.with_image(index, self.images[index as int].ask_for(variant)),
            None => self,
        }
    }

    /// The encoder that has to be encoded for the size that an image has been asked for in.
    pub open spec fn leaving(
        self,
        index: usize,
        offered: Rect,
        resize: Resize,
    ) -> Option<StatefulProtocol> {
        match self.wanted(index, offered, resize) {
            Some(variant) => self.images[index as int].leaving(variant),
            None => None,
        }
    }

    /// Whether all encoders reckon with the cells of the terminal.
    pub open spec fn knows_its_cells(self) -> bool {
        forall|i: int|
            0 <= i < self.images.len() ==> (#[trigger] self.images[i]).reckons_with(
                cell_pixels(self.picker),
            )
    }

    /// The viewer after an encoded image has arrived.
    pub open spec fn receive(self, result: ImageResizeResult) -> AppView {
        if result.image_index < self.images.len() {
            self.with_image(
                result.image_index,
                self.images[result.image_index as int].receive(result.variant, result.protocol),
            )
        } else {
            self
        }
    }

    /// The viewer after encoded images have arrived.
    pub open spec fn receive_all(self, results: Seq<ImageResizeResult>) -> AppView
        decreases results.len(),
    {
        if results.len() == 0 {
            self
        } else {
            self.receive_all(results.drop_last()).receive(results.last())
        }
    }

    /// Whether an answer of the loader tells anything new.
    pub open spec fn is_news(self, result: ImageLoadResult) -> bool {
        result.image_index < self.images.len() && self.images[result.image_index as int].is_news(
            result.payload,
        )
    }

    /// The viewer after an answer of the loader, with the encoders that were made for it.
    pub open spec fn take_result(
        self,
        result: ImageLoadResult,
        encoders: (StatefulProtocol, StatefulProtocol),
    ) -> AppView {
        if result.image_index < self.images.len() {
            self.with_image(
                result.image_index,
                self.images[result.image_index as int].take_result(result.payload, encoders),
            )
        } else {
            self
        }
    }

    /// The viewer after answers of the loader, and whether they told anything new.
    pub open spec fn take_results(
        self,
        results: Seq<ImageLoadResult>,
        encoders: Seq<(StatefulProtocol, StatefulProtocol)>,
    ) -> (AppView, bool)
        decreases results.len(),
    {
        if results.len() == 0 {
            (self, false)
        } else {
            let (app, news) = self.take_results(results.drop_last(), encoders);
            (
                app.take_result(results.last(), encoders[results.len() - 1]),
                news || app.is_news(results.last()),
            )
        }
    }

    /// How many images are loaded, on their way, and failed, among the first `upto`.
    pub open spec fn progress_upto(self, upto: int) -> (nat, nat, nat)
        decreases upto,
    {
        if upto <= 0 {
            (0, 0, 0)
        } else {
            let (loaded, loading, failed) = self.progress_upto(upto - 1);
            match self.images[upto - 1].load_state {
                ImageLoadState::Loaded => (loaded + 1, loading, failed),
                ImageLoadState::Loading => (loaded, loading + 1, failed),
                ImageLoadState::Failed => (loaded, loading, failed + 1),
                ImageLoadState::NotRequested => (loaded, loading, failed),
            }
        }
    }

    /// How many images are loaded, on their way, and failed.
    pub open spec fn progress(self) -> (nat, nat, nat) {
        self.progress_upto(self.images.len() as int)
    }
}

proof fn lemma_images_update(images: Seq<InlineImage>, index: int, image: InlineImage)
    requires
        0 <= index < images.len(),
    ensures
        inline_images_view(images.update(index, image)) == inline_images_view(images).update(
            index,
            image@,
        ),
{
    assert(inline_images_view(images.update(index, image)) =~= inline_images_view(images).update(
        index,
        image@,
    ));
}

impl App {
    /// Asks for an image to be loaded, unless that has been done. What comes back has to be asked
    /// of the loader.
    pub fn request_image_load(&mut self, image_index: usize) -> (request: Option<ImageLoadRequest>)
        requires
            old(self)@.is_sound(),
        ensures
            final(self)@ == old(self)@.begin_loading(image_index),
            final(self)@.is_sound(),
            request is Some <==> old(self)@.load_request(image_index) is Some,
            request is Some ==> request->0@ == old(self)@.load_request(image_index)->0,
    {
        if image_index >= self.images.len() {
            return None;
        }
        assert(self@.images[image_index as int] == self.images@[image_index as int]@);
        if self.images[image_index].load_state != ImageLoadState::NotRequested {
            return None;
        }
        let source = match &self.images[image_index].source {
            Some(source) => Some(source.duplicate()),
            None => None,
        };
        let image = &mut self.images[image_index];
        match source {
            Some(source) => {
                image.reset(ImageLoadState::Loading);
                proof {
                    lemma_images_update(
                        old(self).images@,
                        image_index as int,
                        self.images@[image_index as int],
                    );
                }
                assert(self@ =~= old(self)@.begin_loading(image_index));
                Some(ImageLoadRequest { image_index, job: ImageLoadJob::LoadImage(source) })
            },
            None => {
                let encoded = image.has_encoded_state;
                image.reset(ImageLoadState::Failed);
                image.has_encoded_state = encoded;
                proof {
                    lemma_images_update(
                        old(self).images@,
                        image_index as int,
                        self.images@[image_index as int],
                    );
                }
                self.invalidate_virtual_row_cache();
                assert(self@ =~= old(self)@.begin_loading(image_index));
                None
            },
        }
    }

    /// Takes note that an image could not be asked for.
    pub fn image_load_send_failed(&mut self, image_index: usize)
        requires
            old(self)@.is_sound(),
        ensures
            final(self)@ == old(self)@.fail_loading(image_index),
            final(self)@.is_sound(),
    {
        if image_index < self.images.len() {
            assert(self@.images[image_index as int] == self.images@[image_index as int]@);
            let image = &mut self.images[image_index];
            image.reset(ImageLoadState::Failed);
            proof {
                lemma_images_update(
                    old(self).images@,
                    image_index as int,
                    self.images@[image_index as int],
                );
            }
            self.invalidate_virtual_row_cache();
            assert(self@ =~= old(self)@.fail_loading(image_index));
        }
    }

    /// Asks for the images on the screen and near it. What comes back has to be asked of the
    /// loader.
    pub fn request_images_near_viewport(&mut self, page: &DisplayDoc, viewport_height: usize) -> (
        requests: Vec<ImageLoadRequest>)
        requires
            old(self)@.is_sound(),
        ensures
            final(self)@.is_sound(),
            (final(self)@, requests_view(requests@)) == old(self)@.load_near_upto(
                page.image_plans@,
                page.image_plans@.len() as int,
                viewport_height,
            ),
    {
        let ahead = match viewport_height.checked_mul(IMAGE_PRELOAD_VIEWPORTS) {
            Some(rows) => rows,
            None => usize::MAX,
        };
        let top = self.scroll.saturating_sub(ahead);
        let bottom = self.scroll.saturating_add(viewport_height).saturating_add(ahead);
        let ghost app = self@;
        let mut requests: Vec<ImageLoadRequest> = Vec::new();
        let mut i: usize = 0;
        assert(requests_view(requests@) =~= Seq::<RequestView>::empty());
        while i < page.image_plans.len()
            invariant
                i <= page.image_plans@.len(),
                app == old(self)@,
                self@.is_sound(),
                ahead == if viewport_height * IMAGE_PRELOAD_VIEWPORTS <= usize::MAX {
                    viewport_height * IMAGE_PRELOAD_VIEWPORTS
                } else {
                    usize::MAX as int
                },
                top == minus(app.scroll, ahead),
                bottom == plus(plus(app.scroll, viewport_height), ahead),
                (self@, requests_view(requests@)) == app.load_near_upto(
                    page.image_plans@,
                    i as int,
                    viewport_height,
                ),
            decreases page.image_plans.len() - i,
        {
            let plan = page.image_plans[i];
            if plan.start_row.saturating_add(plan.height) >= top && plan.start_row <= bottom {
                if let Some(request) = self.request_image_load(plan.image_index) {
                    let ghost before = requests@;
                    requests.push(request);
                    assert(requests_view(requests@) =~= requests_view(before).push(request@));
                }
            }
            i += 1;
        }
        requests
    }

    /// The size that an image has to be encoded for.
    pub fn requested_variant(&self, image_index: usize, area: Rect, resize: Resize) -> (variant:
        Option<ImageResizeVariant>)
        ensures
            variant == self@.wanted(image_index, area, resize),
    {
        if image_index < self.images.len() {
            assert(self@.images[image_index as int] == self.images@[image_index as int]@);
            self.images[image_index].requested_variant(resize, area)
        } else {
            None
        }
    }

    /// Asks for an image in a size. What comes back has to be encoded.
    pub fn request_image_resize(&mut self, image_index: usize, area: Rect, resize: Resize) -> (
        request: Option<ImageResizeRequest>)
        requires
            old(self)@.is_sound(),
        ensures
            final(self)@ == old(self)@.ask_for_size(image_index, area, resize),
            final(self)@.is_sound(),
            request is Some <==> old(self)@.leaving(image_index, area, resize) is Some,
            request matches Some(wanted) ==> wanted.image_index == image_index && wanted.resize
                == resize && old(self)@.leaving(image_index, area, resize) == Some(wanted.protocol)
                && old(self)@.images[image_index as int].target(resize, area) == Some(wanted.area)
                && wanted.variant == variant_for(resize, wanted.area) && wanted.cell == cell_pixels(
                old(self)@.picker,
            ),
            request matches Some(wanted) ==> old(self)@.knows_its_cells() ==> wanted.is_sound(),
    {
        if image_index >= self.images.len() {
            return None;
        }
        assert(self@.images[image_index as int] == self.images@[image_index as int]@);
        let area = self.images[image_index].target_area(resize, area)?;
        let variant = image_resize_variant(resize, area);
        let cell = font_size(&self.picker);
        let image = &mut self.images[image_index];
        let encoder = image.ask_for(variant);
        proof {
            if old(self)@.knows_its_cells() && encoder is Some {
                assert(old(self)@.images[image_index as int].reckons_with(cell));
            }
            lemma_images_update(
                old(self).images@,
                image_index as int,
                self.images@[image_index as int],
            );
        }
        match encoder {
            Some(protocol) => Some(
                ImageResizeRequest { image_index, variant, resize, area, protocol, cell },
            ),
            None => None,
        }
    }

    /// Takes back an encoder that could not be sent away.
    pub fn resize_send_failed(&mut self, request: ImageResizeRequest)
        requires
            old(self)@.is_sound(),
        ensures
            final(self)@ == if request.image_index < old(self)@.images.len() {
                old(self)@.with_image(
                    request.image_index,
                    old(self)@.images[request.image_index as int].take_back(request.protocol),
                )
            } else {
                old(self)@
            },
            final(self)@.is_sound(),
    {
        if request.image_index < self.images.len() {
            let index = request.image_index;
            assert(self@.images[index as int] == self.images@[index as int]@);
            let image = &mut self.images[index];
            image.take_back(request.protocol);
            proof {
                lemma_images_update(old(self).images@, index as int, self.images@[index as int]);
            }
        }
    }

    /// Takes an encoded image.
    fn receive(&mut self, result: ImageResizeResult) -> (known: bool)
        requires
            old(self)@.is_sound(),
        ensures
            known == (result.image_index < old(self)@.images.len()),
            final(self)@ == old(self)@.receive(result),
            final(self)@.is_sound(),
            final(self)@.images.len() == old(self)@.images.len(),
    {
        if result.image_index < self.images.len() {
            let index = result.image_index;
            assert(self@.images[index as int] == self.images@[index as int]@);
            let image = &mut self.images[index];
            image.receive(result.variant, result.protocol);
            proof {
                lemma_images_update(old(self).images@, index as int, self.images@[index as int]);
            }
            true
        } else {
            false
        }
    }

    /// Takes all encoded images that have arrived, and says whether there were any.
    pub fn drain_image_resize_results(&mut self, results: &mut VecDeque<ImageResizeResult>) -> (
        changed: bool)
        requires
            old(self)@.is_sound(),
        ensures
            final(results)@ == Seq::<ImageResizeResult>::empty(),
            final(self)@ == old(self)@.receive_all(old(results)@),
            final(self)@.is_sound(),
            changed <==> exists|i: int|
                0 <= i < old(results)@.len() && (#[trigger] old(results)@[i]).image_index
                    < old(self)@.images.len(),
    {
        let ghost all = results@;
        let ghost mut taken: int = 0;
        let mut changed = false;
        assert(all.skip(0) == all);
        assert(all.take(0) == Seq::<ImageResizeResult>::empty());
        while results.len() > 0
            invariant
                0 <= taken <= all.len(),
                all == old(results)@,
                results@ == all.skip(taken),
                self@.is_sound(),
                self@.images.len() == old(self)@.images.len(),
                self@ == old(self)@.receive_all(all.take(taken)),
                changed <==> exists|i: int|
                    0 <= i < taken && (#[trigger] all[i]).image_index < old(self)@.images.len(),
            decreases results.len(),
        {
            if let Some(result) = results.pop_front() {
                proof {
                    assert(result == all[taken]);
                    assert(all.take(taken + 1).drop_last() == all.take(taken));
                    assert(all.skip(taken).drop_first() == all.skip(taken + 1));
                    taken = taken + 1;
                }
                if self.receive(result) {
                    changed = true;
                }
            }
        }
        assert(all.take(taken) == all);
        changed
    }
}

/// The first answers of the loader, as many as are taken at a time.
pub open spec fn first_results(results: Seq<ImageLoadResult>) -> Seq<ImageLoadResult> {
    if results.len() <= MAX_IMAGE_RESULTS_PER_TICK {
        results
    } else {
        results.take(MAX_IMAGE_RESULTS_PER_TICK as int)
    }
}

/// Whether `after` is what answers of the loader make of `before`, with some encoders for the
/// images that it found. News may change the rows that images take, so they have to be counted
/// again.
pub open spec fn is_after_results(
    before: AppView,
    after: AppView,
    results: Seq<ImageLoadResult>,
    encoders: Seq<(StatefulProtocol, StatefulProtocol)>,
) -> bool {
    let (app, news) = before.take_results(results, encoders);
    &&& encoders.len() == results.len()
    &&& forall|i: int|
        0 <= i < results.len() ==> fit_result(#[trigger] encoders[i], results[i], before.picker)
    &&& after == if news {
        AppView { row_counts: Map::empty(), ..app }
    } else {
        app
    }
}

proof fn lemma_take_results_ignores_later_encoders(
    app: AppView,
    results: Seq<ImageLoadResult>,
    a: Seq<(StatefulProtocol, StatefulProtocol)>,
    b: Seq<(StatefulProtocol, StatefulProtocol)>,
)
    requires
        forall|i: int| 0 <= i < results.len() ==> a[i] == b[i],
    ensures
        app.take_results(results, a) == app.take_results(results, b),
    decreases results.len(),
{
    if results.len() > 0 {
        lemma_take_results_ignores_later_encoders(app, results.drop_last(), a, b);
    }
}

impl InlineImage {
    /// Takes an answer of the loader, with two encoders for an image that it found, and says
    /// whether it told anything new. Without encoders there has to be no image.
    pub fn take_result(
        &mut self,
        payload: ImageLoadResultPayload,
        encoders: Option<(StatefulProtocol, StatefulProtocol)>,
    ) -> (news: bool)
        requires
            encoders is Some <==> payload matches ImageLoadResultPayload::LoadedImage(Some(_)),
        ensures
            news == old(self)@.is_news(payload),
            encoders is Some ==> final(self)@ == old(self)@.take_result(payload, encoders->0),
            encoders is None ==> forall|any: (StatefulProtocol, StatefulProtocol)|
                final(self)@ == #[trigger] old(self)@.take_result(payload, any),
    {
        match payload {
            ImageLoadResultPayload::LoadedImage(Some(image)) => {
                if let Some((state, scratch)) = encoders {
                    self.finish_loading(pixels_of(&image), state, scratch);
                }
                true
            },
            ImageLoadResultPayload::LoadedImage(None) => {
                self.reset(ImageLoadState::Failed);
                true
            },
            ImageLoadResultPayload::ProbedDimensions(dimensions) => {
                if dimensions.is_some() && self.pixel_size.is_none()
                    && self.hinted_pixel_size.is_none() {
                    self.hinted_pixel_size = dimensions;
                    true
                } else {
                    false
                }
            },
        }
    }
}

impl App {
    /// Two encoders for an image that the loader found, if it found one.
    fn make_encoders(&self, payload: &ImageLoadResultPayload) -> (encoders: Option<
        (StatefulProtocol, StatefulProtocol),
    >)
        ensures
            encoders is Some <==> *payload matches ImageLoadResultPayload::LoadedImage(Some(_)),
            *payload matches ImageLoadResultPayload::LoadedImage(Some(image)) ==> are_encoders_for(
                encoders->0,
                image,
                self@.picker,
            ),
    {
        match payload {
            ImageLoadResultPayload::LoadedImage(Some(image)) => Some(
                (new_encoder(&self.picker, image), new_encoder(&self.picker, image)),
            ),
            _ => None,
        }
    }

    /// Takes an answer of the loader, with encoders for an image that it found, and says whether it
    /// told anything new.
    pub fn take_load_result(
        &mut self,
        result: ImageLoadResult,
        encoders: Option<(StatefulProtocol, StatefulProtocol)>,
    ) -> (news: bool)
        requires
            old(self)@.is_sound(),
            encoders is Some <==> result.payload matches ImageLoadResultPayload::LoadedImage(
                Some(_),
            ),
        ensures
            news == old(self)@.is_news(result),
            encoders is Some ==> final(self)@ == old(self)@.take_result(result, encoders->0),
            encoders is None ==> forall|any: (StatefulProtocol, StatefulProtocol)|
                final(self)@ == #[trigger] old(self)@.take_result(result, any),
            final(self)@.is_sound(),
    {
        if result.image_index >= self.images.len() {
            return false;
        }
        let index = result.image_index;
        assert(self@.images[index as int] == self.images@[index as int]@);
        let image = &mut self.images[index];
        let news = image.take_result(result.payload, encoders);
        proof {
            lemma_images_update(old(self).images@, index as int, self.images@[index as int]);
            if encoders is None {
                assert forall|any: (StatefulProtocol, StatefulProtocol)| self@
                    == #[trigger] old(self)@.take_result(result, any) by {
                    assert(self.images@[index as int]@
                        == old(self)@.images[index as int].take_result(result.payload, any));
                }
            }
        }
        news
    }

    /// Takes the answers of the loader that have arrived, a few at a time, and says whether they
    /// told anything new.
    pub fn drain_image_results(&mut self, results: &mut VecDeque<ImageLoadResult>) -> (changed:
        bool)
        requires
            old(self)@.is_sound(),
        ensures
            final(self)@.is_sound(),
            final(results)@ == old(results)@.skip(first_results(old(results)@).len() as int),
            exists|encoders: Seq<(StatefulProtocol, StatefulProtocol)>|
                #![trigger old(self)@.take_results(first_results(old(results)@), encoders)]
                is_after_results(
                    old(self)@,
                    final(self)@,
                    first_results(old(results)@),
                    encoders,
                ) && changed == old(self)@.take_results(first_results(old(results)@), encoders).1,
    {
        let ghost all = results@;
        let ghost app = self@;
        let ghost mut encoders: Seq<(StatefulProtocol, StatefulProtocol)> = Seq::empty();
        let mut changed = false;
        let mut taken: usize = 0;
        assert(all.skip(0) == all);
        assert(all.take(0) == Seq::<ImageLoadResult>::empty());
        while taken < MAX_IMAGE_RESULTS_PER_TICK && results.len() > 0
            invariant
                taken <= all.len(),
                taken <= MAX_IMAGE_RESULTS_PER_TICK,
                all == old(results)@,
                app == old(self)@,
                results@ == all.skip(taken as int),
                encoders.len() == taken,
                self@.is_sound(),
                self@.picker == app.picker,
                (self@, changed) == app.take_results(all.take(taken as int), encoders),
                forall|i: int|
                    0 <= i < taken ==> fit_result(#[trigger] encoders[i], all[i], app.picker),
            decreases MAX_IMAGE_RESULTS_PER_TICK - taken,
        {
            if let Some(result) = results.pop_front() {
                let made = self.make_encoders(&result.payload);
                let ghost pair = if made is Some {
                    made->0
                } else {
                    arbitrary()
                };
                let ghost before = self@;
                let news = self.take_load_result(result, made);
                proof {
                    let next = encoders.push(pair);
                    assert(result == all[taken as int]);
                    assert(all.take(taken + 1).drop_last() == all.take(taken as int));
                    assert(all.skip(taken as int).drop_first() == all.skip(taken + 1));
                    lemma_take_results_ignores_later_encoders(
                        app,
                        all.take(taken as int),
                        encoders,
                        next,
                    );
                    assert(self@ == before.take_result(result, pair));
                    encoders = next;
                }
                if news {
                    changed = true;
                }
            }
            taken += 1;
        }
        let ghost last = self@;
        assert(all.take(taken as int) =~= first_results(all));
        if changed {
            self.invalidate_virtual_row_cache();
        }
        assert(is_after_results(app, self@, first_results(all), encoders));
        changed
    }

    /// How many images are loaded, on their way, and failed.
    pub fn image_progress_counts(&self) -> (counts: (usize, usize, usize))
        ensures
            (counts.0 as nat, counts.1 as nat, counts.2 as nat) == self@.progress(),
    {
        let ghost app = self@;
        let mut loaded: usize = 0;
        let mut loading: usize = 0;
        let mut failed: usize = 0;
        let mut i: usize = 0;
        while i < self.images.len()
            invariant
                i <= self.images@.len(),
                app == self@,
                loaded + loading + failed <= i,
                (loaded as nat, loading as nat, failed as nat) == app.progress_upto(i as int),
            decreases self.images.len() - i,
        {
            assert(app.images[i as int] == self.images@[i as int]@);
            match self.images[i].load_state {
                ImageLoadState::Loaded => loaded += 1,
                ImageLoadState::Loading => loading += 1,
                ImageLoadState::Failed => failed += 1,
                ImageLoadState::NotRequested => {},
            }
            i += 1;
        }
        (loaded, loading, failed)
    }
}

/// The encoders of a viewer reckon with the cells of its terminal: there are none when a document
/// is read again, and those that come later are made for the terminal or come back as they left.
pub proof fn law_viewers_know_their_cells(
    app: AppView,
    content: Seq<char>,
    doc: DocView,
    index: usize,
    offered: Rect,
    resize: Resize,
    encoded: ImageResizeResult,
    loaded: ImageLoadResult,
    encoders: (StatefulProtocol, StatefulProtocol),
)
    requires
        app.knows_its_cells(),
        encoder_cell(encoded.protocol) == cell_pixels(app.picker),
        fit_result(encoders, loaded, app.picker),
    ensures
        app.reloaded(content, doc).knows_its_cells(),
        app.begin_loading(index).knows_its_cells(),
        app.fail_loading(index).knows_its_cells(),
        app.ask_for_size(index, offered, resize).knows_its_cells(),
        app.receive(encoded).knows_its_cells(),
        app.take_result(loaded, encoders).knows_its_cells(),
        index < app.images.len() ==> app.with_image(
            index,
            app.images[index as int].take_back(encoded.protocol),
        ).knows_its_cells(),
{
    let cell = cell_pixels(app.picker);
    let encoder = encoded.protocol;
    assert forall|i: int, variant: ImageResizeVariant|
        #![trigger app.images[i].ask_for(variant)]
        0 <= i < app.images.len() implies app.images[i].ask_for(variant).reckons_with(cell) by {
        law_encoders_keep_their_cells(
            app.images[i],
            cell,
            variant,
            encoder,
            encoder,
            (0, 0),
            ImageLoadState::Loaded,
        );
    }
    assert forall|i: int| 0 <= i < app.images.len() implies #[trigger] app.images[i].receive(
        encoded.variant,
        encoder,
    ).reckons_with(cell) && app.images[i].take_back(encoder).reckons_with(cell) by {
        law_encoders_keep_their_cells(
            app.images[i],
            cell,
            encoded.variant,
            encoder,
            encoder,
            (0, 0),
            ImageLoadState::Loaded,
        );
    }
}

/// A viewer has no encoders when a document is opened, so that all of them reckon with the cells of
/// the terminal.
pub proof fn law_opened_viewers_know_their_cells(
    file_path: std::path::PathBuf,
    content: Seq<char>,
    doc: DocView,
    start_line: usize,
    picker: Picker,
    system_drive: Option<Seq<char>>,
)
    ensures
        opened(file_path, content, doc, start_line, picker, system_drive).knows_its_cells(),
{
}

} // verus!
