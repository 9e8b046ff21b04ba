//! Images of the document: how they are loaded, how much room they take, how they are resized.
use ratatui_image::picker::Picker;
use ratatui_image::protocol::{StatefulProtocol, StatefulProtocolType};
use ratatui_image::ResizeEncodeRender;
use std::path::PathBuf;
use vstd::prelude::*;

use crate::page::{images_view, ImageView};
use crate::renderer::RenderedImage;
use crate::screen::ProtocolType;
use crate::source::{
    resolve_image_source, resolved_source, source_view, text_view, ResolvedImageSource, SourceView,
};
use crate::variant::{
    entries_before, has_variant, image_for, image_resize_variant, in_order, kept_entries,
    law_store_is_bounded, law_store_keeps_what_is_put_in, law_store_loses_what_is_taken_out,
    lemma_entries_bounds, lemma_entries_split, variant_for, with_entry, without_entry, Entries,
    ImageResizeVariant, Rect, Resize, VariantCache, MAX_CACHED_IMAGE_VARIANTS,
};

verus! {

/// What the `ratatui-image` crate knows of the terminal.
#[verifier::external_type_specification]
#[verifier::external_body]
pub struct ExPicker(ratatui_image::picker::Picker);

/// A decoded image of the `image` crate.
#[verifier::external_type_specification]
#[verifier::external_body]
pub struct ExDynamicImage(image::DynamicImage);

/// The size of a terminal cell, in pixels.
pub uninterp spec fn cell_pixels(picker: Picker) -> (u16, u16);

/// The width of a decoded image, in pixels.
pub uninterp spec fn image_width(image: image::DynamicImage) -> u32;

/// The height of a decoded image, in pixels.
pub uninterp spec fn image_height(image: image::DynamicImage) -> u32;

/// The size of the image that an encoder was made for, in pixels.
pub uninterp spec fn encoder_pixels(encoder: StatefulProtocol) -> (u32, u32);

/// What is kept of an image to be drawn, on the background that a picker has for it.
pub uninterp spec fn underlaid_image(
    picker: Picker,
    image: image::DynamicImage,
) -> image::DynamicImage;

/// The image that an encoder draws.
pub uninterp spec fn encoder_image(encoder: StatefulProtocol) -> image::DynamicImage;

/// How images are drawn on a terminal.
pub uninterp spec fn terminal_kind(picker: Picker) -> ProtocolType;

/// How an encoder draws its image.
pub uninterp spec fn encoder_kind(encoder: StatefulProtocol) -> ProtocolType;

/// The size of a terminal cell that an encoder was made for, in pixels.
pub uninterp spec fn encoder_cell(encoder: StatefulProtocol) -> (u16, u16);

/// The area that an image takes of the area that it is offered.
pub uninterp spec fn taken_area(
    pixels: (u32, u32),
    cell: (u16, u16),
    resize: Resize,
    offered: Rect,
) -> Rect;

/// An encoder after its image has been encoded for an area.
pub uninterp spec fn encoded_for(
    encoder: StatefulProtocol,
    resize: Resize,
    area: Rect,
) -> StatefulProtocol;

/// `Picker::font_size` gives the size of a terminal cell.
#[verifier::external_body]
pub(crate) fn font_size(picker: &Picker) -> (cell: (u16, u16))
    ensures
        cell == cell_pixels(*picker),
{
    picker.font_size()
}

/// `DynamicImage::width`.
#[verifier::external_body]
fn width_of(image: &image::DynamicImage) -> (pixels: u32)
    ensures
        pixels == image_width(*image),
{
    image.width()
}

/// `DynamicImage::height`.
#[verifier::external_body]
fn height_of(image: &image::DynamicImage) -> (pixels: u32)
    ensures
        pixels == image_height(*image),
{
    image.height()
}

/// `Picker::new_resize_protocol` makes an encoder for an image, which draws as the picker's
/// `protocol_type` says. It keeps the image, on the picker's background where that is not
/// transparent, and with it its size, and the size of the terminal's cells. Two encoders for one
/// image may differ: some carry a random number.
#[verifier::external_body]
pub(crate) fn new_encoder(picker: &Picker, image: &image::DynamicImage) -> (encoder:
    StatefulProtocol)
    ensures
        encoder_image(encoder) == underlaid_image(*picker, *image),
        encoder_pixels(encoder) == (image_width(*image), image_height(*image)),
        encoder_cell(encoder) == cell_pixels(*picker),
        encoder_kind(encoder) == terminal_kind(*picker),
{
    picker.new_resize_protocol(image.clone())
}

/// `StatefulProtocol::size_for` gives the area that the image takes of the area that it is
/// offered; it looks at nothing but the two sizes that the encoder keeps.
#[verifier::external_body]
fn size_for(encoder: &StatefulProtocol, resize: Resize, offered: Rect) -> (taken: Rect)
    ensures
        taken == taken_area(encoder_pixels(*encoder), encoder_cell(*encoder), resize, offered),
{
    let how = match resize {
        Resize::Fit => ratatui_image::Resize::Fit(None),
        Resize::Crop(None) => ratatui_image::Resize::Crop(None),
        Resize::Crop(Some(cut)) => ratatui_image::Resize::Crop(Some(ratatui_image::CropOptions {
            clip_top: cut.clip_top,
            clip_left: cut.clip_left,
        })),
        Resize::Scale => ratatui_image::Resize::Scale(None),
    };
    let Rect { x, y, width, height } = offered;
    let taken = encoder.size_for(how, ratatui::layout::Rect { x, y, width, height });
    Rect { x: taken.x, y: taken.y, width: taken.width, height: taken.height }
}

/// `StatefulProtocol::protocol_type` gives the way in which an encoder draws.
#[verifier::external_body]
pub(crate) fn kind_of(encoder: &StatefulProtocol) -> (kind: ProtocolType)
    ensures
        kind == encoder_kind(*encoder),
{
    match encoder.protocol_type() {
        StatefulProtocolType::Halfblocks(_) => ProtocolType::Halfblocks,
        StatefulProtocolType::Sixel(_) => ProtocolType::Sixel,
        StatefulProtocolType::Kitty(_) => ProtocolType::Kitty,
        StatefulProtocolType::ITerm2(_) => ProtocolType::Iterm2,
    }
}

/// Whether an image can be encoded for an area, whatever it shows. An area without cells needs no
/// encoding. Else the area has to be small enough: cells have pixels, sixteen bits hold the area's
/// width and height in pixels, twice its height in cells and the number of its cells, and its
/// pixels find room in the memory of a small machine. Sixels are left out: their colors are counted
/// in eight bits, which an image of many colors may overflow.
pub open spec fn is_encodable(kind: ProtocolType, area: Rect, cell: (u16, u16)) -> bool {
    ||| area.width == 0
    ||| area.height == 0
    ||| {
        &&& kind != ProtocolType::Sixel
        &&& cell.0 > 0
        &&& cell.1 > 0
        &&& area.width * cell.0 <= u16::MAX
        &&& area.height * cell.1 <= u16::MAX
        &&& area.width * area.height <= u16::MAX
        &&& area.height * 2 <= u16::MAX
        &&& 16 * ((area.width * cell.0) * (area.height * cell.1)) <= i32::MAX
    }
}

/// `StatefulProtocol::resize_encode` encodes the image of an encoder anew, by nothing but what the
/// encoder holds and the way and the area that are asked for. It changes neither the image nor the
/// way in which the encoder draws nor the size of the cells that it keeps, and does nothing for an
/// area without cells.
#[verifier::external_body]
pub(crate) fn resize_encode(encoder: StatefulProtocol, resize: Resize, area: Rect) -> (encoded:
    StatefulProtocol)
    requires
        is_encodable(encoder_kind(encoder), area, encoder_cell(encoder)),
    ensures
        encoded == encoded_for(encoder, resize, area),
        encoder_image(encoded) == encoder_image(encoder),
        encoder_pixels(encoded) == encoder_pixels(encoder),
        encoder_cell(encoded) == encoder_cell(encoder),
        encoder_kind(encoded) == encoder_kind(encoder),
        area.width == 0 || area.height == 0 ==> encoded == encoder,
{
    let how = match resize {
        Resize::Fit => ratatui_image::Resize::Fit(None),
        Resize::Crop(None) => ratatui_image::Resize::Crop(None),
        Resize::Crop(Some(cut)) => ratatui_image::Resize::Crop(Some(ratatui_image::CropOptions {
            clip_top: cut.clip_top,
            clip_left: cut.clip_left,
        })),
        Resize::Scale => ratatui_image::Resize::Scale(None),
    };
    let Rect { x, y, width, height } = area;
    let mut encoded = encoder;
    encoded.resize_encode(&how, ratatui::layout::Rect { x, y, width, height });
    encoded
}

/// How far the loading of an image has come.
#[derive(Clone, Copy, Debug, PartialEq, Eq, Structural)]
pub enum ImageLoadState {
    NotRequested,
    Loading,
    Loaded,
    Failed,
}

/// An image of the document.
pub struct InlineImage {
    /// The line of its caption.
    pub line_index: usize,
    pub source: Option<ResolvedImageSource>,
    /// The image that is drawn.
    pub state: Option<StatefulProtocol>,
    /// A spare that can be encoded for another size.
    pub scratch_state: Option<StatefulProtocol>,
    /// The size that `state` is encoded for.
    pub active_variant: Option<ImageResizeVariant>,
    pub cached_variants: VariantCache,
    /// Whether an encoding is on its way, and for which size.
    pub resize_pending: bool,
    pub pending_variant: Option<ImageResizeVariant>,
    pub has_encoded_state: bool,
    pub pixel_size: Option<(u32, u32)>,
    pub hinted_pixel_size: Option<(u32, u32)>,
    pub load_state: ImageLoadState,
}

/// What an [`InlineImage`] holds.
#[verifier::ext_equal]
pub struct InlineView {
    pub line_index: usize,
    pub source: Option<SourceView>,
    pub state: Option<StatefulProtocol>,
    pub scratch_state: Option<StatefulProtocol>,
    pub active_variant: Option<ImageResizeVariant>,
    pub cached_variants: Entries,
    pub resize_pending: bool,
    pub pending_variant: Option<ImageResizeVariant>,
    pub has_encoded_state: bool,
    pub pixel_size: Option<(u32, u32)>,
    pub hinted_pixel_size: Option<(u32, u32)>,
    pub load_state: ImageLoadState,
}

impl View for InlineImage {
    type V = InlineView;

    open spec fn view(&self) -> InlineView {
        InlineView {
            line_index: self.line_index,
            source: source_view(self.source),
            state: self.state,
            scratch_state: self.scratch_state,
            active_variant: self.active_variant,
            cached_variants: self.cached_variants@,
            resize_pending: self.resize_pending,
            pending_variant: self.pending_variant,
            has_encoded_state: self.has_encoded_state,
            pixel_size: self.pixel_size,
            hinted_pixel_size: self.hinted_pixel_size,
            load_state: self.load_state,
        }
    }
}

/// What a run of images holds.
pub open spec fn inline_images_view(images: Seq<InlineImage>) -> Seq<InlineView> {
    Seq::new(images.len(), |i: int| images[i]@)
}

/// The size that an image is taken for where nothing is known of it, in pixels.
pub const DEFAULT_IMAGE_HINT_WIDTH: u32 = 900;

pub const DEFAULT_IMAGE_HINT_HEIGHT: u32 = 500;

/// The most rows that an image takes.
pub const MAX_IMAGE_CELL_HEIGHT: u32 = 18;

/// `a` divided by `b`, rounded up.
pub open spec fn ceil_div(a: int, b: int) -> int {
    if a % b == 0 {
        a / b
    } else {
        a / b + 1
    }
}

proof fn lemma_ceil_div(a: int, b: int)
    requires
        a >= 0,
        b > 0,
    ensures
        a <= ceil_div(a, b) * b < a + b,
        a > 0 ==> ceil_div(a, b) > 0,
        ceil_div(a, b) >= 0,
{
    assert(a == (a / b) * b + a % b && 0 <= a % b < b) by (nonlinear_arith)
        requires
            b > 0,
    ;
    assert((a / b + 1) * b == (a / b) * b + b) by (nonlinear_arith);
    assert(a / b >= 0) by (nonlinear_arith)
        requires
            a >= 0,
            b > 0,
    ;
    if a > 0 && a % b == 0 && a / b == 0 {
        assert((a / b) * b == 0) by (nonlinear_arith)
            requires
                a / b == 0,
        ;
    }
}

fn div_ceil(a: u64, b: u64) -> (quotient: u64)
    requires
        b > 0,
    ensures
        quotient == ceil_div(a as int, b as int),
{
    if a % b == 0 {
        a / b
    } else {
        proof {
            lemma_ceil_div(a as int, b as int);
            assert(a / b < u64::MAX) by (nonlinear_arith)
                requires
                    b > 0,
                    a % b != 0,
            ;
        }
        a / b + 1
    }
}

/// How many rows an image takes that has a size in pixels: as many as it needs when it is no wider
/// than the page, up to a limit. None without a size.
pub open spec fn rows_for_size(
    pixels: Option<(u32, u32)>,
    cell: (u16, u16),
    content_width: u16,
) -> int {
    match pixels {
        None => 0,
        Some((width, height)) => if width == 0 || height == 0 || content_width == 0 {
            0
        } else {
            let cell_width = if cell.0 > 0 {
                cell.0 as int
            } else {
                1
            };
            let cell_height = if cell.1 > 0 {
                cell.1 as int
            } else {
                1
            };
            let room = content_width * cell_width;
            let shown_width = if width <= room {
                width as int
            } else {
                room
            };
            let shown_height = ceil_div(height * shown_width, width as int);
            let rows = ceil_div(shown_height, cell_height);
            if rows <= MAX_IMAGE_CELL_HEIGHT {
                rows
            } else {
                MAX_IMAGE_CELL_HEIGHT as int
            }
        },
    }
}

/// An image of any size takes at least one row and no more than the limit, on a page of any width.
pub proof fn law_images_take_a_bounded_number_of_rows(
    width: u32,
    height: u32,
    cell: (u16, u16),
    content_width: u16,
)
    ensures
        0 <= rows_for_size(Some((width, height)), cell, content_width) <= MAX_IMAGE_CELL_HEIGHT,
        width > 0 && height > 0 && content_width > 0 <==> rows_for_size(
            Some((width, height)),
            cell,
            content_width,
        ) > 0,
{
    if width > 0 && height > 0 && content_width > 0 {
        let cell_width = if cell.0 > 0 {
            cell.0 as int
        } else {
            1
        };
        let cell_height = if cell.1 > 0 {
            cell.1 as int
        } else {
            1
        };
        let room = content_width * cell_width;
        assert(room > 0) by (nonlinear_arith)
            requires
                content_width > 0,
                cell_width > 0,
                room == content_width * cell_width,
        ;
        let shown_width = if width <= room {
            width as int
        } else {
            room
        };
        assert(height * shown_width > 0) by (nonlinear_arith)
            requires
                height > 0,
                shown_width > 0,
        ;
        lemma_ceil_div(height * shown_width, width as int);
        lemma_ceil_div(ceil_div(height * shown_width, width as int), cell_height);
    }
}

/// How many rows an image takes that has a size in pixels.
pub fn image_rows(pixels: Option<(u32, u32)>, cell: (u16, u16), content_width: u16) -> (rows: usize)
    ensures
        rows == rows_for_size(pixels, cell, content_width),
        rows <= MAX_IMAGE_CELL_HEIGHT,
{
    let (width, height) = match pixels {
        Some(size) => size,
        None => return 0,
    };
    if width == 0 || height == 0 || content_width == 0 {
        return 0;
    }
    let cell_width: u32 = if cell.0 > 0 {
        cell.0 as u32
    } else {
        1
    };
    let cell_height: u32 = if cell.1 > 0 {
        cell.1 as u32
    } else {
        1
    };
    assert(content_width * cell_width <= u32::MAX) by (nonlinear_arith)
        requires
            content_width <= 0xffff,
            cell_width <= 0xffff,
    ;
    let room: u32 = content_width as u32 * cell_width;
    let shown_width: u32 = if width <= room {
        width
    } else {
        room
    };
    assert(height * shown_width <= u64::MAX) by (nonlinear_arith)
        requires
            height <= u32::MAX,
            shown_width <= u32::MAX,
    ;
    let shown_height: u64 = div_ceil(height as u64 * shown_width as u64, width as u64);
    let rows: u64 = div_ceil(shown_height, cell_height as u64);
    if rows <= MAX_IMAGE_CELL_HEIGHT as u64 {
        rows as usize
    } else {
        MAX_IMAGE_CELL_HEIGHT as usize
    }
}

impl InlineView {
    /// The size that an image is taken for: its own, else what the document or the file promises,
    /// else a usual one, unless the image could not be loaded.
    pub open spec fn known_size(self) -> Option<(u32, u32)> {
        if self.pixel_size is Some {
            self.pixel_size
        } else if self.hinted_pixel_size is Some {
            self.hinted_pixel_size
        } else if self.load_state == ImageLoadState::Failed {
            None
        } else {
            Some((DEFAULT_IMAGE_HINT_WIDTH, DEFAULT_IMAGE_HINT_HEIGHT))
        }
    }

    /// How many rows the image takes.
    pub open spec fn rows(self, picker: Picker, content_width: u16) -> int {
        rows_for_size(self.known_size(), cell_pixels(picker), content_width)
    }

    /// Whether the encoded sizes are in order and no more than are kept, and an encoding is on its
    /// way exactly if it is known for which size.
    pub open spec fn is_sound(self) -> bool {
        &&& in_order(self.cached_variants)
        &&& self.cached_variants.len() <= MAX_CACHED_IMAGE_VARIANTS
        &&& self.resize_pending <==> self.pending_variant is Some
    }

    /// The image without anything encoded, in a state of loading.
    pub open spec fn reset(self, load_state: ImageLoadState) -> InlineView {
        InlineView {
            resize_pending: false,
            pending_variant: None,
            active_variant: None,
            cached_variants: Seq::empty(),
            scratch_state: None,
            state: None,
            has_encoded_state: false,
            load_state,
            ..self
        }
    }

    /// An encoded size is kept.
    pub open spec fn keep_variant(
        self,
        variant: ImageResizeVariant,
        encoder: StatefulProtocol,
    ) -> InlineView {
        InlineView {
            cached_variants: kept_entries(with_entry(self.cached_variants, variant, encoder)),
            ..self
        }
    }

    /// An encoded size is drawn from now on. What was drawn before is kept: by its size, or as the
    /// spare where it has none.
    pub open spec fn draw_variant(
        self,
        variant: ImageResizeVariant,
        encoder: StatefulProtocol,
    ) -> InlineView {
        let next = InlineView {
            state: Some(encoder),
            active_variant: Some(variant),
            has_encoded_state: true,
            ..self
        };
        match (self.state, self.active_variant) {
            (Some(previous), Some(previous_variant)) => next.keep_variant(
                previous_variant,
                previous,
            ),
            (Some(previous), None) => if self.scratch_state is None {
                InlineView { scratch_state: Some(previous), ..next }
            } else {
                next
            },
            _ => next,
        }
    }

    /// A kept size, if there is one, is drawn from now on.
    pub open spec fn activate(self, variant: ImageResizeVariant) -> InlineView {
        if has_variant(self.cached_variants, variant) {
            InlineView {
                cached_variants: without_entry(self.cached_variants, variant),
                ..self
            }.draw_variant(variant, image_for(self.cached_variants, variant))
        } else {
            self
        }
    }

    /// The encoder that tells how much room the image takes.
    pub open spec fn reference(self) -> Option<StatefulProtocol> {
        if self.state is Some {
            self.state
        } else if self.scratch_state is Some {
            self.scratch_state
        } else if self.cached_variants.len() > 0 {
            Some(self.cached_variants[0].1)
        } else {
            None
        }
    }

    /// The area that the image takes of the area that it is offered, unless that is empty.
    pub open spec fn target(self, resize: Resize, offered: Rect) -> Option<Rect> {
        match self.reference() {
            Some(encoder) => {
                let taken = taken_area(
                    encoder_pixels(encoder),
                    encoder_cell(encoder),
                    resize,
                    offered,
                );
                if taken.width == 0 || taken.height == 0 {
                    None
                } else {
                    Some(taken)
                }
            },
            None => None,
        }
    }

    /// The size that the image has to be encoded for.
    pub open spec fn wanted(self, resize: Resize, offered: Rect) -> Option<ImageResizeVariant> {
        match self.target(resize, offered) {
            Some(taken) => Some(variant_for(resize, taken)),
            None => None,
        }
    }

    /// Whether a size is drawn already.
    pub open spec fn draws(self, variant: ImageResizeVariant) -> bool {
        self.state is Some && self.active_variant == Some(variant)
    }

    /// The encoder that can be given away to encode another size: the spare, else the first that is
    /// kept, else the one that is drawn, if it is not encoded yet.
    pub open spec fn free_encoder(self) -> Option<StatefulProtocol> {
        if self.scratch_state is Some {
            self.scratch_state
        } else if self.cached_variants.len() > 0 {
            Some(self.cached_variants[0].1)
        } else if self.active_variant is None {
            self.state
        } else {
            None
        }
    }

    /// The image without the encoder that can be given away.
    pub open spec fn without_free_encoder(self) -> InlineView {
        if self.scratch_state is Some {
            InlineView { scratch_state: None, ..self }
        } else if self.cached_variants.len() > 0 {
            InlineView { cached_variants: self.cached_variants.drop_first(), ..self }
        } else if self.active_variant is None {
            InlineView { state: None, ..self }
        } else {
            self
        }
    }

    /// The encoder that leaves when a size is asked for: none if that size is drawn or kept, or if
    /// an encoding is on its way.
    pub open spec fn leaving(self, variant: ImageResizeVariant) -> Option<StatefulProtocol> {
        if self.draws(variant) || has_variant(self.cached_variants, variant) || self.pending_variant
            == Some(variant) || self.resize_pending {
            None
        } else {
            self.free_encoder()
        }
    }

    /// The image after a size has been asked for.
    pub open spec fn ask_for(self, variant: ImageResizeVariant) -> InlineView {
        if self.draws(variant) {
            self
        } else if has_variant(self.cached_variants, variant) {
            self.activate(variant)
        } else if self.leaving(variant) is Some {
            InlineView {
                resize_pending: true,
                pending_variant: Some(variant),
                ..self.without_free_encoder()
            }
        } else {
            self
        }
    }

    /// The image after an encoder that could not be sent away has come back.
    pub open spec fn take_back(self, encoder: StatefulProtocol) -> InlineView {
        let idle = InlineView { resize_pending: false, pending_variant: None, ..self };
        if self.scratch_state is None {
            InlineView { scratch_state: Some(encoder), ..idle }
        } else if self.state is None {
            InlineView { state: Some(encoder), ..idle }
        } else {
            idle
        }
    }

    /// The image after an encoding has arrived: it is drawn if it was waited for or if nothing
    /// encoded is drawn, else it is kept.
    pub open spec fn receive(
        self,
        variant: ImageResizeVariant,
        encoder: StatefulProtocol,
    ) -> InlineView {
        let idle = InlineView {
            resize_pending: false,
            pending_variant: None,
            has_encoded_state: true,
            ..self
        };
        if self.pending_variant == Some(variant) || self.active_variant is None {
            idle.draw_variant(variant, encoder)
        } else {
            idle.keep_variant(variant, encoder)
        }
    }

    /// The image after it has been loaded.
    pub open spec fn loaded(
        self,
        pixels: (u32, u32),
        state: StatefulProtocol,
        scratch: StatefulProtocol,
    ) -> InlineView {
        InlineView {
            pixel_size: Some(pixels),
            state: Some(state),
            scratch_state: Some(scratch),
            ..self.reset(ImageLoadState::Loaded)
        }
    }
}

/// What is sound stays so, whatever happens to an image: the encoded sizes that are kept are in
/// order and within the limit, and an encoding is on its way exactly if it is known for which size.
pub proof fn law_images_stay_sound(
    image: InlineView,
    variant: ImageResizeVariant,
    encoder: StatefulProtocol,
    other: StatefulProtocol,
    pixels: (u32, u32),
    load_state: ImageLoadState,
)
    requires
        image.is_sound(),
    ensures
        image.reset(load_state).is_sound(),
        image.ask_for(variant).is_sound(),
        image.take_back(encoder).is_sound(),
        image.receive(variant, encoder).is_sound(),
        image.loaded(pixels, encoder, other).is_sound(),
{
    lemma_keeping_is_sound(image, variant, encoder);
    if image.active_variant is Some && image.state is Some {
        lemma_keeping_is_sound(image, image.active_variant->0, image.state->0);
    }
    if has_variant(image.cached_variants, variant) {
        law_store_loses_what_is_taken_out(image.cached_variants, variant);
        lemma_entries_split(image.cached_variants, variant);
        let rest = InlineView {
            cached_variants: without_entry(image.cached_variants, variant),
            ..image
        };
        if image.active_variant is Some && image.state is Some {
            lemma_keeping_is_sound(rest, image.active_variant->0, image.state->0);
        }
    }
}

proof fn lemma_keeping_is_sound(
    image: InlineView,
    variant: ImageResizeVariant,
    encoder: StatefulProtocol,
)
    requires
        in_order(image.cached_variants),
    ensures
        in_order(image.keep_variant(variant, encoder).cached_variants),
        image.keep_variant(variant, encoder).cached_variants.len() <= MAX_CACHED_IMAGE_VARIANTS,
{
    law_store_keeps_what_is_put_in(image.cached_variants, variant, encoder);
    law_store_is_bounded(with_entry(image.cached_variants, variant, encoder));
}

/// Whether there is an encoder for an image, or one on its way.
pub open spec fn has_encoder(image: InlineView) -> bool {
    image.reference() is Some || image.resize_pending
}

impl InlineView {
    /// Whether something holds of all encoders of the image.
    pub open spec fn all_encoders(self, holds: spec_fn(StatefulProtocol) -> bool) -> bool {
        &&& self.state is Some ==> holds(self.state->0)
        &&& self.scratch_state is Some ==> holds(self.scratch_state->0)
        &&& forall|i: int|
            0 <= i < self.cached_variants.len() ==> holds((#[trigger] self.cached_variants[i]).1)
    }

    /// Whether all encoders of the image reckon with one size of cells.
    pub open spec fn reckons_with(self, cell: (u16, u16)) -> bool {
        self.all_encoders(|encoder: StatefulProtocol| encoder_cell(encoder) == cell)
    }

    /// Whether all encoders of the image draw one picture.
    pub open spec fn draws_picture(self, picture: image::DynamicImage) -> bool {
        self.all_encoders(|encoder: StatefulProtocol| encoder_image(encoder) == picture)
    }
}

proof fn lemma_keeping_keeps(
    image: InlineView,
    holds: spec_fn(StatefulProtocol) -> bool,
    variant: ImageResizeVariant,
    encoder: StatefulProtocol,
)
    requires
        image.all_encoders(holds),
        holds(encoder),
    ensures
        image.keep_variant(variant, encoder).all_encoders(holds),
{
    let entries = image.cached_variants;
    lemma_entries_bounds(entries, variant);
    let more = with_entry(entries, variant, encoder);
    assert forall|i: int| 0 <= i < more.len() implies holds((#[trigger] more[i]).1) by {
        let at = entries_before(entries, variant);
        if has_variant(entries, variant) {
            if i != at {
                assert(more[i] == entries[i]);
            }
        } else if i < at {
            assert(more[i] == entries[i]);
        } else if i > at {
            assert(more[i] == entries[i - 1]);
        }
    }
    let kept = kept_entries(more);
    assert forall|i: int| 0 <= i < kept.len() implies holds((#[trigger] kept[i]).1) by {
        assert(kept[i] == more[i + (more.len() - kept.len())]);
    }
}

proof fn lemma_drawing_keeps(
    image: InlineView,
    holds: spec_fn(StatefulProtocol) -> bool,
    variant: ImageResizeVariant,
    encoder: StatefulProtocol,
)
    requires
        image.all_encoders(holds),
        holds(encoder),
    ensures
        image.draw_variant(variant, encoder).all_encoders(holds),
{
    if let (Some(previous), Some(previous_variant)) = (image.state, image.active_variant) {
        let next = InlineView {
            state: Some(encoder),
            active_variant: Some(variant),
            has_encoded_state: true,
            ..image
        };
        lemma_keeping_keeps(next, holds, previous_variant, previous);
    }
}

/// What holds of all encoders of an image goes on to hold, whatever happens to the image, as long
/// as it holds of those that arrive.
proof fn lemma_encoders_keep(
    image: InlineView,
    holds: spec_fn(StatefulProtocol) -> bool,
    variant: ImageResizeVariant,
    encoder: StatefulProtocol,
)
    requires
        image.all_encoders(holds),
        holds(encoder),
    ensures
        image.leaving(variant) is Some ==> holds(image.leaving(variant)->0),
        image.ask_for(variant).all_encoders(holds),
        image.take_back(encoder).all_encoders(holds),
        image.receive(variant, encoder).all_encoders(holds),
{
    let entries = image.cached_variants;
    let idle = InlineView {
        resize_pending: false,
        pending_variant: None,
        has_encoded_state: true,
        ..image
    };
    lemma_drawing_keeps(idle, holds, variant, encoder);
    lemma_keeping_keeps(idle, holds, variant, encoder);
    if has_variant(entries, variant) {
        lemma_entries_bounds(entries, variant);
        let at = entries_before(entries, variant);
        let fewer = without_entry(entries, variant);
        assert forall|i: int| 0 <= i < fewer.len() implies holds((#[trigger] fewer[i]).1) by {
            assert(fewer[i] == if i < at {
                entries[i]
            } else {
                entries[i + 1]
            });
        }
        let rest = InlineView { cached_variants: fewer, ..image };
        assert(holds(entries[at].1));
        lemma_drawing_keeps(rest, holds, variant, image_for(entries, variant));
    }
    if entries.len() > 0 {
        let fewer = entries.drop_first();
        assert(holds(entries[0].1));
        assert forall|i: int| 0 <= i < fewer.len() implies holds((#[trigger] fewer[i]).1) by {
            assert(fewer[i] == entries[i + 1]);
        }
    }
}

/// The encoders of an image reckon with one size of cells, whatever happens to the image: the one
/// that is sent away does, as long as those that arrive do.
pub proof fn law_encoders_keep_their_cells(
    image: InlineView,
    cell: (u16, u16),
    variant: ImageResizeVariant,
    encoder: StatefulProtocol,
    other: StatefulProtocol,
    pixels: (u32, u32),
    load_state: ImageLoadState,
)
    requires
        image.reckons_with(cell),
        encoder_cell(encoder) == cell,
        encoder_cell(other) == cell,
    ensures
        image.leaving(variant) is Some ==> encoder_cell(image.leaving(variant)->0) == cell,
        image.reset(load_state).reckons_with(cell),
        image.ask_for(variant).reckons_with(cell),
        image.take_back(encoder).reckons_with(cell),
        image.receive(variant, encoder).reckons_with(cell),
        image.loaded(pixels, encoder, other).reckons_with(cell),
{
    lemma_encoders_keep(
        image,
        |any: StatefulProtocol| encoder_cell(any) == cell,
        variant,
        encoder,
    );
}

/// The encoders of an image draw one picture, whatever happens to the image: the one that is sent
/// away does, as long as those that arrive do. A picture that is loaded is drawn by all of them.
pub proof fn law_encoders_keep_their_picture(
    image: InlineView,
    picture: image::DynamicImage,
    variant: ImageResizeVariant,
    encoder: StatefulProtocol,
)
    requires
        image.draws_picture(picture),
        encoder_image(encoder) == picture,
    ensures
        image.leaving(variant) is Some ==> encoder_image(image.leaving(variant)->0) == picture,
        image.ask_for(variant).draws_picture(picture),
        image.take_back(encoder).draws_picture(picture),
        image.receive(variant, encoder).draws_picture(picture),
        forall|any: InlineView, pixels: (u32, u32), other: StatefulProtocol|
            encoder_image(other) == picture ==> (#[trigger] any.loaded(
                pixels,
                encoder,
                other,
            )).draws_picture(picture),
{
    lemma_encoders_keep(
        image,
        |any: StatefulProtocol| encoder_image(any) == picture,
        variant,
        encoder,
    );
}

/// An image never runs out of encoders: whatever is asked for, sent back or arrives, there is one,
/// or one on its way.
pub proof fn law_images_keep_an_encoder(
    image: InlineView,
    variant: ImageResizeVariant,
    encoder: StatefulProtocol,
)
    requires
        has_encoder(image),
    ensures
        has_encoder(image.ask_for(variant)),
        has_encoder(image.take_back(encoder)),
        has_encoder(image.receive(variant, encoder)),
{
    if !image.draws(variant) && !has_variant(image.cached_variants, variant) {
        assert(image.leaving(variant) is Some ==> image.ask_for(variant).resize_pending);
    }
    if image.active_variant is Some && image.pending_variant != Some(variant) {
        let kept = with_entry(image.cached_variants, variant, encoder);
        lemma_entries_bounds(image.cached_variants, variant);
        assert(kept_entries(kept).len() > 0);
    }
}

/// A size that was waited for is drawn as soon as it arrives, and a size that is kept as soon as it
/// is asked for. What was drawn before is kept, as long as there is room.
pub proof fn law_sizes_are_drawn_at_once(
    image: InlineView,
    variant: ImageResizeVariant,
    encoder: StatefulProtocol,
)
    requires
        in_order(image.cached_variants),
        image.cached_variants.len() < MAX_CACHED_IMAGE_VARIANTS,
    ensures
        image.pending_variant == Some(variant) ==> image.receive(variant, encoder).draws(variant)
            && image.receive(variant, encoder).state == Some(encoder),
        image.pending_variant == Some(variant) && image.state is Some && image.active_variant is Some
            ==> has_variant(
            image.receive(variant, encoder).cached_variants,
            image.active_variant->0,
        ),
        has_variant(image.cached_variants, variant) ==> image.ask_for(variant).draws(variant),
{
    if image.state is Some && image.active_variant is Some {
        let previous = image.active_variant->0;
        law_store_keeps_what_is_put_in(image.cached_variants, previous, image.state->0);
        lemma_entries_split(image.cached_variants, previous);
    }
}

impl InlineImage {
    /// The size that the image is taken for.
    pub fn effective_image_pixel_size(&self) -> (pixels: Option<(u32, u32)>)
        ensures
            pixels == self@.known_size(),
    {
        if self.pixel_size.is_some() {
            return self.pixel_size;
        }
        if self.hinted_pixel_size.is_some() {
            return self.hinted_pixel_size;
        }
        if self.load_state == ImageLoadState::Failed {
            return None;
        }
        Some((DEFAULT_IMAGE_HINT_WIDTH, DEFAULT_IMAGE_HINT_HEIGHT))
    }

    /// How many rows the image takes.
    pub fn rows(&self, picker: &Picker, content_width: u16) -> (rows: usize)
        ensures
            rows == self@.rows(*picker, content_width),
            rows <= MAX_IMAGE_CELL_HEIGHT,
    {
        let pixels = self.effective_image_pixel_size();
        image_rows(pixels, font_size(picker), content_width)
    }

    /// Drops everything that is encoded.
    pub fn reset(&mut self, load_state: ImageLoadState)
        ensures
            final(self)@ == old(self)@.reset(load_state),
    {
        self.resize_pending = false;
        self.pending_variant = None;
        self.active_variant = None;
        self.cached_variants.clear();
        self.scratch_state = None;
        self.state = None;
        self.has_encoded_state = false;
        self.load_state = load_state;
    }

    /// Keeps an encoded size.
    pub fn insert_cached_variant(&mut self, variant: ImageResizeVariant, encoder: StatefulProtocol)
        requires
            in_order(old(self)@.cached_variants),
        ensures
            final(self)@ == old(self)@.keep_variant(variant, encoder),
            in_order(final(self)@.cached_variants),
    {
        self.cached_variants.insert(variant, encoder);
        self.cached_variants.limit();
    }

    /// Draws an encoded size from now on, and keeps what was drawn before.
    pub fn draw_variant(&mut self, variant: ImageResizeVariant, encoder: StatefulProtocol)
        requires
            in_order(old(self)@.cached_variants),
        ensures
            final(self)@ == old(self)@.draw_variant(variant, encoder),
            in_order(final(self)@.cached_variants),
    {
        let mut drawn = Some(encoder);
        std::mem::swap(&mut drawn, &mut self.state);
        let previous_variant = self.active_variant;
        self.active_variant = Some(variant);
        self.has_encoded_state = true;
        if let Some(previous) = drawn {
            if let Some(previous_variant) = previous_variant {
                self.insert_cached_variant(previous_variant, previous);
            } else if self.scratch_state.is_none() {
                self.scratch_state = Some(previous);
            }
        }
    }

    /// Draws a kept size from now on, if there is one.
    pub fn activate_cached_variant(&mut self, variant: ImageResizeVariant) -> (found: bool)
        requires
            in_order(old(self)@.cached_variants),
        ensures
            found == has_variant(old(self)@.cached_variants, variant),
            final(self)@ == old(self)@.activate(variant),
            in_order(final(self)@.cached_variants),
    {
        match self.cached_variants.remove(variant) {
            Some(encoder) => {
                self.draw_variant(variant, encoder);
                true
            },
            None => false,
        }
    }

    /// The area that the image takes of the area that it is offered, unless that is empty.
    pub fn target_area(&self, resize: Resize, offered: Rect) -> (taken: Option<Rect>)
        ensures
            taken == self@.target(resize, offered),
    {
        let taken = match &self.state {
            Some(encoder) => size_for(encoder, resize, offered),
            None => match &self.scratch_state {
                Some(encoder) => size_for(encoder, resize, offered),
                None => match self.cached_variants.first() {
                    Some(encoder) => size_for(encoder, resize, offered),
                    None => return None,
                },
            },
        };
        non_empty(taken)
    }

    /// The size that the image has to be encoded for.
    pub fn requested_variant(&self, resize: Resize, offered: Rect) -> (variant: Option<
        ImageResizeVariant,
    >)
        ensures
            variant == self@.wanted(resize, offered),
    {
        match self.target_area(resize, offered) {
            Some(taken) => Some(image_resize_variant(resize, taken)),
            None => None,
        }
    }

    /// Takes out the encoder that can be given away to encode another size.
    fn take_free_encoder(&mut self) -> (encoder: Option<StatefulProtocol>)
        requires
            in_order(old(self)@.cached_variants),
        ensures
            encoder == old(self)@.free_encoder(),
            final(self)@ == old(self)@.without_free_encoder(),
            in_order(final(self)@.cached_variants),
    {
        let mut encoder: Option<StatefulProtocol> = None;
        std::mem::swap(&mut encoder, &mut self.scratch_state);
        if encoder.is_some() {
            return encoder;
        }
        if self.cached_variants.len() > 0 {
            return self.cached_variants.remove_first();
        }
        if self.active_variant.is_none() {
            let mut drawn: Option<StatefulProtocol> = None;
            std::mem::swap(&mut drawn, &mut self.state);
            return drawn;
        }
        None
    }

    /// Asks for a size. What comes back is an encoder that has to be encoded for it.
    pub fn ask_for(&mut self, variant: ImageResizeVariant) -> (encoder: Option<StatefulProtocol>)
        requires
            in_order(old(self)@.cached_variants),
        ensures
            encoder == old(self)@.leaving(variant),
            final(self)@ == old(self)@.ask_for(variant),
            in_order(final(self)@.cached_variants),
    {
        if self.state.is_some() && self.active_variant == Some(variant) {
            return None;
        }
        if self.activate_cached_variant(variant) {
            return None;
        }
        if self.pending_variant == Some(variant) || self.resize_pending {
            return None;
        }
        let encoder = self.take_free_encoder();
        if encoder.is_some() {
            self.resize_pending = true;
            self.pending_variant = Some(variant);
        }
        encoder
    }

    /// Takes back an encoder that could not be sent away.
    pub fn take_back(&mut self, encoder: StatefulProtocol)
        ensures
            final(self)@ == old(self)@.take_back(encoder),
    {
        if self.scratch_state.is_none() {
            self.scratch_state = Some(encoder);
        } else if self.state.is_none() {
            self.state = Some(encoder);
        }
        self.resize_pending = false;
        self.pending_variant = None;
    }

    /// Takes an encoding that has arrived.
    pub fn receive(&mut self, variant: ImageResizeVariant, encoder: StatefulProtocol)
        requires
            in_order(old(self)@.cached_variants),
        ensures
            final(self)@ == old(self)@.receive(variant, encoder),
            in_order(final(self)@.cached_variants),
    {
        let was_pending = self.pending_variant == Some(variant);
        self.resize_pending = false;
        self.pending_variant = None;
        self.has_encoded_state = true;
        if was_pending || self.active_variant.is_none() {
            self.draw_variant(variant, encoder);
        } else {
            self.insert_cached_variant(variant, encoder);
        }
    }

    /// Takes a loaded image: its size, and two encoders for it.
    pub fn finish_loading(
        &mut self,
        pixels: (u32, u32),
        state: StatefulProtocol,
        scratch: StatefulProtocol,
    )
        ensures
            final(self)@ == old(self)@.loaded(pixels, state, scratch),
    {
        self.reset(ImageLoadState::Loaded);
        self.pixel_size = Some(pixels);
        self.state = Some(state);
        self.scratch_state = Some(scratch);
    }

    /// What is shown in place of the image.
    pub fn image_placeholder(&self) -> (text: &'static str)
        ensures
            text@ == placeholder(self@),
    {
        if self.resize_pending {
            return "[rendering image...]";
        }
        match self.load_state {
            ImageLoadState::Loading => "[loading image...]",
            ImageLoadState::Failed => "[image unavailable]",
            ImageLoadState::NotRequested => "[image pending]",
            ImageLoadState::Loaded => "[rendering image...]",
        }
    }
}

/// What is shown in place of an image.
pub open spec fn placeholder(image: InlineView) -> Seq<char> {
    if image.resize_pending {
        "[rendering image...]"@
    } else {
        match image.load_state {
            ImageLoadState::Loading => "[loading image...]"@,
            ImageLoadState::Failed => "[image unavailable]"@,
            ImageLoadState::NotRequested => "[image pending]"@,
            ImageLoadState::Loaded => "[rendering image...]"@,
        }
    }
}

/// An area, unless it is empty.
pub fn non_empty(area: Rect) -> (same: Option<Rect>)
    ensures
        same == if area.width == 0 || area.height == 0 {
            None
        } else {
            Some(area)
        },
{
    if area.width == 0 || area.height == 0 {
        None
    } else {
        Some(area)
    }
}

/// The pixel size of a decoded image.
pub(crate) fn pixels_of(image: &image::DynamicImage) -> (pixels: (u32, u32))
    ensures
        pixels == (image_width(*image), image_height(*image)),
{
    (width_of(image), height_of(image))
}

/// An image of the document before anything has been loaded.
pub open spec fn prepared(
    markdown_path: PathBuf,
    image: ImageView,
    system_drive: Option<Seq<char>>,
) -> InlineView {
    let source = resolved_source(markdown_path, image.src, system_drive);
    InlineView {
        line_index: image.line_index as usize,
        source,
        state: None,
        scratch_state: None,
        active_variant: None,
        cached_variants: Seq::empty(),
        resize_pending: false,
        pending_variant: None,
        has_encoded_state: false,
        pixel_size: None,
        hinted_pixel_size: image.hinted_pixel_size,
        load_state: if source is Some {
            ImageLoadState::NotRequested
        } else {
            ImageLoadState::Failed
        },
    }
}

/// The images of the document before anything has been loaded.
pub open spec fn prepared_images(
    markdown_path: PathBuf,
    images: Seq<ImageView>,
    system_drive: Option<Seq<char>>,
) -> Seq<InlineView> {
    Seq::new(images.len(), |i: int| prepared(markdown_path, images[i], system_drive))
}

/// The images of the document before anything has been loaded. One without a source that can be
/// read counts as failed.
pub fn prepare_images_for_doc(
    markdown_path: &PathBuf,
    images: &Vec<RenderedImage>,
    system_drive: Option<&str>,
) -> (inline: Vec<InlineImage>)
    ensures
        inline_images_view(inline@) == prepared_images(
            *markdown_path,
            images_view(images@),
            text_view(system_drive),
        ),
{
    let mut inline: Vec<InlineImage> = Vec::new();
    let mut i: usize = 0;
    while i < images.len()
        invariant
            i <= images@.len(),
            inline@.len() == i,
            forall|k: int|
                0 <= k < i ==> (#[trigger] inline@[k])@ == prepared(
                    *markdown_path,
                    images@[k]@,
                    text_view(system_drive),
                ),
        decreases images.len() - i,
    {
        let image = &images[i];
        let source = resolve_image_source(markdown_path, image.src.as_str(), system_drive);
        let load_state = if source.is_some() {
            ImageLoadState::NotRequested
        } else {
            ImageLoadState::Failed
        };
        let next = InlineImage {
            line_index: image.line_index,
            source,
            state: None,
            scratch_state: None,
            active_variant: None,
            cached_variants: VariantCache::new(),
            resize_pending: false,
            pending_variant: None,
            has_encoded_state: false,
            pixel_size: None,
            hinted_pixel_size: image.hinted_pixel_size,
            load_state,
        };
        assert(next@ =~= prepared(*markdown_path, image@, text_view(system_drive)));
        inline.push(next);
        i += 1;
    }
    assert(inline_images_view(inline@) =~= prepared_images(
        *markdown_path,
        images_view(images@),
        text_view(system_drive),
    ));
    inline
}

} // verus!
