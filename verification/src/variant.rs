//! Encoded sizes of an image, and the store that keeps a few of them.
use ratatui_image::protocol::StatefulProtocol;
use vstd::prelude::*;

verus! {

/// An image of the `ratatui-image` crate that can be encoded for a size and drawn.
#[verifier::external_type_specification]
#[verifier::external_body]
pub struct ExStatefulProtocol(ratatui_image::protocol::StatefulProtocol);

/// A part of the screen, in cells.
#[derive(Clone, Copy, Debug, PartialEq, Eq, Structural)]
pub struct Rect {
    pub x: u16,
    pub y: u16,
    pub width: u16,
    pub height: u16,
}

impl Rect {
    /// The part of the screen with these bounds.
    pub fn new(x: u16, y: u16, width: u16, height: u16) -> (area: Rect)
        ensures
            area == (Rect { x, y, width, height }),
    {
        Rect { x, y, width, height }
    }
}

/// Which sides are cut off an image that does not fit.
#[derive(Clone, Copy, Debug, PartialEq, Eq, Structural)]
pub struct CropOptions {
    pub clip_top: bool,
    pub clip_left: bool,
}

/// How an image is brought to a size.
#[derive(Clone, Copy, Debug, PartialEq, Eq, Structural)]
pub enum Resize {
    Fit,
    Crop(Option<CropOptions>),
    Scale,
}

/// How an image was brought to a size.
#[derive(Clone, Copy, Debug, PartialEq, Eq, Structural)]
pub enum ImageResizeMode {
    Fit,
    Crop { clip_top: bool, clip_left: bool },
    Scale,
}

/// An encoded size of an image.
#[derive(Clone, Copy, Debug, PartialEq, Eq, Structural)]
pub struct ImageResizeVariant {
    pub width: u16,
    pub height: u16,
    pub mode: ImageResizeMode,
}

/// How many encoded sizes of an image are kept.
pub const MAX_CACHED_IMAGE_VARIANTS: usize = 24;

impl ImageResizeMode {
    /// The place of a mode among the modes.
    pub open spec fn order(self) -> int {
        match self {
            ImageResizeMode::Fit => 0,
            ImageResizeMode::Crop { clip_top, clip_left } => 1 + (if clip_top {
                2int
            } else {
                0
            }) + (if clip_left {
                1int
            } else {
                0
            }),
            ImageResizeMode::Scale => 5,
        }
    }

    /// The place of a mode among the modes.
    fn place(self) -> (place: u64)
        ensures
            place == self.order(),
            place < 8,
    {
        match self {
            ImageResizeMode::Fit => 0,
            ImageResizeMode::Crop { clip_top, clip_left } => {
                let top: u64 = if clip_top {
                    2
                } else {
                    0
                };
                let left: u64 = if clip_left {
                    1
                } else {
                    0
                };
                1 + top + left
            },
            ImageResizeMode::Scale => 5,
        }
    }
}

impl ImageResizeVariant {
    /// The place of a variant among the variants: by width, then by height, then by mode.
    pub open spec fn order(self) -> int {
        (self.width * 0x10000 + self.height) * 8 + self.mode.order()
    }

    /// The place of a variant among the variants.
    fn place(self) -> (place: u64)
        ensures
            place == self.order(),
    {
        (self.width as u64 * 0x10000 + self.height as u64) * 8 + self.mode.place()
    }
}

/// Different variants have different places.
pub proof fn law_variants_are_ordered(a: ImageResizeVariant, b: ImageResizeVariant)
    ensures
        a.order() == b.order() <==> a == b,
{
    assert(0 <= a.mode.order() < 8 && 0 <= b.mode.order() < 8);
    if a.order() == b.order() {
        assert(a.mode.order() == b.mode.order());
        assert(a.width * 0x10000 + a.height == b.width * 0x10000 + b.height);
        assert(a.width == b.width && a.height == b.height);
    }
}

/// The variant that a way of resizing leads to for an area.
pub open spec fn variant_for(resize: Resize, area: Rect) -> ImageResizeVariant {
    ImageResizeVariant {
        width: area.width,
        height: area.height,
        mode: match resize {
            Resize::Fit => ImageResizeMode::Fit,
            Resize::Crop(Some(options)) => ImageResizeMode::Crop {
                clip_top: options.clip_top,
                clip_left: options.clip_left,
            },
            Resize::Crop(None) => ImageResizeMode::Crop { clip_top: false, clip_left: false },
            Resize::Scale => ImageResizeMode::Scale,
        },
    }
}

/// The variant that a way of resizing leads to for an area.
pub fn image_resize_variant(resize: Resize, target_area: Rect) -> (variant: ImageResizeVariant)
    ensures
        variant == variant_for(resize, target_area),
{
    let mode = match resize {
        Resize::Fit => ImageResizeMode::Fit,
        Resize::Crop(Some(options)) => ImageResizeMode::Crop {
            clip_top: options.clip_top,
            clip_left: options.clip_left,
        },
        Resize::Crop(None) => ImageResizeMode::Crop { clip_top: false, clip_left: false },
        Resize::Scale => ImageResizeMode::Scale,
    };
    ImageResizeVariant { width: target_area.width, height: target_area.height, mode }
}

/// What a store holds: variants in their order, each with its encoded image.
pub type Entries = Seq<(ImageResizeVariant, StatefulProtocol)>;

/// Encoded images by their variants.
pub struct VariantCache {
    entries: Vec<(ImageResizeVariant, StatefulProtocol)>,
}

impl View for VariantCache {
    type V = Entries;

    closed spec fn view(&self) -> Entries {
        self.entries@
    }
}

/// Whether entries stand in the order of their variants, no variant twice.
pub open spec fn in_order(entries: Entries) -> bool {
    forall|i: int, j: int|
        #![trigger entries[i], entries[j]]
        0 <= i < j < entries.len() ==> entries[i].0.order() < entries[j].0.order()
}

/// How many entries stand before a variant.
pub open spec fn entries_before(entries: Entries, variant: ImageResizeVariant) -> int
    decreases entries.len(),
{
    if entries.len() == 0 || entries.last().0.order() < variant.order() {
        entries.len() as int
    } else {
        entries_before(entries.drop_last(), variant)
    }
}

/// Whether there is an entry for a variant.
pub open spec fn has_variant(entries: Entries, variant: ImageResizeVariant) -> bool {
    let at = entries_before(entries, variant);
    at < entries.len() && entries[at].0 == variant
}

/// The encoded image of a variant.
pub open spec fn image_for(entries: Entries, variant: ImageResizeVariant) -> StatefulProtocol {
    entries[entries_before(entries, variant)].1
}

/// The entries with one more, which takes the place of an entry for the same variant.
pub open spec fn with_entry(
    entries: Entries,
    variant: ImageResizeVariant,
    image: StatefulProtocol,
) -> Entries {
    let at = entries_before(entries, variant);
    if has_variant(entries, variant) {
        entries.update(at, (variant, image))
    } else {
        entries.insert(at, (variant, image))
    }
}

/// The entries without the one for a variant.
pub open spec fn without_entry(entries: Entries, variant: ImageResizeVariant) -> Entries {
    if has_variant(entries, variant) {
        entries.remove(entries_before(entries, variant))
    } else {
        entries
    }
}

/// The last entries, as many as are kept.
pub open spec fn kept_entries(entries: Entries) -> Entries {
    if entries.len() > MAX_CACHED_IMAGE_VARIANTS {
        entries.skip(entries.len() - MAX_CACHED_IMAGE_VARIANTS)
    } else {
        entries
    }
}

proof fn lemma_entries_before(entries: Entries, variant: ImageResizeVariant, k: int)
    requires
        in_order(entries),
        0 <= k <= entries.len(),
        forall|i: int| 0 <= i < k ==> (#[trigger] entries[i]).0.order() < variant.order(),
        forall|i: int|
            k <= i < entries.len() ==> (#[trigger] entries[i]).0.order() >= variant.order(),
    ensures
        entries_before(entries, variant) == k,
    decreases entries.len(),
{
    if k < entries.len() {
        assert(entries.last() == entries[entries.len() - 1]);
        lemma_entries_before(entries.drop_last(), variant, k);
    } else if k > 0 {
        assert(entries.last() == entries[k - 1]);
    }
}

/// The entries before a variant are among the entries.
pub proof fn lemma_entries_bounds(entries: Entries, variant: ImageResizeVariant)
    ensures
        0 <= entries_before(entries, variant) <= entries.len(),
    decreases entries.len(),
{
    if entries.len() > 0 {
        lemma_entries_bounds(entries.drop_last(), variant);
    }
}

/// The entries before a variant are those with smaller variants.
pub proof fn lemma_entries_split(entries: Entries, variant: ImageResizeVariant)
    requires
        in_order(entries),
    ensures
        0 <= entries_before(entries, variant) <= entries.len(),
        forall|i: int|
            0 <= i < entries_before(entries, variant) ==> (#[trigger] entries[i]).0.order()
                < variant.order(),
        forall|i: int|
            entries_before(entries, variant) <= i < entries.len() ==> (
            #[trigger] entries[i]).0.order() >= variant.order(),
    decreases entries.len(),
{
    if entries.len() > 0 {
        let at = entries_before(entries, variant);
        let shorter = entries.drop_last();
        assert(entries.last() == entries[entries.len() - 1]);
        if entries.last().0.order() >= variant.order() {
            lemma_entries_split(shorter, variant);
            assert forall|i: int| 0 <= i < at implies (#[trigger] entries[i]).0.order()
                < variant.order() by {
                assert(entries[i] == shorter[i]);
            }
            assert forall|i: int| at <= i < entries.len() implies (#[trigger] entries[i]).0.order()
                >= variant.order() by {
                if i < shorter.len() {
                    assert(entries[i] == shorter[i]);
                }
            }
        }
    }
}

/// A store stays in order, and what was put in is found again.
pub proof fn law_store_keeps_what_is_put_in(
    entries: Entries,
    variant: ImageResizeVariant,
    image: StatefulProtocol,
)
    requires
        in_order(entries),
    ensures
        in_order(with_entry(entries, variant, image)),
        has_variant(with_entry(entries, variant, image), variant),
        image_for(with_entry(entries, variant, image), variant) == image,
{
    let at = entries_before(entries, variant);
    let after = with_entry(entries, variant, image);
    lemma_entries_split(entries, variant);
    if !has_variant(entries, variant) {
        if at < entries.len() {
            law_variants_are_ordered(entries[at].0, variant);
        }
        assert forall|i: int, j: int|
            #![trigger after[i], after[j]]
            0 <= i < j < after.len() implies after[i].0.order() < after[j].0.order() by {
            let a = if i < at {
                entries[i]
            } else if i == at {
                (variant, image)
            } else {
                entries[i - 1]
            };
            let b = if j < at {
                entries[j]
            } else if j == at {
                (variant, image)
            } else {
                entries[j - 1]
            };
            assert(after[i] == a && after[j] == b);
            if i == at {
                assert(entries[j - 1].0.order() >= entries[at].0.order());
            }
        }
    }
    assert forall|i: int| 0 <= i < at implies (#[trigger] after[i]).0.order()
        < variant.order() by {
        assert(after[i] == entries[i]);
    }
    assert(after[at].0 == variant);
    lemma_entries_before(after, variant, at);
}

/// A store stays in order when an entry is taken out, and the entry is gone.
pub proof fn law_store_loses_what_is_taken_out(entries: Entries, variant: ImageResizeVariant)
    requires
        in_order(entries),
    ensures
        in_order(without_entry(entries, variant)),
        !has_variant(without_entry(entries, variant), variant),
{
    let at = entries_before(entries, variant);
    let after = without_entry(entries, variant);
    lemma_entries_split(entries, variant);
    if has_variant(entries, variant) {
        assert forall|i: int, j: int|
            #![trigger after[i], after[j]]
            0 <= i < j < after.len() implies after[i].0.order() < after[j].0.order() by {
            let a = if i < at {
                entries[i]
            } else {
                entries[i + 1]
            };
            let b = if j < at {
                entries[j]
            } else {
                entries[j + 1]
            };
            assert(after[i] == a && after[j] == b);
        }
        assert forall|i: int| 0 <= i < at implies (#[trigger] after[i]).0.order()
            < variant.order() by {
            assert(after[i] == entries[i]);
        }
        assert forall|i: int| at <= i < after.len() implies (#[trigger] after[i]).0.order()
            > variant.order() by {
            assert(after[i] == entries[i + 1]);
            assert(entries[at].0.order() < entries[i + 1].0.order());
        }
        lemma_entries_before(after, variant, at);
    }
}

/// No more than the limit is kept: the entries that come last, in order.
pub proof fn law_store_is_bounded(entries: Entries)
    requires
        in_order(entries),
    ensures
        kept_entries(entries).len() <= MAX_CACHED_IMAGE_VARIANTS,
        in_order(kept_entries(entries)),
{
}

impl VariantCache {
    /// An empty store.
    pub fn new() -> (store: VariantCache)
        ensures
            store@ == Entries::empty(),
    {
        VariantCache { entries: Vec::new() }
    }

    /// How many entries there are.
    pub fn len(&self) -> (count: usize)
        ensures
            count == self@.len(),
    {
        self.entries.len()
    }

    /// How many entries stand before a variant.
    fn position(&self, variant: ImageResizeVariant) -> (at: usize)
        requires
            in_order(self@),
        ensures
            at == entries_before(self@, variant),
            at <= self@.len(),
    {
        let place = variant.place();
        let mut at: usize = 0;
        while at < self.entries.len() && self.entries[at].0.place() < place
            invariant
                at <= self.entries@.len(),
                place == variant.order(),
                forall|i: int|
                    0 <= i < at ==> (#[trigger] self.entries@[i]).0.order() < variant.order(),
            decreases self.entries.len() - at,
        {
            at += 1;
        }
        proof {
            lemma_entries_before(self@, variant, at as int);
        }
        at
    }

    /// Whether there is an entry for a variant.
    pub fn contains_key(&self, variant: &ImageResizeVariant) -> (answer: bool)
        requires
            in_order(self@),
        ensures
            answer == has_variant(self@, *variant),
    {
        let at = self.position(*variant);
        at < self.entries.len() && self.entries[at].0 == *variant
    }

    /// Puts an encoded image in, in place of one for the same variant.
    pub fn insert(&mut self, variant: ImageResizeVariant, image: StatefulProtocol)
        requires
            in_order(old(self)@),
        ensures
            final(self)@ == with_entry(old(self)@, variant, image),
            in_order(final(self)@),
    {
        proof {
            law_store_keeps_what_is_put_in(self@, variant, image);
        }
        let at = self.position(variant);
        if at < self.entries.len() && self.entries[at].0 == variant {
            self.entries.set(at, (variant, image));
        } else {
            self.entries.insert(at, (variant, image));
        }
    }

    /// Takes the encoded image of a variant out.
    pub fn remove(&mut self, variant: ImageResizeVariant) -> (image: Option<StatefulProtocol>)
        requires
            in_order(old(self)@),
        ensures
            image is Some <==> has_variant(old(self)@, variant),
            image is Some ==> image->0 == image_for(old(self)@, variant),
            final(self)@ == without_entry(old(self)@, variant),
            in_order(final(self)@),
    {
        proof {
            law_store_loses_what_is_taken_out(self@, variant);
        }
        let at = self.position(variant);
        if at < self.entries.len() && self.entries[at].0 == variant {
            let (_, image) = self.entries.remove(at);
            Some(image)
        } else {
            None
        }
    }

    /// Takes the first entry out.
    pub fn remove_first(&mut self) -> (image: Option<StatefulProtocol>)
        ensures
            image is Some <==> old(self)@.len() > 0,
            image is Some ==> image->0 == old(self)@[0].1 && final(self)@
                == old(self)@.drop_first(),
            image is None ==> final(self)@ == old(self)@,
            in_order(old(self)@) ==> in_order(final(self)@),
    {
        if self.entries.len() > 0 {
            let (_, image) = self.entries.remove(0);
            assert(self@ =~= old(self)@.drop_first());
            Some(image)
        } else {
            None
        }
    }

    /// Drops entries from the front until no more than the limit are left.
    pub fn limit(&mut self)
        ensures
            final(self)@ == kept_entries(old(self)@),
            in_order(old(self)@) ==> in_order(final(self)@),
    {
        while self.entries.len() > MAX_CACHED_IMAGE_VARIANTS
            invariant
                kept_entries(self@) == kept_entries(old(self)@),
                in_order(old(self)@) ==> in_order(self@),
            decreases self.entries.len(),
        {
            let ghost before = self@;
            let _ = self.remove_first();
            assert(kept_entries(self@) =~= kept_entries(before));
        }
    }

    /// Takes everything out.
    pub fn clear(&mut self)
        ensures
            final(self)@ == Entries::empty(),
    {
        self.entries.clear();
    }

    /// The first encoded image.
    pub fn first(&self) -> (image: Option<&StatefulProtocol>)
        ensures
            image is Some <==> self@.len() > 0,
            image is Some ==> *image->0 == self@[0].1,
    {
        if self.entries.len() > 0 {
            Some(&self.entries[0].1)
        } else {
            None
        }
    }
}

} // verus!
