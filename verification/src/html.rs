//! Images in embedded HTML.
use regex::Regex;
use vstd::prelude::*;

use crate::chars::{chars_of, number_u32, parse_u32, string_of};
use crate::pattern::{
    captured_groups, captures, compile, compiled, describe_error, error_text, find_ranges,
    first_capture, first_non_empty_capture_owned, groups_view, match_ranges,
};
use crate::width::{char_index_for_byte, chars_before, lemma_chars_before_monotonic};

verus! {

/// An `<img>` element: its source, its alternative text and the size it asks for.
#[derive(Debug)]
pub struct HtmlImageTag {
    pub src: String,
    pub alt: String,
    pub hinted_pixel_size: Option<(u32, u32)>,
}

/// What an [`HtmlImageTag`] holds.
pub struct HtmlImageView {
    pub src: Seq<char>,
    pub alt: Seq<char>,
    pub hinted_pixel_size: Option<(u32, u32)>,
}

impl View for HtmlImageTag {
    type V = HtmlImageView;

    open spec fn view(&self) -> HtmlImageView {
        HtmlImageView {
            src: self.src@,
            alt: self.alt@,
            hinted_pixel_size: self.hinted_pixel_size,
        }
    }
}

/// What a run of image elements holds.
pub open spec fn html_images_view(images: Seq<HtmlImageTag>) -> Seq<HtmlImageView> {
    Seq::new(images.len(), |i: int| images[i]@)
}

/// Finds an `<img>` element.
pub const IMG_TAG_PATTERN: &'static str = r#"(?is)<img\b[^>]*>"#;

/// Finds the `src` attribute of an element.
pub const SRC_PATTERN: &'static str =
    r#"(?is)\bsrc\s*=\s*(?:"([^"]*)"|'([^']*)'|([^\s"'=<>`]+))"#;

/// Finds the `alt` attribute of an element.
pub const ALT_PATTERN: &'static str =
    r#"(?is)\balt\s*=\s*(?:"([^"]*)"|'([^']*)'|([^\s"'=<>`]+))"#;

/// Finds the `width` attribute of an element, in pixels.
pub const WIDTH_PATTERN: &'static str =
    r#"(?is)\bwidth\s*=\s*(?:"([0-9]+)(?:px)?"|'([0-9]+)(?:px)?'|([0-9]+)(?:px)?)"#;

/// Finds the `height` attribute of an element, in pixels.
pub const HEIGHT_PATTERN: &'static str =
    r#"(?is)\bheight\s*=\s*(?:"([0-9]+)(?:px)?"|'([0-9]+)(?:px)?'|([0-9]+)(?:px)?)"#;

/// The expressions that image elements are read with.
#[derive(Debug)]
pub struct HtmlPatterns {
    pub img: Regex,
    pub src: Regex,
    pub alt: Regex,
    pub width: Regex,
    pub height: Regex,
}

/// Why image elements cannot be read: one of the expressions did not compile.
#[derive(Debug)]
pub struct PatternError {
    pub message: String,
}

impl HtmlPatterns {
    /// Whether each expression is the one that its pattern compiles to.
    pub open spec fn is_compiled(self) -> bool {
        &&& compiled(IMG_TAG_PATTERN@, false) == Ok::<Regex, regex::Error>(self.img)
        &&& compiled(SRC_PATTERN@, false) == Ok::<Regex, regex::Error>(self.src)
        &&& compiled(ALT_PATTERN@, false) == Ok::<Regex, regex::Error>(self.alt)
        &&& compiled(WIDTH_PATTERN@, false) == Ok::<Regex, regex::Error>(self.width)
        &&& compiled(HEIGHT_PATTERN@, false) == Ok::<Regex, regex::Error>(self.height)
    }
}

/// The first pattern, in the order of use, that does not compile, with the reason.
pub open spec fn pattern_failure() -> Option<Seq<char>> {
    if compiled(IMG_TAG_PATTERN@, false) is Err {
        Some(error_text(compiled(IMG_TAG_PATTERN@, false)->Err_0))
    } else if compiled(SRC_PATTERN@, false) is Err {
        Some(error_text(compiled(SRC_PATTERN@, false)->Err_0))
    } else if compiled(ALT_PATTERN@, false) is Err {
        Some(error_text(compiled(ALT_PATTERN@, false)->Err_0))
    } else if compiled(WIDTH_PATTERN@, false) is Err {
        Some(error_text(compiled(WIDTH_PATTERN@, false)->Err_0))
    } else if compiled(HEIGHT_PATTERN@, false) is Err {
        Some(error_text(compiled(HEIGHT_PATTERN@, false)->Err_0))
    } else {
        None
    }
}

/// One of the expressions.
fn compile_fixed(pattern: &str) -> (outcome: Result<Regex, PatternError>)
    ensures
        match outcome {
            Ok(expression) => compiled(pattern@, false) == Ok::<Regex, regex::Error>(expression),
            Err(failure) => compiled(pattern@, false) is Err && failure.message@ == error_text(
                compiled(pattern@, false)->Err_0,
            ),
        },
{
    match compile(pattern, false) {
        Ok(expression) => Ok(expression),
        Err(error) => Err(PatternError { message: describe_error(&error) }),
    }
}

/// The expressions that image elements are read with.
pub fn compile_html_patterns() -> (outcome: Result<HtmlPatterns, PatternError>)
    ensures
        outcome is Ok <==> pattern_failure() is None,
        outcome is Ok ==> outcome->Ok_0.is_compiled(),
        outcome is Err ==> outcome->Err_0.message@ == pattern_failure()->0,
{
    let img = match compile_fixed(IMG_TAG_PATTERN) {
        Ok(expression) => expression,
        Err(failure) => return Err(failure),
    };
    let src = match compile_fixed(SRC_PATTERN) {
        Ok(expression) => expression,
        Err(failure) => return Err(failure),
    };
    let alt = match compile_fixed(ALT_PATTERN) {
        Ok(expression) => expression,
        Err(failure) => return Err(failure),
    };
    let width = match compile_fixed(WIDTH_PATTERN) {
        Ok(expression) => expression,
        Err(failure) => return Err(failure),
    };
    let height = match compile_fixed(HEIGHT_PATTERN) {
        Ok(expression) => expression,
        Err(failure) => return Err(failure),
    };
    Ok(HtmlPatterns { img, src, alt, width, height })
}

/// What an attribute's groups captured, as far as anything was captured.
pub open spec fn attribute_text(groups: Option<Seq<Option<Seq<char>>>>) -> Option<Seq<char>> {
    match groups {
        Some(parts) => first_capture(parts, 1),
        None => None,
    }
}

/// What optional groups hold.
pub open spec fn found_view(groups: Option<Vec<Option<String>>>) -> Option<
    Seq<Option<Seq<char>>>,
> {
    match groups {
        Some(parts) => Some(groups_view(parts@)),
        None => None,
    }
}

/// What an attribute's groups captured, as far as anything was captured.
pub fn attribute_of_groups(groups: &Option<Vec<Option<String>>>) -> (text: Option<String>)
    ensures
        text is Some <==> attribute_text(found_view(*groups)) is Some,
        text is Some ==> text->0@ == attribute_text(found_view(*groups))->0,
{
    match groups {
        Some(parts) => first_non_empty_capture_owned(parts),
        None => None,
    }
}

/// A dimension in pixels: the captured number, unless it is zero or too large.
pub open spec fn dimension(groups: Option<Seq<Option<Seq<char>>>>) -> Option<u32> {
    match attribute_text(groups) {
        Some(text) => match number_u32(text) {
            Some(value) => if value > 0 {
                Some(value)
            } else {
                None
            },
            None => None,
        },
        None => None,
    }
}

/// A dimension in pixels: the captured number, unless it is zero or too large.
pub fn dimension_of_groups(groups: &Option<Vec<Option<String>>>) -> (pixels: Option<u32>)
    ensures
        pixels == dimension(found_view(*groups)),
{
    match attribute_of_groups(groups) {
        Some(text) => match parse_u32(text.as_str()) {
            Some(value) => if value > 0 {
                Some(value)
            } else {
                None
            },
            None => None,
        },
        None => None,
    }
}

/// The dimension that an attribute of an element gives.
pub fn parse_html_dimension_attr(tag: &str, expression: &Regex) -> (pixels: Option<u32>)
    ensures
        pixels == dimension(captured_groups(*expression, tag@)),
{
    let groups = captures(expression, tag);
    dimension_of_groups(&groups)
}

/// The size that two dimensions give: both are needed.
pub open spec fn size_hint(width: Option<u32>, height: Option<u32>) -> Option<(u32, u32)> {
    if width is Some && height is Some && width->0 > 0 && height->0 > 0 {
        Some((width->0, height->0))
    } else {
        None
    }
}

/// The size that two dimensions give: both are needed.
pub fn image_hint(width: Option<u32>, height: Option<u32>) -> (size: Option<(u32, u32)>)
    ensures
        size == size_hint(width, height),
{
    match (width, height) {
        (Some(w), Some(h)) => if w > 0 && h > 0 {
            Some((w, h))
        } else {
            None
        },
        _ => None,
    }
}

/// The size that an element asks for.
pub fn parse_image_hint_from_tag(tag: &str, width: &Regex, height: &Regex) -> (size: Option<
    (u32, u32),
>)
    ensures
        size == size_hint(
            dimension(captured_groups(*width, tag@)),
            dimension(captured_groups(*height, tag@)),
        ),
{
    let w = parse_html_dimension_attr(tag, width);
    let h = parse_html_dimension_attr(tag, height);
    image_hint(w, h)
}

/// The image that an element stands for: none without a source.
pub open spec fn image_of(
    src: Option<Seq<char>>,
    alt: Option<Seq<char>>,
    size: Option<(u32, u32)>,
) -> Option<HtmlImageView> {
    match src {
        Some(source) => Some(
            HtmlImageView {
                src: source,
                alt: match alt {
                    Some(text) => text,
                    None => Seq::empty(),
                },
                hinted_pixel_size: size,
            },
        ),
        None => None,
    }
}

/// The image that the text of an element stands for.
pub open spec fn image_of_tag(tag: Seq<char>, patterns: HtmlPatterns) -> Option<HtmlImageView> {
    image_of(
        attribute_text(captured_groups(patterns.src, tag)),
        attribute_text(captured_groups(patterns.alt, tag)),
        size_hint(
            dimension(captured_groups(patterns.width, tag)),
            dimension(captured_groups(patterns.height, tag)),
        ),
    )
}

/// The image that an element stands for, given what its attributes captured.
pub fn image_of_groups(
    src: &Option<Vec<Option<String>>>,
    alt: &Option<Vec<Option<String>>>,
    size: Option<(u32, u32)>,
) -> (image: Option<HtmlImageTag>)
    ensures
        image is Some <==> attribute_text(found_view(*src)) is Some,
        image is Some ==> Some(image->0@) == image_of(
            attribute_text(found_view(*src)),
            attribute_text(found_view(*alt)),
            size,
        ),
{
    let source = attribute_of_groups(src)?;
    let text = match attribute_of_groups(alt) {
        Some(text) => text,
        None => String::new(),
    };
    Some(HtmlImageTag { src: source, alt: text, hinted_pixel_size: size })
}

/// The part of `text` in a byte range.
pub open spec fn text_in(text: Seq<char>, range: (usize, usize)) -> Seq<char> {
    text.subrange(chars_before(text, range.0 as int), chars_before(text, range.1 as int))
}

/// The images of the elements in the first `upto` ranges.
pub open spec fn images_in(
    html: Seq<char>,
    ranges: Seq<(usize, usize)>,
    upto: int,
    patterns: HtmlPatterns,
) -> Seq<HtmlImageView>
    decreases upto,
{
    if upto <= 0 {
        Seq::empty()
    } else {
        let before = images_in(html, ranges, upto - 1, patterns);
        match image_of_tag(text_in(html, ranges[upto - 1]), patterns) {
            Some(image) => before.push(image),
            None => before,
        }
    }
}

/// The images of a piece of HTML: those of its `<img>` elements that name a source, in order.
pub open spec fn html_images(html: Seq<char>, patterns: HtmlPatterns) -> Seq<HtmlImageView> {
    let ranges = match_ranges(patterns.img, html);
    images_in(html, ranges, ranges.len() as int, patterns)
}

proof fn lemma_first_capture(groups: Seq<Option<Seq<char>>>, from: int)
    ensures
        first_capture(groups, from) matches Some(text) ==> text.len() > 0,
    decreases groups.len() - from,
{
    if from < groups.len() {
        lemma_first_capture(groups, from + 1);
    }
}

/// Every image of a piece of HTML has a source, and a size is asked for in whole or not at all.
pub proof fn law_html_images_are_whole(
    html: Seq<char>,
    ranges: Seq<(usize, usize)>,
    upto: int,
    patterns: HtmlPatterns,
)
    ensures
        forall|i: int|
            0 <= i < images_in(html, ranges, upto, patterns).len() ==> {
                let image = #[trigger] images_in(html, ranges, upto, patterns)[i];
                &&& image.src.len() > 0
                &&& image.hinted_pixel_size matches Some((width, height)) ==> width > 0 && height
                    > 0
            },
    decreases upto,
{
    if upto > 0 {
        law_html_images_are_whole(html, ranges, upto - 1, patterns);
        let tag = text_in(html, ranges[upto - 1]);
        if let Some(groups) = captured_groups(patterns.src, tag) {
            lemma_first_capture(groups, 1);
        }
    }
}

/// The images of a piece of HTML: those of its `<img>` elements that name a source, in order.
pub fn extract_html_images(html: &str, patterns: &HtmlPatterns) -> (images: Vec<HtmlImageTag>)
    ensures
        html_images_view(images@) == html_images(html@, *patterns),
{
    let chars = chars_of(html);
    let ranges = find_ranges(&patterns.img, html);
    let mut images: Vec<HtmlImageTag> = Vec::new();
    let mut i: usize = 0;
    assert(html_images_view(images@) == Seq::<HtmlImageView>::empty());
    while i < ranges.len()
        invariant
            i <= ranges@.len(),
            chars@ == html@,
            forall|k: int| 0 <= k < ranges@.len() ==> (#[trigger] ranges@[k]).0 <= ranges@[k].1,
            html_images_view(images@) == images_in(html@, ranges@, i as int, *patterns),
        decreases ranges.len() - i,
    {
        let start = char_index_for_byte(&chars, ranges[i].0);
        let end = char_index_for_byte(&chars, ranges[i].1);
        proof {
            lemma_chars_before_monotonic(
                html@,
                ranges@[i as int].0 as int,
                ranges@[i as int].1 as int,
            );
        }
        let tag = string_of(&chars, start, end);
        assert(tag@ == text_in(html@, ranges@[i as int]));
        let src = captures(&patterns.src, tag.as_str());
        let alt = captures(&patterns.alt, tag.as_str());
        let size = parse_image_hint_from_tag(tag.as_str(), &patterns.width, &patterns.height);
        match image_of_groups(&src, &alt, size) {
            Some(image) => {
                let ghost before = images@;
                images.push(image);
                assert(html_images_view(images@) == html_images_view(before).push(image@));
            },
            None => {},
        }
        i += 1;
    }
    images
}

} // verus!
