//! Where images and languages are looked for.
use std::path::PathBuf;
use vstd::prelude::*;

use crate::chars::{
    decimal_text, has_prefix, is_space, number_u32, stands_at, trimmed, trimmed_end,
    trimmed_start,
};
use crate::code::{first_word, language_token, leading_run, without_outer_dots};
use crate::html::{
    attribute_text, dimension, html_images, image_of, image_of_tag, images_in, size_hint,
    HtmlPatterns,
};
use crate::laws::basics::{law_decimal_is_read_back, law_trimming_takes_white_space_away};
use crate::pattern::{captured_groups, first_capture, match_ranges};
use crate::renderer::src_label;
use crate::source::{
    file_address_path, is_absolute_path, joined_path, parent_path, path_named, resolved_source,
    without_leading_slashes, SourceView,
};
use crate::width::{chars_before, utf8_len};

verus! {

/// Whether a text neither begins nor ends with white space.
pub open spec fn is_trim(text: Seq<char>) -> bool {
    text.len() > 0 ==> !is_space(text[0]) && !is_space(text.last())
}

proof fn lemma_trim(text: Seq<char>)
    requires
        is_trim(text),
    ensures
        trimmed(text) == text,
{
    assert(trimmed_end(text) == text);
    assert(trimmed_start(text) == text);
}

/// White space around the source of an image does not matter; a source of nothing else is none.
pub proof fn law_blanks_around_sources_are_ignored(
    document: PathBuf,
    src: Seq<char>,
    drive: Option<Seq<char>>,
)
    ensures
        resolved_source(document, src, drive) == resolved_source(document, trimmed(src), drive),
        trimmed(src).len() == 0 ==> resolved_source(document, src, drive) is None,
{
    law_trimming_takes_white_space_away(src);
    lemma_trim(trimmed(src));
}

/// Addresses of the web are loaded from there.
pub proof fn law_web_addresses_are_remote(
    document: PathBuf,
    rest: Seq<char>,
    secure: bool,
    drive: Option<Seq<char>>,
)
    requires
        rest.len() > 0 ==> !is_space(rest.last()),
    ensures
        ({
            let src = (if secure {
                "https://"@
            } else {
                "http://"@
            }) + rest;
            resolved_source(document, src, drive) == Some(SourceView::Remote(src))
        }),
{
    reveal_strlit("http://");
    reveal_strlit("https://");
    let scheme = if secure {
        "https://"@
    } else {
        "http://"@
    };
    let src = scheme + rest;
    assert(src[0] == 'h');
    assert(src.last() == if rest.len() > 0 {
        rest.last()
    } else {
        '/'
    });
    lemma_trim(src);
    assert(src.take(scheme.len() as int) =~= scheme);
}

/// A `file://` address names the path behind its two slashes. Where paths have drives, the slashes
/// at its front are left out, and it lies on the system drive unless it names one.
pub proof fn law_file_addresses_are_paths(
    document: PathBuf,
    rest: Seq<char>,
    drive: Option<Seq<char>>,
)
    requires
        rest.len() > 0 ==> !is_space(rest.last()),
    ensures
        resolved_source(document, "file://"@ + rest, drive) == Some(
            SourceView::Local(path_named(file_address_path(rest, drive))),
        ),
        file_address_path(rest, None) == rest,
        drive matches Some(letter) ==> {
            let path = without_leading_slashes(rest);
            &&& path.len() > 0 ==> path[0] != '/'
            &&& path.len() <= rest.len() && path == rest.skip(rest.len() - path.len())
            &&& forall|i: int|
                0 <= i < rest.len() - path.len() ==> #[trigger] rest[i] == '/'
            &&& path.len() >= 2 && utf8_len(path[0]) == 1 && path[1] == ':' ==> file_address_path(
                rest,
                drive,
            ) == path
            &&& path.len() < 2 || path[1] != ':' ==> file_address_path(rest, drive) == letter + "/"@
                + path
        },
{
    reveal_strlit("file://");
    reveal_strlit("http://");
    reveal_strlit("https://");
    let src = "file://"@ + rest;
    assert(src[0] == 'f');
    assert(src.last() == if rest.len() > 0 {
        rest.last()
    } else {
        '/'
    });
    lemma_trim(src);
    assert(src.take(7) =~= "file://"@);
    assert(src.skip(7) =~= rest);
    assert(!has_prefix(src, "http://"@)) by {
        if has_prefix(src, "http://"@) {
            assert(src.take(7)[0] == 'h');
        }
    }
    assert(!has_prefix(src, "https://"@)) by {
        if has_prefix(src, "https://"@) {
            assert(src.take(8)[0] == 'h');
        }
    }
    lemma_slashes(rest);
}

proof fn lemma_slashes(text: Seq<char>)
    ensures
        ({
            let path = without_leading_slashes(text);
            &&& path.len() > 0 ==> path[0] != '/'
            &&& path.len() <= text.len() && path == text.skip(text.len() - path.len())
            &&& forall|i: int| 0 <= i < text.len() - path.len() ==> #[trigger] text[i] == '/'
        }),
    decreases text.len(),
{
    let path = without_leading_slashes(text);
    if text.len() > 0 && text[0] == '/' {
        lemma_slashes(text.drop_first());
        assert(text.drop_first().skip(text.len() - 1 - path.len()) =~= text.skip(
            text.len() - path.len(),
        ));
        assert forall|i: int| 0 <= i < text.len() - path.len() implies #[trigger] text[i]
            == '/' by {
            if i > 0 {
                assert(text.drop_first()[i - 1] == text[i]);
            }
        }
    } else {
        assert(text.skip(0) =~= text);
    }
}

/// A source that is no address is a path: one that is not absolute starts from the directory of the
/// document. An address of any other kind cannot be loaded.
pub proof fn law_other_sources_are_paths(
    document: PathBuf,
    src: Seq<char>,
    drive: Option<Seq<char>>,
)
    requires
        src.len() > 0,
        is_trim(src),
        !has_prefix(src, "http://"@),
        !has_prefix(src, "https://"@),
        !has_prefix(src, "file://"@),
    ensures
        (exists|at: int| stands_at(src, "://"@, at)) ==> resolved_source(document, src, drive)
            is None,
        (forall|at: int| !stands_at(src, "://"@, at)) ==> ({
            let path = path_named(src);
            let found = resolved_source(document, src, drive);
            &&& is_absolute_path(path) ==> found == Some(SourceView::Local(path))
            &&& !is_absolute_path(path) && parent_path(document) is Some ==> found == Some(
                SourceView::Local(joined_path(parent_path(document)->0, path)),
            )
            &&& !is_absolute_path(path) && parent_path(document) is None ==> found == Some(
                SourceView::Local(joined_path(path_named("."@), path)),
            )
        }),
{
    lemma_trim(src);
}

/// A caption shows a source of up to 96 characters whole, and of a longer one the first 96 and three
/// dots.
pub proof fn law_long_sources_are_cut(src: Seq<char>)
    ensures
        src.len() <= 96 ==> src_label(src) == src,
        src.len() > 96 ==> src_label(src).len() == 99 && src_label(src).take(96) == src.take(96)
            && src_label(src).skip(96) == "..."@,
{
    reveal_strlit("...");
    if src.len() > 96 {
        assert(src_label(src).take(96) =~= src.take(96));
        assert(src_label(src).skip(96) =~= "..."@);
    }
}

proof fn lemma_run(text: Seq<char>, keep: spec_fn(char) -> bool)
    ensures
        0 <= leading_run(text, keep) <= text.len(),
        forall|i: int| 0 <= i < leading_run(text, keep) ==> keep(#[trigger] text[i]),
        leading_run(text, keep) < text.len() ==> !keep(text[leading_run(text, keep)]),
    decreases text.len(),
{
    if text.len() > 0 && keep(text[0]) {
        lemma_run(text.drop_first(), keep);
        assert forall|i: int| 0 <= i < leading_run(text, keep) implies keep(#[trigger] text[i]) by {
            if i > 0 {
                assert(text.drop_first()[i - 1] == text[i]);
            }
        }
    }
}

proof fn lemma_dots(text: Seq<char>) -> (bounds: (int, int))
    ensures
        0 <= bounds.0 <= bounds.1 <= text.len(),
        without_outer_dots(text) == text.subrange(bounds.0, bounds.1),
        forall|i: int| 0 <= i < bounds.0 ==> #[trigger] text[i] == '.',
        forall|i: int| bounds.1 <= i < text.len() ==> #[trigger] text[i] == '.',
        bounds.0 < bounds.1 ==> text[bounds.0] != '.' && text[bounds.1 - 1] != '.',
    decreases text.len(),
{
    if text.len() > 0 && text[0] == '.' {
        let (a, b) = lemma_dots(text.drop_first());
        assert(text.drop_first().subrange(a, b) =~= text.subrange(a + 1, b + 1));
        assert forall|i: int| 0 <= i < a + 1 implies #[trigger] text[i] == '.' by {
            if i > 0 {
                assert(text.drop_first()[i - 1] == text[i]);
            }
        }
        assert forall|i: int| b + 1 <= i < text.len() implies #[trigger] text[i] == '.' by {
            assert(text.drop_first()[i - 1] == text[i]);
        }
        (a + 1, b + 1)
    } else if text.len() > 0 && text.last() == '.' {
        let (a, b) = lemma_dots(text.drop_last());
        assert(text.drop_last().subrange(a, b) =~= text.subrange(a, b));
        assert forall|i: int| b <= i < text.len() implies #[trigger] text[i] == '.' by {
            if i < text.len() - 1 {
                assert(text.drop_last()[i] == text[i]);
            }
        }
        (a, b)
    } else {
        assert(text.subrange(0, text.len() as int) =~= text);
        (0, text.len() as int)
    }
}

/// Whether a character ends the name of a language.
pub open spec fn ends_language(c: char) -> bool {
    is_space(c) || c == ',' || c == '{'
}

/// Whether the name of a language stands in the text behind a fence from `first` to before `end`,
/// given where the word that it is in begins and ends: the word is the first one, up to a comma or
/// a brace, and the name is the word without the dots around it.
pub open spec fn is_language_at(info: Seq<char>, word: (int, int), name: (int, int)) -> bool {
    &&& 0 <= word.0 <= name.0 <= name.1 <= word.1 <= info.len()
    &&& forall|i: int| 0 <= i < word.0 ==> is_space(#[trigger] info[i])
    &&& word.0 < info.len() ==> !is_space(info[word.0])
    &&& forall|i: int| word.0 <= i < word.1 ==> !ends_language(#[trigger] info[i])
    &&& word.1 < info.len() ==> ends_language(info[word.1])
    &&& forall|i: int| word.0 <= i < name.0 ==> #[trigger] info[i] == '.'
    &&& forall|i: int| name.1 <= i < word.1 ==> #[trigger] info[i] == '.'
    &&& name.0 < name.1 ==> info[name.0] != '.' && info[name.1 - 1] != '.'
}

/// The language of a code block is the first word behind its fence, up to a comma or an opening
/// brace, without the dots around it.
pub proof fn law_languages_are_first_words(info: Seq<char>)
    ensures
        exists|word: (int, int), name: (int, int)|
            #[trigger] is_language_at(info, word, name) && language_token(info) == info.subrange(
                name.0,
                name.1,
            ),
{
    let rest = trimmed_start(info);
    crate::laws::basics::lemma_trimmed_start(info);
    let start = info.len() - rest.len();
    let no_space = |c: char| !is_space(c);
    let no_end = |c: char| c != ',' && c != '{';
    lemma_run(rest, no_space);
    let word = first_word(info);
    lemma_run(word, no_end);
    let size = leading_run(word, no_end);
    let bare = word.take(size);
    let (a, b) = lemma_dots(bare);
    let place = (start as int, start + size);
    let name = (start + a, start + b);
    assert forall|i: int| 0 <= i < rest.len() implies rest[i] == #[trigger] info[start + i] by {}
    assert forall|i: int| 0 <= i < word.len() implies word[i] == #[trigger] info[start + i] by {}
    assert(bare.subrange(a, b) =~= info.subrange(name.0, name.1));
    assert forall|i: int| place.0 <= i < place.1 implies !ends_language(#[trigger] info[i]) by {
        assert(no_space(rest[i - start]));
        assert(no_end(word[i - start]));
    }
    assert forall|i: int| place.0 <= i < name.0 implies #[trigger] info[i] == '.' by {
        assert(bare[i - start] == '.');
    }
    assert forall|i: int| name.1 <= i < place.1 implies #[trigger] info[i] == '.' by {
        assert(bare[i - start] == '.');
    }
    if place.1 < info.len() {
        if size < word.len() {
            assert(!no_end(word[size]));
        } else {
            assert(!no_space(rest[size]));
        }
    }
    if name.0 < name.1 {
        assert(bare[a] == info[start + a] && bare[b - 1] == info[start + b - 1]);
    }
    assert(is_language_at(info, place, name));
}

/// An attribute has the text of the first of its groups that captured any, the whole match left
/// aside.
pub proof fn law_attributes_have_the_first_text(groups: Seq<Option<Seq<char>>>, from: int)
    requires
        0 <= from,
    ensures
        first_capture(groups, from) matches Some(text) ==> text.len() > 0 && exists|k: int|
            {
                &&& from <= k < groups.len()
                &&& #[trigger] groups[k] == Some(text)
                &&& forall|l: int|
                    from <= l < k ==> (#[trigger] groups[l] is None || groups[l]->0.len() == 0)
            },
        first_capture(groups, from) is None ==> forall|l: int|
            from <= l < groups.len() ==> (#[trigger] groups[l] is None || groups[l]->0.len() == 0),
        from == 1 ==> attribute_text(Some(groups)) == first_capture(groups, 1),
        attribute_text(None) is None,
    decreases groups.len() - from,
{
    if from < groups.len() {
        law_attributes_have_the_first_text(groups, from + 1);
        if groups[from] is Some && groups[from]->0.len() > 0 {
            assert(groups[from] == first_capture(groups, from));
        } else if let Some(text) = first_capture(groups, from) {
            let k = choose|k: int|
                {
                    &&& from + 1 <= k < groups.len()
                    &&& #[trigger] groups[k] == Some(text)
                    &&& forall|l: int|
                        from + 1 <= l < k ==> (#[trigger] groups[l] is None || groups[l]->0.len()
                            == 0)
                };
            assert(groups[k] == Some(text));
        }
    }
}

/// An image of embedded HTML needs a source, and nothing else: its description may be missing, and
/// its size is known only where both sides are, and neither is zero.
pub proof fn law_html_images_need_a_source(
    src: Option<Seq<char>>,
    alt: Option<Seq<char>>,
    width: Option<u32>,
    height: Option<u32>,
    groups: Option<Seq<Option<Seq<char>>>>,
)
    ensures
        ({
            let size = size_hint(width, height);
            let image = image_of(src, alt, size);
            &&& image is Some <==> src is Some
            &&& image is Some ==> image->0.src == src->0 && image->0.hinted_pixel_size == size
            &&& image is Some && alt is Some ==> image->0.alt == alt->0
            &&& image is Some && alt is None ==> image->0.alt.len() == 0
            &&& size is Some <==> width is Some && height is Some && width != Some(0u32) && height
                != Some(0u32)
            &&& size matches Some((w, h)) ==> width == Some(w) && height == Some(h)
            &&& dimension(groups) is Some ==> dimension(groups)->0 > 0
            &&& attribute_text(groups) is None ==> dimension(groups) is None
        }),
{
}

/// A dimension is the number that its attribute writes in decimal, unless that is zero.
pub proof fn law_dimensions_are_numbers(groups: Option<Seq<Option<Seq<char>>>>, n: u32)
    ensures
        attribute_text(groups) == Some(decimal_text(n as nat)) && n > 0 ==> dimension(groups)
            == Some(n),
        attribute_text(groups) == Some(decimal_text(0)) ==> dimension(groups) is None,
        dimension(groups) matches Some(pixels) ==> attribute_text(groups) is Some && number_u32(
            attribute_text(groups)->0,
        ) == Some(pixels),
{
    law_decimal_is_read_back(n as nat);
    law_decimal_is_read_back(0);
}

/// An element gives an image by its attributes: the source, the description, and the size where both
/// the width and the height are given.
pub proof fn law_elements_give_images(tag: Seq<char>, patterns: HtmlPatterns)
    ensures
        ({
            let image = image_of_tag(tag, patterns);
            let src = attribute_text(captured_groups(patterns.src, tag));
            let alt = attribute_text(captured_groups(patterns.alt, tag));
            let width = dimension(captured_groups(patterns.width, tag));
            let height = dimension(captured_groups(patterns.height, tag));
            &&& image is Some <==> src is Some
            &&& image is Some ==> image->0.src == src->0
            &&& image is Some && alt is Some ==> image->0.alt == alt->0
            &&& image is Some && alt is None ==> image->0.alt.len() == 0
            &&& image is Some && width is Some && height is Some ==> image->0.hinted_pixel_size
                == Some((width->0, height->0))
            &&& image is Some && (width is None || height is None)
                ==> image->0.hinted_pixel_size is None
        }),
{
}

/// Element by element the images of embedded HTML are collected: each element adds its image behind
/// those before it, and an element without a source adds none.
pub proof fn law_html_images_are_collected_in_order(
    html: Seq<char>,
    ranges: Seq<(usize, usize)>,
    i: int,
    patterns: HtmlPatterns,
)
    requires
        0 <= i < ranges.len(),
    ensures
        ({
            let before = images_in(html, ranges, i, patterns);
            let after = images_in(html, ranges, i + 1, patterns);
            let tag = html.subrange(
                chars_before(html, ranges[i].0 as int),
                chars_before(html, ranges[i].1 as int),
            );
            &&& images_in(html, ranges, 0, patterns).len() == 0
            &&& after.len() >= before.len() && after.take(before.len() as int) == before
            &&& image_of_tag(tag, patterns) is None ==> after == before
            &&& image_of_tag(tag, patterns) matches Some(image) ==> after.len() == before.len() + 1
                && after.last() == image
        }),
        html_images(html, patterns) == images_in(
            html,
            match_ranges(patterns.img, html),
            match_ranges(patterns.img, html).len() as int,
            patterns,
        ),
{
    let before = images_in(html, ranges, i, patterns);
    let after = images_in(html, ranges, i + 1, patterns);
    assert(after.take(before.len() as int) =~= before);
}

} // verus!
