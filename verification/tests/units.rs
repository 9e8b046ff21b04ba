use std::path::PathBuf;

use mdvi::chars::{decimal, parse_u32, repeat, split, trim};
use mdvi::code::extract_code_block_language_token;
use mdvi::highlight::apply_highlight_ranges;
use mdvi::html::{
    attribute_of_groups, compile_html_patterns, dimension_of_groups, extract_html_images,
    image_hint, image_of_groups, parse_html_dimension_attr,
};
use mdvi::inline_image::{image_rows, non_empty};
use mdvi::motion::{
    classify_motion_char, find_next_word_start, find_prev_word_start, WordMotionKind,
};
use mdvi::pattern::{compile_search, first_non_empty_capture_owned};
use mdvi::selection::{count_lines, mark_selection, select_block, select_text, Block};
use mdvi::source::{local_file_path, locate, resolve_image_source, ResolvedImageSource};
use mdvi::style::{Modifier, Style};
use mdvi::table::{cell_text_width, render_table, render_table_row, render_table_separator};
use mdvi::text::{line_plain_text, Line, Span};
use mdvi::variant::{
    image_resize_variant, CropOptions, ImageResizeMode, ImageResizeVariant, Rect, Resize,
    VariantCache, MAX_CACHED_IMAGE_VARIANTS,
};
use mdvi::width::{byte_index_for_column, column_for_byte_index};

fn group(text: &str) -> Option<String> {
    Some(text.to_string())
}

#[test]
fn texts_are_trimmed_split_and_repeated() {
    assert_eq!(trim(" \t a b\u{3000}"), "a b");
    assert_eq!(trim("  "), "");
    assert_eq!(split("a\n\nb\n", '\n'), vec!["a", "", "b", ""]);
    assert_eq!(split("", '\n'), vec![""]);
    assert_eq!(repeat("ab", 3), "ababab");
    assert_eq!(repeat("ab", 0), "");
}

#[test]
fn numbers_are_written_and_read() {
    assert_eq!(decimal(0), "0");
    assert_eq!(decimal(18446744073709551615), "18446744073709551615");
    assert_eq!(parse_u32("0042"), Some(42));
    assert_eq!(parse_u32("4294967295"), Some(4294967295));
    assert_eq!(parse_u32("4294967296"), None);
    assert_eq!(parse_u32(""), None);
    assert_eq!(parse_u32("1x"), None);
}

#[test]
fn language_tokens_are_cut_out_of_info_strings() {
    assert_eq!(extract_code_block_language_token("rust"), Some("rust"));
    assert_eq!(extract_code_block_language_token("  rust,ignore x"), Some("rust"));
    assert_eq!(extract_code_block_language_token("{.python .x}"), None);
    assert_eq!(extract_code_block_language_token("..rs.."), Some("rs"));
    assert_eq!(extract_code_block_language_token("c{1}"), Some("c"));
    assert_eq!(extract_code_block_language_token("   "), None);
    assert_eq!(extract_code_block_language_token("..."), None);
}

#[test]
fn wide_characters_take_two_columns() {
    assert_eq!(byte_index_for_column("가나다", 0), 0);
    assert_eq!(byte_index_for_column("가나다", 1), 0);
    assert_eq!(byte_index_for_column("가나다", 2), 3);
    assert_eq!(byte_index_for_column("가나다", 99), 9);
    assert_eq!(column_for_byte_index("가나다", 3), 2);
    assert_eq!(column_for_byte_index("가나다", 4), 4);
    assert_eq!(column_for_byte_index("a\u{301}b", 3), 2);
}

#[test]
fn columns_and_bytes_lead_back_to_each_other() {
    let text = "a가b다c";
    for column in 0..9 {
        let byte = byte_index_for_column(text, column);
        let back = column_for_byte_index(text, byte);
        assert!(back <= column);
        assert_eq!(byte_index_for_column(text, back), byte);
    }
}

#[test]
fn words_are_found_in_both_directions() {
    let text = "foo, bar_1 baz";
    let small = WordMotionKind::Small;
    let big = WordMotionKind::Big;
    assert_eq!(find_next_word_start(text, 0, small), Some(3));
    assert_eq!(find_next_word_start(text, 3, small), Some(5));
    assert_eq!(find_next_word_start(text, 0, big), Some(5));
    assert_eq!(find_next_word_start(text, 11, small), None);
    assert_eq!(find_prev_word_start(text, 5, small), Some(3));
    assert_eq!(find_prev_word_start(text, 5, big), Some(0));
    assert_eq!(find_prev_word_start(text, 0, small), Some(0));
    assert_eq!(find_prev_word_start("   ", 2, small), None);
    assert_eq!(find_prev_word_start("", 0, small), None);
    let next = find_next_word_start(text, 5, small).expect("a word");
    assert_eq!(find_prev_word_start(text, next, small), Some(5));
}

#[test]
fn characters_have_classes() {
    assert_eq!(classify_motion_char('\u{3000}', WordMotionKind::Small), 0);
    assert_eq!(classify_motion_char('é', WordMotionKind::Small), 1);
    assert_eq!(classify_motion_char('_', WordMotionKind::Small), 1);
    assert_eq!(classify_motion_char('-', WordMotionKind::Small), 2);
    assert_eq!(classify_motion_char('a', WordMotionKind::Big), 2);
}

#[test]
fn searches_take_the_query_literally() {
    let regex = compile_search("a.b(").expect("compiles");
    assert!(regex.is_match("xA.B(x"));
    assert!(!regex.is_match("axb("));
}

#[test]
fn the_first_group_with_text_counts() {
    let groups = vec![group("whole"), None, group(""), group("third")];
    assert_eq!(first_non_empty_capture_owned(&groups), group("third"));
    assert_eq!(first_non_empty_capture_owned(&vec![group("whole")]), None);
    assert_eq!(first_non_empty_capture_owned(&Vec::new()), None);
}

#[test]
fn attributes_become_dimensions() {
    let with = |text: &str| Some(vec![group("x"), group(text)]);
    assert_eq!(attribute_of_groups(&with("a")), group("a"));
    assert_eq!(attribute_of_groups(&None), None);
    assert_eq!(dimension_of_groups(&with("12")), Some(12));
    assert_eq!(dimension_of_groups(&with("0")), None);
    assert_eq!(dimension_of_groups(&with("99999999999")), None);
    assert_eq!(dimension_of_groups(&None), None);
    assert_eq!(image_hint(Some(1), Some(2)), Some((1, 2)));
    assert_eq!(image_hint(Some(1), None), None);
    assert_eq!(image_hint(Some(0), Some(2)), None);
}

#[test]
fn elements_become_images() {
    let src = Some(vec![group("x"), group("a.png")]);
    let image = image_of_groups(&src, &None, Some((1, 2))).expect("an image");
    assert_eq!(image.src, "a.png");
    assert_eq!(image.alt, "");
    assert_eq!(image.hinted_pixel_size, Some((1, 2)));
    assert!(image_of_groups(&None, &src, None).is_none());
}

#[test]
fn html_is_searched_for_images() {
    let patterns = compile_html_patterns().expect("patterns compile");
    let images = extract_html_images(
        "é<IMG SRC=a.png alt='x y'><p><img title=t><img src=\"b.png\" width=3 height=4>",
        &patterns,
    );
    assert_eq!(images.len(), 2);
    assert_eq!(images[0].src, "a.png");
    assert_eq!(images[0].alt, "x y");
    assert_eq!(images[1].src, "b.png");
    assert_eq!(images[1].hinted_pixel_size, Some((3, 4)));
    assert_eq!(parse_html_dimension_attr("<img width='7px'>", &patterns.width), Some(7));
    assert_eq!(parse_html_dimension_attr("<img width='7px'>", &patterns.height), None);
}

#[test]
fn highlighting_cuts_spans_where_ranges_begin_and_end() {
    let line = Line {
        spans: vec![
            Span::raw("abc".to_string()),
            Span::styled("def".to_string(), Style::new().add_modifier(Modifier::bold())),
        ],
    };
    let top = Style::new().add_modifier(Modifier::reversed());
    let out = apply_highlight_ranges(&line, &vec![(1, 2), (2, 5)], top);
    let parts: Vec<(&str, bool, bool)> = out
        .spans
        .iter()
        .map(|span| {
            (
                span.content.as_str(),
                span.style.add_modifier.reversed,
                span.style.add_modifier.bold,
            )
        })
        .collect();
    assert_eq!(
        parts,
        vec![
            ("a", false, false),
            ("b", true, false),
            ("c", true, false),
            ("de", true, true),
            ("f", false, true),
        ]
    );
    assert_eq!(line_plain_text(&out), "abcdef");
}

#[test]
fn highlighting_takes_ranges_in_the_given_order() {
    let top = Style::new().add_modifier(Modifier::reversed());
    let parts = |text: &str, ranges: Vec<(usize, usize)>| -> Vec<(String, bool)> {
        let line = Line { spans: vec![Span::raw(text.to_string())] };
        apply_highlight_ranges(&line, &ranges, top)
            .spans
            .iter()
            .map(|span| (span.content.clone(), span.style.add_modifier.reversed))
            .collect()
    };
    let expect = |pieces: &[(&str, bool)]| -> Vec<(String, bool)> {
        pieces.iter().map(|(text, marked)| (text.to_string(), *marked)).collect()
    };
    assert_eq!(parts("abcd", vec![]), expect(&[("abcd", false)]));
    assert_eq!(parts("", vec![(0, 0)]), expect(&[]));
    assert_eq!(parts("abcd", vec![(2, 2)]), expect(&[("ab", false), ("abcd", false)]));
    assert_eq!(
        parts("abcd", vec![(0, 3), (1, 2)]),
        expect(&[("abc", true), ("b", true), ("cd", false)])
    );
    assert_eq!(parts("abcd", vec![(2, 99), (0, 1)]), expect(&[("ab", false), ("cd", true)]));
    assert_eq!(
        parts("\u{e9}\u{ac00}x", vec![(2, 5)]),
        expect(&[("\u{e9}", false), ("\u{ac00}", true), ("x", false)])
    );
}

#[test]
fn tables_are_padded_and_ruled() {
    let cell = |text: &str| vec![Span::raw(text.to_string())];
    let header = vec![cell("a"), cell("bb")];
    let rows = vec![vec![cell("ccc")], vec![cell("d"), cell("e"), cell("f")]];
    let lines = render_table(&header, &rows);
    let texts: Vec<String> = lines.iter().map(line_plain_text).collect();
    assert_eq!(
        texts,
        vec!["a   │ bb │  ", "────┼────┼──", "ccc │    │  ", "d   │ e  │ f"]
    );
    assert!(render_table(&Vec::new(), &Vec::new()).is_empty());
    assert_eq!(cell_text_width(&cell("가")), 2);
    let row = render_table_row(&vec![cell("x")], &vec![3, 1], false);
    assert_eq!(line_plain_text(&row), "x   │  ");
    assert_eq!(line_plain_text(&render_table_separator(&vec![0, 2])), "──┼───");
}

#[test]
fn sources_are_told_apart() {
    let doc = PathBuf::from("/docs/readme.md");
    let resolve = |src: &str| resolve_image_source(&doc, src, None);
    assert!(resolve("   ").is_none());
    assert!(resolve("ftp://example.com/a.png").is_none());
    assert!(matches!(
        resolve(" http://x/y.png "),
        Some(ResolvedImageSource::Remote(url)) if url == "http://x/y.png"
    ));
    assert!(matches!(
        resolve("file:///abs/a.png"),
        Some(ResolvedImageSource::Local(path)) if path == PathBuf::from("/abs/a.png")
    ));
    assert!(matches!(
        resolve("/abs/b.png"),
        Some(ResolvedImageSource::Local(path)) if path == PathBuf::from("/abs/b.png")
    ));
    assert!(matches!(
        resolve("c.png"),
        Some(ResolvedImageSource::Local(path)) if path == PathBuf::from("/docs/c.png")
    ));
    assert!(matches!(
        resolve_image_source(&PathBuf::from("/"), "c.png", None),
        Some(ResolvedImageSource::Local(path)) if path == PathBuf::from("./c.png")
    ));
}

#[test]
fn file_addresses_may_lie_on_drives() {
    assert_eq!(local_file_path("/abs/a.png", None), "/abs/a.png");
    assert_eq!(local_file_path("/D:/a.png", Some("C:")), "D:/a.png");
    assert_eq!(local_file_path("///a.png", Some("C:")), "C:/a.png");
    assert_eq!(local_file_path("/é:/a", Some("C:")), "C:/é:/a");
}

#[test]
fn images_take_rows() {
    assert_eq!(image_rows(Some((160, 160)), (8, 16), 80), 10);
    assert_eq!(image_rows(Some((1708, 1040)), (8, 16), 80), 18);
    assert_eq!(image_rows(Some((900, 500)), (10, 20), 20), 6);
    assert_eq!(image_rows(Some((1, 1)), (8, 16), 80), 1);
    assert_eq!(image_rows(Some((100, 1)), (0, 0), 1), 1);
    assert_eq!(image_rows(Some((0, 5)), (8, 16), 80), 0);
    assert_eq!(image_rows(Some((5, 5)), (8, 16), 0), 0);
    assert_eq!(image_rows(None, (8, 16), 80), 0);
    assert_eq!(non_empty(Rect::new(1, 2, 0, 4)), None);
    assert_eq!(non_empty(Rect::new(1, 2, 3, 4)), Some(Rect::new(1, 2, 3, 4)));
}

#[test]
fn variants_follow_the_way_of_resizing() {
    let area = Rect::new(9, 9, 4, 5);
    let variant = |mode| ImageResizeVariant {
        width: 4,
        height: 5,
        mode,
    };
    assert_eq!(image_resize_variant(Resize::Fit, area), variant(ImageResizeMode::Fit));
    assert_eq!(image_resize_variant(Resize::Scale, area), variant(ImageResizeMode::Scale));
    assert_eq!(
        image_resize_variant(Resize::Crop(None), area),
        variant(ImageResizeMode::Crop {
            clip_top: false,
            clip_left: false
        })
    );
    assert_eq!(
        image_resize_variant(
            Resize::Crop(Some(CropOptions {
                clip_top: true,
                clip_left: true
            })),
            area
        ),
        variant(ImageResizeMode::Crop {
            clip_top: true,
            clip_left: true
        })
    );
}

#[test]
fn stores_are_ordered_and_bounded() {
    let picker = ratatui_image::picker::Picker::from_fontsize((8, 16));
    let encoder = || picker.new_resize_protocol(image::DynamicImage::new_rgb8(8, 16));
    let variant = |width| ImageResizeVariant {
        width,
        height: 1,
        mode: ImageResizeMode::Fit,
    };
    let mut store = VariantCache::new();
    for width in (1..=30).rev() {
        store.insert(variant(width), encoder());
    }
    store.insert(variant(30), encoder());
    assert_eq!(store.len(), 30);
    store.limit();
    assert_eq!(store.len(), MAX_CACHED_IMAGE_VARIANTS);
    assert!(!store.contains_key(&variant(6)));
    assert!(store.contains_key(&variant(7)));
    assert!(store.remove(variant(7)).is_some());
    assert!(store.remove(variant(7)).is_none());
    assert!(store.remove_first().is_some());
    assert!(!store.contains_key(&variant(8)));
    assert!(store.first().is_some());
    store.clear();
    assert!(store.first().is_none());
    assert!(store.remove_first().is_none());
}

#[test]
fn blocks_cut_texts_and_mark_lines() {
    let block = Block {
        row_start: 0,
        row_end: 9,
        column_start: 1,
        column_end: 4,
    };
    assert_eq!(select_text("abcdef", block), "bcd");
    assert_eq!(select_text("ab   ", block), "b");
    assert_eq!(select_text("a", block), "");
    assert_eq!(select_text("가나다", block), "가나");
    let lines = vec![Line::raw("abcdef"), Line::raw(""), Line::raw("xyz")];
    assert_eq!(select_block(&lines, block), "bcd\n\nyz");
    let marked = mark_selection(&lines[0], block);
    assert_eq!(line_plain_text(&marked), "abcdef");
    assert_eq!(marked.spans.len(), 3);
    assert!(marked.spans[1].style.add_modifier.reversed);
    assert!(marked.spans[1].style.add_modifier.bold);
    assert_eq!(marked.spans[1].content, "bcd");
}

#[test]
fn lines_of_texts_are_counted() {
    assert_eq!(count_lines(""), 0);
    assert_eq!(count_lines("a"), 1);
    assert_eq!(count_lines("a\n"), 1);
    assert_eq!(count_lines("a\n\nb"), 3);
    assert_eq!(count_lines("\n"), 1);
}

#[test]
fn paths_start_from_the_directory_of_the_document() {
    let name = || PathBuf::from("a.png");
    assert_eq!(locate(name(), true, Some(PathBuf::from("docs"))), name());
    assert_eq!(
        locate(name(), false, Some(PathBuf::from("docs"))),
        PathBuf::from("docs").join("a.png")
    );
    assert_eq!(locate(name(), false, None), PathBuf::from(".").join("a.png"));
}

#[test]
fn separators_stand_below_each_other() {
    let cell = |text: &str| vec![Span::raw(text.to_string())];
    let header = vec![cell("n"), cell("name")];
    let rows = vec![
        vec![cell("10"), cell("\u{ac00}\u{b098}")],
        vec![cell("1")],
        vec![cell("\u{4e00}"), cell("longer")],
    ];
    let lines = render_table(&header, &rows);
    let offsets: Vec<usize> = lines
        .iter()
        .map(|line| {
            let text = line_plain_text(line);
            let at = text.find(['\u{2502}', '\u{253c}']).expect("a separator");
            cell_text_width(&cell(&text[..at]))
        })
        .collect();
    assert_eq!(offsets, vec![3; lines.len()]);
    let widths: Vec<usize> = lines.iter().map(|line| cell_text_width(&line.spans)).collect();
    assert_eq!(widths, vec![11; lines.len()]);
}

#[test]
fn printable_ascii_is_one_column_wide() {
    assert_eq!(byte_index_for_column("plain text", 4), 4);
    assert_eq!(byte_index_for_column("plain text", 40), 10);
    assert_eq!(column_for_byte_index("plain text", 4), 4);
    assert_eq!(column_for_byte_index("plain text", 40), 10);
    assert_eq!(cell_text_width(&vec![Span::raw("~ !".to_string())]), 3);
}

#[test]
fn white_space_is_that_of_unicode() {
    let spaces = "\t\u{b}\r \u{85}\u{a0}\u{1680}\u{2000}\u{200a}\u{2028}\u{202f}\u{205f}\u{3000}";
    assert_eq!(trim(spaces), "");
    assert_eq!(trim("\u{200b}"), "\u{200b}");
    assert_eq!(trim("\u{180e}"), "\u{180e}");
}
