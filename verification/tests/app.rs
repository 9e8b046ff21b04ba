use std::collections::{BTreeMap, VecDeque};
use std::path::PathBuf;

use ratatui_image::picker::Picker;
use regex::RegexBuilder;

use mdvi::app::{App, CursorPosition, Mode};
use mdvi::highlight::highlight_lines;
use mdvi::inline_image::{ImageLoadState, InlineImage};
use mdvi::keys::{handle_key_event, KeyCode, KeyEvent, KeyModifiers};
use mdvi::loading::{
    ImageLoadJob, ImageLoadResult, ImageLoadResultPayload, ImageResizeResult,
    MAX_IMAGE_RESULTS_PER_TICK,
};
use mdvi::renderer::RenderedDoc;
use mdvi::screen::{protocol_override, ImageProtocol, ProtocolType};
use mdvi::source::{resolve_image_source, ResolvedImageSource};
use mdvi::style::{Modifier, Style};
use mdvi::text::{line_plain_text, Line, Span};
use mdvi::variant::{ImageResizeMode, ImageResizeVariant, Rect, Resize, VariantCache};

fn test_app(lines: usize) -> App {
    let mut doc_lines = Vec::with_capacity(lines);
    for idx in 0..lines {
        doc_lines.push(Line::raw(&format!("Line {}", idx + 1)));
    }

    App {
        file_path: PathBuf::from("test.md"),
        file_content: String::new(),
        doc: RenderedDoc {
            lines: doc_lines,
            images: Vec::new(),
        },
        picker: Picker::from_fontsize((8, 16)),
        images: Vec::new(),
        image_index_by_line: BTreeMap::new(),
        scroll: 0,
        status: String::new(),
        show_help: false,
        mode: Mode::Normal,
        search_query: None,
        search_regex: None,
        search_matches: Vec::new(),
        active_match: 0,
        cursor_row: 0,
        cursor_column: 0,
        focused_image: None,
        virtual_row_count_cache: BTreeMap::new(),
        highlighted_lines_cache: None,
        system_drive: None,
    }
}

fn line_text(line: &Line) -> String {
    line_plain_text(line)
}

fn app_with_image_for_navigation() -> App {
    let mut app = test_app(24);
    app.images = vec![InlineImage {
        line_index: 8,
        source: Some(ResolvedImageSource::Remote(
            "https://example.com/image.png".to_string(),
        )),
        state: None,
        scratch_state: None,
        active_variant: None,
        cached_variants: VariantCache::new(),
        resize_pending: false,
        pending_variant: None,
        has_encoded_state: false,
        pixel_size: None,
        hinted_pixel_size: Some((160, 160)),
        load_state: ImageLoadState::Loaded,
    }];
    app.image_index_by_line = BTreeMap::from([(8usize, 0usize)]);
    app
}

#[test]
fn scroll_clamps_to_bottom() {
    let mut app = test_app(100);
    app.scroll_down(1000, 20, 80);
    let max_scroll = app.max_scroll(20, 80);
    assert_eq!(app.scroll, max_scroll);
}

#[test]
fn max_scroll_cache_is_keyed_by_content_width() {
    let mut app = test_app(60);

    let _ = app.max_scroll(20, 80);
    let _ = app.max_scroll(20, 100);

    assert_eq!(app.virtual_row_count_cache.get(&80).copied(), Some(60));
    assert_eq!(app.virtual_row_count_cache.get(&100).copied(), Some(60));
    assert_eq!(app.virtual_row_count_cache.len(), 2);
}

#[test]
fn max_scroll_cache_invalidates_when_search_changes() {
    let mut app = test_app(20);
    let _ = app.max_scroll(10, 80);
    assert!(!app.virtual_row_count_cache.is_empty());

    app.search("not present", 10, 80);
    assert!(app.virtual_row_count_cache.is_empty());
}

#[test]
fn max_scroll_cache_invalidates_after_image_layout_update() {
    let mut results: VecDeque<ImageLoadResult> = VecDeque::new();
    let mut app = test_app(5);
    app.images = vec![InlineImage {
        line_index: 2,
        source: Some(ResolvedImageSource::Remote(
            "https://example.com/image.png".to_string(),
        )),
        state: None,
        scratch_state: None,
        active_variant: None,
        cached_variants: VariantCache::new(),
        resize_pending: false,
        pending_variant: None,
        has_encoded_state: false,
        pixel_size: None,
        hinted_pixel_size: None,
        load_state: ImageLoadState::Loading,
    }];
    app.image_index_by_line = BTreeMap::from([(2usize, 0usize)]);

    let _ = app.max_scroll(10, 80);
    assert!(!app.virtual_row_count_cache.is_empty());

    results.push_back(ImageLoadResult {
            image_index: 0,
            payload: ImageLoadResultPayload::LoadedImage(Some(image::DynamicImage::new_rgb8(
                320, 200,
            ))),
        });

    assert!(app.drain_image_results(&mut results));
    assert!(app.virtual_row_count_cache.is_empty());
}

#[test]
fn local_dimension_probes_are_queued_for_unhinted_local_images() {
    let mut app = test_app(2);
    app.images = vec![
        InlineImage {
            line_index: 0,
            source: Some(ResolvedImageSource::Local(PathBuf::from(
                "/tmp/image-a.png",
            ))),
            state: None,
            scratch_state: None,
            active_variant: None,
            cached_variants: VariantCache::new(),
            resize_pending: false,
            pending_variant: None,
            has_encoded_state: false,
            pixel_size: None,
            hinted_pixel_size: None,
            load_state: ImageLoadState::NotRequested,
        },
        InlineImage {
            line_index: 1,
            source: Some(ResolvedImageSource::Remote(
                "https://example.com/image-b.png".to_string(),
            )),
            state: None,
            scratch_state: None,
            active_variant: None,
            cached_variants: VariantCache::new(),
            resize_pending: false,
            pending_variant: None,
            has_encoded_state: false,
            pixel_size: None,
            hinted_pixel_size: None,
            load_state: ImageLoadState::NotRequested,
        },
    ];

    let requests = app.request_local_dimension_probes();

    assert_eq!(requests.len(), 1);
    let request = &requests[0];
    assert_eq!(request.image_index, 0);
    match &request.job {
        ImageLoadJob::ProbeLocalDimensions(path) => {
            assert_eq!(path, &PathBuf::from("/tmp/image-a.png"));
        }
        ImageLoadJob::LoadImage(_) => panic!("expected dimension probe request"),
    }
}

#[test]
fn probe_results_update_hints_and_invalidate_cache() {
    let mut results: VecDeque<ImageLoadResult> = VecDeque::new();
    let mut app = test_app(2);
    app.images = vec![InlineImage {
        line_index: 0,
        source: Some(ResolvedImageSource::Local(PathBuf::from(
            "/tmp/image-c.png",
        ))),
        state: None,
        scratch_state: None,
        active_variant: None,
        cached_variants: VariantCache::new(),
        resize_pending: false,
        pending_variant: None,
        has_encoded_state: false,
        pixel_size: None,
        hinted_pixel_size: None,
        load_state: ImageLoadState::NotRequested,
    }];
    app.virtual_row_count_cache.insert(80, 20);

    results.push_back(ImageLoadResult {
            image_index: 0,
            payload: ImageLoadResultPayload::ProbedDimensions(Some((640, 360))),
        });

    assert!(app.drain_image_results(&mut results));
    assert_eq!(app.images[0].hinted_pixel_size, Some((640, 360)));
    assert_eq!(app.images[0].load_state, ImageLoadState::NotRequested);
    assert!(app.virtual_row_count_cache.is_empty());
}

#[test]
fn drain_image_results_limits_per_tick() {
    let mut results: VecDeque<ImageLoadResult> = VecDeque::new();
    let mut app = test_app(8);
    app.images = (0..8)
        .map(|line_index| InlineImage {
            line_index,
            source: Some(ResolvedImageSource::Remote(
                "https://example.com/image.png".to_string(),
            )),
            state: None,
            scratch_state: None,
            active_variant: None,
            cached_variants: VariantCache::new(),
            resize_pending: false,
            pending_variant: None,
            has_encoded_state: false,
            pixel_size: None,
            hinted_pixel_size: None,
            load_state: ImageLoadState::Loading,
        })
        .collect();

    for image_index in 0..8 {
        results.push_back(ImageLoadResult {
                image_index,
                payload: ImageLoadResultPayload::LoadedImage(Some(
                    image::DynamicImage::new_rgb8(320, 200),
                )),
            });
    }

    assert!(app.drain_image_results(&mut results));
    let loaded_count = app
        .images
        .iter()
        .filter(|image| image.load_state == ImageLoadState::Loaded)
        .count();
    assert_eq!(loaded_count, MAX_IMAGE_RESULTS_PER_TICK);
}

#[test]
fn request_image_resize_moves_work_off_ui_thread() {
    let mut app = test_app(1);
    app.images = vec![InlineImage {
        line_index: 0,
        source: Some(ResolvedImageSource::Remote(
            "https://example.com/image.png".to_string(),
        )),
        state: Some(
            app.picker
                .new_resize_protocol(image::DynamicImage::new_rgb8(320, 200)),
        ),
        scratch_state: Some(
            app.picker
                .new_resize_protocol(image::DynamicImage::new_rgb8(320, 200)),
        ),
        active_variant: None,
        cached_variants: VariantCache::new(),
        resize_pending: false,
        pending_variant: None,
        has_encoded_state: false,
        pixel_size: Some((320, 200)),
        hinted_pixel_size: None,
        load_state: ImageLoadState::Loaded,
    }];

    let request = app.request_image_resize(0, Rect::new(0, 0, 40, 10), Resize::Fit);

    assert!(app.images[0].resize_pending);
    assert!(app.images[0].state.is_some());
    assert_eq!(
        app.images[0].pending_variant,
        Some(ImageResizeVariant {
            width: 32,
            height: 10,
            mode: ImageResizeMode::Fit,
        })
    );
    let request = request.expect("resize request should be handed out");
    assert_eq!(request.image_index, 0);
}

#[test]
fn resize_results_restore_render_state() {
    let mut results: VecDeque<ImageResizeResult> = VecDeque::new();
    let mut app = test_app(1);
    app.images = vec![InlineImage {
        line_index: 0,
        source: Some(ResolvedImageSource::Remote(
            "https://example.com/image.png".to_string(),
        )),
        state: None,
        scratch_state: None,
        active_variant: None,
        cached_variants: VariantCache::new(),
        resize_pending: true,
        pending_variant: Some(ImageResizeVariant {
            width: 40,
            height: 10,
            mode: ImageResizeMode::Fit,
        }),
        has_encoded_state: true,
        pixel_size: Some((320, 200)),
        hinted_pixel_size: None,
        load_state: ImageLoadState::Loaded,
    }];

    results.push_back(ImageResizeResult {
            image_index: 0,
            variant: ImageResizeVariant {
                width: 40,
                height: 10,
                mode: ImageResizeMode::Fit,
            },
            protocol: app
                .picker
                .new_resize_protocol(image::DynamicImage::new_rgb8(320, 200)),
        });

    assert!(app.drain_image_resize_results(&mut results));
    assert!(!app.images[0].resize_pending);
    assert!(app.images[0].state.is_some());
}

#[test]
fn request_image_resize_uses_cached_variant_without_queueing() {
    let mut app = test_app(1);
    let cached_variant = ImageResizeVariant {
        width: 32,
        height: 10,
        mode: ImageResizeMode::Fit,
    };
    let mut cached_variants = VariantCache::new();
    cached_variants.insert(
        cached_variant,
        app.picker
            .new_resize_protocol(image::DynamicImage::new_rgb8(320, 200)),
    );
    app.images = vec![InlineImage {
        line_index: 0,
        source: Some(ResolvedImageSource::Remote(
            "https://example.com/image.png".to_string(),
        )),
        state: Some(
            app.picker
                .new_resize_protocol(image::DynamicImage::new_rgb8(320, 200)),
        ),
        scratch_state: Some(
            app.picker
                .new_resize_protocol(image::DynamicImage::new_rgb8(320, 200)),
        ),
        active_variant: None,
        cached_variants,
        resize_pending: false,
        pending_variant: None,
        has_encoded_state: false,
        pixel_size: Some((320, 200)),
        hinted_pixel_size: None,
        load_state: ImageLoadState::Loaded,
    }];

    let request = app.request_image_resize(0, Rect::new(0, 0, 40, 10), Resize::Fit);

    assert_eq!(app.images[0].active_variant, Some(cached_variant));
    assert!(app.images[0].state.is_some());
    assert!(request.is_none());
}

#[test]
fn resize_result_for_pending_variant_becomes_active_immediately() {
    let mut results: VecDeque<ImageResizeResult> = VecDeque::new();
    let mut app = test_app(1);
    let previous_variant = ImageResizeVariant {
        width: 32,
        height: 10,
        mode: ImageResizeMode::Fit,
    };
    let pending_variant = ImageResizeVariant {
        width: 32,
        height: 9,
        mode: ImageResizeMode::Crop {
            clip_top: true,
            clip_left: false,
        },
    };
    app.images = vec![InlineImage {
        line_index: 0,
        source: Some(ResolvedImageSource::Remote(
            "https://example.com/image.png".to_string(),
        )),
        state: Some(
            app.picker
                .new_resize_protocol(image::DynamicImage::new_rgb8(320, 200)),
        ),
        scratch_state: None,
        active_variant: Some(previous_variant),
        cached_variants: VariantCache::new(),
        resize_pending: true,
        pending_variant: Some(pending_variant),
        has_encoded_state: true,
        pixel_size: Some((320, 200)),
        hinted_pixel_size: None,
        load_state: ImageLoadState::Loaded,
    }];

    results.push_back(ImageResizeResult {
            image_index: 0,
            variant: pending_variant,
            protocol: app
                .picker
                .new_resize_protocol(image::DynamicImage::new_rgb8(320, 200)),
        });

    assert!(app.drain_image_resize_results(&mut results));
    assert_eq!(app.images[0].active_variant, Some(pending_variant));
    assert!(app.images[0]
        .cached_variants
        .contains_key(&previous_variant));
}

#[test]
fn scroll_up_saturates() {
    let mut app = test_app(50);
    app.scroll = 10;
    app.cursor_row = 10;
    app.scroll_up(500, 20, 80);
    assert_eq!(app.scroll, 0);
    assert_eq!(app.cursor_row, 0);
}

#[test]
fn scroll_down_focuses_image_then_jumps_past() {
    let mut app = app_with_image_for_navigation();
    let viewport_height = 10;
    let content_width = 80;

    app.scroll = 3;
    app.cursor_row = 8;
    app.scroll_down_with_image_focus(viewport_height, content_width);
    assert_eq!(app.cursor_row, 9);
    assert_eq!(app.scroll, 3);
    assert_eq!(app.focused_image, Some(0));

    app.scroll_down_with_image_focus(viewport_height, content_width);
    assert_eq!(app.cursor_row, 19);
    assert_eq!(app.scroll, 10);
    assert_eq!(app.focused_image, None);
}

#[test]
fn scroll_up_focuses_image_then_jumps_before() {
    let mut app = app_with_image_for_navigation();
    let viewport_height = 10;
    let content_width = 80;

    app.scroll = 10;
    app.cursor_row = 19;
    app.scroll_up_with_image_focus(viewport_height, content_width);
    assert_eq!(app.cursor_row, 18);
    assert_eq!(app.scroll, 10);
    assert_eq!(app.focused_image, Some(0));

    app.scroll_up_with_image_focus(viewport_height, content_width);
    assert_eq!(app.cursor_row, 8);
    assert_eq!(app.scroll, 8);
    assert_eq!(app.focused_image, None);
}

#[test]
fn search_finds_and_jumps_to_first_match() {
    let mut app = test_app(20);
    app.doc.lines[5] = Line::raw("alpha keyword");
    app.doc.lines[12] = Line::raw("beta keyword");

    app.search("keyword", 10, 80);
    assert_eq!(app.search_matches, vec![5, 12]);
    assert_eq!(app.scroll, 5);
    assert_eq!(app.cursor_row, 5);
}

#[test]
fn next_match_wraps_around() {
    let mut app = test_app(30);
    app.search_matches = vec![3, 8];
    app.active_match = 1;

    app.jump_next_match(10, 80);
    assert_eq!(app.active_match, 0);
    assert_eq!(app.scroll, 3);
    assert_eq!(app.cursor_row, 3);
}

#[test]
fn highlighted_lines_cache_reuses_when_search_state_is_unchanged() {
    let mut app = test_app(6);
    app.doc.lines[2] = Line::raw("alpha keyword");
    app.search("keyword", 10, 80);

    let _ = app.highlighted_lines();
    assert!(app.highlighted_lines_cache.is_some());

    app.doc.lines[2] = Line::raw("mutated but cache should still be reused");
    let highlighted = app.highlighted_lines();
    assert_eq!(line_text(&highlighted[2]), "alpha keyword");
}

#[test]
fn highlighted_lines_cache_tracks_active_match_line() {
    let mut app = test_app(20);
    app.doc.lines[5] = Line::raw("alpha keyword");
    app.doc.lines[12] = Line::raw("beta keyword");
    app.search("keyword", 10, 80);

    let _ = app.highlighted_lines();
    assert_eq!(
        app.highlighted_lines_cache
            .as_ref()
            .and_then(|cache| cache.active_match_line),
        Some(5)
    );

    app.jump_next_match(10, 80);
    let _ = app.highlighted_lines();
    assert_eq!(
        app.highlighted_lines_cache
            .as_ref()
            .and_then(|cache| cache.active_match_line),
        Some(12)
    );
}

#[test]
fn ctrl_f_and_ctrl_b_scroll_full_page() {
    let mut app = test_app(200);
    let viewport_height = 20;
    let full_page = 20;
    let half_page = 10;

    let _ = handle_key_event(
        &mut app,
        KeyEvent::new(KeyCode::Char('f'), KeyModifiers::control()),
        viewport_height,
        80,
        half_page,
        full_page,
    );
    assert_eq!(app.scroll, 20);

    let _ = handle_key_event(
        &mut app,
        KeyEvent::new(KeyCode::Char('b'), KeyModifiers::control()),
        viewport_height,
        80,
        half_page,
        full_page,
    );
    assert_eq!(app.scroll, 0);
}

#[test]
fn d_and_u_scroll_half_page_without_ctrl() {
    let mut app = test_app(200);
    let viewport_height = 20;
    let full_page = 20;
    let half_page = 10;

    let _ = handle_key_event(
        &mut app,
        KeyEvent::new(KeyCode::Char('d'), KeyModifiers::none()),
        viewport_height,
        80,
        half_page,
        full_page,
    );
    assert_eq!(app.scroll, 10);

    let _ = handle_key_event(
        &mut app,
        KeyEvent::new(KeyCode::Char('u'), KeyModifiers::none()),
        viewport_height,
        80,
        half_page,
        full_page,
    );
    assert_eq!(app.scroll, 0);
}

#[test]
fn h_and_l_move_cursor_column_within_current_line() {
    let mut app = test_app(20);
    app.scroll = 1;
    app.cursor_row = 10;
    let viewport_height = 20;
    let full_page = 20;
    let half_page = 10;
    let cursor_doc_line = app.cursor_doc_line_for_navigation(80);
    app.doc.lines[cursor_doc_line] = Line::raw("abcdef");

    let _ = handle_key_event(
        &mut app,
        KeyEvent::new(KeyCode::Char('l'), KeyModifiers::none()),
        viewport_height,
        80,
        half_page,
        full_page,
    );
    let _ = handle_key_event(
        &mut app,
        KeyEvent::new(KeyCode::Right, KeyModifiers::none()),
        viewport_height,
        80,
        half_page,
        full_page,
    );
    assert_eq!(app.cursor_column, 2);

    let _ = handle_key_event(
        &mut app,
        KeyEvent::new(KeyCode::Char('h'), KeyModifiers::none()),
        viewport_height,
        80,
        half_page,
        full_page,
    );
    assert_eq!(app.cursor_column, 1);
}

#[test]
fn cursor_column_clamps_to_line_width() {
    let mut app = test_app(20);
    app.scroll = 1;
    app.cursor_row = 10;
    let viewport_height = 20;
    let full_page = 20;
    let half_page = 10;
    let cursor_doc_line = app.cursor_doc_line_for_navigation(80);
    app.doc.lines[cursor_doc_line] = Line::raw("abc");

    for _ in 0..10 {
        let _ = handle_key_event(
            &mut app,
            KeyEvent::new(KeyCode::Char('l'), KeyModifiers::none()),
            viewport_height,
            80,
            half_page,
            full_page,
        );
    }

    assert_eq!(app.cursor_column, 2);
    assert_eq!(app.effective_cursor_column_for_line(cursor_doc_line), 2);
}

#[test]
fn initial_cursor_starts_at_top_of_document() {
    let app = test_app(20);
    assert_eq!(app.scroll, 0);
    assert_eq!(app.cursor_row, 0);
    assert_eq!(app.cursor_column, 0);
}

#[test]
fn w_and_b_move_by_small_words() {
    let mut app = test_app(5);
    app.doc.lines[0] = Line::raw("alpha, beta gamma");
    let viewport_height = 10;
    let full_page = 10;
    let half_page = 5;

    let _ = handle_key_event(
        &mut app,
        KeyEvent::new(KeyCode::Char('w'), KeyModifiers::none()),
        viewport_height,
        80,
        half_page,
        full_page,
    );
    assert_eq!(app.cursor_column, 5);

    let _ = handle_key_event(
        &mut app,
        KeyEvent::new(KeyCode::Char('w'), KeyModifiers::none()),
        viewport_height,
        80,
        half_page,
        full_page,
    );
    assert_eq!(app.cursor_column, 7);

    let _ = handle_key_event(
        &mut app,
        KeyEvent::new(KeyCode::Char('b'), KeyModifiers::none()),
        viewport_height,
        80,
        half_page,
        full_page,
    );
    assert_eq!(app.cursor_column, 5);
}

#[test]
fn big_word_motions_move_across_whitespace_delimited_words() {
    let mut app = test_app(5);
    app.doc.lines[0] = Line::raw("alpha, beta gamma");
    let viewport_height = 10;
    let full_page = 10;
    let half_page = 5;

    let _ = handle_key_event(
        &mut app,
        KeyEvent::new(KeyCode::Char('W'), KeyModifiers::shift()),
        viewport_height,
        80,
        half_page,
        full_page,
    );
    assert_eq!(app.cursor_column, 7);

    let _ = handle_key_event(
        &mut app,
        KeyEvent::new(KeyCode::Char('B'), KeyModifiers::shift()),
        viewport_height,
        80,
        half_page,
        full_page,
    );
    assert_eq!(app.cursor_column, 0);
}

#[test]
fn cursor_clamps_to_visible_end_of_line_without_trailing_whitespace() {
    let mut app = test_app(5);
    app.doc.lines[0] = Line::raw("alpha      ");
    let viewport_height = 10;
    let full_page = 10;
    let half_page = 5;

    for _ in 0..16 {
        let _ = handle_key_event(
            &mut app,
            KeyEvent::new(KeyCode::Char('l'), KeyModifiers::none()),
            viewport_height,
            80,
            half_page,
            full_page,
        );
    }

    assert_eq!(app.cursor_column, 4);
    assert_eq!(app.effective_cursor_column_for_line(0), 4);
}

#[test]
fn visual_block_selection_extracts_rectangular_text() {
    let mut app = test_app(3);
    app.doc.lines[0] = Line::raw("alpha beta");
    app.doc.lines[1] = Line::raw("bravo beta");
    app.cursor_row = 1;
    app.cursor_column = 3;
    app.mode = Mode::VisualBlock(CursorPosition { row: 0, column: 1 });

    let selected = app
        .visual_selection_text(80)
        .expect("visual selection text should exist");

    assert_eq!(selected, "lph\nrav");
}

#[test]
fn search_highlight_applies_reverse_modifier() {
    let regex = RegexBuilder::new(&regex::escape("mdvi"))
        .case_insensitive(true)
        .build()
        .expect("regex should compile");
    let line = Line { spans: vec![
        Span::styled("hello ".to_string(), Style::default()),
        Span::styled(
            "mdvi".to_string(),
            Style::default().add_modifier(Modifier::bold()),
        ),
        Span::styled(" world".to_string(), Style::default()),
    ] };

    let highlighted = highlight_lines(&vec![line], &regex, Some(0));
    let spans = &highlighted[0].spans;
    let mdvi_span = spans
        .iter()
        .find(|span| span.content == "mdvi")
        .expect("highlighted span exists");

    assert!(mdvi_span.style.add_modifier.contains(Modifier::reversed()));
}

#[test]
fn resolve_image_source_supports_https_urls() {
    let source = resolve_image_source(
        &PathBuf::from("/tmp/doc.md"),
        "https://example.com/assets/preview.png",
        None,
    )
    .expect("should resolve");
    match source {
        ResolvedImageSource::Remote(url) => {
            assert_eq!(url, "https://example.com/assets/preview.png")
        }
        ResolvedImageSource::Local(_) => panic!("expected remote source"),
    }
}

#[test]
fn resolve_image_source_resolves_relative_local_paths() {
    let source =
        resolve_image_source(&PathBuf::from("/tmp/docs/readme.md"), "images/diagram.png", None)
            .unwrap();
    match source {
        ResolvedImageSource::Local(path) => {
            assert_eq!(path, PathBuf::from("/tmp/docs/images/diagram.png"));
        }
        ResolvedImageSource::Remote(_) => panic!("expected local source"),
    }
}

#[test]
fn image_protocol_override_mapping() {
    assert_eq!(protocol_override(ImageProtocol::Auto), None);
    assert_eq!(
        protocol_override(ImageProtocol::Halfblocks),
        Some(ProtocolType::Halfblocks)
    );
    assert_eq!(
        protocol_override(ImageProtocol::Sixel),
        Some(ProtocolType::Sixel)
    );
    assert_eq!(
        protocol_override(ImageProtocol::Kitty),
        Some(ProtocolType::Kitty)
    );
    assert_eq!(
        protocol_override(ImageProtocol::Iterm2),
        Some(ProtocolType::Iterm2)
    );
}

#[test]
fn image_height_uses_html_hint_before_image_load() {
    let app = test_app(1);
    let image = InlineImage {
        line_index: 0,
        source: Some(ResolvedImageSource::Remote(
            "https://example.com/image.png".to_string(),
        )),
        state: None,
        scratch_state: None,
        active_variant: None,
        cached_variants: VariantCache::new(),
        resize_pending: false,
        pending_variant: None,
        has_encoded_state: false,
        pixel_size: None,
        hinted_pixel_size: Some((1708, 1040)),
        load_state: ImageLoadState::NotRequested,
    };

    assert!(app.image_height_for(&image, 80) > 0);
}

#[test]
fn image_height_collapses_after_failed_load_without_hint() {
    let app = test_app(1);
    let image = InlineImage {
        line_index: 0,
        source: Some(ResolvedImageSource::Remote(
            "https://example.com/image.png".to_string(),
        )),
        state: None,
        scratch_state: None,
        active_variant: None,
        cached_variants: VariantCache::new(),
        resize_pending: false,
        pending_variant: None,
        has_encoded_state: false,
        pixel_size: None,
        hinted_pixel_size: None,
        load_state: ImageLoadState::Failed,
    };

    assert_eq!(app.image_height_for(&image, 80), 0);
}