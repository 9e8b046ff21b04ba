use std::collections::VecDeque;
use std::path::PathBuf;

use image::DynamicImage;
use ratatui_image::picker::Picker;
use ratatui_image::ResizeEncodeRender;

use mdvi::app::{App, CursorPosition, ImageRenderPlan, Mode};
use mdvi::inline_image::ImageLoadState;
use mdvi::keys::{
    handle_key_event, key_action, KeyAction, KeyCode, KeyEvent, KeyModifiers, KeyOutcome,
};
use mdvi::loading::{
    answer_with_bytes, answer_with_image, encode, ImageLoadJob, ImageLoadResult, ImageLoadResultPayload, ImageResizeResult,
    MAX_IMAGE_RESULTS_PER_TICK,
};
use mdvi::motion::WordMotionKind;
use mdvi::screen::{
    chosen_protocol, needs_redraw, place_image, place_page_cursor, place_query_cursor, viewport_for,
    ImageContent, ImageProtocol, ProtocolType, ScreenEvent, DEFAULT_CELL_PIXELS, HELP_TEXT,
};
use mdvi::source::ResolvedImageSource;
use mdvi::text::line_plain_text;
use mdvi::variant::{CropOptions, Rect, Resize};

fn open(content: &str) -> App {
    let (app, _) = App::new(
        PathBuf::from("/docs/test.md"),
        content.to_string(),
        1,
        Picker::from_fontsize((8, 16)),
        None,
    )
    .expect("opens");
    app
}

fn press(app: &mut App, code: KeyCode) -> KeyOutcome {
    handle_key_event(app, KeyEvent::new(code, KeyModifiers::none()), 10, 80, 5, 10)
}

fn press_control(app: &mut App, c: char) -> KeyOutcome {
    handle_key_event(
        app,
        KeyEvent::new(KeyCode::Char(c), KeyModifiers::control()),
        10,
        80,
        5,
        10,
    )
}

fn type_text(app: &mut App, text: &str) {
    for c in text.chars() {
        press(app, KeyCode::Char(c));
    }
}

fn numbered(lines: usize) -> String {
    (1..=lines)
        .map(|n| format!("line {n}  \n"))
        .collect::<String>()
}

#[test]
fn opening_tells_what_there_is() {
    let app = open("one  \ntwo");
    assert_eq!(app.status, "2 lines");
    assert_eq!(app.scroll, 0);
    let app = open("![a](a.png)");
    assert_eq!(app.status, "2 lines, 1 images (lazy load)");
    assert_eq!(app.images[0].line_index, 1);
    assert_eq!(app.image_index_by_line.get(&1), Some(&0));
    assert_eq!(app.images[0].load_state, ImageLoadState::NotRequested);
    let app = open("![a](ftp://a.png)");
    assert_eq!(app.images[0].load_state, ImageLoadState::Failed);
    assert!(app.images[0].source.is_none());
}

#[test]
fn opening_starts_at_a_line_and_asks_for_sizes() {
    let (app, requests) = App::new(
        PathBuf::from("/docs/test.md"),
        "![a](a.png)\n\n<img src='b.png' width=1 height=2>\n\n![c](https://x/c.png)".to_string(),
        7,
        Picker::from_fontsize((8, 16)),
        None,
    )
    .expect("opens");
    assert_eq!(app.scroll, 6);
    assert_eq!(app.cursor_row, 6);
    assert_eq!(requests.len(), 1);
    assert_eq!(requests[0].image_index, 0);
    assert!(matches!(
        &requests[0].job,
        ImageLoadJob::ProbeLocalDimensions(path) if path == &PathBuf::from("/docs/a.png")
    ));
}

#[test]
fn reloading_takes_a_new_document_and_searches_on() {
    let mut app = open("alpha  \nbeta");
    app.search("beta", 10, 80);
    assert_eq!(app.search_matches, vec![1]);
    let requests = app.reload(Ok("beta  \nalpha  \nbeta".to_string()));
    assert!(requests.is_some());
    assert_eq!(app.search_matches, vec![0, 2]);
    assert_eq!(app.status, "reloaded /docs/test.md");
    assert_eq!(app.file_content, "beta  \nalpha  \nbeta");
    assert!(app.reload(Ok("![a](a.png)".to_string())).expect("reloads").len() == 1);
    assert_eq!(app.status, "reloaded /docs/test.md (1 images, lazy load)");
}

#[test]
fn failed_reloads_keep_the_document() {
    let mut app = open("alpha");
    assert!(app.reload(Err("gone".to_string())).is_none());
    assert_eq!(app.status, "reload failed: gone");
    assert_eq!(app.file_content, "alpha");
}

#[test]
fn searching_finds_every_line_and_wraps() {
    let mut app = open("Ab  \nx  \naB  \nab ab");
    app.search("ab", 10, 80);
    assert_eq!(app.search_matches, vec![0, 2, 3]);
    assert_eq!(app.status, "3 matches for /ab");
    app.jump_next_match(10, 80);
    app.jump_next_match(10, 80);
    assert_eq!(app.active_match, 2);
    app.jump_next_match(10, 80);
    assert_eq!(app.active_match, 0);
    app.jump_prev_match(10, 80);
    assert_eq!(app.active_match, 2);
    assert_eq!(app.cursor_row, 3);
    app.search("zzz", 10, 80);
    assert_eq!(app.status, "no matches for /zzz");
    app.jump_next_match(10, 80);
    assert_eq!(app.status, "no active search results");
    app.search("", 10, 80);
    assert_eq!(app.status, "search cleared");
    assert!(app.search_regex.is_none());
}

#[test]
fn queries_that_are_too_long_are_refused() {
    let mut app = open("text");
    app.search(&"é".repeat(1_000_000), 10, 80);
    assert!(app.status.starts_with("invalid search: "));
    assert!(app.status.len() > "invalid search: ".len());
    assert!(app.search_regex.is_none());
}

#[test]
fn queries_are_typed_and_erased() {
    let mut app = open("alpha  \nquick");
    press(&mut app, KeyCode::Char('/'));
    assert!(matches!(&app.mode, Mode::SearchInput(query) if query.is_empty()));
    type_text(&mut app, "qux");
    press(&mut app, KeyCode::Backspace);
    press_control(&mut app, 'q');
    assert!(matches!(&app.mode, Mode::SearchInput(query) if query == "qu"));
    assert!(matches!(press(&mut app, KeyCode::Enter), KeyOutcome::Continue));
    assert!(matches!(app.mode, Mode::Normal));
    assert_eq!(app.search_matches, vec![1]);
    press(&mut app, KeyCode::Char('/'));
    press(&mut app, KeyCode::Backspace);
    press(&mut app, KeyCode::Esc);
    assert!(matches!(app.mode, Mode::Normal));
}

#[test]
fn keys_mean_what_they_should() {
    let action = |code, modifiers| key_action(&Mode::Normal, KeyEvent::new(code, modifiers));
    let none = KeyModifiers::none();
    let control = KeyModifiers::control();
    let shift = KeyModifiers::shift();
    let letter = |c| KeyCode::Char(c);
    assert_eq!(action(letter('q'), control), KeyAction::Quit);
    assert_eq!(action(letter('?'), shift), KeyAction::ToggleHelp);
    assert_eq!(action(letter('v'), none), KeyAction::Nothing);
    assert_eq!(action(letter('v'), control), KeyAction::BeginSelection);
    assert_eq!(action(letter('r'), none), KeyAction::Reload);
    assert_eq!(action(letter('/'), none), KeyAction::BeginSearch);
    assert_eq!(action(letter('n'), none), KeyAction::NextMatch);
    assert_eq!(action(letter('N'), shift), KeyAction::PrevMatch);
    assert_eq!(action(letter('w'), none), KeyAction::NextWord(WordMotionKind::Small));
    assert_eq!(action(letter('W'), shift), KeyAction::NextWord(WordMotionKind::Big));
    assert_eq!(action(letter('w'), control), KeyAction::Nothing);
    assert_eq!(action(letter('b'), none), KeyAction::PrevWord(WordMotionKind::Small));
    assert_eq!(action(letter('b'), control), KeyAction::PageUp);
    assert_eq!(action(letter('B'), shift), KeyAction::PrevWord(WordMotionKind::Big));
    assert_eq!(action(letter('h'), none), KeyAction::Left);
    assert_eq!(action(KeyCode::Right, none), KeyAction::Right);
    assert_eq!(action(letter('j'), none), KeyAction::Down);
    assert_eq!(action(KeyCode::Up, none), KeyAction::Up);
    assert_eq!(action(KeyCode::PageDown, none), KeyAction::PageDown);
    assert_eq!(action(letter('f'), control), KeyAction::PageDown);
    assert_eq!(action(letter('f'), none), KeyAction::Nothing);
    assert_eq!(action(letter('d'), none), KeyAction::HalfPageDown);
    assert_eq!(action(letter('d'), control), KeyAction::HalfPageDown);
    assert_eq!(action(letter('d'), shift), KeyAction::Nothing);
    assert_eq!(action(letter('u'), control), KeyAction::HalfPageUp);
    assert_eq!(action(letter('g'), none), KeyAction::Top);
    assert_eq!(action(KeyCode::End, none), KeyAction::Bottom);
    assert_eq!(action(letter('G'), shift), KeyAction::Bottom);
    assert_eq!(action(letter('x'), none), KeyAction::Nothing);
    assert_eq!(action(KeyCode::Esc, none), KeyAction::Nothing);
    assert_eq!(action(KeyCode::Other, none), KeyAction::Nothing);
    let selecting = Mode::VisualBlock(CursorPosition { row: 0, column: 0 });
    let with = |code, modifiers| key_action(&selecting, KeyEvent::new(code, modifiers));
    assert_eq!(with(KeyCode::Esc, none), KeyAction::EndSelection);
    assert_eq!(with(letter('v'), control), KeyAction::EndSelection);
    assert_eq!(with(letter('y'), none), KeyAction::Copy);
    assert_eq!(with(letter('y'), control), KeyAction::Nothing);
    assert_eq!(with(letter('j'), none), KeyAction::Down);
    let typing = Mode::SearchInput(String::new());
    assert_eq!(
        key_action(&typing, KeyEvent::new(letter('\r'), none)),
        KeyAction::SubmitSearch
    );
    assert_eq!(
        key_action(&typing, KeyEvent::new(letter('q'), none)),
        KeyAction::TypeChar('q')
    );
}

#[test]
fn quitting_reloading_and_help_are_left_to_the_caller_or_shown() {
    let mut app = open("text");
    assert!(matches!(press(&mut app, KeyCode::Char('q')), KeyOutcome::Quit));
    assert!(matches!(press(&mut app, KeyCode::Char('r')), KeyOutcome::Reload));
    press(&mut app, KeyCode::Char('?'));
    assert!(app.show_help);
    assert_eq!(app.status_line(1, 0, 0), HELP_TEXT);
    press(&mut app, KeyCode::Char('?'));
    assert!(!app.show_help);
}

#[test]
fn selections_are_copied_and_end() {
    let mut app = open("alpha  \nbravo");
    press_control(&mut app, 'v');
    assert_eq!(app.status, "visual block selection started");
    press(&mut app, KeyCode::Char('l'));
    press(&mut app, KeyCode::Char('j'));
    match press(&mut app, KeyCode::Char('y')) {
        KeyOutcome::Copy(text) => {
            assert_eq!(text, "al\nbr");
            app.clipboard_finished(&text, Some("no display"));
            assert_eq!(app.status, "clipboard copy failed: no display");
            assert!(matches!(app.mode, Mode::VisualBlock(_)));
            app.clipboard_finished(&text, None);
        }
        _ => panic!("expected a copy"),
    }
    assert_eq!(app.status, "copied 2 selected line(s) to clipboard");
    assert!(matches!(app.mode, Mode::Normal));
    assert!(app.copy_visual_selection_to_clipboard(80).is_none());
    assert_eq!(app.status, "no active visual selection");
    press_control(&mut app, 'v');
    press(&mut app, KeyCode::Esc);
    assert_eq!(app.status, "visual selection cleared");
}

#[test]
fn the_cursor_stays_on_the_screen() {
    let mut app = open(&numbered(50));
    for _ in 0..60 {
        press(&mut app, KeyCode::Down);
        assert!(app.scroll <= app.cursor_row);
        assert!(app.cursor_row <= app.scroll + 9);
    }
    assert_eq!(app.cursor_row, 49);
    press(&mut app, KeyCode::Home);
    assert_eq!((app.scroll, app.cursor_row), (0, 0));
    press(&mut app, KeyCode::End);
    assert_eq!((app.scroll, app.cursor_row), (40, 49));
}

#[test]
fn scrolling_up_undoes_scrolling_down() {
    let mut app = open(&numbered(50));
    app.scroll_down(7, 10, 80);
    assert_eq!((app.scroll, app.cursor_row), (7, 7));
    app.scroll_up(7, 10, 80);
    assert_eq!((app.scroll, app.cursor_row), (0, 0));
}

#[test]
fn words_are_followed_over_lines() {
    let mut app = open("one two  \nthree");
    press(&mut app, KeyCode::Char('w'));
    assert_eq!((app.cursor_row, app.cursor_column), (0, 4));
    press(&mut app, KeyCode::Char('w'));
    assert_eq!((app.cursor_row, app.cursor_column), (0, 4));
    let mut app = open("one  \n two three");
    press(&mut app, KeyCode::Char('w'));
    assert_eq!((app.cursor_row, app.cursor_column), (1, 4));
    press(&mut app, KeyCode::Char('b'));
    assert_eq!((app.cursor_row, app.cursor_column), (1, 0));
    press(&mut app, KeyCode::Char('b'));
    assert_eq!((app.cursor_row, app.cursor_column), (1, 0));
}

#[test]
fn rows_and_lines_lead_to_each_other() {
    let mut app = open("top\n\n![a](a.png)\n\nmiddle\n\n![b](b.png)\n\nend");
    let page = app.build_display_doc(80);
    for line in 0..app.doc.lines.len() {
        let row = app.virtual_row_for_doc_line(line, 80);
        assert_eq!(page.doc_line_for_row[row], line);
        assert_eq!(line_plain_text(&page.lines[row]), app.line_text_at(line));
    }
    let bounds = app.image_virtual_bounds(80);
    assert_eq!(bounds.len(), page.image_plans.len());
    for (bound, plan) in bounds.iter().zip(&page.image_plans) {
        assert_eq!(bound.image_index, plan.image_index);
        assert_eq!(bound.start_row, plan.start_row);
        assert_eq!(bound.end_row, plan.start_row + plan.height);
        assert_eq!(app.image_at_virtual_row(plan.start_row, 80), Some(plan.image_index));
        assert_eq!(app.image_at_virtual_row(plan.start_row - 1, 80), None);
    }
    assert_eq!(app.image_at_virtual_row(0, 80), None);
    assert_eq!(app.total_virtual_lines(80), page.lines.len());
}

#[test]
fn images_near_the_screen_are_asked_for_once() {
    let mut app = open("![a](https://x/a.png)\n\n![b](b.png)");
    let page = app.build_display_doc(80);
    let requests = app.request_images_near_viewport(&page, 5);
    assert_eq!(requests.len(), 1);
    assert!(matches!(
        &requests[0].job,
        ImageLoadJob::LoadImage(ResolvedImageSource::Remote(url)) if url == "https://x/a.png"
    ));
    assert_eq!(app.images[0].load_state, ImageLoadState::Loading);
    assert_eq!(app.images[1].load_state, ImageLoadState::NotRequested);
    assert!(app.request_images_near_viewport(&page, 5).is_empty());
    assert_eq!(app.request_images_near_viewport(&page, 50).len(), 1);
    assert!(app.request_image_load(7).is_none());
}

#[test]
fn images_that_cannot_be_asked_for_fail() {
    let mut app = open("![a](https://x/a.png)");
    let rows = app.total_virtual_lines(80);
    assert!(app.request_image_load(0).is_some());
    assert_eq!(app.total_virtual_lines(80), rows);
    app.image_load_send_failed(0);
    assert_eq!(app.images[0].load_state, ImageLoadState::Failed);
    assert_eq!(app.total_virtual_lines(80), 2);
    app.images[0].load_state = ImageLoadState::NotRequested;
    app.images[0].source = None;
    let _ = app.total_virtual_lines(80);
    assert!(app.request_image_load(0).is_none());
    assert_eq!(app.images[0].load_state, ImageLoadState::Failed);
    assert!(app.virtual_row_count_cache.is_empty());
}

#[test]
fn answers_of_the_loader_are_taken_a_few_at_a_time() {
    let mut app = open("![a](https://x/a.png)");
    let mut results: VecDeque<ImageLoadResult> = (0..6)
        .map(|_| ImageLoadResult {
            image_index: 9,
            payload: ImageLoadResultPayload::LoadedImage(None),
        })
        .collect();
    assert!(!app.drain_image_results(&mut results));
    assert_eq!(results.len(), 6 - MAX_IMAGE_RESULTS_PER_TICK);
    results.clear();
    results.push_back(ImageLoadResult {
        image_index: 0,
        payload: ImageLoadResultPayload::ProbedDimensions(None),
    });
    assert!(!app.drain_image_results(&mut results));
    results.push_back(ImageLoadResult {
        image_index: 0,
        payload: ImageLoadResultPayload::LoadedImage(None),
    });
    assert!(app.drain_image_results(&mut results));
    assert_eq!(app.images[0].load_state, ImageLoadState::Failed);
    assert_eq!(app.image_progress_counts(), (0, 0, 1));
}

#[test]
fn loaded_images_have_their_own_size() {
    let mut app = open("![a](https://x/a.png)");
    let mut results = VecDeque::from(vec![ImageLoadResult {
        image_index: 0,
        payload: ImageLoadResultPayload::LoadedImage(Some(DynamicImage::new_rgb8(80, 32))),
    }]);
    assert!(app.drain_image_results(&mut results));
    assert_eq!(app.images[0].pixel_size, Some((80, 32)));
    assert_eq!(app.image_height_for(&app.images[0], 80), 2);
    assert!(app.images[0].state.is_some());
    assert!(app.images[0].scratch_state.is_some());
    assert_eq!(app.image_progress_counts(), (1, 0, 0));
}

#[test]
fn sizes_are_asked_for_and_arrive() {
    let mut app = open("![a](https://x/a.png)");
    let area = Rect::new(0, 0, 40, 10);
    assert!(app.requested_variant(0, area, Resize::Fit).is_none());
    let mut results = VecDeque::from(vec![ImageLoadResult {
        image_index: 0,
        payload: ImageLoadResultPayload::LoadedImage(Some(DynamicImage::new_rgb8(320, 200))),
    }]);
    app.drain_image_results(&mut results);
    let wanted = app.requested_variant(0, area, Resize::Fit);
    let request = app.request_image_resize(0, area, Resize::Fit).expect("a request");
    assert_eq!(Some(request.variant), wanted);
    assert_eq!((request.area.width, request.area.height), (32, 10));
    assert!(app.request_image_resize(0, area, Resize::Fit).is_none());
    assert!(matches!(
        app.image_content(0, wanted),
        ImageContent::Text(text) if text == "  [rendering image...]"
    ));
    let mut arrived = VecDeque::from(vec![
        ImageResizeResult {
            image_index: 0,
            variant: request.variant,
            protocol: request.protocol,
        },
    ]);
    assert!(app.drain_image_resize_results(&mut arrived));
    assert!(arrived.is_empty());
    assert_eq!(app.images[0].active_variant, wanted);
    assert!(matches!(app.image_content(0, wanted), ImageContent::Image));
    assert!(!app.drain_image_resize_results(&mut arrived));
}

#[test]
fn encoders_that_cannot_be_sent_come_back() {
    let mut app = open("![a](https://x/a.png)");
    let mut results = VecDeque::from(vec![ImageLoadResult {
        image_index: 0,
        payload: ImageLoadResultPayload::LoadedImage(Some(DynamicImage::new_rgb8(320, 200))),
    }]);
    app.drain_image_results(&mut results);
    let request = app
        .request_image_resize(0, Rect::new(0, 0, 40, 10), Resize::Fit)
        .expect("a request");
    assert!(app.images[0].scratch_state.is_none());
    app.resize_send_failed(request);
    assert!(app.images[0].scratch_state.is_some());
    assert!(!app.images[0].resize_pending);
    assert_eq!(app.images[0].pending_variant, None);
}

#[test]
fn placeholders_tell_the_state() {
    let mut app = open("![a](https://x/a.png)");
    let mut tell = |state| {
        app.images[0].load_state = state;
        app.images[0].image_placeholder()
    };
    assert_eq!(tell(ImageLoadState::NotRequested), "[image pending]");
    assert_eq!(tell(ImageLoadState::Loading), "[loading image...]");
    assert_eq!(tell(ImageLoadState::Failed), "[image unavailable]");
    assert_eq!(tell(ImageLoadState::Loaded), "[rendering image...]");
}

#[test]
fn screens_leave_room_for_frames() {
    let viewport = viewport_for(80, 24);
    assert_eq!(
        (viewport.height, viewport.width, viewport.half_page, viewport.full_page),
        (21, 78, 10, 21)
    );
    let tiny = viewport_for(1, 2);
    assert_eq!((tiny.height, tiny.width, tiny.half_page, tiny.full_page), (0, 0, 1, 1));
}

#[test]
fn images_are_placed_and_cut() {
    let inner = Rect::new(1, 1, 30, 10);
    let plan = |start_row, height| ImageRenderPlan {
        image_index: 0,
        start_row,
        height,
    };
    assert_eq!(
        place_image(plan(7, 3), 5, inner),
        Some((Rect::new(1, 3, 30, 3), Resize::Fit))
    );
    assert_eq!(
        place_image(plan(3, 4), 5, inner),
        Some((
            Rect::new(1, 1, 30, 2),
            Resize::Crop(Some(CropOptions {
                clip_top: true,
                clip_left: false
            }))
        ))
    );
    assert_eq!(
        place_image(plan(14, 4), 5, inner),
        Some((
            Rect::new(1, 10, 30, 1),
            Resize::Crop(Some(CropOptions {
                clip_top: false,
                clip_left: false
            }))
        ))
    );
    assert_eq!(place_image(plan(15, 4), 5, inner), None);
    assert_eq!(place_image(plan(1, 4), 5, inner), None);
    assert_eq!(place_image(plan(7, 3), 5, Rect::new(1, 1, 0, 10)), None);
}

#[test]
fn cursors_are_placed() {
    let inner = Rect::new(1, 1, 30, 10);
    assert_eq!(place_page_cursor(2, 5, inner), Some((6, 3)));
    assert_eq!(place_page_cursor(2, 99, inner), Some((30, 3)));
    assert_eq!(place_page_cursor(0, 0, Rect::new(1, 1, 0, 10)), None);
    let status = Rect::new(0, 23, 20, 1);
    assert_eq!(place_query_cursor("가b", status), (4, 23));
    assert_eq!(place_query_cursor(&"x".repeat(50), status), (19, 23));
}

#[test]
fn the_status_line_tells_where_we_are() {
    let mut app = open("alpha  \nbeta  \n![a](a.png)");
    assert_eq!(
        app.status_line(5, 1, 3),
        "4 lines, 1 images (lazy load)  |  row 1 / 5  |  cursor 2:4  |  ? help  |  images 0/1, loading 0, failed 0"
    );
    app.search("beta", 10, 80);
    app.focused_image = Some(0);
    assert!(app
        .status_line(5, 1, 3)
        .ends_with("  |  image 1 selected  |  match 1 / 1"));
    app.mode = Mode::VisualBlock(CursorPosition { row: 0, column: 0 });
    assert_eq!(
        app.status_line(5, 9, 0),
        "1 matches for /beta  |  VISUAL BLOCK  |  row 2 / 5  |  cursor 4:1  |  y copy | Esc cancel  |  images 0/1, loading 0, failed 0"
    );
    app.mode = Mode::SearchInput("que".to_string());
    assert_eq!(app.status_line(5, 1, 3), "/que");
    assert_eq!(app.title(), " mdvi /docs/test.md ");
}

#[test]
fn screens_are_made_ready() {
    let mut app = open(&format!("{}\n\n![a](https://x/a.png)", numbered(30)));
    app.cursor_row = 12;
    app.cursor_column = 99;
    app.mode = Mode::VisualBlock(CursorPosition { row: 11, column: 0 });
    let screen = app.prepare_screen(10, 80);
    assert_eq!(screen.total_rows, screen.page.lines.len());
    assert_eq!(app.scroll, 3);
    assert_eq!(screen.cursor_row, 9);
    assert_eq!(screen.cursor_line, 12);
    assert_eq!(screen.cursor_column, 6);
    assert_eq!(screen.requests.len(), 1);
    let marked = &screen.page.lines[11];
    assert!(marked.spans[0].style.add_modifier.reversed);
    assert!(!screen.page.lines[10].spans[0].style.add_modifier.reversed);
    assert_eq!(line_plain_text(marked), "line 12");
}

#[test]
fn what_is_remembered_is_what_holds() {
    let mut app = open("alpha  \nbeta\n\n![a](https://x/a.png)\n\nalpha");
    let keys = ["j", "/", "a", "l", "\n", "n", "n", "N", "j", "j", "w", "G", "g", "d", "u"];
    for key in keys {
        for c in key.chars() {
            press(&mut app, KeyCode::Char(c));
        }
        assert_eq!(app.file_content, "alpha  \nbeta\n\n![a](https://x/a.png)\n\nalpha");
        let remembered = app.total_virtual_lines(80);
        let shown: Vec<String> = app.highlighted_lines().iter().map(line_plain_text).collect();
        app.invalidate_virtual_row_cache();
        app.invalidate_highlight_cache();
        assert_eq!(app.total_virtual_lines(80), remembered);
        let again: Vec<String> = app.highlighted_lines().iter().map(line_plain_text).collect();
        assert_eq!(again, shown);
    }
}

fn png(image: &DynamicImage) -> Vec<u8> {
    let mut bytes = std::io::Cursor::new(Vec::new());
    image.write_to(&mut bytes, image::ImageFormat::Png).expect("encodes");
    bytes.into_inner()
}

#[test]
fn fetched_bytes_become_images() {
    let mut app = open("![a](https://x/a.png)");
    let answer = answer_with_bytes(0, Some(png(&DynamicImage::new_rgb8(24, 32))));
    assert_eq!(answer.image_index, 0);
    assert!(matches!(
        &answer.payload,
        ImageLoadResultPayload::LoadedImage(Some(image))
            if (image.width(), image.height()) == (24, 32)
    ));
    assert!(app.drain_image_results(&mut VecDeque::from(vec![answer])));
    assert_eq!(app.images[0].pixel_size, Some((24, 32)));
    assert_eq!(app.images[0].load_state, ImageLoadState::Loaded);
}

#[test]
fn bytes_that_are_no_image_fail() {
    let mut app = open("![a](https://x/a.png)");
    for bytes in [Some(b"no image".to_vec()), Some(Vec::new()), None] {
        let answer = answer_with_bytes(0, bytes);
        assert!(matches!(&answer.payload, ImageLoadResultPayload::LoadedImage(None)));
        app.drain_image_results(&mut VecDeque::from(vec![answer]));
        assert_eq!(app.images[0].load_state, ImageLoadState::Failed);
    }
    assert_eq!(answer_with_bytes(7, None).image_index, 7);
}

#[test]
fn requests_are_encoded_and_come_back() {
    let mut app = open("![a](https://x/a.png)");
    let answer = answer_with_bytes(0, Some(png(&DynamicImage::new_rgb8(320, 200))));
    app.drain_image_results(&mut VecDeque::from(vec![answer]));
    let area = Rect::new(0, 0, 40, 10);
    let request = app.request_image_resize(0, area, Resize::Fit).expect("a request");
    assert_eq!(request.cell, (8, 16));
    assert!(request.can_be_encoded());
    let variant = request.variant;
    let mut result = encode(request).ok().expect("encodes");
    assert_eq!((result.image_index, result.variant), (0, variant));
    assert!(matches!(result.protocol.last_encoding_result(), Some(Ok(()))));
    assert!(app.drain_image_resize_results(&mut VecDeque::from(vec![result])));
    assert_eq!(app.images[0].active_variant, Some(variant));
    let next = app.requested_variant(0, area, Resize::Fit);
    assert_eq!(next, Some(variant));
}

#[test]
fn areas_too_large_to_reckon_with_cannot_be_encoded() {
    let mut app = open("![a](https://x/a.png)");
    let answer = answer_with_bytes(0, Some(png(&DynamicImage::new_rgb8(320, 200))));
    app.drain_image_results(&mut VecDeque::from(vec![answer]));
    let mut request = app
        .request_image_resize(0, Rect::new(0, 0, 40, 10), Resize::Fit)
        .expect("a request");
    let mut can = |width, height| {
        request.area = Rect::new(0, 0, width, height);
        request.can_be_encoded()
    };
    assert!(can(8191, 1));
    assert!(!can(8192, 1));
    assert!(can(1, 4095));
    assert!(!can(1, 4096));
    assert!(can(255, 257));
    assert!(!can(256, 256));
    assert!(can(0, u16::MAX));
    let mut result = encode(request).ok().expect("nothing to encode");
    assert!(result.protocol.last_encoding_result().is_none());
}

#[test]
fn requests_that_cannot_be_encoded_come_back() {
    let mut picker = Picker::from_fontsize((8, 16));
    picker.set_protocol_type(ratatui_image::picker::ProtocolType::Sixel);
    let (mut app, _) = App::new(
        PathBuf::from("/docs/test.md"),
        "![a](https://x/a.png)".to_string(),
        1,
        picker,
        None,
    )
    .expect("opens");
    let answer = answer_with_image(0, Some(DynamicImage::new_rgb8(320, 200)));
    app.drain_image_results(&mut VecDeque::from(vec![answer]));
    let request = app
        .request_image_resize(0, Rect::new(0, 0, 40, 10), Resize::Fit)
        .expect("a request");
    assert!(!request.can_be_encoded());
    let (variant, area) = (request.variant, request.area);
    let mut back = encode(request).err().expect("comes back");
    assert_eq!((back.image_index, back.variant), (0, variant));
    assert_eq!((back.area.width, back.area.height), (area.width, area.height));
    assert!(back.protocol.last_encoding_result().is_none());
}

#[test]
fn every_other_way_to_draw_is_encoded() {
    let kinds = [
        ratatui_image::picker::ProtocolType::Halfblocks,
        ratatui_image::picker::ProtocolType::Kitty,
        ratatui_image::picker::ProtocolType::Iterm2,
    ];
    for kind in kinds {
        let mut picker = Picker::from_fontsize((8, 16));
        picker.set_protocol_type(kind);
        let (mut app, _) = App::new(
            PathBuf::from("/docs/test.md"),
            "![a](https://x/a.png)".to_string(),
            1,
            picker,
            None,
        )
        .expect("opens");
        let answer = answer_with_image(0, Some(DynamicImage::new_rgb8(320, 200)));
        app.drain_image_results(&mut VecDeque::from(vec![answer]));
        for resize in [Resize::Fit, Resize::Crop(None)] {
            let request = app
                .request_image_resize(0, Rect::new(0, 0, 40, 10), resize)
                .expect("a request");
            let mut result = encode(request).ok().expect("encodes");
            assert!(matches!(result.protocol.last_encoding_result(), Some(Ok(()))));
            app.drain_image_resize_results(&mut VecDeque::from(vec![result]));
        }
    }
}

#[test]
fn half_blocks_are_drawn_where_the_terminal_cannot_be_asked() {
    assert_eq!(chosen_protocol(ImageProtocol::Auto, true), None);
    assert_eq!(chosen_protocol(ImageProtocol::Auto, false), Some(ProtocolType::Halfblocks));
    assert_eq!(chosen_protocol(ImageProtocol::Kitty, false), Some(ProtocolType::Kitty));
    assert_eq!(chosen_protocol(ImageProtocol::Sixel, true), Some(ProtocolType::Sixel));
    assert_eq!(DEFAULT_CELL_PIXELS, (10, 20));
}

#[test]
fn rows_belong_to_lines_in_order() {
    let mut app = open("one\n\n![a](https://x/a.png)\n\ntwo\n\n![b](https://x/b.png)\n\nthree");
    for index in 0..2 {
        let answer = answer_with_bytes(index, Some(png(&DynamicImage::new_rgb8(80, 48))));
        app.drain_image_results(&mut VecDeque::from(vec![answer]));
    }
    let page = app.build_display_doc(80);
    let lines = app.doc.lines.len();
    assert_eq!(page.lines.len(), lines + 6);
    assert_eq!(page.doc_line_for_row.len(), page.lines.len());
    assert!(page.doc_line_for_row.windows(2).all(|pair| pair[0] <= pair[1]));
    for line in 0..lines {
        let row = app.virtual_row_for_doc_line(line, 80);
        assert_eq!(page.doc_line_for_row.iter().position(|of| *of == line), Some(row));
        assert_eq!(line_plain_text(&page.lines[row]), line_plain_text(&app.doc.lines[line]));
    }
    let bounds = app.image_virtual_bounds(80);
    assert_eq!(bounds.len(), 2);
    assert!(bounds[0].start_row < bounds[0].end_row);
    assert!(bounds[0].end_row < bounds[1].start_row);
}

#[test]
fn the_screen_is_drawn_when_something_changes() {
    for needed in [false, true] {
        assert!(!needs_redraw(needed, ScreenEvent::Drawn));
        assert!(needs_redraw(needed, ScreenEvent::ResultsChanged));
        assert!(needs_redraw(needed, ScreenEvent::Resized));
        assert!(needs_redraw(needed, ScreenEvent::KeyPressed));
        assert_eq!(needs_redraw(needed, ScreenEvent::Other), needed);
    }
}

#[test]
fn every_image_draws_its_own_picture() {
    let mut app = open("![a](https://x/a.png)\n\n![b](https://x/b.png)");
    let red = image::Rgb([255, 0, 0]);
    let blue = image::Rgb([0, 0, 255]);
    let filled = |color| DynamicImage::ImageRgb8(image::RgbImage::from_pixel(32, 32, color));
    let mut answers = VecDeque::from(vec![
        answer_with_bytes(0, Some(png(&filled(red)))),
        answer_with_bytes(1, Some(png(&filled(blue)))),
    ]);
    assert!(app.drain_image_results(&mut answers));
    let area = Rect::new(0, 0, 4, 2);
    let cells = ratatui::layout::Rect::new(0, 0, 4, 2);
    for (index, color) in [(0, red), (1, blue)] {
        let request = app.request_image_resize(index, area, Resize::Fit).expect("a request");
        let result = encode(request).ok().expect("encodes");
        app.drain_image_resize_results(&mut VecDeque::from(vec![result]));
        let mut buffer = ratatui::buffer::Buffer::empty(cells);
        let state = app.images[index].state.as_mut().expect("drawn");
        state.render(cells, &mut buffer);
        let [r, g, b] = color.0;
        assert_eq!(buffer[(0, 0)].bg, ratatui::style::Color::Rgb(r, g, b));
    }
}

#[test]
fn marked_matches_keep_the_text() {
    let mut app = open("a+b A+B ab\n\nc a+ba+b");
    let before: Vec<String> = app.highlighted_lines().iter().map(line_plain_text).collect();
    for query in ["a+b", "A", ".", " "] {
        app.search(query, 10, 80);
        let shown: Vec<String> = app.highlighted_lines().iter().map(line_plain_text).collect();
        assert_eq!(shown, before);
    }
    app.search("a+b", 10, 80);
    assert_eq!(app.search_matches, vec![0, 2]);
}
