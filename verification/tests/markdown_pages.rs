use mdvi::html::compile_html_patterns;
use mdvi::markdown::{read_document, MarkdownEvent, Tag, TagEnd};
use mdvi::page::{code_line_spans, style_of_heading, RenderTools};
use mdvi::renderer::{display_src_label, render_events, render_markdown, RenderedDoc};
use mdvi::style::{Color, Modifier, Style};
use mdvi::syntax::{
    code_highlight_assets, highlight_code_line, lookup_syntax_for_language, new_code_highlighter,
    spans_of_pieces, syntect_style_to_ratatui, CodePiece,
};
use mdvi::text::{line_plain_text, Line, Span};

fn dim() -> Style {
    Style::new().add_modifier(Modifier::dim())
}

fn texts(doc: &RenderedDoc) -> Vec<String> {
    doc.lines.iter().map(line_plain_text).collect()
}

fn tools() -> RenderTools {
    RenderTools {
        patterns: compile_html_patterns().expect("patterns compile"),
        assets: None,
    }
}

#[test]
fn an_empty_document_says_so() {
    for input in ["", "\n\n", "   \n"] {
        let doc = render_markdown(input).expect("render succeeds");
        assert_eq!(texts(&doc), vec!["(empty markdown file)"]);
        assert_eq!(doc.lines[0].spans[0].style, dim());
        assert!(doc.images.is_empty());
    }
}

#[test]
fn headings_have_their_styles() {
    let doc = render_markdown("# One\n\n## Two\n\n### Three\n\n##### Five").expect("renders");
    assert_eq!(
        texts(&doc),
        vec!["", "One", "", "Two", "", "Three", "", "Five"]
    );
    assert_eq!(doc.lines[1].spans[0].style, style_of_heading(1));
    assert_eq!(doc.lines[3].spans[0].style, style_of_heading(2));
    assert_eq!(doc.lines[5].spans[0].style, style_of_heading(3));
    assert_eq!(doc.lines[7].spans[0].style, style_of_heading(5));
    assert_eq!(
        style_of_heading(1),
        Style::new().add_modifier(Modifier::bold().union(Modifier::underlined()))
    );
    assert_eq!(style_of_heading(2), Style::new().add_modifier(Modifier::bold()));
    assert_eq!(
        style_of_heading(4),
        Style::new().add_modifier(Modifier::bold().union(Modifier::italic()))
    );
    assert_eq!(style_of_heading(6), Style::new().add_modifier(Modifier::italic()));
}

#[test]
fn inline_styles_add_up() {
    let doc = render_markdown("a *b **c*** ~~d~~ `e`").expect("renders");
    let spans = &doc.lines[0].spans;
    let find = |text: &str| {
        spans
            .iter()
            .find(|span| span.content == text)
            .expect("span exists")
            .style
    };
    assert_eq!(find("a "), Style::new());
    assert_eq!(find("b "), Style::new().add_modifier(Modifier::italic()));
    assert_eq!(
        find("c"),
        Style::new().add_modifier(Modifier::italic().union(Modifier::bold()))
    );
    assert_eq!(find("d"), Style::new().add_modifier(Modifier::crossed_out()));
    assert_eq!(
        find(" e "),
        Style::new()
            .fg(Color::Rgb(200, 200, 200))
            .bg(Color::Rgb(45, 45, 45))
    );
}

#[test]
fn links_show_their_targets() {
    let doc = render_markdown("see [here](https://example.com/x)").expect("renders");
    assert_eq!(texts(&doc), vec!["see here (https://example.com/x)"]);
    assert_eq!(
        doc.lines[0].spans[1].style,
        Style::new().add_modifier(Modifier::underlined())
    );
    assert_eq!(doc.lines[0].spans[2].style, dim());
}

#[test]
fn lists_are_numbered_and_moved_in() {
    let doc = render_markdown("3. three\n4. four\n   - inner\n\n- [x] done\n- [ ] open")
        .expect("renders");
    let lines = texts(&doc);
    assert!(lines.contains(&"3. three".to_string()));
    assert!(lines.contains(&"4. four".to_string()));
    assert!(lines.contains(&"  • inner".to_string()));
    assert!(lines.contains(&"• [x] done".to_string()));
    assert!(lines.contains(&"• [ ] open".to_string()));
}

#[test]
fn quotes_are_marked_by_depth() {
    let doc = render_markdown("> outer\n>\n> > inner").expect("renders");
    let lines = texts(&doc);
    assert!(lines.contains(&"│ outer".to_string()));
    assert!(lines.iter().any(|line| line.ends_with("  │ inner") || line == "  │ inner"));
}

#[test]
fn rules_and_breaks() {
    let doc = render_markdown("one\ntwo  \nthree\n\n---\n\nfour").expect("renders");
    let lines = texts(&doc);
    assert_eq!(lines[0], "one two");
    assert_eq!(lines[1], "three");
    let rule = "─".repeat(72);
    assert!(lines.contains(&rule));
    assert_eq!(lines.last().map(String::as_str), Some("four"));
}

#[test]
fn footnotes_keep_their_names() {
    let doc = render_markdown("text[^note]\n\n[^note]: the note").expect("renders");
    let lines = texts(&doc);
    assert_eq!(lines[0], "text[^note]");
    assert!(lines.contains(&"[^note] the note".to_string()));
}

#[test]
fn code_blocks_keep_blank_lines_and_fences() {
    let doc = render_markdown("```text x\na\n\nb\n```\n\nafter").expect("renders");
    assert_eq!(
        texts(&doc),
        vec!["", "```text x", "  a", "", "  b", "", "```", "", "after"]
    );
}

#[test]
fn indented_code_has_a_bare_fence() {
    let doc = render_markdown("    code").expect("renders");
    let lines = texts(&doc);
    assert_eq!(lines[1], "```");
    assert_eq!(lines[2], "  code");
    assert_eq!(doc.lines[2].spans[1].style, dim());
}

#[test]
fn wide_characters_keep_tables_aligned() {
    let doc = render_markdown("| 이름 | x |\n|---|---|\n| ab | y |").expect("renders");
    let lines = texts(&doc);
    let header = lines.iter().find(|line| line.contains("이름")).expect("header");
    let row = lines.iter().find(|line| line.contains("ab")).expect("row");
    assert_eq!(header, "이름 │ x");
    assert_eq!(row, "ab   │ y");
    assert!(lines.contains(&"─────┼──".to_string()));
}

#[test]
fn table_headers_are_blue_and_bold() {
    let doc = render_markdown("| a |\n|---|\n| b |").expect("renders");
    let header = doc
        .lines
        .iter()
        .find(|line| line_plain_text(line) == "a")
        .expect("header");
    assert_eq!(
        header.spans[0].style,
        Style::new()
            .fg(Color::Rgb(150, 180, 225))
            .add_modifier(Modifier::bold())
    );
}

#[test]
fn images_name_the_lines_of_their_captions() {
    let doc = render_markdown("![a](1.png)\n\ntext\n\n![](2.png)\n\n<img src='3.png'>")
        .expect("renders");
    assert_eq!(doc.images.len(), 3);
    let lines = texts(&doc);
    assert_eq!(lines[doc.images[0].line_index], "[image] a");
    assert_eq!(lines[doc.images[1].line_index], "[image] 2.png");
    assert_eq!(lines[doc.images[2].line_index], "[image] 3.png");
    assert!(doc.images[0].line_index < doc.images[1].line_index);
    assert!(doc.images[1].line_index < doc.images[2].line_index);
    assert!(!doc.lines.last().expect("a line").spans.is_empty());
}

#[test]
fn html_without_images_is_dim() {
    let doc = render_markdown("<div>\n").expect("renders");
    assert_eq!(doc.lines[0].spans[0].content, "<div>\n");
    assert_eq!(doc.lines[0].spans[0].style, dim());
}

#[test]
fn image_sizes_need_both_dimensions() {
    let both = render_markdown("<img src=\"a\" width=10 height='20px'>").expect("renders");
    assert_eq!(both.images[0].hinted_pixel_size, Some((10, 20)));
    let one = render_markdown("<img src=\"a\" width=\"10\">").expect("renders");
    assert_eq!(one.images[0].hinted_pixel_size, None);
    let zero = render_markdown("<img src=\"a\" width=\"0\" height=\"5\">").expect("renders");
    assert_eq!(zero.images[0].hinted_pixel_size, None);
    let none = render_markdown("<img alt=\"no source\">").expect("renders");
    assert!(none.images.is_empty());
}

#[test]
fn labels_are_cut_after_ninety_six_characters() {
    let short = "x".repeat(96);
    assert_eq!(display_src_label(&short), short);
    let long = "y".repeat(97);
    assert_eq!(display_src_label(&long), format!("{}...", "y".repeat(96)));
}

#[test]
fn an_open_image_ends_with_the_document() {
    let events = vec![
        MarkdownEvent::Start(Tag::Image("pic.png".to_string())),
        MarkdownEvent::Text(" alt".to_string()),
        MarkdownEvent::SoftBreak,
        MarkdownEvent::Code("text ".to_string()),
    ];
    let doc = render_events(&events, &tools());
    assert_eq!(texts(&doc), vec!["", "[image] alt text"]);
    assert_eq!(doc.images.len(), 1);
    assert_eq!(doc.images[0].line_index, 1);
}

#[test]
fn math_is_set_in_italics() {
    let events = vec![
        MarkdownEvent::InlineMath("x".to_string()),
        MarkdownEvent::DisplayMath("y".to_string()),
        MarkdownEvent::Other,
        MarkdownEvent::HardBreak,
    ];
    let doc = render_events(&events, &tools());
    assert_eq!(texts(&doc), vec!["$x$$y$"]);
    assert_eq!(
        doc.lines[0].spans[0].style,
        Style::new().add_modifier(Modifier::italic())
    );
}

#[test]
fn ends_without_starts_do_no_harm() {
    let ends = [
        TagEnd::Paragraph,
        TagEnd::Heading,
        TagEnd::BlockQuote,
        TagEnd::CodeBlock,
        TagEnd::List,
        TagEnd::Item,
        TagEnd::Emphasis,
        TagEnd::Strong,
        TagEnd::Strikethrough,
        TagEnd::Link,
        TagEnd::Image,
        TagEnd::TableCell,
        TagEnd::TableHead,
        TagEnd::TableRow,
        TagEnd::Table,
    ];
    let mut events: Vec<MarkdownEvent> = ends.into_iter().map(MarkdownEvent::End).collect();
    events.push(MarkdownEvent::Text("left".to_string()));
    let doc = render_events(&events, &tools());
    assert_eq!(texts(&doc).last().map(String::as_str), Some("left"));
    assert_eq!(doc.lines.last().expect("a line").spans[0].style, Style::new());
}

#[test]
fn numbers_of_lists_start_over_after_the_last() {
    let events = vec![
        MarkdownEvent::Start(Tag::List(Some(u64::MAX))),
        MarkdownEvent::Start(Tag::Item),
        MarkdownEvent::End(TagEnd::Item),
        MarkdownEvent::Start(Tag::Item),
        MarkdownEvent::End(TagEnd::Item),
    ];
    let doc = render_events(&events, &tools());
    assert_eq!(texts(&doc), vec!["18446744073709551615. ", "0. "]);
}

#[test]
fn documents_are_read_with_extensions() {
    let events = read_document("~~a~~\n\n- [x] b\n\n| c |\n|---|\n\nd[^e]\n\n[^e]: f");
    assert!(events
        .iter()
        .any(|event| matches!(event, MarkdownEvent::Start(Tag::Strikethrough))));
    assert!(events
        .iter()
        .any(|event| matches!(event, MarkdownEvent::TaskListMarker(true))));
    assert!(events
        .iter()
        .any(|event| matches!(event, MarkdownEvent::Start(Tag::Table))));
    assert!(events.iter().any(
        |event| matches!(event, MarkdownEvent::FootnoteReference(name) if name == "e")
    ));
}

#[test]
fn every_kind_of_event_is_read() {
    let events = read_document(
        "# h\n\n> q\n\n```rs\nx\n```\n\n3. i\n\n*a* **b** [l](u) ![p](v)\\\nz <b>\n\n<div>\n\n---\n",
    );
    let has = |wanted: &str| events.iter().any(|event| format!("{:?}", event) == wanted);
    assert!(has("Start(Heading(1))"));
    assert!(has("End(Heading)"));
    assert!(has("Start(BlockQuote)"));
    assert!(has("End(BlockQuote)"));
    assert!(has("Start(FencedCode(\"rs\"))"));
    assert!(has("End(CodeBlock)"));
    assert!(has("Start(List(Some(3)))"));
    assert!(has("Start(Item)"));
    assert!(has("End(Item)"));
    assert!(has("End(List)"));
    assert!(has("Start(Emphasis)"));
    assert!(has("End(Emphasis)"));
    assert!(has("Start(Strong)"));
    assert!(has("End(Strong)"));
    assert!(has("Start(Link(\"u\"))"));
    assert!(has("End(Link)"));
    assert!(has("Start(Image(\"v\"))"));
    assert!(has("End(Image)"));
    assert!(has("HardBreak"));
    assert!(has("InlineHtml(\"<b>\")"));
    assert!(has("Html(\"<div>\\n\")"));
    assert!(has("Rule"));
    assert!(has("End(Paragraph)"));
}

#[test]
fn indented_code_is_read() {
    let events = read_document("    code\n");
    assert!(matches!(events[0], MarkdownEvent::Start(Tag::IndentedCode)));
}

#[test]
fn colored_code_keeps_its_text() {
    let doc = render_markdown("```rust\nfn main() {}\n```").expect("renders");
    let line = doc
        .lines
        .iter()
        .find(|line| line_plain_text(line).contains("fn main"))
        .expect("code line");
    assert_eq!(line_plain_text(line), "  fn main() {}");
    assert_eq!(line.spans[0].style, dim());
    assert!(line.spans.len() > 2);
    assert!(line.spans[1].style.fg.is_some());
}

#[test]
fn colors_make_no_difference_without_fences() {
    let events = read_document("text `code`\n\n    indented\n");
    let plain = render_events(&events, &tools());
    let colored = render_events(
        &events,
        &RenderTools {
            patterns: compile_html_patterns().expect("patterns compile"),
            assets: Some(code_highlight_assets()),
        },
    );
    assert_eq!(texts(&plain), texts(&colored));
}

#[test]
fn languages_are_found_by_token() {
    let assets = code_highlight_assets();
    let by_name = lookup_syntax_for_language(&assets.syntax_set, "rust").expect("known");
    assert_eq!(by_name.name, "Rust");
    let by_extension = lookup_syntax_for_language(&assets.syntax_set, "py").expect("known");
    assert_eq!(by_extension.name, "Python");
    assert!(lookup_syntax_for_language(&assets.syntax_set, "unknown-lang").is_none());
    assert!(new_code_highlighter(None, &assets).is_none());
    assert!(new_code_highlighter(Some("unknown-lang"), &assets).is_none());
}

#[test]
fn coloring_goes_on_from_line_to_line() {
    let assets = code_highlight_assets();
    let mut state = new_code_highlighter(Some("rust"), &assets).expect("known");
    let first = highlight_code_line("/* open\n", &mut state, &assets.syntax_set);
    let inside = highlight_code_line("still open\n", &mut state, &assets.syntax_set);
    let mut fresh = new_code_highlighter(Some("rust"), &assets).expect("known");
    let outside = highlight_code_line("still open\n", &mut fresh, &assets.syntax_set);
    assert_eq!(first.iter().map(|span| span.content.as_str()).collect::<String>(), "/* open\n");
    assert_ne!(inside[0].style, outside[0].style);
}

#[test]
fn pieces_become_spans() {
    let piece = CodePiece {
        text: "let".to_string(),
        color: Color::Rgb(1, 2, 3),
        bold: true,
        italic: false,
        underline: true,
    };
    let style = Style::new()
        .fg(Color::Rgb(1, 2, 3))
        .add_modifier(Modifier::bold().union(Modifier::underlined()));
    assert_eq!(syntect_style_to_ratatui(&piece), style);
    let spans = spans_of_pieces(&vec![piece]);
    assert_eq!(spans.len(), 1);
    assert_eq!(spans[0].content, "let");
    assert_eq!(spans[0].style, style);
}

#[test]
fn code_without_colors_is_shown_as_it_is() {
    let bare = code_line_spans("x", Vec::new(), dim());
    assert_eq!(bare.len(), 2);
    assert_eq!(bare[0].content, "  ");
    assert_eq!(bare[1].content, "x");
    let colored = code_line_spans("x", vec![Span::raw("x".to_string())], dim());
    assert_eq!(colored[1].style, Style::new());
    assert_eq!(line_plain_text(&Line { spans: colored }), "  x");
}
