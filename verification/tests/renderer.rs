use mdvi::renderer::render_markdown;
use mdvi::style::{Color, Modifier};

#[test]
fn markdown_images_are_extracted_for_runtime_rendering() {
    let doc = render_markdown("![Alt Text](images/sample.png)").expect("render succeeds");
    assert_eq!(doc.images.len(), 1);
    assert_eq!(doc.images[0].src, "images/sample.png");
    assert_eq!(doc.images[0].hinted_pixel_size, None);

    let caption_line = &doc.lines[doc.images[0].line_index];
    let caption_text = caption_line
        .spans
        .iter()
        .map(|span| span.content.as_str())
        .collect::<String>();
    assert!(caption_text.contains("[image]"));
}

#[test]
fn html_img_tags_are_extracted_for_runtime_rendering() {
    let input = r#"<img alt="Preview" width="1708" height="1040" src="https://example.com/preview.png" />"#;
    let doc = render_markdown(input).expect("render succeeds");
    assert_eq!(doc.images.len(), 1);
    assert_eq!(doc.images[0].src, "https://example.com/preview.png");
    assert_eq!(doc.images[0].hinted_pixel_size, Some((1708, 1040)));

    let caption_line = &doc.lines[doc.images[0].line_index];
    let caption_text = caption_line
        .spans
        .iter()
        .map(|span| span.content.as_str())
        .collect::<String>();
    assert!(caption_text.contains("Preview"));
}

#[test]
fn long_image_urls_are_truncated_in_caption_display() {
    let input = "![](https://example.com/this/is/a/very/long/path/that/should/be/truncated/when/rendered/in/the/caption/to/avoid/wrapping/issues.png)";
    let doc = render_markdown(input).expect("render succeeds");
    let caption_line = &doc.lines[doc.images[0].line_index];
    let caption_text = caption_line
        .spans
        .iter()
        .map(|span| span.content.as_str())
        .collect::<String>();

    assert!(caption_text.contains("..."));
    assert!(caption_text.contains("[image]"));
    assert!(doc.images[0]
        .src
        .contains("very/long/path/that/should/be/truncated"));
}

#[test]
fn fenced_code_block_with_known_language_is_syntax_highlighted() {
    let input = "```rust\nfn main() { println!(\"hi\"); }\n```";
    let doc = render_markdown(input).expect("render succeeds");

    let code_line = doc
        .lines
        .iter()
        .find(|line| {
            line.spans
                .iter()
                .map(|span| span.content.as_str())
                .collect::<String>()
                .contains("fn main()")
        })
        .expect("code line should exist");

    assert!(
        code_line
            .spans
            .iter()
            .any(|span| matches!(span.style.fg, Some(Color::Rgb(_, _, _)))),
        "expected at least one syntax-colored span"
    );
}

#[test]
fn table_header_renders_on_its_own_line() {
    let input = "| Name | Value |\n|------|-------|\n| Alice | 42 |\n| Bob | 1000 |";
    let doc = render_markdown(input).expect("render succeeds");

    let text_lines: Vec<String> = doc
        .lines
        .iter()
        .map(|l| l.spans.iter().map(|s| s.content.as_str()).collect::<String>())
        .collect();

    let header_line = text_lines
        .iter()
        .find(|t| t.contains("Name") && t.contains("Value"))
        .expect("header line should exist");
    assert!(
        !header_line.contains("Alice"),
        "header should not bleed into first data row"
    );

    assert!(
        text_lines.iter().any(|t| t.contains("─")),
        "separator line should exist between header and data"
    );

    let alice_line = text_lines
        .iter()
        .find(|t| t.contains("Alice"))
        .expect("Alice row should exist");
    assert!(
        !alice_line.contains("Bob"),
        "Alice and Bob should be on separate lines"
    );
}

#[test]
fn table_columns_are_padded_to_consistent_widths() {
    let input =
        "| Short | Col |\n|-------|-----|\n| Much longer value | X |";
    let doc = render_markdown(input).expect("render succeeds");

    let text_lines: Vec<String> = doc
        .lines
        .iter()
        .map(|l| l.spans.iter().map(|s| s.content.as_str()).collect::<String>())
        .collect();

    let header = text_lines
        .iter()
        .find(|t| t.contains("Short"))
        .expect("header line should exist");
    let data_row = text_lines
        .iter()
        .find(|t| t.contains("Much longer value"))
        .expect("data row should exist");

    let header_sep = header.find('│').expect("header has │ separator");
    let data_sep = data_row.find('│').expect("data row has │ separator");
    assert_eq!(
        header_sep, data_sep,
        "│ separator must align at the same column in every row"
    );
}

#[test]
fn fenced_code_block_with_unknown_language_falls_back_to_dim_text() {
    let input = "```unknown-lang\nlet value = 42;\n```";
    let doc = render_markdown(input).expect("render succeeds");

    let code_span = doc
        .lines
        .iter()
        .flat_map(|line| line.spans.iter())
        .find(|span| span.content.as_str().contains("let value = 42;"))
        .expect("fallback code span should exist");

    assert!(code_span.style.add_modifier.contains(Modifier::dim()));
}
