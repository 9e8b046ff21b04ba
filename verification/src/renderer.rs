//! Markdown turned into styled lines.
use vstd::prelude::*;

use crate::chars::{chars_of, owned, string_of};
use crate::html::{
    compile_html_patterns, pattern_failure, HtmlPatterns, PatternError, ALT_PATTERN, HEIGHT_PATTERN,
    IMG_TAG_PATTERN, SRC_PATTERN, WIDTH_PATTERN,
};
use crate::markdown::{document_events, events_view, read_document, EventView, MarkdownEvent, Tag};
use crate::page::{
    captions_stand, fits_tools, is_caption, laid_out, law_colors_need_fences, law_step_continues,
    lemma_image_continues, may_color, without_colors, without_trailing_blanks, DocView, Page,
    RenderTools, Renderer,
};
use crate::pattern::compiled;
use crate::syntax::{
    bundled_syntaxes, bundled_theme, code_highlight_assets, CodeHighlightAssets, SyntaxBundle,
    CODE_THEME,
};
use crate::text::{Line, LineView};

verus! {

/// A document as it is shown: its lines and its images.
#[derive(Debug)]
pub struct RenderedDoc {
    pub lines: Vec<Line>,
    pub images: Vec<RenderedImage>,
}

/// An image of the document: where it comes from and on which line its caption stands.
#[derive(Debug)]
pub struct RenderedImage {
    pub src: String,
    pub line_index: usize,
    pub hinted_pixel_size: Option<(u32, u32)>,
}

/// How many characters of an image source are shown in its caption.
pub const MAX_URL_DISPLAY_CHARS: usize = 96;

/// What a caption shows of an image source: long ones are cut and end in three dots.
pub open spec fn src_label(src: Seq<char>) -> Seq<char> {
    if src.len() <= MAX_URL_DISPLAY_CHARS {
        src
    } else {
        src.take(MAX_URL_DISPLAY_CHARS as int) + "..."@
    }
}

/// What a caption shows of an image source: long ones are cut and end in three dots.
pub fn display_src_label(src: &str) -> (label: String)
    ensures
        label@ == src_label(src@),
{
    let chars = chars_of(src);
    if chars.len() <= MAX_URL_DISPLAY_CHARS {
        owned(src)
    } else {
        let mut label = string_of(&chars, 0, MAX_URL_DISPLAY_CHARS);
        assert(label@ == src@.take(MAX_URL_DISPLAY_CHARS as int));
        label.append("...");
        label
    }
}

proof fn lemma_steps_continue(events: Seq<EventView>, tools: RenderTools)
    ensures
        captions_stand(
            Page::blank_page().steps(events, tools).lines,
            Page::blank_page().steps(events, tools).images,
        ),
        Page::blank_page().steps(events, tools).quotes <= events.len(),
    decreases events.len(),
{
    if events.len() > 0 {
        lemma_steps_continue(events.drop_last(), tools);
        law_step_continues(
            Page::blank_page().steps(events.drop_last(), tools),
            events.last(),
            tools,
        );
    }
}

proof fn lemma_without_trailing_blanks(lines: Seq<LineView>)
    ensures
        without_trailing_blanks(lines).len() <= lines.len(),
        without_trailing_blanks(lines) == lines.take(without_trailing_blanks(lines).len() as int),
        without_trailing_blanks(lines).len() > 0 ==> without_trailing_blanks(lines).last().len()
            > 0,
        forall|k: int|
            0 <= k < lines.len() && (#[trigger] lines[k]).len() > 0 ==> k
                < without_trailing_blanks(lines).len(),
    decreases lines.len(),
{
    if lines.len() > 0 && lines.last().len() == 0 {
        let shorter = lines.drop_last();
        lemma_without_trailing_blanks(shorter);
        let kept = without_trailing_blanks(lines);
        assert(shorter.take(kept.len() as int) =~= lines.take(kept.len() as int));
        assert forall|k: int| 0 <= k < lines.len() && (#[trigger] lines[k]).len() > 0 implies k
            < kept.len() by {
            if k < shorter.len() {
                assert(shorter[k] == lines[k]);
            }
        }
    } else {
        assert(lines.take(lines.len() as int) =~= lines);
    }
}

/// A document has a line, and its last line is not empty. Every image names the line of its
/// caption; captions stand in the order of the images, each on a line of its own.
pub proof fn law_document_is_whole(events: Seq<EventView>, tools: RenderTools)
    ensures
        laid_out(events, tools).lines.len() > 0,
        laid_out(events, tools).lines.last().len() > 0,
        captions_stand(laid_out(events, tools).lines, laid_out(events, tools).images),
{
    let page = Page::blank_page().steps(events, tools);
    let doc = laid_out(events, tools);
    lemma_steps_continue(events, tools);
    let open = page.end_open_line();
    assert(captions_stand(open.lines, open.images));
    let whole = match page.image {
        Some((src, alt)) => open.add_image(src, alt, None),
        None => open,
    };
    assert(captions_stand(whole.lines, whole.images)) by {
        if let Some((src, alt)) = page.image {
            lemma_image_continues(open, src, alt, None);
        }
    }
    let lines = without_trailing_blanks(whole.lines);
    lemma_without_trailing_blanks(whole.lines);
    assert forall|i: int| 0 <= i < whole.images.len() implies (
    #[trigger] whole.images[i]).line_index < lines.len() by {
        let k = whole.images[i].line_index as int;
        assert(is_caption(whole.lines[k]));
        assert(whole.lines[k].len() > 0);
    }
}

/// The tools that documents are laid out with: compiled expressions and bundled colors.
pub open spec fn standard_tools() -> RenderTools {
    RenderTools {
        patterns: HtmlPatterns {
            img: compiled(IMG_TAG_PATTERN@, false)->Ok_0,
            src: compiled(SRC_PATTERN@, false)->Ok_0,
            alt: compiled(ALT_PATTERN@, false)->Ok_0,
            width: compiled(WIDTH_PATTERN@, false)->Ok_0,
            height: compiled(HEIGHT_PATTERN@, false)->Ok_0,
        },
        assets: Some(
            CodeHighlightAssets {
                syntax_set: bundled_syntaxes(SyntaxBundle::Newlines),
                theme: bundled_theme(CODE_THEME@)->0,
            },
        ),
    }
}

/// The document that a Markdown text is shown as.
pub open spec fn rendered(text: Seq<char>) -> DocView {
    laid_out(document_events(text), standard_tools())
}

/// Lays out a run of events.
pub fn render_events(events: &Vec<MarkdownEvent>, tools: &RenderTools) -> (doc: RenderedDoc)
    ensures
        doc@ == laid_out(events_view(events@), *tools),
{
    let ghost all = events_view(events@);
    let mut renderer = Renderer::new();
    let mut i: usize = 0;
    assert(all.take(0) == Seq::<EventView>::empty());
    while i < events.len()
        invariant
            i <= events@.len(),
            all == events_view(events@),
            renderer@ == Page::blank_page().steps(all.take(i as int), *tools),
            fits_tools(renderer@, *tools),
        decreases events.len() - i,
    {
        proof {
            lemma_steps_continue(all.take(i as int), *tools);
            assert(all.take(i + 1).drop_last() == all.take(i as int));
        }
        renderer.step(&events[i], tools);
        i += 1;
    }
    assert(all.take(i as int) == all);
    renderer.finish()
}

/// Whether an event opens a fenced code block.
fn has_fenced_code(events: &Vec<MarkdownEvent>) -> (answer: bool)
    ensures
        answer == exists|i: int|
            0 <= i < events@.len() && may_color(#[trigger] events_view(events@)[i]),
{
    let mut i: usize = 0;
    while i < events.len()
        invariant
            i <= events@.len(),
            forall|k: int| 0 <= k < i ==> !may_color(#[trigger] events_view(events@)[k]),
        decreases events.len() - i,
    {
        if let MarkdownEvent::Start(Tag::FencedCode(_)) = &events[i] {
            assert(may_color(events_view(events@)[i as int]));
            return true;
        }
        i += 1;
    }
    false
}

/// The document that a Markdown text is shown as. It fails only where the expressions for embedded
/// HTML do not compile.
pub fn render_markdown(input: &str) -> (outcome: Result<RenderedDoc, PatternError>)
    ensures
        outcome is Ok <==> pattern_failure() is None,
        outcome is Ok ==> outcome->Ok_0@ == rendered(input@),
        outcome is Err ==> outcome->Err_0.message@ == pattern_failure()->0,
{
    let patterns = match compile_html_patterns() {
        Ok(patterns) => patterns,
        Err(failure) => return Err(failure),
    };
    let events = read_document(input);
    // Unpacking the syntaxes takes a while: that waits until some code needs them.
    let assets = if has_fenced_code(&events) {
        Some(code_highlight_assets())
    } else {
        None
    };
    let tools = RenderTools { patterns, assets };
    proof {
        if tools.assets is None {
            law_colors_need_fences(events_view(events@), standard_tools());
            assert(tools == without_colors(standard_tools()));
        } else {
            assert(tools == standard_tools());
        }
    }
    Ok(render_events(&events, &tools))
}

} // verus!
