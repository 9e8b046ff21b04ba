//! Colored code: the `syntect` crate finds a syntax and colors line after line.
use syntect::easy::HighlightLines;
use syntect::highlighting::Theme;
use syntect::parsing::{SyntaxReference, SyntaxSet};
use vstd::prelude::*;

use crate::chars::owned;
use crate::style::{Color, Modifier, Style};
use crate::text::{group_text_views, span_view, spans_view, LineView, Span};

verus! {

/// A set of syntaxes of the `syntect` crate.
#[verifier::external_type_specification]
#[verifier::external_body]
pub struct ExSyntaxSet(syntect::parsing::SyntaxSet);

/// One syntax of such a set.
#[verifier::external_type_specification]
#[verifier::external_body]
pub struct ExSyntaxReference(syntect::parsing::SyntaxReference);

/// A color theme of the `syntect` crate.
#[verifier::external_type_specification]
#[verifier::external_body]
pub struct ExTheme(syntect::highlighting::Theme);

/// The state in which the coloring of a text stands between two lines.
#[verifier::external_type_specification]
#[verifier::external_body]
pub struct ExHighlightLines<'a>(syntect::easy::HighlightLines<'a>);

/// Which of the bundled sets of syntaxes is meant.
#[derive(Clone, Copy, Debug, PartialEq, Eq, Structural)]
pub enum SyntaxBundle {
    Newlines,
}

/// The theme that code is colored with.
pub const CODE_THEME: &'static str = "base16-ocean.dark";

/// A colored stretch of a code line.
#[derive(Debug)]
pub struct CodePiece {
    pub text: String,
    pub color: Color,
    pub bold: bool,
    pub italic: bool,
    pub underline: bool,
}

/// What a [`CodePiece`] holds.
pub struct CodePieceView {
    pub text: Seq<char>,
    pub color: Color,
    pub bold: bool,
    pub italic: bool,
    pub underline: bool,
}

impl View for CodePiece {
    type V = CodePieceView;

    open spec fn view(&self) -> CodePieceView {
        CodePieceView {
            text: self.text@,
            color: self.color,
            bold: self.bold,
            italic: self.italic,
            underline: self.underline,
        }
    }
}

/// What a run of pieces holds.
pub open spec fn pieces_view(pieces: Seq<CodePiece>) -> Seq<CodePieceView> {
    Seq::new(pieces.len(), |i: int| pieces[i]@)
}

/// A bundled set of syntaxes.
pub uninterp spec fn bundled_syntaxes(bundle: SyntaxBundle) -> SyntaxSet;

/// The bundled theme of a name.
pub uninterp spec fn bundled_theme(name: Seq<char>) -> Option<Theme>;

/// The syntax that a short token stands for: a file extension or a name, whatever its case.
pub uninterp spec fn syntax_by_token(set: SyntaxSet, token: Seq<char>) -> Option<SyntaxReference>;

/// The syntax for files with an extension.
pub uninterp spec fn syntax_by_extension(set: SyntaxSet, extension: Seq<char>) -> Option<
    SyntaxReference,
>;

/// The syntax of a name.
pub uninterp spec fn syntax_by_name(set: SyntaxSet, name: Seq<char>) -> Option<SyntaxReference>;

/// Whether a syntax was found in a set.
pub uninterp spec fn is_syntax_of(syntax: SyntaxReference, set: SyntaxSet) -> bool;

/// The state at the beginning of a text.
pub uninterp spec fn coloring(syntax: SyntaxReference, theme: Theme) -> HighlightLines<'static>;

/// Whether a state goes with a set: its syntax was found there.
pub uninterp spec fn is_coloring_with(state: HighlightLines<'static>, set: SyntaxSet) -> bool;

/// The pieces that a line is colored in; `None` where the line cannot be parsed.
pub uninterp spec fn colored_line(
    state: HighlightLines<'static>,
    line: Seq<char>,
    set: SyntaxSet,
) -> Option<Seq<CodePieceView>>;

/// The state after a line.
pub uninterp spec fn coloring_after(
    state: HighlightLines<'static>,
    line: Seq<char>,
    set: SyntaxSet,
) -> HighlightLines<'static>;

/// `SyntaxSet::load_defaults_newlines` unpacks the syntaxes that come with the crate.
#[verifier::external_body]
fn load_syntaxes(bundle: SyntaxBundle) -> (set: SyntaxSet)
    ensures
        set == bundled_syntaxes(bundle),
{
    match bundle {
        SyntaxBundle::Newlines => SyntaxSet::load_defaults_newlines(),
    }
}

/// `ThemeSet::load_defaults` unpacks the themes that come with the crate; `base16-ocean.dark` is
/// one of them.
#[verifier::external_body]
fn load_theme(name: &str) -> (theme: Option<Theme>)
    ensures
        theme == bundled_theme(name@),
        name@ == CODE_THEME@ ==> theme is Some,
{
    syntect::highlighting::ThemeSet::load_defaults().themes.remove(name)
}

/// `SyntaxSet::find_syntax_by_token`; what it finds is a syntax of the set.
#[verifier::external_body]
fn find_by_token<'a>(set: &'a SyntaxSet, token: &str) -> (syntax: Option<&'a SyntaxReference>)
    ensures
        syntax is Some <==> syntax_by_token(*set, token@) is Some,
        syntax is Some ==> syntax_by_token(*set, token@) == Some(*syntax->0) && is_syntax_of(
            *syntax->0,
            *set,
        ),
{
    set.find_syntax_by_token(token)
}

/// `SyntaxSet::find_syntax_by_extension`; what it finds is a syntax of the set.
#[verifier::external_body]
fn find_by_extension<'a>(set: &'a SyntaxSet, extension: &str) -> (syntax: Option<
    &'a SyntaxReference,
>)
    ensures
        syntax is Some <==> syntax_by_extension(*set, extension@) is Some,
        syntax is Some ==> syntax_by_extension(*set, extension@) == Some(*syntax->0)
            && is_syntax_of(*syntax->0, *set),
{
    set.find_syntax_by_extension(extension)
}

/// `SyntaxSet::find_syntax_by_name`; what it finds is a syntax of the set.
#[verifier::external_body]
fn find_by_name<'a>(set: &'a SyntaxSet, name: &str) -> (syntax: Option<&'a SyntaxReference>)
    ensures
        syntax is Some <==> syntax_by_name(*set, name@) is Some,
        syntax is Some ==> syntax_by_name(*set, name@) == Some(*syntax->0) && is_syntax_of(
            *syntax->0,
            *set,
        ),
{
    set.find_syntax_by_name(name)
}

/// `HighlightLines::new` starts at the beginning of a text; the state goes with every set that
/// holds the syntax.
#[verifier::external_body]
fn start_coloring<'a>(syntax: &SyntaxReference, theme: &'a Theme) -> (state: HighlightLines<'a>)
    ensures
        state == coloring(*syntax, *theme),
        forall|set: SyntaxSet| #[trigger]
            is_coloring_with(state, set) <== is_syntax_of(*syntax, set),
{
    HighlightLines::new(syntax, theme)
}

/// `HighlightLines::highlight_line` colors one line and moves on to the next. The set must be one
/// that the state goes with; that does not change.
#[verifier::external_body]
fn color_line(state: &mut HighlightLines<'_>, line: &str, set: &SyntaxSet) -> (pieces: Option<
    Vec<CodePiece>,
>)
    requires
        is_coloring_with(*old(state), *set),
    ensures
        pieces is Some <==> colored_line(*old(state), line@, *set) is Some,
        pieces is Some ==> pieces_view(pieces->0@) == colored_line(*old(state), line@, *set)->0,
        *final(state) == coloring_after(*old(state), line@, *set),
        is_coloring_with(*final(state), *set),
{
    let ranges = state.highlight_line(line, set).ok()?;
    Some(ranges.into_iter().map(|(style, text)| CodePiece {
        text: text.to_string(),
        color: Color::Rgb(style.foreground.r, style.foreground.g, style.foreground.b),
        bold: style.font_style.contains(syntect::highlighting::FontStyle::BOLD),
        italic: style.font_style.contains(syntect::highlighting::FontStyle::ITALIC),
        underline: style.font_style.contains(syntect::highlighting::FontStyle::UNDERLINE),
    }).collect())
}

/// What code is colored with.
pub struct CodeHighlightAssets {
    pub syntax_set: SyntaxSet,
    pub theme: Theme,
}

impl CodeHighlightAssets {
    /// Whether these are the bundled syntaxes and the bundled dark theme.
    pub open spec fn is_bundled(self) -> bool {
        &&& self.syntax_set == bundled_syntaxes(SyntaxBundle::Newlines)
        &&& bundled_theme(CODE_THEME@) == Some(self.theme)
    }
}

/// The bundled syntaxes and the bundled dark theme.
pub fn code_highlight_assets() -> (assets: CodeHighlightAssets)
    ensures
        assets.is_bundled(),
{
    let syntax_set = load_syntaxes(SyntaxBundle::Newlines);
    let theme = load_theme(CODE_THEME).unwrap();
    CodeHighlightAssets { syntax_set, theme }
}

/// The syntax for a language: found as a token, else as a file extension, else by its name.
pub open spec fn syntax_for_language(set: SyntaxSet, language: Seq<char>) -> Option<
    SyntaxReference,
> {
    if syntax_by_token(set, language) is Some {
        syntax_by_token(set, language)
    } else if syntax_by_extension(set, language) is Some {
        syntax_by_extension(set, language)
    } else {
        syntax_by_name(set, language)
    }
}

/// The syntax for a language: found as a token, else as a file extension, else by its name.
pub fn lookup_syntax_for_language<'a>(set: &'a SyntaxSet, language: &str) -> (syntax: Option<
    &'a SyntaxReference,
>)
    ensures
        syntax is Some <==> syntax_for_language(*set, language@) is Some,
        syntax is Some ==> syntax_for_language(*set, language@) == Some(*syntax->0)
            && is_syntax_of(*syntax->0, *set),
{
    match find_by_token(set, language) {
        Some(syntax) => Some(syntax),
        None => match find_by_extension(set, language) {
            Some(syntax) => Some(syntax),
            None => find_by_name(set, language),
        },
    }
}

/// The coloring of a code block in a language; none for an unknown language.
pub open spec fn coloring_for(
    assets: CodeHighlightAssets,
    language: Option<Seq<char>>,
) -> Option<HighlightLines<'static>> {
    match language {
        Some(name) => match syntax_for_language(assets.syntax_set, name) {
            Some(syntax) => Some(coloring(syntax, assets.theme)),
            None => None,
        },
        None => None,
    }
}

/// The coloring of a code block in a language; none for an unknown language.
pub fn new_code_highlighter<'a>(language: Option<&str>, assets: &'a CodeHighlightAssets) -> (state:
    Option<HighlightLines<'a>>)
    ensures
        state == coloring_for(
            *assets,
            match language {
                Some(name) => Some(name@),
                None => None,
            },
        ),
        state is Some ==> is_coloring_with(state->0, assets.syntax_set),
{
    match language {
        Some(name) => match lookup_syntax_for_language(&assets.syntax_set, name) {
            Some(syntax) => Some(start_coloring(syntax, &assets.theme)),
            None => None,
        },
        None => None,
    }
}

/// The style of a colored piece.
pub open spec fn piece_style(piece: CodePieceView) -> Style {
    Style {
        fg: Some(piece.color),
        bg: None,
        add_modifier: Modifier {
            bold: piece.bold,
            italic: piece.italic,
            underlined: piece.underline,
            ..Modifier::none()
        },
    }
}

/// The spans of colored pieces.
pub open spec fn piece_spans(pieces: Seq<CodePieceView>) -> LineView {
    Seq::new(pieces.len(), |i: int| span_view(pieces[i].text, piece_style(pieces[i])))
}

/// The style of a colored piece.
pub fn syntect_style_to_ratatui(piece: &CodePiece) -> (style: Style)
    ensures
        style == piece_style(piece@),
{
    let mut style = Style::new().fg(piece.color);
    if piece.bold {
        style = style.add_modifier(Modifier::bold());
    }
    if piece.italic {
        style = style.add_modifier(Modifier::italic());
    }
    if piece.underline {
        style = style.add_modifier(Modifier::underlined());
    }
    style
}

/// The spans of colored pieces.
pub fn spans_of_pieces(pieces: &Vec<CodePiece>) -> (spans: Vec<Span>)
    ensures
        spans_view(spans@) == piece_spans(pieces_view(pieces@)),
{
    broadcast use group_text_views;

    let mut spans: Vec<Span> = Vec::new();
    let mut i: usize = 0;
    while i < pieces.len()
        invariant
            i <= pieces@.len(),
            spans@.len() == i,
            forall|k: int|
                0 <= k < i ==> (#[trigger] spans@[k])@ == span_view(
                    pieces@[k].text@,
                    piece_style(pieces@[k]@),
                ),
        decreases pieces.len() - i,
    {
        let style = syntect_style_to_ratatui(&pieces[i]);
        spans.push(Span::styled(owned(pieces[i].text.as_str()), style));
        i += 1;
    }
    assert(spans_view(spans@) =~= piece_spans(pieces_view(pieces@)));
    spans
}

/// The spans of a line as the state colors it: none where the line cannot be parsed.
pub open spec fn line_spans(
    state: HighlightLines<'static>,
    line: Seq<char>,
    set: SyntaxSet,
) -> LineView {
    match colored_line(state, line, set) {
        Some(pieces) => piece_spans(pieces),
        None => LineView::empty(),
    }
}

/// The spans of a line as the state colors it: none where the line cannot be parsed.
pub fn highlight_code_line(line: &str, state: &mut HighlightLines<'_>, set: &SyntaxSet) -> (spans:
    Vec<Span>)
    requires
        is_coloring_with(*old(state), *set),
    ensures
        spans_view(spans@) == line_spans(*old(state), line@, *set),
        *final(state) == coloring_after(*old(state), line@, *set),
        is_coloring_with(*final(state), *set),
{
    match color_line(state, line, set) {
        Some(pieces) => spans_of_pieces(&pieces),
        None => {
            let spans: Vec<Span> = Vec::new();
            assert(spans_view(spans@) == LineView::empty());
            spans
        },
    }
}

} // verus!
