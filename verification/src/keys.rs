//! What keys do.
use vstd::prelude::*;

use crate::app::{App, AppView, Mode, ModeView};
use crate::chars::owned;
use crate::motion::WordMotionKind;
use crate::numbers::{minus, plus, smaller};
use crate::search::law_next_and_previous_match;

verus! {

/// A key, as far as the viewer tells keys apart.
#[derive(Clone, Copy, Debug, PartialEq, Eq, Structural)]
pub enum KeyCode {
    Char(char),
    Esc,
    Enter,
    Backspace,
    Left,
    Right,
    Up,
    Down,
    PageUp,
    PageDown,
    Home,
    End,
    Other,
}

/// The keys that were held down with another.
#[derive(Clone, Copy, Debug, PartialEq, Eq, Structural)]
pub struct KeyModifiers {
    pub shift: bool,
    pub control: bool,
    pub alt: bool,
    pub super_key: bool,
    pub hyper: bool,
    pub meta: bool,
}

impl KeyModifiers {
    /// No key was held down.
    pub open spec fn nothing() -> KeyModifiers {
        KeyModifiers {
            shift: false,
            control: false,
            alt: false,
            super_key: false,
            hyper: false,
            meta: false,
        }
    }

    /// Nothing but the control key was held down.
    pub open spec fn only_control() -> KeyModifiers {
        KeyModifiers { control: true, ..KeyModifiers::nothing() }
    }

    /// No key was held down.
    pub fn none() -> (modifiers: KeyModifiers)
        ensures
            modifiers == KeyModifiers::nothing(),
    {
        KeyModifiers {
            shift: false,
            control: false,
            alt: false,
            super_key: false,
            hyper: false,
            meta: false,
        }
    }

    /// Nothing but the control key was held down.
    pub fn control() -> (modifiers: KeyModifiers)
        ensures
            modifiers == KeyModifiers::only_control(),
    {
        KeyModifiers {
            shift: false,
            control: true,
            alt: false,
            super_key: false,
            hyper: false,
            meta: false,
        }
    }

    /// Nothing but the shift key was held down.
    pub fn shift() -> (modifiers: KeyModifiers)
        ensures
            modifiers == (KeyModifiers { shift: true, ..KeyModifiers::nothing() }),
    {
        KeyModifiers {
            shift: true,
            control: false,
            alt: false,
            super_key: false,
            hyper: false,
            meta: false,
        }
    }
}

/// A key that was pressed.
#[derive(Clone, Copy, Debug, PartialEq, Eq, Structural)]
pub struct KeyEvent {
    pub code: KeyCode,
    pub modifiers: KeyModifiers,
}

impl KeyEvent {
    /// A key that was pressed with others held down.
    pub fn new(code: KeyCode, modifiers: KeyModifiers) -> (key: KeyEvent)
        ensures
            key == (KeyEvent { code, modifiers }),
    {
        KeyEvent { code, modifiers }
    }
}

/// What a key means.
#[derive(Clone, Copy, Debug, PartialEq, Eq, Structural)]
pub enum KeyAction {
    Nothing,
    CancelSearch,
    SubmitSearch,
    EraseChar,
    TypeChar(char),
    EndSelection,
    Copy,
    Quit,
    ToggleHelp,
    BeginSelection,
    Reload,
    BeginSearch,
    NextMatch,
    PrevMatch,
    NextWord(WordMotionKind),
    PrevWord(WordMotionKind),
    Left,
    Right,
    Down,
    Up,
    PageDown,
    PageUp,
    HalfPageDown,
    HalfPageUp,
    Top,
    Bottom,
}

/// What a key means while a query is typed.
pub open spec fn search_action(key: KeyEvent) -> KeyAction {
    match key.code {
        KeyCode::Esc => KeyAction::CancelSearch,
        KeyCode::Enter => KeyAction::SubmitSearch,
        KeyCode::Backspace => KeyAction::EraseChar,
        KeyCode::Char(c) => if c == '\n' || c == '\r' {
            KeyAction::SubmitSearch
        } else if !key.modifiers.control {
            KeyAction::TypeChar(c)
        } else {
            KeyAction::Nothing
        },
        _ => KeyAction::Nothing,
    }
}

/// What a key means only while a block is selected.
pub open spec fn selection_action(key: KeyEvent) -> Option<KeyAction> {
    if key.code == KeyCode::Esc || key.code == KeyCode::Char('v') && key.modifiers
        == KeyModifiers::only_control() {
        Some(KeyAction::EndSelection)
    } else if key.code == KeyCode::Char('y') && !key.modifiers.control {
        Some(KeyAction::Copy)
    } else {
        None
    }
}

/// What a letter means.
pub open spec fn letter_action(c: char, modifiers: KeyModifiers) -> KeyAction {
    let only_control = modifiers == KeyModifiers::only_control();
    let bare = modifiers == KeyModifiers::nothing();
    if c == 'q' {
        KeyAction::Quit
    } else if c == '?' {
        KeyAction::ToggleHelp
    } else if c == 'v' && only_control {
        KeyAction::BeginSelection
    } else if c == 'r' {
        KeyAction::Reload
    } else if c == '/' {
        KeyAction::BeginSearch
    } else if c == 'n' {
        KeyAction::NextMatch
    } else if c == 'N' {
        KeyAction::PrevMatch
    } else if c == 'w' && !modifiers.control {
        KeyAction::NextWord(WordMotionKind::Small)
    } else if c == 'W' && !modifiers.control {
        KeyAction::NextWord(WordMotionKind::Big)
    } else if c == 'b' && !modifiers.control {
        KeyAction::PrevWord(WordMotionKind::Small)
    } else if c == 'B' && !modifiers.control {
        KeyAction::PrevWord(WordMotionKind::Big)
    } else if c == 'h' {
        KeyAction::Left
    } else if c == 'l' {
        KeyAction::Right
    } else if c == 'j' {
        KeyAction::Down
    } else if c == 'k' {
        KeyAction::Up
    } else if c == 'f' && only_control {
        KeyAction::PageDown
    } else if c == 'b' && only_control {
        KeyAction::PageUp
    } else if c == 'd' && (only_control || bare) {
        KeyAction::HalfPageDown
    } else if c == 'u' && (only_control || bare) {
        KeyAction::HalfPageUp
    } else if c == 'g' {
        KeyAction::Top
    } else if c == 'G' {
        KeyAction::Bottom
    } else {
        KeyAction::Nothing
    }
}

/// What a key means outside of queries.
pub open spec fn command_action(key: KeyEvent) -> KeyAction {
    match key.code {
        KeyCode::Char(c) => letter_action(c, key.modifiers),
        KeyCode::Left => KeyAction::Left,
        KeyCode::Right => KeyAction::Right,
        KeyCode::Down => KeyAction::Down,
        KeyCode::Up => KeyAction::Up,
        KeyCode::PageDown => KeyAction::PageDown,
        KeyCode::PageUp => KeyAction::PageUp,
        KeyCode::Home => KeyAction::Top,
        KeyCode::End => KeyAction::Bottom,
        _ => KeyAction::Nothing,
    }
}

/// What a key means in a mode.
pub open spec fn action_for(mode: ModeView, key: KeyEvent) -> KeyAction {
    match mode {
        ModeView::SearchInput(_) => search_action(key),
        ModeView::VisualBlock(_) => match selection_action(key) {
            Some(action) => action,
            None => command_action(key),
        },
        ModeView::Normal => command_action(key),
    }
}

/// What a letter means.
fn read_letter(c: char, modifiers: KeyModifiers) -> (action: KeyAction)
    ensures
        action == letter_action(c, modifiers),
{
    let only_control = modifiers == KeyModifiers::control();
    let bare = modifiers == KeyModifiers::none();
    match c {
        'q' => KeyAction::Quit,
        '?' => KeyAction::ToggleHelp,
        'r' => KeyAction::Reload,
        '/' => KeyAction::BeginSearch,
        'n' => KeyAction::NextMatch,
        'N' => KeyAction::PrevMatch,
        'h' => KeyAction::Left,
        'l' => KeyAction::Right,
        'j' => KeyAction::Down,
        'k' => KeyAction::Up,
        'g' => KeyAction::Top,
        'G' => KeyAction::Bottom,
        'v' if only_control => KeyAction::BeginSelection,
        'w' if !modifiers.control => KeyAction::NextWord(WordMotionKind::Small),
        'W' if !modifiers.control => KeyAction::NextWord(WordMotionKind::Big),
        'b' if !modifiers.control => KeyAction::PrevWord(WordMotionKind::Small),
        'B' if !modifiers.control => KeyAction::PrevWord(WordMotionKind::Big),
        'f' if only_control => KeyAction::PageDown,
        'b' if only_control => KeyAction::PageUp,
        'd' if only_control || bare => KeyAction::HalfPageDown,
        'u' if only_control || bare => KeyAction::HalfPageUp,
        _ => KeyAction::Nothing,
    }
}

/// What a key means in a mode.
pub fn key_action(mode: &Mode, key: KeyEvent) -> (action: KeyAction)
    ensures
        action == action_for(mode@, key),
{
    if let Mode::SearchInput(_) = mode {
        return match key.code {
            KeyCode::Esc => KeyAction::CancelSearch,
            KeyCode::Enter => KeyAction::SubmitSearch,
            KeyCode::Backspace => KeyAction::EraseChar,
            KeyCode::Char(c) => if c == '\n' || c == '\r' {
                KeyAction::SubmitSearch
            } else if !key.modifiers.control {
                KeyAction::TypeChar(c)
            } else {
                KeyAction::Nothing
            },
            _ => KeyAction::Nothing,
        };
    }
    if let Mode::VisualBlock(_) = mode {
        match key.code {
            KeyCode::Esc => return KeyAction::EndSelection,
            KeyCode::Char('v') => if key.modifiers == KeyModifiers::control() {
                return KeyAction::EndSelection;
            },
            KeyCode::Char('y') => if !key.modifiers.control {
                return KeyAction::Copy;
            },
            _ => {},
        }
    }
    match key.code {
        KeyCode::Char(c) => read_letter(c, key.modifiers),
        KeyCode::Left => KeyAction::Left,
        KeyCode::Right => KeyAction::Right,
        KeyCode::Down => KeyAction::Down,
        KeyCode::Up => KeyAction::Up,
        KeyCode::PageDown => KeyAction::PageDown,
        KeyCode::PageUp => KeyAction::PageUp,
        KeyCode::Home => KeyAction::Top,
        KeyCode::End => KeyAction::Bottom,
        _ => KeyAction::Nothing,
    }
}

/// What the screen shows of the page, and how far keys scroll.
#[derive(Clone, Copy, Debug, PartialEq, Eq, Structural)]
pub struct Viewport {
    pub height: usize,
    pub width: u16,
    pub half_page: usize,
    pub full_page: usize,
}

/// What is left to do for a key outside of the viewer.
#[derive(Debug)]
pub enum KeyOutcome {
    Continue,
    Quit,
    /// The document has to be read again.
    Reload,
    /// The text has to be put on the clipboard.
    Copy(String),
}

/// What a [`KeyOutcome`] holds.
pub enum OutcomeView {
    Continue,
    Quit,
    Reload,
    Copy(Seq<char>),
}

impl View for KeyOutcome {
    type V = OutcomeView;

    open spec fn view(&self) -> OutcomeView {
        match *self {
            KeyOutcome::Continue => OutcomeView::Continue,
            KeyOutcome::Quit => OutcomeView::Quit,
            KeyOutcome::Reload => OutcomeView::Reload,
            KeyOutcome::Copy(text) => OutcomeView::Copy(text@),
        }
    }
}

impl AppView {
    /// The query that is typed.
    pub open spec fn typed_query(self) -> Seq<char> {
        match self.mode {
            ModeView::SearchInput(query) => query,
            _ => Seq::empty(),
        }
    }

    /// The viewer after a key that concerns a query.
    pub open spec fn act_on_query(self, action: KeyAction, viewport: Viewport) -> AppView {
        let query = self.typed_query();
        AppView {
            mode: match action {
                KeyAction::EraseChar => ModeView::SearchInput(
                    if query.len() > 0 {
                        query.drop_last()
                    } else {
                        query
                    },
                ),
                KeyAction::TypeChar(c) => ModeView::SearchInput(query.push(c)),
                _ => ModeView::Normal,
            },
            ..if action == KeyAction::SubmitSearch {
                self.search(query, viewport.height, viewport.width)
            } else {
                self
            }
        }
    }

    /// The viewer after a key that begins or ends something.
    pub open spec fn act_on_mode(self, action: KeyAction, viewport: Viewport) -> AppView {
        match action {
            KeyAction::EndSelection => AppView {
                mode: ModeView::Normal,
                status: "visual selection cleared"@,
                ..self
            },
            KeyAction::Copy => self.ask_for_copy(viewport.width),
            KeyAction::ToggleHelp => AppView { show_help: !self.show_help, ..self },
            KeyAction::BeginSelection => AppView {
                mode: ModeView::VisualBlock(self.cursor_position(viewport.width)),
                status: "visual block selection started"@,
                ..self.find_cursor(viewport.width)
            },
            KeyAction::BeginSearch => AppView { mode: ModeView::SearchInput(Seq::empty()), ..self },
            _ => self,
        }
    }

    /// The viewer after a key that moves the cursor or the screen.
    pub open spec fn act_on_cursor(self, action: KeyAction, viewport: Viewport) -> AppView {
        let height = viewport.height;
        let width = viewport.width;
        match action {
            KeyAction::NextMatch => self.jump_to_match(self.next_match(), height, width),
            KeyAction::PrevMatch => self.jump_to_match(self.prev_match(), height, width),
            KeyAction::NextWord(kind) => self.next_word(width, kind).show_cursor(height, width),
            KeyAction::PrevWord(kind) => self.prev_word(width, kind).show_cursor(height, width),
            KeyAction::Left => AppView { cursor_column: minus(self.cursor_column, 1), ..self },
            KeyAction::Right => {
                let app = self.find_cursor(width);
                AppView {
                    cursor_column: smaller(
                        plus(app.cursor_column, 1),
                        app.last_column(self.cursor_line(width)),
                    ),
                    ..app
                }
            },
            KeyAction::Down => self.step_down(height, width),
            KeyAction::Up => self.step_up(height, width),
            KeyAction::PageDown => self.scroll_down(viewport.full_page, height, width),
            KeyAction::PageUp => self.scroll_up(viewport.full_page, width),
            KeyAction::HalfPageDown => self.scroll_down(viewport.half_page, height, width),
            KeyAction::HalfPageUp => self.scroll_up(viewport.half_page, width),
            KeyAction::Top => self.jump_top(),
            KeyAction::Bottom => self.jump_bottom(height, width),
            _ => self,
        }
    }

    /// The viewer after a key with a meaning.
    pub open spec fn act(self, action: KeyAction, viewport: Viewport) -> AppView {
        match action {
            KeyAction::CancelSearch => self.act_on_query(action, viewport),
            KeyAction::SubmitSearch => self.act_on_query(action, viewport),
            KeyAction::EraseChar => self.act_on_query(action, viewport),
            KeyAction::TypeChar(_) => self.act_on_query(action, viewport),
            KeyAction::EndSelection => self.act_on_mode(action, viewport),
            KeyAction::Copy => self.act_on_mode(action, viewport),
            KeyAction::ToggleHelp => self.act_on_mode(action, viewport),
            KeyAction::BeginSelection => self.act_on_mode(action, viewport),
            KeyAction::BeginSearch => self.act_on_mode(action, viewport),
            _ => self.act_on_cursor(action, viewport),
        }
    }

    /// What is left to do outside of the viewer for a key with a meaning.
    pub open spec fn left_to_do(self, action: KeyAction, viewport: Viewport) -> OutcomeView {
        match action {
            KeyAction::Quit => OutcomeView::Quit,
            KeyAction::Reload => OutcomeView::Reload,
            KeyAction::Copy => match self.selected_text(viewport.width) {
                Some(text) => OutcomeView::Copy(text),
                None => OutcomeView::Continue,
            },
            _ => OutcomeView::Continue,
        }
    }
}

impl App {
    /// The query that is typed, taken out.
    fn take_query(&mut self) -> (query: String)
        requires
            old(self)@.mode is SearchInput,
        ensures
            query@ == old(self)@.typed_query(),
            final(self)@ == (AppView { mode: ModeView::Normal, ..old(self)@ }),
    {
        let mut mode = Mode::Normal;
        std::mem::swap(&mut mode, &mut self.mode);
        match mode {
            Mode::SearchInput(query) => query,
            _ => String::new(),
        }
    }

    /// Does what a key means for a query.
    fn act_on_query(&mut self, action: KeyAction, viewport: Viewport)
        requires
            old(self)@.is_sound(),
            old(self)@.mode is SearchInput,
            action is CancelSearch || action is SubmitSearch || action is EraseChar
                || action is TypeChar,
        ensures
            final(self)@ == old(self)@.act_on_query(action, viewport),
            old(self)@.searches_text() ==> final(self)@.searches_text(),
    {
        match action {
            KeyAction::SubmitSearch => {
                let query = match &self.mode {
                    Mode::SearchInput(query) => owned(query.as_str()),
                    _ => String::new(),
                };
                self.search(query.as_str(), viewport.height, viewport.width);
                self.mode = Mode::Normal;
            },
            KeyAction::EraseChar => {
                let mut query = self.take_query();
                let _ = query.pop();
                self.mode = Mode::SearchInput(query);
            },
            KeyAction::TypeChar(c) => {
                let mut query = self.take_query();
                query.push(c);
                self.mode = Mode::SearchInput(query);
            },
            _ => {
                self.mode = Mode::Normal;
            },
        }
    }

    /// Begins or ends what a key means.
    fn act_on_mode(&mut self, action: KeyAction, viewport: Viewport) -> (outcome: KeyOutcome)
        requires
            old(self)@.is_sound(),
            action is EndSelection || action is Copy || action is ToggleHelp
                || action is BeginSelection || action is BeginSearch,
        ensures
            final(self)@ == old(self)@.act_on_mode(action, viewport),
            outcome@ == old(self)@.left_to_do(action, viewport),
    {
        match action {
            KeyAction::EndSelection => {
                self.mode = Mode::Normal;
                self.status = owned("visual selection cleared");
            },
            KeyAction::Copy => {
                if let Some(text) = self.copy_visual_selection_to_clipboard(viewport.width) {
                    return KeyOutcome::Copy(text);
                }
            },
            KeyAction::ToggleHelp => {
                self.show_help = !self.show_help;
            },
            KeyAction::BeginSelection => {
                let anchor = self.current_cursor_position(viewport.width);
                self.mode = Mode::VisualBlock(anchor);
                self.status = owned("visual block selection started");
            },
            _ => {
                self.mode = Mode::SearchInput(String::new());
            },
        }
        KeyOutcome::Continue
    }

    /// Moves the cursor or the screen as a key means.
    fn act_on_cursor(&mut self, action: KeyAction, viewport: Viewport)
        requires
            old(self)@.is_sound(),
        ensures
            final(self)@ == old(self)@.act_on_cursor(action, viewport),
    {
        let height = viewport.height;
        let width = viewport.width;
        match action {
            KeyAction::NextMatch => self.jump_next_match(height, width),
            KeyAction::PrevMatch => self.jump_prev_match(height, width),
            KeyAction::NextWord(kind) => {
                self.move_to_next_word(width, kind);
                self.ensure_cursor_visible(height, width);
            },
            KeyAction::PrevWord(kind) => {
                self.move_to_prev_word(width, kind);
                self.ensure_cursor_visible(height, width);
            },
            KeyAction::Left => self.move_cursor_left(),
            KeyAction::Right => {
                let line = self.cursor_doc_line_for_navigation(width);
                self.move_cursor_right(line);
            },
            KeyAction::Down => self.scroll_down_with_image_focus(height, width),
            KeyAction::Up => self.scroll_up_with_image_focus(height, width),
            KeyAction::PageDown => self.scroll_down(viewport.full_page, height, width),
            KeyAction::PageUp => self.scroll_up(viewport.full_page, height, width),
            KeyAction::HalfPageDown => self.scroll_down(viewport.half_page, height, width),
            KeyAction::HalfPageUp => self.scroll_up(viewport.half_page, height, width),
            KeyAction::Top => self.jump_top(),
            KeyAction::Bottom => self.jump_bottom(height, width),
            _ => {},
        }
    }
}

/// The letters for half a page mean the same with and without the control key, unless a query is
/// typed.
pub proof fn law_half_page_letters(mode: ModeView, c: char)
    requires
        c == 'd' || c == 'u',
        !(mode is SearchInput),
    ensures
        action_for(
            mode,
            (KeyEvent { code: KeyCode::Char(c), modifiers: KeyModifiers::nothing() }),
        ) == action_for(
            mode,
            (KeyEvent { code: KeyCode::Char(c), modifiers: KeyModifiers::only_control() }),
        ),
{
}

/// While a query is typed no key quits, and every letter goes into the query.
pub proof fn law_queries_take_letters(app: AppView, key: KeyEvent, viewport: Viewport)
    requires
        app.mode is SearchInput,
    ensures
        app.left_to_do(action_for(app.mode, key), viewport) == OutcomeView::Continue,
        key.code matches KeyCode::Char(c) ==> c != '\n' && c != '\r' && !key.modifiers.control
            ==> app.act(action_for(app.mode, key), viewport) == (AppView {
            mode: ModeView::SearchInput(app.typed_query().push(c)),
            ..app
        }),
{
}

/// Whether two viewers show the same document, with the same images in the same states.
pub open spec fn same_document(a: AppView, b: AppView) -> bool {
    &&& a.file_path == b.file_path
    &&& a.file_content == b.file_content
    &&& a.lines == b.lines
    &&& a.doc_images == b.doc_images
    &&& a.picker == b.picker
    &&& a.images == b.images
    &&& a.image_index_by_line == b.image_index_by_line
    &&& a.system_drive == b.system_drive
}

/// Whether two viewers search for the same, with the same matches.
pub open spec fn same_search(a: AppView, b: AppView) -> bool {
    &&& a.search_query == b.search_query
    &&& a.search_regex == b.search_regex
    &&& a.search_matches == b.search_matches
    &&& a.active_match == b.active_match
}

proof fn lemma_cursor_keeps(app: AppView, height: usize, width: u16)
    ensures
        same_document(app, app.clamp_cursor(width)),
        same_search(app, app.clamp_cursor(width)),
        same_document(app, app.show_cursor(height, width)),
        same_search(app, app.show_cursor(height, width)),
        same_document(app, app.find_cursor(width)),
        same_search(app, app.find_cursor(width)),
{
}

proof fn lemma_steps_keep(app: AppView, row: usize, height: usize, width: u16)
    ensures
        same_document(app, app.enter_row(row, height, width)),
        same_search(app, app.enter_row(row, height, width)),
        same_document(app, app.leave_image(row, height, width)),
        same_search(app, app.leave_image(row, height, width)),
{
    lemma_cursor_keeps(AppView { cursor_row: row, ..app }, height, width);
}

proof fn lemma_moves_keep(app: AppView, action: KeyAction, viewport: Viewport)
    requires
        !(action is NextMatch),
        !(action is PrevMatch),
    ensures
        same_document(app, app.act_on_cursor(action, viewport)),
        same_search(app, app.act_on_cursor(action, viewport)),
{
    let height = viewport.height;
    let width = viewport.width;
    lemma_cursor_keeps(app, height, width);
    lemma_cursor_keeps(app.unfocused(), height, width);
    match action {
        KeyAction::NextWord(kind) => {
            lemma_cursor_keeps(app.next_word(width, kind), height, width);
        },
        KeyAction::PrevWord(kind) => {
            lemma_cursor_keeps(app.prev_word(width, kind), height, width);
        },
        KeyAction::Down => {
            let clamped = app.clamp_cursor(width);
            let last = clamped.last_row(width);
            match clamped.focused_bounds(width) {
                Some(bounds) => {
                    lemma_steps_keep(clamped, smaller(bounds.end_row, last), height, width);
                },
                None => {
                    lemma_steps_keep(
                        clamped,
                        smaller(plus(clamped.cursor_row, 1), last),
                        height,
                        width,
                    );
                },
            }
        },
        KeyAction::Up => {
            let clamped = app.clamp_cursor(width);
            match clamped.focused_bounds(width) {
                Some(bounds) => {
                    lemma_steps_keep(clamped, minus(bounds.start_row, 1), height, width);
                },
                None => {
                    lemma_steps_keep(clamped, minus(clamped.cursor_row, 1), height, width);
                },
            }
        },
        KeyAction::Bottom => {
            let plain = app.unfocused();
            lemma_cursor_keeps(
                AppView { cursor_row: plain.last_row(width), ..plain.count_rows(width) },
                height,
                width,
            );
        },
        _ => {},
    }
}

proof fn lemma_search_keeps(app: AppView, query: Seq<char>, height: usize, width: u16)
    ensures
        same_document(app, app.search(query, height, width)),
        app.search(query, height, width).active_match == 0 || same_search(
            app,
            app.search(query, height, width),
        ),
{
}

/// No key changes the document or its images; only reading it again does, and what happens to its
/// images.
pub proof fn law_keys_keep_the_document(app: AppView, action: KeyAction, viewport: Viewport)
    ensures
        same_document(app, app.act(action, viewport)),
{
    match action {
        KeyAction::NextMatch => {},
        KeyAction::PrevMatch => {},
        KeyAction::SubmitSearch => {
            lemma_search_keeps(app, app.typed_query(), viewport.height, viewport.width);
        },
        KeyAction::Copy => {
            lemma_cursor_keeps(app, viewport.height, viewport.width);
        },
        KeyAction::BeginSelection => {
            lemma_cursor_keeps(app, viewport.height, viewport.width);
        },
        _ => {
            lemma_moves_keep(app, action, viewport);
        },
    }
}

proof fn lemma_other_keys_keep_the_search(app: AppView, action: KeyAction, viewport: Viewport)
    requires
        action != KeyAction::SubmitSearch,
    ensures
        app.act(action, viewport).search_regex == app.search_regex,
{
    match action {
        KeyAction::NextMatch => {},
        KeyAction::PrevMatch => {},
        KeyAction::Copy => {
            lemma_cursor_keeps(app, viewport.height, viewport.width);
        },
        KeyAction::BeginSelection => {
            lemma_cursor_keeps(app, viewport.height, viewport.width);
        },
        _ => {
            lemma_moves_keep(app, action, viewport);
        },
    }
}

/// Keys keep a viewer sound.
pub proof fn law_keys_keep_the_viewer_sound(app: AppView, action: KeyAction, viewport: Viewport)
    requires
        app.is_sound(),
        app.search_matches.len() <= usize::MAX,
    ensures
        app.act(action, viewport).is_sound(),
{
    let after = app.act(action, viewport);
    law_keys_keep_the_document(app, action, viewport);
    assert(after.search_matches.len() > 0 ==> after.active_match < after.search_matches.len()) by {
        match action {
            KeyAction::NextMatch => {
                if app.search_matches.len() > 0 {
                    law_next_and_previous_match(app);
                }
            },
            KeyAction::PrevMatch => {
                if app.search_matches.len() > 0 {
                    law_next_and_previous_match(app);
                }
            },
            KeyAction::SubmitSearch => {
                lemma_search_keeps(app, app.typed_query(), viewport.height, viewport.width);
            },
            KeyAction::Copy => {
                lemma_cursor_keeps(app, viewport.height, viewport.width);
            },
            KeyAction::BeginSelection => {
                lemma_cursor_keeps(app, viewport.height, viewport.width);
            },
            _ => {
                lemma_moves_keep(app, action, viewport);
            },
        }
    }
}

/// Does what a key means. What comes back is left to do outside of the viewer.
pub fn handle_key_event(
    app: &mut App,
    key: KeyEvent,
    viewport_height: usize,
    content_width: u16,
    half_page: usize,
    full_page: usize,
) -> (outcome: KeyOutcome)
    requires
        old(app)@.is_sound(),
    ensures
        final(app)@ == old(app)@.act(
            action_for(old(app)@.mode, key),
            (Viewport { height: viewport_height, width: content_width, half_page, full_page }),
        ),
        final(app)@.is_sound(),
        old(app)@.searches_text() ==> final(app)@.searches_text(),
        outcome@ == old(app)@.left_to_do(
            action_for(old(app)@.mode, key),
            (Viewport { height: viewport_height, width: content_width, half_page, full_page }),
        ),
        !(old(app)@.mode is SearchInput) && key.code is PageDown ==> final(app)@
            == old(app)@.scroll_down(full_page, viewport_height, content_width),
        !(old(app)@.mode is SearchInput) && key.code is PageUp ==> final(app)@
            == old(app)@.scroll_up(full_page, content_width),
        !(old(app)@.mode is SearchInput) && key.code == KeyCode::Char('d') && key.modifiers
            == KeyModifiers::nothing() ==> final(app)@ == old(app)@.scroll_down(
            half_page,
            viewport_height,
            content_width,
        ),
        !(old(app)@.mode is SearchInput) && key.code == KeyCode::Char('u') && key.modifiers
            == KeyModifiers::nothing() ==> final(app)@ == old(app)@.scroll_up(
            half_page,
            content_width,
        ),
{
    let viewport = Viewport {
        height: viewport_height,
        width: content_width,
        half_page,
        full_page,
    };
    let action = key_action(&app.mode, key);
    proof {
        assert(app.search_matches@.len() <= usize::MAX) by {
            let count = app.search_matches.len();
        }
        law_keys_keep_the_viewer_sound(app@, action, viewport);
        law_keys_keep_the_document(app@, action, viewport);
        if action != KeyAction::SubmitSearch {
            lemma_other_keys_keep_the_search(app@, action, viewport);
        }
    }
    match action {
        KeyAction::Quit => KeyOutcome::Quit,
        KeyAction::Reload => KeyOutcome::Reload,
        KeyAction::CancelSearch
        | KeyAction::SubmitSearch
        | KeyAction::EraseChar
        | KeyAction::TypeChar(_) => {
            app.act_on_query(action, viewport);
            KeyOutcome::Continue
        },
        KeyAction::EndSelection
        | KeyAction::Copy
        | KeyAction::ToggleHelp
        | KeyAction::BeginSelection
        | KeyAction::BeginSearch => app.act_on_mode(action, viewport),
        _ => {
            app.act_on_cursor(action, viewport);
            KeyOutcome::Continue
        },
    }
}

} // verus!
