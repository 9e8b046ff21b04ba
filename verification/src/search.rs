//! Searching the document.
use regex::Regex;
use vstd::prelude::*;

use crate::app::{App, AppView};
use crate::chars::{decimal, decimal_text, owned};
use crate::numbers::smaller;
use crate::pattern::{
    compile_search, compiled, describe_error, error_text, escaped, has_full_matches, is_literal,
    is_match, match_ranges, search_pattern,
};
use crate::text::{plain_text, LineView};

verus! {

impl AppView {
    /// Whether the search, if there is one, is for a text as it stands, and every match of it in
    /// the document has a character in it.
    pub open spec fn searches_text(self) -> bool {
        self.search_regex matches Some(expression) ==> is_literal(expression) && forall|i: int|
            0 <= i < self.lines.len() ==> has_full_matches(
                expression,
                plain_text(#[trigger] self.lines[i]),
            )
    }
}

/// Whether an expression matches somewhere in a line.
pub open spec fn line_matches(line: LineView, expression: Regex) -> bool {
    match_ranges(expression, plain_text(line)).len() > 0
}

/// Those of the first `upto` lines that an expression matches in.
pub open spec fn matching_upto(lines: Seq<LineView>, expression: Regex, upto: int) -> Seq<usize>
    decreases upto,
{
    if upto <= 0 {
        Seq::empty()
    } else if line_matches(lines[upto - 1], expression) {
        matching_upto(lines, expression, upto - 1).push((upto - 1) as usize)
    } else {
        matching_upto(lines, expression, upto - 1)
    }
}

/// The lines that an expression matches in, in order.
pub open spec fn matching_lines(lines: Seq<LineView>, expression: Regex) -> Seq<usize> {
    matching_upto(lines, expression, lines.len() as int)
}

/// The lines that are found are exactly those with a match, each once, from the top down.
pub proof fn law_search_finds_every_match(lines: Seq<LineView>, expression: Regex)
    requires
        lines.len() <= usize::MAX,
    ensures
        forall|i: int|
            0 <= i < lines.len() ==> (line_matches(#[trigger] lines[i], expression)
                <==> matching_lines(lines, expression).contains(i as usize)),
        forall|k: int|
            0 <= k < matching_lines(lines, expression).len() ==> (#[trigger] matching_lines(
                lines,
                expression,
            )[k]) < lines.len(),
        forall|j: int, k: int|
            0 <= j < k < matching_lines(lines, expression).len() ==> (#[trigger] matching_lines(
                lines,
                expression,
            )[j]) < (#[trigger] matching_lines(lines, expression)[k]),
{
    lemma_matching_upto(lines, expression, lines.len() as int);
}

proof fn lemma_matching_upto(lines: Seq<LineView>, expression: Regex, upto: int)
    requires
        0 <= upto <= lines.len() <= usize::MAX,
    ensures
        forall|i: int|
            0 <= i < upto ==> (line_matches(#[trigger] lines[i], expression) <==> matching_upto(
                lines,
                expression,
                upto,
            ).contains(i as usize)),
        forall|k: int|
            0 <= k < matching_upto(lines, expression, upto).len() ==> (#[trigger] matching_upto(
                lines,
                expression,
                upto,
            )[k]) < upto,
        forall|j: int, k: int|
            0 <= j < k < matching_upto(lines, expression, upto).len() ==> (
            #[trigger] matching_upto(lines, expression, upto)[j]) < (#[trigger] matching_upto(
                lines,
                expression,
                upto,
            )[k]),
    decreases upto,
{
    if upto > 0 {
        lemma_matching_upto(lines, expression, upto - 1);
        let before = matching_upto(lines, expression, upto - 1);
        let found = matching_upto(lines, expression, upto);
        assert forall|i: int| 0 <= i < upto implies (line_matches(#[trigger] lines[i], expression)
            <==> found.contains(i as usize)) by {
            if line_matches(lines[upto - 1], expression) {
                assert(found[before.len() as int] == (upto - 1) as usize);
                if i < upto - 1 {
                    if before.contains(i as usize) {
                        let k = choose|k: int| 0 <= k < before.len() && before[k] == i as usize;
                        assert(found[k] == i as usize);
                    }
                    if found.contains(i as usize) {
                        let k = choose|k: int| 0 <= k < found.len() && found[k] == i as usize;
                        assert(k < before.len());
                        assert(before[k] == i as usize);
                    }
                }
            } else if i == upto - 1 && before.contains(i as usize) {
                let k = choose|k: int| 0 <= k < before.len() && before[k] == i as usize;
                assert(before[k] < upto - 1);
            }
        }
    }
}

impl AppView {
    /// The viewer without a search.
    pub open spec fn clear_search(self) -> AppView {
        AppView {
            search_query: None,
            search_regex: None,
            search_matches: Seq::empty(),
            active_match: 0,
            focused_image: None,
            highlighted: None,
            row_counts: Map::empty(),
            status: "search cleared"@,
            ..self
        }
    }

    /// The viewer with the matches of its search, as the lines are now.
    pub open spec fn find_matches(self) -> AppView {
        AppView {
            search_matches: match self.search_regex {
                Some(expression) => matching_lines(self.lines, expression),
                None => Seq::empty(),
            },
            active_match: 0,
            focused_image: None,
            highlighted: None,
            ..self
        }
    }

    /// The cursor is on the line of a match, which is the first on the screen if the page allows.
    pub open spec fn go_to_match(
        self,
        index: usize,
        viewport_height: usize,
        content_width: u16,
    ) -> AppView {
        let row = self.row_of_line(self.search_matches[index as int], content_width);
        let app = AppView { cursor_row: row, ..self };
        AppView {
            scroll: smaller(row, app.max_scroll(viewport_height, content_width)),
            ..app.count_rows(content_width)
        }
    }

    /// The viewer with a new search, at the first match.
    pub open spec fn search_with(
        self,
        query: Seq<char>,
        expression: Regex,
        viewport_height: usize,
        content_width: u16,
    ) -> AppView {
        let app = AppView {
            row_counts: Map::empty(),
            ..AppView {
                search_query: Some(query),
                search_regex: Some(expression),
                ..self
            }.find_matches()
        };
        if app.search_matches.len() == 0 {
            AppView { status: "no matches for /"@ + query, ..app }
        } else {
            AppView {
                status: decimal_text(app.search_matches.len()) + " matches for /"@ + query,
                ..app.go_to_match(0, viewport_height, content_width)
            }
        }
    }

    /// The viewer after a search. An empty query ends the search.
    pub open spec fn search(
        self,
        query: Seq<char>,
        viewport_height: usize,
        content_width: u16,
    ) -> AppView {
        if query.len() == 0 {
            self.clear_search()
        } else {
            match search_pattern(query) {
                Ok(expression) => self.search_with(
                    query,
                    expression,
                    viewport_height,
                    content_width,
                ),
                Err(error) => AppView { status: "invalid search: "@ + error_text(error), ..self },
            }
        }
    }

    /// The viewer at another match; where there are none it says so.
    pub open spec fn jump_to_match(
        self,
        index: usize,
        viewport_height: usize,
        content_width: u16,
    ) -> AppView {
        if self.search_matches.len() == 0 {
            AppView { status: "no active search results"@, ..self }
        } else {
            AppView {
                active_match: index,
                focused_image: None,
                highlighted: None,
                ..self
            }.go_to_match(index, viewport_height, content_width)
        }
    }

    /// The match after the active one; the first after the last.
    pub open spec fn next_match(self) -> usize {
        ((self.active_match + 1) % self.search_matches.len() as int) as usize
    }

    /// The match before the active one; the last before the first.
    pub open spec fn prev_match(self) -> usize {
        if self.active_match == 0 {
            (self.search_matches.len() - 1) as usize
        } else {
            (self.active_match - 1) as usize
        }
    }
}

/// Going to the next match and then to the one before it leads back, and so does the other way
/// round.
pub proof fn law_next_and_previous_match(app: AppView)
    requires
        app.active_match < app.search_matches.len() <= usize::MAX,
    ensures
        (AppView { active_match: app.next_match(), ..app }).prev_match() == app.active_match,
        (AppView { active_match: app.prev_match(), ..app }).next_match() == app.active_match,
        app.next_match() < app.search_matches.len(),
        app.prev_match() < app.search_matches.len(),
{
    let n = app.search_matches.len() as int;
    if app.active_match + 1 < n {
        assert((app.active_match + 1) % n == app.active_match + 1) by (nonlinear_arith)
            requires
                0 <= app.active_match + 1 < n,
        ;
    } else {
        assert(n % n == 0) by (nonlinear_arith)
            requires
                n > 0,
        ;
    }
    if app.active_match > 0 {
        assert((app.active_match as int) % n == app.active_match) by (nonlinear_arith)
            requires
                0 <= app.active_match < n,
        ;
    } else {
        assert(n % n == 0) by (nonlinear_arith)
            requires
                n > 0,
        ;
    }
}

impl App {
    /// Looks for the matches of the search in the lines as they are now.
    pub fn rebuild_search_matches(&mut self)
        ensures
            final(self)@ == old(self)@.find_matches(),
            (old(self)@.search_regex is Some ==> is_literal(old(self)@.search_regex->0))
                ==> final(self)@.searches_text(),
    {
        self.search_matches.clear();
        self.active_match = 0;
        self.focused_image = None;
        self.invalidate_highlight_cache();
        let mut found: Vec<usize> = Vec::new();
        if let Some(regex) = &self.search_regex {
            let ghost lines = self@.lines;
            let mut i: usize = 0;
            while i < self.doc.lines.len()
                invariant
                    i <= self.doc.lines@.len(),
                    lines == self@.lines,
                    lines.len() == self.doc.lines@.len(),
                    found@ == matching_upto(lines, *regex, i as int),
                    is_literal(*regex) ==> forall|k: int|
                        0 <= k < i ==> has_full_matches(*regex, plain_text(#[trigger] lines[k])),
                decreases self.doc.lines.len() - i,
            {
                let text = self.line_text_at(i);
                if is_match(regex, text.as_str()) {
                    found.push(i);
                }
                i += 1;
            }
        }
        self.search_matches = found;
    }

    /// Puts the cursor on the line of a match.
    fn go_to_match(&mut self, index: usize, viewport_height: usize, content_width: u16)
        requires
            old(self)@.is_sound(),
            index < old(self)@.search_matches.len(),
        ensures
            final(self)@ == old(self)@.go_to_match(index, viewport_height, content_width),
    {
        let row = self.virtual_row_for_doc_line(self.search_matches[index], content_width);
        self.cursor_row = row;
        let limit = self.max_scroll(viewport_height, content_width);
        self.scroll = if row <= limit {
            row
        } else {
            limit
        };
    }

    /// Starts a search with an expression, at its first match.
    pub fn search_with(
        &mut self,
        query: &str,
        regex: Regex,
        viewport_height: usize,
        content_width: u16,
    )
        requires
            old(self)@.is_sound(),
        ensures
            final(self)@ == old(self)@.search_with(query@, regex, viewport_height, content_width),
            final(self)@.is_sound(),
            is_literal(regex) ==> final(self)@.searches_text(),
    {
        self.search_query = Some(owned(query));
        self.search_regex = Some(regex);
        self.rebuild_search_matches();
        self.invalidate_virtual_row_cache();
        if self.search_matches.is_empty() {
            let mut status = owned("no matches for /");
            status.append(query);
            self.status = status;
            return;
        }
        self.go_to_match(0, viewport_height, content_width);
        let mut status = decimal(self.search_matches.len() as u64);
        status.append(" matches for /");
        status.append(query);
        self.status = status;
    }

    /// Searches for a text, whatever its case, and goes to the first match. An empty text ends the
    /// search.
    pub fn search(&mut self, query: &str, viewport_height: usize, content_width: u16)
        requires
            old(self)@.is_sound(),
        ensures
            final(self)@ == old(self)@.search(query@, viewport_height, content_width),
            final(self)@.is_sound(),
            old(self)@.searches_text() ==> final(self)@.searches_text(),
    {
        if query.is_empty() {
            self.search_query = None;
            self.search_regex = None;
            self.search_matches.clear();
            self.active_match = 0;
            self.focused_image = None;
            self.invalidate_highlight_cache();
            self.invalidate_virtual_row_cache();
            self.status = owned("search cleared");
            return;
        }
        match compile_search(query) {
            Ok(regex) => {
                proof {
                    assert(compiled(escaped(query@), true) == Ok::<Regex, regex::Error>(regex));
                }
                self.search_with(query, regex, viewport_height, content_width)
            },
            Err(error) => {
                let mut status = owned("invalid search: ");
                let reason = describe_error(&error);
                status.append(reason.as_str());
                self.status = status;
            },
        }
    }

    /// Goes to another match, if there is one.
    fn jump_to_match(&mut self, index: usize, viewport_height: usize, content_width: u16)
        requires
            old(self)@.is_sound(),
            index < old(self)@.search_matches.len(),
        ensures
            final(self)@ == old(self)@.jump_to_match(index, viewport_height, content_width),
    {
        self.active_match = index;
        self.focused_image = None;
        self.invalidate_highlight_cache();
        self.go_to_match(index, viewport_height, content_width);
    }

    /// Goes to the next match; after the last one to the first.
    pub fn jump_next_match(&mut self, viewport_height: usize, content_width: u16)
        requires
            old(self)@.is_sound(),
        ensures
            final(self)@ == old(self)@.jump_to_match(
                old(self)@.next_match(),
                viewport_height,
                content_width,
            ),
            final(self)@.is_sound(),
    {
        if self.search_matches.is_empty() {
            self.status = owned("no active search results");
            return;
        }
        let count = self.search_matches.len();
        let index = (self.active_match + 1) % count;
        self.jump_to_match(index, viewport_height, content_width);
    }

    /// Goes to the match before the active one; before the first one to the last.
    pub fn jump_prev_match(&mut self, viewport_height: usize, content_width: u16)
        requires
            old(self)@.is_sound(),
        ensures
            final(self)@ == old(self)@.jump_to_match(
                old(self)@.prev_match(),
                viewport_height,
                content_width,
            ),
            final(self)@.is_sound(),
    {
        if self.search_matches.is_empty() {
            self.status = owned("no active search results");
            return;
        }
        let index = if self.active_match == 0 {
            self.search_matches.len() - 1
        } else {
            self.active_match - 1
        };
        self.jump_to_match(index, viewport_height, content_width);
    }
}

} // verus!
