//! Tables: cells padded to common column widths.
use vstd::prelude::*;

use crate::chars::{owned, repeat, repeated};
use crate::numbers::larger;
use crate::style::{Color, Modifier, Style};
use crate::text::{
    group_text_views, lines_view, plain_text, span_view, spans_view, Line, LineView, Span,
};
use crate::width::{is_ascii_text, is_narrow_text, text_columns, text_width};

verus! {

/// What a row of cells holds: the spans of each cell.
pub type RowView = Seq<LineView>;

/// What a row of cells holds.
pub open spec fn row_view(row: Seq<Vec<Span>>) -> RowView {
    Seq::new(row.len(), |i: int| spans_view(row[i]@))
}

/// What a run of rows holds.
pub open spec fn rows_view(rows: Seq<Vec<Vec<Span>>>) -> Seq<RowView> {
    Seq::new(rows.len(), |i: int| row_view(rows[i]@))
}

pub broadcast proof fn lemma_row_push(row: Seq<Vec<Span>>, cell: Vec<Span>)
    ensures
        #[trigger] row_view(row.push(cell)) == row_view(row).push(spans_view(cell@)),
{
    assert(row_view(row.push(cell)) =~= row_view(row).push(spans_view(cell@)));
}

pub broadcast proof fn lemma_rows_push(rows: Seq<Vec<Vec<Span>>>, row: Vec<Vec<Span>>)
    ensures
        #[trigger] rows_view(rows.push(row)) == rows_view(rows).push(row_view(row@)),
{
    assert(rows_view(rows.push(row)) =~= rows_view(rows).push(row_view(row@)));
}

/// The display columns of a cell's spans, added up.
pub open spec fn width_sum(cell: LineView) -> nat
    decreases cell.len(),
{
    if cell.len() == 0 {
        0
    } else {
        width_sum(cell.drop_last()) + text_columns(cell.last().text) as nat
    }
}

/// The display columns of a cell, as far as a machine word can count them.
pub open spec fn cell_text_columns(cell: LineView) -> usize {
    if width_sum(cell) <= usize::MAX {
        width_sum(cell) as usize
    } else {
        usize::MAX
    }
}

/// Whether a cell holds nothing but printable ASCII.
pub open spec fn is_ascii_cell(cell: LineView) -> bool {
    forall|i: int| 0 <= i < cell.len() ==> is_ascii_text((#[trigger] cell[i]).text)
}

/// The display columns of a cell.
pub fn cell_text_width(cell: &Vec<Span>) -> (columns: usize)
    ensures
        columns == cell_text_columns(spans_view(cell@)),
        is_ascii_cell(spans_view(cell@)) ==> columns == if plain_text(spans_view(cell@)).len()
            <= usize::MAX {
            plain_text(spans_view(cell@)).len() as usize
        } else {
            usize::MAX
        },
{
    let ghost all = spans_view(cell@);
    let mut columns: usize = 0;
    let mut i: usize = 0;
    assert(all.take(0) == LineView::empty());
    while i < cell.len()
        invariant
            i <= cell@.len(),
            all == spans_view(cell@),
            columns == cell_text_columns(all.take(i as int)),
            is_ascii_cell(all) ==> columns == if plain_text(all.take(i as int)).len()
                <= usize::MAX {
                plain_text(all.take(i as int)).len() as usize
            } else {
                usize::MAX
            },
        decreases cell.len() - i,
    {
        assert(all.take(i + 1).drop_last() == all.take(i as int));
        assert(all.take(i + 1).last() == all[i as int]);
        columns = columns.saturating_add(text_width(cell[i].content.as_str()));
        i += 1;
    }
    assert(all.take(i as int) == all);
    columns
}

/// The cell in column `j` of a row; a short row is filled up with empty cells.
pub open spec fn cell_at(row: RowView, j: int) -> LineView {
    if 0 <= j < row.len() {
        row[j]
    } else {
        LineView::empty()
    }
}

/// The widest cell that the rows have in column `j`.
pub open spec fn widest(rows: Seq<RowView>, j: int) -> usize
    decreases rows.len(),
{
    if rows.len() == 0 {
        0
    } else {
        larger(widest(rows.drop_last(), j), cell_text_columns(cell_at(rows.last(), j)))
    }
}

/// The length of the longest row.
pub open spec fn longest(rows: Seq<RowView>) -> nat
    decreases rows.len(),
{
    if rows.len() == 0 {
        0
    } else if rows.last().len() > longest(rows.drop_last()) {
        rows.last().len()
    } else {
        longest(rows.drop_last())
    }
}

/// The number of columns of a table.
pub open spec fn column_count(header: RowView, rows: Seq<RowView>) -> nat {
    if header.len() > longest(rows) {
        header.len()
    } else {
        longest(rows)
    }
}

/// The width of each column: that of its widest cell.
pub open spec fn column_widths(header: RowView, rows: Seq<RowView>) -> Seq<usize> {
    Seq::new(
        column_count(header, rows),
        |j: int| larger(cell_text_columns(cell_at(header, j)), widest(rows, j)),
    )
}

/// The style of what separates cells.
pub open spec fn rule_style() -> Style {
    Style::plain().with(Modifier { dim: true, ..Modifier::none() })
}

/// The style of a header span: blue and bold on top of what it had.
pub open spec fn header_style(style: Style) -> Style {
    Style { fg: Some(Color::Rgb(150, 180, 225)), ..style }.with(
        Modifier { bold: true, ..Modifier::none() },
    )
}

/// A cell's spans as they are drawn.
pub open spec fn drawn_cell(cell: LineView, is_header: bool) -> LineView {
    if is_header {
        Seq::new(cell.len(), |i: int| span_view(cell[i].text, header_style(cell[i].style)))
    } else {
        cell
    }
}

/// How many blanks follow a cell to fill its column.
pub open spec fn padding(cell: LineView, width: usize) -> nat {
    if cell_text_columns(cell) < width {
        (width - cell_text_columns(cell)) as nat
    } else {
        0
    }
}

/// The blanks that fill a column after its cell: a span, or nothing where the cell fills it.
pub open spec fn padding_spans(cell: LineView, width: usize) -> LineView {
    if padding(cell, width) > 0 {
        seq![span_view(repeated(" "@, padding(cell, width)), Style::plain())]
    } else {
        LineView::empty()
    }
}

/// The first `upto` columns of a row as they are drawn.
pub open spec fn drawn_row(row: RowView, widths: Seq<usize>, upto: int, is_header: bool) -> LineView
    decreases upto,
{
    if upto <= 0 {
        LineView::empty()
    } else {
        let j = upto - 1;
        let before = drawn_row(row, widths, j, is_header);
        let separated = if j > 0 {
            before.push(span_view(" │ "@, rule_style()))
        } else {
            before
        };
        separated + drawn_cell(cell_at(row, j), is_header) + padding_spans(
            cell_at(row, j),
            widths[j],
        )
    }
}

/// The rule below a table's header, up to column `upto`.
pub open spec fn drawn_rule(widths: Seq<usize>, upto: int) -> LineView
    decreases upto,
{
    if upto <= 0 {
        LineView::empty()
    } else {
        let j = upto - 1;
        let before = drawn_rule(widths, j);
        let separated = if j > 0 {
            before.push(span_view("─┼─"@, rule_style()))
        } else {
            before
        };
        separated.push(
            span_view(repeated("─"@, larger(widths[j], 1) as nat), rule_style()),
        )
    }
}

/// The lines of a table: the header and a rule below it, if there is a header, then the rows.
pub open spec fn drawn_table(header: RowView, rows: Seq<RowView>) -> Seq<LineView> {
    let widths = column_widths(header, rows);
    let n = widths.len() as int;
    if n == 0 {
        Seq::empty()
    } else {
        let top = if header.len() > 0 {
            seq![drawn_row(header, widths, n, true), drawn_rule(widths, n)]
        } else {
            Seq::empty()
        };
        top + Seq::new(rows.len(), |i: int| drawn_row(rows[i], widths, n, false))
    }
}

/// How wide the first `upto` columns of a table are together with the separators between them.
pub open spec fn columns_upto(widths: Seq<usize>, upto: int) -> nat
    decreases upto,
{
    if upto <= 0 {
        0
    } else {
        columns_upto(widths, upto - 1) + widths[upto - 1] as nat + if upto > 1 {
            3nat
        } else {
            0nat
        }
    }
}

/// What tables are ruled and filled up with is as wide as it has characters.
proof fn lemma_rules_are_narrow(n: nat)
    requires
        n <= usize::MAX,
    ensures
        text_columns(" │ "@) == 3,
        text_columns("─┼─"@) == 3,
        text_columns(repeated(" "@, n)) == n,
        text_columns(repeated("─"@, n)) == n,
{
    reveal_strlit(" │ ");
    reveal_strlit("─┼─");
    assert(is_narrow_text(" │ "@));
    assert(is_narrow_text("─┼─"@));
    lemma_repeated_narrow(" "@, n);
    lemma_repeated_narrow("─"@, n);
}

proof fn lemma_repeated_narrow(unit: Seq<char>, n: nat)
    requires
        unit == " "@ || unit == "─"@,
    ensures
        repeated(unit, n).len() == n,
        is_narrow_text(repeated(unit, n)),
    decreases n,
{
    reveal_strlit(" ");
    reveal_strlit("─");
    if n > 0 {
        lemma_repeated_narrow(unit, (n - 1) as nat);
    }
}

/// The cells of a column have one width: in every row a cell and the blanks after it fill exactly
/// the column.
proof fn lemma_cells_fill_columns(header: RowView, rows: Seq<RowView>, row: RowView, j: int)
    requires
        row == header || rows.contains(row),
        0 <= j < column_count(header, rows),
    ensures
        row.len() <= column_count(header, rows),
        cell_text_columns(cell_at(row, j)) + padding(
            cell_at(row, j),
            column_widths(header, rows)[j],
        ) == column_widths(header, rows)[j],
{
    if rows.contains(row) {
        let i = choose|i: int| 0 <= i < rows.len() && rows[i] == row;
        lemma_widest(rows, j, i);
    }
}

proof fn lemma_width_sum_add(a: LineView, b: LineView)
    ensures
        width_sum(a + b) == width_sum(a) + width_sum(b),
    decreases b.len(),
{
    if b.len() == 0 {
        assert(a + b == a);
    } else {
        lemma_width_sum_add(a, b.drop_last());
        assert((a + b).drop_last() == a + b.drop_last());
    }
}

proof fn lemma_drawn_cell_width(cell: LineView, is_header: bool)
    ensures
        width_sum(drawn_cell(cell, is_header)) == width_sum(cell),
    decreases cell.len(),
{
    if is_header && cell.len() > 0 {
        lemma_drawn_cell_width(cell.drop_last(), is_header);
        assert(drawn_cell(cell, is_header).drop_last() == drawn_cell(cell.drop_last(), is_header));
    }
}

proof fn lemma_drawn_row_width(
    header: RowView,
    rows: Seq<RowView>,
    row: RowView,
    upto: int,
    is_header: bool,
)
    requires
        row == header || rows.contains(row),
        0 <= upto <= column_count(header, rows),
        forall|j: int| 0 <= j < upto ==> width_sum(#[trigger] cell_at(row, j)) <= usize::MAX,
    ensures
        width_sum(drawn_row(row, column_widths(header, rows), upto, is_header)) == columns_upto(
            column_widths(header, rows),
            upto,
        ),
    decreases upto,
{
    let widths = column_widths(header, rows);
    if upto > 0 {
        let j = upto - 1;
        let cell = cell_at(row, j);
        lemma_drawn_row_width(header, rows, row, j, is_header);
        lemma_cells_fill_columns(header, rows, row, j);
        let before = drawn_row(row, widths, j, is_header);
        let separated = if j > 0 {
            before.push(span_view(" │ "@, rule_style()))
        } else {
            before
        };
        lemma_rules_are_narrow(padding(cell, widths[j]));
        assert(width_sum(separated) == width_sum(before) + if j > 0 { 3int } else { 0 }) by {
            if j > 0 {
                assert(separated.drop_last() == before);
            }
        }
        let drawn = drawn_cell(cell, is_header);
        let blanks = padding_spans(cell, widths[j]);
        lemma_drawn_cell_width(cell, is_header);
        lemma_width_sum_add(separated, drawn);
        lemma_width_sum_add(separated + drawn, blanks);
        assert(width_sum(cell) == cell_text_columns(cell));
        assert(width_sum(blanks) == padding(cell, widths[j])) by {
            if blanks.len() > 0 {
                assert(blanks.drop_last() == LineView::empty());
                assert(width_sum(LineView::empty()) == 0);
                assert(blanks.last().text == repeated(" "@, padding(cell, widths[j])));
                assert(text_columns(repeated(" "@, padding(cell, widths[j]))) == padding(
                    cell,
                    widths[j],
                ));
            }
        }
    }
}

proof fn lemma_drawn_rule_width(widths: Seq<usize>, upto: int)
    requires
        0 <= upto <= widths.len(),
        forall|j: int| 0 <= j < upto ==> #[trigger] widths[j] > 0,
    ensures
        width_sum(drawn_rule(widths, upto)) == columns_upto(widths, upto),
    decreases upto,
{
    if upto > 0 {
        let j = upto - 1;
        lemma_drawn_rule_width(widths, j);
        let before = drawn_rule(widths, j);
        let separated = if j > 0 {
            before.push(span_view("─┼─"@, rule_style()))
        } else {
            before
        };
        lemma_rules_are_narrow(widths[j] as nat);
        assert(width_sum(separated) == width_sum(before) + if j > 0 { 3int } else { 0 }) by {
            if j > 0 {
                assert(separated.drop_last() == before);
            }
        }
        assert(widths[j] > 0);
        assert(text_columns(repeated("─"@, widths[j] as nat)) == widths[j]);
        let rule = drawn_rule(widths, upto);
        assert(rule.drop_last() == separated);
        assert(rule.last().text == repeated("─"@, widths[j] as nat));
        assert(width_sum(rule) == width_sum(separated) + widths[j]);
    }
}

proof fn lemma_drawn_row_grows(
    row: RowView,
    widths: Seq<usize>,
    upto: int,
    all: int,
    is_header: bool,
)
    requires
        0 <= upto <= all,
    ensures
        drawn_row(row, widths, upto, is_header).is_prefix_of(
            drawn_row(row, widths, all, is_header),
        ),
    decreases all,
{
    if upto < all {
        lemma_drawn_row_grows(row, widths, upto, all - 1, is_header);
    }
}

proof fn lemma_drawn_rule_grows(widths: Seq<usize>, upto: int, all: int)
    requires
        0 <= upto <= all,
    ensures
        drawn_rule(widths, upto).is_prefix_of(drawn_rule(widths, all)),
    decreases all,
{
    if upto < all {
        lemma_drawn_rule_grows(widths, upto, all - 1);
    }
}

/// Up to every separator all rows of a table are equally wide, and so is the rule below the header
/// where no column is without width: separators stand below each other.
pub proof fn law_columns_line_up(
    header: RowView,
    rows: Seq<RowView>,
    row: RowView,
    upto: int,
    is_header: bool,
)
    requires
        row == header || rows.contains(row),
        0 <= upto <= column_count(header, rows),
        forall|j: int| 0 <= j < upto ==> width_sum(#[trigger] cell_at(row, j)) <= usize::MAX,
    ensures
        ({
            let widths = column_widths(header, rows);
            let n = widths.len() as int;
            &&& drawn_row(row, widths, upto, is_header).is_prefix_of(
                drawn_row(row, widths, n, is_header),
            )
            &&& width_sum(drawn_row(row, widths, upto, is_header)) == columns_upto(widths, upto)
            &&& drawn_rule(widths, upto).is_prefix_of(drawn_rule(widths, n))
            &&& (forall|j: int| 0 <= j < upto ==> #[trigger] widths[j] > 0) ==> width_sum(
                drawn_rule(widths, upto),
            ) == columns_upto(widths, upto)
        }),
{
    let widths = column_widths(header, rows);
    lemma_drawn_row_width(header, rows, row, upto, is_header);
    lemma_drawn_row_grows(row, widths, upto, widths.len() as int, is_header);
    lemma_drawn_rule_grows(widths, upto, widths.len() as int);
    if forall|j: int| 0 <= j < upto ==> #[trigger] widths[j] > 0 {
        lemma_drawn_rule_width(widths, upto);
    }
}

proof fn lemma_widest(rows: Seq<RowView>, j: int, i: int)
    requires
        0 <= i < rows.len(),
    ensures
        cell_text_columns(cell_at(rows[i], j)) <= widest(rows, j),
        rows[i].len() <= longest(rows),
    decreases rows.len(),
{
    if i < rows.len() - 1 {
        lemma_widest(rows.drop_last(), j, i);
    }
}

/// The number of columns of a table.
fn count_columns(header: &Vec<Vec<Span>>, rows: &Vec<Vec<Vec<Span>>>) -> (count: usize)
    ensures
        count == column_count(row_view(header@), rows_view(rows@)),
{
    let ghost all = rows_view(rows@);
    let mut count: usize = 0;
    let mut i: usize = 0;
    assert(all.take(0) == Seq::<RowView>::empty());
    while i < rows.len()
        invariant
            i <= rows@.len(),
            all == rows_view(rows@),
            count == longest(all.take(i as int)),
        decreases rows.len() - i,
    {
        assert(all.take(i + 1).drop_last() == all.take(i as int));
        if rows[i].len() > count {
            count = rows[i].len();
        }
        i += 1;
    }
    assert(all.take(i as int) == all);
    if header.len() > count {
        header.len()
    } else {
        count
    }
}

/// The width of the cell in column `j` of a row.
fn width_at(row: &Vec<Vec<Span>>, j: usize) -> (columns: usize)
    ensures
        columns == cell_text_columns(cell_at(row_view(row@), j as int)),
{
    if j < row.len() {
        cell_text_width(&row[j])
    } else {
        assert(width_sum(LineView::empty()) == 0);
        0
    }
}

/// The width of each column.
fn measure_columns(header: &Vec<Vec<Span>>, rows: &Vec<Vec<Vec<Span>>>, count: usize) -> (widths:
    Vec<usize>)
    requires
        count == column_count(row_view(header@), rows_view(rows@)),
    ensures
        widths@ == column_widths(row_view(header@), rows_view(rows@)),
{
    let ghost all = rows_view(rows@);
    let mut widths: Vec<usize> = Vec::new();
    let mut j: usize = 0;
    while j < count
        invariant
            j <= count,
            all == rows_view(rows@),
            widths@.len() == j,
            forall|k: int|
                0 <= k < j ==> #[trigger] widths@[k] == larger(
                    cell_text_columns(cell_at(row_view(header@), k)),
                    widest(all, k),
                ),
        decreases count - j,
    {
        let mut width: usize = 0;
        let mut i: usize = 0;
        assert(all.take(0) == Seq::<RowView>::empty());
        while i < rows.len()
            invariant
                i <= rows@.len(),
                all == rows_view(rows@),
                width == widest(all.take(i as int), j as int),
            decreases rows.len() - i,
        {
            assert(all.take(i + 1).drop_last() == all.take(i as int));
            let columns = width_at(&rows[i], j);
            if columns > width {
                width = columns;
            }
            i += 1;
        }
        assert(all.take(i as int) == all);
        let head = width_at(header, j);
        widths.push(
            if head >= width {
                head
            } else {
                width
            },
        );
        j += 1;
    }
    assert(widths@ =~= column_widths(row_view(header@), all));
    widths
}

/// A row as it is drawn: cells padded to their columns, with separators between them.
pub fn render_table_row(row: &Vec<Vec<Span>>, widths: &Vec<usize>, is_header: bool) -> (line: Line)
    ensures
        line@ == drawn_row(row_view(row@), widths@, widths@.len() as int, is_header),
{
    broadcast use group_text_views;

    let ghost cells = row_view(row@);
    let separator_style = Style::new().add_modifier(Modifier::dim());
    let mut spans: Vec<Span> = Vec::new();
    let mut j: usize = 0;
    assert(spans_view(spans@) == LineView::empty());
    while j < widths.len()
        invariant
            j <= widths@.len(),
            cells == row_view(row@),
            separator_style == rule_style(),
            spans_view(spans@) == drawn_row(cells, widths@, j as int, is_header),
        decreases widths.len() - j,
    {
        if j > 0 {
            spans.push(Span::styled(owned(" │ "), separator_style));
        }
        let ghost start = spans_view(spans@);
        let ghost cell = cell_at(cells, j as int);
        let ghost drawn = drawn_cell(cell, is_header);
        assert(drawn.take(0) == LineView::empty());
        assert(start + drawn.take(0) == start);
        if j < row.len() {
            let mut i: usize = 0;
            while i < row[j].len()
                invariant
                    j < row@.len(),
                    cells == row_view(row@),
                    cell == cell_at(cells, j as int),
                    drawn == drawn_cell(cell, is_header),
                    i <= row@[j as int]@.len(),
                    spans_view(spans@) == start + drawn.take(i as int),
                decreases row@[j as int]@.len() - i,
            {
                let span = &row[j][i];
                assert(cell[i as int] == span@);
                let style = if is_header {
                    span.style.fg(Color::Rgb(150, 180, 225)).add_modifier(Modifier::bold())
                } else {
                    span.style
                };
                spans.push(Span::styled(owned(span.content.as_str()), style));
                assert(drawn.take(i + 1) == drawn.take(i as int).push(drawn[i as int]));
                assert(start + drawn.take(i + 1) == (start + drawn.take(i as int)).push(
                    drawn[i as int],
                ));
                i += 1;
            }
        }
        assert(drawn.take(drawn.len() as int) == drawn);
        let columns = width_at(row, j);
        if columns < widths[j] {
            let ghost filled = spans_view(spans@);
            spans.push(Span::raw(repeat(" ", widths[j] - columns)));
            assert(spans_view(spans@) == filled + padding_spans(cell, widths@[j as int]));
        } else {
            assert(spans_view(spans@) + LineView::empty() == spans_view(spans@));
        }
        j += 1;
    }
    Line { spans }
}

/// The rule below a table's header.
pub fn render_table_separator(widths: &Vec<usize>) -> (line: Line)
    ensures
        line@ == drawn_rule(widths@, widths@.len() as int),
{
    broadcast use group_text_views;

    let style = Style::new().add_modifier(Modifier::dim());
    let mut spans: Vec<Span> = Vec::new();
    let mut j: usize = 0;
    assert(spans_view(spans@) == LineView::empty());
    while j < widths.len()
        invariant
            j <= widths@.len(),
            style == rule_style(),
            spans_view(spans@) == drawn_rule(widths@, j as int),
        decreases widths.len() - j,
    {
        if j > 0 {
            spans.push(Span::styled(owned("─┼─"), style));
        }
        let len = if widths[j] >= 1 {
            widths[j]
        } else {
            1
        };
        spans.push(Span::styled(repeat("─", len), style));
        j += 1;
    }
    Line { spans }
}

/// The lines of a table: the header and a rule below it, if there is a header, then the rows.
pub fn render_table(header: &Vec<Vec<Span>>, rows: &Vec<Vec<Vec<Span>>>) -> (lines: Vec<Line>)
    ensures
        lines_view(lines@) == drawn_table(row_view(header@), rows_view(rows@)),
{
    broadcast use group_text_views;

    let ghost head = row_view(header@);
    let ghost all = rows_view(rows@);
    let ghost table = drawn_table(head, all);
    let count = count_columns(header, rows);
    let mut lines: Vec<Line> = Vec::new();
    if count == 0 {
        assert(lines_view(lines@) =~= table);
        return lines;
    }
    let widths = measure_columns(header, rows, count);
    let ghost n = widths@.len() as int;
    if !header.is_empty() {
        lines.push(render_table_row(header, &widths, true));
        lines.push(render_table_separator(&widths));
    }
    let ghost top = lines_view(lines@);
    let ghost top_len = lines@.len() as int;
    assert(top =~= if head.len() > 0 {
        seq![drawn_row(head, widths@, n, true), drawn_rule(widths@, n)]
    } else {
        Seq::<LineView>::empty()
    });
    let mut i: usize = 0;
    while i < rows.len()
        invariant
            i <= rows@.len(),
            all == rows_view(rows@),
            n == widths@.len(),
            top.len() == top_len,
            lines@.len() == top_len + i,
            forall|k: int| 0 <= k < top_len ==> (#[trigger] lines@[k])@ == top[k],
            forall|k: int|
                0 <= k < i ==> (#[trigger] lines@[top_len + k])@ == drawn_row(
                    all[k],
                    widths@,
                    n,
                    false,
                ),
        decreases rows.len() - i,
    {
        lines.push(render_table_row(&rows[i], &widths, false));
        i += 1;
    }
    assert(lines_view(lines@) =~= table) by {
        assert forall|k: int| 0 <= k < lines@.len() implies lines_view(lines@)[k] == table[k] by {
            if k >= top_len {
                assert(lines@[top_len + (k - top_len)]@ == drawn_row(
                    all[k - top_len],
                    widths@,
                    n,
                    false,
                ));
            }
        }
    }
    lines
}

} // verus!
