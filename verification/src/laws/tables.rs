//! What a table looks like.
use vstd::prelude::*;

use crate::chars::repeated;
use crate::laws::marks::{faint, unmarked};
use crate::style::{Color, Modifier, Style};
use crate::table::{
    cell_at, cell_text_columns, column_count, column_widths, drawn_cell, drawn_row, drawn_rule,
    drawn_table, longest, widest, RowView,
};
use crate::text::{LineView, SpanView};

verus! {

/// A table has as many columns as its longest row, the head included.
pub proof fn law_tables_have_a_column_for_every_cell(header: RowView, rows: Seq<RowView>)
    ensures
        header.len() <= column_count(header, rows),
        forall|i: int|
            0 <= i < rows.len() ==> (#[trigger] rows[i]).len() <= column_count(header, rows),
        column_count(header, rows) == header.len() || exists|i: int|
            0 <= i < rows.len() && (#[trigger] rows[i]).len() == column_count(header, rows),
        column_widths(header, rows).len() == column_count(header, rows),
{
    lemma_longest(rows);
}

proof fn lemma_longest(rows: Seq<RowView>)
    ensures
        forall|i: int| 0 <= i < rows.len() ==> (#[trigger] rows[i]).len() <= longest(rows),
        longest(rows) == 0 || exists|i: int|
            0 <= i < rows.len() && (#[trigger] rows[i]).len() == longest(rows),
    decreases rows.len(),
{
    if rows.len() > 0 {
        let front = rows.drop_last();
        lemma_longest(front);
        assert forall|i: int| 0 <= i < rows.len() implies (#[trigger] rows[i]).len() <= longest(
            rows,
        ) by {
            if i < front.len() {
                assert(front[i] == rows[i]);
            }
        }
        if longest(rows) > rows.last().len() {
            let i = choose|i: int|
                0 <= i < front.len() && (#[trigger] front[i]).len() == longest(front);
            assert(rows[i].len() == longest(rows));
        } else {
            assert(rows[rows.len() - 1].len() == longest(rows));
        }
    }
}

proof fn lemma_widest(rows: Seq<RowView>, j: int)
    ensures
        forall|i: int|
            0 <= i < rows.len() ==> cell_text_columns(cell_at(#[trigger] rows[i], j)) <= widest(
                rows,
                j,
            ),
        widest(rows, j) == 0 || exists|i: int|
            0 <= i < rows.len() && cell_text_columns(cell_at(#[trigger] rows[i], j)) == widest(
                rows,
                j,
            ),
    decreases rows.len(),
{
    if rows.len() > 0 {
        let front = rows.drop_last();
        lemma_widest(front, j);
        assert forall|i: int| 0 <= i < rows.len() implies cell_text_columns(
            cell_at(#[trigger] rows[i], j),
        ) <= widest(rows, j) by {
            if i < front.len() {
                assert(front[i] == rows[i]);
            }
        }
        if widest(rows, j) > cell_text_columns(cell_at(rows.last(), j)) {
            let i = choose|i: int|
                0 <= i < front.len() && cell_text_columns(cell_at(#[trigger] front[i], j))
                    == widest(front, j);
            assert(cell_text_columns(cell_at(rows[i], j)) == widest(rows, j));
        } else {
            assert(cell_text_columns(cell_at(rows[rows.len() - 1], j)) == widest(rows, j));
        }
    }
}

/// A column is as wide as the widest of its cells, that of the head included.
pub proof fn law_columns_are_as_wide_as_their_widest_cell(
    header: RowView,
    rows: Seq<RowView>,
    j: int,
)
    requires
        0 <= j < column_count(header, rows),
    ensures
        ({
            let width = column_widths(header, rows)[j];
            &&& cell_text_columns(cell_at(header, j)) <= width
            &&& forall|i: int|
                0 <= i < rows.len() ==> cell_text_columns(cell_at(#[trigger] rows[i], j)) <= width
            &&& width == cell_text_columns(cell_at(header, j)) || exists|i: int|
                0 <= i < rows.len() && cell_text_columns(cell_at(#[trigger] rows[i], j)) == width
        }),
{
    lemma_widest(rows, j);
}

/// A cell that a row does not have is empty.
pub proof fn law_short_rows_are_filled_up(row: RowView, j: int)
    ensures
        0 <= j < row.len() ==> cell_at(row, j) == row[j],
        j >= row.len() ==> cell_at(row, j).len() == 0,
{
}

proof fn lemma_blanks(count: nat)
    ensures
        repeated(" "@, count).len() == count,
        forall|i: int| 0 <= i < count ==> #[trigger] repeated(" "@, count)[i] == ' ',
    decreases count,
{
    reveal_strlit(" ");
    if count > 0 {
        lemma_blanks((count - 1) as nat);
    }
}

proof fn lemma_dashes(count: nat)
    ensures
        repeated("─"@, count).len() == count,
        forall|i: int| 0 <= i < count ==> #[trigger] repeated("─"@, count)[i] == '─',
    decreases count,
{
    reveal_strlit("─");
    if count > 0 {
        lemma_dashes((count - 1) as nat);
    }
}

/// Whether spans are the blanks that fill a column up: one span of them, or nothing.
pub open spec fn is_filling(spans: LineView, count: int) -> bool {
    if count > 0 {
        &&& spans.len() == 1
        &&& spans[0].style == unmarked()
        &&& spans[0].text.len() == count
        &&& forall|i: int| 0 <= i < count ==> #[trigger] spans[0].text[i] == ' '
    } else {
        spans.len() == 0
    }
}

/// Cell follows cell: a dim bar between blanks, the spans of the cell, and the blanks that are
/// missing to the width of its column.
pub proof fn law_cells_are_drawn_one_after_another(
    row: RowView,
    widths: Seq<usize>,
    j: int,
    is_header: bool,
)
    requires
        0 <= j < widths.len(),
    ensures
        ({
            let before = drawn_row(row, widths, j, is_header);
            let after = drawn_row(row, widths, j + 1, is_header);
            let bar = if j > 0 {
                seq![SpanView { text: " │ "@, style: faint() }]
            } else {
                Seq::empty()
            };
            let cell = drawn_cell(cell_at(row, j), is_header);
            let head = before + bar + cell;
            &&& head.len() <= after.len()
            &&& after.take(head.len() as int) == head
            &&& is_filling(
                after.skip(head.len() as int),
                widths[j] - cell_text_columns(cell_at(row, j)),
            )
        }),
        drawn_row(row, widths, 0, is_header).len() == 0,
{
    let before = drawn_row(row, widths, j, is_header);
    let after = drawn_row(row, widths, j + 1, is_header);
    let bar = if j > 0 {
        seq![SpanView { text: " │ "@, style: faint() }]
    } else {
        Seq::empty()
    };
    let cell = drawn_cell(cell_at(row, j), is_header);
    let head = before + bar + cell;
    let missing = widths[j] - cell_text_columns(cell_at(row, j));
    if missing > 0 {
        lemma_blanks(missing as nat);
    }
    let filling = crate::table::padding_spans(cell_at(row, j), widths[j]);
    assert(after =~= head + filling) by {
        if j > 0 {
            assert(before.push(SpanView { text: " │ "@, style: faint() }) =~= before + bar);
        } else {
            assert(before + bar =~= before);
        }
    }
    assert((head + filling).take(head.len() as int) =~= head);
    assert((head + filling).skip(head.len() as int) =~= filling);
}

/// Cells keep their texts and, below the head, their styles. In the head they are blue and bold on
/// top of what they were.
pub proof fn law_heads_are_blue_and_bold(cell: LineView, i: int)
    requires
        0 <= i < cell.len(),
    ensures
        drawn_cell(cell, false) == cell,
        drawn_cell(cell, true).len() == cell.len(),
        drawn_cell(cell, true)[i] == (SpanView {
            text: cell[i].text,
            style: Style {
                fg: Some(Color::Rgb(150, 180, 225)),
                bg: cell[i].style.bg,
                add_modifier: Modifier { bold: true, ..cell[i].style.add_modifier },
            },
        }),
{
}

/// The rule below the head is dim: dashes for each column, at least one, and crosses with dashes
/// around them between the columns.
pub proof fn law_rules_follow_the_columns(widths: Seq<usize>, j: int)
    requires
        0 <= j < widths.len(),
    ensures
        ({
            let before = drawn_rule(widths, j);
            let after = drawn_rule(widths, j + 1);
            let dashes = after.last();
            &&& after.drop_last() == before + (if j > 0 {
                seq![SpanView { text: "─┼─"@, style: faint() }]
            } else {
                Seq::empty()
            })
            &&& after.len() > 0 && dashes.style == faint()
            &&& widths[j] > 0 ==> dashes.text.len() == widths[j]
            &&& widths[j] == 0 ==> dashes.text.len() == 1
            &&& forall|i: int| 0 <= i < dashes.text.len() ==> #[trigger] dashes.text[i] == '─'
        }),
        drawn_rule(widths, 0).len() == 0,
{
    let before = drawn_rule(widths, j);
    let after = drawn_rule(widths, j + 1);
    lemma_dashes(
        if widths[j] > 0 {
            widths[j] as nat
        } else {
            1
        },
    );
    assert(after.drop_last() =~= before + (if j > 0 {
        seq![SpanView { text: "─┼─"@, style: faint() }]
    } else {
        Seq::empty()
    }));
}

/// A table is drawn row by row: the head and the rule below it first, if there is a head, then the
/// rows in their order, each with all columns.
pub proof fn law_tables_are_drawn_row_by_row(header: RowView, rows: Seq<RowView>)
    ensures
        ({
            let drawn = drawn_table(header, rows);
            let widths = column_widths(header, rows);
            let n = widths.len() as int;
            let top: int = if header.len() > 0 {
                2
            } else {
                0
            };
            &&& n == 0 ==> drawn.len() == 0
            &&& n > 0 ==> {
                &&& drawn.len() == top + rows.len()
                &&& header.len() > 0 ==> drawn[0] == drawn_row(header, widths, n, true) && drawn[1]
                    == drawn_rule(widths, n)
                &&& forall|i: int|
                    0 <= i < rows.len() ==> #[trigger] drawn[top + i] == drawn_row(
                        rows[i],
                        widths,
                        n,
                        false,
                    )
            }
        }),
{
}

} // verus!
