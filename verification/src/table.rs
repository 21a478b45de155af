//! Aligned text tables, laid out by the `tabular` crate.
//!
//! The crate's table is filled line by line. What it holds is known to the contracts through
//! [`table_format`] and [`table_lines`]; how it lays the lines out is not written down here:
//! the finished text goes by the name [`table_text`].

use crate::text::{
    clean, clean_heading, is_plain, is_safe_line, lemma_clean_heading, lemma_clean_is_plain, sanitize,
    sanitize_heading, texts_of,
};
use vstd::prelude::*;

verus! {

/// `tabular::Table`: a row format and the lines added so far.
#[verifier::external_type_specification]
#[verifier::external_body]
pub struct ExTable(tabular::Table);

/// One line of a table.
pub enum Line {
    /// A text that spans all columns and takes no part in their alignment.
    Heading(Seq<char>),
    /// One cell per column.
    Cells(Seq<Seq<char>>),
}

/// The row format that `table` was made with.
pub uninterp spec fn table_format(table: tabular::Table) -> Seq<char>;

/// The lines that were added to `table`, in the order in which they were added.
pub uninterp spec fn table_lines(table: tabular::Table) -> Seq<Line>;

/// The text that `tabular` lays out for a table with the row format `format` that holds
/// `lines`: one line of text per table line, every column as wide as its widest cell.
pub uninterp spec fn table_text(format: Seq<char>, lines: Seq<Line>) -> Seq<char>;

/// The number of columns that a row format describes, or `None` if it is not a row format.
///
/// `{:<}`, `{:^}` and `{:>}` each stand for a column; `{{` and `}}` stand for a brace; any
/// other brace is an error; every other character stands for itself.
pub open spec fn format_columns(format: Seq<char>) -> Option<nat>
    decreases format.len(),
{
    if format.len() == 0 {
        Some(0)
    } else if format[0] == '{' {
        if format.len() >= 2 && format[1] == '{' {
            format_columns(format.skip(2))
        } else if format.len() >= 4 && format[1] == ':' && (format[2] == '<' || format[2] == '^'
            || format[2] == '>') && format[3] == '}' {
            match format_columns(format.skip(4)) {
                Some(n) => Some(n + 1),
                None => None,
            }
        } else {
            None
        }
    } else if format[0] == '}' {
        if format.len() >= 2 && format[1] == '}' {
            format_columns(format.skip(2))
        } else {
            None
        }
    } else {
        format_columns(format.skip(1))
    }
}

/// `tabular::Table::new`: an empty table with the given row format. The call panics on a text
/// that is not a row format, so only row formats are admitted.
#[verifier::external_body]
fn new_table(format: &str) -> (table: tabular::Table)
    requires
        format_columns(format@) is Some,
    ensures
        table_format(table) == format@,
        table_lines(table) == Seq::<Line>::empty(),
{
    tabular::Table::new(format)
}

/// `tabular::Table::add_heading`: appends a heading line and leaves the rest as it was.
#[verifier::external_body]
fn add_heading(table: &mut tabular::Table, heading: &str)
    ensures
        table_format(*final(table)) == table_format(*old(table)),
        table_lines(*final(table)) == table_lines(*old(table)).push(Line::Heading(heading@)),
{
    table.add_heading(heading);
}

/// `tabular::Table::add_row` on `tabular::Row::from_cells`: appends a line of cells and leaves
/// the rest as it was. The call panics unless there is one cell per column.
#[verifier::external_body]
fn add_row(table: &mut tabular::Table, cells: Vec<String>)
    requires
        format_columns(table_format(*old(table))) == Some(cells@.len()),
    ensures
        table_format(*final(table)) == table_format(*old(table)),
        table_lines(*final(table)) == table_lines(*old(table)).push(
            Line::Cells(texts_of(cells@)),
        ),
{
    table.add_row(tabular::Row::from_cells(cells));
}

/// `tabular::Table`'s `to_string`: the text laid out for the table's format and lines.
#[verifier::external_body]
fn table_string(table: &tabular::Table) -> (text: String)
    ensures
        text@ == table_text(table_format(*table), table_lines(*table)),
{
    table.to_string()
}

/// The cells of `rows`, row by row.
pub open spec fn rows_of(rows: Seq<Vec<String>>) -> Seq<Seq<Seq<char>>> {
    Seq::new(rows.len(), |r: int| texts_of(rows[r]@))
}

/// A row with every cell cleaned.
pub open spec fn clean_row(cells: Seq<Seq<char>>) -> Seq<Seq<char>> {
    Seq::new(cells.len(), |i: int| clean(cells[i]))
}

/// The lines of a table with one heading and the given rows below it, the heading and every
/// cell cleaned.
pub open spec fn table_model(heading: Seq<char>, rows: Seq<Seq<Seq<char>>>) -> Seq<Line> {
    seq![Line::Heading(clean_heading(heading))] + Seq::new(
        rows.len(),
        |r: int| Line::Cells(clean_row(rows[r])),
    )
}

/// The text of a table with one heading and the given rows below it, the heading and every
/// cell cleaned.
pub open spec fn rendered(format: Seq<char>, heading: Seq<char>, rows: Seq<Seq<Seq<char>>>) -> Seq<
    char,
> {
    table_text(format, table_model(heading, rows))
}

/// Whether every row has `columns` cells.
pub open spec fn rows_fit(rows: Seq<Seq<Seq<char>>>, columns: nat) -> bool {
    forall|r: int| 0 <= r < rows.len() ==> (#[trigger] rows[r]).len() == columns
}

/// Whatever the heading and the rows were, the lines handed to the layout are the cleaned
/// heading and the cleaned rows. The heading is one line that cannot close the frame that the
/// table is published in, and every cell is plain: it holds no delimiter of the table and
/// cannot close the frame either.
pub proof fn lemma_cells_are_plain(heading: Seq<char>, rows: Seq<Seq<Seq<char>>>)
    ensures
        table_model(heading, rows).len() == 1 + rows.len(),
        table_model(heading, rows)[0] == Line::Heading(clean_heading(heading)),
        is_safe_line(clean_heading(heading)),
        forall|r: int|
            0 <= r < rows.len() ==> #[trigger] table_model(heading, rows)[1 + r] == Line::Cells(
                clean_row(rows[r]),
            ),
        forall|r: int, c: int|
            0 <= r < rows.len() && 0 <= c < rows[r].len() ==> is_plain(
                #[trigger] clean_row(rows[r])[c],
            ),
{
    assert forall|r: int, c: int| 0 <= r < rows.len() && 0 <= c < rows[r].len() implies is_plain(
        #[trigger] clean_row(rows[r])[c],
    ) by {
        lemma_clean_is_plain(rows[r][c]);
    }
    lemma_clean_heading(heading);
}

fn clean_cells(cells: &Vec<String>) -> (cleaned: Vec<String>)
    ensures
        texts_of(cleaned@) == clean_row(texts_of(cells@)),
{
    let mut cleaned: Vec<String> = Vec::new();
    let mut i: usize = 0;
    while i < cells.len()
        invariant
            i <= cells@.len(),
            cleaned@.len() == i,
            forall|j: int| 0 <= j < i ==> (#[trigger] cleaned@[j])@ == clean(cells@[j]@),
        decreases cells@.len() - i,
    {
        cleaned.push(sanitize(cells[i].as_str()));
        i = i + 1;
    }
    cleaned
}

/// Lays out a table with a heading and rows of cells. The heading and every cell are cleaned
/// on the way in: the heading stays one line, no cell holds a delimiter of the table, and
/// neither can close the frame that the table is published in.
pub fn render_table(format: &str, heading: &str, rows: &Vec<Vec<String>>) -> (text: String)
    requires
        format_columns(format@) is Some,
        rows_fit(rows_of(rows@), format_columns(format@)->0),
    ensures
        text@ == rendered(format@, heading@, rows_of(rows@)),
{
    let mut table = new_table(format);
    let cleaned = sanitize_heading(heading);
    add_heading(&mut table, cleaned.as_str());
    let mut r: usize = 0;
    while r < rows.len()
        invariant
            r <= rows@.len(),
            table_format(table) == format@,
            format_columns(format@) is Some,
            rows_fit(rows_of(rows@), format_columns(format@)->0),
            table_lines(table) == table_model(heading@, rows_of(rows@).take(r as int)),
        decreases rows@.len() - r,
    {
        let cells = clean_cells(&rows[r]);
        proof {
            assert(rows_of(rows@)[r as int] == texts_of(rows@[r as int]@));
            assert(texts_of(cells@).len() == cells@.len());
            assert(table_model(heading@, rows_of(rows@).take(r + 1)) =~= table_model(
                heading@,
                rows_of(rows@).take(r as int),
            ).push(Line::Cells(texts_of(cells@))));
        }
        add_row(&mut table, cells);
        r = r + 1;
    }
    proof {
        assert(rows_of(rows@).take(rows@.len() as int) =~= rows_of(rows@));
    }
    table_string(&table)
}

} // verus!
