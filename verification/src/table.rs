//! Tables as plain data, and their rendering as text.

use term_table::{row, table_cell};
use vstd::prelude::*;

verus! {

/// Where a cell's text stands within its columns.
#[derive(Debug, Clone, Copy, PartialEq, Eq, Structural)]
pub enum Alignment {
    Left,
    Right,
    Center,
}

/// The model of a [`TableCell`].
pub struct CellView {
    pub data: Seq<char>,
    pub col_span: nat,
    pub alignment: Alignment,
}

/// A cell: its text, the number of columns it spans, and its alignment.
#[derive(Debug, Clone, PartialEq)]
pub struct TableCell {
    pub data: String,
    pub col_span: usize,
    pub alignment: Alignment,
}

impl DeepView for TableCell {
    type V = CellView;

    open spec fn deep_view(&self) -> CellView {
        CellView { data: self.data@, col_span: self.col_span as nat, alignment: self.alignment }
    }
}

/// The model of a cell of one column with its text on the left.
pub open spec fn cell(data: Seq<char>) -> CellView {
    CellView { data, col_span: 1, alignment: Alignment::Left }
}

impl TableCell {
    /// A cell of one column with its text on the left.
    pub fn new(data: String) -> (made: TableCell)
        ensures
            made.deep_view() == cell(data@),
    {
        TableCell { data, col_span: 1, alignment: Alignment::Left }
    }

    /// A cell that spans `col_span` columns.
    pub fn new_with_alignment(data: String, col_span: usize, alignment: Alignment) -> (made:
        TableCell)
        ensures
            made.deep_view() == (CellView { data: data@, col_span: col_span as nat, alignment }),
    {
        TableCell { data, col_span, alignment }
    }
}

/// A row of cells.
#[derive(Debug, Clone, PartialEq)]
pub struct Row {
    pub cells: Vec<TableCell>,
}

impl DeepView for Row {
    type V = Seq<CellView>;

    open spec fn deep_view(&self) -> Seq<CellView> {
        self.cells.deep_view()
    }
}

impl Row {
    pub fn new(cells: Vec<TableCell>) -> (row: Row)
        ensures
            row.cells == cells,
    {
        Row { cells }
    }
}

/// The model of a row that holds one centered title over three columns.
pub open spec fn title_cells(title: Seq<char>) -> Seq<CellView> {
    seq![CellView { data: title, col_span: 3, alignment: Alignment::Center }]
}

/// The model of a row of three plain cells.
pub open spec fn text_cells(first: Seq<char>, second: Seq<char>, third: Seq<char>) -> Seq<
    CellView,
> {
    seq![cell(first), cell(second), cell(third)]
}

/// The two rows that head a table of differences: the title, and the word
/// `Key` beside the labels of the two sides.
pub open spec fn header_cells(title: Seq<char>, file_a: Seq<char>, file_b: Seq<char>) -> Seq<
    Seq<CellView>,
> {
    seq![title_cells(title), text_cells("Key"@, file_a, file_b)]
}

/// A row that holds one centered title over three columns.
pub fn title_row(title: &str) -> (row: Row)
    ensures
        row.deep_view() == title_cells(title@),
{
    let mut cells: Vec<TableCell> = Vec::new();
    cells.push(TableCell::new_with_alignment(title.to_owned(), 3, Alignment::Center));
    let row = Row::new(cells);
    row
}

/// A row of three plain cells.
pub fn text_row(first: String, second: String, third: String) -> (row: Row)
    ensures
        row.deep_view() == text_cells(first@, second@, third@),
{
    let mut cells: Vec<TableCell> = Vec::new();
    cells.push(TableCell::new(first));
    cells.push(TableCell::new(second));
    cells.push(TableCell::new(third));
    let row = Row::new(cells);
    row
}

/// The model of a [`Table`].
pub struct TableView {
    pub rows: Seq<Seq<CellView>>,
    pub max_column_width: nat,
}

/// Rows of cells, and the width beyond which the text of a column is wrapped.
#[derive(Debug, Clone, PartialEq)]
pub struct Table {
    pub rows: Vec<Row>,
    pub max_column_width: usize,
}

impl DeepView for Table {
    type V = TableView;

    open spec fn deep_view(&self) -> TableView {
        TableView {
            rows: self.rows.deep_view(),
            max_column_width: self.max_column_width as nat,
        }
    }
}

/// Every cell spans at least one column.
pub open spec fn spans_columns(cells: Seq<CellView>) -> bool {
    forall|j: int| 0 <= j < cells.len() ==> (#[trigger] cells[j]).col_span >= 1
}

/// Every cell of every row spans at least one column.
pub open spec fn well_spanned(rows: Seq<Seq<CellView>>) -> bool {
    forall|i: int| 0 <= i < rows.len() ==> spans_columns(#[trigger] rows[i])
}

impl Table {
    /// A table without rows.
    pub fn new(max_column_width: usize) -> (table: Table)
        ensures
            table.deep_view() == (TableView {
                rows: Seq::empty(),
                max_column_width: max_column_width as nat,
            }),
    {
        let table = Table { rows: Vec::new(), max_column_width };
        assert(table.rows.deep_view() =~= Seq::empty());
        table
    }
}

/// The text that term_table renders for a table in its extended style, with
/// a separator line above each row and below the last one.
pub uninterp spec fn rendered_table(table: TableView) -> Seq<char>;

/// Builds the table with term_table's `Table::builder`, `Row::new`,
/// `TableCell::builder` and `Table::add_row`, and calls `Table::render`. The
/// result is that crate's text for these rows and this width, which
/// `rendered_table` names. term_table indexes past its column widths where a
/// cell spans no column, so such tables are left out.
#[verifier::external_body]
pub(crate) fn render_table(table: &Table) -> (text: String)
    requires
        well_spanned(table.deep_view().rows),
    ensures
        text@ == rendered_table(table.deep_view()),
{
    let mut out = term_table::Table::builder().max_column_width(table.max_column_width).build();
    out.style = term_table::TableStyle::extended();
    for row in table.rows.iter() {
        out.add_row(row::Row::new(row.cells.iter().map(|c| {
            let alignment = match c.alignment {
                Alignment::Left => table_cell::Alignment::Left,
                Alignment::Right => table_cell::Alignment::Right,
                Alignment::Center => table_cell::Alignment::Center,
            };
            table_cell::TableCell::builder(&c.data).col_span(c.col_span).alignment(alignment).build()
        })));
    }
    out.render()
}

} // verus!
