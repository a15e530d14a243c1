//! The table of array differences: for each key, the element that one side has and the other misses.

use vstd::prelude::*;
use vstd::string::*;
use crate::diff_types::ArrayDiff;
use crate::dtfterminal_types::{LibWorkingContext, TableContext, TermTable, MAX_COLUMN_WIDTH};
use crate::table::{header_cells, text_cells, text_row, title_row, CellView, TableView};
use crate::diff_types::ArrayDiffDesc;
use crate::utils::{sanitize_json_str, sanitized};

verus! {

/// The text of an element in the column of either side. The descriptor of
/// the record does not change it.
pub fn get_array_table_cell_value<'a>(descriptor: &'a ArrayDiffDesc, value_str: &'a str) -> (text:
    &'a str)
    ensures
        text@ == value_str@,
{
    match descriptor {
        ArrayDiffDesc::AHas => value_str,
        ArrayDiffDesc::AMisses => value_str,
        ArrayDiffDesc::BHas => value_str,
        ArrayDiffDesc::BMisses => value_str,
    }
}

/// The row of one array difference.
pub open spec fn array_cells(diff: ArrayDiff) -> Seq<CellView> {
    text_cells(diff.key@, sanitized(diff.value@), sanitized(diff.value@))
}

/// The rows of the array differences, one for one.
pub open spec fn array_rows(data: Seq<ArrayDiff>) -> Seq<Seq<CellView>> {
    Seq::new(data.len(), |i: int| array_cells(data[i]))
}

/// The whole table of the array differences: the header, then their rows.
pub open spec fn array_table(data: Seq<ArrayDiff>, file_a: Seq<char>, file_b: Seq<char>) -> TableView {
    TableView {
        rows: header_cells("Array Differences"@, file_a, file_b) + array_rows(data),
        max_column_width: MAX_COLUMN_WIDTH as nat,
    }
}

/// Table to display array differences in the terminal.
pub struct ArrayTable<'a> {
    context: TableContext<'a>,
}

impl<'a> ArrayTable<'a> {
    /// The context of the comparison that the table shows.
    pub closed spec fn context(&self) -> LibWorkingContext {
        self.context.context()
    }

    /// The table of the given array differences: the header, then a row for
    /// each of them.
    pub fn new(data: &[ArrayDiff], working_context: &'a LibWorkingContext) -> (made: ArrayTable<'a>)
        ensures
            made.context() == *working_context,
            made.table() == array_table(data@, working_context@.file_a, working_context@.file_b),
    {
        let mut table = ArrayTable { context: TableContext::new(working_context) };
        table.create_table(data);
        table
    }

    fn get_file_names(&self) -> (names: (&str, &str))
        ensures
            names.0@ == self.context()@.file_a,
            names.1@ == self.context()@.file_b,
    {
        let file_name_a = self.context.working_context().file_a.name.as_str();
        let file_name_b = self.context.working_context().file_b.name.as_str();
        (file_name_a, file_name_b)
    }
}

impl<'a> TermTable<ArrayDiff> for ArrayTable<'a> {
    closed spec fn table(&self) -> TableView {
        self.context@
    }

    open spec fn header(&self) -> Seq<Seq<CellView>> {
        header_cells("Array Differences"@, self.context()@.file_a, self.context()@.file_b)
    }

    open spec fn extended(before: TableView, after: TableView, data: Seq<ArrayDiff>) -> bool {
        after == (TableView {
            rows: before.rows + array_rows(data),
            max_column_width: before.max_column_width,
        })
    }

    fn render(&self) -> (text: String) {
        self.context.render()
    }

    fn create_table(&mut self, data: &[ArrayDiff])
        ensures
            final(self).context() == old(self).context(),
    {
        self.add_header();
        self.add_rows(data);
    }

    fn add_header(&mut self)
        ensures
            final(self).context() == old(self).context(),
    {
        let (file_name_a_str, file_name_b_str) = self.get_file_names();
        let file_name_a = file_name_a_str.to_owned();
        let file_name_b = file_name_b_str.to_owned();
        self.context.add_row(title_row("Array Differences"));
        self.context.add_row(text_row("Key".to_owned(), file_name_a, file_name_b));
        assert(self.table().rows =~= old(self).table().rows + header_cells(
            "Array Differences"@,
            old(self).context()@.file_a,
            old(self).context()@.file_b,
        ));
    }

    fn add_rows(&mut self, data: &[ArrayDiff])
        ensures
            final(self).context() == old(self).context(),
    {
        let ghost before = self.table();
        let mut i: usize = 0;
        while i < data.len()
            invariant
                i <= data.len(),
                self.context() == old(self).context(),
                self.table() == (TableView {
                    rows: before.rows + array_rows(data@.take(i as int)),
                    max_column_width: before.max_column_width,
                }),
            decreases data.len() - i,
        {
            let ad = &data[i];
            let value_str = sanitize_json_str(ad.value.as_str());
            self.context.add_row(
                text_row(
                    ad.key.clone(),
                    get_array_table_cell_value(&ad.descriptor, value_str.as_str()).to_owned(),
                    get_array_table_cell_value(&ad.descriptor, value_str.as_str()).to_owned(),
                ),
            );
            assert(self.table().rows =~= before.rows + array_rows(data@.take(i + 1)));
            i += 1;
        }
        assert(data@.take(data.len() as int) =~= data@);
    }
}

} // verus!
