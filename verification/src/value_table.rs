//! The table of value differences: for each key, the value on each side.

use vstd::prelude::*;
use vstd::string::*;
use crate::diff_types::ValueDiff;
use crate::dtfterminal_types::{LibWorkingContext, TableContext, TermTable, MAX_COLUMN_WIDTH};
use crate::table::{header_cells, text_cells, text_row, title_row, CellView, TableView};
use crate::utils::{sanitize_json_str, sanitized};

verus! {

/// The row of one value difference.
pub open spec fn value_cells(diff: ValueDiff) -> Seq<CellView> {
    text_cells(diff.key@, sanitized(diff.value1@), sanitized(diff.value2@))
}

/// The rows of the value differences, one for one.
pub open spec fn value_rows(data: Seq<ValueDiff>) -> Seq<Seq<CellView>> {
    Seq::new(data.len(), |i: int| value_cells(data[i]))
}

/// The whole table of the value differences: the header, then their rows.
pub open spec fn value_table(data: Seq<ValueDiff>, file_a: Seq<char>, file_b: Seq<char>) -> TableView {
    TableView {
        rows: header_cells("Value Differences"@, file_a, file_b) + value_rows(data),
        max_column_width: MAX_COLUMN_WIDTH as nat,
    }
}

/// Table to display value differences in the terminal.
pub struct ValueTable<'a> {
    context: TableContext<'a>,
}

impl<'a> ValueTable<'a> {
    /// The context of the comparison that the table shows.
    pub closed spec fn context(&self) -> LibWorkingContext {
        self.context.context()
    }

    /// The table of the given value differences: the header, then a row for
    /// each of them.
    pub fn new(data: &[ValueDiff], working_context: &'a LibWorkingContext) -> (made: ValueTable<'a>)
        ensures
            made.context() == *working_context,
            made.table() == value_table(data@, working_context@.file_a, working_context@.file_b),
    {
        let mut table = ValueTable { context: TableContext::new(working_context) };
        table.create_table(data);
        table
    }

    fn get_file_names(&self) -> (names: (&str, &str))
        ensures
            names.0@ == self.context()@.file_a,
            names.1@ == self.context()@.file_b,
    {
        let file_name_a = self.context.working_context().file_a.name.as_str();
        let file_name_b = self.context.working_context().file_b.name.as_str();
        (file_name_a, file_name_b)
    }
}

impl<'a> TermTable<ValueDiff> for ValueTable<'a> {
    closed spec fn table(&self) -> TableView {
        self.context@
    }

    open spec fn header(&self) -> Seq<Seq<CellView>> {
        header_cells("Value Differences"@, self.context()@.file_a, self.context()@.file_b)
    }

    open spec fn extended(before: TableView, after: TableView, data: Seq<ValueDiff>) -> bool {
        after == (TableView {
            rows: before.rows + value_rows(data),
            max_column_width: before.max_column_width,
        })
    }

    fn render(&self) -> (text: String) {
        self.context.render()
    }

    fn create_table(&mut self, data: &[ValueDiff])
        ensures
            final(self).context() == old(self).context(),
    {
        self.add_header();
        self.add_rows(data);
    }

    fn add_header(&mut self)
        ensures
            final(self).context() == old(self).context(),
    {
        let (file_name_a_str, file_name_b_str) = self.get_file_names();
        let file_name_a = file_name_a_str.to_owned();
        let file_name_b = file_name_b_str.to_owned();
        self.context.add_row(title_row("Value Differences"));
        self.context.add_row(text_row("Key".to_owned(), file_name_a, file_name_b));
        assert(self.table().rows =~= old(self).table().rows + header_cells(
            "Value Differences"@,
            old(self).context()@.file_a,
            old(self).context()@.file_b,
        ));
    }

    fn add_rows(&mut self, data: &[ValueDiff])
        ensures
            final(self).context() == old(self).context(),
    {
        let ghost before = self.table();
        let mut i: usize = 0;
        while i < data.len()
            invariant
                i <= data.len(),
                self.context() == old(self).context(),
                self.table() == (TableView {
                    rows: before.rows + value_rows(data@.take(i as int)),
                    max_column_width: before.max_column_width,
                }),
            decreases data.len() - i,
        {
            let vd = &data[i];
            self.context.add_row(
                text_row(
                    vd.key.clone(),
                    sanitize_json_str(vd.value1.as_str()),
                    sanitize_json_str(vd.value2.as_str()),
                ),
            );
            assert(self.table().rows =~= before.rows + value_rows(data@.take(i + 1)));
            i += 1;
        }
        assert(data@.take(data.len() as int) =~= data@);
    }
}

} // verus!
