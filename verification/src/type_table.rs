//! The table of type differences: for each key, the kind of value on each side.

use vstd::prelude::*;
use vstd::string::*;
use crate::diff_types::TypeDiff;
use crate::dtfterminal_types::{LibWorkingContext, TableContext, TermTable, MAX_COLUMN_WIDTH};
use crate::table::{header_cells, text_cells, text_row, title_row, CellView, TableView};

verus! {

/// The row of one type difference.
pub open spec fn type_cells(diff: TypeDiff) -> Seq<CellView> {
    text_cells(diff.key@, diff.type1@, diff.type2@)
}

/// The rows of the type differences, one for one.
pub open spec fn type_rows(data: Seq<TypeDiff>) -> Seq<Seq<CellView>> {
    Seq::new(data.len(), |i: int| type_cells(data[i]))
}

/// The whole table of the type differences: the header, then their rows.
pub open spec fn type_table(data: Seq<TypeDiff>, file_a: Seq<char>, file_b: Seq<char>) -> TableView {
    TableView {
        rows: header_cells("Type Differences"@, file_a, file_b) + type_rows(data),
        max_column_width: MAX_COLUMN_WIDTH as nat,
    }
}

/// Table to display type differences in the terminal.
pub struct TypeTable<'a> {
    context: TableContext<'a>,
}

impl<'a> TypeTable<'a> {
    /// The context of the comparison that the table shows.
    pub closed spec fn context(&self) -> LibWorkingContext {
        self.context.context()
    }

    /// The table of the given type differences: the header, then a row for
    /// each of them.
    pub fn new(data: &[TypeDiff], working_context: &'a LibWorkingContext) -> (made: TypeTable<'a>)
        ensures
            made.context() == *working_context,
            made.table() == type_table(data@, working_context@.file_a, working_context@.file_b),
    {
        let mut table = TypeTable { context: TableContext::new(working_context) };
        table.create_table(data);
        table
    }

    fn get_file_names(&self) -> (names: (&str, &str))
        ensures
            names.0@ == self.context()@.file_a,
            names.1@ == self.context()@.file_b,
    {
        let file_name_a = self.context.working_context().file_a.name.as_str();
        let file_name_b = self.context.working_context().file_b.name.as_str();
        (file_name_a, file_name_b)
    }
}

impl<'a> TermTable<TypeDiff> for TypeTable<'a> {
    closed spec fn table(&self) -> TableView {
        self.context@
    }

    open spec fn header(&self) -> Seq<Seq<CellView>> {
        header_cells("Type Differences"@, self.context()@.file_a, self.context()@.file_b)
    }

    open spec fn extended(before: TableView, after: TableView, data: Seq<TypeDiff>) -> bool {
        after == (TableView {
            rows: before.rows + type_rows(data),
            max_column_width: before.max_column_width,
        })
    }

    fn render(&self) -> (text: String) {
        self.context.render()
    }

    fn create_table(&mut self, data: &[TypeDiff])
        ensures
            final(self).context() == old(self).context(),
    {
        self.add_header();
        self.add_rows(data);
    }

    fn add_header(&mut self)
        ensures
            final(self).context() == old(self).context(),
    {
        let (file_name_a_str, file_name_b_str) = self.get_file_names();
        let file_name_a = file_name_a_str.to_owned();
        let file_name_b = file_name_b_str.to_owned();
        self.context.add_row(title_row("Type Differences"));
        self.context.add_row(text_row("Key".to_owned(), file_name_a, file_name_b));
        assert(self.table().rows =~= old(self).table().rows + header_cells(
            "Type Differences"@,
            old(self).context()@.file_a,
            old(self).context()@.file_b,
        ));
    }

    fn add_rows(&mut self, data: &[TypeDiff])
        ensures
            final(self).context() == old(self).context(),
    {
        let ghost before = self.table();
        let mut i: usize = 0;
        while i < data.len()
            invariant
                i <= data.len(),
                self.context() == old(self).context(),
                self.table() == (TableView {
                    rows: before.rows + type_rows(data@.take(i as int)),
                    max_column_width: before.max_column_width,
                }),
            decreases data.len() - i,
        {
            let td = &data[i];
            self.context.add_row(text_row(td.key.clone(), td.type1.clone(), td.type2.clone()));
            assert(self.table().rows =~= before.rows + type_rows(data@.take(i + 1)));
            i += 1;
        }
        assert(data@.take(data.len() as int) =~= data@);
    }
}

} // verus!
