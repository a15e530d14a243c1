//! The table of key differences: for each key, which side has it.

use vstd::prelude::*;
use vstd::string::*;
use crate::diff_types::KeyDiff;
use crate::dtfterminal_types::{LibWorkingContext, TableContext, TermTable, WorkingContext};
use crate::table::{header_cells, text_cells, text_row, title_row, CellView, TableView};
use crate::utils::{Color, ColoredString, ColoredView, CHECKMARK, MULTIPLY};

verus! {

/// The mark of a side for a key: a green check where the side is the one that
/// has the key, else a red cross.
pub open spec fn mark(file_name: Seq<char>, has: Seq<char>) -> ColoredView {
    if has == file_name {
        ColoredView { input: CHECKMARK@, fgcolor: Color::Green }
    } else {
        ColoredView { input: MULTIPLY@, fgcolor: Color::Red }
    }
}

/// The row is that of the key: the key, then a text for each side.
pub open spec fn is_key_row(cells: Seq<CellView>, key: Seq<char>) -> bool {
    exists|a_mark: Seq<char>, b_mark: Seq<char>| cells == #[trigger] text_cells(key, a_mark, b_mark)
}

/// `after` is `before` with one row for each record below it.
pub open spec fn key_rows_added(before: TableView, after: TableView, data: Seq<KeyDiff>) -> bool {
    &&& after.max_column_width == before.max_column_width
    &&& after.rows.len() == before.rows.len() + data.len()
    &&& forall|i: int| 0 <= i < before.rows.len() ==> #[trigger] after.rows[i] == before.rows[i]
    &&& forall|i: int|
        0 <= i < data.len() ==> is_key_row(
            #[trigger] after.rows[before.rows.len() + i],
            data[i].key@,
        )
}

/// The table is that of the key differences: the header, then a row for each
/// of them.
pub open spec fn is_key_table(
    table: TableView,
    data: Seq<KeyDiff>,
    file_a: Seq<char>,
    file_b: Seq<char>,
) -> bool {
    key_rows_added(
        TableView {
            rows: header_cells("Key Differences"@, file_a, file_b),
            max_column_width: crate::dtfterminal_types::MAX_COLUMN_WIDTH as nat,
        },
        table,
        data,
    )
}

/// The row of a key, from the texts of the two sides' marks.
pub fn key_row(key: &str, a_mark: String, b_mark: String) -> (row: crate::table::Row)
    ensures
        row.deep_view() == text_cells(key@, a_mark@, b_mark@),
{
    text_row(key.to_owned(), a_mark, b_mark)
}

/// Table to display key differences in the terminal.
pub struct KeyTable<'a> {
    context: TableContext<'a>,
}

impl<'a> KeyTable<'a> {
    /// The context of the comparison that the table shows.
    pub closed spec fn context(&self) -> LibWorkingContext {
        self.context.context()
    }

    /// The table of the given key differences: the header, then a row for
    /// each of them.
    pub fn new(data: &[KeyDiff], working_context: &'a WorkingContext) -> (made: KeyTable<'a>)
        ensures
            made.context() == working_context.lib_working_context,
            is_key_table(
                made.table(),
                data@,
                working_context.lib_working_context@.file_a,
                working_context.lib_working_context@.file_b,
            ),
    {
        let mut table = KeyTable {
            context: TableContext::new(&working_context.lib_working_context),
        };
        table.create_table(data);
        table
    }

    /// Check if the key is present in the file.
    pub fn check_has(&self, file_name: &str, key_diff: &KeyDiff) -> (shown: ColoredString)
        ensures
            shown@ == mark(file_name@, key_diff.has@),
    {
        let name = file_name.to_owned();
        if key_diff.has == name {
            ColoredString::new(CHECKMARK, Color::Green)
        } else {
            ColoredString::new(MULTIPLY, Color::Red)
        }
    }

    /// Adds the title row to the table.
    fn add_title_row(&mut self)
        ensures
            final(self).context() == old(self).context(),
            final(self).table() == (TableView {
                rows: old(self).table().rows.push(crate::table::title_cells("Key Differences"@)),
                max_column_width: old(self).table().max_column_width,
            }),
    {
        self.context.add_row(title_row("Key Differences"));
    }

    /// Adds the file names row to the table.
    fn add_file_name_row(&mut self, file_name_a: String, file_name_b: String)
        ensures
            final(self).context() == old(self).context(),
            final(self).table() == (TableView {
                rows: old(self).table().rows.push(text_cells("Key"@, file_name_a@, file_name_b@)),
                max_column_width: old(self).table().max_column_width,
            }),
    {
        self.context.add_row(text_row("Key".to_owned(), file_name_a, file_name_b));
    }
}

impl<'a> TermTable<KeyDiff> for KeyTable<'a> {
    closed spec fn table(&self) -> TableView {
        self.context@
    }

    open spec fn header(&self) -> Seq<Seq<CellView>> {
        header_cells("Key Differences"@, self.context()@.file_a, self.context()@.file_b)
    }

    open spec fn extended(before: TableView, after: TableView, data: Seq<KeyDiff>) -> bool {
        key_rows_added(before, after, data)
    }

    fn render(&self) -> (text: String) {
        self.context.render()
    }

    fn create_table(&mut self, data: &[KeyDiff])
        ensures
            final(self).context() == old(self).context(),
    {
        self.add_header();
        self.add_rows(data);
    }

    fn add_header(&mut self)
        ensures
            final(self).context() == old(self).context(),
    {
        let (file_name_a_str, file_name_b_str) = self.context.working_context().get_file_names();
        let file_name_a = file_name_a_str.to_owned();
        let file_name_b = file_name_b_str.to_owned();
        self.add_title_row();
        self.add_file_name_row(file_name_a, file_name_b);
        assert(self.table().rows =~= old(self).table().rows + header_cells(
            "Key Differences"@,
            old(self).context()@.file_a,
            old(self).context()@.file_b,
        ));
    }

    fn add_rows(&mut self, data: &[KeyDiff])
        ensures
            final(self).context() == old(self).context(),
    {
        let (file_name_a_str, file_name_b_str) = self.context.working_context().get_file_names();
        let file_name_a = file_name_a_str.to_owned();
        let file_name_b = file_name_b_str.to_owned();
        let ghost before = self.table();
        let mut i: usize = 0;
        while i < data.len()
            invariant
                i <= data.len(),
                self.context() == old(self).context(),
                key_rows_added(before, self.table(), data@.take(i as int)),
            decreases data.len() - i,
        {
            let ghost earlier = self.table();
            let kd = &data[i];
            let a_has = self.check_has(file_name_a.as_str(), kd).to_string();
            let b_has = self.check_has(file_name_b.as_str(), kd).to_string();
            self.context.add_row(key_row(kd.key.as_str(), a_has, b_has));
            proof {
                let now = self.table();
                assert(now.rows[before.rows.len() + i] == text_cells(kd.key@, a_has@, b_has@));
                assert forall|k: int| 0 <= k < i + 1 implies is_key_row(
                    #[trigger] now.rows[before.rows.len() + k],
                    data@.take(i + 1)[k].key@,
                ) by {
                    if k < i {
                        assert(now.rows[before.rows.len() + k] == earlier.rows[before.rows.len()
                            + k]);
                        assert(data@.take(i as int)[k] == data@.take(i + 1)[k]);
                    }
                }
            }
            i += 1;
        }
        assert(data@.take(data.len() as int) =~= data@);
    }
}

} // verus!
