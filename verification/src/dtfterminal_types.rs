//! The types of a run in the terminal: its configuration, its context, and
//! what is saved of it.

use vstd::prelude::*;
use vstd::string::*;
use crate::diff_types::{ArrayDiff, KeyDiff, TypeDiff, ValueDiff};
use crate::table::{
    render_table, rendered_table, spans_columns, well_spanned, CellView, Row, Table, TableView,
};

verus! {

pub type LibConfig = crate::diff_types::Config;

pub type LibWorkingContext = crate::diff_types::WorkingContext;

/// What the arguments of a run come to: the two files to read, where the run
/// compares files, and its configuration.
pub type ParsedArgs = (Option<String>, Option<String>, Config);

/// The differences of a run: for each kind `None` where it was not asked for.
pub type DiffCollection = (
    Option<Vec<KeyDiff>>,
    Option<Vec<TypeDiff>>,
    Option<Vec<ValueDiff>>,
    Option<Vec<ArrayDiff>>,
);

/// The configuration as it is saved with a result set.
#[derive(Debug, Clone, PartialEq)]
pub struct SavedConfig {
    pub check_for_key_diffs: bool,
    pub check_for_type_diffs: bool,
    pub check_for_value_diffs: bool,
    pub check_for_array_diffs: bool,
    pub file_a: String,
    pub file_b: String,
    pub array_same_order: bool,
}

impl SavedConfig {
    pub fn new(
        check_for_key_diffs: bool,
        check_for_type_diffs: bool,
        check_for_value_diffs: bool,
        check_for_array_diffs: bool,
        file_a: String,
        file_b: String,
        array_same_order: bool,
    ) -> (saved: SavedConfig)
        ensures
            saved == (SavedConfig {
                check_for_key_diffs,
                check_for_type_diffs,
                check_for_value_diffs,
                check_for_array_diffs,
                file_a,
                file_b,
                array_same_order,
            }),
    {
        SavedConfig {
            check_for_key_diffs,
            check_for_type_diffs,
            check_for_value_diffs,
            check_for_array_diffs,
            file_a,
            file_b,
            array_same_order,
        }
    }
}

/// The configuration of a run.
#[derive(Debug, Clone, PartialEq)]
pub struct Config {
    pub check_for_key_diffs: bool,
    pub check_for_type_diffs: bool,
    pub check_for_value_diffs: bool,
    pub check_for_array_diffs: bool,
    pub render_key_diffs: bool,
    pub render_type_diffs: bool,
    pub render_value_diffs: bool,
    pub render_array_diffs: bool,
    /// The saved result set to show; empty where the run compares two files.
    pub read_from_file: String,
    pub write_to_file: Option<String>,
    pub write_to_html: bool,
    pub file_a: Option<String>,
    pub file_b: Option<String>,
    pub array_same_order: bool,
}

/// A copy of an optional text.
pub fn clone_text(text: &Option<String>) -> (copy: Option<String>)
    ensures
        copy == *text,
{
    match text {
        Some(s) => Some(s.clone()),
        None => None,
    }
}

impl Config {
    /// Nothing is switched on and no file is named.
    pub open spec fn is_blank(self) -> bool {
        &&& !self.check_for_key_diffs
        &&& !self.check_for_type_diffs
        &&& !self.check_for_value_diffs
        &&& !self.check_for_array_diffs
        &&& !self.render_key_diffs
        &&& !self.render_type_diffs
        &&& !self.render_value_diffs
        &&& !self.render_array_diffs
        &&& self.read_from_file@.len() == 0
        &&& self.write_to_file is None
        &&& !self.write_to_html
        &&& self.file_a is None
        &&& self.file_b is None
        &&& !self.array_same_order
    }

    /// A configuration that renders each kind of difference that it checks
    /// for, and writes no HTML.
    pub fn new(
        check_for_key_diffs: bool,
        check_for_type_diffs: bool,
        check_for_value_diffs: bool,
        check_for_array_diffs: bool,
        read_from_file: String,
        write_to_file: Option<String>,
        file_a: Option<String>,
        file_b: Option<String>,
        array_same_order: bool,
    ) -> (config: Config)
        ensures
            config == (Config {
                check_for_key_diffs,
                check_for_type_diffs,
                check_for_value_diffs,
                check_for_array_diffs,
                render_key_diffs: check_for_key_diffs,
                render_type_diffs: check_for_type_diffs,
                render_value_diffs: check_for_value_diffs,
                render_array_diffs: check_for_array_diffs,
                read_from_file,
                write_to_file,
                write_to_html: false,
                file_a,
                file_b,
                array_same_order,
            }),
    {
        Config {
            check_for_key_diffs,
            check_for_type_diffs,
            check_for_value_diffs,
            check_for_array_diffs,
            render_key_diffs: check_for_key_diffs,
            render_type_diffs: check_for_type_diffs,
            render_value_diffs: check_for_value_diffs,
            render_array_diffs: check_for_array_diffs,
            read_from_file,
            write_to_file,
            write_to_html: false,
            file_a,
            file_b,
            array_same_order,
        }
    }

    /// A copy of the configuration.
    pub fn duplicate(&self) -> (copy: Config)
        ensures
            copy == *self,
    {
        Config {
            check_for_key_diffs: self.check_for_key_diffs,
            check_for_type_diffs: self.check_for_type_diffs,
            check_for_value_diffs: self.check_for_value_diffs,
            check_for_array_diffs: self.check_for_array_diffs,
            render_key_diffs: self.render_key_diffs,
            render_type_diffs: self.render_type_diffs,
            render_value_diffs: self.render_value_diffs,
            render_array_diffs: self.render_array_diffs,
            read_from_file: self.read_from_file.clone(),
            write_to_file: clone_text(&self.write_to_file),
            write_to_html: self.write_to_html,
            file_a: clone_text(&self.file_a),
            file_b: clone_text(&self.file_b),
            array_same_order: self.array_same_order,
        }
    }
}

/// Builds a [`Config`] field by field.
#[derive(Debug)]
pub struct ConfigBuilder {
    check_for_key_diffs: bool,
    check_for_type_diffs: bool,
    check_for_value_diffs: bool,
    check_for_array_diffs: bool,
    render_key_diffs: bool,
    render_type_diffs: bool,
    render_value_diffs: bool,
    render_array_diffs: bool,
    read_from_file: String,
    write_to_file: Option<String>,
    write_to_html: bool,
    file_a: Option<String>,
    file_b: Option<String>,
    array_same_order: bool,
}

impl View for ConfigBuilder {
    type V = Config;

    /// The configuration that the builder has gathered so far.
    closed spec fn view(&self) -> Config {
        Config {
            check_for_key_diffs: self.check_for_key_diffs,
            check_for_type_diffs: self.check_for_type_diffs,
            check_for_value_diffs: self.check_for_value_diffs,
            check_for_array_diffs: self.check_for_array_diffs,
            render_key_diffs: self.render_key_diffs,
            render_type_diffs: self.render_type_diffs,
            render_value_diffs: self.render_value_diffs,
            render_array_diffs: self.render_array_diffs,
            read_from_file: self.read_from_file,
            write_to_file: self.write_to_file,
            write_to_html: self.write_to_html,
            file_a: self.file_a,
            file_b: self.file_b,
            array_same_order: self.array_same_order,
        }
    }
}

impl ConfigBuilder {
    /// A builder in which nothing is switched on and no file is named.
    pub fn new() -> (builder: ConfigBuilder)
        ensures
            builder@.is_blank(),
    {
        ConfigBuilder {
            check_for_key_diffs: false,
            check_for_type_diffs: false,
            check_for_value_diffs: false,
            check_for_array_diffs: false,
            render_key_diffs: false,
            render_type_diffs: false,
            render_value_diffs: false,
            render_array_diffs: false,
            read_from_file: String::new(),
            write_to_file: None,
            write_to_html: false,
            file_a: None,
            file_b: None,
            array_same_order: false,
        }
    }

    pub fn check_for_key_diffs(self, check_for_key_diffs: bool) -> (builder: ConfigBuilder)
        ensures
            builder@ == (Config { check_for_key_diffs, ..self@ }),
    {
        let mut builder = self;
        builder.check_for_key_diffs = check_for_key_diffs;
        builder
    }

    pub fn check_for_type_diffs(self, check_for_type_diffs: bool) -> (builder: ConfigBuilder)
        ensures
            builder@ == (Config { check_for_type_diffs, ..self@ }),
    {
        let mut builder = self;
        builder.check_for_type_diffs = check_for_type_diffs;
        builder
    }

    pub fn check_for_value_diffs(self, check_for_value_diffs: bool) -> (builder: ConfigBuilder)
        ensures
            builder@ == (Config { check_for_value_diffs, ..self@ }),
    {
        let mut builder = self;
        builder.check_for_value_diffs = check_for_value_diffs;
        builder
    }

    pub fn check_for_array_diffs(self, check_for_array_diffs: bool) -> (builder: ConfigBuilder)
        ensures
            builder@ == (Config { check_for_array_diffs, ..self@ }),
    {
        let mut builder = self;
        builder.check_for_array_diffs = check_for_array_diffs;
        builder
    }

    pub fn render_key_diffs(self, render_key_diffs: bool) -> (builder: ConfigBuilder)
        ensures
            builder@ == (Config { render_key_diffs, ..self@ }),
    {
        let mut builder = self;
        builder.render_key_diffs = render_key_diffs;
        builder
    }

    pub fn render_type_diffs(self, render_type_diffs: bool) -> (builder: ConfigBuilder)
        ensures
            builder@ == (Config { render_type_diffs, ..self@ }),
    {
        let mut builder = self;
        builder.render_type_diffs = render_type_diffs;
        builder
    }

    pub fn render_value_diffs(self, render_value_diffs: bool) -> (builder: ConfigBuilder)
        ensures
            builder@ == (Config { render_value_diffs, ..self@ }),
    {
        let mut builder = self;
        builder.render_value_diffs = render_value_diffs;
        builder
    }

    pub fn render_array_diffs(self, render_array_diffs: bool) -> (builder: ConfigBuilder)
        ensures
            builder@ == (Config { render_array_diffs, ..self@ }),
    {
        let mut builder = self;
        builder.render_array_diffs = render_array_diffs;
        builder
    }

    pub fn read_from_file(self, read_from_file: String) -> (builder: ConfigBuilder)
        ensures
            builder@ == (Config { read_from_file, ..self@ }),
    {
        let mut builder = self;
        builder.read_from_file = read_from_file;
        builder
    }

    pub fn write_to_file(self, write_to_file: Option<String>) -> (builder: ConfigBuilder)
        ensures
            builder@ == (Config { write_to_file, ..self@ }),
    {
        let mut builder = self;
        builder.write_to_file = write_to_file;
        builder
    }

    pub fn write_to_html(self, write_to_html: bool) -> (builder: ConfigBuilder)
        ensures
            builder@ == (Config { write_to_html, ..self@ }),
    {
        let mut builder = self;
        builder.write_to_html = write_to_html;
        builder
    }

    pub fn file_a(self, file_a: Option<String>) -> (builder: ConfigBuilder)
        ensures
            builder@ == (Config { file_a, ..self@ }),
    {
        let mut builder = self;
        builder.file_a = file_a;
        builder
    }

    pub fn file_b(self, file_b: Option<String>) -> (builder: ConfigBuilder)
        ensures
            builder@ == (Config { file_b, ..self@ }),
    {
        let mut builder = self;
        builder.file_b = file_b;
        builder
    }

    pub fn array_same_order(self, array_same_order: bool) -> (builder: ConfigBuilder)
        ensures
            builder@ == (Config { array_same_order, ..self@ }),
    {
        let mut builder = self;
        builder.array_same_order = array_same_order;
        builder
    }

    /// The configuration that was gathered.
    pub fn build(self) -> (config: Config)
        ensures
            config == self@,
    {
        Config {
            check_for_key_diffs: self.check_for_key_diffs,
            check_for_type_diffs: self.check_for_type_diffs,
            check_for_value_diffs: self.check_for_value_diffs,
            check_for_array_diffs: self.check_for_array_diffs,
            render_key_diffs: self.render_key_diffs,
            render_type_diffs: self.render_type_diffs,
            render_value_diffs: self.render_value_diffs,
            render_array_diffs: self.render_array_diffs,
            read_from_file: self.read_from_file,
            write_to_file: self.write_to_file,
            write_to_html: self.write_to_html,
            file_a: self.file_a,
            file_b: self.file_b,
            array_same_order: self.array_same_order,
        }
    }
}

impl Default for ConfigBuilder {
    fn default() -> (builder: ConfigBuilder)
        ensures
            builder@.is_blank(),
    {
        ConfigBuilder::new()
    }
}

/// The context of a run: that of the comparison, and the configuration.
#[derive(Debug, Clone, PartialEq)]
pub struct WorkingContext {
    pub lib_working_context: LibWorkingContext,
    pub config: Config,
}

impl WorkingContext {
    pub fn new(lib_working_context: LibWorkingContext, config: Config) -> (context: WorkingContext)
        ensures
            context.lib_working_context == lib_working_context,
            context.config == config,
    {
        WorkingContext { lib_working_context, config }
    }
}

/// A result set as it is stored: the four lists of differences and the
/// configuration of the run that found them.
#[derive(Debug, Clone, PartialEq)]
pub struct SavedContext {
    pub key_diff: Vec<KeyDiff>,
    pub type_diff: Vec<TypeDiff>,
    pub value_diff: Vec<ValueDiff>,
    pub array_diff: Vec<ArrayDiff>,
    pub config: SavedConfig,
}

impl SavedContext {
    pub fn new(
        key_diff: Vec<KeyDiff>,
        type_diff: Vec<TypeDiff>,
        value_diff: Vec<ValueDiff>,
        array_diff: Vec<ArrayDiff>,
        config: SavedConfig,
    ) -> (saved: SavedContext)
        ensures
            saved == (SavedContext { key_diff, type_diff, value_diff, array_diff, config }),
    {
        SavedContext { key_diff, type_diff, value_diff, array_diff, config }
    }
}

#[verifier::external_type_specification]
#[verifier::external_body]
pub struct ExIoError(std::io::Error);

/// What can go wrong in a run.
#[derive(Debug)]
pub enum DtfError {
    IoError(std::io::Error),
    DiffError(String),
    GeneralError(Box<DtfError>),
}

/// Calls the `Display` of `std::io::Error`. The text is the system's for an
/// error of the system, so nothing is said of it.
#[verifier::external_body]
fn io_error_text(err: &std::io::Error) -> String {
    err.to_string()
}

impl DtfError {
    /// The error is, or wraps, an input or output error.
    pub open spec fn holds_io(self) -> bool
        decreases self,
    {
        match self {
            DtfError::IoError(_) => true,
            DtfError::DiffError(_) => false,
            DtfError::GeneralError(err) => err.holds_io(),
        }
    }

    /// The message of the error, where `io_text` is the text of the input or
    /// output error in it.
    pub open spec fn message(self, io_text: Seq<char>) -> Seq<char>
        decreases self,
    {
        match self {
            DtfError::IoError(_) => "IO error: "@ + io_text,
            DtfError::DiffError(msg) => "Diff error: "@ + msg@,
            DtfError::GeneralError(err) => "General error happened "@ + err.message(io_text),
        }
    }

    /// Writes the message of the error around the given text of the input or
    /// output error in it.
    pub fn describe(&self, io_text: &str) -> (text: String)
        ensures
            text@ == self.message(io_text@),
        decreases self,
    {
        match self {
            DtfError::IoError(_) => {
                let mut text = "IO error: ".to_owned();
                text.append(io_text);
                text
            },
            DtfError::DiffError(msg) => {
                let mut text = "Diff error: ".to_owned();
                text.append(msg.as_str());
                text
            },
            DtfError::GeneralError(err) => {
                let mut text = "General error happened ".to_owned();
                let inner = err.describe(io_text);
                text.append(inner.as_str());
                text
            },
        }
    }

    /// The text of the input or output error in this error; empty where
    /// there is none.
    pub fn io_text(&self) -> (text: String)
        ensures
            !self.holds_io() ==> text@.len() == 0,
        decreases self,
    {
        match self {
            DtfError::IoError(err) => io_error_text(err),
            DtfError::DiffError(_) => String::new(),
            DtfError::GeneralError(err) => err.io_text(),
        }
    }

    /// The message of the error.
    pub fn to_string(&self) -> (text: String)
        ensures
            exists|io_text: Seq<char>| text@ == #[trigger] self.message(io_text),
            !self.holds_io() ==> text@ == self.message(Seq::empty()),
    {
        let io_text = self.io_text();
        proof {
            if !self.holds_io() {
                assert(io_text@ =~= Seq::empty());
            }
        }
        self.describe(io_text.as_str())
    }
}

/// The width beyond which a table of differences wraps the text of a column.
pub const MAX_COLUMN_WIDTH: usize = 80;

/// The table of one kind of difference while it is built: the context of the
/// comparison and the rows so far. Every cell of it spans at least one column.
pub struct TableContext<'a> {
    working_context: &'a LibWorkingContext,
    table: Table,
}

impl<'a> View for TableContext<'a> {
    type V = TableView;

    /// The table as it stands.
    closed spec fn view(&self) -> TableView {
        self.table.deep_view()
    }
}

impl<'a> TableContext<'a> {
    #[verifier::type_invariant]
    spec fn cells_span_columns(self) -> bool {
        well_spanned(self.table.deep_view().rows)
    }

    /// The context that the table was made with.
    pub closed spec fn context(&self) -> LibWorkingContext {
        *self.working_context
    }

    /// A table without rows.
    pub fn new(working_context: &'a LibWorkingContext) -> (made: TableContext<'a>)
        ensures
            made.context() == *working_context,
            made@ == (TableView { rows: Seq::empty(), max_column_width: MAX_COLUMN_WIDTH as nat }),
    {
        TableContext { working_context, table: Table::new(MAX_COLUMN_WIDTH) }
    }

    /// Returns the context that the table was made with.
    pub fn working_context(&self) -> (context: &'a LibWorkingContext)
        ensures
            *context == self.context(),
    {
        self.working_context
    }

    /// Replaces the table.
    pub fn set_table(&mut self, table: Table)
        requires
            well_spanned(table.deep_view().rows),
        ensures
            final(self)@ == table.deep_view(),
            final(self).context() == old(self).context(),
    {
        self.table = table;
    }

    /// Adds a row below the rows so far.
    pub fn add_row(&mut self, row: Row)
        requires
            spans_columns(row.deep_view()),
        ensures
            final(self)@ == (TableView {
                rows: old(self)@.rows.push(row.deep_view()),
                max_column_width: old(self)@.max_column_width,
            }),
            final(self).context() == old(self).context(),
    {
        proof {
            use_type_invariant(&*self);
        }
        let ghost before = self.table.rows.deep_view();
        let mut rows: Vec<Row> = Vec::new();
        std::mem::swap(&mut self.table.rows, &mut rows);
        rows.push(row);
        assert(rows.deep_view() =~= before.push(row.deep_view()));
        self.table.rows = rows;
    }

    /// Returns the table as text.
    pub fn render(&self) -> (text: String)
        ensures
            text@ == rendered_table(self@),
    {
        proof {
            use_type_invariant(self);
        }
        render_table(&self.table)
    }
}

/// What a table of one kind of difference can do.
pub trait TermTable<T> {
    /// The table as it stands.
    spec fn table(&self) -> TableView;

    /// The two rows that head the table.
    spec fn header(&self) -> Seq<Seq<CellView>>;

    /// `after` is `before` with a row for each record below it.
    spec fn extended(before: TableView, after: TableView, data: Seq<T>) -> bool;

    /// Returns the table as text.
    fn render(&self) -> (text: String)
        ensures
            text@ == rendered_table(self.table()),
    ;

    /// Adds the header and a row for each record.
    fn create_table(&mut self, data: &[T])
        ensures
            final(self).header() == old(self).header(),
            Self::extended(
                TableView {
                    rows: old(self).table().rows + old(self).header(),
                    max_column_width: old(self).table().max_column_width,
                },
                final(self).table(),
                data@,
            ),
    ;

    /// Adds the two rows of the header.
    fn add_header(&mut self)
        ensures
            final(self).header() == old(self).header(),
            final(self).table() == (TableView {
                rows: old(self).table().rows + old(self).header(),
                max_column_width: old(self).table().max_column_width,
            }),
    ;

    /// Adds a row for each record.
    fn add_rows(&mut self, data: &[T])
        ensures
            final(self).header() == old(self).header(),
            Self::extended(old(self).table(), final(self).table(), data@),
    ;
}

} // verus!
