//! The steps of a run in the terminal, from its arguments to its tables.

use vstd::prelude::*;
use vstd::string::*;
use crate::array_table::{array_table, ArrayTable};
use crate::diff_spec::object_diffs;
use crate::diff_types::{ArrayDiff, KeyDiff, TypeDiff, ValueDiff, WorkingFile};
use crate::dtfterminal_types::{
    clone_text, Config, DiffCollection, LibConfig, LibWorkingContext, ParsedArgs, SavedConfig,
    SavedContext, TermTable, WorkingContext,
};
use crate::finders::{find_array_diffs, find_key_diffs, find_type_diffs, find_value_diffs};
use crate::key_table::{is_key_table, KeyTable};
use crate::table::{rendered_table, TableView};
use crate::type_table::{type_table, TypeTable};
use crate::value::Value;
use crate::value_table::{value_table, ValueTable};

verus! {

/// The arguments of a run, as they were given.
#[derive(Debug, Clone, PartialEq)]
pub struct Arguments {
    /// The files to check if not reading from saved check.
    pub check_files: Vec<String>,
    /// The saved result set to show instead of checking again; empty where
    /// none was named.
    pub read_from_file: String,
    /// The file to write the result set to instead of rendering tables.
    pub write_to_file: Option<String>,
    pub key_diffs: bool,
    pub type_diffs: bool,
    pub value_diffs: bool,
    pub array_diffs: bool,
    pub array_same_order: bool,
}

/// The run compares two files: no saved result set was named.
pub open spec fn compares_files(read_from_file: String) -> bool {
    read_from_file@.len() == 0
}

/// Turns the arguments into the two files to read and the configuration.
/// Where a saved result set was named, no file is read and the configuration
/// names none; else the files are the first two of those to check.
pub fn parse_args(args: Arguments) -> (parsed: ParsedArgs)
    requires
        compares_files(args.read_from_file) ==> args.check_files@.len() >= 2,
    ensures
        parsed.0 == if compares_files(args.read_from_file) {
            Some(args.check_files@[0])
        } else {
            None
        },
        parsed.1 == if compares_files(args.read_from_file) {
            Some(args.check_files@[1])
        } else {
            None
        },
        parsed.2 == (Config {
            check_for_key_diffs: args.key_diffs,
            check_for_type_diffs: args.type_diffs,
            check_for_value_diffs: args.value_diffs,
            check_for_array_diffs: args.array_diffs,
            render_key_diffs: args.key_diffs,
            render_type_diffs: args.type_diffs,
            render_value_diffs: args.value_diffs,
            render_array_diffs: args.array_diffs,
            read_from_file: args.read_from_file,
            write_to_file: args.write_to_file,
            write_to_html: false,
            file_a: parsed.0,
            file_b: parsed.1,
            array_same_order: args.array_same_order,
        }),
{
    let compares = args.read_from_file.as_str().is_empty();
    let data1 = if compares {
        Some(args.check_files[0].clone())
    } else {
        None
    };
    let data2 = if compares {
        Some(args.check_files[1].clone())
    } else {
        None
    };
    let file_a = clone_text(&data1);
    let file_b = clone_text(&data2);
    let config = Config::new(
        args.key_diffs,
        args.type_diffs,
        args.value_diffs,
        args.array_diffs,
        args.read_from_file,
        args.write_to_file,
        file_a,
        file_b,
        args.array_same_order,
    );
    (data1, data2, config)
}

/// The context of a run. A run that compares files takes the labels and the
/// array mode from its configuration. A run that shows a saved result set
/// takes them, and what was checked for, from the configuration saved with
/// it, and keeps only where to read and write from its own.
pub open spec fn context_of(config: Config, saved_config: Option<SavedConfig>) -> WorkingContext {
    if compares_files(config.read_from_file) {
        WorkingContext {
            lib_working_context: LibWorkingContext {
                file_a: WorkingFile { name: config.file_a->Some_0 },
                file_b: WorkingFile { name: config.file_b->Some_0 },
                config: LibConfig { array_same_order: config.array_same_order },
            },
            config,
        }
    } else {
        let saved = saved_config->Some_0;
        WorkingContext {
            lib_working_context: LibWorkingContext {
                file_a: WorkingFile { name: saved.file_a },
                file_b: WorkingFile { name: saved.file_b },
                config: LibConfig { array_same_order: saved.array_same_order },
            },
            config: Config {
                check_for_key_diffs: saved.check_for_key_diffs,
                check_for_type_diffs: saved.check_for_type_diffs,
                check_for_value_diffs: saved.check_for_value_diffs,
                check_for_array_diffs: saved.check_for_array_diffs,
                render_key_diffs: saved.check_for_key_diffs,
                render_type_diffs: saved.check_for_type_diffs,
                render_value_diffs: saved.check_for_value_diffs,
                render_array_diffs: saved.check_for_array_diffs,
                read_from_file: config.read_from_file,
                write_to_file: config.write_to_file,
                write_to_html: false,
                file_a: Some(saved.file_a),
                file_b: Some(saved.file_b),
                array_same_order: saved.array_same_order,
            },
        }
    }
}

/// Makes the context of a run from its configuration and, for a run that
/// shows a saved result set, the configuration that was saved with the set.
pub fn create_working_context(config: &Config, saved_config: Option<SavedConfig>) -> (context:
    WorkingContext)
    requires
        compares_files(config.read_from_file) ==> config.file_a is Some && config.file_b is Some,
        !compares_files(config.read_from_file) ==> saved_config is Some,
    ensures
        context == context_of(*config, saved_config),
{
    if config.read_from_file.as_str().is_empty() {
        let file_a = WorkingFile::new(clone_text(&config.file_a).unwrap());
        let file_b = WorkingFile::new(clone_text(&config.file_b).unwrap());
        let lib_working_context = LibWorkingContext::new(
            file_a,
            file_b,
            LibConfig::new(config.array_same_order),
        );
        WorkingContext::new(lib_working_context, config.duplicate())
    } else {
        let saved_config = saved_config.unwrap();
        let file_a = WorkingFile::new(saved_config.file_a.clone());
        let file_b = WorkingFile::new(saved_config.file_b.clone());
        let lib_working_context = LibWorkingContext::new(
            file_a,
            file_b,
            LibConfig::new(saved_config.array_same_order),
        );
        WorkingContext::new(
            lib_working_context,
            Config::new(
                saved_config.check_for_key_diffs,
                saved_config.check_for_type_diffs,
                saved_config.check_for_value_diffs,
                saved_config.check_for_array_diffs,
                config.read_from_file.clone(),
                clone_text(&config.write_to_file),
                Some(saved_config.file_a),
                Some(saved_config.file_b),
                saved_config.array_same_order,
            ),
        )
    }
}

/// Finds the differences of the two documents, of each kind that the
/// configuration asks for. A kind that is not asked for is not computed.
pub fn collect_data(
    data1: &Vec<(String, Value)>,
    data2: &Vec<(String, Value)>,
    working_context: &WorkingContext,
) -> (found: DiffCollection)
    ensures
        found.0 is Some == working_context.config.check_for_key_diffs,
        found.1 is Some == working_context.config.check_for_type_diffs,
        found.2 is Some == working_context.config.check_for_value_diffs,
        found.3 is Some == working_context.config.check_for_array_diffs,
        found.0 is Some ==> found.0->Some_0.deep_view() == object_diffs(
            Seq::empty(),
            data1.deep_view(),
            data2.deep_view(),
            working_context.lib_working_context@,
        ).keys,
        found.1 is Some ==> found.1->Some_0.deep_view() == object_diffs(
            Seq::empty(),
            data1.deep_view(),
            data2.deep_view(),
            working_context.lib_working_context@,
        ).types,
        found.2 is Some ==> found.2->Some_0.deep_view() == object_diffs(
            Seq::empty(),
            data1.deep_view(),
            data2.deep_view(),
            working_context.lib_working_context@,
        ).values,
        found.3 is Some ==> found.3->Some_0.deep_view() == object_diffs(
            Seq::empty(),
            data1.deep_view(),
            data2.deep_view(),
            working_context.lib_working_context@,
        ).arrays,
{
    proof {
        reveal_strlit("");
        assert(""@ =~= Seq::<char>::empty());
    }
    let key_diff = if working_context.config.check_for_key_diffs {
        Some(find_key_diffs("", data1, data2, &working_context.lib_working_context))
    } else {
        None
    };
    let type_diff = if working_context.config.check_for_type_diffs {
        Some(find_type_diffs("", data1, data2, &working_context.lib_working_context))
    } else {
        None
    };
    let value_diff = if working_context.config.check_for_value_diffs {
        Some(find_value_diffs("", data1, data2, &working_context.lib_working_context))
    } else {
        None
    };
    let array_diff = if working_context.config.check_for_array_diffs {
        Some(find_array_diffs("", data1, data2, &working_context.lib_working_context))
    } else {
        None
    };
    (key_diff, type_diff, value_diff, array_diff)
}

/// The records of a kind that was looked for; none where it was not.
pub fn found_or_none<T>(found: Option<Vec<T>>) -> (list: Vec<T>)
    ensures
        list@ == match found {
            Some(records) => records@,
            None => Seq::empty(),
        },
{
    match found {
        Some(records) => records,
        None => Vec::new(),
    }
}

/// Gathers what is written of a run: the file to write to, and the result
/// set with the configuration of the run. A run that names no file to write
/// to has nothing to write.
pub fn saved_context(
    key_diff_option: Option<Vec<KeyDiff>>,
    type_diff_option: Option<Vec<TypeDiff>>,
    value_diff_option: Option<Vec<ValueDiff>>,
    array_diff_option: Option<Vec<ArrayDiff>>,
    working_context: &WorkingContext,
) -> (written: Result<(String, SavedContext), ()>)
    requires
        working_context.config.write_to_file is Some ==> working_context.config.file_a is Some
            && working_context.config.file_b is Some,
    ensures
        written is Ok == working_context.config.write_to_file is Some,
        written matches Ok((path, saved)) ==> {
            &&& Some(path) == working_context.config.write_to_file
            &&& saved.key_diff@ == match key_diff_option {
                Some(records) => records@,
                None => Seq::empty(),
            }
            &&& saved.type_diff@ == match type_diff_option {
                Some(records) => records@,
                None => Seq::empty(),
            }
            &&& saved.value_diff@ == match value_diff_option {
                Some(records) => records@,
                None => Seq::empty(),
            }
            &&& saved.array_diff@ == match array_diff_option {
                Some(records) => records@,
                None => Seq::empty(),
            }
            &&& saved.config == (SavedConfig {
                check_for_key_diffs: working_context.config.check_for_key_diffs,
                check_for_type_diffs: working_context.config.check_for_type_diffs,
                check_for_value_diffs: working_context.config.check_for_value_diffs,
                check_for_array_diffs: working_context.config.check_for_array_diffs,
                file_a: working_context.config.file_a->Some_0,
                file_b: working_context.config.file_b->Some_0,
                array_same_order: working_context.config.array_same_order,
            })
        },
{
    let key_diff = found_or_none(key_diff_option);
    let type_diff = found_or_none(type_diff_option);
    let value_diff = found_or_none(value_diff_option);
    let array_diff = found_or_none(array_diff_option);
    let config = &working_context.config;
    match clone_text(&config.write_to_file) {
        Some(write_to_file) => Ok(
            (
                write_to_file,
                SavedContext::new(
                    key_diff,
                    type_diff,
                    value_diff,
                    array_diff,
                    SavedConfig::new(
                        config.check_for_key_diffs,
                        config.check_for_type_diffs,
                        config.check_for_value_diffs,
                        config.check_for_array_diffs,
                        clone_text(&config.file_a).unwrap(),
                        clone_text(&config.file_b).unwrap(),
                        config.array_same_order,
                    ),
                ),
            ),
        ),
        None => Err(()),
    }
}

/// A kind of difference is shown where it was looked for and found.
pub open spec fn is_shown<T>(found: Option<Vec<T>>) -> bool {
    found matches Some(records) && records@.len() > 0
}

/// One where the kind is shown, else nought.
pub open spec fn one_if(shown: bool) -> int {
    if shown {
        1
    } else {
        0
    }
}

/// The text is a table of the key differences as term_table renders it.
pub open spec fn is_key_table_text(
    text: Seq<char>,
    data: Seq<KeyDiff>,
    file_a: Seq<char>,
    file_b: Seq<char>,
) -> bool {
    exists|table: TableView|
        is_key_table(table, data, file_a, file_b) && text == #[trigger] rendered_table(table)
}

/// Renders a table for each kind of difference that was looked for and
/// found: those of keys, types, values and arrays, in this order.
pub fn render_tables(
    key_diff: Option<Vec<KeyDiff>>,
    type_diff: Option<Vec<TypeDiff>>,
    value_diff: Option<Vec<ValueDiff>>,
    array_diff: Option<Vec<ArrayDiff>>,
    working_context: &WorkingContext,
) -> (tables: Vec<String>)
    ensures
        tables@.len() == one_if(is_shown(key_diff)) + one_if(is_shown(type_diff)) + one_if(
            is_shown(value_diff),
        ) + one_if(is_shown(array_diff)),
        is_shown(key_diff) ==> is_key_table_text(
            tables@[0]@,
            key_diff->Some_0@,
            working_context.lib_working_context@.file_a,
            working_context.lib_working_context@.file_b,
        ),
        is_shown(type_diff) ==> tables@[one_if(is_shown(key_diff))]@ == rendered_table(
            type_table(
                type_diff->Some_0@,
                working_context.lib_working_context@.file_a,
                working_context.lib_working_context@.file_b,
            ),
        ),
        is_shown(value_diff) ==> tables@[one_if(is_shown(key_diff)) + one_if(
            is_shown(type_diff),
        )]@ == rendered_table(
            value_table(
                value_diff->Some_0@,
                working_context.lib_working_context@.file_a,
                working_context.lib_working_context@.file_b,
            ),
        ),
        is_shown(array_diff) ==> tables@[one_if(is_shown(key_diff)) + one_if(is_shown(type_diff))
            + one_if(is_shown(value_diff))]@ == rendered_table(
            array_table(
                array_diff->Some_0@,
                working_context.lib_working_context@.file_a,
                working_context.lib_working_context@.file_b,
            ),
        ),
{
    let mut tables: Vec<String> = Vec::new();
    match &key_diff {
        Some(diffs) => {
            if diffs.len() > 0 {
                let table = KeyTable::new(diffs.as_slice(), working_context);
                tables.push(table.render());
            }
        },
        None => {},
    }
    match &type_diff {
        Some(diffs) => {
            if diffs.len() > 0 {
                let table = TypeTable::new(diffs.as_slice(), &working_context.lib_working_context);
                tables.push(table.render());
            }
        },
        None => {},
    }
    match &value_diff {
        Some(diffs) => {
            if diffs.len() > 0 {
                let table = ValueTable::new(diffs.as_slice(), &working_context.lib_working_context);
                tables.push(table.render());
            }
        },
        None => {},
    }
    match &array_diff {
        Some(diffs) => {
            if diffs.len() > 0 {
                let table = ArrayTable::new(diffs.as_slice(), &working_context.lib_working_context);
                tables.push(table.render());
            }
        },
        None => {},
    }
    tables
}

} // verus!
