use colored::Colorize;
use libdtf::array_table::{get_array_table_cell_value, ArrayTable};
use libdtf::diff_types::{ArrayDiff, ArrayDiffDesc, KeyDiff, TypeDiff, ValueDiff};
use libdtf::dtfterminal_types::{
    Config, ConfigBuilder, DtfError, SavedConfig, SavedContext, TableContext, TermTable,
    WorkingContext, MAX_COLUMN_WIDTH,
};
use libdtf::key_table::{key_row, KeyTable};
use libdtf::table::{text_row, title_row, Alignment, Row, Table, TableCell};
use libdtf::terminal::{
    collect_data, create_working_context, found_or_none, parse_args, render_tables,
    saved_context, Arguments,
};
use libdtf::type_table::TypeTable;
use libdtf::utils::{Color, ColoredString, CHECKMARK, MULTIPLY};
use libdtf::value::Value;
use libdtf::value_table::ValueTable;

fn get_working_context() -> WorkingContext {
    let working_file_a = libdtf::diff_types::WorkingFile::new("file_a.json".to_string());
    let working_file_b = libdtf::diff_types::WorkingFile::new("file_b.json".to_string());
    let lib_working_context = libdtf::diff_types::WorkingContext::new(
        working_file_a,
        working_file_b,
        libdtf::diff_types::Config { array_same_order: false },
    );
    let working_context = WorkingContext::new(lib_working_context, ConfigBuilder::new().build());
    working_context
}

#[test]
fn test_check_has() {
    let working_context = get_working_context();
    let key_diff = KeyDiff {
        key: "key1".to_owned(),
        has: "file_a.json".to_owned(),
        misses: "file_b.json".to_owned(),
    };
    let key_table = KeyTable::new(&[], &working_context);
    let result = key_table.check_has("file_a.json", &key_diff);
    assert_eq!(result, ColoredString::new(CHECKMARK, Color::Green));
    assert_eq!(result.to_string(), CHECKMARK.color(colored::Color::Green).to_string());
}

#[test]
fn a_side_that_misses_the_key_gets_a_red_cross() {
    let working_context = get_working_context();
    let key_diff = KeyDiff::new("key1".to_string(), "file_a.json".to_string(), "file_b.json".to_string());
    let key_table = KeyTable::new(&[], &working_context);
    let result = key_table.check_has("file_b.json", &key_diff);
    assert_eq!(result, ColoredString::new(MULTIPLY, Color::Red));
    assert_eq!(result.to_string(), MULTIPLY.color(colored::Color::Red).to_string());
    assert!(result.to_string().contains('\u{d7}'));
    assert_eq!(CHECKMARK, "\u{2713}");
}

fn outside_cell(text: &str) -> term_table::table_cell::TableCell {
    term_table::table_cell::TableCell::builder(text).build()
}

fn outside_table(title: &str, rows: Vec<[String; 3]>) -> String {
    let mut table = term_table::Table::builder()
        .max_column_width(80)
        .style(term_table::TableStyle::extended())
        .build();
    table.add_row(term_table::row::Row::new(vec![term_table::table_cell::TableCell::builder(title)
        .col_span(3)
        .alignment(term_table::table_cell::Alignment::Center)
        .build()]));
    table.add_row(term_table::row::Row::new(vec![
        outside_cell("Key"),
        outside_cell("file_a.json"),
        outside_cell("file_b.json"),
    ]));
    for row in rows {
        table.add_row(term_table::row::Row::new(vec![
            outside_cell(&row[0]),
            outside_cell(&row[1]),
            outside_cell(&row[2]),
        ]));
    }
    table.render()
}

#[test]
fn the_key_table_marks_each_side() {
    let working_context = get_working_context();
    let data = vec![
        KeyDiff::new("x.y".to_string(), "file_a.json".to_string(), "file_b.json".to_string()),
        KeyDiff::new("z".to_string(), "file_b.json".to_string(), "file_a.json".to_string()),
    ];
    let table = KeyTable::new(&data, &working_context);
    let check = CHECKMARK.color(colored::Color::Green).to_string();
    let cross = MULTIPLY.color(colored::Color::Red).to_string();
    assert_eq!(
        table.render(),
        outside_table(
            "Key Differences",
            vec![
                ["x.y".to_string(), check.clone(), cross.clone()],
                ["z".to_string(), cross, check],
            ],
        )
    );
}

#[test]
fn the_type_table_names_both_kinds() {
    let working_context = get_working_context();
    let data = vec![TypeDiff::new("v".to_string(), "string".to_string(), "number".to_string())];
    let table = TypeTable::new(&data, &working_context.lib_working_context);
    let text = table.render();
    assert_eq!(
        text,
        outside_table(
            "Type Differences",
            vec![["v".to_string(), "string".to_string(), "number".to_string()]],
        )
    );
    assert!(text.contains("Type Differences"));
    assert!(text.starts_with('\u{2554}'));
}

#[test]
fn the_value_table_lays_values_out() {
    let working_context = get_working_context();
    let data = vec![
        ValueDiff::new("v".to_string(), "{\"a\":1}".to_string(), "null".to_string()),
        ValueDiff::new("w".to_string(), "plain".to_string(), "\"s\"".to_string()),
    ];
    let table = ValueTable::new(&data, &working_context.lib_working_context);
    assert_eq!(
        table.render(),
        outside_table(
            "Value Differences",
            vec![
                ["v".to_string(), "{\n  \"a\": 1\n}".to_string(), "null".to_string()],
                ["w".to_string(), "plain".to_string(), "\"s\"".to_string()],
            ],
        )
    );
}

#[test]
fn the_array_table_shows_the_element_on_both_sides() {
    let working_context = get_working_context();
    let data = vec![
        ArrayDiff::new("arr".to_string(), ArrayDiffDesc::AHas, "[1,2]".to_string()),
        ArrayDiff::new("arr".to_string(), ArrayDiffDesc::BMisses, "[1,2]".to_string()),
    ];
    let table = ArrayTable::new(&data, &working_context.lib_working_context);
    let shown = "[\n  1,\n  2\n]".to_string();
    assert_eq!(
        table.render(),
        outside_table(
            "Array Differences",
            vec![
                ["arr".to_string(), shown.clone(), shown.clone()],
                ["arr".to_string(), shown.clone(), shown],
            ],
        )
    );
    for descriptor in [
        ArrayDiffDesc::AHas,
        ArrayDiffDesc::AMisses,
        ArrayDiffDesc::BHas,
        ArrayDiffDesc::BMisses,
    ] {
        assert_eq!(get_array_table_cell_value(&descriptor, "value"), "value");
    }
}

#[test]
fn a_table_context_collects_rows() {
    let working_context = get_working_context();
    let mut context = TableContext::new(&working_context.lib_working_context);
    assert_eq!(context.working_context(), &working_context.lib_working_context);
    assert_eq!(context.render(), "");
    context.add_row(title_row("Title"));
    context.add_row(text_row("a".to_string(), "b".to_string(), "c".to_string()));
    context.add_row(key_row("k", "1".to_string(), "2".to_string()));
    context.add_row(Row::new(vec![
        TableCell::new_with_alignment("right".to_string(), 2, Alignment::Right),
        TableCell::new("left".to_string()),
    ]));
    let mut outside = term_table::Table::builder()
        .max_column_width(MAX_COLUMN_WIDTH)
        .style(term_table::TableStyle::extended())
        .build();
    outside.add_row(term_table::row::Row::new(vec![term_table::table_cell::TableCell::builder("Title")
        .col_span(3)
        .alignment(term_table::table_cell::Alignment::Center)
        .build()]));
    outside.add_row(term_table::row::Row::new(vec![outside_cell("a"), outside_cell("b"), outside_cell("c")]));
    outside.add_row(term_table::row::Row::new(vec![outside_cell("k"), outside_cell("1"), outside_cell("2")]));
    outside.add_row(term_table::row::Row::new(vec![
        term_table::table_cell::TableCell::builder("right")
            .col_span(2)
            .alignment(term_table::table_cell::Alignment::Right)
            .build(),
        outside_cell("left"),
    ]));
    assert_eq!(context.render(), outside.render());
    let mut narrow = Table::new(4);
    narrow.rows.push(text_row("a long text".to_string(), String::new(), "c".to_string()));
    context.set_table(narrow);
    let mut wrapped = term_table::Table::builder()
        .max_column_width(4)
        .style(term_table::TableStyle::extended())
        .build();
    wrapped.add_row(term_table::row::Row::new(vec![
        outside_cell("a long text"),
        outside_cell(""),
        outside_cell("c"),
    ]));
    assert_eq!(context.render(), wrapped.render());
    assert_eq!(MAX_COLUMN_WIDTH, 80);
}

#[test]
fn the_builder_sets_each_field() {
    let blank = ConfigBuilder::new().build();
    assert_eq!(
        blank,
        Config {
            check_for_key_diffs: false,
            check_for_type_diffs: false,
            check_for_value_diffs: false,
            check_for_array_diffs: false,
            render_key_diffs: false,
            render_type_diffs: false,
            render_value_diffs: false,
            render_array_diffs: false,
            read_from_file: String::new(),
            write_to_file: None,
            write_to_html: false,
            file_a: None,
            file_b: None,
            array_same_order: false,
        }
    );
    assert_eq!(ConfigBuilder::default().build(), blank);
    let config = ConfigBuilder::new()
        .check_for_key_diffs(true)
        .check_for_type_diffs(true)
        .check_for_value_diffs(true)
        .check_for_array_diffs(true)
        .render_key_diffs(true)
        .render_type_diffs(true)
        .render_value_diffs(true)
        .render_array_diffs(true)
        .read_from_file("saved.json".to_string())
        .write_to_file(Some("out.json".to_string()))
        .write_to_html(true)
        .file_a(Some("a.json".to_string()))
        .file_b(Some("b.json".to_string()))
        .array_same_order(true)
        .build();
    assert_eq!(
        config,
        Config {
            check_for_key_diffs: true,
            check_for_type_diffs: true,
            check_for_value_diffs: true,
            check_for_array_diffs: true,
            render_key_diffs: true,
            render_type_diffs: true,
            render_value_diffs: true,
            render_array_diffs: true,
            read_from_file: "saved.json".to_string(),
            write_to_file: Some("out.json".to_string()),
            write_to_html: true,
            file_a: Some("a.json".to_string()),
            file_b: Some("b.json".to_string()),
            array_same_order: true,
        }
    );
    assert_eq!(config.duplicate(), config);
    let one = ConfigBuilder::new().check_for_type_diffs(true).file_b(Some("b".to_string())).build();
    assert!(one.check_for_type_diffs && !one.check_for_key_diffs && !one.render_type_diffs);
    assert_eq!(one.file_b, Some("b".to_string()));
    assert_eq!(one.file_a, None);
}

#[test]
fn a_new_config_renders_what_it_checks() {
    let config = Config::new(
        true,
        false,
        true,
        false,
        String::new(),
        Some("out".to_string()),
        Some("a".to_string()),
        None,
        true,
    );
    assert!(config.check_for_key_diffs && config.render_key_diffs);
    assert!(!config.check_for_type_diffs && !config.render_type_diffs);
    assert!(config.check_for_value_diffs && config.render_value_diffs);
    assert!(!config.check_for_array_diffs && !config.render_array_diffs);
    assert!(!config.write_to_html && config.array_same_order);
    assert_eq!(config.write_to_file, Some("out".to_string()));
    assert_eq!(config.file_a, Some("a".to_string()));
    assert_eq!(config.file_b, None);
}

fn arguments(check_files: Vec<&str>, read_from_file: &str) -> Arguments {
    Arguments {
        check_files: check_files.into_iter().map(|file| file.to_string()).collect(),
        read_from_file: read_from_file.to_string(),
        write_to_file: Some("out.json".to_string()),
        key_diffs: true,
        type_diffs: false,
        value_diffs: true,
        array_diffs: false,
        array_same_order: true,
    }
}

#[test]
fn arguments_name_the_files_to_compare() {
    let (file_a, file_b, config) = parse_args(arguments(vec!["a.json", "b.json"], ""));
    assert_eq!(file_a, Some("a.json".to_string()));
    assert_eq!(file_b, Some("b.json".to_string()));
    assert_eq!(
        config,
        Config::new(
            true,
            false,
            true,
            false,
            String::new(),
            Some("out.json".to_string()),
            Some("a.json".to_string()),
            Some("b.json".to_string()),
            true,
        )
    );
}

#[test]
fn arguments_that_name_a_saved_set_read_no_file() {
    let (file_a, file_b, config) = parse_args(arguments(vec![], "saved.json"));
    assert_eq!(file_a, None);
    assert_eq!(file_b, None);
    assert_eq!(config.file_a, None);
    assert_eq!(config.file_b, None);
    assert_eq!(config.read_from_file, "saved.json");
}

#[test]
fn the_context_of_a_comparison_comes_from_its_config() {
    let (_, _, config) = parse_args(arguments(vec!["a.json", "b.json"], ""));
    let context = create_working_context(&config, None);
    assert_eq!(context.config, config);
    assert_eq!(context.lib_working_context.file_a.name, "a.json");
    assert_eq!(context.lib_working_context.file_b.name, "b.json");
    assert!(context.lib_working_context.config.array_same_order);
    assert_eq!(context.lib_working_context.get_file_names(), ("a.json", "b.json"));
}

#[test]
fn the_context_of_a_saved_set_comes_from_what_was_saved() {
    let (_, _, config) = parse_args(arguments(vec![], "saved.json"));
    let saved = SavedConfig::new(false, true, false, true, "x.json".to_string(), "y.json".to_string(), false);
    let context = create_working_context(&config, Some(saved));
    assert_eq!(
        context.config,
        Config::new(
            false,
            true,
            false,
            true,
            "saved.json".to_string(),
            Some("out.json".to_string()),
            Some("x.json".to_string()),
            Some("y.json".to_string()),
            false,
        )
    );
    assert_eq!(context.lib_working_context.file_a.name, "x.json");
    assert_eq!(context.lib_working_context.file_b.name, "y.json");
    assert!(!context.lib_working_context.config.array_same_order);
}

fn documents() -> (Vec<(String, Value)>, Vec<(String, Value)>) {
    let a = vec![
        ("x".to_string(), Value::Number("1".to_string())),
        ("y".to_string(), Value::Number("2".to_string())),
        ("t".to_string(), Value::String("1".to_string())),
        ("arr".to_string(), Value::Array(vec![Value::Number("1".to_string())])),
    ];
    let b = vec![
        ("x".to_string(), Value::Number("3".to_string())),
        ("t".to_string(), Value::Number("1".to_string())),
        ("arr".to_string(), Value::Array(vec![])),
    ];
    (a, b)
}

fn run_context(keys: bool, types: bool, values: bool, arrays: bool) -> WorkingContext {
    let config = Config::new(
        keys,
        types,
        values,
        arrays,
        String::new(),
        None,
        Some("file_a.json".to_string()),
        Some("file_b.json".to_string()),
        false,
    );
    create_working_context(&config, None)
}

#[test]
fn only_the_kinds_asked_for_are_collected() {
    let (a, b) = documents();
    let all = collect_data(&a, &b, &run_context(true, true, true, true));
    assert_eq!(
        all.0,
        Some(vec![KeyDiff::new("y".to_string(), "file_a.json".to_string(), "file_b.json".to_string())])
    );
    assert_eq!(
        all.1,
        Some(vec![TypeDiff::new("t".to_string(), "string".to_string(), "number".to_string())])
    );
    assert_eq!(all.2, Some(vec![ValueDiff::new("x".to_string(), "1".to_string(), "3".to_string())]));
    assert_eq!(
        all.3,
        Some(vec![
            ArrayDiff::new("arr".to_string(), ArrayDiffDesc::AHas, "1".to_string()),
            ArrayDiff::new("arr".to_string(), ArrayDiffDesc::BMisses, "1".to_string()),
        ])
    );
    let none = collect_data(&a, &b, &run_context(false, false, false, false));
    assert_eq!(none, (None, None, None, None));
    let some = collect_data(&a, &b, &run_context(false, true, false, false));
    assert!(some.0.is_none() && some.1.is_some() && some.2.is_none() && some.3.is_none());
    let same = collect_data(&a, &a, &run_context(true, false, false, true));
    assert_eq!(same, (Some(vec![]), None, None, Some(vec![])));
}

#[test]
fn tables_are_rendered_for_what_was_found() {
    let (a, b) = documents();
    let context = run_context(true, true, true, true);
    let (keys, types, values, arrays) = collect_data(&a, &b, &context);
    let tables = render_tables(keys.clone(), types.clone(), values.clone(), arrays.clone(), &context);
    assert_eq!(tables.len(), 4);
    assert_eq!(tables[0], KeyTable::new(&keys.clone().unwrap(), &context).render());
    assert_eq!(tables[1], TypeTable::new(&types.clone().unwrap(), &context.lib_working_context).render());
    assert_eq!(tables[2], ValueTable::new(&values.clone().unwrap(), &context.lib_working_context).render());
    assert_eq!(tables[3], ArrayTable::new(&arrays.clone().unwrap(), &context.lib_working_context).render());
    let fewer = render_tables(Some(vec![]), None, values.clone(), None, &context);
    assert_eq!(fewer, vec![tables[2].clone()]);
    assert!(render_tables(None, None, None, None, &context).is_empty());
    assert!(render_tables(Some(vec![]), Some(vec![]), Some(vec![]), Some(vec![]), &context).is_empty());
}

#[test]
fn a_run_without_a_file_to_write_to_writes_nothing() {
    let context = run_context(true, true, true, true);
    assert_eq!(saved_context(Some(vec![]), None, None, None, &context), Err(()));
}

#[test]
fn what_is_written_holds_the_diffs_and_the_config() {
    let config = Config::new(
        true,
        false,
        true,
        false,
        String::new(),
        Some("out.json".to_string()),
        Some("file_a.json".to_string()),
        Some("file_b.json".to_string()),
        true,
    );
    let context = create_working_context(&config, None);
    let keys = vec![KeyDiff::new("k".to_string(), "file_a.json".to_string(), "file_b.json".to_string())];
    let values = vec![ValueDiff::new("v".to_string(), "1".to_string(), "2".to_string())];
    let written = saved_context(Some(keys.clone()), None, Some(values.clone()), None, &context);
    assert_eq!(
        written,
        Ok((
            "out.json".to_string(),
            SavedContext::new(
                keys,
                vec![],
                values,
                vec![],
                SavedConfig::new(
                    true,
                    false,
                    true,
                    false,
                    "file_a.json".to_string(),
                    "file_b.json".to_string(),
                    true,
                ),
            ),
        ))
    );
    assert_eq!(found_or_none::<KeyDiff>(None), vec![]);
}

#[test]
fn errors_have_their_messages() {
    let diff = DtfError::DiffError("no data".to_string());
    assert_eq!(diff.to_string(), "Diff error: no data");
    let general = DtfError::GeneralError(Box::new(DtfError::DiffError("inner".to_string())));
    assert_eq!(general.to_string(), "General error happened Diff error: inner");
    let io = DtfError::IoError(std::io::Error::new(std::io::ErrorKind::Other, "disk full"));
    assert_eq!(io.to_string(), "IO error: disk full");
    assert_eq!(io.io_text(), "disk full");
    assert_eq!(io.describe("gone"), "IO error: gone");
    let wrapped = DtfError::GeneralError(Box::new(io));
    assert_eq!(wrapped.to_string(), "General error happened IO error: disk full");
    assert_eq!(diff.io_text(), "");
}

#[test]
fn a_mark_is_written_plain_or_within_its_colour() {
    let green = ColoredString::new("ok", Color::Green).to_string();
    assert!(green == "ok" || green == "\u{1b}[32mok\u{1b}[0m");
    let red = ColoredString::new("no", Color::Red).to_string();
    assert!(red == "no" || red == "\u{1b}[31mno\u{1b}[0m");
    assert_eq!(green, "ok".color(colored::Color::Green).to_string());
    assert_eq!(red, "no".color(colored::Color::Red).to_string());
}
