//! Structural differences between two JSON-like documents, sorted into key,
//! type, value and array differences, and their display as tables.
//!
//! The comparison works on [`value::Value`] trees. [`compare_field`] holds
//! the engine, [`finders`] the four entry points, [`diff_spec`] what they
//! compute and [`laws`] what holds of every comparison. The remaining modules
//! serve a run in the terminal: its configuration, its context and its tables.

pub mod array_table;
pub mod compare_field;
pub mod diff_spec;
pub mod diff_types;
pub mod dtfterminal_types;
pub mod finders;
pub mod key_table;
pub mod laws;
pub mod path;
pub mod serialize;
pub mod table;
pub mod terminal;
pub mod type_table;
pub mod unordered;
pub mod utils;
pub mod value;
pub mod value_table;
