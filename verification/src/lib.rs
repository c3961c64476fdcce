//! Conversion of comma-separated text with a header row into a JSON array
//! of objects, one object per data row.
//!
//! The stages are kept apart: [`args`] reads the command line,
//! [`file_names`] settles the source and destination names, [`decoder`]
//! splits the source text into a header and data rows, [`record`] builds
//! the records of the document, and [`pipeline`] runs the conversion from
//! text to text. Nothing in this crate touches the file system or the
//! process: the caller hands in the arguments and the source text, and
//! writes the produced text.
//!
//! The three outside crates that do the parsing and the writing are
//! reached through [`command_line`], [`csv_reader`] and [`json_value`].

pub mod args;
pub mod command_line;
pub mod csv_reader;
pub mod decoder;
pub mod error;
pub mod file_names;
pub mod json_value;
pub mod pipeline;
pub mod record;
