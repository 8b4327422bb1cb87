//! Verified core of a batch file converter for image and text formats.
//!
//! The library holds the decisions of the converter: which format pairs can be
//! converted, how output paths are named and how name conflicts are resolved,
//! how input files are validated, how Markdown is reduced to plain text, how
//! structured data is laid out as XML and CSV, how a batch of conversions is
//! counted and reported, and how the conversion history is kept.
pub mod commands;
pub mod encoding;
pub mod errors;
pub mod history;
pub mod json;
pub mod json_text;
pub mod models;
pub mod output;
pub mod paths;
pub mod settings;
pub mod strings;
pub mod validator;
pub mod converter;
