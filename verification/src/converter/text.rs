//! Text conversion decisions: supported pairs, format detection and the conversion route.
use vstd::prelude::*;
use crate::converter::{format_debug_name, format_debug_spec, Converter};
use crate::encoding::{
    decode_failure_text, decoding_spec, detect_and_decode, encode_string, encoded_spec, encode_failure_text,
};
use crate::errors::ConversionError;
use crate::json::JsonValue;
use crate::models::{FileFormat, TextEncoding};
use crate::paths::{extension, path_extension};
use crate::strings::str_eq;
use crate::validator::{lowercase, to_lowercase};

pub use crate::converter::markdown::{
    markdown_to_plaintext, plaintext_to_markdown, strip_images, strip_links,
    strip_markdown_line, strip_numbered_list, strip_paired_markers, strip_single_markers,
};

verus! {

/// Converter between the text formats.
#[derive(Clone, Copy, Debug)]
pub struct TextConverter;

/// The text formats in the order they are listed.
pub open spec fn text_formats_spec() -> Seq<FileFormat> {
    seq![
        FileFormat::Json,
        FileFormat::Yaml,
        FileFormat::Toml,
        FileFormat::Xml,
        FileFormat::Csv,
        FileFormat::Markdown,
        FileFormat::PlainText,
    ]
}

/// JSON, YAML, TOML and XML convert into each other and into CSV; CSV converts into JSON;
/// Markdown and plain text convert into each other.
pub open spec fn text_can_convert_spec(from: FileFormat, to: FileFormat) -> bool {
    match (from, to) {
        (FileFormat::Json, FileFormat::Yaml) | (FileFormat::Json, FileFormat::Toml) | (
            FileFormat::Json,
            FileFormat::Xml,
        ) | (FileFormat::Json, FileFormat::Csv) => true,
        (FileFormat::Yaml, FileFormat::Json) | (FileFormat::Yaml, FileFormat::Toml) | (
            FileFormat::Yaml,
            FileFormat::Xml,
        ) | (FileFormat::Yaml, FileFormat::Csv) => true,
        (FileFormat::Toml, FileFormat::Json) | (FileFormat::Toml, FileFormat::Yaml) | (
            FileFormat::Toml,
            FileFormat::Xml,
        ) | (FileFormat::Toml, FileFormat::Csv) => true,
        (FileFormat::Xml, FileFormat::Json) | (FileFormat::Xml, FileFormat::Yaml) | (
            FileFormat::Xml,
            FileFormat::Toml,
        ) | (FileFormat::Xml, FileFormat::Csv) => true,
        (FileFormat::Csv, FileFormat::Json) => true,
        (FileFormat::Markdown, FileFormat::PlainText) => true,
        (FileFormat::PlainText, FileFormat::Markdown) => true,
        _ => false,
    }
}

/// JSON, YAML, TOML and XML convert both ways between any two of them; CSV converts only
/// into JSON; no format converts into itself.
pub proof fn law_structured_pairs_bidirectional(from: FileFormat, to: FileFormat)
    ensures
        is_structured_spec(from) && is_structured_spec(to) && from != FileFormat::Csv && to
            != FileFormat::Csv && from != to ==> text_can_convert_spec(from, to)
            && text_can_convert_spec(to, from),
        from == FileFormat::Csv ==> (text_can_convert_spec(from, to) <==> to == FileFormat::Json),
        !text_can_convert_spec(from, from),
{
}

/// The text formats, listed.
fn text_formats() -> (v: Vec<FileFormat>)
    ensures
        v@ == text_formats_spec(),
{
    let v = vec![
        FileFormat::Json,
        FileFormat::Yaml,
        FileFormat::Toml,
        FileFormat::Xml,
        FileFormat::Csv,
        FileFormat::Markdown,
        FileFormat::PlainText,
    ];
    assert(v@ =~= text_formats_spec());
    v
}

impl Default for TextConverter {
    /// The text converter.
    fn default() -> (c: Self)
        ensures
            c == TextConverter,
    {
        TextConverter
    }
}

impl TextConverter {
    /// A new text converter.
    pub fn new() -> (c: Self) {
        TextConverter
    }
}

impl Converter for TextConverter {
    open spec fn input_formats_spec(&self) -> Seq<FileFormat> {
        text_formats_spec()
    }

    open spec fn output_formats_spec(&self) -> Seq<FileFormat> {
        text_formats_spec()
    }

    open spec fn can_convert_spec(&self, from: FileFormat, to: FileFormat) -> bool {
        text_can_convert_spec(from, to)
    }

    fn supported_input_formats(&self) -> (v: Vec<FileFormat>) {
        text_formats()
    }

    fn supported_output_formats(&self) -> (v: Vec<FileFormat>) {
        text_formats()
    }

    fn can_convert(&self, from: &FileFormat, to: &FileFormat) -> (r: bool) {
        if *from == *to {
            return false;
        }
        match (from, to) {
            (FileFormat::Json, FileFormat::Yaml) | (FileFormat::Json, FileFormat::Toml) | (
                FileFormat::Json,
                FileFormat::Xml,
            ) | (FileFormat::Json, FileFormat::Csv) => true,
            (FileFormat::Yaml, FileFormat::Json) | (FileFormat::Yaml, FileFormat::Toml) | (
                FileFormat::Yaml,
                FileFormat::Xml,
            ) | (FileFormat::Yaml, FileFormat::Csv) => true,
            (FileFormat::Toml, FileFormat::Json) | (FileFormat::Toml, FileFormat::Yaml) | (
                FileFormat::Toml,
                FileFormat::Xml,
            ) | (FileFormat::Toml, FileFormat::Csv) => true,
            (FileFormat::Xml, FileFormat::Json) | (FileFormat::Xml, FileFormat::Yaml) | (
                FileFormat::Xml,
                FileFormat::Toml,
            ) | (FileFormat::Xml, FileFormat::Csv) => true,
            (FileFormat::Csv, FileFormat::Json) => true,
            (FileFormat::Markdown, FileFormat::PlainText) => true,
            (FileFormat::PlainText, FileFormat::Markdown) => true,
            _ => false,
        }
    }
}

/// The text format named by a lowercase extension (`tsv` counts as CSV, `text` as plain text).
pub open spec fn text_format_of_extension_spec(e: Seq<char>) -> Option<FileFormat> {
    if e == "json"@ {
        Some(FileFormat::Json)
    } else if e == "yaml"@ || e == "yml"@ {
        Some(FileFormat::Yaml)
    } else if e == "toml"@ {
        Some(FileFormat::Toml)
    } else if e == "xml"@ {
        Some(FileFormat::Xml)
    } else if e == "csv"@ || e == "tsv"@ {
        Some(FileFormat::Csv)
    } else if e == "md"@ || e == "markdown"@ {
        Some(FileFormat::Markdown)
    } else if e == "txt"@ || e == "text"@ {
        Some(FileFormat::PlainText)
    } else {
        None
    }
}

/// The text format of a path, from its lowercased extension.
pub open spec fn text_format_from_path_spec(path: Seq<char>) -> Option<FileFormat> {
    match path_extension(path) {
        Some(e) => text_format_of_extension_spec(lowercase(e)),
        None => None,
    }
}

/// The text format named by a lowercase extension.
fn text_format_of_extension(e: &str) -> (r: Option<FileFormat>)
    ensures
        r == text_format_of_extension_spec(e@),
{
    if str_eq(e, "json") {
        Some(FileFormat::Json)
    } else if str_eq(e, "yaml") || str_eq(e, "yml") {
        Some(FileFormat::Yaml)
    } else if str_eq(e, "toml") {
        Some(FileFormat::Toml)
    } else if str_eq(e, "xml") {
        Some(FileFormat::Xml)
    } else if str_eq(e, "csv") || str_eq(e, "tsv") {
        Some(FileFormat::Csv)
    } else if str_eq(e, "md") || str_eq(e, "markdown") {
        Some(FileFormat::Markdown)
    } else if str_eq(e, "txt") || str_eq(e, "text") {
        Some(FileFormat::PlainText)
    } else {
        None
    }
}

/// Detects the text format of a path from its extension, ignoring case.
pub fn detect_format_from_path(path: &str) -> (r: Option<FileFormat>)
    ensures
        r == text_format_from_path_spec(path@),
{
    match extension(path) {
        Some(e) => {
            let lower = to_lowercase(e.as_str());
            text_format_of_extension(lower.as_str())
        },
        None => None,
    }
}

// ---------------------------------------------------------------------------
// The steps of a text conversion
// ---------------------------------------------------------------------------

/// The largest text file converted, in bytes (50 MiB).
pub const TEXT_SIZE_LIMIT: u64 = 52428800;

/// Refuses a text file larger than the limit, giving its size in whole MiB.
pub fn check_text_size(file_name: &str, size_bytes: u64) -> (r: Result<(), ConversionError>)
    ensures
        size_bytes <= TEXT_SIZE_LIMIT ==> r is Ok,
        size_bytes > TEXT_SIZE_LIMIT ==> (r matches Err(
            ConversionError::FileSizeLimitError { file_name: f, size_mb, limit_mb },
        ) && f@ == file_name@ && size_mb == size_bytes / 1048576 && limit_mb == 50),
{
    if size_bytes > TEXT_SIZE_LIMIT {
        Err(ConversionError::FileSizeLimitError {
            file_name: file_name.to_owned(),
            size_mb: size_bytes / 1048576,
            limit_mb: 50,
        })
    } else {
        Ok(())
    }
}

/// `r` is the refusal of the conversion from `from` to `to`.
pub open spec fn unsupported_is<T>(r: Result<T, ConversionError>, from: Seq<char>, to: Seq<char>) -> bool {
    r matches Err(ConversionError::UnsupportedConversion { from: f, to: t }) && f@ == from && t@
        == to
}

/// The source and target formats of a text conversion, from the paths' extensions; an
/// unknown source or target is refused.
pub fn detect_text_formats(input: &str, output: &str) -> (r: Result<
    (FileFormat, FileFormat),
    ConversionError,
>)
    ensures
        match (text_format_from_path_spec(input@), text_format_from_path_spec(output@)) {
            (None, _) => unsupported_is(r, "unknown"@, "unknown"@),
            (Some(s), None) => unsupported_is(r, format_debug_spec(s), "unknown"@),
            (Some(s), Some(t)) => r == Ok::<(FileFormat, FileFormat), ConversionError>((s, t)),
        },
{
    let source = match detect_format_from_path(input) {
        Some(f) => f,
        None => {
            return Err(ConversionError::UnsupportedConversion {
                from: "unknown".to_owned(),
                to: "unknown".to_owned(),
            });
        },
    };
    match detect_format_from_path(output) {
        Some(target) => Ok((source, target)),
        None => Err(ConversionError::UnsupportedConversion {
            from: format_debug_name(&source).to_owned(),
            to: "unknown".to_owned(),
        }),
    }
}

/// How a text conversion is carried out.
#[derive(Clone, Copy, Debug, PartialEq, Eq, Structural)]
pub enum TextRoute {
    /// Markdown syntax is stripped.
    MarkdownToPlainText,
    /// Plain text is kept as Markdown.
    PlainTextToMarkdown,
    /// The input is read into a structured value, which is written in the target format.
    Structured,
}

/// The route of a conversion between two text formats.
pub open spec fn text_route_spec(from: FileFormat, to: FileFormat) -> TextRoute {
    match (from, to) {
        (FileFormat::Markdown, FileFormat::PlainText) => TextRoute::MarkdownToPlainText,
        (FileFormat::PlainText, FileFormat::Markdown) => TextRoute::PlainTextToMarkdown,
        _ => TextRoute::Structured,
    }
}

/// The route of a conversion between two text formats (see `text_route_spec`).
pub fn text_route(from: FileFormat, to: FileFormat) -> (r: TextRoute)
    ensures
        r == text_route_spec(from, to),
{
    match (from, to) {
        (FileFormat::Markdown, FileFormat::PlainText) => TextRoute::MarkdownToPlainText,
        (FileFormat::PlainText, FileFormat::Markdown) => TextRoute::PlainTextToMarkdown,
        _ => TextRoute::Structured,
    }
}

/// The formats that are read into a structured value and written from one.
pub open spec fn is_structured_spec(f: FileFormat) -> bool {
    f == FileFormat::Json || f == FileFormat::Yaml || f == FileFormat::Toml || f == FileFormat::Xml
        || f == FileFormat::Csv
}

/// Whether a format is read into a structured value and written from one.
pub fn is_structured(f: FileFormat) -> (r: bool)
    ensures
        r == is_structured_spec(f),
{
    match f {
        FileFormat::Json | FileFormat::Yaml | FileFormat::Toml | FileFormat::Xml | FileFormat::Csv => true,
        _ => false,
    }
}

/// Refuses to read a format that is not structured into a structured value.
pub fn check_parse_format(format: FileFormat) -> (r: Result<(), ConversionError>)
    ensures
        is_structured_spec(format) ==> r is Ok,
        !is_structured_spec(format) ==> unsupported_is(r, format_debug_spec(format), "JSON"@),
{
    if is_structured(format) {
        Ok(())
    } else {
        Err(ConversionError::UnsupportedConversion {
            from: format_debug_name(&format).to_owned(),
            to: "JSON".to_owned(),
        })
    }
}

/// Refuses to write a structured value in a format that is not structured, and to write
/// TOML whose top level is not an object.
pub fn check_serialize_format(value: &JsonValue, format: FileFormat) -> (r: Result<
    (),
    ConversionError,
>)
    ensures
        !is_structured_spec(format) ==> unsupported_is(r, "JSON"@, format_debug_spec(format)),
        format == FileFormat::Toml && !(*value is Object) ==> unsupported_is(
            r,
            "JSON"@,
            "TOML (トップレベルがオブジェクトではありません)"@,
        ),
        is_structured_spec(format) && (format == FileFormat::Toml ==> *value is Object) ==> r is Ok,
{
    if !is_structured(format) {
        return Err(ConversionError::UnsupportedConversion {
            from: "JSON".to_owned(),
            to: format_debug_name(&format).to_owned(),
        });
    }
    match (format, value) {
        (FileFormat::Toml, JsonValue::Object(_)) => Ok(()),
        (FileFormat::Toml, _) => Err(ConversionError::UnsupportedConversion {
            from: "JSON".to_owned(),
            to: "TOML (トップレベルがオブジェクトではありません)".to_owned(),
        }),
        _ => Ok(()),
    }
}

/// Decodes a text file's bytes (see `detect_and_decode`); a decoding error names the file.
pub fn decode_text_input(bytes: &[u8], file_name: &str) -> (r: Result<String, ConversionError>)
    ensures
        match decoding_spec(bytes@) {
            Ok(text) => r matches Ok(s) && s@ == text,
            Err(name) => r matches Err(ConversionError::DecodeError { file_name: f, detail })
                && f@ == file_name@ && detail@ == decode_failure_text(name),
        },
{
    match detect_and_decode(bytes) {
        Ok(s) => Ok(s),
        Err(ConversionError::DecodeError { detail, .. }) => Err(
            ConversionError::DecodeError { file_name: file_name.to_owned(), detail },
        ),
        Err(other) => Err(other),
    }
}

/// Encodes a text file's content in the chosen encoding, UTF-8 when none is chosen (see
/// `encode_string`); an encoding error names the file.
pub fn encode_text_output(content: &str, file_name: &str, encoding: Option<TextEncoding>) -> (r:
    Result<Vec<u8>, ConversionError>)
    ensures
        match encoded_spec(
            content@,
            match encoding {
                Some(e) => e,
                None => TextEncoding::Utf8,
            },
        ) {
            Some(b) => r matches Ok(v) && v@ == b,
            None => r matches Err(ConversionError::EncodeError { file_name: f, detail })
                && f@ == file_name@ && detail@ == encode_failure_text(
                match encoding {
                    Some(e) => e,
                    None => TextEncoding::Utf8,
                },
            ),
        },
{
    let target = match encoding {
        Some(e) => e,
        None => TextEncoding::Utf8,
    };
    match encode_string(content, &target) {
        Ok(b) => Ok(b),
        Err(ConversionError::EncodeError { detail, .. }) => Err(
            ConversionError::EncodeError { file_name: file_name.to_owned(), detail },
        ),
        Err(other) => Err(other),
    }
}

} // verus!
