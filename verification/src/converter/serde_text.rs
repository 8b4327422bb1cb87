//! JSON, YAML and TOML text read and written with serde_json, serde_yaml and toml. A value
//! read is handed on as its compact JSON text, as serde_json writes a `serde_json::Value`;
//! the writers read that text back and write the value in their format.
use vstd::prelude::*;
use vstd::utf8::encode_utf8;
use crate::converter::text::unsupported_is;
use crate::errors::ConversionError;
use crate::models::FileFormat;
use crate::strings::chars_of;

verus! {

/// The formats read and written through serde.
#[derive(Clone, Copy, Debug, PartialEq, Eq, Structural)]
pub enum SerdeFormat {
    Json,
    Yaml,
    Toml,
}

/// The serde format of a file format, if it is one.
pub open spec fn serde_format_spec(f: FileFormat) -> Option<SerdeFormat> {
    match f {
        FileFormat::Json => Some(SerdeFormat::Json),
        FileFormat::Yaml => Some(SerdeFormat::Yaml),
        FileFormat::Toml => Some(SerdeFormat::Toml),
        _ => None,
    }
}

/// The serde format of a file format, if it is one (see `serde_format_spec`).
pub fn serde_format_of(f: FileFormat) -> (r: Option<SerdeFormat>)
    ensures
        r == serde_format_spec(f),
{
    match f {
        FileFormat::Json => Some(SerdeFormat::Json),
        FileFormat::Yaml => Some(SerdeFormat::Yaml),
        FileFormat::Toml => Some(SerdeFormat::Toml),
        _ => None,
    }
}

/// The compact JSON text of the `serde_json::Value` that serde_json reads from a text, or
/// the error's line and text.
pub uninterp spec fn json_read(content: Seq<char>) -> Result<Seq<char>, (Option<u32>, Seq<char>)>;

/// The compact JSON text of the `serde_json::Value` that serde_yaml reads from a text, or
/// the error's line (if it has a location) and text.
pub uninterp spec fn yaml_read(content: Seq<char>) -> Result<Seq<char>, (Option<u32>, Seq<char>)>;

/// The compact JSON text of the `serde_json::Value` that toml reads from a text, or the
/// byte offset where the error's span starts (if it has one) and its text.
pub uninterp spec fn toml_read(content: Seq<char>) -> Result<Seq<char>, (Option<usize>, Seq<char>)>;

/// The compact JSON text of the `serde_json::Value` that serde_json reads, with no limit on
/// nesting, from a JSON text, or the error's line and text.
pub uninterp spec fn json_reread(json: Seq<char>) -> Result<Seq<char>, (Option<u32>, Seq<char>)>;

/// serde_json's `to_string_pretty` of the value of a JSON text (read with no limit on
/// nesting), or the error's text.
pub uninterp spec fn json_pretty_written(json: Seq<char>) -> Result<Seq<char>, Seq<char>>;

/// serde_yaml's `to_string` of the value of a JSON text (read with no limit on nesting), or
/// the error's text.
pub uninterp spec fn yaml_written(json: Seq<char>) -> Result<Seq<char>, Seq<char>>;

/// toml's `to_string_pretty` of the value of a JSON text (read with no limit on nesting), or
/// the error's text.
pub uninterp spec fn toml_written(json: Seq<char>) -> Result<Seq<char>, Seq<char>>;

/// Reads JSON text with serde_json's `from_str` into a `serde_json::Value` and hands it on as
/// serde_json's compact `to_string` of it; an error gives its line and text.
#[verifier::external_body]
fn read_json(content: &str) -> (r: Result<String, (Option<u32>, String)>)
    ensures
        match r {
            Ok(t) => json_read(content@) == Ok::<_, (Option<u32>, Seq<char>)>(t@),
            Err((line, d)) => json_read(content@) == Err::<Seq<char>, _>((line, d@)),
        },
{
    let v = serde_json::from_str::<serde_json::Value>(content)
        .map_err(|e| (Some(e.line() as u32), e.to_string()))?;
    serde_json::to_string(&v).map_err(|e| (None, e.to_string()))
}

/// Reads JSON text into a `serde_json::Value` as serde_json's `from_str` does but with its
/// recursion limit disabled (`Deserializer::disable_recursion_limit`, then `end`), and hands
/// it on as serde_json's compact `to_string` of it; an error gives its line and text.
#[verifier::external_body]
fn reread_json(json: &str) -> (r: Result<String, (Option<u32>, String)>)
    ensures
        match r {
            Ok(t) => json_reread(json@) == Ok::<_, (Option<u32>, Seq<char>)>(t@),
            Err((line, d)) => json_reread(json@) == Err::<Seq<char>, _>((line, d@)),
        },
{
    let mut de = serde_json::Deserializer::from_str(json);
    de.disable_recursion_limit();
    let v: serde_json::Value = serde::Deserialize::deserialize(&mut de)
        .map_err(|e: serde_json::Error| (Some(e.line() as u32), e.to_string()))?;
    de.end().map_err(|e| (Some(e.line() as u32), e.to_string()))?;
    serde_json::to_string(&v).map_err(|e| (None, e.to_string()))
}

/// Reads YAML text with serde_yaml's `from_str` into a `serde_json::Value` and hands it on
/// as serde_json's compact `to_string` of it; an error gives the line of its location, if
/// any, and its text.
#[verifier::external_body]
fn read_yaml(content: &str) -> (r: Result<String, (Option<u32>, String)>)
    ensures
        match r {
            Ok(t) => yaml_read(content@) == Ok::<_, (Option<u32>, Seq<char>)>(t@),
            Err((line, d)) => yaml_read(content@) == Err::<Seq<char>, _>((line, d@)),
        },
{
    let v = serde_yaml::from_str::<serde_json::Value>(content)
        .map_err(|e| (e.location().map(|l| l.line() as u32), e.to_string()))?;
    serde_json::to_string(&v).map_err(|e| (None, e.to_string()))
}

/// Reads TOML text with toml's `from_str` into a `serde_json::Value` and hands it on as
/// serde_json's compact `to_string` of it; an error gives the byte offset where its span
/// starts, if it has one, and its text.
#[verifier::external_body]
fn read_toml(content: &str) -> (r: Result<String, (Option<usize>, String)>)
    ensures
        match r {
            Ok(t) => toml_read(content@) == Ok::<_, (Option<usize>, Seq<char>)>(t@),
            Err((at, d)) => toml_read(content@) == Err::<Seq<char>, _>((at, d@)),
        },
{
    let v = toml::from_str::<serde_json::Value>(content).map_err(|e| (e.span().map(|s| s.start), e.to_string()))?;
    serde_json::to_string(&v).map_err(|e| (None, e.to_string()))
}

/// The number of newline bytes among the first `k` bytes.
pub open spec fn newlines_before(b: Seq<u8>, k: int) -> nat
    decreases k,
{
    if k <= 0 {
        0
    } else {
        newlines_before(b, k - 1) + if b[k - 1] == 10u8 {
            1nat
        } else {
            0nat
        }
    }
}

/// The line (counted from 1) on which the byte at `offset` of the text lies: one more than
/// the line ends before it (an offset past the end counts them all), at most `u32::MAX`.
pub open spec fn line_of_offset(text: Seq<char>, offset: usize) -> u32 {
    let b = encode_utf8(text);
    let k = if offset <= b.len() {
        offset as int
    } else {
        b.len() as int
    };
    let n = newlines_before(b, k) + 1;
    if n <= u32::MAX {
        n as u32
    } else {
        u32::MAX
    }
}

/// The line on which a byte offset of `content` lies (see `line_of_offset`).
pub fn line_of_byte_offset(content: &str, offset: usize) -> (r: u32)
    ensures
        r == line_of_offset(content@, offset),
{
    let b = content.as_bytes();
    let k: usize = if offset <= b.len() {
        offset
    } else {
        b.len()
    };
    let mut i: usize = 0;
    let mut n: u64 = 0;
    while i < k
        invariant
            k <= b@.len(),
            b@ == encode_utf8(content@),
            i <= k,
            n == newlines_before(b@, i as int),
            n <= i,
        decreases k - i,
    {
        if b[i] == 10u8 {
            n = n + 1;
        }
        i = i + 1;
    }
    if n < u32::MAX as u64 {
        (n + 1) as u32
    } else {
        u32::MAX
    }
}

/// Writes the value of a JSON text, read as `reread_json` reads it, with serde_json's
/// `to_string_pretty`.
#[verifier::external_body]
fn write_json_pretty(json: &str) -> (r: Result<String, String>)
    ensures
        match r {
            Ok(t) => json_pretty_written(json@) == Ok::<_, Seq<char>>(t@),
            Err(d) => json_pretty_written(json@) == Err::<Seq<char>, _>(d@),
        },
{
    let mut de = serde_json::Deserializer::from_str(json);
    de.disable_recursion_limit();
    let v: serde_json::Value = serde::Deserialize::deserialize(&mut de).map_err(|e: serde_json::Error| e.to_string())?;
    de.end().map_err(|e| e.to_string())?;
    serde_json::to_string_pretty(&v).map_err(|e| e.to_string())
}

/// Writes the value of a JSON text, read as `reread_json` reads it, with serde_yaml's
/// `to_string`.
#[verifier::external_body]
fn write_yaml(json: &str) -> (r: Result<String, String>)
    ensures
        match r {
            Ok(t) => yaml_written(json@) == Ok::<_, Seq<char>>(t@),
            Err(d) => yaml_written(json@) == Err::<Seq<char>, _>(d@),
        },
{
    let mut de = serde_json::Deserializer::from_str(json);
    de.disable_recursion_limit();
    let v: serde_json::Value = serde::Deserialize::deserialize(&mut de).map_err(|e: serde_json::Error| e.to_string())?;
    de.end().map_err(|e| e.to_string())?;
    serde_yaml::to_string(&v).map_err(|e| e.to_string())
}

/// Writes the value of a JSON text, read as `reread_json` reads it, with toml's
/// `to_string_pretty`.
#[verifier::external_body]
fn write_toml(json: &str) -> (r: Result<String, String>)
    ensures
        match r {
            Ok(t) => toml_written(json@) == Ok::<_, Seq<char>>(t@),
            Err(d) => toml_written(json@) == Err::<Seq<char>, _>(d@),
        },
{
    let mut de = serde_json::Deserializer::from_str(json);
    de.disable_recursion_limit();
    let v: serde_json::Value = serde::Deserialize::deserialize(&mut de).map_err(|e: serde_json::Error| e.to_string())?;
    de.end().map_err(|e| e.to_string())?;
    toml::to_string_pretty(&v).map_err(|e| e.to_string())
}

/// What reading a text in a serde format gives: the value's compact JSON text, or the
/// error's line and text (for TOML, the line on which the error's span starts).
pub open spec fn serde_read_spec(content: Seq<char>, format: SerdeFormat) -> Result<
    Seq<char>,
    (Option<u32>, Seq<char>),
> {
    match format {
        SerdeFormat::Json => json_read(content),
        SerdeFormat::Yaml => yaml_read(content),
        SerdeFormat::Toml => match toml_read(content) {
            Ok(t) => Ok(t),
            Err((at, d)) => Err(
                (
                    match at {
                        Some(o) => Some(line_of_offset(content, o)),
                        None => None,
                    },
                    d,
                ),
            ),
        },
    }
}

/// `r` is what a read gives: its compact JSON text, or a parse error naming the file, with
/// the reader's line and text.
pub open spec fn read_back_is(
    r: Result<String, ConversionError>,
    read: Result<Seq<char>, (Option<u32>, Seq<char>)>,
    file_name: Seq<char>,
) -> bool {
    match read {
        Ok(t) => r matches Ok(s) && s@ == t,
        Err((line, d)) => r matches Err(ConversionError::ParseError { file_name: n, line: l, detail })
            && n@ == file_name && l == line && detail@ == d,
    }
}

/// Reads the text of the file `file_name` in a serde format (see `serde_read_spec`); an
/// error is a parse error naming the file, with the reader's line and text.
pub fn parse_serde_text(content: &str, format: SerdeFormat, file_name: &str) -> (r: Result<
    String,
    ConversionError,
>)
    ensures
        read_back_is(r, serde_read_spec(content@, format), file_name@),
{
    let read = match format {
        SerdeFormat::Json => read_json(content),
        SerdeFormat::Yaml => read_yaml(content),
        SerdeFormat::Toml => match read_toml(content) {
            Ok(t) => Ok(t),
            Err((at, detail)) => {
                let line = match at {
                    Some(o) => Some(line_of_byte_offset(content, o)),
                    None => None,
                };
                Err((line, detail))
            },
        },
    };
    match read {
        Ok(t) => Ok(t),
        Err((line, detail)) => Err(ConversionError::ParseError { file_name: file_name.to_owned(), line, detail }),
    }
}

/// Reads back the compact JSON text of a value that the library wrote (see `json_reread`),
/// whatever its nesting; an error is a parse error naming the file, with the reader's line
/// and text.
pub fn reread_json_text(json: &str, file_name: &str) -> (r: Result<String, ConversionError>)
    ensures
        read_back_is(r, json_reread(json@), file_name@),
{
    match reread_json(json) {
        Ok(t) => Ok(t),
        Err((line, detail)) => Err(ConversionError::ParseError { file_name: file_name.to_owned(), line, detail }),
    }
}

/// Whether a compact JSON text is that of an object: it opens with `{` (no other JSON value
/// does).
pub open spec fn is_object_text(json: Seq<char>) -> bool {
    json.len() > 0 && json[0] == '{'
}

/// What writing the value of a compact JSON text in a serde format gives: TOML only takes
/// an object at the top; the writers' text, or their error's text.
pub open spec fn serde_write_spec(json: Seq<char>, format: SerdeFormat) -> Option<Result<Seq<char>, Seq<char>>> {
    match format {
        SerdeFormat::Json => Some(json_pretty_written(json)),
        SerdeFormat::Yaml => Some(yaml_written(json)),
        SerdeFormat::Toml => if is_object_text(json) {
            Some(toml_written(json))
        } else {
            None
        },
    }
}

/// Writes the value of the compact JSON text `json` (as serde_json writes a value) in a
/// serde format (see `serde_write_spec`): a top level other than an object is refused for
/// TOML; a writer's error is an encoding error naming the file.
pub fn serialize_serde_text(json: &str, format: SerdeFormat, file_name: &str) -> (r: Result<
    String,
    ConversionError,
>)
    ensures
        match serde_write_spec(json@, format) {
            None => unsupported_is(r, "JSON"@, "TOML (トップレベルがオブジェクトではありません)"@),
            Some(Ok(t)) => r matches Ok(s) && s@ == t,
            Some(Err(d)) => r matches Err(ConversionError::EncodeError { file_name: n, detail })
                && n@ == file_name@ && detail@ == d,
        },
{
    let written = match format {
        SerdeFormat::Json => write_json_pretty(json),
        SerdeFormat::Yaml => write_yaml(json),
        SerdeFormat::Toml => {
            let c = chars_of(json);
            let opens_object = c.len() > 0 && c[0] == '{';
            if !opens_object {
                return Err(ConversionError::UnsupportedConversion {
                    from: "JSON".to_owned(),
                    to: "TOML (トップレベルがオブジェクトではありません)".to_owned(),
                });
            }
            write_toml(json)
        },
    };
    match written {
        Ok(t) => Ok(t),
        Err(detail) => Err(ConversionError::EncodeError { file_name: file_name.to_owned(), detail }),
    }
}

} // verus!
