//! A text conversion from the bytes read to the bytes written: the size limit, decoding, the
//! formats named by the paths, the route, reading into a structured value and writing it,
//! and encoding. A structured value passes between reading and writing as compact JSON text,
//! as serde_json writes a value.
use vstd::prelude::*;
use crate::converter::format_debug_spec;
use crate::converter::markdown::{markdown_to_plaintext, markdown_to_plaintext_spec, plaintext_to_markdown};
use crate::converter::serde_text::{
    parse_serde_text, read_back_is, serde_format_of, serde_format_spec, serde_read_spec,
    serde_write_spec, serialize_serde_text, json_reread, reread_json_text, SerdeFormat,
};
use crate::converter::tabular::{
    csv_body_of, csv_header_of, csv_parse_outcome, csv_write_outcome, delimiter_byte_spec,
    parse_csv_to_json, serialize_to_csv,
};
use crate::converter::text::{
    check_parse_format, check_text_size, decode_text_input,
    detect_text_formats, encode_text_output, is_structured, is_structured_spec, text_format_from_path_spec,
    text_route, text_route_spec, unsupported_is, TextRoute, TEXT_SIZE_LIMIT,
};
use crate::converter::xml::{build_spec, parse_xml_to_json, xml_events_of, xml_kept_events};
use crate::converter::xml_json::{xml_json_tree, xml_to_json_value};
use crate::encoding::{decode_failure_text, decoding_spec, encode_failure_text, encoded_spec};
use crate::errors::ConversionError;
use crate::json::{serialize_to_xml, xml_document_spec, JsonValue};
use crate::json_text::{json_text_of, json_text_spec, json_tree_of, json_value_of_text, parse_json_spec};
use crate::models::{ConversionOptions, FileFormat, TextEncoding};

verus! {

/// What reading a text in a structured format gives, as compact JSON text: JSON, YAML and
/// TOML by their serde readers; XML by the library's reader, its leaves typed, the value
/// written out and read back by serde_json with no limit on nesting; CSV by the library's
/// reader, the value written out and read back the same way. A format that is not
/// structured is refused.
pub open spec fn parsed_json_is(
    r: Result<String, ConversionError>,
    content: Seq<char>,
    format: FileFormat,
    file_name: Seq<char>,
    options: ConversionOptions,
) -> bool {
    if !is_structured_spec(format) {
        unsupported_is(r, format_debug_spec(format), "JSON"@)
    } else {
        match serde_format_spec(format) {
            Some(f) => read_back_is(r, serde_read_spec(content, f), file_name),
            None => if format == FileFormat::Xml {
                match xml_kept_events(xml_events_of(content)) {
                    Err(m) => r matches Err(ConversionError::ParseError { file_name: n, line, detail })
                        && n@ == file_name && line is None && detail@ == "XML parse error: "@ + m,
                    Ok(evs) => read_back_is(
                        r,
                        json_reread(json_text_spec(xml_json_tree(build_spec(evs)))),
                        file_name,
                    ),
                }
            } else {
                exists|v: Result<JsonValue, ConversionError>|
                    csv_parse_outcome(
                        v,
                        csv_header_of(content, delimiter_byte_spec(options.csv_delimiter)),
                        csv_body_of(content, delimiter_byte_spec(options.csv_delimiter)),
                        file_name,
                    ) && match v {
                        Ok(j) => read_back_is(r, json_reread(json_text_spec(json_tree_of(j))), file_name),
                        Err(e) => r == Err::<String, ConversionError>(e),
                    }
            },
        }
    }
}

/// Reads the text of the file `file_name` in a structured format into the compact JSON text
/// of its value (see `parsed_json_is`).
pub fn parse_to_json_value(
    content: &str,
    format: &FileFormat,
    file_name: &str,
    options: &ConversionOptions,
) -> (r: Result<String, ConversionError>)
    ensures
        parsed_json_is(r, content@, *format, file_name@, *options),
{
    match check_parse_format(*format) {
        Ok(()) => {},
        Err(e) => {
            return Err(e);
        },
    }
    match serde_format_of(*format) {
        Some(f) => parse_serde_text(content, f, file_name),
        None => {
            if *format == FileFormat::Xml {
                match parse_xml_to_json(content, file_name) {
                    Ok(x) => {
                        let j = xml_to_json_value(&x);
                        let text = json_text_of(&j);
                        reread_json_text(text.as_str(), file_name)
                    },
                    Err(e) => Err(e),
                }
            } else {
                let v = parse_csv_to_json(content, file_name, options);
                match v {
                    Ok(j) => {
                        let text = json_text_of(&j);
                        let r = reread_json_text(text.as_str(), file_name);
                        assert(match v {
                            Ok(j) => read_back_is(r, json_reread(json_text_spec(json_tree_of(j))), file_name@),
                            Err(e) => r == Err::<String, ConversionError>(e),
                        });
                        r
                    },
                    Err(e) => Err(e),
                }
            }
        },
    }
}

/// The message when compact JSON text cannot be read back into a value.
pub open spec fn unreadable_json_text() -> Seq<char> {
    "JSON テキストを読み戻せませんでした"@
}

/// What writing the value of compact JSON text in a structured format gives: JSON, YAML and
/// TOML by their serde writers (see `serde_write_spec`); XML and CSV by the library's
/// writers, from the value the text reads as. A format that is not structured is refused.
pub open spec fn serialized_is(
    r: Result<String, ConversionError>,
    json: Seq<char>,
    format: FileFormat,
    file_name: Seq<char>,
    options: ConversionOptions,
) -> bool {
    if !is_structured_spec(format) {
        unsupported_is(r, "JSON"@, format_debug_spec(format))
    } else {
        match serde_format_spec(format) {
            Some(f) => match serde_write_spec(json, f) {
                None => unsupported_is(r, "JSON"@, "TOML (トップレベルがオブジェクトではありません)"@),
                Some(Ok(t)) => r matches Ok(s) && s@ == t,
                Some(Err(d)) => r matches Err(ConversionError::EncodeError { file_name: n, detail })
                    && n@ == file_name && detail@ == d,
            },
            None => match parse_json_spec(json) {
                None => r matches Err(ConversionError::EncodeError { file_name: n, detail })
                    && n@ == file_name && detail@ == unreadable_json_text(),
                Some(tree) => exists|v: JsonValue|
                    json_tree_of(v) == tree && if format == FileFormat::Xml {
                        r matches Ok(s) && s@ == xml_document_spec(v)
                    } else {
                        csv_write_outcome(r, v, file_name, delimiter_byte_spec(options.csv_delimiter))
                    },
            },
        }
    }
}

/// Writes the value of the compact JSON text `json` in a structured format (see
/// `serialized_is`).
pub fn serialize_from_json_value(
    json: &str,
    format: &FileFormat,
    file_name: &str,
    options: &ConversionOptions,
) -> (r: Result<String, ConversionError>)
    ensures
        serialized_is(r, json@, *format, file_name@, *options),
{
    if !is_structured(*format) {
        return Err(ConversionError::UnsupportedConversion {
            from: "JSON".to_owned(),
            to: crate::converter::format_debug_name(format).to_owned(),
        });
    }
    match serde_format_of(*format) {
        Some(f) => serialize_serde_text(json, f, file_name),
        None => match json_value_of_text(json) {
            None => Err(ConversionError::EncodeError {
                file_name: file_name.to_owned(),
                detail: "JSON テキストを読み戻せませんでした".to_owned(),
            }),
            Some(v) => {
                if *format == FileFormat::Xml {
                    let r = serialize_to_xml(&v, file_name);
                    assert(json_tree_of(v) == parse_json_spec(json@)->Some_0);
                    r
                } else {
                    serialize_to_csv(&v, file_name, options)
                }
            },
        },
    }
}

/// The text that a route makes of the decoded input, or the error of its structured steps.
pub open spec fn routed_is(
    r: Result<String, ConversionError>,
    text: Seq<char>,
    source: FileFormat,
    target: FileFormat,
    file_name: Seq<char>,
    options: ConversionOptions,
) -> bool {
    match text_route_spec(source, target) {
        TextRoute::MarkdownToPlainText => r matches Ok(s) && s@ == markdown_to_plaintext_spec(text),
        TextRoute::PlainTextToMarkdown => r matches Ok(s) && s@ == text,
        TextRoute::Structured => exists|p: Result<String, ConversionError>|
            parsed_json_is(p, text, source, file_name, options) && match p {
                Err(e) => r == Err::<String, ConversionError>(e),
                Ok(json) => serialized_is(r, json@, target, file_name, options),
            },
    }
}

/// The output encoding chosen, UTF-8 when none is.
pub open spec fn target_encoding(options: ConversionOptions) -> TextEncoding {
    match options.encoding {
        Some(e) => e,
        None => TextEncoding::Utf8,
    }
}

/// What a text conversion gives for the bytes read from the file `file_name` at
/// `input_path`, written to `output_path`, in order: a file over the size limit is refused;
/// the bytes are decoded (see `decoding_spec`); the formats come from the paths' extensions
/// (see `detect_text_formats`); the route turns the text into the output text (see
/// `routed_is`); the output text is encoded (see `encoded_spec`).
pub open spec fn text_conversion_is(
    r: Result<Vec<u8>, ConversionError>,
    raw: Seq<u8>,
    input_path: Seq<char>,
    output_path: Seq<char>,
    file_name: Seq<char>,
    options: ConversionOptions,
) -> bool {
    if raw.len() > TEXT_SIZE_LIMIT {
        r matches Err(ConversionError::FileSizeLimitError { file_name: f, size_mb, limit_mb })
            && f@ == file_name && size_mb == raw.len() / 1048576 && limit_mb == 50
    } else {
        match decoding_spec(raw) {
            Err(name) => r matches Err(ConversionError::DecodeError { file_name: f, detail })
                && f@ == file_name && detail@ == decode_failure_text(name),
            Ok(text) => match (text_format_from_path_spec(input_path), text_format_from_path_spec(output_path)) {
                (None, _) => unsupported_is(r, "unknown"@, "unknown"@),
                (Some(s), None) => unsupported_is(r, format_debug_spec(s), "unknown"@),
                (Some(s), Some(t)) => exists|o: Result<String, ConversionError>|
                    routed_is(o, text, s, t, file_name, options) && match o {
                        Err(e) => r == Err::<Vec<u8>, ConversionError>(e),
                        Ok(out) => match encoded_spec(out@, target_encoding(options)) {
                            Some(b) => r matches Ok(v) && v@ == b,
                            None => r matches Err(ConversionError::EncodeError { file_name: f, detail })
                                && f@ == file_name && detail@ == encode_failure_text(target_encoding(options)),
                        },
                    },
            },
        }
    }
}

/// Converts the bytes of a text file into the bytes of its output (see `text_conversion_is`).
pub fn convert_text_content(
    raw: &[u8],
    input_path: &str,
    output_path: &str,
    file_name: &str,
    options: &ConversionOptions,
) -> (r: Result<Vec<u8>, ConversionError>)
    ensures
        text_conversion_is(r, raw@, input_path@, output_path@, file_name@, *options),
{
    let size = raw.len() as u64;
    match check_text_size(file_name, size) {
        Ok(()) => {},
        Err(e) => {
            return Err(e);
        },
    }
    let text = match decode_text_input(raw, file_name) {
        Ok(t) => t,
        Err(e) => {
            return Err(e);
        },
    };
    let (source, target) = match detect_text_formats(input_path, output_path) {
        Ok(p) => p,
        Err(e) => {
            return Err(e);
        },
    };
    let routed: Result<String, ConversionError> = match text_route(source, target) {
        TextRoute::MarkdownToPlainText => Ok(markdown_to_plaintext(text.as_str())),
        TextRoute::PlainTextToMarkdown => Ok(plaintext_to_markdown(text.as_str())),
        TextRoute::Structured => {
            let p = parse_to_json_value(text.as_str(), &source, file_name, options);
            match p {
                Err(e) => {
                    let o: Result<String, ConversionError> = Err(e);
                    assert(parsed_json_is(p, text@, source, file_name@, *options) && match p {
                        Err(e) => o == Err::<String, ConversionError>(e),
                        Ok(json) => serialized_is(o, json@, target, file_name@, *options),
                    });
                    o
                },
                Ok(json) => {
                    let o = serialize_from_json_value(json.as_str(), &target, file_name, options);
                    assert(parsed_json_is(p, text@, source, file_name@, *options) && match p {
                        Err(e) => o == Err::<String, ConversionError>(e),
                        Ok(json) => serialized_is(o, json@, target, file_name@, *options),
                    });
                    o
                },
            }
        },
    };
    assert(routed_is(routed, text@, source, target, file_name@, *options));
    let r = match routed {
        Err(e) => Err(e),
        Ok(out) => encode_text_output(out.as_str(), file_name, options.encoding),
    };
    assert(routed_is(routed, text@, source, target, file_name@, *options) && match routed {
        Err(e) => r == Err::<Vec<u8>, ConversionError>(e),
        Ok(out) => match encoded_spec(out@, target_encoding(*options)) {
            Some(b) => r matches Ok(v) && v@ == b,
            None => r matches Err(ConversionError::EncodeError { file_name: f, detail })
                && f@ == file_name@ && detail@ == encode_failure_text(target_encoding(*options)),
        },
    });
    r
}

} // verus!
