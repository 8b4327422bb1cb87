use webpexer::converter::serde_text::{
    line_of_byte_offset, parse_serde_text, serde_format_of, serialize_serde_text, SerdeFormat,
};
use webpexer::converter::tabular::{parse_csv_to_json, serialize_to_csv};
use webpexer::converter::text::{
    check_parse_format, check_serialize_format, check_text_size, decode_text_input,
    detect_format_from_path, detect_text_formats, encode_text_output, markdown_to_plaintext,
    plaintext_to_markdown, strip_images, strip_links, strip_markdown_line, strip_numbered_list,
    strip_paired_markers, strip_single_markers, text_route, TextConverter, TextRoute,
};
use webpexer::converter::xml::{classify_xml_text, parse_xml_to_json, XmlScalar, XmlValue};
use webpexer::converter::Converter;
use webpexer::errors::ConversionError;
use webpexer::json::{serialize_to_xml, xml_escape, JsonValue};
use webpexer::models::{
    ConflictResolution, ConversionOptions, CsvDelimiter, FileFormat, FileNamingPattern,
    TextEncoding,
};

fn default_options() -> ConversionOptions {
    ConversionOptions {
        quality: 80,
        resize: None,
        encoding: None,
        csv_delimiter: None,
        file_naming: FileNamingPattern::Original,
        conflict_resolution: ConflictResolution::Overwrite,
        delete_source: false,
    }
}

fn s(t: &str) -> JsonValue {
    JsonValue::String(t.to_string())
}

fn n(t: &str) -> JsonValue {
    JsonValue::Number(t.to_string())
}

fn obj(entries: Vec<(&str, JsonValue)>) -> JsonValue {
    JsonValue::Object(entries.into_iter().map(|(k, v)| (k.to_string(), v)).collect())
}

fn get<'a>(v: &'a JsonValue, key: &str) -> &'a JsonValue {
    match v {
        JsonValue::Object(es) => &es.iter().find(|(k, _)| k == key).expect("key").1,
        _ => panic!("not an object"),
    }
}

fn text_of(v: &JsonValue) -> &str {
    match v {
        JsonValue::String(t) => t,
        _ => panic!("not a string"),
    }
}

fn items(v: &JsonValue) -> &Vec<JsonValue> {
    match v {
        JsonValue::Array(a) => a,
        _ => panic!("not an array"),
    }
}

#[test]
fn text_test_supported_formats_count() {
    let converter = TextConverter::new();
    assert_eq!(converter.supported_input_formats().len(), 7);
    assert_eq!(converter.supported_output_formats().len(), 7);
}

#[test]
fn test_json_yaml_bidirectional() {
    let converter = TextConverter::new();
    assert!(converter.can_convert(&FileFormat::Json, &FileFormat::Yaml));
    assert!(converter.can_convert(&FileFormat::Yaml, &FileFormat::Json));
}

#[test]
fn test_json_toml_bidirectional() {
    let converter = TextConverter::new();
    assert!(converter.can_convert(&FileFormat::Json, &FileFormat::Toml));
    assert!(converter.can_convert(&FileFormat::Toml, &FileFormat::Json));
}

#[test]
fn test_json_xml_bidirectional() {
    let converter = TextConverter::new();
    assert!(converter.can_convert(&FileFormat::Json, &FileFormat::Xml));
    assert!(converter.can_convert(&FileFormat::Xml, &FileFormat::Json));
}

#[test]
fn test_csv_to_json_only() {
    let converter = TextConverter::new();
    assert!(converter.can_convert(&FileFormat::Csv, &FileFormat::Json));
    assert!(!converter.can_convert(&FileFormat::Csv, &FileFormat::Yaml));
}

#[test]
fn test_structured_to_csv_flat_only() {
    let converter = TextConverter::new();
    assert!(converter.can_convert(&FileFormat::Json, &FileFormat::Csv));
    assert!(converter.can_convert(&FileFormat::Yaml, &FileFormat::Csv));
    assert!(converter.can_convert(&FileFormat::Toml, &FileFormat::Csv));
    assert!(converter.can_convert(&FileFormat::Xml, &FileFormat::Csv));
}

#[test]
fn test_markdown_plaintext_bidirectional() {
    let converter = TextConverter::new();
    assert!(converter.can_convert(&FileFormat::Markdown, &FileFormat::PlainText));
    assert!(converter.can_convert(&FileFormat::PlainText, &FileFormat::Markdown));
}

#[test]
fn test_unsupported_pairs() {
    let converter = TextConverter::new();
    assert!(!converter.can_convert(&FileFormat::Markdown, &FileFormat::Json));
    assert!(!converter.can_convert(&FileFormat::PlainText, &FileFormat::Yaml));
    assert!(!converter.can_convert(&FileFormat::Csv, &FileFormat::Markdown));
}

#[test]
fn text_test_cannot_convert_same_format() {
    let converter = TextConverter::new();
    assert!(!converter.can_convert(&FileFormat::Json, &FileFormat::Json));
    assert!(!converter.can_convert(&FileFormat::Yaml, &FileFormat::Yaml));
    assert!(!converter.can_convert(&FileFormat::Csv, &FileFormat::Csv));
}

#[test]
fn text_test_detect_format_from_path() {
    assert_eq!(detect_format_from_path("f.json"), Some(FileFormat::Json));
    assert_eq!(detect_format_from_path("f.yaml"), Some(FileFormat::Yaml));
    assert_eq!(detect_format_from_path("f.yml"), Some(FileFormat::Yaml));
    assert_eq!(detect_format_from_path("f.toml"), Some(FileFormat::Toml));
    assert_eq!(detect_format_from_path("f.xml"), Some(FileFormat::Xml));
    assert_eq!(detect_format_from_path("f.csv"), Some(FileFormat::Csv));
    assert_eq!(detect_format_from_path("f.md"), Some(FileFormat::Markdown));
    assert_eq!(detect_format_from_path("f.txt"), Some(FileFormat::PlainText));
    assert_eq!(detect_format_from_path("f.png"), None);
}

#[test]
fn test_markdown_to_plaintext_headers() {
    let md = "# Hello\n## World\n### Test";
    let result = markdown_to_plaintext(md);
    assert_eq!(result, "Hello\nWorld\nTest");
}

#[test]
fn test_markdown_to_plaintext_bold_italic() {
    let md = "This is **bold** and *italic* text";
    let result = markdown_to_plaintext(md);
    assert_eq!(result, "This is bold and italic text");
}

#[test]
fn test_markdown_to_plaintext_links() {
    let md = "Click [here](https://example.com) for more";
    let result = markdown_to_plaintext(md);
    assert_eq!(result, "Click here for more");
}

#[test]
fn test_plaintext_to_markdown() {
    let text = "Hello world\n\nNew paragraph";
    let result = plaintext_to_markdown(text);
    assert_eq!(result, "Hello world\n\nNew paragraph");
}

#[test]
fn markdown_line_forms() {
    assert_eq!(strip_markdown_line("> quoted *text*"), "quoted text");
    assert_eq!(strip_markdown_line("  - item"), "  item");
    assert_eq!(strip_markdown_line("---"), "");
    assert_eq!(strip_markdown_line("***"), "");
    assert_eq!(strip_markdown_line("___"), "");
    assert_eq!(strip_markdown_line("**---**"), "");
    assert_eq!(strip_markdown_line("1. first"), "first");
    assert_eq!(strip_markdown_line("![alt](img.png) and `code`"), "!alt and code");
    assert_eq!(strip_paired_markers("a **b** c **d", "**"), "a b c **d");
    assert_eq!(strip_single_markers("x _y_ z", '_'), "x y z");
    assert_eq!(strip_links("[a](b) [c]"), "a [c]");
    assert_eq!(strip_images("![x](y)!"), "x!");
    assert_eq!(strip_numbered_list("12. twelve"), Some("twelve".to_string()));
    assert_eq!(strip_numbered_list("12 twelve"), None);
}

#[test]
fn markdown_keeps_trailing_newline_shape() {
    assert_eq!(markdown_to_plaintext("# A\n\n**B**\n"), "A\n\nB\n");
    assert_eq!(markdown_to_plaintext(""), "");
}

#[test]
fn test_parse_csv_to_json_array() {
    let csv = "name,age\nAlice,30\nBob,25\n";
    let opts = default_options();
    let val = parse_csv_to_json(csv, "test.csv", &opts).unwrap();
    let arr = items(&val);
    assert_eq!(arr.len(), 2);
    assert_eq!(text_of(get(&arr[0], "name")), "Alice");
    assert_eq!(text_of(get(&arr[0], "age")), "30");
    assert_eq!(text_of(get(&arr[1], "name")), "Bob");
}

#[test]
fn test_csv_tab_delimiter() {
    let csv = "name\tage\nAlice\t30\n";
    let mut opts = default_options();
    opts.csv_delimiter = Some(CsvDelimiter::Tab);
    let val = parse_csv_to_json(csv, "test.csv", &opts).unwrap();
    let arr = items(&val);
    assert_eq!(text_of(get(&arr[0], "name")), "Alice");
    assert_eq!(text_of(get(&arr[0], "age")), "30");
}

#[test]
fn test_csv_semicolon_delimiter_parse() {
    let csv = "name;age;city\nAlice;30;Tokyo\nBob;25;Osaka\n";
    let mut opts = default_options();
    opts.csv_delimiter = Some(CsvDelimiter::Semicolon);
    let val = parse_csv_to_json(csv, "test.csv", &opts).unwrap();
    let arr = items(&val);
    assert_eq!(arr.len(), 2);
    assert_eq!(text_of(get(&arr[0], "name")), "Alice");
    assert_eq!(text_of(get(&arr[0], "age")), "30");
    assert_eq!(text_of(get(&arr[0], "city")), "Tokyo");
    assert_eq!(text_of(get(&arr[1], "name")), "Bob");
}

#[test]
fn test_csv_default_comma_delimiter() {
    let csv = "a,b\n1,2\n";
    let opts = default_options();
    let val = parse_csv_to_json(csv, "test.csv", &opts).unwrap();
    let arr = items(&val);
    assert_eq!(text_of(get(&arr[0], "a")), "1");
    assert_eq!(text_of(get(&arr[0], "b")), "2");
}

#[test]
fn test_csv_to_json_preserves_column_count() {
    let csv = "col1,col2,col3\na,b,c\nd,e,f\ng,h,i\n";
    let opts = default_options();
    let val = parse_csv_to_json(csv, "test.csv", &opts).unwrap();
    let arr = items(&val);
    assert_eq!(arr.len(), 3);
    for item in arr {
        match item {
            JsonValue::Object(es) => {
                assert_eq!(es.len(), 3);
                for key in ["col1", "col2", "col3"] {
                    assert!(es.iter().any(|(k, _)| k == key));
                }
            }
            _ => panic!("not an object"),
        }
    }
}

#[test]
fn csv_duplicate_header_keeps_last_value() {
    let val = parse_csv_to_json("a,a\n1,2\n", "d.csv", &default_options()).unwrap();
    match &items(&val)[0] {
        JsonValue::Object(es) => {
            assert_eq!(es.len(), 1);
            assert_eq!(text_of(&es[0].1), "2");
        }
        _ => panic!("not an object"),
    }
}

#[test]
fn csv_empty_input_gives_empty_array() {
    let val = parse_csv_to_json("", "e.csv", &default_options()).unwrap();
    assert_eq!(items(&val).len(), 0);
}

#[test]
fn csv_ragged_record_is_parse_error_on_its_line() {
    match parse_csv_to_json("a,b\n1,2\n3\n", "r.csv", &default_options()) {
        Err(ConversionError::ParseError { file_name, line, detail }) => {
            assert_eq!(file_name, "r.csv");
            assert_eq!(line, Some(3));
            assert!(detail.starts_with("CSV parse error: "));
        }
        other => panic!("unexpected {:?}", other),
    }
}

#[test]
fn test_nested_structure_csv_rejection() {
    let v = JsonValue::Array(vec![obj(vec![
        ("address", obj(vec![("city", s("Tokyo"))])),
        ("name", s("Alice")),
    ])]);
    let result = serialize_to_csv(&v, "test.json", &default_options());
    assert!(result.is_err());
    if let Err(ConversionError::UnsupportedConversion { to, .. }) = result {
        assert!(to.contains("ネスト"));
    }
}

#[test]
fn test_flat_structure_csv_success() {
    let v = JsonValue::Array(vec![
        obj(vec![("age", n("30")), ("name", s("Alice"))]),
        obj(vec![("age", n("25")), ("name", s("Bob"))]),
    ]);
    let result = serialize_to_csv(&v, "test.json", &default_options()).unwrap();
    assert!(result.contains("name"));
    assert!(result.contains("Alice"));
    assert!(result.contains("Bob"));
    assert_eq!(result, "age,name\n30,Alice\n25,Bob\n");
}

#[test]
fn test_csv_tab_delimiter_serialize() {
    let v = JsonValue::Array(vec![
        obj(vec![("name", s("Alice")), ("score", n("95"))]),
        obj(vec![("name", s("Bob")), ("score", n("87"))]),
    ]);
    let mut opts = default_options();
    opts.csv_delimiter = Some(CsvDelimiter::Tab);
    let result = serialize_to_csv(&v, "test.json", &opts).unwrap();
    assert!(result.contains('\t'));
    assert!(result.contains("Alice"));
    assert!(result.contains("Bob"));
    let lines: Vec<&str> = result.lines().collect();
    assert!(lines[0].contains('\t'));
}

#[test]
fn test_csv_semicolon_delimiter_serialize() {
    let v = JsonValue::Array(vec![
        obj(vec![("color", s("Red")), ("fruit", s("Apple"))]),
        obj(vec![("color", s("Yellow")), ("fruit", s("Banana"))]),
    ]);
    let mut opts = default_options();
    opts.csv_delimiter = Some(CsvDelimiter::Semicolon);
    let result = serialize_to_csv(&v, "test.json", &opts).unwrap();
    assert!(result.contains(';'));
    assert!(result.contains("Apple"));
    assert!(result.contains("Banana"));
    let lines: Vec<&str> = result.lines().collect();
    assert!(lines[0].contains(';'));
}

#[test]
fn test_nested_object_csv_rejection() {
    let v = JsonValue::Array(vec![obj(vec![
        ("address", obj(vec![("city", s("Tokyo")), ("street", s("Main St"))])),
        ("name", s("Alice")),
    ])]);
    let result = serialize_to_csv(&v, "nested.json", &default_options());
    assert!(result.is_err());
    if let Err(ConversionError::UnsupportedConversion { from, to }) = &result {
        assert_eq!(from, "structured data");
        assert!(to.contains("ネスト"));
    } else {
        panic!("Expected UnsupportedConversion error, got {:?}", result);
    }
}

#[test]
fn test_nested_array_csv_rejection() {
    let v = JsonValue::Array(vec![obj(vec![
        ("name", s("Alice")),
        ("scores", JsonValue::Array(vec![n("95"), n("87"), n("92")])),
    ])]);
    let result = serialize_to_csv(&v, "nested_arr.json", &default_options());
    assert!(result.is_err());
    if let Err(ConversionError::UnsupportedConversion { from, to }) = &result {
        assert_eq!(from, "structured data");
        assert!(to.contains("ネスト"));
    } else {
        panic!("Expected UnsupportedConversion error, got {:?}", result);
    }
}

#[test]
fn csv_serialize_edge_cases() {
    let opts = default_options();
    assert_eq!(serialize_to_csv(&JsonValue::Array(vec![]), "e.json", &opts).unwrap(), "");
    let single = obj(vec![("a", JsonValue::Bool(true)), ("b", JsonValue::Null)]);
    assert_eq!(serialize_to_csv(&single, "o.json", &opts).unwrap(), "a,b\ntrue,\n");
    let sparse = JsonValue::Array(vec![obj(vec![("a", n("1"))]), obj(vec![("b", s("x,y"))])]);
    assert_eq!(serialize_to_csv(&sparse, "s.json", &opts).unwrap(), "a,b\n1,\n,\"x,y\"\n");
    match serialize_to_csv(&n("3"), "n.json", &opts) {
        Err(ConversionError::UnsupportedConversion { from, to }) => {
            assert_eq!(from, "structured data");
            assert_eq!(to, "CSV (データが配列またはオブジェクトではありません)");
        }
        other => panic!("unexpected {:?}", other),
    }
    match serialize_to_csv(&JsonValue::Array(vec![n("1")]), "a.json", &opts) {
        Err(ConversionError::UnsupportedConversion { to, .. }) => {
            assert_eq!(to, "CSV (配列内の要素がオブジェクトではありません)");
        }
        other => panic!("unexpected {:?}", other),
    }
}

#[test]
fn test_toml_top_level_array_rejection() {
    let v = JsonValue::Array(vec![n("1"), n("2"), n("3")]);
    let result = check_serialize_format(&v, FileFormat::Toml);
    assert!(result.is_err());
    match result {
        Err(ConversionError::UnsupportedConversion { from, to }) => {
            assert_eq!(from, "JSON");
            assert_eq!(to, "TOML (トップレベルがオブジェクトではありません)");
        }
        other => panic!("unexpected {:?}", other),
    }
    assert!(check_serialize_format(&obj(vec![]), FileFormat::Toml).is_ok());
}

#[test]
fn unstructured_formats_are_refused() {
    match check_parse_format(FileFormat::Markdown) {
        Err(ConversionError::UnsupportedConversion { from, to }) => {
            assert_eq!(from, "Markdown");
            assert_eq!(to, "JSON");
        }
        other => panic!("unexpected {:?}", other),
    }
    match check_serialize_format(&obj(vec![]), FileFormat::Png) {
        Err(ConversionError::UnsupportedConversion { from, to }) => {
            assert_eq!(from, "JSON");
            assert_eq!(to, "Png");
        }
        other => panic!("unexpected {:?}", other),
    }
    assert!(check_parse_format(FileFormat::Csv).is_ok());
}

#[test]
fn test_xml_parse_simple() {
    let xml = "<root><name>test</name><value>42</value></root>";
    let val = parse_xml_to_json(xml, "test.xml").unwrap();
    match val {
        XmlValue::Object(es) => {
            assert_eq!(es.len(), 2);
            assert_eq!(es[0].0, "name");
            match &es[0].1 {
                XmlValue::Text(t) => assert_eq!(t, "test"),
                _ => panic!("not text"),
            }
            match &es[1].1 {
                XmlValue::Text(t) => assert_eq!(classify_xml_text(t), XmlScalar::Integer(42)),
                _ => panic!("not text"),
            }
        }
        _ => panic!("not an object"),
    }
}

#[test]
fn xml_repeated_and_empty_elements() {
    let val = parse_xml_to_json("<r><i>1</i><i>2</i><e/><!-- c --></r>", "r.xml").unwrap();
    match val {
        XmlValue::Object(es) => {
            assert_eq!(es[0].0, "i");
            match &es[0].1 {
                XmlValue::Array(a) => assert_eq!(a.len(), 2),
                _ => panic!("not an array"),
            }
            assert_eq!(es[1].0, "e");
            assert!(matches!(es[1].1, XmlValue::Null));
        }
        _ => panic!("not an object"),
    }
}

#[test]
fn test_parse_error_invalid_xml() {
    let result2 = parse_xml_to_json("<root><broken", "bad2.xml");
    assert!(result2.is_err());
    if let Err(ConversionError::ParseError { file_name, detail, line }) = result2 {
        assert_eq!(file_name, "bad2.xml");
        assert_eq!(line, None);
        assert!(detail.starts_with("XML parse error: "));
    } else {
        panic!("Expected ParseError");
    }
    let result3 = parse_xml_to_json("<root><a>text</b></root>", "mismatch.xml");
    assert!(result3.is_err());
}

#[test]
fn xml_text_typing() {
    assert_eq!(classify_xml_text("true"), XmlScalar::Bool(true));
    assert_eq!(classify_xml_text("false"), XmlScalar::Bool(false));
    assert_eq!(classify_xml_text("null"), XmlScalar::Null);
    assert_eq!(classify_xml_text("-17"), XmlScalar::Integer(-17));
    assert_eq!(classify_xml_text("+5"), XmlScalar::Integer(5));
    assert_eq!(classify_xml_text("9223372036854775808"), XmlScalar::Other);
    assert_eq!(classify_xml_text("3.5"), XmlScalar::Other);
}

#[test]
fn test_json_to_xml_serialize() {
    let v = obj(vec![("name", s("test")), ("value", n("42"))]);
    let xml = serialize_to_xml(&v, "test.xml").unwrap();
    assert!(xml.contains("<name>test</name>"));
    assert!(xml.contains("<value>42</value>"));
    assert!(xml.starts_with("<?xml"));
}

#[test]
fn xml_layout_exact() {
    let v = obj(vec![
        ("a", JsonValue::Array(vec![n("1"), JsonValue::Null])),
        ("b", obj(vec![("c", s("<&>"))])),
    ]);
    assert_eq!(
        serialize_to_xml(&v, "l.xml").unwrap(),
        "<?xml version=\"1.0\" encoding=\"UTF-8\"?>\n<root>\n  <a>1</a>\n  <a/>\n  <b>\n    <c>&lt;&amp;&gt;</c>\n  </b>\n</root>\n"
    );
    assert_eq!(xml_escape("\"'"), "&quot;&apos;");
}

#[test]
fn text_size_limit() {
    assert!(check_text_size("a.json", 52428800).is_ok());
    match check_text_size("big.json", 52428801) {
        Err(ConversionError::FileSizeLimitError { file_name, size_mb, limit_mb }) => {
            assert_eq!(file_name, "big.json");
            assert_eq!(size_mb, 50);
            assert_eq!(limit_mb, 50);
        }
        other => panic!("unexpected {:?}", other),
    }
}

#[test]
fn text_formats_and_route() {
    assert_eq!(detect_text_formats("a.JSON", "b.yml").unwrap(), (FileFormat::Json, FileFormat::Yaml));
    match detect_text_formats("a.bin", "b.yml") {
        Err(ConversionError::UnsupportedConversion { from, to }) => {
            assert_eq!(from, "unknown");
            assert_eq!(to, "unknown");
        }
        other => panic!("unexpected {:?}", other),
    }
    match detect_text_formats("a.csv", "b") {
        Err(ConversionError::UnsupportedConversion { from, to }) => {
            assert_eq!(from, "Csv");
            assert_eq!(to, "unknown");
        }
        other => panic!("unexpected {:?}", other),
    }
    assert_eq!(text_route(FileFormat::Markdown, FileFormat::PlainText), TextRoute::MarkdownToPlainText);
    assert_eq!(text_route(FileFormat::PlainText, FileFormat::Markdown), TextRoute::PlainTextToMarkdown);
    assert_eq!(text_route(FileFormat::Json, FileFormat::Yaml), TextRoute::Structured);
}

#[test]
fn text_input_and_output_bytes() {
    let mut bom = vec![0xEF, 0xBB, 0xBF];
    bom.extend_from_slice("Hello, 世界！".as_bytes());
    assert_eq!(decode_text_input(&bom, "a.txt").unwrap(), "Hello, 世界！");
    assert_eq!(encode_text_output("abc", "a.txt", None).unwrap(), b"abc".to_vec());
    match encode_text_output("😀", "a.txt", Some(TextEncoding::ShiftJis)) {
        Err(ConversionError::EncodeError { file_name, detail }) => {
            assert_eq!(file_name, "a.txt");
            assert!(detail.starts_with("Shift_JIS"));
        }
        other => panic!("unexpected {:?}", other),
    }
}

#[test]
fn escaped_text_has_no_markup() {
    let escaped = xml_escape("<a href=\"x\">'it' & more</a>");
    assert!(!escaped.contains(['<', '>', '"', '\'']));
    assert_eq!(escaped, "&lt;a href=&quot;x&quot;&gt;&apos;it&apos; &amp; more&lt;/a&gt;");
}

#[test]
fn test_json_to_xml_to_json_basic() {
    let v = obj(vec![("name", s("test")), ("value", n("42"))]);
    let xml_str = serialize_to_xml(&v, "f.xml").unwrap();
    match parse_xml_to_json(&xml_str, "f.xml").unwrap() {
        XmlValue::Object(es) => {
            assert_eq!(es.len(), 2);
            match (&es[0], &es[1]) {
                ((k1, XmlValue::Text(t1)), (k2, XmlValue::Text(t2))) => {
                    assert_eq!((k1.as_str(), t1.as_str()), ("name", "test"));
                    assert_eq!(k2, "value");
                    assert_eq!(classify_xml_text(t2), XmlScalar::Integer(42));
                }
                _ => panic!("unexpected shape"),
            }
        }
        _ => panic!("not an object"),
    }
}

#[test]
fn xml_leaf_text_is_trimmed_and_whitespace_leaf_is_empty_text() {
    match parse_xml_to_json("<r><a>  hi  </a><b> </b><c></c></r>", "t.xml").unwrap() {
        XmlValue::Object(es) => {
            assert!(matches!(&es[0].1, XmlValue::Text(t) if t == "hi"));
            assert!(matches!(&es[1].1, XmlValue::Text(t) if t.is_empty()));
            assert!(matches!(&es[2].1, XmlValue::Object(inner) if inner.is_empty()));
        }
        _ => panic!("not an object"),
    }
}

#[test]
fn lone_object_writes_like_one_row_array() {
    let make = || obj(vec![("name", s("Alice")), ("age", n("30"))]);
    let lone = serialize_to_csv(&make(), "a.json", &default_options()).unwrap();
    let array = serialize_to_csv(&JsonValue::Array(vec![make()]), "a.json", &default_options()).unwrap();
    assert_eq!(lone, array);
    assert_eq!(lone, "name,age\nAlice,30\n");
}

#[test]
fn markdown_is_its_stripped_lines_joined() {
    for content in ["# A\n**b**\n", "# A\n**b**", "", "\n", "- x\r\n> y"] {
        let mut expected = content.lines().map(strip_markdown_line).collect::<Vec<_>>().join("\n");
        if content.ends_with('\n') {
            expected.push('\n');
        }
        assert_eq!(markdown_to_plaintext(content), expected);
    }
}

#[test]
fn serde_texts_are_read_as_compact_json() {
    let json = parse_serde_text("{ \"name\": \"Alice\", \"tags\": [1, true, null] }", SerdeFormat::Json, "a.json").unwrap();
    assert!(!json.contains(' '));
    let back: serde_json::Value = serde_json::from_str(&json).unwrap();
    assert_eq!(back["name"], serde_json::Value::String("Alice".to_string()));
    assert_eq!(back["tags"][2], serde_json::Value::Null);
    let yaml = parse_serde_text("name: Bob\nage: 7\n", SerdeFormat::Yaml, "b.yaml").unwrap();
    let back: serde_json::Value = serde_json::from_str(&yaml).unwrap();
    assert_eq!(back["age"], serde_json::Value::from(7));
    let toml = parse_serde_text("title = \"x\"\n[owner]\nid = 3\n", SerdeFormat::Toml, "c.toml").unwrap();
    let back: serde_json::Value = serde_json::from_str(&toml).unwrap();
    assert_eq!(back["owner"]["id"], serde_json::Value::from(3));
}

#[test]
fn serde_read_errors_carry_their_line() {
    match parse_serde_text("{\n  \"a\": \n}", SerdeFormat::Json, "bad.json") {
        Err(ConversionError::ParseError { file_name, line, .. }) => {
            assert_eq!(file_name, "bad.json");
            assert_eq!(line, Some(3));
        }
        other => panic!("unexpected {:?}", other),
    }
    match parse_serde_text("a: [1, 2\n", SerdeFormat::Yaml, "bad.yaml") {
        Err(ConversionError::ParseError { file_name, line, .. }) => {
            assert_eq!(file_name, "bad.yaml");
            assert!(line.is_some());
        }
        other => panic!("unexpected {:?}", other),
    }
}

#[test]
fn serde_texts_are_written_in_each_format() {
    assert_eq!(serialize_serde_text("{\"a\":1}", SerdeFormat::Json, "o.json").unwrap(), "{\n  \"a\": 1\n}");
    assert_eq!(serialize_serde_text("{\"a\":1}", SerdeFormat::Yaml, "o.yaml").unwrap(), "a: 1\n");
    assert_eq!(serialize_serde_text("{\"a\":1}", SerdeFormat::Toml, "o.toml").unwrap(), "a = 1\n");
    match serialize_serde_text("[1,2]", SerdeFormat::Toml, "o.toml") {
        Err(ConversionError::UnsupportedConversion { from, to }) => {
            assert_eq!(from, "JSON");
            assert_eq!(to, "TOML (トップレベルがオブジェクトではありません)");
        }
        other => panic!("unexpected {:?}", other),
    }
    assert_eq!(serde_format_of(FileFormat::Csv), None);
    assert_eq!(serde_format_of(FileFormat::Yaml), Some(SerdeFormat::Yaml));
}

#[test]
fn xml_text_that_cannot_be_unescaped_reads_as_none() {
    let bad = parse_xml_to_json("<r><a>&bogus;</a><b>x</b></r>", "r.xml").unwrap();
    let empty = parse_xml_to_json("<r><a></a><b>x</b></r>", "r.xml").unwrap();
    assert_eq!(format!("{:?}", bad), format!("{:?}", empty));
}

#[test]
fn toml_errors_name_the_line_of_their_span() {
    assert_eq!(line_of_byte_offset("ab\ncd\n", 0), 1);
    assert_eq!(line_of_byte_offset("ab\ncd\n", 4), 2);
    assert_eq!(line_of_byte_offset("ab\ncd\n", 100), 3);
    assert_eq!(line_of_byte_offset("日本\n語", 7), 2);
    match parse_serde_text("a = 1\nb = 2\nc = \n", SerdeFormat::Toml, "bad.toml") {
        Err(ConversionError::ParseError { file_name, line, .. }) => {
            assert_eq!(file_name, "bad.toml");
            assert_eq!(line, Some(3));
        }
        other => panic!("unexpected {:?}", other),
    }
}
