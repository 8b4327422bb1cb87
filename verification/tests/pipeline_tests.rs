use webpexer::converter::text_pipeline::{
    convert_text_content, parse_to_json_value, serialize_from_json_value,
};
use webpexer::errors::ConversionError;
use webpexer::json::JsonValue;
use webpexer::json_text::{json_text_of, json_value_of_text};
use webpexer::models::{
    ConflictResolution, ConversionOptions, CsvDelimiter, FileFormat, FileNamingPattern,
    TextEncoding,
};

fn default_options() -> ConversionOptions {
    ConversionOptions {
        quality: 80,
        resize: None,
        encoding: None,
        csv_delimiter: None,
        file_naming: FileNamingPattern::Original,
        conflict_resolution: ConflictResolution::Overwrite,
        delete_source: false,
    }
}

fn value(json: &str) -> serde_json::Value {
    serde_json::from_str(json).unwrap()
}

#[test]
fn test_parse_json_to_value() {
    let json = r#"{"name": "test", "value": 42}"#;
    let opts = default_options();
    let val = value(&parse_to_json_value(json, &FileFormat::Json, "test.json", &opts).unwrap());
    assert_eq!(val["name"], "test");
    assert_eq!(val["value"], 42);
}

#[test]
fn test_parse_yaml_to_value() {
    let yaml = "name: test\nvalue: 42\n";
    let opts = default_options();
    let val = value(&parse_to_json_value(yaml, &FileFormat::Yaml, "test.yaml", &opts).unwrap());
    assert_eq!(val["name"], "test");
    assert_eq!(val["value"], 42);
}

#[test]
fn test_parse_toml_to_value() {
    let toml_str = "name = \"test\"\nvalue = 42\n";
    let opts = default_options();
    let val = value(&parse_to_json_value(toml_str, &FileFormat::Toml, "test.toml", &opts).unwrap());
    assert_eq!(val["name"], "test");
    assert_eq!(val["value"], 42);
}

#[test]
fn test_json_to_yaml_roundtrip() {
    let json = r#"{"name": "test", "values": [1, 2, 3], "nested": {"a": true}}"#;
    let opts = default_options();
    let val = parse_to_json_value(json, &FileFormat::Json, "f.json", &opts).unwrap();
    let yaml_str = serialize_from_json_value(&val, &FileFormat::Yaml, "f.yaml", &opts).unwrap();
    let val2 = parse_to_json_value(&yaml_str, &FileFormat::Yaml, "f.yaml", &opts).unwrap();
    assert_eq!(val, val2);
}

#[test]
fn test_json_to_toml_roundtrip() {
    let json = r#"{"name": "test", "value": 42, "flag": true}"#;
    let opts = default_options();
    let val = parse_to_json_value(json, &FileFormat::Json, "f.json", &opts).unwrap();
    let toml_str = serialize_from_json_value(&val, &FileFormat::Toml, "f.toml", &opts).unwrap();
    let val2 = parse_to_json_value(&toml_str, &FileFormat::Toml, "f.toml", &opts).unwrap();
    assert_eq!(val, val2);
}

#[test]
fn test_parse_error_invalid_json() {
    let invalid_json = "{invalid}";
    let opts = default_options();
    let result = parse_to_json_value(invalid_json, &FileFormat::Json, "bad.json", &opts);
    assert!(result.is_err());
    if let Err(ConversionError::ParseError { file_name, line, detail }) = result {
        assert_eq!(file_name, "bad.json");
        assert!(line.is_some());
        assert_eq!(line.unwrap(), 1);
        assert!(!detail.is_empty());
    } else {
        panic!("Expected ParseError, got {:?}", result);
    }
}

#[test]
fn test_parse_error_invalid_json_multiline() {
    let invalid_json = "{\n  \"name\": \"test\",\n  \"value\": \n}";
    let opts = default_options();
    let result = parse_to_json_value(invalid_json, &FileFormat::Json, "multi.json", &opts);
    assert!(result.is_err());
    if let Err(ConversionError::ParseError { file_name, line, .. }) = result {
        assert_eq!(file_name, "multi.json");
        assert!(line.is_some());
        assert!(line.unwrap() >= 3);
    } else {
        panic!("Expected ParseError");
    }
}

#[test]
fn test_parse_error_invalid_yaml() {
    let invalid_yaml = "key: [unclosed";
    let opts = default_options();
    let result = parse_to_json_value(invalid_yaml, &FileFormat::Yaml, "bad.yaml", &opts);
    assert!(result.is_err());
    if let Err(ConversionError::ParseError { file_name, detail, .. }) = result {
        assert_eq!(file_name, "bad.yaml");
        assert!(!detail.is_empty());
    } else {
        panic!("Expected ParseError, got {:?}", result);
    }
}

#[test]
fn test_parse_error_invalid_toml() {
    let invalid_toml = "= no_key";
    let opts = default_options();
    let result = parse_to_json_value(invalid_toml, &FileFormat::Toml, "bad.toml", &opts);
    assert!(result.is_err());
    if let Err(ConversionError::ParseError { file_name, detail, .. }) = result {
        assert_eq!(file_name, "bad.toml");
        assert!(!detail.is_empty());
    } else {
        panic!("Expected ParseError, got {:?}", result);
    }
}

#[test]
fn test_json_yaml_roundtrip_with_nested_arrays() {
    let json = r#"{"data": [{"id": 1, "tags": ["a", "b"]}, {"id": 2, "tags": ["c"]}]}"#;
    let opts = default_options();
    let val = parse_to_json_value(json, &FileFormat::Json, "f.json", &opts).unwrap();
    let yaml_str = serialize_from_json_value(&val, &FileFormat::Yaml, "f.yaml", &opts).unwrap();
    let val2 = parse_to_json_value(&yaml_str, &FileFormat::Yaml, "f.yaml", &opts).unwrap();
    assert_eq!(val, val2);
}

#[test]
fn test_json_yaml_roundtrip_preserves_types() {
    let json = r#"{"str": "hello", "num": 42, "float": 3.14, "bool": true, "null_val": null}"#;
    let opts = default_options();
    let val = value(&parse_to_json_value(json, &FileFormat::Json, "f.json", &opts).unwrap());
    let text = val.to_string();
    let yaml_str = serialize_from_json_value(&text, &FileFormat::Yaml, "f.yaml", &opts).unwrap();
    let val2 = value(&parse_to_json_value(&yaml_str, &FileFormat::Yaml, "f.yaml", &opts).unwrap());
    assert_eq!(val["str"], val2["str"]);
    assert_eq!(val["num"], val2["num"]);
    assert_eq!(val["bool"], val2["bool"]);
    assert_eq!(val["null_val"], val2["null_val"]);
    assert_eq!(val2["float"], serde_json::Value::from(3.14));
}

#[test]
fn csv_and_xml_inputs_read_as_sorted_json() {
    let opts = default_options();
    let csv = parse_to_json_value("name,age\nAlice,30\nBob,25\n", &FileFormat::Csv, "t.csv", &opts).unwrap();
    assert_eq!(csv, r#"[{"age":"30","name":"Alice"},{"age":"25","name":"Bob"}]"#);
    let mut tab = default_options();
    tab.csv_delimiter = Some(CsvDelimiter::Tab);
    let tsv = parse_to_json_value("name\tage\nAlice\t30\n", &FileFormat::Csv, "t.csv", &tab).unwrap();
    assert_eq!(tsv, r#"[{"age":"30","name":"Alice"}]"#);
    let xml = "<root><b>1.50</b><a>true</a><c>hello</c><d>-7</d><e>.5</e><f>1e400</f><g>+2.</g></root>";
    let json = parse_to_json_value(xml, &FileFormat::Xml, "t.xml", &opts).unwrap();
    assert_eq!(json, r#"{"a":true,"b":1.5,"c":"hello","d":-7,"e":0.5,"f":"1e400","g":2.0}"#);
}

#[test]
fn json_is_written_to_xml_and_csv() {
    let opts = default_options();
    let xml = serialize_from_json_value(r#"{"name":"test","value":42}"#, &FileFormat::Xml, "f.xml", &opts).unwrap();
    assert_eq!(
        xml,
        "<?xml version=\"1.0\" encoding=\"UTF-8\"?>\n<root>\n  <name>test</name>\n  <value>42</value>\n</root>\n"
    );
    let csv = serialize_from_json_value(r#"[{"a":"x","b":1},{"a":"y","b":2}]"#, &FileFormat::Csv, "f.csv", &opts).unwrap();
    assert_eq!(csv, "a,b\nx,1\ny,2\n");
    match serialize_from_json_value("[1,2]", &FileFormat::Markdown, "f.md", &opts) {
        Err(ConversionError::UnsupportedConversion { from, to }) => {
            assert_eq!(from, "JSON");
            assert_eq!(to, "Markdown");
        }
        other => panic!("unexpected {:?}", other),
    }
}

#[test]
fn text_files_convert_end_to_end() {
    let opts = default_options();
    let out = convert_text_content(br#"{"name": "x", "n": [1, 2]}"#, "/d/a.json", "/d/a.yaml", "a.json", &opts).unwrap();
    assert_eq!(String::from_utf8(out).unwrap(), "n:\n- 1\n- 2\nname: x\n");
    let out = convert_text_content(b"# Title\n**bold**\n", "/d/a.md", "/d/a.txt", "a.md", &opts).unwrap();
    assert_eq!(String::from_utf8(out).unwrap(), "Title\nbold\n");
    let out = convert_text_content(b"k,v\n1,2\n", "/d/a.csv", "/d/a.json", "a.csv", &opts).unwrap();
    assert_eq!(value(&String::from_utf8(out).unwrap()), value(r#"[{"k":"1","v":"2"}]"#));
    let mut sjis = default_options();
    sjis.encoding = Some(TextEncoding::ShiftJis);
    let out = convert_text_content("メモ".as_bytes(), "/d/a.txt", "/d/a.md", "a.txt", &sjis).unwrap();
    assert_eq!(out, encoding_rs::SHIFT_JIS.encode("メモ").0.to_vec());
}

#[test]
fn text_conversion_errors_name_their_step() {
    let opts = default_options();
    match convert_text_content(b"{}", "/d/a.png", "/d/a.json", "a.png", &opts) {
        Err(ConversionError::UnsupportedConversion { from, to }) => {
            assert_eq!((from.as_str(), to.as_str()), ("unknown", "unknown"));
        }
        other => panic!("unexpected {:?}", other),
    }
    match convert_text_content(b"{}", "/d/a.json", "/d/a.bin", "a.json", &opts) {
        Err(ConversionError::UnsupportedConversion { from, to }) => {
            assert_eq!((from.as_str(), to.as_str()), ("Json", "unknown"));
        }
        other => panic!("unexpected {:?}", other),
    }
    match convert_text_content(b"{bad", "/d/a.json", "/d/a.yaml", "a.json", &opts) {
        Err(ConversionError::ParseError { file_name, line, .. }) => {
            assert_eq!(file_name, "a.json");
            assert_eq!(line, Some(1));
        }
        other => panic!("unexpected {:?}", other),
    }
    match convert_text_content(b"[1,2]", "/d/a.json", "/d/a.toml", "a.json", &opts) {
        Err(ConversionError::UnsupportedConversion { to, .. }) => {
            assert_eq!(to, "TOML (トップレベルがオブジェクトではありません)");
        }
        other => panic!("unexpected {:?}", other),
    }
    let big = vec![b'a'; 52428801];
    match convert_text_content(&big, "/d/a.txt", "/d/a.md", "a.txt", &opts) {
        Err(ConversionError::FileSizeLimitError { file_name, size_mb, limit_mb }) => {
            assert_eq!((file_name.as_str(), size_mb, limit_mb), ("a.txt", 50, 50));
        }
        other => panic!("unexpected {:?}", other),
    }
}

#[test]
fn json_text_round_trips_through_values() {
    let v = JsonValue::Object(vec![
        ("q\"uote\n".to_string(), JsonValue::Array(vec![JsonValue::Null, JsonValue::Bool(false)])),
        ("n".to_string(), JsonValue::Number("-1.5e3".to_string())),
        ("s".to_string(), JsonValue::String("tab\there \\ \u{1} é".to_string())),
    ]);
    let text = json_text_of(&v);
    assert_eq!(text, "{\"q\\\"uote\\u000a\":[null,false],\"n\":-1.5e3,\"s\":\"tab\\u0009here \\\\ \\u0001 é\"}");
    let back = json_value_of_text(&text).unwrap();
    assert_eq!(json_text_of(&back), text);
    let from_serde = json_value_of_text(&value(&text).to_string()).unwrap();
    match from_serde {
        JsonValue::Object(es) => {
            let keys: Vec<&str> = es.iter().map(|(k, _)| k.as_str()).collect();
            assert_eq!(keys, vec!["n", "q\"uote\n", "s"]);
        }
        other => panic!("unexpected {:?}", other),
    }
    assert!(json_value_of_text("[1,]").is_none());
    assert!(json_value_of_text("{\"a\":1} x").is_none());
    assert_eq!(json_text_of(&json_value_of_text("\"\\ud7ff\\u00e9\\/\"").unwrap()), "\"\u{d7ff}é/\"");
}

#[test]
fn deeply_nested_xml_is_written_out() {
    let depth = 200;
    let xml = format!("{}1{}", "<a>".repeat(depth), "</a>".repeat(depth));
    let opts = default_options();
    let out = convert_text_content(xml.as_bytes(), "/d/a.xml", "/d/a.json", "a.xml", &opts).unwrap();
    let compact: String = String::from_utf8(out).unwrap().chars().filter(|c| !c.is_whitespace()).collect();
    assert_eq!(compact, format!("{}1{}", "{\"a\":".repeat(depth - 1), "}".repeat(depth - 1)));
    let out = convert_text_content(xml.as_bytes(), "/d/a.xml", "/d/a.yaml", "a.xml", &opts).unwrap();
    assert!(String::from_utf8(out).unwrap().starts_with("a:\n  a:\n"));
}

#[test]
fn deeply_nested_json_input_keeps_the_reader_limit() {
    let depth = 200;
    let json = format!("{}1{}", "[".repeat(depth), "]".repeat(depth));
    match convert_text_content(json.as_bytes(), "/d/a.json", "/d/a.yaml", "a.json", &default_options()) {
        Err(ConversionError::ParseError { file_name, .. }) => assert_eq!(file_name, "a.json"),
        other => panic!("unexpected {:?}", other),
    }
}
