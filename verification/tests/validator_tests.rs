use webpexer::commands::get_supported_formats;
use webpexer::models::FormatCategory;
use webpexer::errors::ConversionError;
use webpexer::models::FileFormat;
use webpexer::validator::{AncestorStep, InputFile, Validator};

#[test]
fn test_detect_format_image_formats() {
    let cases = vec![
        ("test.png", Some(FileFormat::Png)),
        ("test.jpg", Some(FileFormat::Jpeg)),
        ("test.jpeg", Some(FileFormat::Jpeg)),
        ("test.webp", Some(FileFormat::Webp)),
        ("test.gif", Some(FileFormat::Gif)),
        ("test.bmp", Some(FileFormat::Bmp)),
        ("test.tiff", Some(FileFormat::Tiff)),
        ("test.tif", Some(FileFormat::Tiff)),
        ("test.avif", Some(FileFormat::Avif)),
        ("test.ico", Some(FileFormat::Ico)),
    ];
    for (filename, expected) in cases {
        assert_eq!(Validator::detect_format(filename), expected, "Failed for: {}", filename);
    }
}

#[test]
fn test_detect_format_text_formats() {
    let cases = vec![
        ("test.json", Some(FileFormat::Json)),
        ("test.yaml", Some(FileFormat::Yaml)),
        ("test.yml", Some(FileFormat::Yaml)),
        ("test.toml", Some(FileFormat::Toml)),
        ("test.xml", Some(FileFormat::Xml)),
        ("test.csv", Some(FileFormat::Csv)),
        ("test.md", Some(FileFormat::Markdown)),
        ("test.markdown", Some(FileFormat::Markdown)),
        ("test.txt", Some(FileFormat::PlainText)),
    ];
    for (filename, expected) in cases {
        assert_eq!(Validator::detect_format(filename), expected, "Failed for: {}", filename);
    }
}

#[test]
fn test_detect_format_unsupported() {
    let cases = vec!["test.exe", "test.doc", "test.pdf", "test"];
    for filename in cases {
        assert_eq!(Validator::detect_format(filename), None, "Should be None for: {}", filename);
    }
}

#[test]
fn test_detect_format_case_insensitive() {
    let cases = vec![
        ("test.PNG", Some(FileFormat::Png)),
        ("test.JPG", Some(FileFormat::Jpeg)),
        ("test.Json", Some(FileFormat::Json)),
    ];
    for (filename, expected) in cases {
        assert_eq!(Validator::detect_format(filename), expected, "Failed for: {}", filename);
    }
}

#[test]
fn test_validate_input_files_nonexistent() {
    let files = vec![InputFile { path: "/nonexistent/file.png".to_string(), exists: false, is_file: false }];
    let result = Validator::validate_input_files(&files);
    assert_eq!(result.valid_files.len(), 0);
    assert_eq!(result.invalid_files.len(), 1);
    assert!(result.invalid_files[0].1.contains("存在しません"));
}

#[test]
fn validate_input_files_mixed() {
    let files = vec![
        InputFile { path: "/d/a.png".to_string(), exists: true, is_file: true },
        InputFile { path: "/d/b.json".to_string(), exists: true, is_file: true },
        InputFile { path: "/d/c.exe".to_string(), exists: true, is_file: true },
        InputFile { path: "/d/noext".to_string(), exists: true, is_file: true },
        InputFile { path: "/d/sub".to_string(), exists: true, is_file: false },
        InputFile { path: "/d/gone.txt".to_string(), exists: false, is_file: false },
    ];
    let result = Validator::validate_input_files(&files);
    assert_eq!(
        result.valid_files,
        vec![("/d/a.png".to_string(), FileFormat::Png), ("/d/b.json".to_string(), FileFormat::Json)]
    );
    assert_eq!(
        result.invalid_files,
        vec![
            ("/d/c.exe".to_string(), "非対応フォーマット (拡張子: exe)".to_string()),
            ("/d/noext".to_string(), "非対応フォーマット (拡張子: なし)".to_string()),
            ("/d/gone.txt".to_string(), "ファイルが存在しません: /d/gone.txt".to_string()),
        ]
    );
}

#[test]
fn disk_space_and_size_checks() {
    assert!(Validator::check_disk_space(100, 100).is_ok());
    match Validator::check_disk_space(101, 100) {
        Err(ConversionError::DiskSpaceError { required_bytes, available_bytes }) => {
            assert_eq!((required_bytes, available_bytes), (101, 100));
        }
        other => panic!("unexpected {:?}", other),
    }
    assert!(Validator::validate_file_size("a.txt", 10, 10).is_ok());
    match Validator::validate_file_size("big.txt", 3 * 1048576 + 5, 2 * 1048576) {
        Err(ConversionError::FileSizeLimitError { file_name, size_mb, limit_mb }) => {
            assert_eq!(file_name, "big.txt");
            assert_eq!((size_mb, limit_mb), (3, 2));
        }
        other => panic!("unexpected {:?}", other),
    }
}

#[test]
fn output_folder_verdicts() {
    assert!(Validator::validate_output_path("/o", None, true, true).is_ok());
    match Validator::validate_output_path("/o", Some("denied".to_string()), false, false) {
        Err(ConversionError::DirectoryCreateError { path, detail }) => {
            assert_eq!((path.as_str(), detail.as_str()), ("/o", "denied"));
        }
        other => panic!("unexpected {:?}", other),
    }
    assert!(matches!(
        Validator::validate_output_path("/f", None, false, true),
        Err(ConversionError::PermissionError { .. })
    ));
    assert!(matches!(
        Validator::validate_output_path("/r", None, true, false),
        Err(ConversionError::PermissionError { .. })
    ));
}

#[test]
fn ancestor_search_steps() {
    assert_eq!(Validator::find_existing_ancestor("/a/b", true), AncestorStep::Found("/a/b".to_string()));
    assert_eq!(Validator::find_existing_ancestor("/a/b", false), AncestorStep::Climb("/a".to_string()));
    assert_eq!(Validator::find_existing_ancestor("/", false), AncestorStep::Found("/".to_string()));
}

fn present(path: &str) -> InputFile {
    InputFile { path: path.to_string(), exists: true, is_file: true }
}

#[test]
fn test_validate_input_files_valid() {
    let result = Validator::validate_input_files(&vec![present("/t/test.png"), present("/t/data.json")]);
    assert_eq!(result.valid_files.len(), 2);
    assert_eq!(result.invalid_files.len(), 0);
    assert_eq!(result.valid_files[0].1, FileFormat::Png);
    assert_eq!(result.valid_files[1].1, FileFormat::Json);
}

#[test]
fn test_validate_input_files_unsupported_format() {
    let result = Validator::validate_input_files(&vec![present("/t/file.xyz")]);
    assert_eq!(result.valid_files.len(), 0);
    assert_eq!(result.invalid_files.len(), 1);
    assert!(result.invalid_files[0].1.contains("非対応フォーマット"));
}

#[test]
fn test_validate_input_files_mixed() {
    let missing = InputFile { path: "/missing/file.png".to_string(), exists: false, is_file: false };
    let result = Validator::validate_input_files(&vec![present("/t/image.webp"), present("/t/doc.pdf"), missing]);
    assert_eq!(result.valid_files.len(), 1);
    assert_eq!(result.invalid_files.len(), 2);
}

#[test]
fn test_validate_file_size_within_limit() {
    assert!(Validator::validate_file_size("small.txt", 5, 50 * 1024 * 1024).is_ok());
}

#[test]
fn test_validate_file_size_exceeds_limit() {
    match Validator::validate_file_size("large.txt", 2 * 1024 * 1024, 1024 * 1024) {
        Err(ConversionError::FileSizeLimitError { file_name, size_mb, limit_mb }) => {
            assert_eq!(file_name, "large.txt");
            assert_eq!(size_mb, 2);
            assert_eq!(limit_mb, 1);
        }
        other => panic!("Unexpected result: {:?}", other),
    }
}

#[test]
fn listed_extensions_are_detected() {
    for category in [FormatCategory::Image, FormatCategory::Text] {
        for info in get_supported_formats(category) {
            for e in &info.extensions {
                assert_eq!(Validator::detect_format(&format!("f.{}", e)), Some(info.format));
            }
        }
    }
}

#[test]
fn test_check_disk_space_sufficient() {
    let result = Validator::check_disk_space(1, 1_000_000);
    assert!(result.is_ok());
}

#[test]
fn test_check_disk_space_insufficient() {
    let result = Validator::check_disk_space(u64::MAX, 1 << 40);
    assert!(result.is_err());
    match result.unwrap_err() {
        ConversionError::DiskSpaceError { required_bytes, available_bytes: _ } => {
            assert_eq!(required_bytes, u64::MAX);
        }
        e => panic!("Unexpected error type: {:?}", e),
    }
}
