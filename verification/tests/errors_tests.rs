use webpexer::errors::{format_bytes, ConversionError};

#[test]
fn test_error_key_mapping() {
    let err = ConversionError::DiskSpaceError { required_bytes: 1_000_000, available_bytes: 500_000 };
    assert_eq!(err.error_key(), "errors.diskSpace");

    let err = ConversionError::PermissionError { path: "/tmp/test".to_string() };
    assert_eq!(err.error_key(), "errors.permission");

    let err = ConversionError::Cancelled;
    assert_eq!(err.error_key(), "errors.cancelled");
}

#[test]
fn test_error_params_disk_space() {
    let err = ConversionError::DiskSpaceError { required_bytes: 2_097_152, available_bytes: 1_048_576 };
    let params = err.error_params();
    assert_eq!(params.get("required").unwrap(), "2.0MB");
    assert_eq!(params.get("available").unwrap(), "1.0MB");
}

#[test]
fn test_error_params_parse_error() {
    let err = ConversionError::ParseError {
        file_name: "test.json".to_string(),
        line: Some(42),
        detail: "unexpected token".to_string(),
    };
    let params = err.error_params();
    assert_eq!(params.get("fileName").unwrap(), "test.json");
    assert_eq!(params.get("line").unwrap(), "42");
    assert_eq!(params.get("detail").unwrap(), "unexpected token");
}

#[test]
fn test_format_bytes() {
    assert_eq!(format_bytes(500), "500B");
    assert_eq!(format_bytes(1_024), "1.0KB");
    assert_eq!(format_bytes(1_048_576), "1.0MB");
    assert_eq!(format_bytes(1_073_741_824), "1.0GB");
}

/// The integer formula agrees with `{:.1}` of the float quotient, ties included.
#[test]
fn format_bytes_matches_float_formatting() {
    let mut samples: Vec<u64> = vec![
        0, 1, 1023, 1024, 1075, 1076, 1126, 1127, 1536, 1587, 1588, 10240, 1048575, 1048576,
        1101004, 1153434, 1073741823, 1073741824, 5368709120, 1099511627776, u64::MAX,
        (1u64 << 53) + 1, 9007199254740993, 123456789012345,
    ];
    for k in 0..2000u64 {
        samples.push(k * 51 + 1024);
        samples.push(k * 52429 + 1048576);
        samples.push(k.wrapping_mul(2654435761).wrapping_mul(40503) % (1u64 << 45));
    }
    for b in samples {
        let expected = if b < 1024 {
            format!("{}B", b)
        } else if b < 1024 * 1024 {
            format!("{:.1}KB", b as f64 / 1024.0)
        } else if b < 1024 * 1024 * 1024 {
            format!("{:.1}MB", b as f64 / (1024.0 * 1024.0))
        } else {
            format!("{:.1}GB", b as f64 / (1024.0 * 1024.0 * 1024.0))
        };
        assert_eq!(format_bytes(b), expected, "bytes = {}", b);
    }
}

#[test]
fn error_messages() {
    let e = ConversionError::ParseError { file_name: "a.json".into(), line: None, detail: "x".into() };
    assert_eq!(e.message(), "パースエラー: a.json 行None - x");
    let e = ConversionError::FileSizeLimitError { file_name: "b".into(), size_mb: 60, limit_mb: 50 };
    assert_eq!(e.message(), "ファイルサイズ超過: b (60MB > 50MB)");
    assert_eq!(ConversionError::Cancelled.message(), "キャンセルされました");
    let e = ConversionError::UnsupportedConversion { from: "Png".into(), to: "Json".into() };
    assert_eq!(e.message(), "非対応変換ペア: Png → Json");
    assert_eq!(e.error_key(), "errors.unsupported");
    assert_eq!(e.error_params().get("from").unwrap(), "Png");
}

#[test]
fn every_error_kind_has_key_and_message() {
    let s = |t: &str| t.to_string();
    let cases: Vec<(ConversionError, &str, &str)> = vec![
        (ConversionError::FileReadError { file_name: s("a"), detail: s("d") }, "errors.fileRead", "ファイル読み取りエラー: a - d"),
        (ConversionError::DecodeError { file_name: s("a"), detail: s("d") }, "errors.decode", "デコードエラー: a - d"),
        (ConversionError::EncodeError { file_name: s("a"), detail: s("d") }, "errors.encode", "エンコードエラー: a - d"),
        (ConversionError::ParseError { file_name: s("a"), line: Some(3), detail: s("d") }, "errors.parseError", "パースエラー: a 行Some(3) - d"),
        (ConversionError::ValidationError { detail: s("d") }, "errors.validation", "バリデーションエラー: d"),
        (ConversionError::DiskSpaceError { required_bytes: 5, available_bytes: 4 }, "errors.diskSpace", "ディスク容量不足: 必要=5, 空き=4"),
        (ConversionError::PermissionError { path: s("/p") }, "errors.permission", "権限エラー: /p"),
        (ConversionError::FileSizeLimitError { file_name: s("a"), size_mb: 2, limit_mb: 1 }, "errors.fileSize", "ファイルサイズ超過: a (2MB > 1MB)"),
        (ConversionError::UnsupportedConversion { from: s("x"), to: s("y") }, "errors.unsupported", "非対応変換ペア: x → y"),
        (ConversionError::Cancelled, "errors.cancelled", "キャンセルされました"),
        (ConversionError::FileWriteError { file_name: s("a"), detail: s("d") }, "errors.fileWrite", "ファイル書き込みエラー: a - d"),
        (ConversionError::DirectoryCreateError { path: s("/p"), detail: s("d") }, "errors.directoryCreate", "フォルダ作成失敗: /p - d"),
    ];
    for (e, key, message) in cases {
        assert_eq!(e.error_key(), key);
        assert_eq!(e.message(), message);
    }
    let p = ConversionError::FileSizeLimitError { file_name: s("a"), size_mb: 2, limit_mb: 1 }.error_params();
    assert_eq!(p.get("size").map(|v| v.as_str()), Some("2"));
    assert_eq!(ConversionError::Cancelled.error_params().len(), 0);
}
