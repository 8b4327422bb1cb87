use webpexer::models::{ConflictResolution, FileFormat, FileNamingPattern};
use webpexer::output::{
    determine_output_dir, ensure_output_dir, filename_stem_at, format_extension, format_name, generate_filename_stem,
    generate_output_path, output_path_with_stem, renamed_path, resolve_conflict,
    start_conflict_resolution, datetime_stamp, ClockReading, ConflictCheck, OutputPathResult,
};

#[test]
fn test_format_extension() {
    assert_eq!(format_extension(&FileFormat::Png), "png");
    assert_eq!(format_extension(&FileFormat::Jpeg), "jpg");
    assert_eq!(format_extension(&FileFormat::Webp), "webp");
    assert_eq!(format_extension(&FileFormat::Gif), "gif");
    assert_eq!(format_extension(&FileFormat::Bmp), "bmp");
    assert_eq!(format_extension(&FileFormat::Tiff), "tiff");
    assert_eq!(format_extension(&FileFormat::Avif), "avif");
    assert_eq!(format_extension(&FileFormat::Ico), "ico");
    assert_eq!(format_extension(&FileFormat::Json), "json");
    assert_eq!(format_extension(&FileFormat::Yaml), "yaml");
    assert_eq!(format_extension(&FileFormat::Toml), "toml");
    assert_eq!(format_extension(&FileFormat::Xml), "xml");
    assert_eq!(format_extension(&FileFormat::Csv), "csv");
    assert_eq!(format_extension(&FileFormat::Markdown), "md");
    assert_eq!(format_extension(&FileFormat::PlainText), "txt");
}

#[test]
fn test_format_name() {
    assert_eq!(format_name(&FileFormat::Png), "png");
    assert_eq!(format_name(&FileFormat::Jpeg), "jpeg");
    assert_eq!(format_name(&FileFormat::Yaml), "yaml");
    assert_eq!(format_name(&FileFormat::Markdown), "markdown");
    assert_eq!(format_name(&FileFormat::PlainText), "plaintext");
}

#[test]
fn naming_patterns() {
    assert_eq!(filename_stem_at("photo", &FileNamingPattern::Original, 7, "x"), "photo");
    assert_eq!(filename_stem_at("photo", &FileNamingPattern::OriginalSequential, 7, "x"), "photo_007");
    assert_eq!(filename_stem_at("photo", &FileNamingPattern::OriginalSequential, 1234, ""), "photo_1234");
    assert_eq!(
        filename_stem_at("photo", &FileNamingPattern::OriginalDatetime, 7, "20240102_030405"),
        "photo_20240102_030405"
    );
    let stamped = generate_filename_stem("photo", &FileNamingPattern::OriginalDatetime, 1);
    assert_eq!(stamped.len(), "photo_".len() + 15);
    assert!(stamped.starts_with("photo_"));
    assert_eq!(stamped.as_bytes()[14], b'_');
}

#[test]
fn output_folder_defaults_to_format_subfolder() {
    assert_eq!(determine_output_dir("/in/a.png", None, &FileFormat::Jpeg), "/in/jpeg");
    assert_eq!(determine_output_dir("/in/a.png", Some("/out"), &FileFormat::Jpeg), "/out");
    assert_eq!(determine_output_dir("a.png", None, &FileFormat::PlainText), "plaintext");
}

#[test]
fn output_path_patterns() {
    assert_eq!(
        generate_output_path("/in/photo.png", None, &FileFormat::Jpeg, &FileNamingPattern::Original, &ConflictResolution::Overwrite, 1),
        ConflictCheck::Done(OutputPathResult::Write("/in/jpeg/photo.jpg".to_string()))
    );
    assert_eq!(
        generate_output_path("/in/photo.png", Some("/out"), &FileFormat::Webp, &FileNamingPattern::OriginalSequential, &ConflictResolution::Skip, 12),
        ConflictCheck::Probe { candidate: "/out/photo_012.webp".to_string(), attempt: 0 }
    );
    assert_eq!(
        output_path_with_stem("/in/x.json", Some("/o"), &FileFormat::Yaml, "x_20240101_000000", &ConflictResolution::Rename),
        ConflictCheck::Probe { candidate: "/o/x_20240101_000000.yaml".to_string(), attempt: 0 }
    );
}

/// Drives conflict resolution against a set of existing paths, as the application does.
fn resolve(base: &str, conflict: ConflictResolution, existing: &[&str]) -> OutputPathResult {
    let mut step = start_conflict_resolution(base, &conflict);
    loop {
        match step {
            ConflictCheck::Done(r) => return r,
            ConflictCheck::Probe { candidate, attempt } => {
                let exists = existing.contains(&candidate.as_str());
                step = resolve_conflict(base, &conflict, attempt, exists);
            }
        }
    }
}

#[test]
fn conflict_resolution_modes() {
    let base = "/o/a.jpg";
    assert_eq!(resolve(base, ConflictResolution::Overwrite, &[base]), OutputPathResult::Write(base.to_string()));
    assert_eq!(resolve(base, ConflictResolution::Skip, &[base]), OutputPathResult::Skip);
    assert_eq!(resolve(base, ConflictResolution::Skip, &[]), OutputPathResult::Write(base.to_string()));
    assert_eq!(resolve(base, ConflictResolution::Rename, &[]), OutputPathResult::Write(base.to_string()));
    assert_eq!(resolve(base, ConflictResolution::Rename, &[base]), OutputPathResult::Write("/o/a_2.jpg".to_string()));
    assert_eq!(
        resolve(base, ConflictResolution::Rename, &[base, "/o/a_2.jpg", "/o/a_3.jpg"]),
        OutputPathResult::Write("/o/a_4.jpg".to_string())
    );
    assert_eq!(renamed_path("/o/noext", 2), "/o/noext_2");
}

#[test]
fn output_folder_creation_outcome() {
    assert_eq!(ensure_output_dir("/o/png".to_string(), None), Ok("/o/png".to_string()));
    assert_eq!(
        ensure_output_dir("/o/png".to_string(), Some("denied".to_string())),
        Err("出力ディレクトリの作成に失敗しました: /o/png - denied".to_string())
    );
}

/// The whole choice of an output path, with the files in `existing` taken to exist.
fn output_path(
    source: &str,
    output_dir: Option<&str>,
    format: FileFormat,
    naming: FileNamingPattern,
    conflict: ConflictResolution,
    sequence_num: u32,
    existing: &[&str],
) -> OutputPathResult {
    let mut step = generate_output_path(source, output_dir, &format, &naming, &conflict, sequence_num);
    let mut base: Option<String> = None;
    loop {
        match step {
            ConflictCheck::Done(r) => return r,
            ConflictCheck::Probe { candidate, attempt } => {
                let b = base.get_or_insert_with(|| candidate.clone()).clone();
                let exists = existing.contains(&candidate.as_str());
                step = resolve_conflict(&b, &conflict, attempt, exists);
            }
        }
    }
}

fn write(p: &str) -> OutputPathResult {
    OutputPathResult::Write(p.to_string())
}

#[test]
fn test_generate_output_path_original_naming_no_output_dir() {
    let r = output_path("/t/photo.png", None, FileFormat::Jpeg, FileNamingPattern::Original, ConflictResolution::Overwrite, 1, &[]);
    assert_eq!(r, write("/t/jpeg/photo.jpg"));
}

#[test]
fn test_generate_output_path_with_output_dir() {
    let r = output_path("/t/image.webp", Some("/t/output"), FileFormat::Png, FileNamingPattern::Original, ConflictResolution::Overwrite, 1, &[]);
    assert_eq!(r, write("/t/output/image.png"));
}

#[test]
fn test_generate_output_path_sequential_naming() {
    let r = output_path("/t/doc.json", None, FileFormat::Yaml, FileNamingPattern::OriginalSequential, ConflictResolution::Overwrite, 1, &[]);
    assert_eq!(r, write("/t/yaml/doc_001.yaml"));
}

#[test]
fn test_generate_output_path_sequential_naming_multi_digit() {
    let r = output_path("/t/file.txt", None, FileFormat::Markdown, FileNamingPattern::OriginalSequential, ConflictResolution::Overwrite, 42, &[]);
    assert_eq!(r, write("/t/markdown/file_042.md"));
}

#[test]
fn test_generate_output_path_datetime_naming() {
    match output_path("/t/data.csv", None, FileFormat::Json, FileNamingPattern::OriginalDatetime, ConflictResolution::Overwrite, 1, &[]) {
        OutputPathResult::Write(path) => {
            let filename = path.rsplit('/').next().unwrap();
            assert!(filename.starts_with("data_"));
            assert!(filename.ends_with(".json"));
            let stem = filename.trim_end_matches(".json");
            let parts: Vec<&str> = stem.splitn(2, '_').collect();
            assert_eq!(parts[0], "data");
            assert_eq!(parts[1].len(), 15);
        }
        OutputPathResult::Skip => panic!("Expected Write, got Skip"),
    }
}

#[test]
fn test_conflict_resolution_overwrite() {
    let r = output_path("/t/file.png", None, FileFormat::Jpeg, FileNamingPattern::Original, ConflictResolution::Overwrite, 1, &["/t/jpeg/file.jpg"]);
    assert_eq!(r, write("/t/jpeg/file.jpg"));
}

#[test]
fn test_conflict_resolution_skip() {
    let r = output_path("/t/file.png", None, FileFormat::Jpeg, FileNamingPattern::Original, ConflictResolution::Skip, 1, &["/t/jpeg/file.jpg"]);
    assert_eq!(r, OutputPathResult::Skip);
}

#[test]
fn test_conflict_resolution_skip_no_existing_file() {
    let r = output_path("/t/file.png", None, FileFormat::Jpeg, FileNamingPattern::Original, ConflictResolution::Skip, 1, &[]);
    assert_eq!(r, write("/t/jpeg/file.jpg"));
}

#[test]
fn test_conflict_resolution_rename() {
    let r = output_path("/t/file.png", None, FileFormat::Jpeg, FileNamingPattern::Original, ConflictResolution::Rename, 1, &["/t/jpeg/file.jpg"]);
    assert_eq!(r, write("/t/jpeg/file_2.jpg"));
}

#[test]
fn test_conflict_resolution_rename_multiple() {
    let existing = ["/t/jpeg/file.jpg", "/t/jpeg/file_2.jpg", "/t/jpeg/file_3.jpg"];
    let r = output_path("/t/file.png", None, FileFormat::Jpeg, FileNamingPattern::Original, ConflictResolution::Rename, 1, &existing);
    assert_eq!(r, write("/t/jpeg/file_4.jpg"));
}

#[test]
fn test_conflict_resolution_rename_no_existing() {
    let r = output_path("/t/file.png", None, FileFormat::Jpeg, FileNamingPattern::Original, ConflictResolution::Rename, 1, &[]);
    assert_eq!(r, write("/t/jpeg/file.jpg"));
}

#[test]
fn clock_readings_are_stamped_like_chrono() {
    let at = |year: i32, second: u32, nanosecond: u32| ClockReading {
        year, month: 1, day: 2, hour: 3, minute: 4, second, nanosecond,
    };
    assert_eq!(datetime_stamp(&at(2024, 5, 0)), "20240102_030405");
    assert_eq!(datetime_stamp(&at(987, 5, 999_999_999)), "09870102_030405");
    assert_eq!(datetime_stamp(&at(2016, 59, 1_500_000_000)), "20160102_030460");
    assert_eq!(datetime_stamp(&at(-1, 0, 0)), "-00010102_030400");
    assert_eq!(datetime_stamp(&at(12345, 0, 0)), "+123450102_030400");
    let stamped = generate_filename_stem("photo", &FileNamingPattern::OriginalDatetime, 1);
    let stamp = &stamped["photo_".len()..];
    assert!(stamp.chars().enumerate().all(|(i, c)| if i == 8 { c == '_' } else { c.is_ascii_digit() }));
}
