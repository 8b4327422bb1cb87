use webpexer::commands::{
    deletes_source, disk_space_check, get_supported_formats, large_file_threshold,
    path_validation_of, removes_partial_output, result_output_dir, source_folder, BatchState,
    file_step, preflight_first, preflight_step, BatchStep, FileEvent, FileOutcome, FileStep,
    PreflightEvent, PreflightStep,
};
use webpexer::output::OutputPathResult;
use webpexer::converter::{converter_for_pair, ConversionEngine, ConverterKind};
use webpexer::encoding::{decoded_outcome, detect_and_decode, encode_string, strip_bom};
use webpexer::errors::ConversionError;
use webpexer::history::{HistoryEntry, HistoryStatus, HistoryStore, UtcTime};
use webpexer::models::{
    ConflictResolution, ConversionOptions, FileFormat, FileNamingPattern, FormatCategory,
    ProgressStatus, TextEncoding,
};
use webpexer::settings::{AppSettings, ThemeMode};

fn options(delete_source: bool) -> ConversionOptions {
    ConversionOptions {
        quality: 80,
        resize: None,
        encoding: None,
        csv_delimiter: None,
        file_naming: FileNamingPattern::Original,
        conflict_resolution: ConflictResolution::Overwrite,
        delete_source,
    }
}

fn make_entry(id: &str) -> HistoryEntry {
    HistoryEntry {
        id: id.to_string(),
        source_folder: "/tmp/test".to_string(),
        output_format: FileFormat::Png,
        cleanup_enabled: false,
        executed_at: UtcTime { secs: 1_704_067_200, nanos: 0 },
        status: HistoryStatus::Success,
        file_count: 5,
    }
}

#[test]
fn test_detect_and_decode_utf8() {
    let content = "Hello, 世界！";
    assert_eq!(detect_and_decode(content.as_bytes()).unwrap(), content);
}

#[test]
fn test_detect_and_decode_utf8_with_bom() {
    let content = "Hello, 世界！";
    let mut bytes = vec![0xEF, 0xBB, 0xBF];
    bytes.extend_from_slice(content.as_bytes());
    assert_eq!(detect_and_decode(&bytes).unwrap(), content);
}

#[test]
fn test_detect_and_decode_shift_jis() {
    let (encoded, _, _) = encoding_rs::SHIFT_JIS.encode("こんにちは");
    assert_eq!(detect_and_decode(&encoded).unwrap(), "こんにちは");
}

#[test]
fn test_detect_and_decode_euc_jp() {
    let (encoded, _, _) = encoding_rs::EUC_JP.encode("こんにちは");
    assert_eq!(detect_and_decode(&encoded).unwrap(), "こんにちは");
}

#[test]
fn test_encode_string_utf8() {
    let content = "Hello, 世界！";
    assert_eq!(encode_string(content, &TextEncoding::Utf8).unwrap(), content.as_bytes());
}

#[test]
fn test_encode_string_shift_jis() {
    let content = "こんにちは";
    let result = encode_string(content, &TextEncoding::ShiftJis).unwrap();
    let (decoded, _, _) = encoding_rs::SHIFT_JIS.decode(&result);
    assert_eq!(decoded, content);
}

#[test]
fn test_encode_string_euc_jp() {
    let content = "こんにちは";
    let result = encode_string(content, &TextEncoding::EucJp).unwrap();
    let (decoded, _, _) = encoding_rs::EUC_JP.decode(&result);
    assert_eq!(decoded, content);
}

#[test]
fn test_encode_string_roundtrip_shift_jis() {
    let content = "日本語テスト文字列";
    let encoded = encode_string(content, &TextEncoding::ShiftJis).unwrap();
    assert_eq!(detect_and_decode(&encoded).unwrap(), content);
}

#[test]
fn test_encode_string_roundtrip_euc_jp() {
    let content = "日本語テスト文字列";
    let encoded = encode_string(content, &TextEncoding::EucJp).unwrap();
    assert_eq!(detect_and_decode(&encoded).unwrap(), content);
}

#[test]
fn test_detect_and_decode_empty() {
    assert_eq!(detect_and_decode(&[]).unwrap(), "");
}

#[test]
fn test_encode_string_ascii_all_encodings() {
    let content = "Hello World 123";
    let utf8 = encode_string(content, &TextEncoding::Utf8).unwrap();
    let sjis = encode_string(content, &TextEncoding::ShiftJis).unwrap();
    let euc = encode_string(content, &TextEncoding::EucJp).unwrap();
    assert_eq!(utf8, sjis);
    assert_eq!(utf8, euc);
}

#[test]
fn encoding_errors_and_bom() {
    assert_eq!(strip_bom(&[0xEF, 0xBB, 0xBF, 0x41]), &[0x41]);
    assert_eq!(strip_bom(&[0xEF, 0xBB]), &[0xEF, 0xBB]);
    match encode_string("😀", &TextEncoding::EucJp) {
        Err(ConversionError::EncodeError { file_name, detail }) => {
            assert_eq!(file_name, "");
            assert_eq!(detail, "EUC-JP へのエンコード中にエラーが発生しました（変換不能な文字が含まれています）");
        }
        other => panic!("unexpected {:?}", other),
    }
    match decoded_outcome("x".to_string(), true, "Shift_JIS") {
        Err(ConversionError::DecodeError { file_name, detail }) => {
            assert_eq!(file_name, "");
            assert_eq!(detail, "エンコーディング 'Shift_JIS' でのデコード中にエラーが発生しました");
        }
        other => panic!("unexpected {:?}", other),
    }
    assert_eq!(decoded_outcome("x".to_string(), false, "UTF-8").unwrap(), "x");
}

#[test]
fn test_add_entry_fifo_max_50() {
    let mut store = HistoryStore::new();
    assert_eq!(store.max_entries, 50);
    for i in 0..55 {
        store.add_entry(make_entry(&format!("entry-{}", i)));
    }
    assert_eq!(store.entries.len(), 50);
    assert_eq!(store.entries[0].id, "entry-54");
    assert_eq!(store.entries[49].id, "entry-5");
}

#[test]
fn test_clear() {
    let mut store = HistoryStore::new();
    store.add_entry(make_entry("a"));
    store.add_entry(make_entry("b"));
    assert_eq!(store.entries.len(), 2);
    store.clear();
    assert_eq!(store.entries.len(), 0);
}

#[test]
fn history_loaded_and_listed() {
    let loaded: Vec<HistoryEntry> = (0..60).map(|i| make_entry(&format!("e{}", i))).collect();
    let store = HistoryStore::with_loaded_entries("/d/history.json".to_string(), loaded);
    assert_eq!(store.get_entries().len(), 50);
    assert_eq!(store.get_all()[0].id, "e0");
    assert_eq!(store.storage_path().unwrap(), "/d/history.json");
    assert!(HistoryStore::new().storage_path().is_none());
}

#[test]
fn test_engine_finds_image_converter() {
    let engine = ConversionEngine::new();
    assert!(engine.can_convert(&FileFormat::Png, &FileFormat::Jpeg));
    assert!(engine.can_convert(&FileFormat::Webp, &FileFormat::Bmp));
    assert_eq!(engine.find_converter(&FileFormat::Png, &FileFormat::Jpeg), Some(ConverterKind::Image));
}

#[test]
fn test_engine_finds_text_converter() {
    let engine = ConversionEngine::new();
    assert!(engine.can_convert(&FileFormat::Json, &FileFormat::Yaml));
    assert!(engine.can_convert(&FileFormat::Csv, &FileFormat::Json));
    assert_eq!(engine.find_converter(&FileFormat::Json, &FileFormat::Yaml), Some(ConverterKind::Text));
}

#[test]
fn test_engine_rejects_unsupported_pair() {
    let engine = ConversionEngine::new();
    assert!(!engine.can_convert(&FileFormat::Png, &FileFormat::Json));
    assert!(!engine.can_convert(&FileFormat::Png, &FileFormat::Png));
    assert!(!engine.can_convert(&FileFormat::Csv, &FileFormat::Xml));
}

#[test]
fn test_engine_cancel_token() {
    let mut engine = ConversionEngine::new();
    assert!(!engine.is_cancelled());
    engine.cancel();
    assert!(engine.is_cancelled());
    engine.reset_cancel();
    assert!(!engine.is_cancelled());
}

#[test]
fn test_cancel_token_clone_shares_state() {
    let engine = ConversionEngine::new();
    let token = engine.cancel_token();
    assert!(!token.is_cancelled());
    engine.cancel();
    assert!(token.is_cancelled());
}

#[test]
fn batch_counts_and_reports() {
    let invalid = vec![
        ("/in/bad.exe".to_string(), "非対応フォーマット (拡張子: exe)".to_string()),
        ("/".to_string(), "ファイルが存在しません: /".to_string()),
    ];
    let mut batch = BatchState::start(&invalid, 4);
    assert_eq!(batch.failed_count, 2);
    assert_eq!(batch.failed_files[0].file_name, "bad.exe");
    assert_eq!(batch.failed_files[1].file_name, "/");

    let e = batch.processing_event("a.json".to_string());
    assert_eq!((e.processed_count, e.total_count, e.status), (0, 4, ProgressStatus::Processing));
    let e = batch.finish_file("a.json".to_string(), FileOutcome::Converted);
    assert_eq!((e.processed_count, e.status), (1, ProgressStatus::Completed));
    assert!(e.error.is_none());

    let e = batch.finish_file("b.png".to_string(), FileOutcome::Unsupported { from: FileFormat::Png, to: FileFormat::Yaml });
    assert_eq!((e.processed_count, e.status), (2, ProgressStatus::Failed));
    assert_eq!(e.error.unwrap(), "非対応変換ペア: Png → Yaml");

    let e = batch.finish_file("c.json".to_string(), FileOutcome::Skipped);
    assert_eq!((e.processed_count, e.status), (3, ProgressStatus::Completed));

    let e = batch.cancel("d.json".to_string());
    assert_eq!((e.processed_count, e.status), (4, ProgressStatus::Cancelled));
    assert!(batch.cancelled);

    assert_eq!(batch.file_count(), 5);
    assert_eq!(batch.history_status(), HistoryStatus::Success);
    let result = batch.into_result(".".to_string());
    assert_eq!((result.success_count, result.failed_count, result.skipped_count), (1, 3, 1));
    assert_eq!(result.failed_files[2].file_name, "b.png");
    assert_eq!(result.failed_files[2].error, "非対応変換ペア: Png → Yaml");
}

#[test]
fn batch_of_failures_is_failed_run() {
    let mut batch = BatchState::start(&vec![], 2);
    batch.finish_file("a".to_string(), FileOutcome::ConversionFailed("boom".to_string()));
    let e = batch.finish_file("b".to_string(), FileOutcome::DirectoryFailed("no dir".to_string()));
    assert_eq!(e.error.unwrap(), "no dir");
    assert_eq!(batch.history_status(), HistoryStatus::Failed);
    let empty = BatchState::start(&vec![], 0);
    assert_eq!(empty.history_status(), HistoryStatus::Success);
}

#[test]
fn deletion_and_cleanup_rules() {
    assert!(deletes_source(&options(true), &FileOutcome::Converted));
    assert!(!deletes_source(&options(false), &FileOutcome::Converted));
    assert!(!deletes_source(&options(true), &FileOutcome::ConversionFailed("x".into())));
    assert!(!deletes_source(&options(true), &FileOutcome::Skipped));
    assert!(removes_partial_output(&FileOutcome::ConversionFailed("x".into())));
    assert!(!removes_partial_output(&FileOutcome::DirectoryFailed("x".into())));
    assert!(!removes_partial_output(&FileOutcome::Converted));
}

#[test]
fn command_answers() {
    assert_eq!(result_output_dir(&None), ".");
    assert_eq!(result_output_dir(&Some("/o".to_string())), "/o");
    assert_eq!(source_folder(&vec!["/in/a.png".to_string()]), "/in");
    assert_eq!(source_folder(&vec![]), "");
    let d = disk_space_check(10, 9);
    assert!(!d.has_enough_space);
    assert!(disk_space_check(9, 9).has_enough_space);
    assert_eq!(large_file_threshold(None), 104857600);
    assert_eq!(large_file_threshold(Some(2)), 2097152);
    let ok = path_validation_of(Ok(()));
    assert!(ok.is_valid && ok.is_writable && ok.error.is_none());
    let perm = path_validation_of(Err(ConversionError::PermissionError { path: "/x".into() }));
    assert!(!perm.is_valid && !perm.is_writable);
    assert_eq!(perm.error.unwrap(), "権限エラー: /x");
    let dir = path_validation_of(Err(ConversionError::DirectoryCreateError { path: "/y".into(), detail: "d".into() }));
    assert!(dir.is_valid && !dir.is_writable);
}

#[test]
fn supported_format_lists() {
    let images = get_supported_formats(FormatCategory::Image);
    assert_eq!(images.len(), 8);
    assert_eq!(images[1].name, "JPEG");
    assert_eq!(images[1].extensions, vec!["jpg".to_string(), "jpeg".to_string()]);
    let texts = get_supported_formats(FormatCategory::Text);
    assert_eq!(texts.len(), 7);
    assert_eq!(texts[6].name, "Plain Text");
    assert_eq!(texts[6].extensions, vec!["txt".to_string()]);
    assert!(texts.iter().all(|f| f.category == FormatCategory::Text));
}

#[test]
fn default_settings() {
    let s = AppSettings::default();
    assert_eq!(s.language, "en");
    assert_eq!(s.theme, ThemeMode::System);
    assert_eq!(s.default_quality, 80);
    assert_eq!(s.default_output_format, FileFormat::Png);
    assert_eq!(s.file_naming, FileNamingPattern::Original);
    assert_eq!(s.conflict_resolution, ConflictResolution::Overwrite);
    assert!(!s.delete_source);
}

#[test]
fn progress_never_counts_down() {
    let mut batch = BatchState::start(&vec![], 3);
    let mut counts = Vec::new();
    for name in ["a", "b", "c"] {
        counts.push(batch.processing_event(name.to_string()).processed_count);
        counts.push(batch.finish_file(name.to_string(), FileOutcome::Converted).processed_count);
    }
    assert_eq!(counts, vec![0, 1, 1, 2, 2, 3]);
    assert!(counts.windows(2).all(|w| w[0] <= w[1]));
}

#[test]
fn test_engine_converter_selection() {
    let engine = ConversionEngine::new();
    assert!(engine.can_convert(&FileFormat::Png, &FileFormat::Jpeg));
    assert!(engine.can_convert(&FileFormat::Webp, &FileFormat::Bmp));
    assert!(engine.can_convert(&FileFormat::Gif, &FileFormat::Tiff));
    assert!(engine.can_convert(&FileFormat::Json, &FileFormat::Yaml));
    assert!(engine.can_convert(&FileFormat::Csv, &FileFormat::Json));
    assert!(engine.can_convert(&FileFormat::Toml, &FileFormat::Xml));
    assert!(!engine.can_convert(&FileFormat::Png, &FileFormat::Json));
    assert!(!engine.can_convert(&FileFormat::Json, &FileFormat::Png));
    assert!(!engine.can_convert(&FileFormat::Png, &FileFormat::Png));
    assert!(!engine.can_convert(&FileFormat::Json, &FileFormat::Json));
}

#[test]
fn converter_choice_and_sequence_numbers() {
    assert_eq!(converter_for_pair(&FileFormat::Png, &FileFormat::Ico), ConverterKind::Image);
    assert_eq!(converter_for_pair(&FileFormat::Png, &FileFormat::Json), ConverterKind::Text);
    assert_eq!(converter_for_pair(&FileFormat::Csv, &FileFormat::Json), ConverterKind::Text);
    let mut batch = BatchState::start(&vec![], 2);
    assert_eq!(batch.sequence_number(), 1);
    batch.finish_file("a".to_string(), FileOutcome::Skipped);
    assert_eq!(batch.sequence_number(), 2);
}

#[test]
fn defaults_match_constructors() {
    let store = HistoryStore::default();
    assert_eq!((store.entries.len(), store.max_entries), (0, 50));
    assert!(store.storage_path().is_none());
    let engine = ConversionEngine::default();
    assert_eq!(engine.converters(), &vec![ConverterKind::Image, ConverterKind::Text]);
    assert!(!engine.is_cancelled());
    let _ = webpexer::converter::image::ImageConverter::default();
    let _ = webpexer::converter::text::TextConverter::default();
}

#[test]
fn test_cancel_token_stops_batch() {
    let engine = ConversionEngine::new();
    assert!(!engine.is_cancelled());
    engine.cancel();
    assert!(engine.is_cancelled());
    let token = engine.cancel_token();
    assert!(token.is_cancelled());
}

#[test]
fn test_reset_cancel_creates_new_token() {
    let mut engine = ConversionEngine::new();
    engine.cancel();
    assert!(engine.is_cancelled());
    engine.reset_cancel();
    assert!(!engine.is_cancelled());
    let new_token = engine.cancel_token();
    assert!(!new_token.is_cancelled());
}

#[test]
fn test_cancel_token_shared_state() {
    let engine = ConversionEngine::new();
    let token1 = engine.cancel_token();
    let token2 = engine.cancel_token();
    assert!(!token1.is_cancelled());
    assert!(!token2.is_cancelled());
    engine.cancel();
    assert!(token1.is_cancelled());
    assert!(token2.is_cancelled());
}

#[test]
fn reset_cancel_leaves_old_tokens_behind() {
    let mut engine = ConversionEngine::new();
    let old = engine.cancel_token();
    engine.reset_cancel();
    engine.cancel();
    assert!(engine.is_cancelled());
    assert!(!old.is_cancelled());
}

#[test]
fn cancelling_a_child_token_leaves_the_engine_running() {
    let engine = ConversionEngine::new();
    let child = engine.cancel_token();
    child.cancel();
    assert!(child.is_cancelled());
    assert!(!engine.is_cancelled());
    assert!(!engine.cancel_token().is_cancelled());
}

#[test]
fn decoding_reports_the_text() {
    let (sjis, _, _) = encoding_rs::SHIFT_JIS.encode("変換テスト");
    assert_eq!(webpexer::converter::text::decode_text_input(&sjis, "a.txt").unwrap(), "変換テスト");
}

#[test]
fn history_is_listed_by_execution_time() {
    let mut store = HistoryStore::new();
    let at = |id: &str, secs: i64, nanos: u32| HistoryEntry {
        executed_at: UtcTime { secs, nanos },
        ..make_entry(id)
    };
    store.add_entry(at("mid", 200, 0));
    store.add_entry(at("old", 100, 0));
    store.add_entry(at("new", 300, 0));
    store.add_entry(at("mid2", 200, 0));
    store.add_entry(at("new_ns", 300, 5));
    let ids: Vec<&str> = store.get_entries().iter().map(|e| e.id.as_str()).collect();
    assert_eq!(ids, vec!["new_ns", "new", "mid2", "mid", "old"]);
    let stored: Vec<&str> = store.entries.iter().map(|e| e.id.as_str()).collect();
    assert_eq!(stored, vec!["new_ns", "mid2", "new", "old", "mid"]);
    assert_eq!(store.get_all().len(), 5);
}

#[test]
fn batch_steps_follow_cancellation() {
    let mut batch = BatchState::start(&vec![("/x/bad.zzz".to_string(), "非対応".to_string())], 2);
    assert_eq!(batch.next_step(false), BatchStep::Process);
    batch.finish_file("a".to_string(), FileOutcome::Converted);
    assert_eq!(batch.next_step(true), BatchStep::Cancel);
    batch.cancel("b".to_string());
    assert_eq!(batch.next_step(false), BatchStep::Finish);
    let mut whole = BatchState::start(&vec![], 1);
    whole.finish_file("a".to_string(), FileOutcome::Skipped);
    assert_eq!(whole.next_step(true), BatchStep::Finish);
    assert_eq!(whole.file_count(), 1);
}

#[test]
fn utf8_input_decodes_unchanged() {
    let text = "日本語のテキストです。UTF-8 で書かれています。";
    assert_eq!(detect_and_decode(text.as_bytes()).unwrap(), text);
}

#[test]
fn file_steps_follow_each_answer() {
    let step = file_step(FileStep::CheckPair, FileEvent::PairChecked { supported: false, from: FileFormat::Png, to: FileFormat::Json });
    assert!(matches!(step, FileStep::Done(FileOutcome::Unsupported { from: FileFormat::Png, to: FileFormat::Json })));
    let step = file_step(FileStep::CheckPair, FileEvent::PairChecked { supported: true, from: FileFormat::Png, to: FileFormat::Jpeg });
    assert!(matches!(step, FileStep::ResolvePath));
    let step = file_step(step, FileEvent::PathResolved(OutputPathResult::Skip));
    assert!(matches!(step, FileStep::Done(FileOutcome::Skipped)));
    let step = file_step(FileStep::ResolvePath, FileEvent::PathResolved(OutputPathResult::Write("/o/a.jpg".to_string())));
    assert!(matches!(&step, FileStep::MakeDir(t) if t == "/o/a.jpg"));
    let failed = file_step(FileStep::MakeDir("/o/a.jpg".to_string()), FileEvent::DirMade(Err("no".to_string())));
    assert!(matches!(&failed, FileStep::Done(FileOutcome::DirectoryFailed(m)) if m == "no"));
    let step = file_step(step, FileEvent::DirMade(Ok(())));
    assert!(matches!(&step, FileStep::Convert(t) if t == "/o/a.jpg"));
    let done = file_step(step, FileEvent::ConversionEnded(Ok(())));
    assert!(matches!(done, FileStep::Done(FileOutcome::Converted)));
    let bad = file_step(FileStep::Convert("/o/a.jpg".to_string()), FileEvent::ConversionEnded(Err("x".to_string())));
    assert!(matches!(&bad, FileStep::Done(FileOutcome::ConversionFailed(m)) if m == "x"));
    let unanswered = file_step(FileStep::ResolvePath, FileEvent::DirMade(Ok(())));
    assert!(matches!(unanswered, FileStep::ResolvePath));
}

#[test]
fn batch_checks_refuse_before_starting() {
    assert!(matches!(preflight_first(false), PreflightStep::Start));
    let step = preflight_first(true);
    assert!(matches!(step, PreflightStep::CheckFolder));
    let refused = preflight_step(PreflightStep::CheckFolder, PreflightEvent::FolderChecked(Err("書き込めません".to_string())));
    assert!(matches!(&refused, PreflightStep::Refused(m) if m == "書き込めません"));
    let step = preflight_step(step, PreflightEvent::FolderChecked(Ok(())));
    assert!(matches!(step, PreflightStep::CheckSpace));
    let short = preflight_step(PreflightStep::CheckSpace, PreflightEvent::SpaceMeasured { required: 10, available: 5 });
    let expected = ConversionError::DiskSpaceError { required_bytes: 10, available_bytes: 5 }.message();
    assert!(matches!(&short, PreflightStep::Refused(m) if *m == expected));
    let ok = preflight_step(step, PreflightEvent::SpaceMeasured { required: 5, available: 5 });
    assert!(matches!(ok, PreflightStep::Start));
}

#[test]
fn cancelling_a_handed_out_token_leaves_the_engine_running() {
    let engine = ConversionEngine::new();
    let child = engine.cancel_token();
    let sibling = engine.cancel_token();
    child.cancel();
    assert!(child.is_cancelled());
    assert!(!engine.is_cancelled());
    assert!(!sibling.is_cancelled());
}
