//! Plain data types shared by the converter.
use vstd::prelude::*;

verus! {

/// A file format known to the converter.
#[derive(Clone, Copy, Debug, PartialEq, Eq, Hash, Structural)]
pub enum FileFormat {
    Png,
    Jpeg,
    Webp,
    Gif,
    Bmp,
    Tiff,
    Avif,
    Ico,
    Json,
    Yaml,
    Toml,
    Xml,
    Csv,
    Markdown,
    PlainText,
}

/// The two families of formats.
#[derive(Clone, Copy, Debug, PartialEq, Eq, Structural)]
pub enum FormatCategory {
    Image,
    Text,
}

/// Describes one format for the user interface.
#[derive(Clone, Debug)]
pub struct FormatInfo {
    pub format: FileFormat,
    pub name: String,
    pub extensions: Vec<String>,
    pub category: FormatCategory,
}

/// Parameters of a batch conversion; paths are held as text.
#[derive(Clone, Debug)]
pub struct ConversionParams {
    pub input_paths: Vec<String>,
    pub output_format: FileFormat,
    pub output_dir: Option<String>,
    pub options: ConversionOptions,
}

/// Options of a conversion.
#[derive(Clone, Debug)]
pub struct ConversionOptions {
    pub quality: u8,
    pub resize: Option<ResizeOptions>,
    pub encoding: Option<TextEncoding>,
    pub csv_delimiter: Option<CsvDelimiter>,
    pub file_naming: FileNamingPattern,
    pub conflict_resolution: ConflictResolution,
    pub delete_source: bool,
}

/// Requested output dimensions of an image.
#[derive(Clone, Copy, Debug, PartialEq, Eq, Structural)]
pub struct ResizeOptions {
    pub width: Option<u32>,
    pub height: Option<u32>,
    pub maintain_aspect_ratio: bool,
}

/// Character encoding of a text output.
#[derive(Clone, Copy, Debug, PartialEq, Eq, Structural)]
pub enum TextEncoding {
    Utf8,
    ShiftJis,
    EucJp,
}

/// Field separator of CSV data.
#[derive(Clone, Copy, Debug, PartialEq, Eq, Structural)]
pub enum CsvDelimiter {
    Comma,
    Tab,
    Semicolon,
}

/// How output file names are formed from the source name.
#[derive(Clone, Copy, Debug, PartialEq, Eq, Structural)]
pub enum FileNamingPattern {
    Original,
    OriginalSequential,
    OriginalDatetime,
}

/// What happens when the output file already exists.
#[derive(Clone, Copy, Debug, PartialEq, Eq, Structural)]
pub enum ConflictResolution {
    Overwrite,
    Skip,
    Rename,
}

/// Progress report of a batch, one per step.
#[derive(Clone, Debug)]
pub struct ProgressEvent {
    pub current_file: String,
    pub processed_count: u32,
    pub total_count: u32,
    pub status: ProgressStatus,
    pub error: Option<String>,
}

/// State of the file named in a progress report.
#[derive(Clone, Copy, Debug, PartialEq, Eq, Structural)]
pub enum ProgressStatus {
    Processing,
    Completed,
    Failed,
    Cancelled,
}

/// Outcome of a batch conversion.
#[derive(Clone, Debug)]
pub struct ConversionResult {
    pub success_count: u32,
    pub failed_count: u32,
    pub skipped_count: u32,
    pub failed_files: Vec<FailedFileInfo>,
    pub output_dir: String,
}

/// A file that could not be converted, with the reason.
#[derive(Clone, Debug)]
pub struct FailedFileInfo {
    pub file_name: String,
    pub error: String,
}

/// Result of comparing required and available disk space.
#[derive(Clone, Copy, Debug)]
pub struct DiskSpaceCheck {
    pub has_enough_space: bool,
    pub required_bytes: u64,
    pub available_bytes: u64,
}

/// Result of checking an output folder.
#[derive(Clone, Debug)]
pub struct PathValidation {
    pub is_valid: bool,
    pub is_writable: bool,
    pub error: Option<String>,
}

} // verus!
