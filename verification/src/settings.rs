//! Application settings and their defaults.
use vstd::prelude::*;
use crate::models::{ConflictResolution, FileFormat, FileNamingPattern};

verus! {

/// The user's settings.
#[derive(Clone, Debug)]
pub struct AppSettings {
    pub language: String,
    pub theme: ThemeMode,
    pub default_quality: u8,
    pub default_output_format: FileFormat,
    pub file_naming: FileNamingPattern,
    pub conflict_resolution: ConflictResolution,
    pub delete_source: bool,
}

/// The colour theme.
#[derive(Clone, Copy, Debug, PartialEq, Eq, Structural)]
pub enum ThemeMode {
    System,
    Light,
    Dark,
}

impl Default for AppSettings {
    /// English, the system's theme, quality 80, PNG output, original names, overwriting,
    /// sources kept.
    fn default() -> (s: Self)
        ensures
            s.language@ == "en"@,
            s.theme == ThemeMode::System,
            s.default_quality == 80,
            s.default_output_format == FileFormat::Png,
            s.file_naming == FileNamingPattern::Original,
            s.conflict_resolution == ConflictResolution::Overwrite,
            !s.delete_source,
    {
        AppSettings {
            language: "en".to_owned(),
            theme: ThemeMode::System,
            default_quality: 80,
            default_output_format: FileFormat::Png,
            file_naming: FileNamingPattern::Original,
            conflict_resolution: ConflictResolution::Overwrite,
            delete_source: false,
        }
    }
}

} // verus!
