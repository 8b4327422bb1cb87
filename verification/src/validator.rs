//! Input validation: format detection from extensions, input file checks, disk space and
//! file size limits.
use vstd::prelude::*;
use vstd::utf8::is_ascii_chars;
use crate::errors::ConversionError;
use crate::models::FileFormat;
use crate::paths::{dot_split, extension, is_plain_name, parent, path_extension, path_parent};
use crate::strings::{chars_of, push_str, str_eq, string_of};

verus! {

/// What `str::to_lowercase` returns for a text.
pub uninterp spec fn lowercase(s: Seq<char>) -> Seq<char>;

/// Whether every character is an ASCII lowercase letter or digit.
pub open spec fn is_lower_ascii(s: Seq<char>) -> bool {
    forall|i: int| 0 <= i < s.len() ==> ('a' <= #[trigger] s[i] <= 'z' || '0' <= s[i] <= '9')
}

/// An ASCII character lowered: `A`..`Z` become `a`..`z`, the rest stay.
pub open spec fn ascii_lower_char(c: char) -> char {
    if 'A' <= c <= 'Z' {
        ((c as u32) + 32) as char
    } else {
        c
    }
}

/// ASCII text with its capital letters lowered.
pub open spec fn ascii_lower(s: Seq<char>) -> Seq<char> {
    s.map_values(|c: char| ascii_lower_char(c))
}

/// The lowercase form of `s` (std's `str::to_lowercase`, Unicode lowercase mapping); on
/// ASCII text that mapping lowers `A`..`Z` to `a`..`z` and leaves every other character.
#[verifier::external_body]
pub(crate) fn to_lowercase(s: &str) -> (r: String)
    ensures
        r@ == lowercase(s@),
        is_ascii_chars(s@) ==> r@ == ascii_lower(s@),
{
    s.to_lowercase()
}

/// The format named by a lowercase extension, over all formats.
pub open spec fn format_of_extension(e: Seq<char>) -> Option<FileFormat> {
    if e == "png"@ {
        Some(FileFormat::Png)
    } else if e == "jpg"@ || e == "jpeg"@ {
        Some(FileFormat::Jpeg)
    } else if e == "webp"@ {
        Some(FileFormat::Webp)
    } else if e == "gif"@ {
        Some(FileFormat::Gif)
    } else if e == "bmp"@ {
        Some(FileFormat::Bmp)
    } else if e == "tiff"@ || e == "tif"@ {
        Some(FileFormat::Tiff)
    } else if e == "avif"@ {
        Some(FileFormat::Avif)
    } else if e == "ico"@ {
        Some(FileFormat::Ico)
    } else if e == "json"@ {
        Some(FileFormat::Json)
    } else if e == "yaml"@ || e == "yml"@ {
        Some(FileFormat::Yaml)
    } else if e == "toml"@ {
        Some(FileFormat::Toml)
    } else if e == "xml"@ {
        Some(FileFormat::Xml)
    } else if e == "csv"@ {
        Some(FileFormat::Csv)
    } else if e == "md"@ || e == "markdown"@ {
        Some(FileFormat::Markdown)
    } else if e == "txt"@ {
        Some(FileFormat::PlainText)
    } else {
        None
    }
}

/// The format of a path: its extension, lowercased, names it.
pub open spec fn detect_format_spec(path: Seq<char>) -> Option<FileFormat> {
    match path_extension(path) {
        Some(e) => format_of_extension(lowercase(e)),
        None => None,
    }
}

/// The format named by a lowercase extension.
pub fn format_of_extension_exec(e: &str) -> (r: Option<FileFormat>)
    ensures
        r == format_of_extension(e@),
{
    if str_eq(e, "png") {
        Some(FileFormat::Png)
    } else if str_eq(e, "jpg") || str_eq(e, "jpeg") {
        Some(FileFormat::Jpeg)
    } else if str_eq(e, "webp") {
        Some(FileFormat::Webp)
    } else if str_eq(e, "gif") {
        Some(FileFormat::Gif)
    } else if str_eq(e, "bmp") {
        Some(FileFormat::Bmp)
    } else if str_eq(e, "tiff") || str_eq(e, "tif") {
        Some(FileFormat::Tiff)
    } else if str_eq(e, "avif") {
        Some(FileFormat::Avif)
    } else if str_eq(e, "ico") {
        Some(FileFormat::Ico)
    } else if str_eq(e, "json") {
        Some(FileFormat::Json)
    } else if str_eq(e, "yaml") || str_eq(e, "yml") {
        Some(FileFormat::Yaml)
    } else if str_eq(e, "toml") {
        Some(FileFormat::Toml)
    } else if str_eq(e, "xml") {
        Some(FileFormat::Xml)
    } else if str_eq(e, "csv") {
        Some(FileFormat::Csv)
    } else if str_eq(e, "md") || str_eq(e, "markdown") {
        Some(FileFormat::Markdown)
    } else if str_eq(e, "txt") {
        Some(FileFormat::PlainText)
    } else {
        None
    }
}

/// What is known of one input file: its path, whether it exists and whether it is a file.
#[derive(Clone, Debug)]
pub struct InputFile {
    pub path: String,
    pub exists: bool,
    pub is_file: bool,
}

/// Valid input files with their formats, and rejected files with the reason.
#[derive(Clone, Debug)]
pub struct ValidationResult {
    pub valid_files: Vec<(String, FileFormat)>,
    pub invalid_files: Vec<(String, String)>,
}

/// How one input file is judged.
pub enum FileVerdict {
    Valid(FileFormat),
    Invalid(Seq<char>),
    Ignored,
}

/// The reason given for an unsupported format: the extension, or `なし` when there is none.
pub open spec fn unsupported_reason(path: Seq<char>) -> Seq<char> {
    let ext = match path_extension(path) {
        Some(e) => e,
        None => "なし"@,
    };
    "非対応フォーマット (拡張子: "@ + ext + ")"@
}

/// A missing file is rejected, a path that is not a file is passed over, a file of a known
/// format is accepted and any other file is rejected.
pub open spec fn file_verdict(f: InputFile) -> FileVerdict {
    if !f.exists {
        FileVerdict::Invalid("ファイルが存在しません: "@ + f.path@)
    } else if !f.is_file {
        FileVerdict::Ignored
    } else {
        match detect_format_spec(f.path@) {
            Some(fmt) => FileVerdict::Valid(fmt),
            None => FileVerdict::Invalid(unsupported_reason(f.path@)),
        }
    }
}

/// The accepted files, in input order, with their formats.
pub open spec fn valid_files_spec(files: Seq<InputFile>) -> Seq<(Seq<char>, FileFormat)>
    decreases files.len(),
{
    if files.len() == 0 {
        Seq::empty()
    } else {
        let rest = valid_files_spec(files.drop_last());
        match file_verdict(files.last()) {
            FileVerdict::Valid(fmt) => rest.push((files.last().path@, fmt)),
            _ => rest,
        }
    }
}

/// The rejected files, in input order, with the reasons.
pub open spec fn invalid_files_spec(files: Seq<InputFile>) -> Seq<(Seq<char>, Seq<char>)>
    decreases files.len(),
{
    if files.len() == 0 {
        Seq::empty()
    } else {
        let rest = invalid_files_spec(files.drop_last());
        match file_verdict(files.last()) {
            FileVerdict::Invalid(msg) => rest.push((files.last().path@, msg)),
            _ => rest,
        }
    }
}

/// The view of a list of accepted files.
pub open spec fn valid_view(v: Seq<(String, FileFormat)>) -> Seq<(Seq<char>, FileFormat)> {
    v.map_values(|p: (String, FileFormat)| (p.0@, p.1))
}

/// The view of a list of rejected files.
pub open spec fn invalid_view(v: Seq<(String, String)>) -> Seq<(Seq<char>, Seq<char>)> {
    v.map_values(|p: (String, String)| (p.0@, p.1@))
}

/// One step of the search for the nearest existing folder at or above a path.
#[derive(Clone, Debug, PartialEq, Eq)]
pub enum AncestorStep {
    /// The search ends at this path.
    Found(String),
    /// This parent must be looked up next.
    Climb(String),
}

/// Validation of input files and output capacity.
pub struct Validator;

impl Validator {
    /// Detects the format of a path from its extension, ignoring case.
    pub fn detect_format(path: &str) -> (r: Option<FileFormat>)
        ensures
            r == detect_format_spec(path@),
            is_plain_name(path@) && (dot_split(path@).1 matches Some(e) && is_ascii_chars(e)) ==> r
                == format_of_extension(ascii_lower(dot_split(path@).1->Some_0)),
    {
        match extension(path) {
            Some(e) => {
                let lower = to_lowercase(e.as_str());
                format_of_extension_exec(lower.as_str())
            },
            None => None,
        }
    }

    /// Judges one input file (see `file_verdict`).
    fn judge(f: &InputFile) -> (r: (Option<FileFormat>, Option<String>))
        ensures
            match file_verdict(*f) {
                FileVerdict::Valid(fmt) => r.0 == Some(fmt) && r.1 is None,
                FileVerdict::Invalid(msg) => r.0 is None && (r.1 matches Some(m) && m@ == msg),
                FileVerdict::Ignored => r.0 is None && r.1 is None,
            },
    {
        if !f.exists {
            let mut m = chars_of("ファイルが存在しません: ");
            push_str(&mut m, f.path.as_str());
            (None, Some(string_of(&m)))
        } else if !f.is_file {
            (None, None)
        } else {
            match Self::detect_format(f.path.as_str()) {
                Some(fmt) => (Some(fmt), None),
                None => {
                    let ext = match extension(f.path.as_str()) {
                        Some(e) => e,
                        None => "なし".to_owned(),
                    };
                    let mut m = chars_of("非対応フォーマット (拡張子: ");
                    push_str(&mut m, ext.as_str());
                    push_str(&mut m, ")");
                    (None, Some(string_of(&m)))
                },
            }
        }
    }

    /// Sorts input files into accepted files with their formats and rejected files with the
    /// reason, keeping the input order; paths that exist but are not files are passed over.
    /// Folders are expanded into their files before this call.
    pub fn validate_input_files(files: &Vec<InputFile>) -> (r: ValidationResult)
        ensures
            valid_view(r.valid_files@) == valid_files_spec(files@),
            invalid_view(r.invalid_files@) == invalid_files_spec(files@),
    {
        let mut valid_files: Vec<(String, FileFormat)> = Vec::new();
        let mut invalid_files: Vec<(String, String)> = Vec::new();
        let mut i: usize = 0;
        while i < files.len()
            invariant
                i <= files@.len(),
                valid_view(valid_files@) == valid_files_spec(files@.take(i as int)),
                invalid_view(invalid_files@) == invalid_files_spec(files@.take(i as int)),
            decreases files@.len() - i,
        {
            let f = &files[i];
            let (fmt, msg) = Self::judge(f);
            assert(files@.take(i + 1).drop_last() =~= files@.take(i as int));
            assert(files@.take(i + 1).last() == files@[i as int]);
            match fmt {
                Some(fmt) => {
                    valid_files.push((f.path.clone(), fmt));
                },
                None => {},
            }
            match msg {
                Some(m) => {
                    invalid_files.push((f.path.clone(), m));
                },
                None => {},
            }
            assert(valid_view(valid_files@) =~= valid_files_spec(files@.take(i + 1)));
            assert(invalid_view(invalid_files@) =~= invalid_files_spec(files@.take(i + 1)));
            i = i + 1;
        }
        assert(files@.take(files@.len() as int) =~= files@);
        ValidationResult { valid_files, invalid_files }
    }

    /// Compares the total input size with the free space of the output folder: an error naming
    /// both figures when the input is larger.
    pub fn check_disk_space(input_size: u64, available: u64) -> (r: Result<(), ConversionError>)
        ensures
            input_size > available ==> (r matches Err(
                ConversionError::DiskSpaceError { required_bytes, available_bytes },
            ) && required_bytes == input_size && available_bytes == available),
            input_size <= available ==> r is Ok,
    {
        if input_size > available {
            return Err(ConversionError::DiskSpaceError {
                required_bytes: input_size,
                available_bytes: available,
            });
        }
        Ok(())
    }

    /// Checks a file size against a limit: an error giving both in whole MiB (rounded down)
    /// when the file is larger.
    pub fn validate_file_size(file_name: &str, file_size: u64, max_size: u64) -> (r: Result<
        (),
        ConversionError,
    >)
        ensures
            file_size > max_size ==> (r matches Err(
                ConversionError::FileSizeLimitError { file_name: n, size_mb, limit_mb },
            ) && n@ == file_name@ && size_mb == file_size / 1048576 && limit_mb == max_size
                / 1048576),
            file_size <= max_size ==> r is Ok,
    {
        if file_size > max_size {
            return Err(ConversionError::FileSizeLimitError {
                file_name: file_name.to_owned(),
                size_mb: file_size / (1024 * 1024),
                limit_mb: max_size / (1024 * 1024),
            });
        }
        Ok(())
    }

    /// One step of the search for the nearest existing ancestor, given whether `current`
    /// exists: an existing path ends the search, as does a path without a parent; otherwise
    /// the parent is looked up next.
    pub fn find_existing_ancestor(current: &str, exists: bool) -> (r: AncestorStep)
        ensures
            exists ==> (r matches AncestorStep::Found(p) && p@ == current@),
            !exists ==> match path_parent(current@) {
                Some(q) => r matches AncestorStep::Climb(p) && p@ == q,
                None => r matches AncestorStep::Found(p) && p@ == current@,
            },
    {
        if exists {
            return AncestorStep::Found(current.to_owned());
        }
        match parent(current) {
            Some(p) => AncestorStep::Climb(p),
            None => AncestorStep::Found(current.to_owned()),
        }
    }

    /// Judges an output folder from what was found: a failed creation of a missing folder
    /// is a folder-creation error with the reason; a path that is not a folder, or a folder
    /// that a test file cannot be written to, is a permission error.
    pub fn validate_output_path(
        path: &str,
        create_error: Option<String>,
        is_dir: bool,
        writable: bool,
    ) -> (r: Result<(), ConversionError>)
        ensures
            match create_error {
                Some(e) => r matches Err(ConversionError::DirectoryCreateError { path: p, detail })
                    && p@ == path@ && detail@ == e@,
                None => if !is_dir || !writable {
                    r matches Err(ConversionError::PermissionError { path: p }) && p@ == path@
                } else {
                    r is Ok
                },
            },
    {
        if let Some(e) = create_error {
            return Err(ConversionError::DirectoryCreateError { path: path.to_owned(), detail: e });
        }
        if !is_dir || !writable {
            return Err(ConversionError::PermissionError { path: path.to_owned() });
        }
        Ok(())
    }
}

} // verus!
