//! Output paths: extensions, folder names, file naming and conflict resolution.
use vstd::prelude::*;
use crate::models::{ConflictResolution, FileFormat, FileNamingPattern};
use crate::validator::format_of_extension;
use crate::paths::{
    extension, file_stem, join, parent, path_extension, path_file_stem, path_join, path_parent,
};
use crate::strings::{
    chars_of, decimal, decimal_exec, lemma_zero_padded_shape, pow10, push_all, push_str, string_of,
    zero_padded, zero_padded_exec,
};

verus! {

/// The file extension written for each format.
pub open spec fn spec_format_extension(format: FileFormat) -> Seq<char> {
    match format {
        FileFormat::Png => "png"@,
        FileFormat::Jpeg => "jpg"@,
        FileFormat::Webp => "webp"@,
        FileFormat::Gif => "gif"@,
        FileFormat::Bmp => "bmp"@,
        FileFormat::Tiff => "tiff"@,
        FileFormat::Avif => "avif"@,
        FileFormat::Ico => "ico"@,
        FileFormat::Json => "json"@,
        FileFormat::Yaml => "yaml"@,
        FileFormat::Toml => "toml"@,
        FileFormat::Xml => "xml"@,
        FileFormat::Csv => "csv"@,
        FileFormat::Markdown => "md"@,
        FileFormat::PlainText => "txt"@,
    }
}

/// Returns the file extension (without the dot) written for `format`.
pub fn format_extension(format: &FileFormat) -> (ext: &'static str)
    ensures
        ext@ == spec_format_extension(*format),
{
    match format {
        FileFormat::Png => "png",
        FileFormat::Jpeg => "jpg",
        FileFormat::Webp => "webp",
        FileFormat::Gif => "gif",
        FileFormat::Bmp => "bmp",
        FileFormat::Tiff => "tiff",
        FileFormat::Avif => "avif",
        FileFormat::Ico => "ico",
        FileFormat::Json => "json",
        FileFormat::Yaml => "yaml",
        FileFormat::Toml => "toml",
        FileFormat::Xml => "xml",
        FileFormat::Csv => "csv",
        FileFormat::Markdown => "md",
        FileFormat::PlainText => "txt",
    }
}


/// The name of the sub-folder used for each format when no output folder is given.
pub open spec fn spec_format_name(format: FileFormat) -> Seq<char> {
    match format {
        FileFormat::Png => "png"@,
        FileFormat::Jpeg => "jpeg"@,
        FileFormat::Webp => "webp"@,
        FileFormat::Gif => "gif"@,
        FileFormat::Bmp => "bmp"@,
        FileFormat::Tiff => "tiff"@,
        FileFormat::Avif => "avif"@,
        FileFormat::Ico => "ico"@,
        FileFormat::Json => "json"@,
        FileFormat::Yaml => "yaml"@,
        FileFormat::Toml => "toml"@,
        FileFormat::Xml => "xml"@,
        FileFormat::Csv => "csv"@,
        FileFormat::Markdown => "markdown"@,
        FileFormat::PlainText => "plaintext"@,
    }
}

/// The default sub-folder of each format names that format: read as an extension, its name
/// gives the format back (every format but plain text, whose folder `plaintext` is no
/// extension), and two different formats never share a sub-folder.
pub proof fn law_format_folder_names_its_format(f: FileFormat, g: FileFormat)
    ensures
        f != FileFormat::PlainText ==> format_of_extension(spec_format_name(f)) == Some(f),
        f != g ==> spec_format_name(f) != spec_format_name(g),
        spec_format_name(f).len() > 0,
{
    lemma_folder_name_reads_back(f);
    lemma_folder_name_reads_back(g);
    if f != g && spec_format_name(f) == spec_format_name(g) {
        if f == FileFormat::PlainText {
            assert(spec_format_name(g).len() != 9);
        } else if g == FileFormat::PlainText {
            assert(spec_format_name(f).len() != 9);
        }
    }
}

/// The folder name of a format other than plain text reads back, as an extension, as that
/// format.
proof fn lemma_folder_name_reads_back(f: FileFormat)
    ensures
        f != FileFormat::PlainText ==> format_of_extension(spec_format_name(f)) == Some(f),
        spec_format_name(f).len() > 0,
        f == FileFormat::PlainText <==> spec_format_name(f).len() == 9,
{
    reveal_strlit("png");
    reveal_strlit("jpg");
    reveal_strlit("jpeg");
    reveal_strlit("webp");
    reveal_strlit("gif");
    reveal_strlit("bmp");
    reveal_strlit("tiff");
    reveal_strlit("tif");
    reveal_strlit("avif");
    reveal_strlit("ico");
    reveal_strlit("json");
    reveal_strlit("yaml");
    reveal_strlit("yml");
    reveal_strlit("toml");
    reveal_strlit("xml");
    reveal_strlit("csv");
    reveal_strlit("md");
    reveal_strlit("markdown");
    reveal_strlit("txt");
    reveal_strlit("plaintext");
    match f {
        FileFormat::Png => {
            assert(spec_format_name(f) == "png"@);
            assert(format_of_extension("png"@) == Some(FileFormat::Png));
        },
        FileFormat::Jpeg => {
            assert(spec_format_name(f) == "jpeg"@);
            assert(format_of_extension("jpeg"@) == Some(FileFormat::Jpeg));
        },
        FileFormat::Webp => {
            assert(spec_format_name(f) == "webp"@);
            assert("webp"@[0] != "jpeg"@[0]);
            assert(format_of_extension("webp"@) == Some(FileFormat::Webp));
        },
        FileFormat::Gif => {
            assert(spec_format_name(f) == "gif"@);
            assert("gif"@[0] != "png"@[0]);
            assert("gif"@[0] != "jpg"@[0]);
            assert(format_of_extension("gif"@) == Some(FileFormat::Gif));
        },
        FileFormat::Bmp => {
            assert(spec_format_name(f) == "bmp"@);
            assert("bmp"@[0] != "png"@[0]);
            assert("bmp"@[0] != "jpg"@[0]);
            assert("bmp"@[0] != "gif"@[0]);
            assert(format_of_extension("bmp"@) == Some(FileFormat::Bmp));
        },
        FileFormat::Tiff => {
            assert(spec_format_name(f) == "tiff"@);
            assert("tiff"@[0] != "jpeg"@[0]);
            assert("tiff"@[0] != "webp"@[0]);
            assert(format_of_extension("tiff"@) == Some(FileFormat::Tiff));
        },
        FileFormat::Avif => {
            assert(spec_format_name(f) == "avif"@);
            assert("avif"@[0] != "jpeg"@[0]);
            assert("avif"@[0] != "webp"@[0]);
            assert("avif"@[0] != "tiff"@[0]);
            assert(format_of_extension("avif"@) == Some(FileFormat::Avif));
        },
        FileFormat::Ico => {
            assert(spec_format_name(f) == "ico"@);
            assert("ico"@[0] != "png"@[0]);
            assert("ico"@[0] != "jpg"@[0]);
            assert("ico"@[0] != "gif"@[0]);
            assert("ico"@[0] != "bmp"@[0]);
            assert("ico"@[0] != "tif"@[0]);
            assert(format_of_extension("ico"@) == Some(FileFormat::Ico));
        },
        FileFormat::Json => {
            assert(spec_format_name(f) == "json"@);
            assert("json"@[1] != "jpeg"@[1]);
            assert("json"@[0] != "webp"@[0]);
            assert("json"@[0] != "tiff"@[0]);
            assert("json"@[0] != "avif"@[0]);
            assert(format_of_extension("json"@) == Some(FileFormat::Json));
        },
        FileFormat::Yaml => {
            assert(spec_format_name(f) == "yaml"@);
            assert("yaml"@[0] != "jpeg"@[0]);
            assert("yaml"@[0] != "webp"@[0]);
            assert("yaml"@[0] != "tiff"@[0]);
            assert("yaml"@[0] != "avif"@[0]);
            assert("yaml"@[0] != "json"@[0]);
            assert(format_of_extension("yaml"@) == Some(FileFormat::Yaml));
        },
        FileFormat::Toml => {
            assert(spec_format_name(f) == "toml"@);
            assert("toml"@[0] != "jpeg"@[0]);
            assert("toml"@[0] != "webp"@[0]);
            assert("toml"@[1] != "tiff"@[1]);
            assert("toml"@[0] != "avif"@[0]);
            assert("toml"@[0] != "json"@[0]);
            assert("toml"@[0] != "yaml"@[0]);
            assert(format_of_extension("toml"@) == Some(FileFormat::Toml));
        },
        FileFormat::Xml => {
            assert(spec_format_name(f) == "xml"@);
            assert("xml"@[0] != "png"@[0]);
            assert("xml"@[0] != "jpg"@[0]);
            assert("xml"@[0] != "gif"@[0]);
            assert("xml"@[0] != "bmp"@[0]);
            assert("xml"@[0] != "tif"@[0]);
            assert("xml"@[0] != "ico"@[0]);
            assert("xml"@[0] != "yml"@[0]);
            assert(format_of_extension("xml"@) == Some(FileFormat::Xml));
        },
        FileFormat::Csv => {
            assert(spec_format_name(f) == "csv"@);
            assert("csv"@[0] != "png"@[0]);
            assert("csv"@[0] != "jpg"@[0]);
            assert("csv"@[0] != "gif"@[0]);
            assert("csv"@[0] != "bmp"@[0]);
            assert("csv"@[0] != "tif"@[0]);
            assert("csv"@[0] != "ico"@[0]);
            assert("csv"@[0] != "yml"@[0]);
            assert("csv"@[0] != "xml"@[0]);
            assert(format_of_extension("csv"@) == Some(FileFormat::Csv));
        },
        FileFormat::Markdown => {
            assert(spec_format_name(f) == "markdown"@);
            assert(format_of_extension("markdown"@) == Some(FileFormat::Markdown));
        },
        FileFormat::PlainText => {},
    }
}

/// Returns the format's name, used as the sub-folder name.
pub fn format_name(format: &FileFormat) -> (name: &'static str)
    ensures
        name@ == spec_format_name(*format),
{
    match format {
        FileFormat::Png => "png",
        FileFormat::Jpeg => "jpeg",
        FileFormat::Webp => "webp",
        FileFormat::Gif => "gif",
        FileFormat::Bmp => "bmp",
        FileFormat::Tiff => "tiff",
        FileFormat::Avif => "avif",
        FileFormat::Ico => "ico",
        FileFormat::Json => "json",
        FileFormat::Yaml => "yaml",
        FileFormat::Toml => "toml",
        FileFormat::Xml => "xml",
        FileFormat::Csv => "csv",
        FileFormat::Markdown => "markdown",
        FileFormat::PlainText => "plaintext",
    }
}

/// The output file stem for a naming pattern: the original stem, the stem and a three-digit
/// sequence number, or the stem and a date-time stamp.
pub open spec fn filename_stem_spec(
    original_stem: Seq<char>,
    naming: FileNamingPattern,
    sequence_num: u32,
    stamp: Seq<char>,
) -> Seq<char> {
    match naming {
        FileNamingPattern::Original => original_stem,
        FileNamingPattern::OriginalSequential => original_stem + "_"@ + zero_padded(
            sequence_num as nat,
            3,
        ),
        FileNamingPattern::OriginalDatetime => original_stem + "_"@ + stamp,
    }
}

/// A reading of the local clock: the date and the time of day, as chrono gives them; during a
/// leap second `nanosecond` runs past one second.
#[derive(Clone, Copy, Debug, PartialEq, Eq, Structural)]
pub struct ClockReading {
    pub year: i32,
    pub month: u32,
    pub day: u32,
    pub hour: u32,
    pub minute: u32,
    pub second: u32,
    pub nanosecond: u32,
}

/// The ranges chrono keeps the fields of a reading in.
pub open spec fn clock_ok(t: ClockReading) -> bool {
    &&& 1 <= t.month <= 12
    &&& 1 <= t.day <= 31
    &&& t.hour <= 23
    &&& t.minute <= 59
    &&& t.second <= 59
    &&& t.nanosecond < 2_000_000_000
}

/// The year as chrono's `%Y` writes it: four digits, zero-padded, for years 0 to 9999, and
/// otherwise a sign before at least four digits.
pub open spec fn year_text(y: int) -> Seq<char> {
    if 0 <= y <= 9999 {
        zero_padded(y as nat, 4)
    } else if y < 0 {
        seq!['-'] + zero_padded((-y) as nat, 4)
    } else {
        seq!['+'] + zero_padded(y as nat, 4)
    }
}

/// The seconds as chrono's `%S` writes them: a leap second is second 60.
pub open spec fn stamp_second(t: ClockReading) -> nat {
    (t.second + t.nanosecond / 1_000_000_000) as nat
}

/// A reading written as chrono's `%Y%m%d_%H%M%S` writes it.
pub open spec fn datetime_stamp_spec(t: ClockReading) -> Seq<char> {
    year_text(t.year as int) + zero_padded(t.month as nat, 2) + zero_padded(t.day as nat, 2)
        + "_"@ + zero_padded(t.hour as nat, 2) + zero_padded(t.minute as nat, 2) + zero_padded(
        stamp_second(t),
        2,
    )
}

/// Whether `s` is the stamp of some reading of the clock.
pub open spec fn is_clock_stamp(s: Seq<char>) -> bool {
    exists|t: ClockReading| clock_ok(t) && s == #[trigger] datetime_stamp_spec(t)
}

/// Whether `s` has the shape `YYYYmmdd_HHMMSS`: fifteen characters, `_` in the ninth place
/// and ASCII digits everywhere else.
pub open spec fn is_datetime_stamp(s: Seq<char>) -> bool {
    &&& s.len() == 15
    &&& s[8] == '_'
    &&& forall|i: int| 0 <= i < 15 && i != 8 ==> '0' <= #[trigger] s[i] <= '9'
}

/// A reading whose year has four digits gives a stamp of the shape `YYYYmmdd_HHMMSS`.
pub proof fn law_stamp_shape(t: ClockReading)
    requires
        clock_ok(t),
        0 <= t.year <= 9999,
    ensures
        is_datetime_stamp(datetime_stamp_spec(t)),
{
    reveal_with_fuel(pow10, 5);
    reveal_strlit("_");
    lemma_zero_padded_shape(t.year as nat, 4);
    lemma_zero_padded_shape(t.month as nat, 2);
    lemma_zero_padded_shape(t.day as nat, 2);
    lemma_zero_padded_shape(t.hour as nat, 2);
    lemma_zero_padded_shape(t.minute as nat, 2);
    lemma_zero_padded_shape(stamp_second(t), 2);
    let y = zero_padded(t.year as nat, 4);
    let mo = zero_padded(t.month as nat, 2);
    let d = zero_padded(t.day as nat, 2);
    let h = zero_padded(t.hour as nat, 2);
    let mi = zero_padded(t.minute as nat, 2);
    let sec = zero_padded(stamp_second(t), 2);
    let s = datetime_stamp_spec(t);
    assert(s =~= y + mo + d + "_"@ + h + mi + sec);
    assert forall|i: int| 0 <= i < 15 && i != 8 implies '0' <= #[trigger] s[i] <= '9' by {
        if i < 4 {
            assert(s[i] == y[i]);
        } else if i < 6 {
            assert(s[i] == mo[i - 4]);
        } else if i < 8 {
            assert(s[i] == d[i - 6]);
        } else if i < 11 {
            assert(s[i] == h[i - 9]);
        } else if i < 13 {
            assert(s[i] == mi[i - 11]);
        } else {
            assert(s[i] == sec[i - 13]);
        }
    }
}

/// Reads the local clock (chrono's `Local::now`) and hands back its date and time of day
/// through chrono's `Datelike` and `Timelike` getters, each in the range chrono documents.
#[verifier::external_body]
fn read_local_clock() -> (t: ClockReading)
    ensures
        clock_ok(t),
{
    let now = chrono::Local::now();
    ClockReading {
        year: chrono::Datelike::year(&now),
        month: chrono::Datelike::month(&now),
        day: chrono::Datelike::day(&now),
        hour: chrono::Timelike::hour(&now),
        minute: chrono::Timelike::minute(&now),
        second: chrono::Timelike::second(&now),
        nanosecond: chrono::Timelike::nanosecond(&now),
    }
}

/// Writes a reading as `%Y%m%d_%H%M%S` (see `datetime_stamp_spec`).
pub fn datetime_stamp(t: &ClockReading) -> (r: String)
    requires
        clock_ok(*t),
    ensures
        r@ == datetime_stamp_spec(*t),
{
    let mut out: Vec<char> = Vec::new();
    if 0 <= t.year && t.year <= 9999 {
        let y = zero_padded_exec(t.year as u64, 4);
        push_all(&mut out, &y);
    } else {
        let wide: i64 = t.year as i64;
        let mag: u64 = if wide < 0 {
            out.push('-');
            (0 - wide) as u64
        } else {
            out.push('+');
            wide as u64
        };
        let y = zero_padded_exec(mag, 4);
        push_all(&mut out, &y);
    }
    let ghost year_part = out@;
    assert(year_part == year_text(t.year as int));
    let sec: u32 = t.second + t.nanosecond / 1_000_000_000;
    let mo = zero_padded_exec(t.month as u64, 2);
    push_all(&mut out, &mo);
    let d = zero_padded_exec(t.day as u64, 2);
    push_all(&mut out, &d);
    push_str(&mut out, "_");
    let h = zero_padded_exec(t.hour as u64, 2);
    push_all(&mut out, &h);
    let mi = zero_padded_exec(t.minute as u64, 2);
    push_all(&mut out, &mi);
    let se = zero_padded_exec(sec as u64, 2);
    push_all(&mut out, &se);
    assert(out@ =~= datetime_stamp_spec(*t));
    string_of(&out)
}

/// The local date and time as `YYYYmmdd_HHMMSS`: whatever the clock reads, the stamp of some
/// reading in chrono's ranges.
fn local_datetime_stamp() -> (r: String)
    ensures
        is_clock_stamp(r@),
{
    let t = read_local_clock();
    let r = datetime_stamp(&t);
    assert(r@ == datetime_stamp_spec(t));
    r
}

/// The output file stem for a naming pattern, with the date-time stamp given.
pub fn filename_stem_at(
    original_stem: &str,
    naming: &FileNamingPattern,
    sequence_num: u32,
    stamp: &str,
) -> (r: String)
    ensures
        r@ == filename_stem_spec(original_stem@, *naming, sequence_num, stamp@),
{
    let mut out = chars_of(original_stem);
    match naming {
        FileNamingPattern::Original => {},
        FileNamingPattern::OriginalSequential => {
            push_str(&mut out, "_");
            let d = zero_padded_exec(sequence_num as u64, 3);
            push_all(&mut out, &d);
        },
        FileNamingPattern::OriginalDatetime => {
            push_str(&mut out, "_");
            push_str(&mut out, stamp);
        },
    }
    string_of(&out)
}

/// The output file stem for a naming pattern; the date-time pattern reads the local clock.
pub fn generate_filename_stem(
    original_stem: &str,
    naming: &FileNamingPattern,
    sequence_num: u32,
) -> (r: String)
    ensures
        *naming != FileNamingPattern::OriginalDatetime ==> r@ == filename_stem_spec(
            original_stem@,
            *naming,
            sequence_num,
            Seq::empty(),
        ),
        *naming == FileNamingPattern::OriginalDatetime ==> exists|stamp: Seq<char>|
            is_clock_stamp(stamp) && r@ == #[trigger] filename_stem_spec(
                original_stem@,
                *naming,
                sequence_num,
                stamp,
            ),
{
    match naming {
        FileNamingPattern::OriginalDatetime => {
            let stamp = local_datetime_stamp();
            filename_stem_at(original_stem, naming, sequence_num, stamp.as_str())
        },
        _ => filename_stem_at(original_stem, naming, sequence_num, ""),
    }
}

/// The output folder: the one given, or the format's sub-folder next to the source file.
pub open spec fn output_dir_spec(
    source: Seq<char>,
    output_dir: Option<Seq<char>>,
    format: FileFormat,
) -> Seq<char> {
    match output_dir {
        Some(d) => d,
        None => {
            let source_dir = match path_parent(source) {
                Some(p) => p,
                None => "."@,
            };
            path_join(source_dir, spec_format_name(format))
        },
    }
}

/// Decides the output folder: `output_dir` when given, otherwise `{source folder}/{format name}`.
pub fn determine_output_dir(source: &str, output_dir: Option<&str>, format: &FileFormat) -> (r:
    String)
    ensures
        r@ == output_dir_spec(
            source@,
            match output_dir {
                Some(d) => Some(d@),
                None => None,
            },
            *format,
        ),
{
    match output_dir {
        Some(d) => d.to_owned(),
        None => {
            let source_dir = match parent(source) {
                Some(p) => p,
                None => ".".to_owned(),
            };
            join(source_dir.as_str(), format_name(format))
        },
    }
}

/// The stem of the source file name, or `output` when it has none.
pub open spec fn source_stem_spec(source: Seq<char>) -> Seq<char> {
    match path_file_stem(source) {
        Some(s) => s,
        None => "output"@,
    }
}

/// The output path before conflicts are considered: `{folder}/{stem}.{extension}`.
pub open spec fn output_base_spec(
    source: Seq<char>,
    output_dir: Option<Seq<char>>,
    format: FileFormat,
    stem: Seq<char>,
) -> Seq<char> {
    path_join(output_dir_spec(source, output_dir, format), stem + "."@ + spec_format_extension(format))
}

/// The message of a failed creation of an output folder.
pub open spec fn dir_create_failure_text(dir: Seq<char>, detail: Seq<char>) -> Seq<char> {
    "出力ディレクトリの作成に失敗しました: "@ + dir + " - "@ + detail
}

/// The outcome of making sure an output folder exists: the folder, or, when creating it
/// failed, a message naming it and the reason.
pub fn ensure_output_dir(dir: String, create_error: Option<String>) -> (r: Result<String, String>)
    ensures
        match create_error {
            Some(e) => r matches Err(m) && m@ == dir_create_failure_text(dir@, e@),
            None => r matches Ok(d) && d@ == dir@,
        },
{
    match create_error {
        Some(e) => {
            let mut m = chars_of("出力ディレクトリの作成に失敗しました: ");
            push_str(&mut m, dir.as_str());
            push_str(&mut m, " - ");
            push_str(&mut m, e.as_str());
            Err(string_of(&m))
        },
        None => Ok(dir),
    }
}

/// Result of choosing an output path.
#[derive(Clone, Debug, PartialEq, Eq)]
pub enum OutputPathResult {
    /// Write the output to this path.
    Write(String),
    /// Do not write: the file exists and conflicts are skipped.
    Skip,
}

/// One step of resolving a name conflict: either decided, or the existence of `candidate`
/// must be looked up and handed to `resolve_conflict` together with `attempt`.
#[derive(Clone, Debug, PartialEq, Eq)]
pub enum ConflictCheck {
    Done(OutputPathResult),
    Probe { candidate: String, attempt: u32 },
}

/// The `n`-th alternative name of `base` (n >= 2): `{stem}_{n}.{ext}` in the same folder,
/// `{stem}_{n}` when there is no extension.
pub open spec fn renamed_spec(base: Seq<char>, n: nat) -> Seq<char> {
    let dir = match path_parent(base) {
        Some(p) => p,
        None => Seq::empty(),
    };
    let stem = match path_file_stem(base) {
        Some(s) => s,
        None => Seq::empty(),
    };
    let ext = match path_extension(base) {
        Some(e) => e,
        None => Seq::empty(),
    };
    let name = if ext.len() == 0 {
        stem + "_"@ + decimal(n)
    } else {
        stem + "_"@ + decimal(n) + "."@ + ext
    };
    path_join(dir, name)
}

/// The path probed at each attempt: the base path first, then `_2`, `_3`, ...
pub open spec fn candidate_spec(base: Seq<char>, attempt: nat) -> Seq<char> {
    if attempt == 0 {
        base
    } else {
        renamed_spec(base, attempt)
    }
}

/// The attempt that follows `attempt`: 0 is followed by 2, `n` by `n + 1`.
pub open spec fn next_attempt(attempt: nat) -> nat {
    if attempt == 0 {
        2
    } else {
        attempt + 1
    }
}

/// Where renaming ends when the paths for which `taken` holds exist: the attempts run 0, 2,
/// 3, ... (as `resolve_conflict` steps through them) and stop at the first free candidate;
/// `None` when none is free within `fuel` more steps.
pub open spec fn rename_outcome(
    base: Seq<char>,
    taken: spec_fn(Seq<char>) -> bool,
    attempt: nat,
    fuel: nat,
) -> Option<(nat, Seq<char>)>
    decreases fuel,
{
    if !taken(candidate_spec(base, attempt)) {
        Some((attempt, candidate_spec(base, attempt)))
    } else if fuel == 0 {
        None
    } else {
        rename_outcome(base, taken, next_attempt(attempt), (fuel - 1) as nat)
    }
}

/// Renaming writes to the first free name: the base path when it is free, else the first
/// free `_N` name, with N at least 2; every name tried before it exists.
pub proof fn law_rename_picks_first_free(
    base: Seq<char>,
    taken: spec_fn(Seq<char>) -> bool,
    attempt: nat,
    fuel: nat,
)
    requires
        attempt == 0 || attempt >= 2,
    ensures
        rename_outcome(base, taken, attempt, fuel) matches Some((a, p)) ==> {
            &&& p == candidate_spec(base, a)
            &&& !taken(p)
            &&& a == attempt || a >= 2
            &&& a >= attempt
            &&& forall|b: nat|
                (b == attempt || (2 <= b && attempt <= b)) && b < a ==> taken(
                    #[trigger] candidate_spec(base, b),
                )
        },
    decreases fuel,
{
    if taken(candidate_spec(base, attempt)) && fuel > 0 {
        law_rename_picks_first_free(base, taken, next_attempt(attempt), (fuel - 1) as nat);
    }
}

/// The `n`-th alternative name of `base` (n >= 2).
pub fn renamed_path(base: &str, n: u32) -> (r: String)
    ensures
        r@ == renamed_spec(base@, n as nat),
{
    let dir = match parent(base) {
        Some(p) => p,
        None => String::new(),
    };
    let stem = match file_stem(base) {
        Some(s) => s,
        None => String::new(),
    };
    let ext = match extension(base) {
        Some(e) => e,
        None => String::new(),
    };
    let mut name = chars_of(stem.as_str());
    push_str(&mut name, "_");
    let d = decimal_exec(n as u64);
    push_all(&mut name, &d);
    if ext.as_str().is_empty() {
    } else {
        push_str(&mut name, ".");
        push_str(&mut name, ext.as_str());
    }
    let name_s = string_of(&name);
    join(dir.as_str(), name_s.as_str())
}

/// The first step of conflict resolution for `base`: overwriting decides at once; skipping
/// and renaming first look up whether `base` exists.
pub fn start_conflict_resolution(base: &str, conflict: &ConflictResolution) -> (r: ConflictCheck)
    ensures
        match *conflict {
            ConflictResolution::Overwrite => r matches ConflictCheck::Done(
                OutputPathResult::Write(p),
            ) && p@ == base@,
            _ => r matches ConflictCheck::Probe { candidate, attempt } && candidate@ == base@
                && attempt == 0,
        },
{
    match conflict {
        ConflictResolution::Overwrite => ConflictCheck::Done(OutputPathResult::Write(base.to_owned())),
        _ => ConflictCheck::Probe { candidate: base.to_owned(), attempt: 0 },
    }
}


/// One step of conflict resolution, given whether the path of this attempt exists:
/// overwriting writes to `base`; skipping skips an existing `base` and writes otherwise;
/// renaming writes to the first candidate that does not exist, probing `_2`, `_3`, ... in turn.
pub fn resolve_conflict(base: &str, conflict: &ConflictResolution, attempt: u32, exists: bool) -> (r:
    ConflictCheck)
    requires
        *conflict == ConflictResolution::Rename && exists ==> attempt < u32::MAX,
    ensures
        match *conflict {
            ConflictResolution::Overwrite => r matches ConflictCheck::Done(
                OutputPathResult::Write(p),
            ) && p@ == base@,
            ConflictResolution::Skip => if exists {
                r == ConflictCheck::Done(OutputPathResult::Skip)
            } else {
                r matches ConflictCheck::Done(OutputPathResult::Write(p)) && p@ == base@
            },
            ConflictResolution::Rename => if exists {
                r matches ConflictCheck::Probe { candidate, attempt: a } && a == next_attempt(
                    attempt as nat,
                ) && candidate@ == candidate_spec(base@, a as nat)
            } else {
                r matches ConflictCheck::Done(OutputPathResult::Write(p)) && p@ == candidate_spec(
                    base@,
                    attempt as nat,
                )
            },
        },
{
    match conflict {
        ConflictResolution::Overwrite => ConflictCheck::Done(OutputPathResult::Write(base.to_owned())),
        ConflictResolution::Skip => {
            if exists {
                ConflictCheck::Done(OutputPathResult::Skip)
            } else {
                ConflictCheck::Done(OutputPathResult::Write(base.to_owned()))
            }
        },
        ConflictResolution::Rename => {
            if exists {
                let next: u32 = if attempt == 0 {
                    2
                } else {
                    attempt + 1
                };
                ConflictCheck::Probe { candidate: renamed_path(base, next), attempt: next }
            } else if attempt == 0 {
                ConflictCheck::Done(OutputPathResult::Write(base.to_owned()))
            } else {
                ConflictCheck::Done(OutputPathResult::Write(renamed_path(base, attempt)))
            }
        },
    }
}

/// The first step of choosing the output path of `source`: the folder, the file name from the
/// naming pattern and the extension of `format` give the base path, and conflict resolution
/// starts on it (see `start_conflict_resolution`). The date-time pattern reads the clock.
pub fn generate_output_path(
    source: &str,
    output_dir: Option<&str>,
    format: &FileFormat,
    naming: &FileNamingPattern,
    conflict: &ConflictResolution,
    sequence_num: u32,
) -> (r: ConflictCheck)
    ensures
        exists|stamp: Seq<char>|
            {
                let base = output_base_spec(
                    source@,
                    match output_dir {
                        Some(d) => Some(d@),
                        None => None,
                    },
                    *format,
                    #[trigger] filename_stem_spec(source_stem_spec(source@), *naming, sequence_num, stamp),
                );
                &&& *naming != FileNamingPattern::OriginalDatetime ==> stamp == Seq::<char>::empty()
                &&& *naming == FileNamingPattern::OriginalDatetime ==> is_clock_stamp(stamp)
                &&& match *conflict {
                    ConflictResolution::Overwrite => r matches ConflictCheck::Done(
                        OutputPathResult::Write(p),
                    ) && p@ == base,
                    _ => r matches ConflictCheck::Probe { candidate, attempt } && candidate@ == base
                        && attempt == 0,
                }
            },
{
    let stem_now = match file_stem(source) {
        Some(s) => s,
        None => "output".to_owned(),
    };
    let stem = generate_filename_stem(stem_now.as_str(), naming, sequence_num);
    let ghost stamp: Seq<char> = if *naming == FileNamingPattern::OriginalDatetime {
        choose|stamp: Seq<char>|
            is_clock_stamp(stamp) && stem@ == filename_stem_spec(stem_now@, *naming, sequence_num, stamp)
    } else {
        Seq::empty()
    };
    assert(stem_now@ == source_stem_spec(source@));
    assert(stem@ == filename_stem_spec(source_stem_spec(source@), *naming, sequence_num, stamp));
    output_path_with_stem(source, output_dir, format, stem.as_str(), conflict)
}

/// The first step of choosing the output path of `source`, with the output file stem given.
pub fn output_path_with_stem(
    source: &str,
    output_dir: Option<&str>,
    format: &FileFormat,
    stem: &str,
    conflict: &ConflictResolution,
) -> (r: ConflictCheck)
    ensures
        ({
            let base = output_base_spec(
                source@,
                match output_dir {
                    Some(d) => Some(d@),
                    None => None,
                },
                *format,
                stem@,
            );
            match *conflict {
                ConflictResolution::Overwrite => r matches ConflictCheck::Done(
                    OutputPathResult::Write(p),
                ) && p@ == base,
                _ => r matches ConflictCheck::Probe { candidate, attempt } && candidate@ == base
                    && attempt == 0,
            }
        }),
{
    let dir = determine_output_dir(source, output_dir, format);
    let mut name = chars_of(stem);
    push_str(&mut name, ".");
    push_str(&mut name, format_extension(format));
    let name_s = string_of(&name);
    let base = join(dir.as_str(), name_s.as_str());
    start_conflict_resolution(base.as_str(), conflict)
}

} // verus!
