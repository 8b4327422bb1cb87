//! Conversion errors, their message texts, their translation keys and parameters.
use vstd::prelude::*;
use crate::strings::{
    chars_of, decimal, decimal_exec, decimal_string, push_all, push_str, str_eq, string_of,
};

verus! {

/// An error raised while converting files.
#[derive(Clone, Debug)]
pub enum ConversionError {
    FileReadError { file_name: String, detail: String },
    DecodeError { file_name: String, detail: String },
    EncodeError { file_name: String, detail: String },
    ParseError { file_name: String, line: Option<u32>, detail: String },
    ValidationError { detail: String },
    DiskSpaceError { required_bytes: u64, available_bytes: u64 },
    PermissionError { path: String },
    FileSizeLimitError { file_name: String, size_mb: u64, limit_mb: u64 },
    UnsupportedConversion { from: String, to: String },
    Cancelled,
    FileWriteError { file_name: String, detail: String },
    DirectoryCreateError { path: String, detail: String },
}

/// The translation key of each kind of error.
pub open spec fn error_key_spec(e: ConversionError) -> Seq<char> {
    match e {
        ConversionError::FileReadError { .. } => "errors.fileRead"@,
        ConversionError::DecodeError { .. } => "errors.decode"@,
        ConversionError::EncodeError { .. } => "errors.encode"@,
        ConversionError::ParseError { .. } => "errors.parseError"@,
        ConversionError::ValidationError { .. } => "errors.validation"@,
        ConversionError::DiskSpaceError { .. } => "errors.diskSpace"@,
        ConversionError::PermissionError { .. } => "errors.permission"@,
        ConversionError::FileSizeLimitError { .. } => "errors.fileSize"@,
        ConversionError::UnsupportedConversion { .. } => "errors.unsupported"@,
        ConversionError::Cancelled => "errors.cancelled"@,
        ConversionError::FileWriteError { .. } => "errors.fileWrite"@,
        ConversionError::DirectoryCreateError { .. } => "errors.directoryCreate"@,
    }
}

/// `{:?}` of an optional line number: `Some(42)` or `None`.
pub open spec fn debug_line(line: Option<u32>) -> Seq<char> {
    match line {
        Some(l) => "Some("@ + decimal(l as nat) + ")"@,
        None => "None"@,
    }
}

/// The message shown for an error.
pub open spec fn error_message_spec(e: ConversionError) -> Seq<char> {
    match e {
        ConversionError::FileReadError { file_name, detail } => "ファイル読み取りエラー: "@
            + file_name@ + " - "@ + detail@,
        ConversionError::DecodeError { file_name, detail } => "デコードエラー: "@ + file_name@
            + " - "@ + detail@,
        ConversionError::EncodeError { file_name, detail } => "エンコードエラー: "@ + file_name@
            + " - "@ + detail@,
        ConversionError::ParseError { file_name, line, detail } => "パースエラー: "@ + file_name@
            + " 行"@ + debug_line(line) + " - "@ + detail@,
        ConversionError::ValidationError { detail } => "バリデーションエラー: "@ + detail@,
        ConversionError::DiskSpaceError { required_bytes, available_bytes } => "ディスク容量不足: 必要="@
            + decimal(required_bytes as nat) + ", 空き="@ + decimal(available_bytes as nat),
        ConversionError::PermissionError { path } => "権限エラー: "@ + path@,
        ConversionError::FileSizeLimitError { file_name, size_mb, limit_mb } => "ファイルサイズ超過: "@
            + file_name@ + " ("@ + decimal(size_mb as nat) + "MB > "@ + decimal(limit_mb as nat)
            + "MB)"@,
        ConversionError::UnsupportedConversion { from, to } => "非対応変換ペア: "@ + from@ + " → "@
            + to@,
        ConversionError::Cancelled => "キャンセルされました"@,
        ConversionError::FileWriteError { file_name, detail } => "ファイル書き込みエラー: "@
            + file_name@ + " - "@ + detail@,
        ConversionError::DirectoryCreateError { path, detail } => "フォルダ作成失敗: "@ + path@
            + " - "@ + detail@,
    }
}

// ---------------------------------------------------------------------------
// Byte counts
// ---------------------------------------------------------------------------

/// `n / d` rounded to the nearest integer, ties to the even one.
pub open spec fn div_round_even(n: nat, d: nat) -> nat
    recommends
        d > 0,
{
    let q = n / d;
    let r = n % d;
    if 2 * r > d || (2 * r == d && q % 2 == 1) {
        q + 1
    } else {
        q
    }
}

/// The power of two by which `b` must be divided to fit a 53-bit significand.
pub open spec fn excess_scale(b: nat) -> nat
    decreases b,
{
    if b < 9007199254740992 {
        1
    } else {
        2 * excess_scale(b / 2)
    }
}

/// The value of `b as f64`: `b` rounded to 53 significant bits, ties to even.
pub open spec fn as_f64_value(b: nat) -> nat {
    let d = excess_scale(b);
    div_round_even(b, d) * d
}

/// `{:.1}` of `v / unit`: the quotient rounded to one decimal, ties to even.
pub open spec fn one_decimal(v: nat, unit: nat) -> Seq<char> {
    let t = div_round_even(v * 10, unit);
    decimal(t / 10) + "."@ + decimal(t % 10)
}

/// A byte count as people read it: `500B`, `1.5KB`, `2.0MB`, `1.0GB`.
pub open spec fn format_bytes_spec(bytes: u64) -> Seq<char> {
    let v = as_f64_value(bytes as nat);
    if bytes >= 1_073_741_824 {
        one_decimal(v, 1_073_741_824) + "GB"@
    } else if bytes >= 1_048_576 {
        one_decimal(v, 1_048_576) + "MB"@
    } else if bytes >= 1_024 {
        one_decimal(v, 1_024) + "KB"@
    } else {
        decimal(bytes as nat) + "B"@
    }
}

/// `excess_scale` is positive.
proof fn lemma_excess_scale_pos(b: nat)
    ensures
        excess_scale(b) >= 1,
    decreases b,
{
    if b >= 9007199254740992 {
        lemma_excess_scale_pos(b / 2);
    }
}

/// The exact rounding done by `b as f64`, computed in integers.
fn as_f64_value_exec(b: u64) -> (r: u128)
    ensures
        r as nat == as_f64_value(b as nat),
        r <= 0x1_0000_0000_0000_0000 + 4096,
{
    let mut p: u128 = 1;
    let mut q: u64 = b;
    while q >= 9007199254740992
        invariant
            1 <= p,
            p * 9007199254740992 <= 2 * (b as nat) + 9007199254740992,
            q as nat == (b as nat) / (p as nat),
            excess_scale(b as nat) == p * excess_scale(q as nat),
        decreases q,
    {
        proof {
            vstd::arithmetic::div_mod::lemma_div_denominator(b as int, p as int, 2);
            vstd::arithmetic::div_mod::lemma_fundamental_div_mod(b as int, p as int);
            assert(p * q <= b) by (nonlinear_arith)
                requires q == (b as nat) / (p as nat), p >= 1,
                    b as int == p * ((b as nat) / (p as nat)) + (b as nat) % (p as nat),
                    (b as nat) % (p as nat) >= 0;
            assert(p * 9007199254740992 <= b) by (nonlinear_arith)
                requires p * q <= b, q >= 9007199254740992, p >= 1;
            let e = excess_scale((q / 2) as nat);
            assert(excess_scale(q as nat) == 2 * e);
            assert(p * (2 * e) == (2 * p) * e) by (nonlinear_arith);
        }
        q = q / 2;
        p = p * 2;
    }
    proof {
        lemma_excess_scale_pos(b as nat);
        vstd::arithmetic::div_mod::lemma_fundamental_div_mod(b as int, p as int);
        assert(p * q <= b) by (nonlinear_arith)
            requires q == (b as nat) / (p as nat), p >= 1,
                b as int == p * ((b as nat) / (p as nat)) + (b as nat) % (p as nat),
                (b as nat) % (p as nat) >= 0;
    }
    let r = b as u128 % p;
    let mut rounded: u128 = q as u128;
    if 2 * r > p || (2 * r == p && q % 2 == 1) {
        rounded = rounded + 1;
    }
    assert(excess_scale(q as nat) == 1);
    assert(p * excess_scale(q as nat) == excess_scale(b as nat));
    assert(p * 1 == p);
    assert(excess_scale(b as nat) == p);
    assert(rounded == div_round_even(b as nat, p as nat));
    proof {
        assert(p < 4 * 9007199254740992 / 2);
        assert(rounded * p <= 0x1_0000_0000_0000_0000 + 4096) by (nonlinear_arith)
            requires rounded <= q + 1, p * q <= b, b < 0x1_0000_0000_0000_0000,
                p * 9007199254740992 <= 2 * (b as nat) + 9007199254740992;
    }
    rounded * p
}

/// `{:.1}` of `v / unit`, in characters.
fn one_decimal_exec(v: u128, unit: u128) -> (r: Vec<char>)
    requires
        1024 <= unit <= 1_073_741_824,
        v <= 0x1_0000_0000_0000_0000 + 4096,
    ensures
        r@ == one_decimal(v as nat, unit as nat),
{
    let n = v * 10;
    let q = n / unit;
    let rem = n % unit;
    let t: u128 = if 2 * rem > unit || (2 * rem == unit && q % 2 == 1) {
        q + 1
    } else {
        q
    };
    proof {
        vstd::arithmetic::div_mod::lemma_div_is_ordered_by_denominator(n as int, 1024, unit as int);
        assert(n / 1024 < 0x1000_0000_0000_0000);
    }
    let whole = t / 10;
    let frac = t % 10;
    let mut out = decimal_exec(whole as u64);
    out.push('.');
    let f = decimal_exec(frac as u64);
    push_all(&mut out, &f);
    proof {
        reveal_strlit(".");
        assert(out@ =~= decimal(t as nat / 10) + "."@ + decimal(t as nat % 10));
    }
    out
}

/// Formats a byte count for people: whole bytes below 1 KiB, otherwise KB, MB or GB with one
/// decimal, rounded as `{:.1}` rounds `bytes as f64 / unit`.
pub fn format_bytes(bytes: u64) -> (s: String)
    ensures
        s@ == format_bytes_spec(bytes),
{
    let v = as_f64_value_exec(bytes);
    let mut out: Vec<char>;
    if bytes >= 1_073_741_824 {
        out = one_decimal_exec(v, 1_073_741_824);
        push_str(&mut out, "GB");
    } else if bytes >= 1_048_576 {
        out = one_decimal_exec(v, 1_048_576);
        push_str(&mut out, "MB");
    } else if bytes >= 1_024 {
        out = one_decimal_exec(v, 1_024);
        push_str(&mut out, "KB");
    } else {
        out = decimal_exec(bytes);
        push_str(&mut out, "B");
    }
    string_of(&out)
}


// ---------------------------------------------------------------------------
// Translation parameters
// ---------------------------------------------------------------------------

/// Named parameters of a translated error message, in insertion order; no key occurs twice.
#[derive(Clone, Debug)]
pub struct ErrorParams {
    pub entries: Vec<(String, String)>,
}

impl View for ErrorParams {
    type V = Seq<(Seq<char>, Seq<char>)>;

    open spec fn view(&self) -> Seq<(Seq<char>, Seq<char>)> {
        self.entries@.map_values(|p: (String, String)| (p.0@, p.1@))
    }
}

/// The value of the first entry whose key is `key`.
pub open spec fn lookup(ps: Seq<(Seq<char>, Seq<char>)>, key: Seq<char>) -> Option<Seq<char>>
    decreases ps.len(),
{
    if ps.len() == 0 {
        None
    } else if ps[0].0 == key {
        Some(ps[0].1)
    } else {
        lookup(ps.drop_first(), key)
    }
}

/// Whether no two entries share a key.
pub open spec fn keys_distinct(ps: Seq<(Seq<char>, Seq<char>)>) -> bool {
    forall|i: int, j: int| 0 <= i < j < ps.len() ==> #[trigger] ps[i].0 != #[trigger] ps[j].0
}

impl ErrorParams {
    /// The parameters form a map: no key occurs twice.
    pub open spec fn wf(&self) -> bool {
        keys_distinct(self@)
    }

    /// The value stored under `key`, if any.
    pub fn get(&self, key: &str) -> (r: Option<&String>)
        ensures
            match r {
                Some(v) => lookup(self@, key@) == Some(v@),
                None => lookup(self@, key@) is None,
            },
    {
        let mut i: usize = 0;
        assert(self@.skip(0) =~= self@);
        while i < self.entries.len()
            invariant
                i <= self@.len(),
                self@.len() == self.entries@.len(),
                lookup(self@, key@) == lookup(self@.skip(i as int), key@),
            decreases self@.len() - i,
        {
            assert(self@.skip(i as int)[0] == self@[i as int]);
            assert(self@.skip(i as int).drop_first() =~= self@.skip(i + 1));
            if str_eq(self.entries[i].0.as_str(), key) {
                return Some(&self.entries[i].1);
            }
            i = i + 1;
        }
        None
    }

    /// Number of parameters.
    pub fn len(&self) -> (n: usize)
        ensures
            n == self@.len(),
    {
        self.entries.len()
    }
}

/// The parameters of each kind of error, in the order they are inserted.
pub open spec fn error_params_spec(e: ConversionError) -> Seq<(Seq<char>, Seq<char>)> {
    match e {
        ConversionError::FileReadError { file_name, detail } => seq![
            ("fileName"@, file_name@),
            ("detail"@, detail@),
        ],
        ConversionError::DecodeError { file_name, detail } => seq![
            ("fileName"@, file_name@),
            ("detail"@, detail@),
        ],
        ConversionError::EncodeError { file_name, detail } => seq![
            ("fileName"@, file_name@),
            ("detail"@, detail@),
        ],
        ConversionError::ParseError { file_name, line, detail } => seq![
            ("fileName"@, file_name@),
            ("line"@, match line { Some(l) => decimal(l as nat), None => Seq::empty() }),
            ("detail"@, detail@),
        ],
        ConversionError::ValidationError { detail } => seq![("detail"@, detail@)],
        ConversionError::DiskSpaceError { required_bytes, available_bytes } => seq![
            ("required"@, format_bytes_spec(required_bytes)),
            ("available"@, format_bytes_spec(available_bytes)),
        ],
        ConversionError::PermissionError { path } => seq![("path"@, path@)],
        ConversionError::FileSizeLimitError { file_name, size_mb, limit_mb } => seq![
            ("fileName"@, file_name@),
            ("size"@, decimal(size_mb as nat)),
            ("limit"@, decimal(limit_mb as nat)),
        ],
        ConversionError::UnsupportedConversion { from, to } => seq![
            ("from"@, from@),
            ("to"@, to@),
        ],
        ConversionError::Cancelled => seq![],
        ConversionError::FileWriteError { file_name, detail } => seq![
            ("fileName"@, file_name@),
            ("detail"@, detail@),
        ],
        ConversionError::DirectoryCreateError { path, detail } => seq![
            ("path"@, path@),
            ("detail"@, detail@),
        ],
    }
}

/// The parameters of every error name each key once.
pub proof fn law_error_params_keys_distinct(e: ConversionError)
    ensures
        keys_distinct(error_params_spec(e)),
{
    reveal_strlit("fileName");
    reveal_strlit("detail");
    reveal_strlit("line");
    reveal_strlit("required");
    reveal_strlit("available");
    reveal_strlit("path");
    reveal_strlit("size");
    reveal_strlit("limit");
    reveal_strlit("from");
    reveal_strlit("to");
    assert("fileName"@[0] == 'f' && "detail"@[0] == 'd' && "line"@[0] == 'l');
    assert("required"@[0] == 'r' && "available"@[0] == 'a' && "path"@[0] == 'p');
    assert("size"@[0] == 's' && "limit"@[0] == 'l' && "from"@[0] == 'f' && "to"@[0] == 't');
}

/// A key/value pair of owned strings.
fn pair(k: &str, v: String) -> (r: (String, String))
    ensures
        r.0@ == k@,
        r.1@ == v@,
{
    (k.to_owned(), v)
}

/// A copy of a string.
fn copy_string(s: &String) -> (r: String)
    ensures
        r@ == s@,
{
    s.clone()
}

/// Appends the characters of an owned string.
fn push_string(out: &mut Vec<char>, s: &String)
    ensures
        final(out)@ == old(out)@ + s@,
{
    push_str(out, s.as_str());
}

impl ConversionError {
    /// The translation key of the error (`errors.fileRead`, `errors.diskSpace`, ...).
    pub fn error_key(&self) -> (k: &'static str)
        ensures
            k@ == error_key_spec(*self),
    {
        match self {
            ConversionError::FileReadError { .. } => "errors.fileRead",
            ConversionError::DecodeError { .. } => "errors.decode",
            ConversionError::EncodeError { .. } => "errors.encode",
            ConversionError::ParseError { .. } => "errors.parseError",
            ConversionError::ValidationError { .. } => "errors.validation",
            ConversionError::DiskSpaceError { .. } => "errors.diskSpace",
            ConversionError::PermissionError { .. } => "errors.permission",
            ConversionError::FileSizeLimitError { .. } => "errors.fileSize",
            ConversionError::UnsupportedConversion { .. } => "errors.unsupported",
            ConversionError::Cancelled => "errors.cancelled",
            ConversionError::FileWriteError { .. } => "errors.fileWrite",
            ConversionError::DirectoryCreateError { .. } => "errors.directoryCreate",
        }
    }

    /// The parameters inserted into the translated message.
    pub fn error_params(&self) -> (p: ErrorParams)
        ensures
            p@ == error_params_spec(*self),
            p.wf(),
    {
        proof {
            law_error_params_keys_distinct(*self);
        }
        let mut entries: Vec<(String, String)> = Vec::new();
        match self {
            ConversionError::FileReadError { file_name, detail }
            | ConversionError::DecodeError { file_name, detail }
            | ConversionError::EncodeError { file_name, detail }
            | ConversionError::FileWriteError { file_name, detail } => {
                entries.push(pair("fileName", copy_string(file_name)));
                entries.push(pair("detail", copy_string(detail)));
            },
            ConversionError::ParseError { file_name, line, detail } => {
                entries.push(pair("fileName", copy_string(file_name)));
                let l = match line {
                    Some(l) => decimal_string(*l as u64),
                    None => String::new(),
                };
                entries.push(pair("line", l));
                entries.push(pair("detail", copy_string(detail)));
            },
            ConversionError::ValidationError { detail } => {
                entries.push(pair("detail", copy_string(detail)));
            },
            ConversionError::DiskSpaceError { required_bytes, available_bytes } => {
                entries.push(pair("required", format_bytes(*required_bytes)));
                entries.push(pair("available", format_bytes(*available_bytes)));
            },
            ConversionError::PermissionError { path } => {
                entries.push(pair("path", copy_string(path)));
            },
            ConversionError::FileSizeLimitError { file_name, size_mb, limit_mb } => {
                entries.push(pair("fileName", copy_string(file_name)));
                entries.push(pair("size", decimal_string(*size_mb)));
                entries.push(pair("limit", decimal_string(*limit_mb)));
            },
            ConversionError::UnsupportedConversion { from, to } => {
                entries.push(pair("from", copy_string(from)));
                entries.push(pair("to", copy_string(to)));
            },
            ConversionError::Cancelled => {},
            ConversionError::DirectoryCreateError { path, detail } => {
                entries.push(pair("path", copy_string(path)));
                entries.push(pair("detail", copy_string(detail)));
            },
        }
        let p = ErrorParams { entries };
        assert(p@ =~= error_params_spec(*self));
        p
    }

    /// The message shown to the user for the error.
    pub fn message(&self) -> (m: String)
        ensures
            m@ == error_message_spec(*self),
    {
        let mut out: Vec<char> = Vec::new();
        match self {
            ConversionError::FileReadError { file_name, detail } => {
                push_str(&mut out, "ファイル読み取りエラー: ");
                push_string(&mut out, file_name);
                push_str(&mut out, " - ");
                push_string(&mut out, detail);
            },
            ConversionError::DecodeError { file_name, detail } => {
                push_str(&mut out, "デコードエラー: ");
                push_string(&mut out, file_name);
                push_str(&mut out, " - ");
                push_string(&mut out, detail);
            },
            ConversionError::EncodeError { file_name, detail } => {
                push_str(&mut out, "エンコードエラー: ");
                push_string(&mut out, file_name);
                push_str(&mut out, " - ");
                push_string(&mut out, detail);
            },
            ConversionError::ParseError { file_name, line, detail } => {
                push_str(&mut out, "パースエラー: ");
                push_string(&mut out, file_name);
                push_str(&mut out, " 行");
                match line {
                    Some(l) => {
                        push_str(&mut out, "Some(");
                        let d = decimal_exec(*l as u64);
                        push_all(&mut out, &d);
                        push_str(&mut out, ")");
                    },
                    None => {
                        push_str(&mut out, "None");
                    },
                }
                push_str(&mut out, " - ");
                push_string(&mut out, detail);
            },
            ConversionError::ValidationError { detail } => {
                push_str(&mut out, "バリデーションエラー: ");
                push_string(&mut out, detail);
            },
            ConversionError::DiskSpaceError { required_bytes, available_bytes } => {
                push_str(&mut out, "ディスク容量不足: 必要=");
                let r = decimal_exec(*required_bytes);
                push_all(&mut out, &r);
                push_str(&mut out, ", 空き=");
                let a = decimal_exec(*available_bytes);
                push_all(&mut out, &a);
            },
            ConversionError::PermissionError { path } => {
                push_str(&mut out, "権限エラー: ");
                push_string(&mut out, path);
            },
            ConversionError::FileSizeLimitError { file_name, size_mb, limit_mb } => {
                push_str(&mut out, "ファイルサイズ超過: ");
                push_string(&mut out, file_name);
                push_str(&mut out, " (");
                let a = decimal_exec(*size_mb);
                push_all(&mut out, &a);
                push_str(&mut out, "MB > ");
                let b = decimal_exec(*limit_mb);
                push_all(&mut out, &b);
                push_str(&mut out, "MB)");
            },
            ConversionError::UnsupportedConversion { from, to } => {
                push_str(&mut out, "非対応変換ペア: ");
                push_string(&mut out, from);
                push_str(&mut out, " → ");
                push_string(&mut out, to);
            },
            ConversionError::Cancelled => {
                push_str(&mut out, "キャンセルされました");
            },
            ConversionError::FileWriteError { file_name, detail } => {
                push_str(&mut out, "ファイル書き込みエラー: ");
                push_string(&mut out, file_name);
                push_str(&mut out, " - ");
                push_string(&mut out, detail);
            },
            ConversionError::DirectoryCreateError { path, detail } => {
                push_str(&mut out, "フォルダ作成失敗: ");
                push_string(&mut out, path);
                push_str(&mut out, " - ");
                push_string(&mut out, detail);
            },
        }
        assert(out@ =~= error_message_spec(*self));
        string_of(&out)
    }
}

} // verus!
