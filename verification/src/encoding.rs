//! Character encodings of text files: detecting and decoding input, encoding output.
use vstd::prelude::*;
use vstd::utf8::{decode_utf8, encode_utf8, is_ascii_chars, valid_utf8};
use crate::errors::ConversionError;
use crate::models::TextEncoding;
use crate::strings::{chars_of, push_str, string_of};

verus! {

/// The UTF-8 byte order mark.
pub open spec fn utf8_bom() -> Seq<u8> {
    seq![0xEFu8, 0xBBu8, 0xBFu8]
}

/// The bytes without a leading UTF-8 byte order mark.
pub open spec fn strip_bom_spec(b: Seq<u8>) -> Seq<u8> {
    if b.len() >= 3 && b.take(3) == utf8_bom() {
        b.skip(3)
    } else {
        b
    }
}

/// Drops a leading UTF-8 byte order mark (see `strip_bom_spec`).
pub fn strip_bom(bytes: &[u8]) -> (r: &[u8])
    ensures
        r@ == strip_bom_spec(bytes@),
{
    let n = bytes.len();
    if n >= 3 && bytes[0] == 0xEFu8 && bytes[1] == 0xBBu8 && bytes[2] == 0xBFu8 {
        assert(bytes@.take(3) =~= utf8_bom());
        let r = vstd::slice::slice_subrange(bytes, 3, n);
        assert(r@ =~= bytes@.skip(3));
        r
    } else {
        proof {
            if n >= 3 && bytes@.take(3) == utf8_bom() {
                assert(bytes@[0] == bytes@.take(3)[0]);
                assert(bytes@[1] == bytes@.take(3)[1]);
                assert(bytes@[2] == bytes@.take(3)[2]);
            }
        }
        bytes
    }
}

/// The name (as encoding_rs gives it) of the encoding that chardetng guesses for `data`.
pub uninterp spec fn guessed_encoding_name(data: Seq<u8>) -> Seq<char>;

/// What encoding_rs makes of `data` in the encoding named `name`: the text and whether
/// malformed input was replaced; `None` when encoding_rs knows no encoding by that name.
pub uninterp spec fn decoded_with(name: Seq<char>, data: Seq<u8>) -> Option<(Seq<char>, bool)>;

/// chardetng's guess of the encoding of `data`: an `EncodingDetector` fed the whole input
/// and asked without a domain hint, UTF-8 allowed; the guess is handed back as its
/// `Encoding::name`, which names one encoding of encoding_rs.
#[verifier::external_body]
fn guess_encoding(data: &[u8]) -> (name: &'static str)
    ensures
        name@ == guessed_encoding_name(data@),
{
    let mut detector = chardetng::EncodingDetector::new();
    detector.feed(data, true);
    detector.guess(None, true).name()
}

/// Decodes `data` with encoding_rs's `Encoding::decode` in the encoding that
/// `Encoding::for_label` finds for `name`. Every name that chardetng guesses is the name of
/// such an encoding and finds it again. The label `UTF-8` names encoding_rs's UTF-8, whose
/// decoding hands back valid UTF-8 unchanged and without errors once no byte order mark
/// leads it (a leading mark would be taken off).
#[verifier::external_body]
fn decode_with(name: &str, data: &[u8]) -> (r: Option<(String, bool)>)
    ensures
        match r {
            Some((text, had_errors)) => decoded_with(name@, data@) == Some((text@, had_errors)),
            None => decoded_with(name@, data@) is None,
        },
        (name@ == "UTF-8"@ && valid_utf8(data@) && strip_bom_spec(data@) == data@) ==> (r is Some
            && r->Some_0.0@ == decode_utf8(data@) && !r->Some_0.1),
{
    match encoding_rs::Encoding::for_label(name.as_bytes()) {
        Some(encoding) => {
            let (text, _, had_errors) = encoding.decode(data);
            Some((text.into_owned(), had_errors))
        },
        None => None,
    }
}

/// What decoding a file's bytes gives: the text, or the name of the guessed encoding when
/// the bytes are malformed in it (or no encoding bears that name). A leading UTF-8 byte
/// order mark is dropped first.
pub open spec fn decoding_spec(bytes: Seq<u8>) -> Result<Seq<char>, Seq<char>> {
    let data = strip_bom_spec(bytes);
    let name = guessed_encoding_name(data);
    match decoded_with(name, data) {
        Some((text, false)) => Ok(text),
        _ => Err(name),
    }
}

/// The message of a failed decoding with the named encoding.
pub open spec fn decode_failure_text(name: Seq<char>) -> Seq<char> {
    "エンコーディング '"@ + name + "' でのデコード中にエラーが発生しました"@
}

/// What a decoding gives: its text, or, where malformed input was met, a decoding error
/// that names the encoding (the file name is filled in by the caller).
pub fn decoded_outcome(text: String, had_errors: bool, name: &str) -> (r: Result<
    String,
    ConversionError,
>)
    ensures
        had_errors ==> (r matches Err(ConversionError::DecodeError { file_name, detail })
            && file_name@ == Seq::<char>::empty() && detail@ == decode_failure_text(name@)),
        !had_errors ==> (r matches Ok(s) && s@ == text@),
{
    if had_errors {
        let mut d = chars_of("エンコーディング '");
        push_str(&mut d, name);
        push_str(&mut d, "' でのデコード中にエラーが発生しました");
        Err(ConversionError::DecodeError { file_name: String::new(), detail: string_of(&d) })
    } else {
        Ok(text)
    }
}

/// Decodes a file's bytes (see `decoding_spec`): a leading UTF-8 byte order mark is
/// dropped, the encoding of the rest is guessed and the rest decoded with it; malformed
/// input gives a decoding error naming that encoding (the file name is filled in by the
/// caller).
pub fn detect_and_decode(bytes: &[u8]) -> (r: Result<String, ConversionError>)
    ensures
        match decoding_spec(bytes@) {
            Ok(text) => r matches Ok(s) && s@ == text,
            Err(name) => r matches Err(ConversionError::DecodeError { file_name, detail })
                && file_name@ == Seq::<char>::empty() && detail@ == decode_failure_text(name),
        },
        ({
            let data = strip_bom_spec(bytes@);
            guessed_encoding_name(data) == "UTF-8"@ && valid_utf8(data) && strip_bom_spec(data)
                == data
        }) ==> (r matches Ok(s) && s@ == decode_utf8(strip_bom_spec(bytes@))),
{
    let data = strip_bom(bytes);
    let name = guess_encoding(data);
    match decode_with(name, data) {
        Some((text, had_errors)) => decoded_outcome(text, had_errors, name),
        None => decoded_outcome(String::new(), true, name),
    }
}

/// What encoding_rs's `SHIFT_JIS.encode` makes of a text: its bytes, and whether a
/// character could not be mapped.
pub uninterp spec fn shift_jis_encoding(s: Seq<char>) -> (Seq<u8>, bool);

/// What encoding_rs's `EUC_JP.encode` makes of a text: its bytes, and whether a character
/// could not be mapped.
pub uninterp spec fn euc_jp_encoding(s: Seq<char>) -> (Seq<u8>, bool);

/// Encodes `content` as Shift_JIS with encoding_rs. For text made only of ASCII characters
/// the source hands back the UTF-8 bytes unchanged, without errors.
#[verifier::external_body]
fn encode_shift_jis(content: &str) -> (r: (Vec<u8>, bool))
    ensures
        (r.0@, r.1) == shift_jis_encoding(content@),
        is_ascii_chars(content@) ==> r.0@ == encode_utf8(content@) && !r.1,
{
    let (bytes, _, had_errors) = encoding_rs::SHIFT_JIS.encode(content);
    (bytes.into_owned(), had_errors)
}

/// Encodes `content` as EUC-JP with encoding_rs. For text made only of ASCII characters the
/// source hands back the UTF-8 bytes unchanged, without errors.
#[verifier::external_body]
fn encode_euc_jp(content: &str) -> (r: (Vec<u8>, bool))
    ensures
        (r.0@, r.1) == euc_jp_encoding(content@),
        is_ascii_chars(content@) ==> r.0@ == encode_utf8(content@) && !r.1,
{
    let (bytes, _, had_errors) = encoding_rs::EUC_JP.encode(content);
    (bytes.into_owned(), had_errors)
}

/// The bytes of a text in an encoding: its UTF-8 bytes, or the encoder's output, which
/// fails where a character cannot be mapped.
pub open spec fn encoded_spec(s: Seq<char>, e: TextEncoding) -> Option<Seq<u8>> {
    match e {
        TextEncoding::Utf8 => Some(encode_utf8(s)),
        TextEncoding::ShiftJis => if shift_jis_encoding(s).1 {
            None
        } else {
            Some(shift_jis_encoding(s).0)
        },
        TextEncoding::EucJp => if euc_jp_encoding(s).1 {
            None
        } else {
            Some(euc_jp_encoding(s).0)
        },
    }
}

/// The message of a failed encoding.
pub open spec fn encode_failure_text(e: TextEncoding) -> Seq<char> {
    match e {
        TextEncoding::ShiftJis => "Shift_JIS へのエンコード中にエラーが発生しました（変換不能な文字が含まれています）"@,
        _ => "EUC-JP へのエンコード中にエラーが発生しました（変換不能な文字が含まれています）"@,
    }
}

/// Encodes a text (see `encoded_spec`); an unmappable character gives an encoding error
/// (the file name is filled in by the caller).
pub fn encode_string(content: &str, encoding: &TextEncoding) -> (r: Result<Vec<u8>, ConversionError>)
    ensures
        match encoded_spec(content@, *encoding) {
            Some(b) => r matches Ok(v) && v@ == b,
            None => r matches Err(ConversionError::EncodeError { file_name, detail })
                && file_name@ == Seq::<char>::empty() && detail@ == encode_failure_text(*encoding),
        },
        is_ascii_chars(content@) ==> (r matches Ok(v) && v@ == encode_utf8(content@)),
{
    match encoding {
        TextEncoding::Utf8 => Ok(vstd::slice::slice_to_vec(content.as_bytes())),
        TextEncoding::ShiftJis => {
            let (bytes, had_errors) = encode_shift_jis(content);
            if had_errors {
                Err(ConversionError::EncodeError {
                    file_name: String::new(),
                    detail: "Shift_JIS へのエンコード中にエラーが発生しました（変換不能な文字が含まれています）".to_owned(),
                })
            } else {
                Ok(bytes)
            }
        },
        TextEncoding::EucJp => {
            let (bytes, had_errors) = encode_euc_jp(content);
            if had_errors {
                Err(ConversionError::EncodeError {
                    file_name: String::new(),
                    detail: "EUC-JP へのエンコード中にエラーが発生しました（変換不能な文字が含まれています）".to_owned(),
                })
            } else {
                Ok(bytes)
            }
        },
    }
}

} // verus!
