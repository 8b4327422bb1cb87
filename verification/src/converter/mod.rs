//! Converters between file formats, and the engine that picks one for a format pair.
pub mod image;
pub mod markdown;
pub mod pixels;
pub mod serde_text;
pub mod xml_json;
pub mod tabular;
pub mod text;
pub mod text_pipeline;
pub mod xml;

use vstd::prelude::*;
use crate::models::FileFormat;
use self::image::{image_can_convert_spec, ImageConverter};
use self::text::{text_can_convert_spec, TextConverter};

verus! {

/// A converter between some formats.
pub trait Converter {
    /// The formats it reads.
    spec fn input_formats_spec(&self) -> Seq<FileFormat>;

    /// The formats it writes.
    spec fn output_formats_spec(&self) -> Seq<FileFormat>;

    /// The pairs it converts.
    spec fn can_convert_spec(&self, from: FileFormat, to: FileFormat) -> bool;

    /// The formats it reads.
    fn supported_input_formats(&self) -> (v: Vec<FileFormat>)
        ensures
            v@ == self.input_formats_spec(),
    ;

    /// The formats it writes.
    fn supported_output_formats(&self) -> (v: Vec<FileFormat>)
        ensures
            v@ == self.output_formats_spec(),
    ;

    /// Whether it converts `from` into `to`.
    fn can_convert(&self, from: &FileFormat, to: &FileFormat) -> (r: bool)
        ensures
            r == self.can_convert_spec(*from, *to),
    ;
}

/// The `{:?}` name of a format (`Png`, `PlainText`, ...).
pub open spec fn format_debug_spec(f: FileFormat) -> Seq<char> {
    match f {
        FileFormat::Png => "Png"@,
        FileFormat::Jpeg => "Jpeg"@,
        FileFormat::Webp => "Webp"@,
        FileFormat::Gif => "Gif"@,
        FileFormat::Bmp => "Bmp"@,
        FileFormat::Tiff => "Tiff"@,
        FileFormat::Avif => "Avif"@,
        FileFormat::Ico => "Ico"@,
        FileFormat::Json => "Json"@,
        FileFormat::Yaml => "Yaml"@,
        FileFormat::Toml => "Toml"@,
        FileFormat::Xml => "Xml"@,
        FileFormat::Csv => "Csv"@,
        FileFormat::Markdown => "Markdown"@,
        FileFormat::PlainText => "PlainText"@,
    }
}

/// The `{:?}` name of a format.
pub fn format_debug_name(f: &FileFormat) -> (r: &'static str)
    ensures
        r@ == format_debug_spec(*f),
{
    match f {
        FileFormat::Png => "Png",
        FileFormat::Jpeg => "Jpeg",
        FileFormat::Webp => "Webp",
        FileFormat::Gif => "Gif",
        FileFormat::Bmp => "Bmp",
        FileFormat::Tiff => "Tiff",
        FileFormat::Avif => "Avif",
        FileFormat::Ico => "Ico",
        FileFormat::Json => "Json",
        FileFormat::Yaml => "Yaml",
        FileFormat::Toml => "Toml",
        FileFormat::Xml => "Xml",
        FileFormat::Csv => "Csv",
        FileFormat::Markdown => "Markdown",
        FileFormat::PlainText => "PlainText",
    }
}

/// The converters known to the engine.
#[derive(Clone, Copy, Debug, PartialEq, Eq, Structural)]
pub enum ConverterKind {
    Image,
    Text,
}

/// Whether a converter of this kind converts `from` into `to`.
pub open spec fn kind_can_convert(k: ConverterKind, from: FileFormat, to: FileFormat) -> bool {
    match k {
        ConverterKind::Image => image_can_convert_spec(from, to),
        ConverterKind::Text => text_can_convert_spec(from, to),
    }
}

/// The converter that runs a conversion: the image converter when both formats are image
/// formats, the text converter otherwise.
pub fn converter_for_pair(from: &FileFormat, to: &FileFormat) -> (k: ConverterKind)
    ensures
        k == (if crate::converter::image::is_image_format_spec(*from)
            && crate::converter::image::is_image_format_spec(*to) {
            ConverterKind::Image
        } else {
            ConverterKind::Text
        }),
{
    if crate::converter::image::is_image_format(from) && crate::converter::image::is_image_format(to) {
        ConverterKind::Image
    } else {
        ConverterKind::Text
    }
}

/// The first converter in `ks` that converts `from` into `to`.
pub open spec fn first_converter(ks: Seq<ConverterKind>, from: FileFormat, to: FileFormat) -> Option<
    ConverterKind,
>
    decreases ks.len(),
{
    if ks.len() == 0 {
        None
    } else if kind_can_convert(ks[0], from, to) {
        Some(ks[0])
    } else {
        first_converter(ks.drop_first(), from, to)
    }
}

#[verifier::external_type_specification]
#[verifier::external_body]
pub struct ExCancellationToken(tokio_util::sync::CancellationToken);

/// A new token (tokio-util's `CancellationToken::new`): a node of its own, so it is not
/// `other`, the token it is to replace, nor any clone of that token.
#[verifier::external_body]
fn new_token(other: Option<&tokio_util::sync::CancellationToken>) -> (t: tokio_util::sync::CancellationToken)
    ensures
        other matches Some(o) ==> t != *o,
{
    tokio_util::sync::CancellationToken::new()
}

/// Cancels the token and every clone of it (tokio-util's `CancellationToken::cancel`).
#[verifier::external_body]
fn cancel_token_now(t: &tokio_util::sync::CancellationToken) {
    t.cancel()
}

/// Whether the token has been cancelled through any of its clones (tokio-util's
/// `CancellationToken::is_cancelled`). The answer depends on calls made through other clones,
/// possibly by other threads, so nothing is stated of it.
#[verifier::external_body]
fn token_is_cancelled(t: &tokio_util::sync::CancellationToken) -> bool {
    t.is_cancelled()
}

/// Whether `child` follows the cancellation of `parent`: `child` is cancelled whenever
/// `parent` is, and cancelling `child` leaves `parent` as it was. This is not the tree link
/// itself: a child of a token that is already cancelled is made cancelled, with no link.
pub uninterp spec fn follows_cancellation(child: tokio_util::sync::CancellationToken, parent: tokio_util::sync::CancellationToken) -> bool;

/// A child of the token (tokio-util's `CancellationToken::child_token`): a new node, so it
/// is not the token itself, and one that follows the token's cancellation. The crate's
/// source registers it below the token, whose `cancel` walks down to it and never up; where
/// the token is already cancelled, the child is made cancelled.
#[verifier::external_body]
fn child_token(t: &tokio_util::sync::CancellationToken) -> (r: tokio_util::sync::CancellationToken)
    ensures
        r != *t,
        follows_cancellation(r, *t),
{
    t.child_token()
}

/// Holds the converters, picks one for a format pair, and carries the cancellation token of
/// the running batch.
pub struct ConversionEngine {
    converters: Vec<ConverterKind>,
    cancel_token: tokio_util::sync::CancellationToken,
}

impl ConversionEngine {
    /// The converters, in the order they are asked.
    pub closed spec fn kinds(&self) -> Seq<ConverterKind> {
        self.converters@
    }

    /// An engine with the image converter and then the text converter.
    pub fn new() -> (e: Self)
        ensures
            e.kinds() == seq![ConverterKind::Image, ConverterKind::Text],
    {
        let converters = vec![ConverterKind::Image, ConverterKind::Text];
        assert(converters@ =~= seq![ConverterKind::Image, ConverterKind::Text]);
        ConversionEngine { converters, cancel_token: new_token(None) }
    }

    /// The first converter that converts `from` into `to`.
    pub fn find_converter(&self, from: &FileFormat, to: &FileFormat) -> (r: Option<ConverterKind>)
        ensures
            r == first_converter(self.kinds(), *from, *to),
    {
        let mut i: usize = 0;
        assert(self.converters@.skip(0) =~= self.converters@);
        while i < self.converters.len()
            invariant
                i <= self.converters@.len(),
                first_converter(self.converters@, *from, *to) == first_converter(
                    self.converters@.skip(i as int),
                    *from,
                    *to,
                ),
            decreases self.converters@.len() - i,
        {
            assert(self.converters@.skip(i as int)[0] == self.converters@[i as int]);
            assert(self.converters@.skip(i as int).drop_first() =~= self.converters@.skip(i + 1));
            let k = self.converters[i];
            let ok = match k {
                ConverterKind::Image => ImageConverter.can_convert(from, to),
                ConverterKind::Text => TextConverter.can_convert(from, to),
            };
            if ok {
                return Some(k);
            }
            i = i + 1;
        }
        None
    }

    /// Whether some converter converts `from` into `to`.
    pub fn can_convert(&self, from: &FileFormat, to: &FileFormat) -> (r: bool)
        ensures
            r == first_converter(self.kinds(), *from, *to) is Some,
    {
        self.find_converter(from, to).is_some()
    }

    /// The cancellation token of the running batch.
    pub closed spec fn token(&self) -> tokio_util::sync::CancellationToken {
        self.cancel_token
    }

    /// A child of the cancellation token: a token of its own, cancelled when the engine's
    /// token is, whose own cancellation does not reach the engine.
    pub fn cancel_token(&self) -> (t: tokio_util::sync::CancellationToken)
        ensures
            t != self.token(),
            follows_cancellation(t, self.token()),
    {
        child_token(&self.cancel_token)
    }

    /// Requests cancellation of the running batch.
    pub fn cancel(&self) {
        cancel_token_now(&self.cancel_token)
    }

    /// Replaces the token by a new one before a new batch: the old token, and every clone
    /// of it handed out, no longer belongs to the engine.
    pub fn reset_cancel(&mut self)
        ensures
            final(self).kinds() == old(self).kinds(),
            final(self).token() != old(self).token(),
    {
        self.cancel_token = new_token(Some(&self.cancel_token));
    }

    /// Whether cancellation has been requested.
    pub fn is_cancelled(&self) -> bool {
        token_is_cancelled(&self.cancel_token)
    }

    /// The converters, in the order they are asked.
    pub fn converters(&self) -> (v: &Vec<ConverterKind>)
        ensures
            v@ == self.kinds(),
    {
        &self.converters
    }
}

impl Default for ConversionEngine {
    /// An engine with the image converter and then the text converter.
    fn default() -> (e: Self)
        ensures
            e.kinds() == seq![ConverterKind::Image, ConverterKind::Text],
    {
        ConversionEngine::new()
    }
}

/// The engine hands image pairs to the image converter and text pairs to the text
/// converter, and no converter takes a pair that mixes an image format with a text format.
pub proof fn law_engine_routes_by_family(from: FileFormat, to: FileFormat)
    ensures
        image_can_convert_spec(from, to) ==> first_converter(
            seq![ConverterKind::Image, ConverterKind::Text],
            from,
            to,
        ) == Some(ConverterKind::Image),
        text_can_convert_spec(from, to) ==> first_converter(
            seq![ConverterKind::Image, ConverterKind::Text],
            from,
            to,
        ) == Some(ConverterKind::Text),
        (crate::converter::image::is_image_format_spec(from) != crate::converter::image::is_image_format_spec(to))
            ==> first_converter(seq![ConverterKind::Image, ConverterKind::Text], from, to) is None,
{
    let ks = seq![ConverterKind::Image, ConverterKind::Text];
    assert(ks.drop_first() == seq![ConverterKind::Text]);
    assert(ks.drop_first().drop_first() == Seq::<ConverterKind>::empty());
    reveal_with_fuel(first_converter, 3);
}

} // verus!
