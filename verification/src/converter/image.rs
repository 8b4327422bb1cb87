//! Image conversion decisions: supported pairs, output dimensions, quality and encoder checks.
use vstd::prelude::*;
use crate::converter::{format_debug_name, format_debug_spec, Converter};
use crate::errors::ConversionError;
use crate::models::{ConversionOptions, FileFormat, ResizeOptions};
use crate::paths::{extension, path_extension};
use crate::strings::str_eq;
use crate::validator::{lowercase, to_lowercase};

verus! {

/// Converter between the eight image formats.
#[derive(Clone, Copy, Debug)]
pub struct ImageConverter;

/// The image formats, all of which are read and written.
pub open spec fn is_image_format_spec(f: FileFormat) -> bool {
    match f {
        FileFormat::Png | FileFormat::Jpeg | FileFormat::Webp | FileFormat::Gif | FileFormat::Bmp
        | FileFormat::Tiff | FileFormat::Avif | FileFormat::Ico => true,
        _ => false,
    }
}

/// The image formats in the order they are listed.
pub open spec fn image_formats_spec() -> Seq<FileFormat> {
    seq![
        FileFormat::Png,
        FileFormat::Jpeg,
        FileFormat::Webp,
        FileFormat::Gif,
        FileFormat::Bmp,
        FileFormat::Tiff,
        FileFormat::Avif,
        FileFormat::Ico,
    ]
}

/// Any two different image formats can be converted into each other.
pub open spec fn image_can_convert_spec(from: FileFormat, to: FileFormat) -> bool {
    from != to && is_image_format_spec(from) && is_image_format_spec(to)
}

/// Whether a format is an image format.
pub fn is_image_format(format: &FileFormat) -> (r: bool)
    ensures
        r == is_image_format_spec(*format),
{
    match format {
        FileFormat::Png | FileFormat::Jpeg | FileFormat::Webp | FileFormat::Gif | FileFormat::Bmp
        | FileFormat::Tiff | FileFormat::Avif | FileFormat::Ico => true,
        _ => false,
    }
}

/// The image formats, listed.
fn image_formats() -> (v: Vec<FileFormat>)
    ensures
        v@ == image_formats_spec(),
{
    let v = vec![
        FileFormat::Png,
        FileFormat::Jpeg,
        FileFormat::Webp,
        FileFormat::Gif,
        FileFormat::Bmp,
        FileFormat::Tiff,
        FileFormat::Avif,
        FileFormat::Ico,
    ];
    assert(v@ =~= image_formats_spec());
    v
}

impl Default for ImageConverter {
    /// The image converter.
    fn default() -> (c: Self)
        ensures
            c == ImageConverter,
    {
        ImageConverter
    }
}

impl ImageConverter {
    /// A new image converter.
    pub fn new() -> (c: Self) {
        ImageConverter
    }

    /// The image format named by the extension of `path`, ignoring case.
    pub fn detect_format_from_path(path: &str) -> (r: Option<FileFormat>)
        ensures
            r == image_format_from_path_spec(path@),
    {
        match extension(path) {
            Some(e) => {
                let lower = to_lowercase(e.as_str());
                image_format_of_extension(lower.as_str())
            },
            None => None,
        }
    }
}

impl Converter for ImageConverter {
    open spec fn input_formats_spec(&self) -> Seq<FileFormat> {
        image_formats_spec()
    }

    open spec fn output_formats_spec(&self) -> Seq<FileFormat> {
        image_formats_spec()
    }

    open spec fn can_convert_spec(&self, from: FileFormat, to: FileFormat) -> bool {
        image_can_convert_spec(from, to)
    }

    fn supported_input_formats(&self) -> (v: Vec<FileFormat>) {
        image_formats()
    }

    fn supported_output_formats(&self) -> (v: Vec<FileFormat>) {
        image_formats()
    }

    fn can_convert(&self, from: &FileFormat, to: &FileFormat) -> (r: bool) {
        *from != *to && is_image_format(from) && is_image_format(to)
    }
}

/// The image format named by a lowercase extension.
pub open spec fn image_format_of_extension_spec(e: Seq<char>) -> Option<FileFormat> {
    if e == "png"@ {
        Some(FileFormat::Png)
    } else if e == "jpg"@ || e == "jpeg"@ {
        Some(FileFormat::Jpeg)
    } else if e == "webp"@ {
        Some(FileFormat::Webp)
    } else if e == "gif"@ {
        Some(FileFormat::Gif)
    } else if e == "bmp"@ {
        Some(FileFormat::Bmp)
    } else if e == "tiff"@ || e == "tif"@ {
        Some(FileFormat::Tiff)
    } else if e == "avif"@ {
        Some(FileFormat::Avif)
    } else if e == "ico"@ {
        Some(FileFormat::Ico)
    } else {
        None
    }
}

/// The image format of a path, from its lowercased extension.
pub open spec fn image_format_from_path_spec(path: Seq<char>) -> Option<FileFormat> {
    match path_extension(path) {
        Some(e) => image_format_of_extension_spec(lowercase(e)),
        None => None,
    }
}

/// The image format named by a lowercase extension.
fn image_format_of_extension(e: &str) -> (r: Option<FileFormat>)
    ensures
        r == image_format_of_extension_spec(e@),
{
    if str_eq(e, "png") {
        Some(FileFormat::Png)
    } else if str_eq(e, "jpg") || str_eq(e, "jpeg") {
        Some(FileFormat::Jpeg)
    } else if str_eq(e, "webp") {
        Some(FileFormat::Webp)
    } else if str_eq(e, "gif") {
        Some(FileFormat::Gif)
    } else if str_eq(e, "bmp") {
        Some(FileFormat::Bmp)
    } else if str_eq(e, "tiff") || str_eq(e, "tif") {
        Some(FileFormat::Tiff)
    } else if str_eq(e, "avif") {
        Some(FileFormat::Avif)
    } else if str_eq(e, "ico") {
        Some(FileFormat::Ico)
    } else {
        None
    }
}

// ---------------------------------------------------------------------------
// Dimensions
// ---------------------------------------------------------------------------

/// `a * b / c` rounded to the nearest integer, halves rounded up.
pub open spec fn scale_round(a: nat, b: nat, c: nat) -> nat
    recommends
        c > 0,
{
    (2 * a * b + c) / (2 * c)
}

/// The scaled side is the integer nearest to `a * b / c`, halves rounded up: twice the
/// exact product lies within one `c` of twice the rounded one.
pub proof fn law_scaled_side_is_nearest(a: nat, b: nat, c: nat)
    requires
        c > 0,
    ensures
        2 * a * b < 2 * scale_round(a, b, c) * c + c,
        2 * scale_round(a, b, c) * c <= 2 * a * b + c,
{
    let n: int = (2 * a * b + c) as int;
    let d: int = (2 * c) as int;
    let q: int = n / d;
    vstd::arithmetic::div_mod::lemma_fundamental_div_mod(n, d);
    assert(0 <= n % d < d) by {
        vstd::arithmetic::div_mod::lemma_mod_bound(n, d);
    }
    assert(q == scale_round(a, b, c));
    assert(d * q == 2 * q * c) by (nonlinear_arith)
        requires
            d == 2 * c,
    ;
}

/// A value capped at `u32::MAX` (as a saturating cast to `u32` does).
pub open spec fn cap_u32(v: nat) -> nat {
    if v > u32::MAX {
        u32::MAX as nat
    } else {
        v
    }
}

/// The output dimensions for a resize request: both given are taken as they are; one given
/// with the aspect ratio kept scales the other by the same ratio (rounded, at least 1);
/// one given without the aspect ratio keeps the other; none given keeps both.
pub open spec fn resize_dimensions_spec(
    original_width: u32,
    original_height: u32,
    target_width: Option<u32>,
    target_height: Option<u32>,
    maintain_aspect_ratio: bool,
) -> (nat, nat) {
    match (target_width, target_height) {
        (Some(w), Some(h)) => (w as nat, h as nat),
        (Some(w), None) => if maintain_aspect_ratio && original_width > 0 {
            let h = cap_u32(scale_round(original_height as nat, w as nat, original_width as nat));
            (w as nat, if h < 1 { 1 } else { h })
        } else {
            (w as nat, original_height as nat)
        },
        (None, Some(h)) => if maintain_aspect_ratio && original_height > 0 {
            let w = cap_u32(scale_round(original_width as nat, h as nat, original_height as nat));
            (if w < 1 { 1 } else { w }, h as nat)
        } else {
            (original_width as nat, h as nat)
        },
        (None, None) => (original_width as nat, original_height as nat),
    }
}

/// `a * b / c` rounded half up and capped at `u32::MAX`.
fn scale_round_exec(a: u32, b: u32, c: u32) -> (r: u32)
    requires
        c > 0,
    ensures
        r == cap_u32(scale_round(a as nat, b as nat, c as nat)),
{
    assert((a as int) * (b as int) <= 0xffff_ffff * 0xffff_ffff) by (nonlinear_arith)
        requires a <= 0xffff_ffff, b <= 0xffff_ffff;
    assert(2 * (a as int) * (b as int) == 2 * ((a as int) * (b as int))) by (nonlinear_arith);
    let ab: u128 = (a as u128) * (b as u128);
    let num: u128 = 2 * ab + c as u128;
    let den: u128 = 2 * c as u128;
    let q = num / den;
    if q > u32::MAX as u128 {
        u32::MAX
    } else {
        q as u32
    }
}

/// Computes output dimensions for a resize request (see `resize_dimensions_spec`). The ratio
/// is rounded exactly, halves away from zero.
pub fn calculate_resize_dimensions(
    original_width: u32,
    original_height: u32,
    target_width: Option<u32>,
    target_height: Option<u32>,
    maintain_aspect_ratio: bool,
) -> (r: (u32, u32))
    ensures
        (r.0 as nat, r.1 as nat) == resize_dimensions_spec(
            original_width,
            original_height,
            target_width,
            target_height,
            maintain_aspect_ratio,
        ),
{
    match (target_width, target_height) {
        (Some(w), Some(h)) => (w, h),
        (Some(w), None) => {
            if maintain_aspect_ratio && original_width > 0 {
                let h = scale_round_exec(original_height, w, original_width);
                (w, if h < 1 { 1 } else { h })
            } else {
                (w, original_height)
            }
        },
        (None, Some(h)) => {
            if maintain_aspect_ratio && original_height > 0 {
                let w = scale_round_exec(original_width, h, original_height);
                (if w < 1 { 1 } else { w }, h)
            } else {
                (original_width, h)
            }
        },
        (None, None) => (original_width, original_height),
    }
}

/// The largest width or height an image is resized to.
pub const MAX_DIMENSION: u32 = 16383;

/// `v` clamped to `lo..=hi`.
pub open spec fn clamp_spec(v: nat, lo: nat, hi: nat) -> nat {
    if v < lo {
        lo
    } else if v > hi {
        hi
    } else {
        v
    }
}

/// The new size of an image, if it must be resized: the requested dimensions clamped to
/// `1..=16383`, and only when they differ from the current ones.
pub open spec fn resize_target_spec(width: u32, height: u32, resize: Option<ResizeOptions>) -> Option<
    (nat, nat),
> {
    match resize {
        None => None,
        Some(r) => {
            let d = resize_dimensions_spec(
                width,
                height,
                r.width,
                r.height,
                r.maintain_aspect_ratio,
            );
            let w = clamp_spec(d.0, 1, 16383);
            let h = clamp_spec(d.1, 1, 16383);
            if w != width || h != height {
                Some((w, h))
            } else {
                None
            }
        },
    }
}

/// Decides whether and to what size an image of `width` x `height` is resized.
pub fn resize_target(width: u32, height: u32, resize: &Option<ResizeOptions>) -> (r: Option<
    (u32, u32),
>)
    ensures
        match r {
            Some((w, h)) => resize_target_spec(width, height, *resize) == Some((w as nat, h as nat)),
            None => resize_target_spec(width, height, *resize) is None,
        },
{
    match resize {
        None => None,
        Some(opts) => {
            let (w, h) = calculate_resize_dimensions(
                width,
                height,
                opts.width,
                opts.height,
                opts.maintain_aspect_ratio,
            );
            let w = if w < 1 {
                1
            } else if w > MAX_DIMENSION {
                MAX_DIMENSION
            } else {
                w
            };
            let h = if h < 1 {
                1
            } else if h > MAX_DIMENSION {
                MAX_DIMENSION
            } else {
                h
            };
            if w != width || h != height {
                Some((w, h))
            } else {
                None
            }
        },
    }
}

/// The encoder quality: the requested quality clamped to `1..=100`.
pub fn clamp_quality(quality: u8) -> (q: u8)
    ensures
        q as nat == clamp_spec(quality as nat, 1, 100),
{
    if quality < 1 {
        1
    } else if quality > 100 {
        100
    } else {
        quality
    }
}

/// The largest width and height of an ICO image.
pub const ICO_MAX_SIZE: u32 = 256;

/// An ICO output is first shrunk to fit 256 x 256 when it is larger in either dimension.
pub fn ico_needs_shrink(width: u32, height: u32) -> (r: bool)
    ensures
        r == (width > 256 || height > 256),
{
    width > ICO_MAX_SIZE || height > ICO_MAX_SIZE
}

/// The output format of an image conversion, from the extension of the output path; an
/// encoding error naming the file when the extension names no image format.
pub fn output_image_format(output: &str, file_name: &str) -> (r: Result<FileFormat, ConversionError>)
    ensures
        match image_format_from_path_spec(output@) {
            Some(f) => r == Ok::<FileFormat, ConversionError>(f),
            None => r matches Err(ConversionError::EncodeError { file_name: n, detail })
                && n@ == file_name@ && detail@ == "出力ファイルの拡張子からフォーマットを判定できません"@,
        },
{
    match ImageConverter::detect_format_from_path(output) {
        Some(f) => Ok(f),
        None => Err(ConversionError::EncodeError {
            file_name: file_name.to_owned(),
            detail: "出力ファイルの拡張子からフォーマットを判定できません".to_owned(),
        }),
    }
}

/// Images are encoded only into image formats; any other target is an unsupported
/// conversion from `image` to the format's name.
pub fn check_image_target(format: &FileFormat) -> (r: Result<(), ConversionError>)
    ensures
        is_image_format_spec(*format) ==> r is Ok,
        !is_image_format_spec(*format) ==> (r matches Err(
            ConversionError::UnsupportedConversion { from, to },
        ) && from@ == "image"@ && to@ == format_debug_spec(*format)),
{
    if is_image_format(format) {
        Ok(())
    } else {
        Err(ConversionError::UnsupportedConversion {
            from: "image".to_owned(),
            to: format_debug_name(format).to_owned(),
        })
    }
}

/// How the pixels are handed to an encoder.
#[derive(Clone, Copy, Debug, PartialEq, Eq, Structural)]
pub enum PixelLayout {
    /// Eight-bit red, green, blue and alpha.
    Rgba8,
    /// Eight-bit red, green and blue, alpha dropped.
    Rgb8,
    /// The image as decoded, written by the encoder that the output's extension names.
    AsDecoded,
}

/// The encoder of an output format.
#[derive(Clone, Copy, Debug, PartialEq, Eq, Structural)]
pub enum EncoderChoice {
    Png,
    Jpeg { quality: u8 },
    Gif,
    Bmp,
    Tiff,
    Ico,
    /// Saving by the output path's extension (WebP and AVIF).
    ByExtension,
}

/// How an image is written: the encoder, the pixel layout, and the box the image is first
/// shrunk to fit, if any.
#[derive(Clone, Copy, Debug, PartialEq, Eq, Structural)]
pub struct EncodePlan {
    pub encoder: EncoderChoice,
    pub layout: PixelLayout,
    pub shrink_to: Option<u32>,
}

/// The plan for writing an image of the given size in an image format: JPEG takes the
/// quality and drops alpha; WebP and AVIF are saved by extension as decoded; ICO is first
/// shrunk to fit 256 x 256 when larger; the others take RGBA pixels. Quality is used by JPEG
/// alone.
pub open spec fn encode_plan_spec(format: FileFormat, width: u32, height: u32, quality: u8) -> EncodePlan {
    match format {
        FileFormat::Jpeg => EncodePlan {
            encoder: EncoderChoice::Jpeg { quality },
            layout: PixelLayout::Rgb8,
            shrink_to: None,
        },
        FileFormat::Webp | FileFormat::Avif => EncodePlan {
            encoder: EncoderChoice::ByExtension,
            layout: PixelLayout::AsDecoded,
            shrink_to: None,
        },
        FileFormat::Gif => EncodePlan { encoder: EncoderChoice::Gif, layout: PixelLayout::Rgba8, shrink_to: None },
        FileFormat::Bmp => EncodePlan { encoder: EncoderChoice::Bmp, layout: PixelLayout::Rgba8, shrink_to: None },
        FileFormat::Tiff => EncodePlan { encoder: EncoderChoice::Tiff, layout: PixelLayout::Rgba8, shrink_to: None },
        FileFormat::Ico => EncodePlan {
            encoder: EncoderChoice::Ico,
            layout: PixelLayout::Rgba8,
            shrink_to: if width > 256 || height > 256 {
                Some(256u32)
            } else {
                None
            },
        },
        _ => EncodePlan { encoder: EncoderChoice::Png, layout: PixelLayout::Rgba8, shrink_to: None },
    }
}

/// How to write an image of the given size in `format` (see `encode_plan_spec`); a format
/// that is not an image format is refused.
pub fn encode_plan(format: &FileFormat, width: u32, height: u32, quality: u8) -> (r: Result<
    EncodePlan,
    ConversionError,
>)
    ensures
        is_image_format_spec(*format) ==> r == Ok::<EncodePlan, ConversionError>(
            encode_plan_spec(*format, width, height, quality),
        ),
        !is_image_format_spec(*format) ==> (r matches Err(
            ConversionError::UnsupportedConversion { from, to },
        ) && from@ == "image"@ && to@ == format_debug_spec(*format)),
{
    check_image_target(format)?;
    let plan = match format {
        FileFormat::Jpeg => EncodePlan {
            encoder: EncoderChoice::Jpeg { quality },
            layout: PixelLayout::Rgb8,
            shrink_to: None,
        },
        FileFormat::Webp | FileFormat::Avif => EncodePlan {
            encoder: EncoderChoice::ByExtension,
            layout: PixelLayout::AsDecoded,
            shrink_to: None,
        },
        FileFormat::Gif => EncodePlan { encoder: EncoderChoice::Gif, layout: PixelLayout::Rgba8, shrink_to: None },
        FileFormat::Bmp => EncodePlan { encoder: EncoderChoice::Bmp, layout: PixelLayout::Rgba8, shrink_to: None },
        FileFormat::Tiff => EncodePlan { encoder: EncoderChoice::Tiff, layout: PixelLayout::Rgba8, shrink_to: None },
        FileFormat::Ico => EncodePlan {
            encoder: EncoderChoice::Ico,
            layout: PixelLayout::Rgba8,
            shrink_to: if ico_needs_shrink(width, height) {
                Some(ICO_MAX_SIZE)
            } else {
                None
            },
        },
        _ => EncodePlan { encoder: EncoderChoice::Png, layout: PixelLayout::Rgba8, shrink_to: None },
    };
    Ok(plan)
}

/// The quality setting reaches the JPEG encoder alone: for every other format the plan is
/// the same whatever the quality.
pub proof fn law_quality_only_for_jpeg(format: FileFormat, width: u32, height: u32, q1: u8, q2: u8)
    requires
        format != FileFormat::Jpeg,
    ensures
        encode_plan_spec(format, width, height, q1) == encode_plan_spec(format, width, height, q2),
{
}

/// Every image format converts into every other image format.
pub proof fn law_all_image_pairs_convert(from: FileFormat, to: FileFormat)
    requires
        is_image_format_spec(from),
        is_image_format_spec(to),
        from != to,
    ensures
        image_can_convert_spec(from, to),
{
}

/// What is decided about converting a decoded image: the size it is resized to, if any,
/// the output format, and the quality handed to the encoder.
#[derive(Clone, Copy, Debug, PartialEq, Eq)]
pub struct ImagePlan {
    pub resize_to: Option<(u32, u32)>,
    pub output_format: FileFormat,
    pub quality: u8,
}

/// Decides the conversion of a decoded `width` x `height` image into `output`: the resize
/// (see `resize_target`), the format named by the output's extension (an encoding error
/// naming the input file when there is none), and the quality clamped to 1..=100.
pub fn plan_image_conversion(
    width: u32,
    height: u32,
    output: &str,
    file_name: &str,
    options: &ConversionOptions,
) -> (r: Result<ImagePlan, ConversionError>)
    ensures
        match image_format_from_path_spec(output@) {
            Some(f) => r matches Ok(p) && p.output_format == f && p.quality == clamp_spec(
                options.quality as nat,
                1,
                100,
            ) && match p.resize_to {
                Some((w, h)) => resize_target_spec(width, height, options.resize) == Some(
                    (w as nat, h as nat),
                ),
                None => resize_target_spec(width, height, options.resize) is None,
            },
            None => r matches Err(ConversionError::EncodeError { file_name: n, detail })
                && n@ == file_name@ && detail@ == "出力ファイルの拡張子からフォーマットを判定できません"@,
        },
{
    let resize_to = resize_target(width, height, &options.resize);
    let output_format = output_image_format(output, file_name)?;
    Ok(ImagePlan { resize_to, output_format, quality: clamp_quality(options.quality) })
}

} // verus!
