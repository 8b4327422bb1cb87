//! Images decoded, resampled and encoded by the image crate, around the planned steps of a
//! conversion.
use std::io::Cursor;
use vstd::prelude::*;
use crate::converter::image::{
    clamp_spec, encode_plan, encode_plan_spec, image_format_from_path_spec, plan_image_conversion,
    resize_target_spec, EncodePlan, EncoderChoice,
};
use crate::errors::ConversionError;
use crate::models::ConversionOptions;
use crate::paths::path_file_name;
use image::codecs::bmp::BmpEncoder;
use image::codecs::gif::GifEncoder;
use image::codecs::ico::IcoEncoder;
use image::codecs::jpeg::JpegEncoder;
use image::codecs::png::PngEncoder;
use image::codecs::tiff::TiffEncoder;
use image::imageops::FilterType;
use image::{ExtendedColorType, ImageEncoder, ImageFormat, ImageReader};

verus! {

#[verifier::external_type_specification]
#[verifier::external_body]
pub struct ExDynamicImage(image::DynamicImage);

/// A decoded image: its width and height, on which the conversion is planned, and the image
/// crate's value of it, at the depth it was decoded with, which only the crate's resampling
/// and encoders read.
#[derive(Debug)]
pub struct DecodedImage {
    pub width: u32,
    pub height: u32,
    pub image: image::DynamicImage,
}

impl View for DecodedImage {
    type V = (u32, u32, image::DynamicImage);

    open spec fn view(&self) -> (u32, u32, image::DynamicImage) {
        (self.width, self.height, self.image)
    }
}

/// The width and height of an image (the image crate's `width` and `height`).
pub uninterp spec fn image_dimensions(img: image::DynamicImage) -> (u32, u32);

/// Whether the width and height given are those of the image.
pub open spec fn sized(v: (u32, u32, image::DynamicImage)) -> bool {
    image_dimensions(v.2) == (v.0, v.1)
}

/// The image that the image crate decodes from the bytes of the file named `name`, in the
/// format its extension names, or the error's text.
pub uninterp spec fn image_decoded(name: Seq<char>, bytes: Seq<u8>) -> Result<image::DynamicImage, Seq<char>>;

/// The image that the image crate's `resize_exact` with the Lanczos3 filter makes of an
/// image at `width` x `height`.
pub uninterp spec fn image_resized(img: image::DynamicImage, width: u32, height: u32) -> image::DynamicImage;

/// The image that the image crate's `resize` with the Lanczos3 filter makes of an image
/// fitted, aspect kept, into a `side` x `side` box.
pub uninterp spec fn image_fitted(img: image::DynamicImage, side: u32) -> image::DynamicImage;

/// The RGBA samples of an image (the image crate's `to_rgba8`).
pub uninterp spec fn image_rgba8(img: image::DynamicImage) -> Seq<u8>;

/// The RGB samples of an image (the image crate's `to_rgb8`).
pub uninterp spec fn image_rgb8(img: image::DynamicImage) -> Seq<u8>;

/// The bytes of the image crate's PNG encoder for RGBA samples, or the error's text.
pub uninterp spec fn png_encoded(width: u32, height: u32, rgba: Seq<u8>) -> Result<Seq<u8>, Seq<char>>;

/// The bytes of the image crate's JPEG encoder at a quality for RGB samples, or the error's text.
pub uninterp spec fn jpeg_encoded(width: u32, height: u32, rgb: Seq<u8>, quality: u8) -> Result<
    Seq<u8>,
    Seq<char>,
>;

/// The bytes of the image crate's GIF encoder for RGBA samples, or the error's text.
pub uninterp spec fn gif_encoded(width: u32, height: u32, rgba: Seq<u8>) -> Result<Seq<u8>, Seq<char>>;

/// The bytes of the image crate's BMP encoder for RGBA samples, or the error's text.
pub uninterp spec fn bmp_encoded(width: u32, height: u32, rgba: Seq<u8>) -> Result<Seq<u8>, Seq<char>>;

/// The bytes of the image crate's TIFF encoder for RGBA samples, or the error's text.
pub uninterp spec fn tiff_encoded(width: u32, height: u32, rgba: Seq<u8>) -> Result<Seq<u8>, Seq<char>>;

/// The bytes of the image crate's ICO encoder for RGBA samples, or the error's text.
pub uninterp spec fn ico_encoded(width: u32, height: u32, rgba: Seq<u8>) -> Result<Seq<u8>, Seq<char>>;

/// The bytes the image crate writes for an image saved under the path `output`, in the
/// format its extension names, or the error's text.
pub uninterp spec fn image_saved_as(img: image::DynamicImage, output: Seq<char>) -> Result<Seq<u8>, Seq<char>>;

/// Decodes the bytes of the file named `name` with the image crate, in the format that the
/// name's extension names (as `image::open` does for a path), at the image's own depth, and
/// gives its width and height with it.
#[verifier::external_body]
fn decode_image(name: &str, bytes: &[u8]) -> (r: Result<DecodedImage, String>)
    ensures
        match r {
            Ok(p) => image_decoded(name@, bytes@) == Ok::<_, Seq<char>>(p.image)
                && image_dimensions(p.image) == (p.width, p.height),
            Err(e) => image_decoded(name@, bytes@) == Err::<image::DynamicImage, _>(e@),
        },
{
    let format = ImageFormat::from_path(name).map_err(|e| e.to_string())?;
    let image = ImageReader::with_format(Cursor::new(bytes), format).decode().map_err(|e| e.to_string())?;
    Ok(DecodedImage { width: image.width(), height: image.height(), image })
}

/// Resizes an image to exactly `width` x `height` with the image crate's `resize_exact` and
/// the Lanczos3 filter, at the image's own depth.
#[verifier::external_body]
fn resize_pixels(p: &DecodedImage, width: u32, height: u32) -> (r: DecodedImage)
    requires
        width >= 1,
        height >= 1,
    ensures
        r.width == width,
        r.height == height,
        r.image == image_resized(p.image, width, height),
        image_dimensions(r.image) == (r.width, r.height),
{
    let image = p.image.resize_exact(width, height, FilterType::Lanczos3);
    DecodedImage { width: image.width(), height: image.height(), image }
}

/// Shrinks or grows an image to fit a `side` x `side` box, aspect kept, with the image
/// crate's `resize` and the Lanczos3 filter, at the image's own depth; neither side of the
/// result is zero.
#[verifier::external_body]
fn fit_pixels(p: &DecodedImage, side: u32) -> (r: DecodedImage)
    requires
        side >= 1,
    ensures
        r.image == image_fitted(p.image, side),
        image_dimensions(r.image) == (r.width, r.height),
        r.width >= 1,
        r.height >= 1,
{
    let image = p.image.resize(side, side, FilterType::Lanczos3);
    DecodedImage { width: image.width(), height: image.height(), image }
}

/// The image as RGBA samples with eight bits each (the image crate's `to_rgba8`), of the
/// same size.
#[verifier::external_body]
fn rgba8_pixels(p: &DecodedImage) -> (r: Vec<u8>)
    requires
        sized(p@),
    ensures
        r@ == image_rgba8(p.image),
        r@.len() == p.width * p.height * 4,
{
    p.image.to_rgba8().into_raw()
}

/// The image as RGB samples with eight bits each (the image crate's `to_rgb8`), of the same
/// size.
#[verifier::external_body]
fn rgb8_pixels(p: &DecodedImage) -> (r: Vec<u8>)
    requires
        sized(p@),
    ensures
        r@ == image_rgb8(p.image),
        r@.len() == p.width * p.height * 3,
{
    p.image.to_rgb8().into_raw()
}

/// Encodes RGBA samples as PNG with the image crate's `PngEncoder`.
#[verifier::external_body]
fn encode_png(width: u32, height: u32, rgba: &[u8]) -> (r: Result<Vec<u8>, String>)
    requires
        rgba@.len() == width * height * 4,
    ensures
        match r {
            Ok(b) => png_encoded(width, height, rgba@) == Ok::<_, Seq<char>>(b@),
            Err(e) => png_encoded(width, height, rgba@) == Err::<Seq<u8>, _>(e@),
        },
{
    let mut out: Vec<u8> = Vec::new();
    let res = PngEncoder::new(&mut out).write_image(rgba, width, height, ExtendedColorType::Rgba8);
    res.map(|_| out).map_err(|e| e.to_string())
}

/// Encodes RGB samples as JPEG at `quality` with the image crate's `JpegEncoder`.
#[verifier::external_body]
fn encode_jpeg(width: u32, height: u32, rgb: &[u8], quality: u8) -> (r: Result<Vec<u8>, String>)
    requires
        rgb@.len() == width * height * 3,
    ensures
        match r {
            Ok(b) => jpeg_encoded(width, height, rgb@, quality) == Ok::<_, Seq<char>>(b@),
            Err(e) => jpeg_encoded(width, height, rgb@, quality) == Err::<Seq<u8>, _>(e@),
        },
{
    let mut out: Vec<u8> = Vec::new();
    let res = JpegEncoder::new_with_quality(&mut out, quality).write_image(rgb, width, height, ExtendedColorType::Rgb8);
    res.map(|_| out).map_err(|e| e.to_string())
}

/// Encodes RGBA samples as GIF with the image crate's `GifEncoder` (the trailer is written
/// when the encoder is dropped, at the end of the statement).
#[verifier::external_body]
fn encode_gif(width: u32, height: u32, rgba: &[u8]) -> (r: Result<Vec<u8>, String>)
    requires
        rgba@.len() == width * height * 4,
    ensures
        match r {
            Ok(b) => gif_encoded(width, height, rgba@) == Ok::<_, Seq<char>>(b@),
            Err(e) => gif_encoded(width, height, rgba@) == Err::<Seq<u8>, _>(e@),
        },
{
    let mut out: Vec<u8> = Vec::new();
    let res = GifEncoder::new(&mut out).encode(rgba, width, height, ExtendedColorType::Rgba8);
    res.map(|_| out).map_err(|e| e.to_string())
}

/// Encodes RGBA samples as BMP with the image crate's `BmpEncoder`.
#[verifier::external_body]
fn encode_bmp(width: u32, height: u32, rgba: &[u8]) -> (r: Result<Vec<u8>, String>)
    requires
        rgba@.len() == width * height * 4,
    ensures
        match r {
            Ok(b) => bmp_encoded(width, height, rgba@) == Ok::<_, Seq<char>>(b@),
            Err(e) => bmp_encoded(width, height, rgba@) == Err::<Seq<u8>, _>(e@),
        },
{
    let mut out: Vec<u8> = Vec::new();
    let res = BmpEncoder::new(&mut out).write_image(rgba, width, height, ExtendedColorType::Rgba8);
    res.map(|_| out).map_err(|e| e.to_string())
}

/// Encodes RGBA samples as TIFF with the image crate's `TiffEncoder`.
#[verifier::external_body]
fn encode_tiff(width: u32, height: u32, rgba: &[u8]) -> (r: Result<Vec<u8>, String>)
    requires
        rgba@.len() == width * height * 4,
    ensures
        match r {
            Ok(b) => tiff_encoded(width, height, rgba@) == Ok::<_, Seq<char>>(b@),
            Err(e) => tiff_encoded(width, height, rgba@) == Err::<Seq<u8>, _>(e@),
        },
{
    let mut out = Cursor::new(Vec::new());
    let res = TiffEncoder::new(&mut out).write_image(rgba, width, height, ExtendedColorType::Rgba8);
    res.map(|_| out.into_inner()).map_err(|e| e.to_string())
}

/// Encodes RGBA samples as ICO with the image crate's `IcoEncoder`.
#[verifier::external_body]
fn encode_ico(width: u32, height: u32, rgba: &[u8]) -> (r: Result<Vec<u8>, String>)
    requires
        rgba@.len() == width * height * 4,
    ensures
        match r {
            Ok(b) => ico_encoded(width, height, rgba@) == Ok::<_, Seq<char>>(b@),
            Err(e) => ico_encoded(width, height, rgba@) == Err::<Seq<u8>, _>(e@),
        },
{
    let mut out: Vec<u8> = Vec::new();
    let res = IcoEncoder::new(&mut out).write_image(rgba, width, height, ExtendedColorType::Rgba8);
    res.map(|_| out).map_err(|e| e.to_string())
}

/// Encodes an image as the image crate's `DynamicImage::save` would for the path `output`:
/// in the format its extension names, with the crate's own conversion of the image to what
/// the encoder takes.
#[verifier::external_body]
fn save_pixels_as(p: &DecodedImage, output: &str) -> (r: Result<Vec<u8>, String>)
    ensures
        match r {
            Ok(b) => image_saved_as(p.image, output@) == Ok::<_, Seq<char>>(b@),
            Err(e) => image_saved_as(p.image, output@) == Err::<Seq<u8>, _>(e@),
        },
{
    let format = ImageFormat::from_path(output).map_err(|e| e.to_string())?;
    let mut out = Cursor::new(Vec::new());
    p.image.write_to(&mut out, format).map_err(|e| e.to_string())?;
    Ok(out.into_inner())
}


/// The image after the planned resize, if any.
pub open spec fn resized_view(v: (u32, u32, image::DynamicImage), to: Option<(nat, nat)>) -> (u32, u32, image::DynamicImage) {
    match to {
        Some((w, h)) => (w as u32, h as u32, image_resized(v.2, w as u32, h as u32)),
        None => v,
    }
}

/// The image after the encoder's shrink into a box, if any.
pub open spec fn fitted_view(v: (u32, u32, image::DynamicImage), side: Option<u32>) -> (u32, u32, image::DynamicImage) {
    match side {
        Some(s) => {
            let f = image_fitted(v.2, s);
            (image_dimensions(f).0, image_dimensions(f).1, f)
        },
        None => v,
    }
}

/// What the planned encoder writes for an image: RGB samples for JPEG, the image as it is
/// for a format saved by the output's extension, RGBA samples for the rest.
pub open spec fn encoded_spec(v: (u32, u32, image::DynamicImage), plan: EncodePlan, output: Seq<char>) -> Result<
    Seq<u8>,
    Seq<char>,
> {
    match plan.encoder {
        EncoderChoice::Png => png_encoded(v.0, v.1, image_rgba8(v.2)),
        EncoderChoice::Jpeg { quality } => jpeg_encoded(v.0, v.1, image_rgb8(v.2), quality),
        EncoderChoice::Gif => gif_encoded(v.0, v.1, image_rgba8(v.2)),
        EncoderChoice::Bmp => bmp_encoded(v.0, v.1, image_rgba8(v.2)),
        EncoderChoice::Tiff => tiff_encoded(v.0, v.1, image_rgba8(v.2)),
        EncoderChoice::Ico => ico_encoded(v.0, v.1, image_rgba8(v.2)),
        EncoderChoice::ByExtension => image_saved_as(v.2, output),
    }
}

/// The step of an image conversion that failed.
#[derive(Clone, Copy, Debug, PartialEq, Eq, Structural)]
pub enum ImageStep {
    /// The input could not be decoded.
    Decode,
    /// The output's extension names no image format.
    Format,
    /// The encoder refused the image.
    Encode,
}

/// The message when the output's extension names no image format.
pub open spec fn no_format_text() -> Seq<char> {
    "出力ファイルの拡張子からフォーマットを判定できません"@
}

/// What converting the image file `name`, whose bytes are `input`, into `output` gives: the
/// decoded image is resized as planned (see `resize_target_spec`), the encoding for the
/// output's format is planned on the resized size with the quality clamped to `1..=100` (see
/// `encode_plan_spec`), the image is shrunk into the plan's box if it has one, and encoded.
/// A failure names its step and carries its text.
pub open spec fn image_conversion_spec(
    input: Seq<u8>,
    output: Seq<char>,
    name: Seq<char>,
    options: ConversionOptions,
) -> Result<Seq<u8>, (ImageStep, Seq<char>)> {
    match image_decoded(name, input) {
        Err(d) => Err((ImageStep::Decode, d)),
        Ok(img) => match image_format_from_path_spec(output) {
            None => Err((ImageStep::Format, no_format_text())),
            Some(f) => {
                let v = (image_dimensions(img).0, image_dimensions(img).1, img);
                let v1 = resized_view(v, resize_target_spec(v.0, v.1, options.resize));
                let q = clamp_spec(options.quality as nat, 1, 100) as u8;
                let plan = encode_plan_spec(f, v1.0, v1.1, q);
                let v2 = fitted_view(v1, plan.shrink_to);
                match encoded_spec(v2, plan, output) {
                    Ok(b) => Ok(b),
                    Err(d) => Err((ImageStep::Encode, d)),
                }
            },
        },
    }
}

/// The size an image is planned to have: the resize target, or its own size.
pub open spec fn planned_size(v: (u32, u32, image::DynamicImage), options: ConversionOptions) -> (nat, nat) {
    match resize_target_spec(v.0, v.1, options.resize) {
        Some((w, h)) => (w, h),
        None => (v.0 as nat, v.1 as nat),
    }
}

/// Whatever the output format but ICO (which is first shrunk to fit 256 x 256), the image
/// handed to the encoder has exactly the planned size: the resize target when a resize is
/// asked for and changes the size, else the decoded size.
pub proof fn law_encoder_gets_planned_size(
    v: (u32, u32, image::DynamicImage),
    f: crate::models::FileFormat,
    options: ConversionOptions,
)
    requires
        f != crate::models::FileFormat::Ico,
    ensures
        ({
            let v1 = resized_view(v, resize_target_spec(v.0, v.1, options.resize));
            let q = clamp_spec(options.quality as nat, 1, 100) as u8;
            let v2 = fitted_view(v1, encode_plan_spec(f, v1.0, v1.1, q).shrink_to);
            (v2.0 as nat, v2.1 as nat) == planned_size(v, options)
        }),
{
}

/// The quality setting reaches the JPEG encoder alone: converting an image into any other
/// format gives the same bytes, or the same failure, whatever the quality.
pub proof fn law_quality_ignored_but_for_jpeg(
    input: Seq<u8>,
    output: Seq<char>,
    name: Seq<char>,
    o1: ConversionOptions,
    o2: ConversionOptions,
)
    requires
        o1.resize == o2.resize,
        image_format_from_path_spec(output) != Some(crate::models::FileFormat::Jpeg),
    ensures
        image_conversion_spec(input, output, name, o1) == image_conversion_spec(input, output, name, o2),
{
}

/// The file name of the output path, or nothing.
pub open spec fn output_name_spec(output: Seq<char>) -> Seq<char> {
    match path_file_name(output) {
        Some(n) => n,
        None => Seq::empty(),
    }
}

/// Converts the image file `file_name`, whose bytes are `input`, into the bytes of the file
/// `output` (see `image_conversion_spec`). A decoding failure is a decoding error naming the
/// input; an output extension naming no image format is an encoding error naming the input;
/// an encoder's failure is an encoding error naming the output file.
pub fn convert_image_bytes(
    input: &[u8],
    output: &str,
    file_name: &str,
    options: &ConversionOptions,
) -> (r: Result<Vec<u8>, ConversionError>)
    ensures
        match image_conversion_spec(input@, output@, file_name@, *options) {
            Ok(b) => r matches Ok(o) && o@ == b,
            Err((ImageStep::Decode, d)) => r matches Err(ConversionError::DecodeError { file_name: n, detail })
                && n@ == file_name@ && detail@ == d,
            Err((ImageStep::Format, d)) => r matches Err(ConversionError::EncodeError { file_name: n, detail })
                && n@ == file_name@ && detail@ == d,
            Err((ImageStep::Encode, d)) => r matches Err(ConversionError::EncodeError { file_name: n, detail })
                && n@ == output_name_spec(output@) && detail@ == d,
        },
{
    let p = match decode_image(file_name, input) {
        Ok(p) => p,
        Err(detail) => {
            return Err(ConversionError::DecodeError { file_name: file_name.to_owned(), detail });
        },
    };
    let ghost v = p@;
    let plan = match plan_image_conversion(p.width, p.height, output, file_name, options) {
        Ok(plan) => plan,
        Err(e) => {
            return Err(e);
        },
    };
    let p = match plan.resize_to {
        Some((w, h)) => resize_pixels(&p, w, h),
        None => p,
    };
    let ghost v1 = p@;
    assert(v1 == resized_view(v, resize_target_spec(v.0, v.1, options.resize)));
    let eplan = match encode_plan(&plan.output_format, p.width, p.height, plan.quality) {
        Ok(e) => e,
        Err(e) => {
            return Err(e);
        },
    };
    let p = match eplan.shrink_to {
        Some(side) => fit_pixels(&p, side),
        None => p,
    };
    let encoded = match eplan.encoder {
        EncoderChoice::Png => encode_png(p.width, p.height, rgba8_pixels(&p).as_slice()),
        EncoderChoice::Jpeg { quality } => encode_jpeg(p.width, p.height, rgb8_pixels(&p).as_slice(), quality),
        EncoderChoice::Gif => encode_gif(p.width, p.height, rgba8_pixels(&p).as_slice()),
        EncoderChoice::Bmp => encode_bmp(p.width, p.height, rgba8_pixels(&p).as_slice()),
        EncoderChoice::Tiff => encode_tiff(p.width, p.height, rgba8_pixels(&p).as_slice()),
        EncoderChoice::Ico => encode_ico(p.width, p.height, rgba8_pixels(&p).as_slice()),
        EncoderChoice::ByExtension => save_pixels_as(&p, output),
    };
    match encoded {
        Ok(bytes) => Ok(bytes),
        Err(detail) => {
            let out_name = match crate::paths::file_name(output) {
                Some(n) => n,
                None => String::new(),
            };
            Err(ConversionError::EncodeError { file_name: out_name, detail })
        },
    }
}

} // verus!
