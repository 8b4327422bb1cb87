use webpexer::converter::image::{
    calculate_resize_dimensions, check_image_target, clamp_quality, encode_plan, ico_needs_shrink,
    is_image_format, output_image_format, plan_image_conversion, resize_target, EncodePlan,
    EncoderChoice, ImageConverter, PixelLayout,
};
use webpexer::converter::pixels::convert_image_bytes;
use webpexer::converter::{format_debug_name, Converter};
use webpexer::errors::ConversionError;
use webpexer::models::{
    ConflictResolution, ConversionOptions, FileFormat, FileNamingPattern, ResizeOptions,
};

#[test]
fn image_test_supported_formats_count() {
    let converter = ImageConverter::new();
    assert_eq!(converter.supported_input_formats().len(), 8);
    assert_eq!(converter.supported_output_formats().len(), 8);
}

#[test]
fn test_can_convert_different_formats() {
    let converter = ImageConverter::new();
    assert!(converter.can_convert(&FileFormat::Png, &FileFormat::Jpeg));
    assert!(converter.can_convert(&FileFormat::Webp, &FileFormat::Gif));
    assert!(converter.can_convert(&FileFormat::Bmp, &FileFormat::Tiff));
    assert!(converter.can_convert(&FileFormat::Avif, &FileFormat::Ico));
}

#[test]
fn image_test_cannot_convert_same_format() {
    let converter = ImageConverter::new();
    assert!(!converter.can_convert(&FileFormat::Png, &FileFormat::Png));
    assert!(!converter.can_convert(&FileFormat::Jpeg, &FileFormat::Jpeg));
}

#[test]
fn test_cannot_convert_text_formats() {
    let converter = ImageConverter::new();
    assert!(!converter.can_convert(&FileFormat::Png, &FileFormat::Json));
    assert!(!converter.can_convert(&FileFormat::Json, &FileFormat::Png));
}

#[test]
fn test_calculate_resize_both_specified() {
    let (w, h) = calculate_resize_dimensions(1000, 500, Some(200), Some(100), true);
    assert_eq!(w, 200);
    assert_eq!(h, 100);
}

#[test]
fn test_calculate_resize_width_only_maintain_aspect() {
    let (w, h) = calculate_resize_dimensions(1000, 500, Some(200), None, true);
    assert_eq!(w, 200);
    assert_eq!(h, 100);
}

#[test]
fn test_calculate_resize_height_only_maintain_aspect() {
    let (w, h) = calculate_resize_dimensions(1000, 500, None, Some(100), true);
    assert_eq!(w, 200);
    assert_eq!(h, 100);
}

#[test]
fn test_calculate_resize_width_only_no_aspect() {
    let (w, h) = calculate_resize_dimensions(1000, 500, Some(200), None, false);
    assert_eq!(w, 200);
    assert_eq!(h, 500);
}

#[test]
fn test_calculate_resize_height_only_no_aspect() {
    let (w, h) = calculate_resize_dimensions(1000, 500, None, Some(100), false);
    assert_eq!(w, 1000);
    assert_eq!(h, 100);
}

#[test]
fn test_calculate_resize_none_specified() {
    let (w, h) = calculate_resize_dimensions(1000, 500, None, None, true);
    assert_eq!(w, 1000);
    assert_eq!(h, 500);
}

#[test]
fn test_calculate_resize_minimum_one() {
    let (w, h) = calculate_resize_dimensions(1000, 1, Some(1), None, true);
    assert_eq!(w, 1);
    assert!(h >= 1);
}

#[test]
fn image_test_detect_format_from_path() {
    assert_eq!(ImageConverter::detect_format_from_path("test.png"), Some(FileFormat::Png));
    assert_eq!(ImageConverter::detect_format_from_path("test.jpg"), Some(FileFormat::Jpeg));
    assert_eq!(ImageConverter::detect_format_from_path("test.jpeg"), Some(FileFormat::Jpeg));
    assert_eq!(ImageConverter::detect_format_from_path("test.webp"), Some(FileFormat::Webp));
    assert_eq!(ImageConverter::detect_format_from_path("test.gif"), Some(FileFormat::Gif));
    assert_eq!(ImageConverter::detect_format_from_path("test.bmp"), Some(FileFormat::Bmp));
    assert_eq!(ImageConverter::detect_format_from_path("test.tiff"), Some(FileFormat::Tiff));
    assert_eq!(ImageConverter::detect_format_from_path("test.tif"), Some(FileFormat::Tiff));
    assert_eq!(ImageConverter::detect_format_from_path("test.avif"), Some(FileFormat::Avif));
    assert_eq!(ImageConverter::detect_format_from_path("test.ico"), Some(FileFormat::Ico));
    assert_eq!(ImageConverter::detect_format_from_path("test.txt"), None);
}

/// The rounding of the aspect-ratio formula matches `f64::round` on ordinary sizes.
#[test]
fn resize_matches_float_formula() {
    let cases: [(u32, u32, u32); 6] =
        [(1000, 333, 200), (1920, 1080, 1280), (7, 3, 5), (3, 7, 2), (640, 481, 319), (5, 2, 3)];
    for (ow, oh, w) in cases {
        let expected = ((oh as f64 * w as f64) / ow as f64).round() as u32;
        let (_, h) = calculate_resize_dimensions(ow, oh, Some(w), None, true);
        assert_eq!(h, expected.max(1), "{}x{} to width {}", ow, oh, w);
        let expected_w = ((ow as f64 * w as f64) / oh as f64).round() as u32;
        let (rw, _) = calculate_resize_dimensions(ow, oh, None, Some(w), true);
        assert_eq!(rw, expected_w.max(1));
    }
}

#[test]
fn resize_half_rounds_up() {
    // 3 * 1 / 2 = 1.5 rounds to 2
    let (_, h) = calculate_resize_dimensions(2, 3, Some(1), None, true);
    assert_eq!(h, 2);
}

#[test]
fn resize_zero_original_keeps_sides() {
    assert_eq!(calculate_resize_dimensions(0, 50, Some(10), None, true), (10, 50));
    assert_eq!(calculate_resize_dimensions(50, 0, None, Some(10), true), (50, 10));
}

#[test]
fn resize_target_clamps_and_skips_unchanged() {
    let r = Some(ResizeOptions { width: Some(20000), height: Some(0), maintain_aspect_ratio: false });
    assert_eq!(resize_target(100, 100, &r), Some((16383, 1)));
    let same = Some(ResizeOptions { width: Some(100), height: None, maintain_aspect_ratio: true });
    assert_eq!(resize_target(100, 50, &same), None);
    assert_eq!(resize_target(100, 50, &None), None);
}

#[test]
fn quality_is_clamped() {
    assert_eq!(clamp_quality(0), 1);
    assert_eq!(clamp_quality(50), 50);
    assert_eq!(clamp_quality(255), 100);
}

#[test]
fn ico_shrinks_beyond_256() {
    assert!(!ico_needs_shrink(256, 256));
    assert!(ico_needs_shrink(257, 10));
    assert!(ico_needs_shrink(10, 300));
}

#[test]
fn output_format_from_extension() {
    assert_eq!(output_image_format("out/a.JPG", "a.png").unwrap(), FileFormat::Jpeg);
    match output_image_format("out/a", "a.png") {
        Err(ConversionError::EncodeError { file_name, detail }) => {
            assert_eq!(file_name, "a.png");
            assert_eq!(detail, "出力ファイルの拡張子からフォーマットを判定できません");
        }
        other => panic!("unexpected {:?}", other),
    }
}

#[test]
fn image_target_must_be_image() {
    assert!(check_image_target(&FileFormat::Ico).is_ok());
    match check_image_target(&FileFormat::Json) {
        Err(ConversionError::UnsupportedConversion { from, to }) => {
            assert_eq!(from, "image");
            assert_eq!(to, "Json");
        }
        other => panic!("unexpected {:?}", other),
    }
    assert!(is_image_format(&FileFormat::Avif));
    assert!(!is_image_format(&FileFormat::Csv));
}

#[test]
fn encode_plans_per_format() {
    assert_eq!(
        encode_plan(&FileFormat::Jpeg, 10, 10, 42).unwrap(),
        EncodePlan { encoder: EncoderChoice::Jpeg { quality: 42 }, layout: PixelLayout::Rgb8, shrink_to: None }
    );
    assert_eq!(
        encode_plan(&FileFormat::Webp, 10, 10, 42).unwrap(),
        EncodePlan { encoder: EncoderChoice::ByExtension, layout: PixelLayout::AsDecoded, shrink_to: None }
    );
    assert_eq!(encode_plan(&FileFormat::Ico, 512, 10, 80).unwrap().shrink_to, Some(256));
    assert_eq!(encode_plan(&FileFormat::Ico, 256, 256, 80).unwrap().shrink_to, None);
    // Quality does not reach the lossless encoders.
    assert_eq!(encode_plan(&FileFormat::Png, 5, 5, 1).unwrap(), encode_plan(&FileFormat::Png, 5, 5, 100).unwrap());
    assert!(encode_plan(&FileFormat::Csv, 5, 5, 1).is_err());
}

#[test]
fn image_conversion_plan() {
    let options = ConversionOptions {
        quality: 0,
        resize: Some(ResizeOptions { width: Some(50), height: None, maintain_aspect_ratio: true }),
        encoding: None,
        csv_delimiter: None,
        file_naming: FileNamingPattern::Original,
        conflict_resolution: ConflictResolution::Overwrite,
        delete_source: false,
    };
    let plan = plan_image_conversion(200, 100, "/o/x.tif", "x.png", &options).unwrap();
    assert_eq!(plan.resize_to, Some((50, 25)));
    assert_eq!(plan.output_format, FileFormat::Tiff);
    assert_eq!(plan.quality, 1);
    assert!(matches!(
        plan_image_conversion(200, 100, "/o/x.doc", "x.png", &options),
        Err(ConversionError::EncodeError { .. })
    ));
}

#[test]
fn debug_names_match_derived_debug() {
    let all = [
        FileFormat::Png, FileFormat::Jpeg, FileFormat::Webp, FileFormat::Gif, FileFormat::Bmp,
        FileFormat::Tiff, FileFormat::Avif, FileFormat::Ico, FileFormat::Json, FileFormat::Yaml,
        FileFormat::Toml, FileFormat::Xml, FileFormat::Csv, FileFormat::Markdown, FileFormat::PlainText,
    ];
    for f in all {
        assert_eq!(format_debug_name(&f), format!("{:?}", f));
    }
}

fn png_bytes(width: u32, height: u32) -> Vec<u8> {
    let img = image::RgbImage::from_fn(width, height, |x, y| image::Rgb([(x % 256) as u8, (y % 256) as u8, 128]));
    let mut out = std::io::Cursor::new(Vec::new());
    image::DynamicImage::ImageRgb8(img).write_to(&mut out, image::ImageFormat::Png).unwrap();
    out.into_inner()
}

fn image_options(resize: Option<ResizeOptions>) -> ConversionOptions {
    ConversionOptions {
        quality: 90,
        resize,
        encoding: None,
        csv_delimiter: None,
        file_naming: FileNamingPattern::Original,
        conflict_resolution: ConflictResolution::Overwrite,
        delete_source: false,
    }
}

#[test]
fn image_bytes_are_resized_as_planned() {
    let resize = Some(ResizeOptions { width: Some(50), height: None, maintain_aspect_ratio: true });
    let out = convert_image_bytes(&png_bytes(100, 50), "/o/a.jpg", "a.png", &image_options(resize)).unwrap();
    let back = image::load_from_memory(&out).unwrap();
    assert_eq!((back.width(), back.height()), (50, 25));
    assert_eq!(image::guess_format(&out).unwrap(), image::ImageFormat::Jpeg);
}

#[test]
fn image_bytes_keep_size_without_resize() {
    for (path, format) in [
        ("/o/a.png", image::ImageFormat::Png),
        ("/o/a.gif", image::ImageFormat::Gif),
        ("/o/a.bmp", image::ImageFormat::Bmp),
        ("/o/a.tiff", image::ImageFormat::Tiff),
        ("/o/a.webp", image::ImageFormat::WebP),
    ] {
        let out = convert_image_bytes(&png_bytes(30, 20), path, "a.png", &image_options(None)).unwrap();
        assert_eq!(image::guess_format(&out).unwrap(), format);
        let back = image::load_from_memory(&out).unwrap();
        assert_eq!((back.width(), back.height()), (30, 20));
    }
}

#[test]
fn image_bytes_shrink_large_icons() {
    let out = convert_image_bytes(&png_bytes(300, 100), "/o/a.ico", "a.png", &image_options(None)).unwrap();
    let back = image::load_from_memory_with_format(&out, image::ImageFormat::Ico).unwrap();
    assert_eq!((back.width(), back.height()), (256, 85));
}

#[test]
fn image_bytes_report_each_failing_step() {
    match convert_image_bytes(b"not an image", "/o/a.jpg", "a.png", &image_options(None)) {
        Err(ConversionError::DecodeError { file_name, .. }) => assert_eq!(file_name, "a.png"),
        other => panic!("unexpected {:?}", other),
    }
    match convert_image_bytes(&png_bytes(4, 4), "/o/a.txt", "a.png", &image_options(None)) {
        Err(ConversionError::EncodeError { file_name, detail }) => {
            assert_eq!(file_name, "a.png");
            assert_eq!(detail, "出力ファイルの拡張子からフォーマットを判定できません");
        }
        other => panic!("unexpected {:?}", other),
    }
    match convert_image_bytes(&png_bytes(4, 4), "/o/b.avif", "a.png", &image_options(None)) {
        Err(ConversionError::EncodeError { file_name, .. }) => assert_eq!(file_name, "b.avif"),
        other => panic!("unexpected {:?}", other),
    }
}

#[test]
fn deep_and_gray_images_are_converted() {
    let deep = image::ImageBuffer::<image::Rgb<u16>, Vec<u16>>::from_pixel(8, 6, image::Rgb([65535, 0, 30000]));
    let mut bytes = std::io::Cursor::new(Vec::new());
    image::DynamicImage::ImageRgb16(deep).write_to(&mut bytes, image::ImageFormat::Png).unwrap();
    let out = convert_image_bytes(bytes.get_ref(), "/o/d.bmp", "d.png", &image_options(None)).unwrap();
    let back = image::load_from_memory(&out).unwrap().to_rgba8();
    assert_eq!(back.dimensions(), (8, 6));
    assert_eq!(back.get_pixel(0, 0).0, [255, 0, 117, 255]);

    let gray = image::GrayImage::from_pixel(5, 4, image::Luma([77]));
    let mut bytes = std::io::Cursor::new(Vec::new());
    image::DynamicImage::ImageLuma8(gray).write_to(&mut bytes, image::ImageFormat::Png).unwrap();
    let out = convert_image_bytes(bytes.get_ref(), "/o/g.webp", "g.png", &image_options(None)).unwrap();
    let back = image::load_from_memory(&out).unwrap();
    assert_eq!((back.width(), back.height()), (5, 4));
    assert_eq!(back.to_rgba8().get_pixel(2, 2).0, [77, 77, 77, 255]);
}

#[test]
fn deep_images_are_resized_at_their_own_depth() {
    let deep = image::ImageBuffer::<image::Rgb<u16>, Vec<u16>>::from_fn(9, 7, |x, y| {
        image::Rgb([(x * 7000) as u16, (y * 9000) as u16, 40001])
    });
    let img = image::DynamicImage::ImageRgb16(deep);
    let mut bytes = std::io::Cursor::new(Vec::new());
    img.write_to(&mut bytes, image::ImageFormat::Png).unwrap();
    let resize = Some(ResizeOptions { width: Some(4), height: Some(3), maintain_aspect_ratio: false });
    let out = convert_image_bytes(bytes.get_ref(), "/o/d.png", "d.png", &image_options(resize.clone())).unwrap();
    let expected = img.resize_exact(4, 3, image::imageops::FilterType::Lanczos3).to_rgba8();
    let back = image::load_from_memory(&out).unwrap().to_rgba8();
    assert_eq!(back, expected);

    let out = convert_image_bytes(bytes.get_ref(), "/o/d.webp", "d.png", &image_options(resize)).unwrap();
    assert_eq!(image::guess_format(&out).unwrap(), image::ImageFormat::WebP);
    let back = image::load_from_memory(&out).unwrap();
    assert_eq!((back.width(), back.height()), (4, 3));
}
