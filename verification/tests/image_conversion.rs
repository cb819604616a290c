use satsuma_core::convert::error::ConvertError;
use satsuma_core::convert::image::{convert, plan, target_format, ImagePlan, ImageSource, RasterFormat, SourcePixels};

/// A 4x4 picture in four solid quadrants, encoded as PNG.
fn sample_png() -> Vec<u8> {
    let mut img = ::image::RgbaImage::new(4, 4);
    for y in 0..4 {
        for x in 0..4 {
            let color = match (x < 2, y < 2) {
                (true, true) => ::image::Rgba([255, 0, 0, 255]),
                (false, true) => ::image::Rgba([0, 255, 0, 255]),
                (true, false) => ::image::Rgba([0, 0, 255, 255]),
                (false, false) => ::image::Rgba([255, 255, 255, 255]),
            };
            img.put_pixel(x, y, color);
        }
    }
    let mut out = std::io::Cursor::new(Vec::new());
    ::image::DynamicImage::ImageRgba8(img).write_to(&mut out, ::image::ImageFormat::Png).unwrap();
    out.into_inner()
}

#[test]
fn target_format_maps_each_raster_target() {
    assert_eq!(target_format("jpg").unwrap(), RasterFormat::Jpeg);
    assert_eq!(target_format("png").unwrap(), RasterFormat::Png);
    assert_eq!(target_format("webp").unwrap(), RasterFormat::WebP);
    assert_eq!(target_format("tiff").unwrap(), RasterFormat::Tiff);
    assert_eq!(target_format("avif").unwrap(), RasterFormat::Avif);
    assert_eq!(target_format("bmp").unwrap(), RasterFormat::Bmp);
    match target_format("zip") {
        Err(ConvertError::UnsupportedConversion { from, to }) => {
            assert_eq!(from, "image");
            assert_eq!(to, "zip");
        }
        other => panic!("unexpected {other:?}"),
    }
}

#[test]
fn plan_rejects_pdf_and_docx_targets() {
    for target in ["pdf", "docx"] {
        assert!(matches!(
            plan("/tmp/source.jpg", target),
            Err(ConvertError::UnsupportedConversion { .. })
        ));
    }
}

#[test]
fn plan_refuses_heic_heif_and_avif_sources() {
    for source in ["/tmp/a.heic", "/tmp/a.HEIF"] {
        match plan(source, "jpg") {
            Err(ConvertError::EngineUnavailable(d)) => {
                assert_eq!(d, "HEIC/HEIF decoding requires libheif, which isn't bundled in this build")
            }
            other => panic!("unexpected {other:?}"),
        }
    }
    match plan("/tmp/a.avif", "png") {
        Err(ConvertError::EngineUnavailable(d)) => assert_eq!(
            d,
            "AVIF decoding requires an AV1 decoder (e.g. libdav1d), which isn't bundled in this build"
        ),
        other => panic!("unexpected {other:?}"),
    }
}

#[test]
fn plan_rasterizes_svg_and_decodes_the_rest() {
    assert_eq!(
        plan("/tmp/logo.svg", "png").unwrap(),
        ImagePlan { source: ImageSource::Svg, format: RasterFormat::Png }
    );
    assert_eq!(
        plan("/tmp/photo.jpeg", "webp").unwrap(),
        ImagePlan { source: ImageSource::Raster, format: RasterFormat::WebP }
    );
}

#[test]
fn png_converts_to_lossless_targets_with_pixels_intact() {
    for (target, format) in [("bmp", ::image::ImageFormat::Bmp), ("tiff", ::image::ImageFormat::Tiff)] {
        let bytes = convert("/tmp/source.png", target, SourcePixels::Encoded(sample_png())).unwrap();
        assert_ne!(bytes, sample_png());
        let decoded = ::image::load_from_memory_with_format(&bytes, format).unwrap().to_rgba8();
        assert_eq!(decoded.width(), 4);
        assert_eq!(decoded.height(), 4);
        assert_eq!(decoded.get_pixel(0, 0), &::image::Rgba([255, 0, 0, 255]));
        assert_eq!(decoded.get_pixel(3, 3), &::image::Rgba([255, 255, 255, 255]));
    }
}

#[test]
fn png_converts_to_jpg() {
    let bytes = convert("/tmp/source.png", "jpg", SourcePixels::Encoded(sample_png())).unwrap();
    let decoded = ::image::load_from_memory_with_format(&bytes, ::image::ImageFormat::Jpeg).unwrap();
    assert_eq!(decoded.width(), 4);
    assert_eq!(decoded.height(), 4);
}

#[test]
fn corrupt_source_bytes_are_a_decode_error() {
    let result = convert("/tmp/corrupt.png", "jpg", SourcePixels::Encoded(b"this is not a real png file".to_vec()));
    assert!(matches!(result, Err(ConvertError::Decode(_))));
}

#[test]
fn rasterized_pixels_encode_at_their_size() {
    let pixels = [255u8, 0, 0, 255].repeat(8 * 8);
    let bytes = convert("/tmp/logo.svg", "png", SourcePixels::Rgba { width: 8, height: 8, pixels }).unwrap();
    let decoded = ::image::load_from_memory(&bytes).unwrap().to_rgba8();
    assert_eq!(decoded.width(), 8);
    assert_eq!(decoded.get_pixel(4, 4), &::image::Rgba([255, 0, 0, 255]));
}

#[test]
fn short_rasterized_buffer_is_refused() {
    let result = convert("/tmp/logo.svg", "png", SourcePixels::Rgba { width: 8, height: 8, pixels: vec![0; 10] });
    match result {
        Err(ConvertError::Other(d)) => {
            assert_eq!(d, "rasterized SVG pixel buffer did not match its declared dimensions")
        }
        other => panic!("unexpected {other:?}"),
    }
}

#[test]
fn png_converts_to_avif() {
    let bytes = convert("/tmp/source.png", "avif", SourcePixels::Encoded(sample_png())).unwrap();
    assert!(bytes.len() > 12);
    assert_eq!(&bytes[4..8], b"ftyp");
}
