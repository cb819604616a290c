//! Image <-> image targets (JPG/PNG/WebP/HEIC/TIFF/AVIF/BMP, SVG as a
//! source only); JPG and PNG additionally export to PDF/DOCX.
use super::error::ConvertError;
use crate::ext::{
    ext_name, ext_names, ext_strs, lemma_parse_ext_name, lemma_parse_ext_sound, parse_ext, parse_ext_chars, str_views, Ext,
};
use crate::file_type::{extension_of, spec_extension_of};
use crate::text::chars_of;
use vstd::prelude::*;

verus! {

/// The targets offered for a source extension (after the `jpeg`/`tif` aliases are normalized).
pub open spec fn image_targets(e: Option<Ext>) -> Seq<Ext> {
    match e {
        Some(Ext::Jpg) => seq![Ext::Png, Ext::Webp, Ext::Tiff, Ext::Avif, Ext::Bmp, Ext::Pdf, Ext::Docx],
        Some(Ext::Png) => seq![Ext::Jpg, Ext::Webp, Ext::Tiff, Ext::Avif, Ext::Bmp, Ext::Pdf, Ext::Docx],
        Some(Ext::Webp) => seq![Ext::Jpg, Ext::Png, Ext::Tiff, Ext::Avif, Ext::Bmp],
        Some(Ext::Tiff) => seq![Ext::Jpg, Ext::Png, Ext::Webp, Ext::Avif, Ext::Bmp],
        Some(Ext::Bmp) => seq![Ext::Jpg, Ext::Png, Ext::Webp, Ext::Tiff, Ext::Avif],
        Some(Ext::Heic) | Some(Ext::Heif) => seq![Ext::Jpg, Ext::Png, Ext::Webp, Ext::Tiff, Ext::Avif, Ext::Bmp],
        Some(Ext::Svg) => seq![Ext::Jpg, Ext::Png, Ext::Webp, Ext::Tiff, Ext::Avif, Ext::Bmp],
        _ => seq![],
    }
}

fn image_targets_of(e: Option<Ext>) -> (r: Vec<Ext>)
    ensures
        r@ == image_targets(e),
{
    match e {
        Some(Ext::Jpg) => vec![Ext::Png, Ext::Webp, Ext::Tiff, Ext::Avif, Ext::Bmp, Ext::Pdf, Ext::Docx],
        Some(Ext::Png) => vec![Ext::Jpg, Ext::Webp, Ext::Tiff, Ext::Avif, Ext::Bmp, Ext::Pdf, Ext::Docx],
        Some(Ext::Webp) => vec![Ext::Jpg, Ext::Png, Ext::Tiff, Ext::Avif, Ext::Bmp],
        Some(Ext::Tiff) => vec![Ext::Jpg, Ext::Png, Ext::Webp, Ext::Avif, Ext::Bmp],
        Some(Ext::Bmp) => vec![Ext::Jpg, Ext::Png, Ext::Webp, Ext::Tiff, Ext::Avif],
        Some(Ext::Heic) | Some(Ext::Heif) => vec![Ext::Jpg, Ext::Png, Ext::Webp, Ext::Tiff, Ext::Avif, Ext::Bmp],
        Some(Ext::Svg) => vec![Ext::Jpg, Ext::Png, Ext::Webp, Ext::Tiff, Ext::Avif, Ext::Bmp],
        _ => vec![],
    }
}

/// The input-side alias normalization: `jpeg` decodes as `jpg`, `tif` as
/// `tiff`; every other extension is unchanged.
pub open spec fn image_normalize(e: Option<Ext>) -> Option<Ext> {
    match e {
        Some(Ext::Jpeg) => Some(Ext::Jpg),
        Some(Ext::Tif) => Some(Ext::Tiff),
        _ => e,
    }
}

/// The targets `supported_targets` lists for the spelling `s`.
pub open spec fn spec_image_targets(s: Seq<char>) -> Seq<Seq<char>> {
    ext_names(image_targets(image_normalize(parse_ext(s))))
}

/// Extensions this family can produce from `source_ext` (already
/// lower-cased), excluding `source_ext` itself. `avif` is not offered as a
/// source; `svg`, `heic` and `heif` are sources only.
pub fn supported_targets(source_ext: &str) -> (r: Vec<&'static str>)
    ensures
        str_views(r@) == spec_image_targets(source_ext@),
{
    let chars = chars_of(source_ext);
    let e = parse_ext_chars(&chars);
    let normalized = match e {
        Some(Ext::Jpeg) => Some(Ext::Jpg),
        Some(Ext::Tif) => Some(Ext::Tiff),
        other => other,
    };
    let targets = image_targets_of(normalized);
    ext_strs(&targets)
}

/// SVG, HEIC and HEIF are sources only: no spelling lists them as a
/// target. AVIF, which this build cannot decode, offers no targets at all.
pub proof fn lemma_decode_only_formats(s: Seq<char>)
    ensures
        !image_targets(image_normalize(parse_ext(s))).contains(Ext::Svg),
        !image_targets(image_normalize(parse_ext(s))).contains(Ext::Heic),
        !image_targets(image_normalize(parse_ext(s))).contains(Ext::Heif),
        parse_ext(s) == Some(Ext::Avif) ==> spec_image_targets(s).len() == 0,
{
}

/// No image source lists its own (normalized) spelling among its targets,
/// nor the spelling it was given.
pub proof fn lemma_image_targets_exclude_source(s: Seq<char>)
    ensures
        !spec_image_targets(s).contains(s),
        forall|e: Ext| parse_ext(s) == Some(e) ==> !image_targets(image_normalize(Some(e))).contains(e),
{
}


/// The raster formats this family writes, in the order targets are listed.
pub open spec fn raster_targets() -> Seq<Ext> {
    seq![Ext::Jpg, Ext::Png, Ext::Webp, Ext::Tiff, Ext::Avif, Ext::Bmp]
}

/// Every decodable raster format converts to every other raster format in
/// [`raster_targets`] order, JPG and PNG also export to PDF and DOCX (in
/// that order, last); SVG, HEIC and HEIF convert to all raster formats;
/// AVIF offers nothing.
pub proof fn lemma_image_target_matrix()
    ensures
        forall|i: int|
            0 <= i < raster_targets().len() && i != 4 ==> #[trigger] image_targets(Some(raster_targets()[i]))
                == raster_targets().remove(i) + if i < 2 {
                seq![Ext::Pdf, Ext::Docx]
            } else {
                Seq::<Ext>::empty()
            },
        image_targets(Some(Ext::Avif)) == Seq::<Ext>::empty(),
        image_targets(Some(Ext::Svg)) == raster_targets(),
        image_targets(Some(Ext::Heic)) == raster_targets(),
        image_targets(Some(Ext::Heif)) == raster_targets(),
{
    let v = raster_targets();
    assert forall|i: int|
        0 <= i < raster_targets().len() && i != 4 implies #[trigger] image_targets(Some(raster_targets()[i]))
            == raster_targets().remove(i) + if i < 2 {
            seq![Ext::Pdf, Ext::Docx]
        } else {
            Seq::<Ext>::empty()
        } by {
        assert(v.remove(i) =~= v.subrange(0, i) + v.subrange(i + 1, 6));
        if i == 0 {
            assert(image_targets(Some(v[i])) =~= v.remove(i) + seq![Ext::Pdf, Ext::Docx]);
        } else if i == 1 {
            assert(image_targets(Some(v[i])) =~= v.remove(i) + seq![Ext::Pdf, Ext::Docx]);
        } else if i == 2 {
            assert(image_targets(Some(v[i])) =~= v.remove(i) + Seq::<Ext>::empty());
        } else if i == 3 {
            assert(image_targets(Some(v[i])) =~= v.remove(i) + Seq::<Ext>::empty());
        } else {
            assert(image_targets(Some(v[i])) =~= v.remove(i) + Seq::<Ext>::empty());
        }
    }
    assert(image_targets(Some(Ext::Svg)) =~= v);
    assert(image_targets(Some(Ext::Heic)) =~= v);
    assert(image_targets(Some(Ext::Heif)) =~= v);
}

/// `image::ImageError`, carried opaquely until it is turned into a message.
#[verifier::external_type_specification]
#[verifier::external_body]
pub struct ExImageError(image::ImageError);

/// The raster formats this family writes.
#[derive(Clone, Copy, Debug, PartialEq, Eq, Structural)]
pub enum RasterFormat {
    Jpeg,
    Png,
    WebP,
    Tiff,
    Avif,
    Bmp,
}

/// The raster format written for the target spelling `t`, if it is one.
pub open spec fn raster_format(t: Seq<char>) -> Option<RasterFormat> {
    match parse_ext(t) {
        Some(Ext::Jpg) => Some(RasterFormat::Jpeg),
        Some(Ext::Png) => Some(RasterFormat::Png),
        Some(Ext::Webp) => Some(RasterFormat::WebP),
        Some(Ext::Tiff) => Some(RasterFormat::Tiff),
        Some(Ext::Avif) => Some(RasterFormat::Avif),
        Some(Ext::Bmp) => Some(RasterFormat::Bmp),
        _ => None,
    }
}

/// The format each raster target extension is written in, in
/// [`raster_targets`] order.
pub open spec fn raster_writers() -> Seq<RasterFormat> {
    seq![RasterFormat::Jpeg, RasterFormat::Png, RasterFormat::WebP, RasterFormat::Tiff, RasterFormat::Avif, RasterFormat::Bmp]
}

/// Each raster target is written in its own format, and a spelling that
/// is no raster target (`pdf`, `docx`, `jpeg`, ...) is written in none.
pub proof fn lemma_raster_writers(t: Seq<char>)
    ensures
        forall|i: int| 0 <= i < 6 ==> raster_format(ext_name(#[trigger] raster_targets()[i])) == Some(raster_writers()[i]),
        raster_format(t) is Some ==> exists|i: int| 0 <= i < 6 && t == ext_name(#[trigger] raster_targets()[i]),
{
    assert forall|i: int| 0 <= i < 6 implies raster_format(ext_name(#[trigger] raster_targets()[i])) == Some(
        raster_writers()[i],
    ) by {
        lemma_parse_ext_name(raster_targets()[i]);
    }
    if let Some(e) = parse_ext(t) {
        lemma_parse_ext_sound(t);
        if raster_format(t) is Some {
            if e == Ext::Jpg {
                assert(t == ext_name(raster_targets()[0]));
            } else if e == Ext::Png {
                assert(t == ext_name(raster_targets()[1]));
            } else if e == Ext::Webp {
                assert(t == ext_name(raster_targets()[2]));
            } else if e == Ext::Tiff {
                assert(t == ext_name(raster_targets()[3]));
            } else if e == Ext::Avif {
                assert(t == ext_name(raster_targets()[4]));
            } else {
                assert(t == ext_name(raster_targets()[5]));
            }
        }
    }
}

/// Maps a raster target extension to the format it is written in; any
/// other target (among them `pdf` and `docx`, which the document family
/// writes) is an unsupported conversion from `image`.
pub fn target_format(target_extension: &str) -> (r: Result<RasterFormat, ConvertError>)
    ensures
        match raster_format(target_extension@) {
            Some(f) => r matches Ok(g) && g == f,
            None => r matches Err(ConvertError::UnsupportedConversion { from, to }) && from@
                == "image"@ && to@ == target_extension@,
        },
{
    let chars = chars_of(target_extension);
    match parse_ext_chars(&chars) {
        Some(Ext::Jpg) => Ok(RasterFormat::Jpeg),
        Some(Ext::Png) => Ok(RasterFormat::Png),
        Some(Ext::Webp) => Ok(RasterFormat::WebP),
        Some(Ext::Tiff) => Ok(RasterFormat::Tiff),
        Some(Ext::Avif) => Ok(RasterFormat::Avif),
        Some(Ext::Bmp) => Ok(RasterFormat::Bmp),
        _ => Err(
            ConvertError::UnsupportedConversion {
                from: "image".to_owned(),
                to: target_extension.to_owned(),
            },
        ),
    }
}

/// How a source's pixels are obtained.
#[derive(Clone, Copy, Debug, PartialEq, Eq, Structural)]
pub enum ImageSource {
    /// An encoded raster file, decoded by its content.
    Raster,
    /// An SVG document, rasterized at its intrinsic size.
    Svg,
}

/// A checked image conversion: where the pixels come from and what is written.
#[derive(Clone, Copy, Debug, PartialEq, Eq, Structural)]
pub struct ImagePlan {
    pub source: ImageSource,
    pub format: RasterFormat,
}

/// The source's extension as this family reads it: lower-cased, with the
/// `jpeg`/`tif` aliases folded; `None` when it has none or an unknown one.
pub open spec fn image_source_ext(source: Seq<char>) -> Option<Ext> {
    match spec_extension_of(source) {
        Some(x) => image_normalize(parse_ext(x)),
        None => None,
    }
}

/// The message for a HEIC/HEIF source.
pub open spec fn heic_unavailable() -> Seq<char> {
    "HEIC/HEIF decoding requires libheif, which isn't bundled in this build"@
}

/// The message for an AVIF source.
pub open spec fn avif_unavailable() -> Seq<char> {
    "AVIF decoding requires an AV1 decoder (e.g. libdav1d), which isn't bundled in this build"@
}

/// Checks a conversion of `source` to `target_extension`: the target must
/// be a raster format; HEIC/HEIF and AVIF sources cannot be decoded in this
/// build; an SVG source is rasterized, any other source decoded by content.
pub fn plan(source: &str, target_extension: &str) -> (r: Result<ImagePlan, ConvertError>)
    ensures
        match raster_format(target_extension@) {
            None => r matches Err(ConvertError::UnsupportedConversion { from, to }) && from@
                == "image"@ && to@ == target_extension@,
            Some(f) => match image_source_ext(source@) {
                Some(Ext::Heic) | Some(Ext::Heif) => r matches Err(ConvertError::EngineUnavailable(d))
                    && d@ == heic_unavailable(),
                Some(Ext::Avif) => r matches Err(ConvertError::EngineUnavailable(d)) && d@
                    == avif_unavailable(),
                Some(Ext::Svg) => r matches Ok(p) && p == (ImagePlan { source: ImageSource::Svg, format: f }),
                _ => r matches Ok(p) && p == (ImagePlan { source: ImageSource::Raster, format: f }),
            },
        },
{
    let format = match target_format(target_extension) {
        Ok(f) => f,
        Err(e) => return Err(e),
    };
    let e = match extension_of(source) {
        Some(x) => {
            let chars = chars_of(x.as_str());
            match parse_ext_chars(&chars) {
                Some(Ext::Jpeg) => Some(Ext::Jpg),
                Some(Ext::Tif) => Some(Ext::Tiff),
                other => other,
            }
        },
        None => None,
    };
    match e {
        Some(Ext::Heic) | Some(Ext::Heif) => Err(
            ConvertError::EngineUnavailable(
                "HEIC/HEIF decoding requires libheif, which isn't bundled in this build".to_owned(),
            ),
        ),
        Some(Ext::Avif) => Err(
            ConvertError::EngineUnavailable(
                "AVIF decoding requires an AV1 decoder (e.g. libdav1d), which isn't bundled in this build".to_owned(),
            ),
        ),
        Some(Ext::Svg) => Ok(ImagePlan { source: ImageSource::Svg, format }),
        _ => Ok(ImagePlan { source: ImageSource::Raster, format }),
    }
}

/// Whether `image::load_from_memory` decodes `bytes`: the format is guessed
/// from their leading signature, then the matching decoder runs.
pub uninterp spec fn image_decodes(bytes: Seq<u8>) -> bool;

/// The number standing for a raster format in the names below.
pub open spec fn format_code(format: RasterFormat) -> u8 {
    match format {
        RasterFormat::Jpeg => 0,
        RasterFormat::Png => 1,
        RasterFormat::WebP => 2,
        RasterFormat::Tiff => 3,
        RasterFormat::Avif => 4,
        RasterFormat::Bmp => 5,
    }
}

/// What `image::DynamicImage::write_to` writes in the format numbered
/// `format` for the picture `image::load_from_memory` decodes from
/// `bytes`, or `None` when the encoder refuses it. Only the formats whose
/// encoders are deterministic are named: AVIF output depends on the
/// machine (its encoder splits the picture into tiles by the number of
/// threads available), so no clause applies this name to AVIF.
pub uninterp spec fn image_converted(bytes: Seq<u8>, format: u8) -> Option<Seq<u8>>;

/// What `image::DynamicImage::write_to` writes in the format numbered
/// `format` for the RGBA picture `image::RgbaImage::from_raw` makes of
/// `width`, `height` and `pixels`, or `None` when the encoder refuses it.
/// As above, no clause applies this name to AVIF.
pub uninterp spec fn rgba_converted(width: u32, height: u32, pixels: Seq<u8>, format: u8) -> Option<Seq<u8>>;

/// Calls `image::load_from_memory` on `bytes`, then `write_to` on the
/// picture into an in-memory buffer in `format`. The outer result fails
/// exactly when the bytes do not decode; the inner one is the encoder's:
/// for a format other than AVIF the bytes `image_converted` names, or its
/// refusal. Of AVIF output nothing is stated: it depends on the machine.
#[verifier::external_body]
fn decode_and_encode(bytes: &[u8], format: RasterFormat) -> (r: Result<Result<Vec<u8>, image::ImageError>, image::ImageError>)
    ensures
        r.is_ok() == image_decodes(bytes@),
        !(format is Avif) ==> (r matches Ok(inner) ==> match image_converted(bytes@, format_code(format)) {
            Some(out) => inner matches Ok(b) && b@ == out,
            None => inner is Err,
        }),
{
    let f = match format {
        RasterFormat::Jpeg => image::ImageFormat::Jpeg,
        RasterFormat::Png => image::ImageFormat::Png,
        RasterFormat::WebP => image::ImageFormat::WebP,
        RasterFormat::Tiff => image::ImageFormat::Tiff,
        RasterFormat::Avif => image::ImageFormat::Avif,
        RasterFormat::Bmp => image::ImageFormat::Bmp,
    };
    let picture = image::load_from_memory(bytes)?;
    let mut out = std::io::Cursor::new(Vec::new());
    Ok(picture.write_to(&mut out, f).map(|()| out.into_inner()))
}

/// Calls `image::RgbaImage::from_raw` (which accepts the buffer exactly
/// when it holds at least four bytes for each of the `width * height`
/// pixels), then `write_to` on the picture into an in-memory buffer in
/// `format`: for a format other than AVIF the bytes `rgba_converted`
/// names, or the encoder's refusal. Of AVIF output nothing is stated: it
/// depends on the machine.
#[verifier::external_body]
fn encode_rgba(width: u32, height: u32, pixels: Vec<u8>, format: RasterFormat) -> (r: Option<
    Result<Vec<u8>, image::ImageError>,
>)
    ensures
        r.is_some() == (4 * width * height <= pixels@.len()),
        !(format is Avif) ==> (r matches Some(inner) ==> match rgba_converted(width, height, pixels@, format_code(format)) {
            Some(out) => inner matches Ok(b) && b@ == out,
            None => inner is Err,
        }),
{
    let f = match format {
        RasterFormat::Jpeg => image::ImageFormat::Jpeg,
        RasterFormat::Png => image::ImageFormat::Png,
        RasterFormat::WebP => image::ImageFormat::WebP,
        RasterFormat::Tiff => image::ImageFormat::Tiff,
        RasterFormat::Avif => image::ImageFormat::Avif,
        RasterFormat::Bmp => image::ImageFormat::Bmp,
    };
    let picture = image::DynamicImage::ImageRgba8(image::RgbaImage::from_raw(width, height, pixels)?);
    let mut out = std::io::Cursor::new(Vec::new());
    Some(picture.write_to(&mut out, f).map(|()| out.into_inner()))
}

/// The `Display` text of an `image::ImageError`; nothing is stated of it.
#[verifier::external_body]
fn image_error_text(e: &image::ImageError) -> String {
    e.to_string()
}

/// A source's pixels as the caller obtained them.
pub enum SourcePixels {
    /// The bytes of an encoded raster file.
    Encoded(Vec<u8>),
    /// Straight-alpha RGBA rows, four bytes a pixel, as an SVG rasterizer produced them.
    Rgba { width: u32, height: u32, pixels: Vec<u8> },
}

/// The message when rasterized pixels do not fill their stated size.
pub open spec fn raster_size_mismatch() -> Seq<char> {
    "rasterized SVG pixel buffer did not match its declared dimensions"@
}

/// Converts the pixels of `source` to `target_extension`, giving the
/// encoded bytes to write. The checks of [`plan`] come first; then encoded
/// bytes that do not decode give a `Decode` error, rasterized pixels that
/// do not fill their size an `Other` error; otherwise the encoder's bytes,
/// or its refusal as an `Other` error. AVIF bytes depend on the machine
/// the encoder runs on, so for AVIF only that outcome's kind is stated.
pub fn convert(source: &str, target_extension: &str, pixels: SourcePixels) -> (r: Result<Vec<u8>, ConvertError>)
    ensures
        match raster_format(target_extension@) {
            None => r matches Err(ConvertError::UnsupportedConversion { from, to }) && from@
                == "image"@ && to@ == target_extension@,
            Some(f) => match image_source_ext(source@) {
                Some(Ext::Heic) | Some(Ext::Heif) => r matches Err(ConvertError::EngineUnavailable(d))
                    && d@ == heic_unavailable(),
                Some(Ext::Avif) => r matches Err(ConvertError::EngineUnavailable(d)) && d@
                    == avif_unavailable(),
                _ => match pixels {
                    SourcePixels::Encoded(b) => if !image_decodes(b@) {
                        r matches Err(ConvertError::Decode(_))
                    } else if f is Avif {
                        r is Ok || r matches Err(ConvertError::Other(_))
                    } else {
                        match image_converted(b@, format_code(f)) {
                            Some(out) => r matches Ok(v) && v@ == out,
                            None => r matches Err(ConvertError::Other(_)),
                        }
                    },
                    SourcePixels::Rgba { width, height, pixels: p } => if 4 * width * height > p@.len() {
                        r matches Err(ConvertError::Other(d)) && d@ == raster_size_mismatch()
                    } else if f is Avif {
                        r is Ok || r matches Err(ConvertError::Other(_))
                    } else {
                        match rgba_converted(width, height, p@, format_code(f)) {
                            Some(out) => r matches Ok(v) && v@ == out,
                            None => r matches Err(ConvertError::Other(_)),
                        }
                    },
                },
            },
        },
{
    let checked = match plan(source, target_extension) {
        Ok(p) => p,
        Err(e) => return Err(e),
    };
    let encoded = match pixels {
        SourcePixels::Encoded(bytes) => match decode_and_encode(bytes.as_slice(), checked.format) {
            Ok(inner) => inner,
            Err(e) => return Err(ConvertError::Decode(image_error_text(&e))),
        },
        SourcePixels::Rgba { width, height, pixels } => match encode_rgba(width, height, pixels, checked.format) {
            Some(inner) => inner,
            None => return Err(
                ConvertError::Other(
                    "rasterized SVG pixel buffer did not match its declared dimensions".to_owned(),
                ),
            ),
        },
    };
    match encoded {
        Ok(bytes) => Ok(bytes),
        Err(e) => Err(ConvertError::Other(image_error_text(&e))),
    }
}

} // verus!
