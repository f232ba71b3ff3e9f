//! Screenshots as images: decoding, cropping, encoding and visual diffs.
//!
//! Decoding and encoding are done by the `image` crate; the region checks
//! and the pixel comparison are this library's own.

use std::io::Cursor;
use image::error::ImageFormatHint;
use image::{ImageError, ImageFormat, ImageReader};
use vstd::prelude::*;
use crate::ids::{decimal_text, push_decimal};
use crate::image_diff::{ImageView, RgbaImageData, image_wf};

verus! {

#[verifier::external_type_specification]
#[verifier::external_body]
pub struct ExDynamicImage(image::DynamicImage);

/// The colour type of a decoded image (`image::ColorType`).
#[derive(Clone, Copy, PartialEq, Eq, Structural, Debug)]
pub enum ColorKind {
    L8,
    La8,
    Rgb8,
    Rgba8,
    L16,
    La16,
    Rgb16,
    Rgba16,
    Rgb32F,
    Rgba32F,
    /// A colour type this library does not know.
    Other,
}

/// Bytes per pixel of a colour type.
pub open spec fn kind_bpp(k: ColorKind) -> nat {
    match k {
        ColorKind::L8 => 1,
        ColorKind::La8 => 2,
        ColorKind::Rgb8 => 3,
        ColorKind::Rgba8 => 4,
        ColorKind::L16 => 2,
        ColorKind::La16 => 4,
        ColorKind::Rgb16 => 6,
        ColorKind::Rgba16 => 8,
        ColorKind::Rgb32F => 12,
        ColorKind::Rgba32F => 16,
        ColorKind::Other => 0,
    }
}

/// View of a decoded image: its colour type, its size, its samples as raw
/// bytes (rows from top to bottom, `kind_bpp(kind)` bytes per pixel), and
/// its pixels converted to 8-bit RGBA.
pub struct PictureView {
    pub kind: ColorKind,
    pub width: nat,
    pub height: nat,
    pub samples: Seq<u8>,
    pub rgba: ImageView,
}

/// A decoded image, together with its colour type, its raw samples and its
/// pixels as 8-bit RGBA.
pub struct Picture {
    image: image::DynamicImage,
    kind: ColorKind,
    samples: Vec<u8>,
    rgba: RgbaImageData,
}

impl View for Picture {
    type V = PictureView;

    closed spec fn view(&self) -> PictureView {
        PictureView {
            kind: self.kind,
            width: self.rgba.width as nat,
            height: self.rgba.height as nat,
            samples: self.samples@,
            rgba: self.rgba@,
        }
    }
}

impl Picture {
    /// The image's pixels as 8-bit RGBA.
    pub open spec fn spec_rgba(&self) -> ImageView {
        self@.rgba
    }

    /// Width in pixels.
    pub open spec fn spec_width(&self) -> nat {
        self.spec_rgba().width
    }

    /// Height in pixels.
    pub open spec fn spec_height(&self) -> nat {
        self.spec_rgba().height
    }

    proof fn lemma_view(&self)
        ensures
            self@.rgba == self.rgba@,
            self@.width == self.rgba.width,
            self@.height == self.rgba.height,
    {
    }

    /// Width in pixels.
    pub fn width(&self) -> (w: u32)
        ensures
            w == self.spec_width(),
    {
        proof {
            self.lemma_view();
        }
        self.rgba.width
    }

    /// Height in pixels.
    pub fn height(&self) -> (h: u32)
        ensures
            h == self.spec_height(),
    {
        proof {
            self.lemma_view();
        }
        self.rgba.height
    }

    /// The image's pixels as 8-bit RGBA.
    pub fn rgba(&self) -> (r: &RgbaImageData)
        ensures
            r@ == self.spec_rgba(),
    {
        proof {
            self.lemma_view();
        }
        &self.rgba
    }

    /// The decoded image that this picture holds.
    pub closed spec fn spec_image(&self) -> image::DynamicImage {
        self.image
    }

    /// The decoded image itself.
    pub fn into_image(self) -> (img: image::DynamicImage)
        ensures
            img == self.spec_image(),
    {
        self.image
    }
}

/// Whether a view is that of a well-formed picture: the RGBA pixels and the
/// samples are as large as the size says, and the RGBA size is the size.
pub open spec fn picture_wf(v: PictureView) -> bool {
    &&& image_wf(v.rgba)
    &&& v.rgba.width == v.width
    &&& v.rgba.height == v.height
    &&& (v.kind != ColorKind::Other ==> v.samples.len() == kind_bpp(v.kind) * v.width * v.height)
}

/// `DynamicImage::color`, told apart by variant.
#[verifier::external_body]
fn color_kind(image: &image::DynamicImage) -> ColorKind {
    match image.color() {
        image::ColorType::L8 => ColorKind::L8,
        image::ColorType::La8 => ColorKind::La8,
        image::ColorType::Rgb8 => ColorKind::Rgb8,
        image::ColorType::Rgba8 => ColorKind::Rgba8,
        image::ColorType::L16 => ColorKind::L16,
        image::ColorType::La16 => ColorKind::La16,
        image::ColorType::Rgb16 => ColorKind::Rgb16,
        image::ColorType::Rgba16 => ColorKind::Rgba16,
        image::ColorType::Rgb32F => ColorKind::Rgb32F,
        image::ColorType::Rgba32F => ColorKind::Rgba32F,
        _ => ColorKind::Other,
    }
}

/// The image that `image::load_from_memory` decodes from `bytes`: its
/// colour type (`color`), size, raw samples (`as_bytes`) and RGBA pixels
/// (`to_rgba8`); nothing when the bytes do not decode.
pub uninterp spec fn decoded_picture(bytes: Seq<u8>) -> Option<PictureView>;

/// The RGBA pixels of the image decoded from `bytes`.
pub open spec fn decoded_rgba(bytes: Seq<u8>) -> Option<ImageView> {
    match decoded_picture(bytes) {
        Some(v) => Some(v.rgba),
        None => None,
    }
}

/// `image::load_from_memory`, keeping the decoded image with its colour
/// type, raw samples and RGBA pixels (`to_rgba8`), which `decoded_picture`
/// names. Decoders fill a buffer of exactly the image's size, and
/// `to_rgba8` gives four bytes per pixel. On failure, the error's text.
#[verifier::external_body]
pub(crate) fn decode_picture(bytes: &[u8]) -> (r: Result<Picture, String>)
    ensures
        match decoded_picture(bytes@) {
            Some(v) => r matches Ok(p) && p@ == v,
            None => r is Err,
        },
        r matches Ok(p) ==> picture_wf(p@),
{
    match image::load_from_memory(bytes) {
        Ok(image) => {
            let buf = image.to_rgba8();
            let rgba = RgbaImageData { width: buf.width(), height: buf.height(), pixels: buf.into_raw() };
            let (kind, samples) = (color_kind(&image), image.as_bytes().to_vec());
            Ok(Picture { image, kind, samples, rgba })
        },
        Err(e) => Err(format!("{}", e)),
    }
}

/// The image that `ImageReader` decodes from the contents `bytes` of a file
/// whose name has this extension: the decoder is the one that the extension
/// names (as `image::open` chooses it); nothing when there is no extension,
/// the extension names no format, or the bytes do not decode.
pub uninterp spec fn decoded_file_picture(extension: Option<Seq<char>>, bytes: Seq<u8>) -> Option<
    PictureView,
>;

/// The extension as text, if any.
pub open spec fn extension_view(extension: Option<&str>) -> Option<Seq<char>> {
    match extension {
        Some(e) => Some(e@),
        None => None,
    }
}

/// Decodes file contents as `image::open` does once the file is read: the
/// format comes from the file name's extension (`ImageFormat::from_extension`,
/// with `ImageReader::set_format` and `decode`), and an extension that names
/// no format is refused with the error `image::open` gives. The decoded
/// image is kept with its colour type, raw samples and RGBA pixels, which
/// `decoded_file_picture` names. On failure, the error's text.
#[verifier::external_body]
pub(crate) fn decode_file_picture(extension: Option<&str>, bytes: &[u8]) -> (r: Result<Picture, String>)
    ensures
        match decoded_file_picture(extension_view(extension), bytes@) {
            Some(v) => r matches Ok(p) && p@ == v,
            None => r is Err,
        },
        r matches Ok(p) ==> picture_wf(p@),
{
    let mut reader = ImageReader::new(Cursor::new(bytes));
    if let Some(ext) = extension {
        match ImageFormat::from_extension(ext) {
            Some(format) => reader.set_format(format),
            None => return Err(ImageError::Unsupported(ImageFormatHint::PathExtension(ext.into()).into()).to_string()),
        }
    }
    let image = reader.decode().map_err(|e| e.to_string())?;
    let buf = image.to_rgba8();
    let rgba = RgbaImageData { width: buf.width(), height: buf.height(), pixels: buf.into_raw() };
    let (kind, samples) = (color_kind(&image), image.as_bytes().to_vec());
    Ok(Picture { image, kind, samples, rgba })
}

/// Whether two pictures have the same size.
pub fn same_size(a: &Picture, b: &Picture) -> (r: bool)
    ensures
        r == (a.spec_width() == b.spec_width() && a.spec_height() == b.spec_height()),
{
    a.width() == b.width() && a.height() == b.height()
}

/// The region that `image::imageops::crop_imm` keeps: the start is clamped
/// to the image, and the size to what remains of it from there.
pub open spec fn crop_dims(iw: nat, ih: nat, x: u32, y: u32, w: u32, h: u32) -> (nat, nat, nat, nat) {
    let cx: nat = if x < iw {
        x as nat
    } else {
        iw
    };
    let cy: nat = if y < ih {
        y as nat
    } else {
        ih
    };
    let cw: nat = if w < iw - cx {
        w as nat
    } else {
        (iw - cx) as nat
    };
    let ch: nat = if h < ih - cy {
        h as nat
    } else {
        (ih - cy) as nat
    };
    (cx, cy, cw, ch)
}

/// The `w` x `h` block of pixels at (`x`, `y`) of an image `width` pixels
/// wide whose pixels are `bpp` bytes each, row by row.
pub open spec fn crop_bytes(
    s: Seq<u8>,
    bpp: nat,
    width: nat,
    x: nat,
    y: nat,
    w: nat,
    h: nat,
) -> Seq<u8> {
    Seq::new(
        bpp * w * h,
        |i: int| s[((y + i / (bpp * w) as int) * width + x) * bpp + i % (bpp * w) as int],
    )
}

/// The picture that cropping `v` to the region at (`x`, `y`) of size
/// `w` x `h` gives, the region clamped as `crop_dims` says: same colour
/// type, and the pixels of that region.
pub open spec fn crop_view(v: PictureView, x: u32, y: u32, w: u32, h: u32) -> PictureView {
    let (cx, cy, cw, ch) = crop_dims(v.width, v.height, x, y, w, h);
    PictureView {
        kind: v.kind,
        width: cw,
        height: ch,
        samples: crop_bytes(v.samples, kind_bpp(v.kind), v.width, cx, cy, cw, ch),
        rgba: ImageView {
            width: cw,
            height: ch,
            pixels: crop_bytes(v.rgba.pixels, 4, v.width, cx, cy, cw, ch),
        },
    }
}

/// `DynamicImage::crop_imm`: the clamped region of the image, of the same
/// colour type; its raw samples and RGBA pixels (`to_rgba8`, which converts
/// pixel by pixel) are those of the region.
#[verifier::external_body]
pub(crate) fn crop_picture(p: &Picture, x: u32, y: u32, w: u32, h: u32) -> (r: Picture)
    requires
        picture_wf(p@),
    ensures
        r@ == crop_view(p@, x, y, w, h),
        picture_wf(r@),
{
    let image = p.image.crop_imm(x, y, w, h);
    let buf = image.to_rgba8();
    let rgba = RgbaImageData { width: buf.width(), height: buf.height(), pixels: buf.into_raw() };
    let samples = image.as_bytes().to_vec();
    Picture { image, kind: p.kind, samples, rgba }
}

/// The PNG file that `DynamicImage::write_to` with the PNG format writes
/// for an image of this colour type, size and raw samples (colour-space
/// metadata is not written to PNG files); nothing when the encoder fails.
pub uninterp spec fn picture_png(kind: ColorKind, width: nat, height: nat, samples: Seq<u8>) -> Option<
    Seq<u8>,
>;

/// The PNG file of a picture.
pub open spec fn png_of(v: PictureView) -> Option<Seq<u8>> {
    picture_png(v.kind, v.width, v.height, v.samples)
}

/// `DynamicImage::write_to` with the PNG format, into memory; the bytes are
/// named by `picture_png`. On failure, the error's text.
#[verifier::external_body]
pub(crate) fn encode_picture_png(p: &Picture) -> (r: Result<Vec<u8>, String>)
    ensures
        match picture_png(p@.kind, p@.width, p@.height, p@.samples) {
            Some(b) => r matches Ok(v) && v@ == b,
            None => r is Err,
        },
{
    let mut buf = Cursor::new(Vec::new());
    match p.image.write_to(&mut buf, image::ImageFormat::Png) {
        Ok(()) => Ok(buf.into_inner()),
        Err(e) => Err(format!("{}", e)),
    }
}

/// The PNG file that `RgbaImage::write_to` with the PNG format writes for
/// an RGBA image; nothing when the encoder fails.
pub uninterp spec fn rgba_png(img: ImageView) -> Option<Seq<u8>>;

/// `RgbaImage::from_raw` then `write_to` with the PNG format, into memory;
/// the bytes are named by `rgba_png`. `from_raw` accepts a buffer of four
/// bytes per pixel, which `requires` asks for. On failure, the error's text.
#[verifier::external_body]
pub(crate) fn encode_rgba_png(img: &RgbaImageData) -> (r: Result<Vec<u8>, String>)
    requires
        image_wf(img@),
    ensures
        match rgba_png(img@) {
            Some(b) => r matches Ok(v) && v@ == b,
            None => r is Err,
        },
{
    let mut buf = Cursor::new(Vec::new());
    match image::RgbaImage::from_raw(img.width, img.height, img.pixels.clone()) {
        Some(rgba) => match rgba.write_to(&mut buf, image::ImageFormat::Png) {
            Ok(()) => Ok(buf.into_inner()),
            Err(e) => Err(format!("{}", e)),
        },
        None => Err(String::from("pixel buffer does not match the image size")),
    }
}

/// Whether `m` begins with `p`.
pub open spec fn has_prefix(m: Seq<char>, p: Seq<char>) -> bool {
    p.len() <= m.len() && m.subrange(0, p.len() as int) == p
}

/// A prefix stays a prefix when the same text is put before both.
pub proof fn lemma_prefix_concat(p: Seq<char>, q: Seq<char>, e: Seq<char>)
    ensures
        has_prefix(e, q) ==> has_prefix(p + e, p + q),
{
    if has_prefix(e, q) {
        assert((p + e).subrange(0, (p + q).len() as int) =~= p + q);
    }
}

/// The text `prefix` followed by `detail`.
pub fn prefixed(prefix: &str, detail: &str) -> (m: String)
    ensures
        m@ == prefix@ + detail@,
        has_prefix(m@, prefix@),
{
    let mut m = String::from_str(prefix);
    m.append(detail);
    assert(m@.subrange(0, prefix@.len() as int) =~= prefix@);
    m
}

/// Why a requested crop region is refused.
pub enum CropRegionError {
    /// The region starts outside the image.
    OutsideImage { image_width: u32, image_height: u32, x: u32, y: u32 },
    /// Clamped to the image, the region is empty.
    Empty,
}

/// The size a crop keeps: the requested size clamped to what remains of
/// the image from the start point. Refused when the start lies outside the
/// image or nothing remains.
pub open spec fn spec_crop_region(iw: nat, ih: nat, x: u32, y: u32, w: u32, h: u32) -> Result<
    (u32, u32),
    CropRegionError,
> {
    if x >= iw || y >= ih {
        Err(CropRegionError::OutsideImage { image_width: iw as u32, image_height: ih as u32, x, y })
    } else {
        let cw = if w < iw - x {
            w
        } else {
            (iw - x) as u32
        };
        let ch = if h < ih - y {
            h
        } else {
            (ih - y) as u32
        };
        if cw == 0 || ch == 0 {
            Err(CropRegionError::Empty)
        } else {
            Ok((cw, ch))
        }
    }
}

/// Checks a crop request against an image of size `iw` x `ih`.
pub fn check_crop_region(iw: u32, ih: u32, x: u32, y: u32, w: u32, h: u32) -> (r: Result<
    (u32, u32),
    CropRegionError,
>)
    ensures
        r == spec_crop_region(iw as nat, ih as nat, x, y, w, h),
{
    if x >= iw || y >= ih {
        return Err(CropRegionError::OutsideImage { image_width: iw, image_height: ih, x, y });
    }
    let cw = if w < iw - x {
        w
    } else {
        iw - x
    };
    let ch = if h < ih - y {
        h
    } else {
        ih - y
    };
    if cw == 0 || ch == 0 {
        Err(CropRegionError::Empty)
    } else {
        Ok((cw, ch))
    }
}

/// Text of a refused crop region.
pub open spec fn crop_error_text(e: CropRegionError) -> Seq<char> {
    match e {
        CropRegionError::OutsideImage { image_width, image_height, x, y } =>
            "Crop region starts outside image bounds. Image: "@ + decimal_text(image_width as nat)
            + "x"@ + decimal_text(image_height as nat) + ", Region start: ("@ + decimal_text(
            x as nat,
        ) + ", "@ + decimal_text(y as nat) + ")"@,
        CropRegionError::Empty => "Crop region has zero width or height"@,
    }
}

/// Describes a refused crop region.
pub fn crop_error_message(e: &CropRegionError) -> (m: String)
    ensures
        m@ == crop_error_text(*e),
{
    match e {
        CropRegionError::OutsideImage { image_width, image_height, x, y } => {
            let mut m = String::from_str("Crop region starts outside image bounds. Image: ");
            push_decimal(&mut m, *image_width as u64);
            m.append("x");
            push_decimal(&mut m, *image_height as u64);
            m.append(", Region start: (");
            push_decimal(&mut m, *x as u64);
            m.append(", ");
            push_decimal(&mut m, *y as u64);
            m.append(")");
            m
        },
        CropRegionError::Empty => String::from_str("Crop region has zero width or height"),
    }
}

} // verus!
