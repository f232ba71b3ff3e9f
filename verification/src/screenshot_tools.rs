//! Screenshot tools of the MCP server: loading images given as base64 text
//! or file contents, cropping a screenshot, and the visual diff of two
//! screenshots. Reading files and writing results to disk are left to the
//! caller.

use vstd::prelude::*;
use crate::codec::{base64_decode, base64_decoding, base64_standard, encode_base64};
use crate::image_diff::{ImageView, image_wf, max_nat, spec_visual_diff, visual_diff};
use crate::image_io::{
    Picture, crop_picture, crop_view, decode_file_picture, decode_picture, decoded_file_picture, decoded_picture, decoded_rgba,
    encode_picture_png, encode_rgba_png, has_prefix, png_of, prefixed, rgba_png,
};
use crate::json::{error_json, error_response};

verus! {

/// The JSON error text of a tool whose message is `prefix` followed by
/// `detail`.
pub open spec fn tool_error(error_type: Seq<char>, prefix: Seq<char>, detail: Seq<char>) -> Seq<
    char,
> {
    error_json(error_type, prefix + detail)
}

/// Whether `m` is the error text of type `error_type` whose message starts
/// with `prefix`.
pub open spec fn is_tool_error(m: Seq<char>, error_type: Seq<char>, prefix: Seq<char>) -> bool {
    exists|d: Seq<char>| #[trigger] tool_error(error_type, prefix, d) == m
}

/// A file that the caller has read: the extension of its name (if it has
/// one) and its contents.
pub struct ImageFile {
    pub extension: Option<String>,
    pub contents: Vec<u8>,
}

/// The image that decoding a read file gives.
pub open spec fn file_rgba(f: ImageFile) -> Option<ImageView> {
    match decoded_file_picture(f.extension.deep_view(), f.contents@) {
        Some(v) => Some(v.rgba),
        None => None,
    }
}

/// The image that loading gives: from the base64 text when there is one,
/// else from the file (its format named by its extension); nothing when
/// there is neither, the file could not be read, or the data do not decode.
pub open spec fn spec_loaded(b64: Option<&str>, file: Option<Result<ImageFile, String>>) -> Option<
    ImageView,
> {
    match b64 {
        Some(t) => match base64_decoding(t@) {
            Some(b) => decoded_rgba(b),
            None => None,
        },
        None => match file {
            Some(Ok(f)) => file_rgba(f),
            _ => None,
        },
    }
}

/// Whether `m` is the error text of a failed load: an undecodable base64
/// text, undecodable image data, an unreadable or undecodable file, or no
/// input at all.
pub open spec fn is_load_error(
    b64: Option<&str>,
    file: Option<Result<ImageFile, String>>,
    m: Seq<char>,
) -> bool {
    match b64 {
        Some(t) => match base64_decoding(t@) {
            None => is_tool_error(m, "decode_error"@, "Failed to decode base64: "@),
            Some(_) => is_tool_error(m, "image_error"@, "Failed to load image: "@),
        },
        None => match file {
            Some(Err(e)) => m == tool_error("file_error"@, "Failed to open file: "@, e@),
            Some(Ok(_)) => is_tool_error(m, "file_error"@, "Failed to open file: "@),
            None => m == error_json(
                "missing_input"@,
                "Either base64 data or file path must be provided"@,
            ),
        },
    }
}

/// Appends `detail` to the message `prefix` and wraps it as a tool error.
fn prefixed_error(error_type: &str, prefix: &str, detail: &str) -> (m: String)
    ensures
        m@ == tool_error(error_type@, prefix@, detail@),
{
    let mut message = String::from_str(prefix);
    message.append(detail);
    error_response(error_type, message.as_str())
}

/// Loads an image from base64 text, or else from a file read by the caller
/// (`Err` carries the read error's text), decoded as the format its
/// extension names. Base64 text takes precedence over the file.
pub fn load_image(base64_data: Option<&str>, file: Option<Result<ImageFile, String>>) -> (r: Result<
    Picture,
    String,
>)
    ensures
        match spec_loaded(base64_data, file) {
            Some(v) => r matches Ok(p) && p.spec_rgba() == v && image_wf(v),
            None => r matches Err(m) && is_load_error(base64_data, file, m@),
        },
{
    match base64_data {
        Some(b64) => {
            let bytes = match base64_decode(b64) {
                Ok(b) => b,
                Err(e) => {
                    let m = prefixed_error("decode_error", "Failed to decode base64: ", e.as_str());
                    proof {
                        assert(tool_error("decode_error"@, "Failed to decode base64: "@, e@) == m@);
                    }
                    return Err(m);
                },
            };
            match decode_picture(bytes.as_slice()) {
                Ok(p) => Ok(p),
                Err(e) => {
                    let m = prefixed_error("image_error", "Failed to load image: ", e.as_str());
                    proof {
                        assert(tool_error("image_error"@, "Failed to load image: "@, e@) == m@);
                    }
                    Err(m)
                },
            }
        },
        None => match file {
            Some(Ok(f)) => match decode_file_picture(
                match &f.extension {
                    Some(e) => Some(e.as_str()),
                    None => None,
                },
                f.contents.as_slice(),
            ) {
                Ok(p) => Ok(p),
                Err(e) => {
                    let m = prefixed_error("file_error", "Failed to open file: ", e.as_str());
                    proof {
                        assert(tool_error("file_error"@, "Failed to open file: "@, e@) == m@);
                    }
                    Err(m)
                },
            },
            Some(Err(e)) => Err(prefixed_error("file_error", "Failed to open file: ", e.as_str())),
            None => Err(
                error_response(
                    "missing_input",
                    "Either base64 data or file path must be provided",
                ),
            ),
        },
    }
}

/// The visual diff of two images (see `spec_visual_diff`), as base64 text
/// of its PNG file.
pub fn diff_images(a: &Picture, b: &Picture) -> (r: Result<String, String>)
    requires
        image_wf(a.spec_rgba()),
        image_wf(b.spec_rgba()),
        4 * max_nat(a.spec_width(), b.spec_width()) * max_nat(a.spec_height(), b.spec_height())
            <= usize::MAX,
    ensures
        match rgba_png(spec_visual_diff(a.spec_rgba(), b.spec_rgba())) {
            Some(png) => r matches Ok(t) && t@ == base64_standard(png),
            None => r matches Err(m) && is_tool_error(
                m@,
                "encode_error"@,
                "Failed to encode diff image: "@,
            ),
        },
{
    let ra = a.rgba();
    let rb = b.rgba();
    proof {
        assert(ra@.pixels.len() == 4 * ra@.width * ra@.height);
        assert(4 * ra@.width * ra@.height <= usize::MAX) by (nonlinear_arith)
            requires
                4 * max_nat(ra@.width, rb@.width) * max_nat(ra@.height, rb@.height) <= usize::MAX,
                ra@.width <= max_nat(ra@.width, rb@.width),
                ra@.height <= max_nat(ra@.height, rb@.height),
        ;
        assert(4 * rb@.width * rb@.height <= usize::MAX) by (nonlinear_arith)
            requires
                4 * max_nat(ra@.width, rb@.width) * max_nat(ra@.height, rb@.height) <= usize::MAX,
                rb@.width <= max_nat(ra@.width, rb@.width),
                rb@.height <= max_nat(ra@.height, rb@.height),
        ;
    }
    let diff = visual_diff(ra, rb);
    match encode_rgba_png(&diff) {
        Ok(png) => Ok(encode_base64(png.as_slice())),
        Err(e) => {
            let m = prefixed_error("encode_error", "Failed to encode diff image: ", e.as_str());
            proof {
                assert(tool_error("encode_error"@, "Failed to encode diff image: "@, e@) == m@);
            }
            Err(m)
        },
    }
}

/// Whether the diff of two images of these sizes fits in memory.
pub open spec fn diff_fits(a: ImageView, b: ImageView) -> bool {
    4 * max_nat(a.width, b.width) * max_nat(a.height, b.height) <= usize::MAX
}

/// Loads two images (each from base64 text or file contents, as
/// `load_image` does) and gives the base64 text of their visual diff's PNG
/// file. `None` when both load but their diff would not fit in memory.
pub fn diff_screenshots(
    base64_a: Option<&str>,
    base64_b: Option<&str>,
    file_a: Option<Result<ImageFile, String>>,
    file_b: Option<Result<ImageFile, String>>,
) -> (r: Option<Result<String, String>>)
    ensures
        match (spec_loaded(base64_a, file_a), spec_loaded(base64_b, file_b)) {
            (None, _) => r matches Some(Err(m)) && is_load_error(base64_a, file_a, m@),
            (Some(_), None) => r matches Some(Err(m)) && is_load_error(base64_b, file_b, m@),
            (Some(va), Some(vb)) => if !diff_fits(va, vb) {
                r is None
            } else {
                match rgba_png(spec_visual_diff(va, vb)) {
                    Some(png) => r matches Some(Ok(t)) && t@ == base64_standard(png),
                    None => r matches Some(Err(m)) && is_tool_error(
                        m@,
                        "encode_error"@,
                        "Failed to encode diff image: "@,
                    ),
                }
            },
        },
{
    let img_a = match load_image(base64_a, file_a) {
        Ok(p) => p,
        Err(m) => return Some(Err(m)),
    };
    let img_b = match load_image(base64_b, file_b) {
        Ok(p) => p,
        Err(m) => return Some(Err(m)),
    };
    let wa = img_a.width() as u64;
    let ha = img_a.height() as u64;
    let wb = img_b.width() as u64;
    let hb = img_b.height() as u64;
    let w = if wa >= wb {
        wa
    } else {
        wb
    };
    let h = if ha >= hb {
        ha
    } else {
        hb
    };
    assert(w * h <= 0xffff_ffff_ffff_ffffu64) by (nonlinear_arith)
        requires
            w <= 0xffff_ffffu64,
            h <= 0xffff_ffffu64,
    ;
    let area = w * h;
    let limit = (usize::MAX / 4) as u64;
    assert(w == max_nat(img_a.spec_width(), img_b.spec_width()));
    assert(h == max_nat(img_a.spec_height(), img_b.spec_height()));
    if area > limit {
        assert(4 * (w as int) * (h as int) > usize::MAX) by (nonlinear_arith)
            requires
                area == w * h,
                area > limit,
                limit == usize::MAX / 4,
        ;
        return None;
    }
    assert(4 * (w as int) * (h as int) <= usize::MAX) by (nonlinear_arith)
        requires
            area == w * h,
            area <= limit,
            limit == usize::MAX / 4,
    ;
    Some(diff_images(&img_a, &img_b))
}

/// Crops base64 PNG screenshot data to a region (clamped to the image, as
/// `crop_imm` does, with no further check) and gives the base64 text of
/// the cropped picture's PNG file.
pub fn crop_screenshot(base64_data: &str, x: u32, y: u32, width: u32, height: u32) -> (r: Result<
    String,
    String,
>)
    ensures
        match base64_decoding(base64_data@) {
            None => r matches Err(m) && has_prefix(m@, "Failed to decode base64: "@),
            Some(b) => match decoded_picture(b) {
                None => r matches Err(m) && has_prefix(m@, "Failed to load image: "@),
                Some(v) => match png_of(crop_view(v, x, y, width, height)) {
                    Some(p) => r matches Ok(t) && t@ == base64_standard(p),
                    None => r matches Err(m) && has_prefix(
                        m@,
                        "Failed to encode cropped image: "@,
                    ),
                },
            },
        },
{
    let bytes = match base64_decode(base64_data) {
        Ok(b) => b,
        Err(e) => return Err(prefixed("Failed to decode base64: ", e.as_str())),
    };
    let img = match decode_picture(bytes.as_slice()) {
        Ok(p) => p,
        Err(e) => return Err(prefixed("Failed to load image: ", e.as_str())),
    };
    let cropped = crop_picture(&img, x, y, width, height);
    match encode_picture_png(&cropped) {
        Ok(png) => Ok(encode_base64(png.as_slice())),
        Err(e) => Err(prefixed("Failed to encode cropped image: ", e.as_str())),
    }
}

} // verus!
