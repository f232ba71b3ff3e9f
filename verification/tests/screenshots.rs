use base64::Engine;
use egui_mcp::codec::{base64_decode, encode_base64};
use egui_mcp::image_diff::{RgbaImageData, visual_diff};
use egui_mcp::image_io::{CropRegionError, check_crop_region, crop_error_message};
use egui_mcp::ipc_server::{IpcServer, ScreenshotOutcome};
use egui_mcp::protocol::Response;
use egui_mcp::screenshot_tools::{ImageFile, crop_screenshot, diff_screenshots, load_image};

fn image(width: u32, height: u32, rgba: [u8; 4]) -> RgbaImageData {
    let mut pixels = Vec::new();
    for _ in 0..(width * height) {
        pixels.extend_from_slice(&rgba);
    }
    RgbaImageData { width, height, pixels }
}

fn png(width: u32, height: u32, rgba: [u8; 4]) -> Vec<u8> {
    let img = image(width, height, rgba);
    let buf = image::RgbaImage::from_raw(img.width, img.height, img.pixels).unwrap();
    let mut out = std::io::Cursor::new(Vec::new());
    buf.write_to(&mut out, image::ImageFormat::Png).unwrap();
    out.into_inner()
}

/// Width, height and RGBA pixels of PNG data.
fn decoded(bytes: &[u8]) -> (u32, u32, Vec<u8>) {
    let img = image::load_from_memory(bytes).unwrap().to_rgba8();
    (img.width(), img.height(), img.into_raw())
}

#[test]
fn base64_matches_the_standard_alphabet() {
    assert_eq!(encode_base64(b""), "");
    assert_eq!(encode_base64(b"f"), "Zg==");
    assert_eq!(encode_base64(b"fo"), "Zm8=");
    assert_eq!(encode_base64(b"foo"), "Zm9v");
    assert_eq!(encode_base64(&[0xfb, 0xff]), "+/8=");
}

#[test]
fn visual_diff_marks_equal_pixels_grey_and_others_red() {
    let a = RgbaImageData { width: 2, height: 1, pixels: vec![30, 60, 90, 255, 1, 1, 1, 255] };
    let b = RgbaImageData { width: 1, height: 2, pixels: vec![30, 60, 90, 255, 9, 9, 9, 255] };
    let d = visual_diff(&a, &b);
    assert_eq!((d.width, d.height), (2, 2));
    assert_eq!(
        d.pixels,
        vec![
            60, 60, 60, 128, // same pixel: grey of (30+60+90)/3
            255, 0, 0, 255, // b lacks (1,0): black vs (1,1,1)
            255, 0, 0, 255, // a lacks (0,1)
            0, 0, 0, 128, // both read as opaque black outside
        ]
    );
}

#[test]
fn crop_region_checks() {
    assert!(matches!(check_crop_region(10, 10, 2, 3, 100, 4), Ok((8, 4))));
    let e = check_crop_region(10, 10, 10, 0, 1, 1);
    assert!(matches!(e, Err(CropRegionError::OutsideImage { image_width: 10, image_height: 10, x: 10, y: 0 })));
    if let Err(e) = e {
        assert_eq!(crop_error_message(&e), "Crop region starts outside image bounds. Image: 10x10, Region start: (10, 0)");
    }
    let e = check_crop_region(10, 10, 1, 1, 0, 5);
    assert!(matches!(e, Err(CropRegionError::Empty)));
    if let Err(e) = e {
        assert_eq!(crop_error_message(&e), "Crop region has zero width or height");
    }
}

#[test]
fn region_screenshot_is_cropped() {
    let data = png(8, 6, [10, 20, 30, 255]);
    let r = IpcServer::region_screenshot_response(ScreenshotOutcome::Delivered(data.clone()), 2, 1, 100, 3);
    match r {
        Response::Screenshot { data, format } => {
            assert_eq!(format, "png");
            let bytes = base64::engine::general_purpose::STANDARD.decode(data).unwrap();
            let (w, h, _) = decoded(&bytes);
            assert_eq!((w, h), (6, 3));
        }
        _ => panic!("expected a screenshot"),
    }
    let r = IpcServer::region_screenshot_response(ScreenshotOutcome::Delivered(data), 8, 0, 1, 1);
    assert!(matches!(r, Response::Error { message } if message == "Failed to crop screenshot: Crop region starts outside image bounds. Image: 8x6, Region start: (8, 0)"));
    let r = IpcServer::region_screenshot_response(ScreenshotOutcome::Delivered(vec![1, 2, 3]), 0, 0, 1, 1);
    assert!(matches!(r, Response::Error { message } if message.starts_with("Failed to crop screenshot: Failed to load image: ")));
    let r = IpcServer::region_screenshot_response(ScreenshotOutcome::Cancelled, 0, 0, 1, 1);
    assert!(matches!(r, Response::Error { message } if message == "Screenshot request was cancelled"));
}

#[test]
fn tool_crop_clamps_without_refusing() {
    let data = encode_base64(&png(4, 4, [0, 0, 0, 255]));
    let out = crop_screenshot(&data, 3, 3, 10, 10).ok().unwrap();
    let bytes = base64::engine::general_purpose::STANDARD.decode(out).unwrap();
    let (w, h, _) = decoded(&bytes);
    assert_eq!((w, h), (1, 1));
    assert!(crop_screenshot("!!", 0, 0, 1, 1).err().unwrap().starts_with("Failed to decode base64: "));
    assert!(crop_screenshot("AQID", 0, 0, 1, 1).err().unwrap().starts_with("Failed to load image: "));
}

#[test]
fn loading_images_reports_each_failure() {
    let good = encode_base64(&png(2, 2, [1, 2, 3, 4]));
    let p = load_image(Some(&good), None).ok().unwrap();
    assert_eq!(p.rgba().pixels, vec![1, 2, 3, 4, 1, 2, 3, 4, 1, 2, 3, 4, 1, 2, 3, 4]);
    assert!(load_image(Some("%%"), None).err().unwrap().starts_with("{\"error\":\"decode_error\",\"message\":\"Failed to decode base64: "));
    assert!(load_image(Some("AQID"), None).err().unwrap().starts_with("{\"error\":\"image_error\",\"message\":\"Failed to load image: "));
    assert_eq!(
        load_image(None, Some(Err("No such file".to_string()))).err().unwrap(),
        "{\"error\":\"file_error\",\"message\":\"Failed to open file: No such file\"}"
    );
    let file = |ext: Option<&str>| ImageFile { extension: ext.map(|e| e.to_string()), contents: png(1, 1, [0; 4]) };
    assert!(load_image(None, Some(Ok(file(Some("png"))))).is_ok());
    assert!(load_image(None, Some(Ok(file(Some("PNG"))))).is_ok());
    // the format comes from the extension, not from the contents
    assert!(load_image(None, Some(Ok(file(None)))).err().unwrap().starts_with("{\"error\":\"file_error\",\"message\":\"Failed to open file: "));
    assert!(load_image(None, Some(Ok(file(Some("xyz"))))).is_err());
    assert!(load_image(None, Some(Ok(file(Some("jpg"))))).is_err());
    assert_eq!(
        load_image(None, None).err().unwrap(),
        "{\"error\":\"missing_input\",\"message\":\"Either base64 data or file path must be provided\"}"
    );
}

#[test]
fn diffing_two_screenshots() {
    let a = encode_base64(&png(2, 1, [9, 9, 9, 255]));
    let b = encode_base64(&png(2, 1, [9, 9, 9, 255]));
    let out = diff_screenshots(Some(&a), Some(&b), None, None).unwrap().ok().unwrap();
    let bytes = base64::engine::general_purpose::STANDARD.decode(out).unwrap();
    let (_, _, pixels) = decoded(&bytes);
    assert_eq!(pixels, vec![9, 9, 9, 128, 9, 9, 9, 128]);
    let err = diff_screenshots(None, Some(&b), None, None).unwrap().err().unwrap();
    assert!(err.contains("missing_input"));
}

#[test]
fn visual_diff_does_not_depend_on_the_order_of_the_images() {
    let a = RgbaImageData { width: 2, height: 2, pixels: vec![1, 2, 3, 4, 5, 6, 7, 8, 9, 9, 9, 255, 0, 0, 0, 0] };
    let b = RgbaImageData { width: 3, height: 1, pixels: vec![1, 2, 3, 4, 0, 0, 0, 0, 7, 7, 7, 7] };
    let ab = visual_diff(&a, &b);
    let ba = visual_diff(&b, &a);
    assert_eq!((ab.width, ab.height), (ba.width, ba.height));
    assert_eq!(ab.pixels, ba.pixels);
    assert_eq!(ab.pixels.len(), 4 * 3 * 2);
}

#[test]
fn crops_keep_the_pixels_of_the_region() {
    // 3x2 image whose red channel numbers the pixels
    let mut pixels = Vec::new();
    for i in 0..6u8 {
        pixels.extend_from_slice(&[i, 0, 0, 255]);
    }
    let img = image::RgbaImage::from_raw(3, 2, pixels).unwrap();
    let mut out = std::io::Cursor::new(Vec::new());
    img.write_to(&mut out, image::ImageFormat::Png).unwrap();
    let data = out.into_inner();
    let cropped = IpcServer::crop_screenshot(&data, 1, 1, 5, 5).ok().unwrap();
    let (w, h, px) = decoded(&cropped);
    assert_eq!((w, h), (2, 1));
    assert_eq!(px, vec![4, 0, 0, 255, 5, 0, 0, 255]);
    let b64 = crop_screenshot(&encode_base64(&data), 0, 0, 2, 1).ok().unwrap();
    let bytes = base64::engine::general_purpose::STANDARD.decode(b64).unwrap();
    let (_, _, px) = decoded(&bytes);
    assert_eq!(px, vec![0, 0, 0, 255, 1, 0, 0, 255]);
}

#[test]
fn base64_decoding_accepts_only_canonical_text() {
    assert_eq!(base64_decode("Zm9v").ok().unwrap(), b"foo".to_vec());
    assert_eq!(base64_decode("Zg==").ok().unwrap(), b"f".to_vec());
    assert_eq!(base64_decode("").ok().unwrap(), Vec::<u8>::new());
    assert!(base64_decode("Zh==").is_err());
    assert!(base64_decode("Zg").is_err());
    assert!(base64_decode("Zm 9v").is_err());
    for data in [vec![], vec![0u8], vec![1, 2], vec![255, 254, 253, 0]] {
        assert_eq!(base64_decode(&encode_base64(&data)).ok().unwrap(), data);
    }
}
