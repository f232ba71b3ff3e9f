use egui_mcp::color::{hex_color_is_sliceable, parse_hex_color};
use egui_mcp::tools::{highlight_settings, mouse_button_from_name, DEFAULT_HIGHLIGHT_MS};
use egui_mcp::protocol::MouseButton;

#[test]
fn test_parse_hex_color_rgb() {
    assert_eq!(parse_hex_color("#ff0000"), Some([255, 0, 0, 200]));
    assert_eq!(parse_hex_color("#00ff00"), Some([0, 255, 0, 200]));
    assert_eq!(parse_hex_color("#0000ff"), Some([0, 0, 255, 200]));
    assert_eq!(parse_hex_color("ff0000"), Some([255, 0, 0, 200]));
}

#[test]
fn test_parse_hex_color_rgba() {
    assert_eq!(parse_hex_color("#ff000080"), Some([255, 0, 0, 128]));
    assert_eq!(parse_hex_color("#00ff00ff"), Some([0, 255, 0, 255]));
}

#[test]
fn test_parse_hex_color_invalid() {
    assert_eq!(parse_hex_color("#fff"), None);
    assert_eq!(parse_hex_color("#fffff"), None);
    assert_eq!(parse_hex_color(""), None);
}

#[test]
fn hex_colors_accept_mixed_case_and_several_hashes() {
    assert_eq!(parse_hex_color("##AbCdEf"), Some([0xab, 0xcd, 0xef, 200]));
    assert_eq!(parse_hex_color("#zz0000"), None);
    // a channel is exactly two hexadecimal digits
    assert_eq!(parse_hex_color("#+f0000"), None);
    assert_eq!(parse_hex_color("#+f+f+f"), None);
}

#[test]
fn sliceability_check_matches_byte_layout() {
    assert!(hex_color_is_sliceable("#ff0000"));
    assert!(hex_color_is_sliceable("#fff"));
    assert!(hex_color_is_sliceable(""));
    // 'é' is two bytes: "aé" + "bcd" is 6 bytes with a cut inside 'é'
    assert!(!hex_color_is_sliceable("#aébcd"));
}

#[test]
fn highlight_defaults() {
    assert_eq!(highlight_settings(None, None), ([255, 0, 0, 200], DEFAULT_HIGHLIGHT_MS));
    assert_eq!(highlight_settings(Some("#00ff0080"), Some(10)), ([0, 255, 0, 128], 10));
    assert_eq!(highlight_settings(Some("nope"), Some(0)), ([255, 0, 0, 200], 0));
}

#[test]
fn mouse_button_names() {
    assert_eq!(mouse_button_from_name(Some("right")), MouseButton::Right);
    assert_eq!(mouse_button_from_name(Some("middle")), MouseButton::Middle);
    assert_eq!(mouse_button_from_name(Some("left")), MouseButton::Left);
    assert_eq!(mouse_button_from_name(Some("Right")), MouseButton::Left);
    assert_eq!(mouse_button_from_name(None), MouseButton::Left);
}
