use egui_mcp::input::{InputEvent, PendingInput, PointerButton, SpecialKey, input_events, parse_special_key};
use egui_mcp::protocol::MouseButton;

#[test]
fn special_keys_are_recognised_in_any_case() {
    assert_eq!(parse_special_key("Enter"), Some(SpecialKey::Enter));
    assert_eq!(parse_special_key("RETURN"), Some(SpecialKey::Enter));
    assert_eq!(parse_special_key("esc"), Some(SpecialKey::Escape));
    assert_eq!(parse_special_key("Up"), Some(SpecialKey::ArrowUp));
    assert_eq!(parse_special_key("F12"), Some(SpecialKey::F12));
    assert_eq!(parse_special_key("a"), None);
    assert_eq!(parse_special_key(""), None);
}

#[test]
fn click_moves_presses_and_releases() {
    let ev = input_events(vec![PendingInput::Click { x: 10i32, y: 20i32, button: MouseButton::Right }]);
    assert_eq!(ev.len(), 3);
    assert!(matches!(ev[0], InputEvent::PointerMoved { x: 10, y: 20 }));
    assert!(matches!(ev[1], InputEvent::PointerButton { x: 10, y: 20, button: PointerButton::Secondary, pressed: true }));
    assert!(matches!(ev[2], InputEvent::PointerButton { pressed: false, .. }));
}

#[test]
fn inputs_expand_in_order() {
    let ev = input_events(vec![
        PendingInput::Keyboard { key: "Tab".to_string() },
        PendingInput::Keyboard { key: "hello".to_string() },
        PendingInput::DoubleClick { x: 1i32, y: 2i32, button: MouseButton::Left },
        PendingInput::Scroll { x: 3, y: 4, delta_x: 5, delta_y: -6 },
        PendingInput::Drag { start_x: 0, start_y: 0, end_x: 9, end_y: 9, button: MouseButton::Middle },
        PendingInput::MoveMouse { x: 7, y: 8 },
    ]);
    assert_eq!(ev.len(), 2 + 1 + 5 + 2 + 4 + 1);
    assert!(matches!(ev[0], InputEvent::Key { key: SpecialKey::Tab, pressed: true }));
    assert!(matches!(ev[1], InputEvent::Key { key: SpecialKey::Tab, pressed: false }));
    assert!(matches!(&ev[2], InputEvent::Text(t) if t == "hello"));
    assert!(matches!(ev[3], InputEvent::PointerMoved { x: 1, y: 2 }));
    assert!(matches!(ev[9], InputEvent::MouseWheel { delta_x: 5, delta_y: -6 }));
    assert!(matches!(ev[11], InputEvent::PointerButton { button: PointerButton::Middle, pressed: true, .. }));
    assert!(matches!(ev[12], InputEvent::PointerMoved { x: 9, y: 9 }));
    assert!(matches!(ev[14], InputEvent::PointerMoved { x: 7, y: 8 }));
}

#[test]
fn no_inputs_no_events() {
    let ev: Vec<InputEvent<i32>> = input_events(vec![]);
    assert!(ev.is_empty());
}
