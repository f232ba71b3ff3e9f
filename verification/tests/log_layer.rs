use egui_mcp::levels::level_to_priority;
use egui_mcp::logs::{LogEntry, McpLogLayer, select_logs, push_bounded, truncate_to_limit};
use std::collections::VecDeque;

#[test]
fn test_truncate_message_short() {
    let (layer, _) = McpLogLayer::with_message_limit(100, 50);
    let msg = "Hello, World!".to_string();
    assert_eq!(layer.truncate_message(msg.clone()), msg);
}

#[test]
fn test_truncate_message_exact_limit() {
    let (layer, _) = McpLogLayer::with_message_limit(100, 13);
    let msg = "Hello, World!".to_string(); // exactly 13 chars
    assert_eq!(layer.truncate_message(msg.clone()), msg);
}

#[test]
fn test_truncate_message_over_limit() {
    let (layer, _) = McpLogLayer::with_message_limit(100, 10);
    let msg = "Hello, World!".to_string();
    let truncated = layer.truncate_message(msg);
    assert!(truncated.ends_with("..."));
    assert!(truncated.len() <= 10);
}

#[test]
fn test_truncate_message_unicode() {
    let (layer, _) = McpLogLayer::with_message_limit(100, 10);
    let msg = "こんにちは世界".to_string(); // 7 chars, 21 bytes
    let truncated = layer.truncate_message(msg);
    assert!(truncated.ends_with("..."));
    assert!(truncated.is_char_boundary(truncated.len()));
}

#[test]
fn test_level_to_priority() {
    assert_eq!(level_to_priority("ERROR"), 5);
    assert_eq!(level_to_priority("WARN"), 4);
    assert_eq!(level_to_priority("INFO"), 3);
    assert_eq!(level_to_priority("DEBUG"), 2);
    assert_eq!(level_to_priority("TRACE"), 1);
    assert_eq!(level_to_priority("error"), 5); // case insensitive
    assert_eq!(level_to_priority("unknown"), 0);
}

#[test]
fn truncation_keeps_whole_characters_before_the_dots() {
    let out = truncate_to_limit("こんにちは世界".to_string(), 10);
    // 10 - 3 = 7 bytes leave room for two 3-byte characters
    assert_eq!(out, "こん...");
    let out = truncate_to_limit("Hello, World!".to_string(), 10);
    assert_eq!(out, "Hello, ...");
}

#[test]
fn truncation_leaves_short_messages_alone() {
    assert_eq!(truncate_to_limit(String::new(), 3), "");
    assert_eq!(truncate_to_limit("abc".to_string(), 3), "abc");
    assert_eq!(truncate_to_limit("abcd".to_string(), 3), "...");
}

#[test]
fn layer_limits_are_kept() {
    let (layer, _buf) = McpLogLayer::new(7);
    assert_eq!(layer.entry_limit(), 7);
    assert_eq!(layer.message_limit(), egui_mcp::logs::DEFAULT_MAX_MESSAGE_LENGTH);
}

fn entry(level: &str, msg: &str, ts: u64) -> LogEntry {
    LogEntry { level: level.to_string(), target: "t".to_string(), message: msg.to_string(), timestamp_ms: ts }
}

#[test]
fn stored_events_roll_over_at_the_entry_limit() {
    let (layer, _buf) = McpLogLayer::with_message_limit(2, 100);
    let mut buf: VecDeque<LogEntry> = VecDeque::new();
    layer.store_event(&mut buf, "INFO".into(), "t".into(), "one".into(), 1);
    layer.store_event(&mut buf, "WARN".into(), "t".into(), "two".into(), 2);
    layer.store_event(&mut buf, "ERROR".into(), "t".into(), "three".into(), 3);
    assert_eq!(buf.len(), 2);
    assert_eq!(buf[0].message, "two");
    assert_eq!(buf[1].message, "three");
}

#[test]
fn rolling_window_with_zero_limit_keeps_nothing() {
    let mut w: VecDeque<u32> = VecDeque::new();
    push_bounded(&mut w, 1, 0);
    assert!(w.is_empty());
    push_bounded(&mut w, 1, 3);
    push_bounded(&mut w, 2, 3);
    push_bounded(&mut w, 3, 3);
    push_bounded(&mut w, 4, 3);
    assert_eq!(w.iter().copied().collect::<Vec<_>>(), vec![2, 3, 4]);
}

#[test]
fn log_selection_filters_by_level_and_keeps_the_latest() {
    let mut buf: VecDeque<LogEntry> = VecDeque::new();
    buf.push_back(entry("DEBUG", "a", 1));
    buf.push_back(entry("INFO", "b", 2));
    buf.push_back(entry("ERROR", "c", 3));
    buf.push_back(entry("WARN", "d", 4));
    let all = select_logs(&buf, None, None);
    assert_eq!(all.len(), 4);
    let warn = select_logs(&buf, Some("warn"), None);
    assert_eq!(warn.iter().map(|e| e.message.as_str()).collect::<Vec<_>>(), vec!["c", "d"]);
    let last = select_logs(&buf, Some("INFO"), Some(2));
    assert_eq!(last.iter().map(|e| e.message.as_str()).collect::<Vec<_>>(), vec!["c", "d"]);
    let none = select_logs(&buf, None, Some(0));
    assert!(none.is_empty());
}

#[test]
fn limits_below_the_dots_cut_without_them() {
    let (layer, _) = McpLogLayer::with_message_limit(100, 2);
    assert_eq!(layer.truncate_message("abc".to_string()), "ab");
    assert_eq!(truncate_to_limit("日本".to_string(), 2), "");
    assert_eq!(truncate_to_limit("a日".to_string(), 2), "a");
    assert_eq!(truncate_to_limit("x".to_string(), 0), "");
}
