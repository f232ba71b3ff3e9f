use egui_mcp::ids::{extract_atspi_node_id, parse_u64, push_decimal};
use egui_mcp::json::{error_response, success_response};
use egui_mcp::tools::{
    WaitStep, atspi_connection_error, not_available_error, not_connected_error, parse_element_id, ping,
    wait_state_supported, wait_step,
};

#[test]
fn ping_answers_pong() {
    assert_eq!(ping(), "pong");
}

#[test]
fn json_results_escape_their_texts() {
    assert_eq!(success_response("done"), "{\"message\":\"done\",\"success\":true}");
    assert_eq!(
        error_response("bad", "say \"hi\"\n\\"),
        "{\"error\":\"bad\",\"message\":\"say \\\"hi\\\"\\n\\\\\"}"
    );
    assert_eq!(error_response("x", "\u{1}"), "{\"error\":\"x\",\"message\":\"\\u0001\"}");
}

#[test]
fn shared_error_results() {
    assert_eq!(
        not_connected_error(),
        "{\"error\":\"not_connected\",\"message\":\"No egui application socket found. Make sure the egui app is running with egui-mcp-client.\"}"
    );
    assert_eq!(
        not_available_error("get_value"),
        "{\"error\":\"not_available\",\"message\":\"get_value requires AT-SPI on Linux.\"}"
    );
    assert_eq!(
        atspi_connection_error("no bus"),
        "{\"error\":\"atspi_connection_error\",\"message\":\"Failed to connect to AT-SPI: no bus\"}"
    );
}

#[test]
fn element_ids_parse_as_u64() {
    assert_eq!(parse_element_id("42"), Ok(42));
    assert_eq!(parse_element_id("+7"), Ok(7));
    assert_eq!(parse_element_id("18446744073709551615"), Ok(u64::MAX));
    assert_eq!(
        parse_element_id("18446744073709551616"),
        Err("{\"error\":\"invalid_id\",\"message\":\"Invalid element ID: 18446744073709551616\"}".to_string())
    );
    assert!(parse_element_id("").is_err());
    assert!(parse_element_id("-1").is_err());
    assert!(parse_element_id(" 1").is_err());
    assert_eq!(parse_u64("+"), None);
}

#[test]
fn atspi_paths_end_in_the_node_id() {
    assert_eq!(
        extract_atspi_node_id("/org/a11y/atspi/accessible/0/4467407273966801439"),
        Some(4467407273966801439)
    );
    assert_eq!(extract_atspi_node_id("123"), Some(123));
    assert_eq!(extract_atspi_node_id("/org/a11y/atspi/accessible/root"), None);
    assert_eq!(extract_atspi_node_id("/a/"), None);
}

#[test]
fn decimal_text_matches_formatting() {
    for n in [0u64, 9, 10, 12345, u64::MAX] {
        let mut s = String::from("n=");
        push_decimal(&mut s, n);
        assert_eq!(s, format!("n={}", n));
    }
}

#[test]
fn decimal_ids_read_back() {
    for n in [0u64, 1, 42, 1_000_000, u64::MAX] {
        assert_eq!(parse_element_id(&n.to_string()), Ok(n));
    }
}

#[test]
fn wait_steps() {
    assert_eq!(wait_step(true, 10_000, 5), WaitStep::Done);
    assert_eq!(wait_step(false, 5, 5), WaitStep::TimedOut);
    assert_eq!(wait_step(false, 4, 5), WaitStep::Poll);
    assert!(wait_state_supported("checked"));
    assert!(!wait_state_supported("Checked"));
    assert!(!wait_state_supported("selected"));
}
