//! Result texts shared by the MCP tools.

use vstd::prelude::*;
use vstd::string::StringSliceAdditionalSpecFns;
use crate::ids::{parse_u64, spec_parse_u64};
use crate::json::{error_json, error_response};
use crate::color::{hex_color_sliceable, parse_hex_color, spec_parse_hex_color};
use crate::protocol::MouseButton;
use crate::text_search::text_equals;

verus! {

/// Text returned by a tool.
pub type ToolResult = String;

/// Reply of the `ping` tool.
pub fn ping() -> (r: String)
    ensures
        r@ == "pong"@,
{
    String::from_str("pong")
}

/// Message given when no egui application socket is present.
pub open spec fn not_connected_message() -> Seq<char> {
    "No egui application socket found. Make sure the egui app is running with egui-mcp-client."@
}

/// Error result for a missing egui application connection.
pub fn not_connected_error() -> (r: ToolResult)
    ensures
        r@ == error_json("not_connected"@, not_connected_message()),
{
    error_response(
        "not_connected",
        "No egui application socket found. Make sure the egui app is running with egui-mcp-client.",
    )
}

/// Error result for a feature that needs AT-SPI (Linux).
pub fn not_available_error(feature: &str) -> (r: ToolResult)
    ensures
        r@ == error_json("not_available"@, feature@ + " requires AT-SPI on Linux."@),
{
    let mut msg = String::from_str(feature);
    msg.append(" requires AT-SPI on Linux.");
    error_response("not_available", msg.as_str())
}

/// Error result for a failed AT-SPI connection; `reason` is the error's text.
pub fn atspi_connection_error(reason: &str) -> (r: ToolResult)
    ensures
        r@ == error_json("atspi_connection_error"@, "Failed to connect to AT-SPI: "@ + reason@),
{
    let mut msg = String::from_str("Failed to connect to AT-SPI: ");
    msg.append(reason);
    error_response("atspi_connection_error", msg.as_str())
}

/// Reads an element id given as decimal text; otherwise an `invalid_id`
/// error result.
pub fn parse_element_id(id: &str) -> (r: Result<u64, ToolResult>)
    ensures
        match spec_parse_u64(id.spec_bytes()) {
            Some(v) => r == Ok::<u64, ToolResult>(v),
            None => r matches Err(e) && e@ == error_json(
                "invalid_id"@,
                "Invalid element ID: "@ + id@,
            ),
        },
{
    match parse_u64(id) {
        Some(v) => Ok(v),
        None => {
            let mut msg = String::from_str("Invalid element ID: ");
            msg.append(id);
            Err(error_response("invalid_id", msg.as_str()))
        },
    }
}

/// The mouse button a tool argument names: "right", "middle", and the
/// left button for anything else or nothing.
pub open spec fn spec_mouse_button(name: Option<Seq<char>>) -> MouseButton {
    if name == Some("right"@) {
        MouseButton::Right
    } else if name == Some("middle"@) {
        MouseButton::Middle
    } else {
        MouseButton::Left
    }
}

/// The mouse button a tool argument names.
pub fn mouse_button_from_name(name: Option<&str>) -> (b: MouseButton)
    ensures
        b == spec_mouse_button(
            match name {
                Some(s) => Some(s@),
                None => None,
            },
        ),
{
    match name {
        Some(s) => {
            if text_equals(s, "right") {
                MouseButton::Right
            } else if text_equals(s, "middle") {
                MouseButton::Middle
            } else {
                MouseButton::Left
            }
        },
        None => MouseButton::Left,
    }
}

/// Colour used when none is given or it does not parse: red, alpha 200.
pub open spec fn default_highlight_color() -> Seq<u8> {
    seq![255u8, 0u8, 0u8, 200u8]
}

/// How long a highlight stays when no duration is given, in milliseconds.
pub const DEFAULT_HIGHLIGHT_MS: u64 = 3000;

/// Colour and duration of a highlight: the colour parsed from the given
/// text (red when none is given, or when it does not parse), and the given
/// duration or 3000 ms.
pub fn highlight_settings(color: Option<&str>, duration_ms: Option<u64>) -> (r: ([u8; 4], u64))
    requires
        color matches Some(c) ==> hex_color_sliceable(c.spec_bytes()),
    ensures
        r.0@ == match color {
            Some(c) => match spec_parse_hex_color(c.spec_bytes()) {
                Some(v) => v,
                None => default_highlight_color(),
            },
            None => default_highlight_color(),
        },
        r.1 == match duration_ms {
            Some(d) => d,
            None => DEFAULT_HIGHLIGHT_MS,
        },
{
    let fallback: [u8; 4] = [255, 0, 0, 200];
    assert(fallback@ =~= default_highlight_color());
    let rgba = match color {
        Some(c) => match parse_hex_color(c) {
            Some(v) => v,
            None => fallback,
        },
        None => fallback,
    };
    let duration = match duration_ms {
        Some(d) => d,
        None => DEFAULT_HIGHLIGHT_MS,
    };
    (rgba, duration)
}

/// What a wait does after one poll.
#[derive(Clone, Copy, PartialEq, Eq, Structural, Debug)]
pub enum WaitStep {
    /// The condition holds: report success.
    Done,
    /// The condition does not hold and the time is up: report a timeout.
    TimedOut,
    /// Poll again after the interval.
    Poll,
}

/// The step after a poll: done when the condition holds, timed out when it
/// does not and `elapsed_ms` has reached `timeout_ms`, else poll again.
pub open spec fn spec_wait_step(satisfied: bool, elapsed_ms: u64, timeout_ms: u64) -> WaitStep {
    if satisfied {
        WaitStep::Done
    } else if elapsed_ms >= timeout_ms {
        WaitStep::TimedOut
    } else {
        WaitStep::Poll
    }
}

/// Decides the step after a poll.
pub fn wait_step(satisfied: bool, elapsed_ms: u64, timeout_ms: u64) -> (s: WaitStep)
    ensures
        s == spec_wait_step(satisfied, elapsed_ms, timeout_ms),
{
    if satisfied {
        WaitStep::Done
    } else if elapsed_ms >= timeout_ms {
        WaitStep::TimedOut
    } else {
        WaitStep::Poll
    }
}

/// The states a wait can be asked for.
pub open spec fn is_wait_state(state: Seq<char>) -> bool {
    state == "visible"@ || state == "enabled"@ || state == "focused"@ || state == "checked"@
}

/// Whether a wait can be asked for this state.
pub fn wait_state_supported(state: &str) -> (b: bool)
    ensures
        b == is_wait_state(state@),
{
    text_equals(state, "visible") || text_equals(state, "enabled") || text_equals(state, "focused")
        || text_equals(state, "checked")
}

} // verus!
