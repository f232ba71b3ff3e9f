//! Arguments of the MCP tools.

use vstd::prelude::*;

verus! {

/// Request for find_by_label tool
pub struct FindByLabelRequest {
    /// Pattern to match against labels (substring match)
    pub pattern: String,
}

/// Request for find_by_label_exact tool
pub struct FindByLabelExactRequest {
    /// Exact label text to match
    pub pattern: String,
}

/// Request for find_by_role tool
pub struct FindByRoleRequest {
    /// Role to search for (e.g., 'Button', 'TextInput', 'CheckBox', 'Label')
    pub role: String,
}

/// Request for get_element tool
pub struct GetElementRequest {
    /// Node ID to retrieve (as string)
    pub id: String,
}

/// Request for click_element tool
pub struct ClickElementRequest {
    /// Node ID of the element to click (as string)
    pub id: String,
}

/// Request for set_text tool
pub struct SetTextRequest {
    /// Node ID of the text input element (as string)
    pub id: String,
    /// Text content to set
    pub text: String,
}

/// Request for take_screenshot tool
pub struct TakeScreenshotRequest {
    /// If true, save screenshot to a temp file and return the path. If false (default), return base64-encoded data.
    pub save_to_file: Option<bool>,
}

/// Request for keyboard_input tool
pub struct KeyboardInputRequest {
    /// Key to send (e.g., 'a', 'Enter', 'Escape', 'Tab')
    pub key: String,
}

/// Request for get_bounds tool
pub struct GetBoundsRequest {
    /// Node ID of the element (as string)
    pub id: String,
}

/// Request for focus_element tool
pub struct FocusElementRequest {
    /// Node ID of the element to focus (as string)
    pub id: String,
}

/// Request for scroll_to_element tool
pub struct ScrollToElementRequest {
    /// Node ID of the element to scroll into view (as string)
    pub id: String,
}

/// Request for get_value tool
pub struct GetValueRequest {
    /// Node ID of the element (as string)
    pub id: String,
}

/// Request for select_item tool
pub struct SelectItemRequest {
    /// Node ID of the container element (as string)
    pub id: String,
    /// Index of the item to select (0-based)
    pub index: i32,
}

/// Request for deselect_item tool
pub struct DeselectItemRequest {
    /// Node ID of the container element (as string)
    pub id: String,
    /// Index of the item to deselect (0-based)
    pub index: i32,
}

/// Request for get_selected_count tool
pub struct GetSelectedCountRequest {
    /// Node ID of the container element (as string)
    pub id: String,
}

/// Request for select_all/clear_selection tools
pub struct SelectionContainerRequest {
    /// Node ID of the container element (as string)
    pub id: String,
}

/// Request for get_text tool
pub struct GetTextRequest {
    /// Node ID of the element (as string)
    pub id: String,
}

/// Request for get_text_selection tool
pub struct GetTextSelectionRequest {
    /// Node ID of the element (as string)
    pub id: String,
}

/// Request for set_text_selection tool
pub struct SetTextSelectionRequest {
    /// Node ID of the element (as string)
    pub id: String,
    /// Start offset of the selection
    pub start: i32,
    /// End offset of the selection
    pub end: i32,
}

/// Request for get_caret_position tool
pub struct GetCaretPositionRequest {
    /// Node ID of the element (as string)
    pub id: String,
}

/// Request for set_caret_position tool
pub struct SetCaretPositionRequest {
    /// Node ID of the element (as string)
    pub id: String,
    /// Offset position for the caret
    pub offset: i32,
}

/// Request for state check tools (is_visible, is_enabled, is_focused, is_checked)
pub struct ElementIdOnlyRequest {
    /// Node ID of the element (as string)
    pub id: String,
}

/// Request for screenshot_element tool
pub struct ScreenshotElementRequest {
    /// Node ID of the element to screenshot (as string)
    pub id: String,
    /// If true, save screenshot to a temp file and return the path. If false (default), return base64-encoded data.
    pub save_to_file: Option<bool>,
}

/// Request for wait_for_element tool
pub struct WaitForElementRequest {
    /// Label pattern to match (substring match)
    pub pattern: String,
    /// If true (default), wait for element to appear. If false, wait for element to disappear.
    pub appear: Option<bool>,
    /// Timeout in milliseconds (default: 5000)
    pub timeout_ms: Option<u64>,
}

/// Request for wait_for_state tool
pub struct WaitForStateRequest {
    /// Node ID of the element (as string)
    pub id: String,
    /// State to wait for: 'visible', 'enabled', 'focused', or 'checked'
    pub state: String,
    /// Expected state value (default: true)
    pub expected: Option<bool>,
    /// Timeout in milliseconds (default: 5000)
    pub timeout_ms: Option<u64>,
}

/// Request for compare_screenshots tool
pub struct CompareScreenshotsRequest {
    /// First screenshot as base64-encoded PNG
    pub base64_a: Option<String>,
    /// Second screenshot as base64-encoded PNG
    pub base64_b: Option<String>,
    /// Path to first screenshot file (alternative to base64_a)
    pub path_a: Option<String>,
    /// Path to second screenshot file (alternative to base64_b)
    pub path_b: Option<String>,
    /// Comparison algorithm: 'hybrid' (default), 'mssim' (structural), 'rms' (pixel-wise)
    pub algorithm: Option<String>,
}

/// Request for diff_screenshots tool
pub struct DiffScreenshotsRequest {
    /// First screenshot as base64-encoded PNG
    pub base64_a: Option<String>,
    /// Second screenshot as base64-encoded PNG
    pub base64_b: Option<String>,
    /// Path to first screenshot file (alternative to base64_a)
    pub path_a: Option<String>,
    /// Path to second screenshot file (alternative to base64_b)
    pub path_b: Option<String>,
    /// If true, save diff image to a temp file and return the path. If false (default), return base64-encoded data.
    pub save_to_file: Option<bool>,
}

/// Request for highlight_element tool
pub struct HighlightElementRequest {
    /// Node ID of the element to highlight (as string)
    pub id: String,
    /// Highlight color as hex string (e.g., '#ff0000' or '#ff000080' with alpha). Default: red
    pub color: Option<String>,
    /// Duration in milliseconds. 0 = highlight until cleared. Default: 3000
    pub duration_ms: Option<u64>,
}

/// Request for save_snapshot tool
pub struct SaveSnapshotRequest {
    /// Name to identify this snapshot
    pub name: String,
}

/// Request for load_snapshot tool
pub struct LoadSnapshotRequest {
    /// Name of the snapshot to load
    pub name: String,
}

/// Request for diff_snapshots tool
pub struct DiffSnapshotsRequest {
    /// Name of the first snapshot
    pub name_a: String,
    /// Name of the second snapshot
    pub name_b: String,
}

/// Request for diff_current tool
pub struct DiffCurrentRequest {
    /// Name of the snapshot to compare with current state
    pub name: String,
}

/// Request for get_logs tool
pub struct GetLogsRequest {
    /// Minimum log level to return: 'TRACE', 'DEBUG', 'INFO', 'WARN', 'ERROR'. If omitted, returns all levels.
    pub level: Option<String>,
    /// Maximum number of entries to return (default: all)
    pub limit: Option<usize>,
}

/// Request for start_perf_recording tool
pub struct StartPerfRecordingRequest {
    /// Duration to record in milliseconds. 0 = until get_perf_report is called (default: 0)
    pub duration_ms: Option<u64>,
}

} // verus!
