//! Shared protocol types between the MCP server and the egui client.
//!
//! Screen coordinates and node bounds are floating point; they are carried
//! by the surrounding application, and the types here hold what the
//! verified logic reads.

use vstd::prelude::*;

verus! {

/// Information about a UI node.
pub struct NodeInfo {
    /// Identifier of the node.
    pub id: u64,
    /// Role of the node (e.g. "Button", "TextInput", "Window").
    pub role: String,
    /// Human-readable label.
    pub label: Option<String>,
    /// Current value (inputs, sliders, ...).
    pub value: Option<String>,
    /// Identifiers of the child nodes.
    pub children: Vec<u64>,
    /// Toggle state, for checkboxes and toggles.
    pub toggled: Option<bool>,
    /// Whether the node is disabled.
    pub disabled: bool,
    /// Whether the node has focus.
    pub focused: bool,
}

/// Mathematical view of a `NodeInfo`.
pub struct NodeView {
    pub id: u64,
    pub role: Seq<char>,
    pub label: Option<Seq<char>>,
    pub value: Option<Seq<char>>,
    pub children: Seq<u64>,
    pub toggled: Option<bool>,
    pub disabled: bool,
    pub focused: bool,
}

impl View for NodeInfo {
    type V = NodeView;

    open spec fn view(&self) -> NodeView {
        NodeView {
            id: self.id,
            role: self.role@,
            label: self.label.deep_view(),
            value: self.value.deep_view(),
            children: self.children@,
            toggled: self.toggled,
            disabled: self.disabled,
            focused: self.focused,
        }
    }
}

/// A UI tree: the identifiers of its roots and all of its nodes.
pub struct UiTree {
    /// Root node identifiers.
    pub roots: Vec<u64>,
    /// All nodes of the tree.
    pub nodes: Vec<NodeInfo>,
}

/// The nodes of a sequence, each by its view.
pub open spec fn nodes_view(nodes: Seq<NodeInfo>) -> Seq<NodeView> {
    nodes.map_values(|n: NodeInfo| n@)
}

/// Mouse button for click operations.
#[derive(Clone, Copy, PartialEq, Eq, Structural, Debug)]
pub enum MouseButton {
    Left,
    Right,
    Middle,
}

/// Response of the egui client to an IPC request.
pub enum Response {
    /// Answer to `Ping`.
    Pong,
    /// A screenshot: base64-encoded PNG data and its format ("png").
    Screenshot { data: String, format: String },
    /// The operation succeeded and carries no data.
    Success,
    /// The operation failed.
    Error { message: String },
}


/// Request sent from the MCP server to the egui client over IPC.
/// Coordinates are of the application's coordinate type `C`.
pub enum Request<C> {
    /// Check that the client answers.
    Ping,
    /// Screenshot of the application window.
    TakeScreenshot,
    /// Click at window coordinates.
    ClickAt { x: C, y: C, button: MouseButton },
    /// Keyboard input ("Enter", "Tab", "a", ...).
    KeyboardInput { key: String },
    /// Scroll at window coordinates.
    Scroll { x: C, y: C, delta_x: C, delta_y: C },
    /// Move the mouse (hover).
    MoveMouse { x: C, y: C },
    /// Drag from one position to another.
    Drag { start_x: C, start_y: C, end_x: C, end_y: C, button: MouseButton },
    /// Double click at window coordinates.
    DoubleClick { x: C, y: C, button: MouseButton },
    /// Screenshot of a region of the window.
    TakeScreenshotRegion { x: C, y: C, width: C, height: C },
    /// Draw a highlight; a duration of 0 keeps it until cleared.
    HighlightElement { x: C, y: C, width: C, height: C, color: [u8; 4], duration_ms: u64 },
    /// Remove all highlights.
    ClearHighlights,
    /// Recent log entries, optionally filtered by level and limited in number.
    GetLogs { level: Option<String>, limit: Option<usize> },
    /// Empty the log buffer.
    ClearLogs,
    /// Current frame statistics.
    GetFrameStats,
    /// Start recording frame times (0: until the report is asked for).
    StartPerfRecording { duration_ms: u64 },
    /// Stop recording and report.
    GetPerfReport,
}

/// Copies an optional string.
pub fn clone_opt_string(o: &Option<String>) -> (r: Option<String>)
    ensures
        r.deep_view() == o.deep_view(),
{
    match o {
        Some(s) => Some(s.clone()),
        None => None,
    }
}

/// Compares two optional strings by content.
pub fn opt_string_eq(a: &Option<String>, b: &Option<String>) -> (r: bool)
    ensures
        r == (a.deep_view() == b.deep_view()),
{
    match (a, b) {
        (Some(x), Some(y)) => {
            let r = x.eq(y);
            r
        },
        (None, None) => true,
        _ => false,
    }
}

} // verus!
