//! Verified core of the egui MCP bridge: wire framing, log handling,
//! UI-tree diffing, input planning and the small parsers used by the tools.

pub mod accessibility;
pub mod codec;
pub mod color;
pub mod errors;
pub mod framing;
pub mod ids;
pub mod image_diff;
pub mod image_io;
pub mod input;
pub mod ipc_client;
pub mod ipc_server;
pub mod json;
pub mod levels;
pub mod logs;
pub mod protocol;
pub mod requests;
pub mod screenshot_tools;
pub mod snapshots;
pub mod text_len;
pub mod text_search;
pub mod tools;
pub mod tree;
pub mod tree_diff;
