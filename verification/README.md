# egui-mcp

Automation of egui applications through the Model Context Protocol.

- `src/` is the verified library (Verus): IPC message framing, the replies
  and actions of the IPC server embedded in the egui application, input
  event planning, log capture (rolling buffer, level filter, message
  truncation), UI tree building from accessibility updates, tree diffs and
  named snapshots, searches over UI trees, screenshot cropping and visual
  diffs, and the JSON result texts of the tools.
- `app/` is the program around it: the MCP server over stdio, the AT-SPI
  and IPC clients, file access, and the egui-side glue.
- `tests/` exercises the library.
The Windows UI Automation back end (which needs the `uiautomation` crate) is
not included: the program here uses AT-SPI, on Linux.
