use egui_mcp::framing::ProtocolError;
use egui_mcp::input::PendingInput;
use egui_mcp::ipc_client::{ping_result, screenshot_result, success_result};
use egui_mcp::ipc_server::{IpcServer, ScreenshotOutcome, ServerAction};
use egui_mcp::protocol::{MouseButton, Request, Response};

#[test]
fn ping_is_alive_only_on_pong() {
    assert!(matches!(ping_result(Response::Pong), Ok(true)));
    assert!(matches!(ping_result(Response::Success), Ok(false)));
    assert!(matches!(ping_result(Response::Error { message: "x".into() }), Ok(false)));
}

#[test]
fn success_replies() {
    assert!(success_result(Response::Success).is_ok());
    assert!(matches!(success_result(Response::Error { message: "boom".into() }), Err(ProtocolError::Io(m)) if m == "boom"));
    assert!(matches!(success_result(Response::Pong), Err(ProtocolError::Io(m)) if m == "Unexpected response"));
}

#[test]
fn screenshot_replies() {
    let r = screenshot_result(Response::Screenshot { data: "AAAA".into(), format: "png".into() });
    assert!(matches!(r, Ok((d, f)) if d == "AAAA" && f == "png"));
    assert!(matches!(screenshot_result(Response::Success), Err(ProtocolError::Io(m)) if m == "Unexpected response"));
}

#[test]
fn server_plans() {
    assert!(matches!(IpcServer::plan_request::<f32>(Request::Ping), ServerAction::Reply(Response::Pong)));
    assert!(matches!(
        IpcServer::plan_request(Request::ClickAt { x: 1.5f32, y: 2.0, button: MouseButton::Middle }),
        ServerAction::QueueInput(PendingInput::Click { button: MouseButton::Middle, .. })
    ));
    assert!(matches!(
        IpcServer::plan_request(Request::HighlightElement { x: 0f32, y: 0.0, width: 1.0, height: 1.0, color: [1, 2, 3, 4], duration_ms: 0 }),
        ServerAction::AddHighlight { lifetime_ms: None, color: [1, 2, 3, 4], .. }
    ));
    assert!(matches!(
        IpcServer::plan_request(Request::HighlightElement { x: 0f32, y: 0.0, width: 1.0, height: 1.0, color: [0; 4], duration_ms: 250 }),
        ServerAction::AddHighlight { lifetime_ms: Some(250), .. }
    ));
    assert!(matches!(IpcServer::plan_request::<f32>(Request::GetLogs { level: Some("WARN".into()), limit: Some(3) }), ServerAction::SendLogs { limit: Some(3), .. }));
    assert!(matches!(IpcServer::plan_request::<f32>(Request::TakeScreenshot), ServerAction::CaptureScreenshot));
}

#[test]
fn whole_screenshot_replies() {
    let r = IpcServer::screenshot_response(ScreenshotOutcome::Delivered(vec![1, 2, 3]));
    assert!(matches!(r, Response::Screenshot { data, format } if data == "AQID" && format == "png"));
    let r = IpcServer::screenshot_response(ScreenshotOutcome::Cancelled);
    assert!(matches!(r, Response::Error { message } if message == "Screenshot request was cancelled"));
    let r = IpcServer::screenshot_response(ScreenshotOutcome::TimedOut);
    assert!(matches!(r, Response::Error { message } if message.starts_with("Screenshot timeout")));
}
