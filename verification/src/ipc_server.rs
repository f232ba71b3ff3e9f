//! Decisions of the IPC server embedded in the egui application: what each
//! request asks of the application, and the replies to screenshot requests.

use vstd::prelude::*;
use crate::codec::{base64_standard, encode_base64};
use crate::image_io::{
    crop_error_message, crop_error_text, crop_picture, crop_view, check_crop_region,
    decode_picture, decoded_picture, encode_picture_png, has_prefix, lemma_prefix_concat, png_of,
    prefixed, spec_crop_region,
};
use crate::input::PendingInput;
use crate::protocol::{Request, Response};

verus! {

/// What the application does for a request.
pub enum ServerAction<C> {
    /// Reply at once with this response.
    Reply(Response),
    /// Queue an input for the next frame, then reply `Success`.
    QueueInput(PendingInput<C>),
    /// Ask the application for a screenshot and reply with it.
    CaptureScreenshot,
    /// Ask for a screenshot and reply with the given region of it.
    CaptureRegion { x: C, y: C, width: C, height: C },
    /// Add a highlight (kept `lifetime_ms`, or until cleared when `None`),
    /// then reply `Success`.
    AddHighlight { x: C, y: C, width: C, height: C, color: [u8; 4], lifetime_ms: Option<u64> },
    /// Remove all highlights, then reply `Success`.
    ClearHighlights,
    /// Reply with the log entries selected by level and limit.
    SendLogs { level: Option<String>, limit: Option<usize> },
    /// Empty the log buffer, then reply `Success`.
    ClearLogs,
    /// Reply with the frame statistics.
    SendFrameStats,
    /// Start a performance recording, then reply `Success`.
    StartPerfRecording { duration_ms: u64 },
    /// Stop the recording and reply with its report.
    SendPerfReport,
}

/// Whether `a` is what the server does for `r`.
pub open spec fn is_action_for<C>(r: Request<C>, a: ServerAction<C>) -> bool {
    match r {
        Request::Ping => a matches ServerAction::Reply(Response::Pong),
        Request::TakeScreenshot => a matches ServerAction::CaptureScreenshot,
        Request::ClickAt { x, y, button } => a == ServerAction::QueueInput(
            PendingInput::Click { x, y, button },
        ),
        Request::KeyboardInput { key } => a matches ServerAction::QueueInput(
            PendingInput::Keyboard { key: k },
        ) && k@ == key@,
        Request::Scroll { x, y, delta_x, delta_y } => a == ServerAction::QueueInput(
            PendingInput::Scroll { x, y, delta_x, delta_y },
        ),
        Request::MoveMouse { x, y } => a == ServerAction::QueueInput(
            PendingInput::MoveMouse { x, y },
        ),
        Request::Drag { start_x, start_y, end_x, end_y, button } => a == ServerAction::QueueInput(
            PendingInput::Drag { start_x, start_y, end_x, end_y, button },
        ),
        Request::DoubleClick { x, y, button } => a == ServerAction::QueueInput(
            PendingInput::DoubleClick { x, y, button },
        ),
        Request::TakeScreenshotRegion { x, y, width, height } => a == ServerAction::CaptureRegion {
            x,
            y,
            width,
            height,
        },
        Request::HighlightElement { x, y, width, height, color, duration_ms } => a
            == ServerAction::AddHighlight {
            x,
            y,
            width,
            height,
            color,
            lifetime_ms: if duration_ms == 0 {
                None
            } else {
                Some(duration_ms)
            },
        },
        Request::ClearHighlights => a matches ServerAction::ClearHighlights,
        Request::GetLogs { level, limit } => a matches ServerAction::SendLogs {
            level: l,
            limit: n,
        } && l.deep_view() == level.deep_view() && n == limit,
        Request::ClearLogs => a matches ServerAction::ClearLogs,
        Request::GetFrameStats => a matches ServerAction::SendFrameStats,
        Request::StartPerfRecording { duration_ms } => a == ServerAction::<
            C,
        >::StartPerfRecording { duration_ms },
        Request::GetPerfReport => a matches ServerAction::SendPerfReport,
    }
}

/// How a screenshot request ended.
pub enum ScreenshotOutcome {
    /// The application delivered PNG data.
    Delivered(Vec<u8>),
    /// The request was dropped before an answer.
    Cancelled,
    /// No answer came within the time allowed (5 seconds).
    TimedOut,
}

/// Message for a dropped screenshot request.
pub open spec fn cancelled_message() -> Seq<char> {
    "Screenshot request was cancelled"@
}

/// Message for a screenshot that did not arrive in time.
pub open spec fn timeout_message() -> Seq<char> {
    "Screenshot timeout: the egui app did not provide a screenshot within 5 seconds"@
}

/// The IPC server embedded in the egui application. Its connection loop
/// runs in the application; the replies it computes are here.
pub struct IpcServer;

impl IpcServer {
    /// Decides what the application does for a request.
    pub fn plan_request<C>(request: Request<C>) -> (a: ServerAction<C>)
        ensures
            is_action_for(request, a),
    {
        match request {
            Request::Ping => ServerAction::Reply(Response::Pong),
            Request::TakeScreenshot => ServerAction::CaptureScreenshot,
            Request::ClickAt { x, y, button } => ServerAction::QueueInput(
                PendingInput::Click { x, y, button },
            ),
            Request::KeyboardInput { key } => ServerAction::QueueInput(PendingInput::Keyboard { key }),
            Request::Scroll { x, y, delta_x, delta_y } => ServerAction::QueueInput(
                PendingInput::Scroll { x, y, delta_x, delta_y },
            ),
            Request::MoveMouse { x, y } => ServerAction::QueueInput(PendingInput::MoveMouse { x, y }),
            Request::Drag { start_x, start_y, end_x, end_y, button } => ServerAction::QueueInput(
                PendingInput::Drag { start_x, start_y, end_x, end_y, button },
            ),
            Request::DoubleClick { x, y, button } => ServerAction::QueueInput(
                PendingInput::DoubleClick { x, y, button },
            ),
            Request::TakeScreenshotRegion { x, y, width, height } => ServerAction::CaptureRegion {
                x,
                y,
                width,
                height,
            },
            Request::HighlightElement { x, y, width, height, color, duration_ms } => {
                let lifetime_ms = if duration_ms == 0 {
                    None
                } else {
                    Some(duration_ms)
                };
                ServerAction::AddHighlight { x, y, width, height, color, lifetime_ms }
            },
            Request::ClearHighlights => ServerAction::ClearHighlights,
            Request::GetLogs { level, limit } => ServerAction::SendLogs { level, limit },
            Request::ClearLogs => ServerAction::ClearLogs,
            Request::GetFrameStats => ServerAction::SendFrameStats,
            Request::StartPerfRecording { duration_ms } => ServerAction::StartPerfRecording {
                duration_ms,
            },
            Request::GetPerfReport => ServerAction::SendPerfReport,
        }
    }

    /// Reply to a whole-window screenshot request.
    pub fn screenshot_response(outcome: ScreenshotOutcome) -> (r: Response)
        ensures
            match outcome {
                ScreenshotOutcome::Delivered(d) => r matches Response::Screenshot { data, format }
                    && data@ == base64_standard(d@) && format@ == "png"@,
                ScreenshotOutcome::Cancelled => r matches Response::Error { message }
                    && message@ == cancelled_message(),
                ScreenshotOutcome::TimedOut => r matches Response::Error { message }
                    && message@ == timeout_message(),
            },
    {
        match outcome {
            ScreenshotOutcome::Delivered(d) => Response::Screenshot {
                data: encode_base64(d.as_slice()),
                format: String::from_str("png"),
            },
            ScreenshotOutcome::Cancelled => Response::Error {
                message: String::from_str("Screenshot request was cancelled"),
            },
            ScreenshotOutcome::TimedOut => Response::Error {
                message: String::from_str(
                    "Screenshot timeout: the egui app did not provide a screenshot within 5 seconds",
                ),
            },
        }
    }

    /// Crops PNG screenshot data to a region, refusing a region that starts
    /// outside the image or is empty once clamped; the result is the PNG file
    /// of the cropped picture.
    pub fn crop_screenshot(png: &[u8], x: u32, y: u32, w: u32, h: u32) -> (r: Result<
        Vec<u8>,
        String,
    >)
        ensures
            match decoded_picture(png@) {
                None => r matches Err(m) && has_prefix(m@, "Failed to load image: "@),
                Some(v) => match spec_crop_region(v.width, v.height, x, y, w, h) {
                    Err(e) => r matches Err(m) && m@ == crop_error_text(e),
                    Ok((cw, ch)) => match png_of(crop_view(v, x, y, cw, ch)) {
                        Some(b) => r matches Ok(o) && o@ == b,
                        None => r matches Err(m) && has_prefix(m@, "Failed to encode PNG: "@),
                    },
                },
            },
    {
        let img = match decode_picture(png) {
            Ok(p) => p,
            Err(e) => return Err(prefixed("Failed to load image: ", e.as_str())),
        };
        let (cw, ch) = match check_crop_region(img.width(), img.height(), x, y, w, h) {
            Ok(size) => size,
            Err(e) => return Err(crop_error_message(&e)),
        };
        let cropped = crop_picture(&img, x, y, cw, ch);
        match encode_picture_png(&cropped) {
            Ok(bytes) => Ok(bytes),
            Err(e) => Err(prefixed("Failed to encode PNG: ", e.as_str())),
        }
    }

    /// Reply to a region screenshot request: the delivered screenshot cropped
    /// to the region (checked as `crop_screenshot` does), base64-encoded.
    pub fn region_screenshot_response(outcome: ScreenshotOutcome, x: u32, y: u32, w: u32, h: u32) -> (r:
        Response)
        ensures
            match outcome {
                ScreenshotOutcome::Delivered(d) => match decoded_picture(d@) {
                    Some(v) => match spec_crop_region(v.width, v.height, x, y, w, h) {
                        Err(e) => r matches Response::Error { message } && message@
                            == "Failed to crop screenshot: "@ + crop_error_text(e),
                        Ok((cw, ch)) => match png_of(crop_view(v, x, y, cw, ch)) {
                            Some(b) => r matches Response::Screenshot { data, format } && data@
                                == base64_standard(b) && format@ == "png"@,
                            None => r matches Response::Error { message } && has_prefix(
                                message@,
                                "Failed to crop screenshot: "@ + "Failed to encode PNG: "@,
                            ),
                        },
                    },
                    None => r matches Response::Error { message } && has_prefix(
                        message@,
                        "Failed to crop screenshot: "@ + "Failed to load image: "@,
                    ),
                },
                ScreenshotOutcome::Cancelled => r matches Response::Error { message } && message@
                    == cancelled_message(),
                ScreenshotOutcome::TimedOut => r matches Response::Error { message } && message@
                    == timeout_message(),
            },
    {
        match outcome {
            ScreenshotOutcome::Delivered(d) => match Self::crop_screenshot(d.as_slice(), x, y, w, h) {
                Ok(cropped) => Response::Screenshot {
                    data: encode_base64(cropped.as_slice()),
                    format: String::from_str("png"),
                },
                Err(e) => {
                    let message = prefixed("Failed to crop screenshot: ", e.as_str());
                    proof {
                        let p = "Failed to crop screenshot: "@;
                        lemma_prefix_concat(p, "Failed to load image: "@, e@);
                        lemma_prefix_concat(p, "Failed to encode PNG: "@, e@);
                    }
                    Response::Error { message }
                },
            },
            ScreenshotOutcome::Cancelled => Response::Error {
                message: String::from_str("Screenshot request was cancelled"),
            },
            ScreenshotOutcome::TimedOut => Response::Error {
                message: String::from_str(
                    "Screenshot timeout: the egui app did not provide a screenshot within 5 seconds",
                ),
            },
        }
    }
}

} // verus!
