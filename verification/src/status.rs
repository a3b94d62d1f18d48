//! What the service reports to its user interface: structured errors and the
//! status of the application, of a macro recording and of a playback.

use vstd::prelude::*;
use crate::config::{MacroStep, MacroTarget};
use crate::recorder::RecorderState;
use crate::text::string_from_str;

verus! {

/// An error as the user interface receives it: a stable code, a message for
/// the user and optional detail.
#[derive(Debug, Clone, PartialEq, Eq)]
pub struct AppError {
    pub code: String,
    pub message: String,
    pub detail: Option<String>,
}

impl AppError {
    /// An error with a code and a message and no detail.
    pub fn invalid(code: &str, message: &str) -> (r: Self)
        ensures
            r.code@ == code@,
            r.message@ == message@,
            r.detail is None,
    {
        AppError { code: string_from_str(code), message: string_from_str(message), detail: None }
    }

    /// An error with a code, a message and detail.
    pub fn with_detail(code: &str, message: &str, detail: &str) -> (r: Self)
        ensures
            r.code@ == code@,
            r.message@ == message@,
            r.detail matches Some(d) && d@ == detail@,
    {
        AppError {
            code: string_from_str(code),
            message: string_from_str(message),
            detail: Some(string_from_str(detail)),
        }
    }

    /// An internal failure: code `internal_error` and the given message.
    pub fn internal(message: &str) -> (r: Self)
        ensures
            r.code@ == "internal_error"@,
            r.message@ == message@,
            r.detail is None,
    {
        Self::invalid("internal_error", message)
    }
}

/// The application's name, version and state as shown to the user.
#[derive(Debug, Clone, PartialEq, Eq)]
pub struct AppStatus {
    pub app_name: String,
    pub version: String,
    pub core_state: String,
}

/// The state of a macro recording as shown to the user.
#[derive(Debug, Clone, PartialEq, Eq)]
pub struct MacroRecordingStatus {
    pub active: bool,
    pub capture_started: bool,
    pub step_count: usize,
    pub capture_mouse_move: bool,
    pub capture_mouse_clicks: bool,
    pub target_locked: bool,
    pub target_name: Option<String>,
}

/// A finished recording: its steps and the window it was made against.
#[derive(Debug, Clone, PartialEq, Eq)]
pub struct MacroRecordingResult {
    pub steps: Vec<MacroStep>,
    pub target: Option<MacroTarget>,
}

/// The state of a playback as shown to the user.
#[derive(Debug, Clone, PartialEq, Eq)]
pub struct MacroPlaybackStatus {
    pub running: bool,
    pub current_step: usize,
    pub total_steps: usize,
    pub last_error: Option<String>,
    pub playback_id: u64,
    pub macro_id: Option<String>,
    pub macro_name: Option<String>,
    pub program_kind: String,
    pub action_kind: Option<String>,
    pub action_summary: Option<String>,
    pub elapsed_ms: u64,
    pub phase: String,
    pub cleanup_status: String,
    pub overlay_visible: bool,
}

/// The recording status of a recorder: while it records, the steps so far;
/// afterwards, the steps of the finished recording not yet collected.
pub fn recording_status_of(recorder: &RecorderState) -> (r: MacroRecordingStatus)
    ensures
        r.active == recorder.active,
        r.capture_started == recorder.capture_started,
        r.step_count == (if recorder.active {
            recorder.steps@.len()
        } else {
            match recorder.completed_steps {
                Some(steps) => steps@.len(),
                None => 0,
            }
        }),
        r.capture_mouse_move == recorder.capture_mouse_move,
        r.capture_mouse_clicks == recorder.capture_mouse_clicks,
        !r.target_locked,
        r.target_name is None,
{
    MacroRecordingStatus {
        active: recorder.active,
        capture_started: recorder.capture_started,
        step_count: if recorder.active {
            recorder.steps.len()
        } else {
            match &recorder.completed_steps {
                Some(steps) => steps.len(),
                None => 0,
            }
        },
        capture_mouse_move: recorder.capture_mouse_move,
        capture_mouse_clicks: recorder.capture_mouse_clicks,
        target_locked: false,
        target_name: None,
    }
}

/// The recording status reported when the recorder cannot be read: idle, with
/// the default capture options.
pub fn unavailable_recording_status() -> (r: MacroRecordingStatus)
    ensures
        !r.active,
        !r.capture_started,
        r.step_count == 0,
        r.capture_mouse_move,
        r.capture_mouse_clicks,
        !r.target_locked,
        r.target_name is None,
{
    MacroRecordingStatus {
        active: false,
        capture_started: false,
        step_count: 0,
        capture_mouse_move: true,
        capture_mouse_clicks: true,
        target_locked: false,
        target_name: None,
    }
}

} // verus!
