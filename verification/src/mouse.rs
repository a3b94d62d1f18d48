//! Low-level mouse messages: what each one reports, and what the recorder
//! does with it.

use vstd::prelude::*;
use crate::keys::{button_message, is_mouse_button_message, x_button, KeyAction, MouseButton};

verus! {

/// A decoded mouse message.
#[derive(Debug, Clone, Copy, PartialEq, Eq, Structural)]
pub enum MouseEvent {
    Move,
    Button { button: MouseButton, action: KeyAction },
    Wheel { delta_x: i32, delta_y: i32 },
}

/// The extra button that a message's data names: `X1` when its high word
/// is 1, `X2` otherwise.
pub open spec fn x_button_of(mouse_data: u32) -> MouseButton {
    if mouse_data / 65536 == 1 {
        MouseButton::X1
    } else {
        MouseButton::X2
    }
}

/// The signed wheel distance in the high word of a message's data.
pub open spec fn wheel_delta_of(mouse_data: u32) -> i32 {
    let high = mouse_data / 65536;
    if high >= 32768 {
        (high - 65536) as i32
    } else {
        high as i32
    }
}

/// What a low-level mouse message reports: a move (0x200), a button going
/// down or up (left 0x201/0x202, right 0x204/0x205, middle 0x207/0x208,
/// extra 0x20B/0x20C), or the vertical (0x20A) or horizontal (0x20E) wheel.
pub open spec fn mouse_event_of(message_id: u32, mouse_data: u32) -> Option<MouseEvent> {
    if message_id == 0x200 {
        Some(MouseEvent::Move)
    } else if message_id == 0x201 {
        Some(MouseEvent::Button { button: MouseButton::Left, action: KeyAction::Down })
    } else if message_id == 0x202 {
        Some(MouseEvent::Button { button: MouseButton::Left, action: KeyAction::Up })
    } else if message_id == 0x204 {
        Some(MouseEvent::Button { button: MouseButton::Right, action: KeyAction::Down })
    } else if message_id == 0x205 {
        Some(MouseEvent::Button { button: MouseButton::Right, action: KeyAction::Up })
    } else if message_id == 0x207 {
        Some(MouseEvent::Button { button: MouseButton::Middle, action: KeyAction::Down })
    } else if message_id == 0x208 {
        Some(MouseEvent::Button { button: MouseButton::Middle, action: KeyAction::Up })
    } else if message_id == 0x20B {
        Some(MouseEvent::Button { button: x_button_of(mouse_data), action: KeyAction::Down })
    } else if message_id == 0x20C {
        Some(MouseEvent::Button { button: x_button_of(mouse_data), action: KeyAction::Up })
    } else if message_id == 0x20A {
        Some(MouseEvent::Wheel { delta_x: 0, delta_y: wheel_delta_of(mouse_data) })
    } else if message_id == 0x20E {
        Some(MouseEvent::Wheel { delta_x: wheel_delta_of(mouse_data), delta_y: 0 })
    } else {
        None
    }
}

/// The signed wheel distance of a message.
pub fn wheel_delta(mouse_data: u32) -> (r: i32)
    ensures
        r == wheel_delta_of(mouse_data),
{
    let high = mouse_data >> 16;
    assert(high == mouse_data / 65536) by (bit_vector)
        requires
            high == mouse_data >> 16,
    ;
    if high >= 32768 {
        (high as i32) - 65536
    } else {
        high as i32
    }
}

/// Decodes a low-level mouse message.
pub fn decode_mouse_message(message_id: u32, mouse_data: u32) -> (r: Option<MouseEvent>)
    ensures
        r == mouse_event_of(message_id, mouse_data),
{
    if message_id == 0x200 {
        Some(MouseEvent::Move)
    } else if message_id == 0x201 {
        Some(MouseEvent::Button { button: MouseButton::Left, action: KeyAction::Down })
    } else if message_id == 0x202 {
        Some(MouseEvent::Button { button: MouseButton::Left, action: KeyAction::Up })
    } else if message_id == 0x204 {
        Some(MouseEvent::Button { button: MouseButton::Right, action: KeyAction::Down })
    } else if message_id == 0x205 {
        Some(MouseEvent::Button { button: MouseButton::Right, action: KeyAction::Up })
    } else if message_id == 0x207 {
        Some(MouseEvent::Button { button: MouseButton::Middle, action: KeyAction::Down })
    } else if message_id == 0x208 {
        Some(MouseEvent::Button { button: MouseButton::Middle, action: KeyAction::Up })
    } else if message_id == 0x20B {
        Some(MouseEvent::Button { button: x_button(mouse_data), action: KeyAction::Down })
    } else if message_id == 0x20C {
        Some(MouseEvent::Button { button: x_button(mouse_data), action: KeyAction::Up })
    } else if message_id == 0x20A {
        Some(MouseEvent::Wheel { delta_x: 0, delta_y: wheel_delta(mouse_data) })
    } else if message_id == 0x20E {
        Some(MouseEvent::Wheel { delta_x: wheel_delta(mouse_data), delta_y: 0 })
    } else {
        None
    }
}

/// What the recorder reads when a mouse message arrives.
#[derive(Debug, Clone, Copy, PartialEq, Eq)]
pub struct MouseRecordingGate {
    /// A macro is being recorded.
    pub recording: bool,
    /// The pointer is over one of this application's windows.
    pub own_process_at_point: bool,
    /// Recorded input is admitted: the target has the focus and the pointer
    /// is not over this application.
    pub input_allowed: bool,
    /// Mouse moves are recorded.
    pub moves_enabled: bool,
    /// Clicks and wheel turns are recorded.
    pub clicks_enabled: bool,
}

/// What the recorder does with a mouse message.
#[derive(Debug, Clone, Copy, PartialEq, Eq, Structural)]
pub enum MouseRecordAction {
    /// A click on this application stops the recording: the pointer path
    /// leading to it is dropped.
    DiscardTrailing,
    RecordMove,
    RecordButton { button: MouseButton, action: KeyAction },
    RecordWheel { delta_x: i32, delta_y: i32 },
    /// The message is passed on unrecorded.
    Pass,
}

/// The recorder's handling of a mouse message. A button message over this
/// application while recording drops the trailing pointer path; a move while
/// recording is recorded when moves are and input is admitted; otherwise
/// buttons and wheel turns are recorded when input is admitted and clicks
/// are recorded.
pub open spec fn mouse_record_action(gate: MouseRecordingGate, message_id: u32, mouse_data: u32) -> MouseRecordAction {
    if gate.recording && gate.own_process_at_point && button_message(message_id) {
        MouseRecordAction::DiscardTrailing
    } else if message_id == 0x200 && gate.recording {
        if gate.input_allowed && gate.moves_enabled {
            MouseRecordAction::RecordMove
        } else {
            MouseRecordAction::Pass
        }
    } else if !gate.input_allowed || !gate.clicks_enabled {
        MouseRecordAction::Pass
    } else {
        match mouse_event_of(message_id, mouse_data) {
            Some(MouseEvent::Button { button, action }) => MouseRecordAction::RecordButton { button, action },
            Some(MouseEvent::Wheel { delta_x, delta_y }) => MouseRecordAction::RecordWheel { delta_x, delta_y },
            _ => MouseRecordAction::Pass,
        }
    }
}

/// Decides what the recorder does with a mouse message.
pub fn route_mouse_for_recording(gate: &MouseRecordingGate, message_id: u32, mouse_data: u32) -> (r:
    MouseRecordAction)
    ensures
        r == mouse_record_action(*gate, message_id, mouse_data),
{
    if gate.recording && gate.own_process_at_point && is_mouse_button_message(message_id) {
        return MouseRecordAction::DiscardTrailing;
    }
    if message_id == 0x200 && gate.recording {
        if gate.input_allowed && gate.moves_enabled {
            return MouseRecordAction::RecordMove;
        }
        return MouseRecordAction::Pass;
    }
    if !gate.input_allowed || !gate.clicks_enabled {
        return MouseRecordAction::Pass;
    }
    match decode_mouse_message(message_id, mouse_data) {
        Some(MouseEvent::Button { button, action }) => MouseRecordAction::RecordButton { button, action },
        Some(MouseEvent::Wheel { delta_x, delta_y }) => MouseRecordAction::RecordWheel { delta_x, delta_y },
        _ => MouseRecordAction::Pass,
    }
}

/// The mouse hook's handling of a low-level mouse event: injected input
/// (this service's own clicks and moves among it) passes on untouched and is
/// never recorded; every other event goes to the recorder's routing.
pub fn mouse_hook_step(flags: u32, gate: &MouseRecordingGate, message_id: u32, mouse_data: u32) -> (r:
    MouseRecordAction)
    ensures
        flags & crate::keyboard::MOUSE_INJECTED_FLAG != 0 ==> r == MouseRecordAction::Pass,
        flags & crate::keyboard::MOUSE_INJECTED_FLAG == 0 ==> r == mouse_record_action(*gate, message_id, mouse_data),
{
    if crate::keyboard::mouse_event_injected(flags) {
        return MouseRecordAction::Pass;
    }
    route_mouse_for_recording(gate, message_id, mouse_data)
}

/// Admits recorded input while this application is not in the foreground
/// and an armed recording has an active capture queue. The first event after
/// the focus left this application only marks where the macro begins (the
/// click or Alt+Tab that focused the target is not part of it); it reports
/// that the boundary starts now and admits nothing. Returns
/// `(admitted, begin_boundary)`.
pub fn admit_recording_focus(
    own_foreground: bool,
    armed: bool,
    capture_active: bool,
    boundary_started: &mut bool,
) -> (r: (bool, bool))
    ensures
        own_foreground || !armed || !capture_active ==> r == (false, false) && *final(boundary_started)
            == *old(boundary_started),
        !(own_foreground || !armed || !capture_active) ==> {
            &&& *final(boundary_started)
            &&& r == (if *old(boundary_started) {
                (true, false)
            } else {
                (false, true)
            })
        },
{
    if own_foreground || !armed || !capture_active {
        return (false, false);
    }
    if !*boundary_started {
        *boundary_started = true;
        return (false, true);
    }
    (true, false)
}

} // verus!
