use autoflow::keys::{KeyAction, MouseButton};
use autoflow::mouse::{
    admit_recording_focus, decode_mouse_message, mouse_hook_step, route_mouse_for_recording, wheel_delta, MouseEvent,
    MouseRecordAction, MouseRecordingGate,
};

fn recording_gate() -> MouseRecordingGate {
    MouseRecordingGate {
        recording: true,
        own_process_at_point: false,
        input_allowed: true,
        moves_enabled: true,
        clicks_enabled: true,
    }
}

#[test]
fn mouse_messages_decode_to_events() {
    assert_eq!(decode_mouse_message(0x200, 0), Some(MouseEvent::Move));
    assert_eq!(
        decode_mouse_message(0x201, 0),
        Some(MouseEvent::Button { button: MouseButton::Left, action: KeyAction::Down })
    );
    assert_eq!(
        decode_mouse_message(0x205, 0),
        Some(MouseEvent::Button { button: MouseButton::Right, action: KeyAction::Up })
    );
    assert_eq!(
        decode_mouse_message(0x207, 0),
        Some(MouseEvent::Button { button: MouseButton::Middle, action: KeyAction::Down })
    );
    assert_eq!(
        decode_mouse_message(0x20B, 0x0001_0000),
        Some(MouseEvent::Button { button: MouseButton::X1, action: KeyAction::Down })
    );
    assert_eq!(
        decode_mouse_message(0x20C, 0x0002_0000),
        Some(MouseEvent::Button { button: MouseButton::X2, action: KeyAction::Up })
    );
    assert_eq!(decode_mouse_message(0x20A, 0x0078_0000), Some(MouseEvent::Wheel { delta_x: 0, delta_y: 120 }));
    assert_eq!(decode_mouse_message(0x20E, 0xFF88_0000), Some(MouseEvent::Wheel { delta_x: -120, delta_y: 0 }));
    assert_eq!(decode_mouse_message(0x203, 0), None);
}

#[test]
fn wheel_delta_is_the_signed_high_word() {
    assert_eq!(wheel_delta(0x0078_0000), 120);
    assert_eq!(wheel_delta(0xFF88_0000), -120);
    assert_eq!(wheel_delta(0x8000_1234), -32768);
    assert_eq!(wheel_delta(0x7FFF_FFFF), 32767);
    assert_eq!(wheel_delta(0), 0);
}

#[test]
fn clicking_autoflow_while_recording_drops_the_trailing_path() {
    let gate = MouseRecordingGate { own_process_at_point: true, input_allowed: false, ..recording_gate() };
    assert_eq!(route_mouse_for_recording(&gate, 0x201, 0), MouseRecordAction::DiscardTrailing);
    assert_eq!(route_mouse_for_recording(&gate, 0x200, 0), MouseRecordAction::Pass);
    assert_eq!(route_mouse_for_recording(&gate, 0x20A, 0x0078_0000), MouseRecordAction::Pass);
}

#[test]
fn recorder_takes_moves_clicks_and_wheel_as_configured() {
    let gate = recording_gate();
    assert_eq!(route_mouse_for_recording(&gate, 0x200, 0), MouseRecordAction::RecordMove);
    assert_eq!(
        route_mouse_for_recording(&gate, 0x204, 0),
        MouseRecordAction::RecordButton { button: MouseButton::Right, action: KeyAction::Down }
    );
    assert_eq!(
        route_mouse_for_recording(&gate, 0x20A, 0xFF88_0000),
        MouseRecordAction::RecordWheel { delta_x: 0, delta_y: -120 }
    );
    let no_moves = MouseRecordingGate { moves_enabled: false, ..gate };
    assert_eq!(route_mouse_for_recording(&no_moves, 0x200, 0), MouseRecordAction::Pass);
    let no_clicks = MouseRecordingGate { clicks_enabled: false, ..gate };
    assert_eq!(route_mouse_for_recording(&no_clicks, 0x201, 0), MouseRecordAction::Pass);
    assert_eq!(route_mouse_for_recording(&no_clicks, 0x200, 0), MouseRecordAction::RecordMove);
    let idle = MouseRecordingGate { recording: false, ..gate };
    assert_eq!(route_mouse_for_recording(&idle, 0x200, 0), MouseRecordAction::Pass);
}

#[test]
fn first_event_after_focus_leaves_marks_the_boundary() {
    let mut started = false;
    assert_eq!(admit_recording_focus(true, true, true, &mut started), (false, false));
    assert!(!started);
    assert_eq!(admit_recording_focus(false, false, true, &mut started), (false, false));
    assert_eq!(admit_recording_focus(false, true, false, &mut started), (false, false));
    assert!(!started);
    assert_eq!(admit_recording_focus(false, true, true, &mut started), (false, true));
    assert!(started);
    assert_eq!(admit_recording_focus(false, true, true, &mut started), (true, false));
}

#[test]
fn injected_mouse_events_are_never_recorded() {
    let gate = MouseRecordingGate {
        recording: true,
        own_process_at_point: false,
        input_allowed: true,
        moves_enabled: true,
        clicks_enabled: true,
    };
    assert_eq!(mouse_hook_step(1, &gate, 0x201, 0), MouseRecordAction::Pass);
    assert_eq!(
        mouse_hook_step(0, &gate, 0x201, 0),
        MouseRecordAction::RecordButton { button: MouseButton::Left, action: KeyAction::Down }
    );
}
