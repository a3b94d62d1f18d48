use std::collections::HashSet;

use autoflow::hold_lifecycle::HoldLifecycleSlot;
use autoflow::keyboard::{
    emergency_key_event, keyboard_hook_step, keyboard_transition, mouse_event_injected, note_logical_key,
    EmergencyKeyDecision, KeyboardHookAction, KeyboardHookObservation,
};
use autoflow::keys::KeyAction;

#[test]
fn injected_keyboard_events_are_ignored() {
    assert_eq!(keyboard_transition(0x10, 0x100), None);
    assert_eq!(keyboard_transition(0x11, 0x101), None);
    assert_eq!(keyboard_transition(0, 0x100), Some(KeyAction::Down));
    assert_eq!(keyboard_transition(0x80, 0x104), Some(KeyAction::Down));
    assert_eq!(keyboard_transition(0, 0x101), Some(KeyAction::Up));
    assert_eq!(keyboard_transition(0x01, 0x105), Some(KeyAction::Up));
    assert_eq!(keyboard_transition(0, 0x102), None);
    assert!(mouse_event_injected(0x1));
    assert!(mouse_event_injected(0x3));
    assert!(!mouse_event_injected(0x2));
}

#[test]
fn emergency_key_is_swallowed_and_requests_one_stop_per_press() {
    let mut down = false;
    assert_eq!(emergency_key_event(0x7B, 0x41, KeyAction::Down, &mut down), EmergencyKeyDecision::Other);
    assert!(!down);
    assert_eq!(
        emergency_key_event(0x7B, 0x7B, KeyAction::Down, &mut down),
        EmergencyKeyDecision::Swallow { request_stop: true }
    );
    assert_eq!(
        emergency_key_event(0x7B, 0x7B, KeyAction::Down, &mut down),
        EmergencyKeyDecision::Swallow { request_stop: false }
    );
    assert_eq!(
        emergency_key_event(0x7B, 0x7B, KeyAction::Up, &mut down),
        EmergencyKeyDecision::Swallow { request_stop: false }
    );
    assert!(!down);
    assert_eq!(
        emergency_key_event(0x7B, 0x7B, KeyAction::Down, &mut down),
        EmergencyKeyDecision::Swallow { request_stop: true }
    );
}

#[test]
fn logical_pressed_set_reports_auto_repeat() {
    let mut pressed = HashSet::new();
    assert!(!note_logical_key(&mut pressed, 0x41, KeyAction::Down));
    assert!(note_logical_key(&mut pressed, 0x41, KeyAction::Down));
    assert!(pressed.contains(&0x41));
    assert!(note_logical_key(&mut pressed, 0x41, KeyAction::Up));
    assert!(!pressed.contains(&0x41));
    assert!(!note_logical_key(&mut pressed, 0x41, KeyAction::Up));
}

fn idle_service() -> KeyboardHookObservation {
    KeyboardHookObservation {
        ledger_accepted: true,
        emergency_vk: 0x7B,
        recording: false,
        global_enabled: true,
        rearm_required: false,
        background_allowed: true,
    }
}

#[test]
fn injected_and_emergency_events_are_routed_before_anything_else() {
    let slot = HoldLifecycleSlot::new();
    let mut pressed = HashSet::new();
    assert_eq!(
        keyboard_hook_step(&idle_service(), &slot, 0x10, 0x100, 0x41, &mut pressed),
        (KeyboardHookAction::PassThrough, false)
    );
    assert_eq!(
        keyboard_hook_step(&idle_service(), &slot, 0, 0x100, 0x7B, &mut pressed),
        (KeyboardHookAction::Emergency { down: true }, false)
    );
    assert!(pressed.is_empty());
}

#[test]
fn global_switch_off_passes_key_downs_without_rules() {
    let slot = HoldLifecycleSlot::new();
    let mut pressed = HashSet::new();
    let mut off = idle_service();
    off.global_enabled = false;
    assert_eq!(keyboard_hook_step(&off, &slot, 0, 0x100, 0xA2, &mut pressed), (KeyboardHookAction::Disabled, false));
    assert!(pressed.contains(&0x11));
    assert_eq!(
        keyboard_hook_step(&idle_service(), &slot, 0, 0x100, 0x41, &mut pressed),
        (KeyboardHookAction::Dispatch { vk: 0x41, was_pressed: false, background_allowed: true }, false)
    );
    assert_eq!(
        keyboard_hook_step(&idle_service(), &slot, 0, 0x101, 0x41, &mut pressed),
        (KeyboardHookAction::ReleaseRemap { vk: 0x41 }, true)
    );
}

#[test]
fn recording_shortcut_and_recording_capture_come_before_rules() {
    let slot = HoldLifecycleSlot::new();
    let mut pressed: HashSet<u32> = [0x10, 0x11].into_iter().collect();
    let mut recording = idle_service();
    recording.recording = true;
    assert_eq!(
        keyboard_hook_step(&recording, &slot, 0, 0x100, 0x78, &mut pressed),
        (KeyboardHookAction::RecordingShortcut, false)
    );
    assert_eq!(
        keyboard_hook_step(&recording, &slot, 0, 0x100, 0x41, &mut pressed),
        (KeyboardHookAction::Record { vk: 0x41, down: true }, false)
    );
}
