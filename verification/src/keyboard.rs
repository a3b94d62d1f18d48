//! The first decisions the keyboard hook makes on an event: whether it is
//! one of this service's own injected events, whether it is a key going down
//! or up, whether it is the emergency key, and the logical pressed set.

use std::collections::HashSet;
use vstd::prelude::*;
use crate::hold_lifecycle::HoldLifecycleSlot;
use crate::keys::{canonical_virtual_key, canonical_vk, KeyAction};
use crate::ledger::{is_focus_switch_key, is_recording_shortcut_key, spec_is_recording_shortcut};

verus! {

broadcast use vstd::std_specs::hash::group_hash_axioms;

/// The flag of a low-level keyboard event that marks injected input.
pub const KEYBOARD_INJECTED_FLAG: u32 = 0x10;

/// The flag of a low-level mouse event that marks injected input.
pub const MOUSE_INJECTED_FLAG: u32 = 0x1;

/// The key transition a low-level keyboard message reports: injected events
/// (this service's own output among them) report none; key-down and
/// system-key-down (0x100, 0x104) report `Down`; key-up and system-key-up
/// (0x101, 0x105) report `Up`; other messages report none.
pub open spec fn keyboard_transition_of(flags: u32, message_id: u32) -> Option<KeyAction> {
    if flags & KEYBOARD_INJECTED_FLAG != 0 {
        None
    } else if message_id == 0x100 || message_id == 0x104 {
        Some(KeyAction::Down)
    } else if message_id == 0x101 || message_id == 0x105 {
        Some(KeyAction::Up)
    } else {
        None
    }
}

/// The transition of a low-level keyboard event, if the hook acts on it.
pub fn keyboard_transition(flags: u32, message_id: u32) -> (r: Option<KeyAction>)
    ensures
        r == keyboard_transition_of(flags, message_id),
{
    if flags & KEYBOARD_INJECTED_FLAG != 0 {
        None
    } else if message_id == 0x100 || message_id == 0x104 {
        Some(KeyAction::Down)
    } else if message_id == 0x101 || message_id == 0x105 {
        Some(KeyAction::Up)
    } else {
        None
    }
}

/// Whether a low-level mouse event is injected input, which the hook passes
/// on untouched.
pub fn mouse_event_injected(flags: u32) -> (r: bool)
    ensures
        r == (flags & MOUSE_INJECTED_FLAG != 0),
{
    flags & MOUSE_INJECTED_FLAG != 0
}

/// What the hook does with a key that may be the emergency key.
#[derive(Debug, Clone, Copy, PartialEq, Eq, Structural)]
pub enum EmergencyKeyDecision {
    /// Not the emergency key: handling goes on.
    Other,
    /// The emergency key: the event is swallowed, and a stop is requested
    /// when it just went down.
    Swallow { request_stop: bool },
}

/// Handles the emergency key before anything else: its events never reach
/// other handling; its first key-down of a press requests an emergency stop
/// and its key-up ends the press.
pub fn emergency_key_event(emergency_vk: u32, vk: u32, action: KeyAction, key_down: &mut bool) -> (r:
    EmergencyKeyDecision)
    ensures
        emergency_vk != vk ==> r == EmergencyKeyDecision::Other && *final(key_down) == *old(key_down),
        emergency_vk == vk && action == KeyAction::Down ==> r == (EmergencyKeyDecision::Swallow {
            request_stop: !*old(key_down),
        }) && *final(key_down),
        emergency_vk == vk && action == KeyAction::Up ==> r == (EmergencyKeyDecision::Swallow {
            request_stop: false,
        }) && !*final(key_down),
{
    if emergency_vk != vk {
        return EmergencyKeyDecision::Other;
    }
    match action {
        KeyAction::Down => {
            let request_stop = !*key_down;
            *key_down = true;
            EmergencyKeyDecision::Swallow { request_stop }
        },
        KeyAction::Up => {
            *key_down = false;
            EmergencyKeyDecision::Swallow { request_stop: false }
        },
    }
}

/// Records a key transition in the logical pressed set and returns whether
/// the key was already pressed (an auto-repeat when it goes down).
pub fn note_logical_key(pressed: &mut HashSet<u32>, vk: u32, action: KeyAction) -> (was_pressed: bool)
    ensures
        was_pressed == old(pressed)@.contains(vk),
        action == KeyAction::Down ==> final(pressed)@ == old(pressed)@.insert(vk),
        action == KeyAction::Up ==> final(pressed)@ == old(pressed)@.remove(vk),
{
    let was_pressed = pressed.contains(&vk);
    match action {
        KeyAction::Down => {
            pressed.insert(vk);
        },
        KeyAction::Up => {
            pressed.remove(&vk);
        },
    }
    was_pressed
}

/// What the keyboard hook reads of the service before it routes an event.
#[derive(Debug, Clone, Copy, PartialEq, Eq)]
pub struct KeyboardHookObservation {
    /// The physical key ledger took the event; an event it refused is
    /// passed on untouched.
    pub ledger_accepted: bool,
    /// The configured emergency key.
    pub emergency_vk: u32,
    /// A macro recording is running.
    pub recording: bool,
    /// The configuration's global switch: off pauses every rule.
    pub global_enabled: bool,
    /// A stop asked for the macro triggers to be released before any new
    /// trigger is accepted.
    pub rearm_required: bool,
    /// Background producers (remaps, launches, text expansion) may inject
    /// input now.
    pub background_allowed: bool,
}

/// Where the keyboard hook sends an event, in the order it checks them.
#[derive(Debug, Clone, Copy, PartialEq, Eq, Structural)]
pub enum KeyboardHookAction {
    /// Injected input, another message, or an event the ledger refused: pass
    /// it on untouched.
    PassThrough,
    /// The emergency key: swallowed; its first key-down of a press requests
    /// the emergency stop.
    Emergency { down: bool },
    /// An auto-repeat of the owner key of a live Hold: swallowed.
    SwallowHoldRepeat,
    /// The key completes Ctrl+Shift+F9: swallowed; recording starts or stops.
    RecordingShortcut,
    /// Alt+Tab or a Windows-key switch while recording: the shortcut's steps
    /// are discarded and the key passes on.
    DiscardFocusSwitch,
    /// Recording: the key is captured and passes on; no rule sees it.
    Record { vk: u32, down: bool },
    /// A key-up: a remap holding the key is released, and the event is
    /// swallowed only when one was.
    ReleaseRemap { vk: u32 },
    /// The global switch is off: the key passes on.
    Disabled,
    /// Triggers must be re-armed: only a trigger key is swallowed.
    RearmGate { vk: u32 },
    /// A key-down for the rules: macros first, then, when background input is
    /// allowed, remaps, launch shortcuts and text expansion.
    Dispatch { vk: u32, was_pressed: bool, background_allowed: bool },
}

/// The route of a keyboard event and the logical pressed set after it. The
/// pressed set changes only for events that get past the emergency key and
/// the Hold auto-repeat check.
pub open spec fn keyboard_hook_action(
    obs: KeyboardHookObservation,
    slot: HoldLifecycleSlot,
    flags: u32,
    message_id: u32,
    raw_vk: u32,
    pressed: Set<u32>,
) -> (KeyboardHookAction, Set<u32>) {
    match keyboard_transition_of(flags, message_id) {
        None => (KeyboardHookAction::PassThrough, pressed),
        Some(action) => if !obs.ledger_accepted {
            (KeyboardHookAction::PassThrough, pressed)
        } else {
            let vk = canonical_vk(raw_vk);
            let down = action == KeyAction::Down;
            if vk == obs.emergency_vk {
                (KeyboardHookAction::Emergency { down }, pressed)
            } else if down && slot.owns_keydown(vk) {
                (KeyboardHookAction::SwallowHoldRepeat, pressed)
            } else {
                let was = pressed.contains(vk);
                let now = if down {
                    pressed.insert(vk)
                } else {
                    pressed.remove(vk)
                };
                let route = if down && !was && spec_is_recording_shortcut(vk, now) {
                    KeyboardHookAction::RecordingShortcut
                } else if obs.recording && (vk == 0x09 || vk == 0x1B) && (now.contains(0x12) || now.contains(
                    0x5B,
                )) {
                    KeyboardHookAction::DiscardFocusSwitch
                } else if obs.recording {
                    KeyboardHookAction::Record { vk, down }
                } else if !down {
                    KeyboardHookAction::ReleaseRemap { vk }
                } else if !obs.global_enabled {
                    KeyboardHookAction::Disabled
                } else if obs.rearm_required {
                    KeyboardHookAction::RearmGate { vk }
                } else {
                    KeyboardHookAction::Dispatch {
                        vk,
                        was_pressed: was,
                        background_allowed: obs.background_allowed,
                    }
                };
                (route, now)
            }
        },
    }
}

/// Routes one low-level keyboard event and keeps the logical pressed set:
/// injected input and other messages pass on untouched, the emergency key is
/// handled before anything else, a live Hold's owner key swallows its
/// auto-repeat, the recording shortcut comes next, a recording captures keys
/// and lets them pass, and only then do rules see a key-down, when the global
/// switch is on. The returned flag marks a key-up past the emergency check:
/// the caller then releases a Hold owned by that key.
pub fn keyboard_hook_step(
    obs: &KeyboardHookObservation,
    slot: &HoldLifecycleSlot,
    flags: u32,
    message_id: u32,
    raw_vk: u32,
    pressed: &mut HashSet<u32>,
) -> (r: (KeyboardHookAction, bool))
    ensures
        (r.0, final(pressed)@) == keyboard_hook_action(*obs, *slot, flags, message_id, raw_vk, old(pressed)@),
        r.1 == (keyboard_transition_of(flags, message_id) == Some(KeyAction::Up) && obs.ledger_accepted
            && canonical_vk(raw_vk) != obs.emergency_vk),
        flags & KEYBOARD_INJECTED_FLAG != 0 ==> r.0 == KeyboardHookAction::PassThrough,
        !obs.global_enabled || obs.recording ==> !(r.0 is Dispatch),
{
    let action = match keyboard_transition(flags, message_id) {
        None => return (KeyboardHookAction::PassThrough, false),
        Some(a) => a,
    };
    if !obs.ledger_accepted {
        return (KeyboardHookAction::PassThrough, false);
    }
    let vk = canonical_virtual_key(raw_vk);
    let down = match action {
        KeyAction::Down => true,
        KeyAction::Up => false,
    };
    if vk == obs.emergency_vk {
        return (KeyboardHookAction::Emergency { down }, false);
    }
    if down && slot.owns_owner_keydown(vk) {
        return (KeyboardHookAction::SwallowHoldRepeat, false);
    }
    let was_pressed = note_logical_key(pressed, vk, action);
    let route = if down && !was_pressed && is_recording_shortcut_key(vk, pressed) {
        KeyboardHookAction::RecordingShortcut
    } else if obs.recording && is_focus_switch_key(vk, pressed) {
        KeyboardHookAction::DiscardFocusSwitch
    } else if obs.recording {
        KeyboardHookAction::Record { vk, down }
    } else if !down {
        KeyboardHookAction::ReleaseRemap { vk }
    } else if !obs.global_enabled {
        KeyboardHookAction::Disabled
    } else if obs.rearm_required {
        KeyboardHookAction::RearmGate { vk }
    } else {
        KeyboardHookAction::Dispatch { vk, was_pressed, background_allowed: obs.background_allowed }
    };
    (route, !down)
}

} // verus!
