//! The configuration model that the input service acts on: macro rules, their
//! trigger keys and programs, and the global switches.

use vstd::prelude::*;
use crate::keys::{KeyAction, MouseButton};

verus! {

/// How a macro's trigger starts and stops it.
#[derive(Debug, Clone, Copy, PartialEq, Eq, Hash, Structural)]
pub enum MacroMode {
    Once,
    Repeat,
    Hold,
    Toggle,
}

/// One recorded or edited macro action.
#[derive(Debug, Clone, PartialEq, Eq)]
pub enum MacroStep {
    Delay { duration_ms: u64, duration_max_ms: Option<u64> },
    Key { key: String, action: KeyAction },
    MouseButton { button: MouseButton, action: KeyAction, x: i32, y: i32 },
    MouseMove { x: i32, y: i32 },
    Wheel { delta_x: i32, delta_y: i32 },
    Text { text: String },
}

/// What a macro runs: a list of recorded steps or a script.
#[derive(Debug, Clone, PartialEq, Eq)]
pub enum AutomationProgram {
    Macro { steps: Vec<MacroStep> },
    /// A script in the automation API version `api_version`.
    Script { source: String, api_version: u32 },
}

/// The window a recording was made against.
#[derive(Debug, Clone, PartialEq, Eq)]
pub struct MacroTarget {
    pub process_name: String,
    pub window_title: String,
}

/// A configured macro.
///
/// `speed_bits` holds the IEEE-754 bits of the playback speed factor, so that
/// two rules compare equal exactly when their speeds have the same bits.
#[derive(Debug, Clone, PartialEq, Eq)]
pub struct MacroRule {
    pub id: String,
    pub name: String,
    pub import_error: Option<String>,
    pub enabled: bool,
    pub trigger_keys: Vec<String>,
    pub mode: MacroMode,
    pub repeat_count: u32,
    pub speed_bits: u32,
    pub record_mouse_move: bool,
    pub record_mouse_clicks: bool,
    pub target: Option<MacroTarget>,
    pub program: AutomationProgram,
}

/// What a hotkey does: its kind (`remap` or `launch`) and its target (a key
/// name or a launch target).
#[derive(Debug, Clone, PartialEq, Eq)]
pub struct HotkeyAction {
    pub action_type: String,
    pub target: String,
}

/// A configured hotkey.
#[derive(Debug, Clone, PartialEq, Eq)]
pub struct HotkeyRule {
    pub enabled: bool,
    pub trigger_keys: Vec<String>,
    pub action: HotkeyAction,
}

/// A text expansion: typing the abbreviation replaces it with the
/// replacement.
#[derive(Debug, Clone, PartialEq, Eq)]
pub struct TextExpansionRule {
    pub enabled: bool,
    pub abbreviation: String,
    pub replacement: String,
    pub case_sensitive: bool,
}

/// The part of the application configuration that the input service reads.
#[derive(Debug, Clone, PartialEq, Eq)]
pub struct AppConfig {
    pub global_enabled: bool,
    pub show_playback_overlay: bool,
    pub emergency_stop: String,
    pub macros: Vec<MacroRule>,
    pub hotkeys: Vec<HotkeyRule>,
    pub text_expansions: Vec<TextExpansionRule>,
}

impl AppConfig {
    /// The safe default: enabled, F12 as the emergency stop and no macros.
    pub fn new() -> (r: Self)
        ensures
            r.global_enabled,
            !r.show_playback_overlay,
            r.emergency_stop@ == seq!['F', '1', '2'],
            r.macros@.len() == 0,
            r.hotkeys@.len() == 0,
            r.text_expansions@.len() == 0,
    {
        let mut emergency = String::new();
        crate::text::push_char(&mut emergency, 'F');
        crate::text::push_char(&mut emergency, '1');
        crate::text::push_char(&mut emergency, '2');
        AppConfig {
            global_enabled: true,
            show_playback_overlay: false,
            emergency_stop: emergency,
            macros: Vec::new(),
            hotkeys: Vec::new(),
            text_expansions: Vec::new(),
        }
    }
}

impl Default for AppConfig {
    fn default() -> (r: Self)
        ensures
            r.global_enabled,
            !r.show_playback_overlay,
            r.emergency_stop@ == seq!['F', '1', '2'],
            r.macros@.len() == 0,
            r.hotkeys@.len() == 0,
            r.text_expansions@.len() == 0,
    {
        AppConfig::new()
    }
}

} // verus!
