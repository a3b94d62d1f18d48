//! Verified core of the AutoFlow input service: key naming and classification,
//! the physical key ledger, trigger release gating, native hotkey planning,
//! macro recording, launch command parsing and the injected-input safety ledger.

pub mod keys;
pub mod clock;
pub mod text;
pub mod ledger;
pub mod config;
pub mod runtime;
pub mod trigger;
pub mod native;
pub mod recorder;
pub mod launch;
pub mod input_safety;
pub mod playback;
pub mod hold;
pub mod snapshot;
pub mod cleanup_lane;
pub mod status;
pub mod diagnostics;
pub mod admission;
pub mod expansion;
pub mod remap;
pub mod hold_lifecycle;
pub mod playback_state;
pub mod health;
pub mod mouse;
pub mod config_change;
pub mod keyboard;
