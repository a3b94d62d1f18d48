//! The playback record that the status view reads: which instance runs, its
//! progress, its phase and cleanup result, and how long a finished playback
//! stays on screen. Updates name the instance they belong to, so a stale
//! playback thread never rewrites a newer instance's record.

use std::sync::Arc;
use std::sync::atomic::{AtomicBool, Ordering};
use vstd::prelude::*;
use crate::config::AutomationProgram;
use crate::playback::{macro_step_kind, macro_step_summary, step_kind, step_summary};
use crate::input_safety::InjectedInputState;
use crate::runtime::{phase_name, runtime_phase_name, RunToken, RuntimePhase};
use crate::status::MacroPlaybackStatus;
use crate::text::string_from_str;

verus! {

/// How long a finished playback stays visible, in milliseconds.
pub const TERMINAL_DISPLAY_MS: u64 = 1800;

/// The record of the current or last playback.
pub struct PlaybackState {
    pub running: bool,
    /// The stop flag of the running instance.
    pub stop: Option<Arc<AtomicBool>>,
    pub instance_id: u64,
    pub run_token: Option<RunToken>,
    pub emergency_generation: u64,
    /// The input ledger of the running instance.
    pub input_state: Option<Arc<InjectedInputState>>,
    /// The window to give the focus back to afterwards.
    pub restore_window: Option<isize>,
    pub current_step: usize,
    pub current_step_kind: Option<String>,
    pub total_steps: usize,
    pub last_error: Option<String>,
    pub macro_id: Option<String>,
    pub macro_name: Option<String>,
    pub program_kind: Option<String>,
    pub action_summary: Option<String>,
    pub phase: String,
    pub cleanup_status: String,
    /// When the instance started, in milliseconds.
    pub started_at_ms: Option<u64>,
    /// Until when a finished playback stays visible, in milliseconds.
    pub terminal_until_ms: Option<u64>,
    /// A finished playback that stays visible until the next one starts.
    pub terminal_persistent: bool,
}

/// A record with nothing in it.
pub open spec fn blank_record(s: PlaybackState) -> bool {
    &&& !s.running
    &&& s.stop is None
    &&& s.instance_id == 0
    &&& s.run_token is None
    &&& s.emergency_generation == 0
    &&& s.input_state is None
    &&& s.restore_window is None
    &&& s.current_step == 0
    &&& s.current_step_kind is None
    &&& s.total_steps == 0
    &&& s.last_error is None
    &&& s.macro_id is None
    &&& s.macro_name is None
    &&& s.program_kind is None
    &&& s.action_summary is None
    &&& s.phase@.len() == 0
    &&& s.cleanup_status@.len() == 0
    &&& s.started_at_ms is None
    &&& s.terminal_until_ms is None
    &&& !s.terminal_persistent
}

impl Default for PlaybackState {
    fn default() -> (r: Self)
        ensures
            blank_record(r),
    {
        PlaybackState {
            running: false,
            stop: None,
            instance_id: 0,
            run_token: None,
            emergency_generation: 0,
            input_state: None,
            restore_window: None,
            current_step: 0,
            current_step_kind: None,
            total_steps: 0,
            last_error: None,
            macro_id: None,
            macro_name: None,
            program_kind: None,
            action_summary: None,
            phase: String::new(),
            cleanup_status: String::new(),
            started_at_ms: None,
            terminal_until_ms: None,
            terminal_persistent: false,
        }
    }
}

/// The view of an optional text.
pub open spec fn opt_view(s: Option<String>) -> Option<Seq<char>> {
    match s {
        Some(t) => Some(t@),
        None => None,
    }
}

fn clone_text(s: &Option<String>) -> (r: Option<String>)
    ensures
        r == *s,
{
    match s {
        Some(t) => Some(t.clone()),
        None => None,
    }
}

/// A finished, non-persistent playback whose display time is over.
pub open spec fn display_expired(s: PlaybackState, now_ms: u64) -> bool {
    &&& !s.running
    &&& !s.terminal_persistent
    &&& s.terminal_until_ms matches Some(deadline)
    &&& deadline <= now_ms
}

/// The text the status shows for the phase: the controller's phase when it
/// is fault-locked or the record has none.
pub open spec fn shown_phase(s: PlaybackState, controller_phase: RuntimePhase) -> Seq<char> {
    if controller_phase == RuntimePhase::FaultLocked || s.phase@.len() == 0 {
        phase_name(controller_phase)
    } else {
        s.phase@
    }
}

/// Whether the playback overlay shows: it is enabled, no macro is being
/// recorded, the playback runs or is still displayed, and it has a name.
pub open spec fn overlay_shown(s: PlaybackState, overlay_enabled: bool, recording: bool) -> bool {
    overlay_enabled && !recording && (s.running || s.terminal_persistent || s.terminal_until_ms is Some)
        && s.macro_name is Some
}

impl PlaybackState {
    /// Starts the record of instance `instance_id` at `now_ms`: running from
    /// step 0, with no error, and not yet displayed as finished.
    pub fn begin_instance(
        &mut self,
        instance_id: u64,
        run_token: RunToken,
        stop: Arc<AtomicBool>,
        emergency_generation: u64,
        input_state: Arc<InjectedInputState>,
        restore_window: Option<isize>,
        total_steps: usize,
        macro_id: &String,
        macro_name: &String,
        program: &AutomationProgram,
        now_ms: u64,
    )
        ensures
            final(self).running,
            final(self).stop == Some(stop),
            final(self).instance_id == instance_id,
            final(self).run_token == Some(run_token),
            final(self).emergency_generation == emergency_generation,
            final(self).input_state == Some(input_state),
            final(self).restore_window == restore_window,
            final(self).current_step == 0,
            final(self).current_step_kind is None,
            final(self).total_steps == total_steps,
            final(self).last_error is None,
            opt_view(final(self).macro_id) == Some(macro_id@),
            opt_view(final(self).macro_name) == Some(macro_name@),
            opt_view(final(self).program_kind) == Some(
                match program {
                    AutomationProgram::Macro { .. } => "macro"@,
                    AutomationProgram::Script { .. } => "rhai"@,
                },
            ),
            final(self).action_summary is None,
            final(self).phase@ == "running"@,
            final(self).cleanup_status@ == "not_started"@,
            final(self).started_at_ms == Some(now_ms),
            final(self).terminal_until_ms is None,
            !final(self).terminal_persistent,
    {
        self.running = true;
        self.stop = Some(stop);
        self.instance_id = instance_id;
        self.run_token = Some(run_token);
        self.emergency_generation = emergency_generation;
        self.input_state = Some(input_state);
        self.restore_window = restore_window;
        self.current_step = 0;
        self.current_step_kind = None;
        self.total_steps = total_steps;
        self.last_error = None;
        self.macro_id = Some(macro_id.clone());
        self.macro_name = Some(macro_name.clone());
        self.program_kind = Some(
            match program {
                AutomationProgram::Macro { .. } => string_from_str("macro"),
                AutomationProgram::Script { .. } => string_from_str("rhai"),
            },
        );
        self.action_summary = None;
        self.phase = string_from_str("running");
        self.cleanup_status = string_from_str("not_started");
        self.started_at_ms = Some(now_ms);
        self.terminal_until_ms = None;
        self.terminal_persistent = false;
    }

    /// Asks the running instance to stop: its stop flag is raised and, while
    /// it runs, its phase becomes `stopping` with cleanup not yet started.
    /// Returns whether there was a stop flag to raise.
    pub fn signal_stop(&mut self) -> (r: bool)
        ensures
            r == (old(self).stop is Some),
            !r || !old(self).running ==> *final(self) == *old(self),
            r && old(self).running ==> *final(self) == (PlaybackState {
                phase: final(self).phase,
                cleanup_status: final(self).cleanup_status,
                ..*old(self)
            }) && final(self).phase@ == "stopping"@ && final(self).cleanup_status@ == "not_started"@,
    {
        let raised = match &self.stop {
            Some(flag) => {
                flag.store(true, Ordering::SeqCst);
                true
            },
            None => false,
        };
        if raised && self.running {
            self.phase = string_from_str("stopping");
            self.cleanup_status = string_from_str("not_started");
        }
        raised
    }

    /// Records a refused start. Nothing changes while an instance runs or
    /// still has its stop flag.
    pub fn set_start_error(&mut self, message: &str)
        ensures
            (old(self).running || old(self).stop is Some) ==> *final(self) == *old(self),
            !(old(self).running || old(self).stop is Some) ==> {
                &&& !final(self).running
                &&& final(self).stop is None
                &&& opt_view(final(self).last_error) == Some(message@)
                &&& final(self).phase@ == "failed"@
                &&& final(self).cleanup_status@ == "safe"@
                &&& final(self).terminal_until_ms is None
                &&& !final(self).terminal_persistent
                &&& final(self).instance_id == old(self).instance_id
                &&& final(self).macro_name == old(self).macro_name
                &&& final(self).current_step == old(self).current_step
            },
    {
        if self.running || self.stop.is_some() {
            return;
        }
        self.running = false;
        self.stop = None;
        self.last_error = Some(string_from_str(message));
        self.phase = string_from_str("failed");
        self.cleanup_status = string_from_str("safe");
        self.terminal_until_ms = None;
        self.terminal_persistent = false;
    }

    /// Records the step that instance `instance_id` is at; ignored unless
    /// that instance is the one running.
    pub fn set_action(&mut self, instance_id: u64, current_step: usize, kind: &str, summary: Option<String>)
        ensures
            (old(self).instance_id != instance_id || !old(self).running) ==> *final(self) == *old(self),
            (old(self).instance_id == instance_id && old(self).running) ==> *final(self) == (PlaybackState {
                current_step,
                current_step_kind: final(self).current_step_kind,
                action_summary: summary,
                ..*old(self)
            }) && opt_view(final(self).current_step_kind) == Some(kind@),
    {
        if self.instance_id != instance_id || !self.running {
            return;
        }
        self.current_step = current_step;
        self.current_step_kind = Some(string_from_str(kind));
        self.action_summary = summary;
    }

    /// Records the executor's progress report for instance `instance_id`:
    /// for a recorded macro, step `step` (counted from 1) with its kind and
    /// summary, nothing when there is no such step; for a script, the API
    /// call it is making. Ignored unless that instance is running.
    pub fn record_progress(&mut self, instance_id: u64, program: &AutomationProgram, step: usize, action: &str)
        ensures
            (old(self).instance_id != instance_id || !old(self).running) ==> *final(self) == *old(self),
            (old(self).instance_id == instance_id && old(self).running) ==> match *program {
                AutomationProgram::Macro { steps } => {
                    let index = if step == 0 { 0int } else { step - 1 };
                    if index < steps@.len() {
                        &&& *final(self) == (PlaybackState {
                            current_step: step,
                            current_step_kind: final(self).current_step_kind,
                            action_summary: final(self).action_summary,
                            ..*old(self)
                        })
                        &&& opt_view(final(self).current_step_kind) == Some(step_kind(steps@[index]))
                        &&& opt_view(final(self).action_summary) == Some(step_summary(steps@[index]))
                    } else {
                        *final(self) == *old(self)
                    }
                },
                AutomationProgram::Script { .. } => {
                    &&& *final(self) == (PlaybackState {
                        current_step: step,
                        current_step_kind: final(self).current_step_kind,
                        action_summary: final(self).action_summary,
                        ..*old(self)
                    })
                    &&& opt_view(final(self).current_step_kind) == Some("rhai"@)
                    &&& opt_view(final(self).action_summary) == Some("Rhai API："@ + action@)
                },
            },
    {
        match program {
            AutomationProgram::Macro { steps } => {
                let index = if step == 0 { 0 } else { step - 1 };
                if index < steps.len() {
                    let summary = macro_step_summary(&steps[index]);
                    self.set_action(instance_id, step, macro_step_kind(&steps[index]), Some(summary));
                }
            },
            AutomationProgram::Script { .. } => {
                let mut summary = string_from_str("Rhai API：");
                crate::text::push_str_chars(&mut summary, action);
                self.set_action(instance_id, step, "rhai", Some(summary));
            },
        }
    }

    /// Records the phase and cleanup status of instance `instance_id`, and
    /// its error if one is given; ignored unless that instance is running.
    pub fn set_phase(&mut self, instance_id: u64, phase: &str, cleanup_status: &str, error: Option<String>)
        ensures
            (old(self).instance_id != instance_id || !old(self).running) ==> *final(self) == *old(self),
            (old(self).instance_id == instance_id && old(self).running) ==> {
                &&& *final(self) == (PlaybackState {
                    phase: final(self).phase,
                    cleanup_status: final(self).cleanup_status,
                    last_error: final(self).last_error,
                    ..*old(self)
                })
                &&& final(self).phase@ == phase@
                &&& final(self).cleanup_status@ == cleanup_status@
                &&& final(self).last_error == (match error {
                    Some(e) => Some(e),
                    None => old(self).last_error,
                })
            },
    {
        if self.instance_id != instance_id || !self.running {
            return;
        }
        self.phase = string_from_str(phase);
        self.cleanup_status = string_from_str(cleanup_status);
        if let Some(error) = error {
            self.last_error = Some(error);
        }
    }

    /// Ends instance `instance_id` at `now_ms`. Returns false and changes
    /// nothing for any other instance. An error marks the playback failed
    /// unless its cleanup already failed; a clean end of a running playback
    /// marks it completed and safe. A cleanup failure stays visible until the
    /// next playback; any other end stays visible for 1.8 s.
    pub fn finalize_instance(&mut self, instance_id: u64, error: Option<String>, now_ms: u64) -> (r: bool)
        ensures
            r == (old(self).instance_id == instance_id),
            !r ==> *final(self) == *old(self),
            r ==> {
                &&& !final(self).running
                &&& final(self).stop is None
                &&& final(self).run_token is None
                &&& final(self).input_state is None
                &&& final(self).restore_window is None
                &&& final(self).instance_id == instance_id
                &&& final(self).last_error == (match error {
                    Some(e) => Some(e),
                    None => old(self).last_error,
                })
                &&& final(self).phase@ == (if error is Some {
                    if old(self).phase@ == "cleanup_failed"@ {
                        old(self).phase@
                    } else {
                        "failed"@
                    }
                } else if old(self).phase@ == "running"@ || old(self).phase@.len() == 0 {
                    "completed"@
                } else {
                    old(self).phase@
                })
                &&& final(self).cleanup_status@ == (if error is None && (old(self).phase@ == "running"@
                    || old(self).phase@.len() == 0) {
                    "safe"@
                } else {
                    old(self).cleanup_status@
                })
                &&& final(self).terminal_persistent == (final(self).phase@ == "cleanup_failed"@)
                &&& final(self).terminal_until_ms == (if final(self).phase@ == "cleanup_failed"@ {
                    None
                } else {
                    Some(crate::playback_state::saturating_add_spec(now_ms, TERMINAL_DISPLAY_MS))
                })
                &&& final(self).macro_name == old(self).macro_name
                &&& final(self).macro_id == old(self).macro_id
                &&& final(self).current_step == old(self).current_step
                &&& final(self).total_steps == old(self).total_steps
            },
    {
        if self.instance_id != instance_id {
            return false;
        }
        self.running = false;
        self.stop = None;
        self.run_token = None;
        self.input_state = None;
        self.restore_window = None;
        let cleanup_failed = text_is(&self.phase, "cleanup_failed");
        match error {
            Some(e) => {
                self.last_error = Some(e);
                if !cleanup_failed {
                    self.phase = string_from_str("failed");
                }
            },
            None => {
                if text_is(&self.phase, "running") || text_empty(&self.phase) {
                    self.phase = string_from_str("completed");
                    self.cleanup_status = string_from_str("safe");
                }
            },
        }
        proof {
            reveal_strlit("cleanup_failed");
            reveal_strlit("failed");
            reveal_strlit("completed");
            reveal_strlit("running");
        }
        if text_is(&self.phase, "cleanup_failed") {
            self.terminal_persistent = true;
            self.terminal_until_ms = None;
        } else {
            self.terminal_persistent = false;
            self.terminal_until_ms = Some(now_ms.saturating_add(TERMINAL_DISPLAY_MS));
        }
        true
    }

    /// The status at `now_ms`. A finished playback whose display time is
    /// over is cleared first, back to an idle record that keeps its instance
    /// id and step position.
    pub fn status(
        &mut self,
        overlay_enabled: bool,
        recording: bool,
        controller_phase: RuntimePhase,
        now_ms: u64,
    ) -> (r: MacroPlaybackStatus)
        ensures
            display_expired(*old(self), now_ms) ==> {
                &&& final(self).macro_id is None
                &&& final(self).macro_name is None
                &&& final(self).program_kind is None
                &&& final(self).action_summary is None
                &&& final(self).current_step_kind is None
                &&& final(self).total_steps == 0
                &&& final(self).last_error is None
                &&& final(self).phase@ == "idle"@
                &&& final(self).cleanup_status@ == "not_started"@
                &&& final(self).started_at_ms is None
                &&& final(self).terminal_until_ms is None
                &&& !final(self).terminal_persistent
                &&& final(self).running == old(self).running
                &&& final(self).instance_id == old(self).instance_id
                &&& final(self).current_step == old(self).current_step
            },
            !display_expired(*old(self), now_ms) ==> *final(self) == *old(self),
            r.running == final(self).running,
            r.current_step == final(self).current_step,
            r.total_steps == final(self).total_steps,
            r.last_error == final(self).last_error,
            r.playback_id == final(self).instance_id,
            r.macro_id == final(self).macro_id,
            r.macro_name == final(self).macro_name,
            r.program_kind@ == (match final(self).program_kind {
                Some(kind) => kind@,
                None => "unknown"@,
            }),
            r.action_kind == final(self).current_step_kind,
            r.action_summary == final(self).action_summary,
            r.elapsed_ms == (match final(self).started_at_ms {
                Some(started) => if now_ms >= started {
                    (now_ms - started) as u64
                } else {
                    0
                },
                None => 0,
            }),
            r.phase@ == shown_phase(*final(self), controller_phase),
            r.cleanup_status@ == (if final(self).cleanup_status@.len() == 0 {
                "not_started"@
            } else {
                final(self).cleanup_status@
            }),
            r.overlay_visible == overlay_shown(*final(self), overlay_enabled, recording),
    {
        let expired = match self.terminal_until_ms {
            Some(deadline) => !self.running && !self.terminal_persistent && deadline <= now_ms,
            None => false,
        };
        if expired {
            self.macro_id = None;
            self.macro_name = None;
            self.program_kind = None;
            self.action_summary = None;
            self.current_step_kind = None;
            self.total_steps = 0;
            self.last_error = None;
            self.phase = string_from_str("idle");
            self.cleanup_status = string_from_str("not_started");
            self.started_at_ms = None;
            self.terminal_until_ms = None;
            self.terminal_persistent = false;
        }
        let terminal_active = self.running || self.terminal_persistent || self.terminal_until_ms.is_some();
        let program_kind = match &self.program_kind {
            Some(kind) => kind.clone(),
            None => string_from_str("unknown"),
        };
        let elapsed_ms = match self.started_at_ms {
            Some(started) => now_ms.saturating_sub(started),
            None => 0,
        };
        let phase = if controller_phase == RuntimePhase::FaultLocked || text_empty(&self.phase) {
            string_from_str(runtime_phase_name(controller_phase))
        } else {
            self.phase.clone()
        };
        let cleanup_status = if text_empty(&self.cleanup_status) {
            string_from_str("not_started")
        } else {
            self.cleanup_status.clone()
        };
        MacroPlaybackStatus {
            running: self.running,
            current_step: self.current_step,
            total_steps: self.total_steps,
            last_error: clone_text(&self.last_error),
            playback_id: self.instance_id,
            macro_id: clone_text(&self.macro_id),
            macro_name: clone_text(&self.macro_name),
            program_kind,
            action_kind: clone_text(&self.current_step_kind),
            action_summary: clone_text(&self.action_summary),
            elapsed_ms,
            phase,
            cleanup_status,
            overlay_visible: overlay_enabled && !recording && terminal_active && self.macro_name.is_some(),
        }
    }
}

/// A playback whose cleanup failed stays on display: a persistent record
/// never expires, whatever the time, until the next instance starts.
pub proof fn lemma_cleanup_failure_stays_visible(s: PlaybackState, now_ms: u64)
    requires
        s.terminal_persistent,
    ensures
        !display_expired(s, now_ms),
{
}

/// `a + b`, or the largest `u64` when that overflows.
pub open spec fn saturating_add_spec(a: u64, b: u64) -> u64 {
    if a + b > u64::MAX {
        u64::MAX
    } else {
        (a + b) as u64
    }
}

fn text_empty(s: &String) -> (r: bool)
    ensures
        r == (s@.len() == 0),
{
    s.as_str().unicode_len() == 0
}

fn text_is(s: &String, t: &str) -> (r: bool)
    ensures
        r == (s@ == t@),
{
    crate::text::chars_equal(crate::text::str_chars(s.as_str()).as_slice(), crate::text::str_chars(t).as_slice())
}

} // verus!
