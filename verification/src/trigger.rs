//! Trigger admission: the release gate that a hotkey start must pass, the
//! playback action a hotkey maps to, and consistency checks on Hold state.

use std::sync::atomic::AtomicBool;
use std::sync::atomic::Ordering;
use vstd::prelude::*;
use crate::config::{MacroMode, MacroRule};
use crate::runtime::RunToken;

verus! {

/// Why a pending trigger was abandoned.
#[derive(Debug, Clone, Copy, PartialEq, Eq, Structural)]
pub enum TriggerReleaseCancellation {
    TriggerConfiguration,
    PhysicalLedgerUncertain,
    TaskGeneration,
    ControllerGeneration,
    AdmissionRevision,
    ConfigRevision,
    HoldLifecycle,
    HoldOwnerReleased,
}

/// Whether the trigger's admission context is still current.
#[derive(Debug, Clone, Copy, PartialEq, Eq, Structural)]
pub enum TriggerReleaseGateStatus {
    Current,
    Shutdown,
    Cancelled(TriggerReleaseCancellation),
}

/// How waiting for the trigger keys to be released ended.
#[derive(Debug, Clone, Copy, PartialEq, Eq, Structural)]
pub enum TriggerReleaseGateOutcome {
    Ready,
    Timeout,
    Shutdown,
    Cancelled(TriggerReleaseCancellation),
}

/// Time between two samples of the trigger keys, in milliseconds.
pub const TRIGGER_RELEASE_POLL_MS: u64 = 3;

/// How long every trigger key must stay released, in milliseconds.
pub const TRIGGER_RELEASE_STABLE_MS: u64 = 18;

/// How long a trigger may wait for release, in milliseconds.
pub const TRIGGER_RELEASE_TIMEOUT_MS: u64 = 5000;

/// Waits until all trigger keys have been released for a stable window.
///
/// Times are milliseconds since the trigger was accepted.
#[derive(Debug)]
pub struct TriggerReleaseGate {
    pub stable_since_ms: Option<u64>,
    pub stable_window_ms: u64,
    pub timeout_ms: u64,
}

/// One sample of the trigger keys.
#[derive(Debug, Clone, Copy)]
pub struct TriggerReleaseSample {
    pub elapsed_ms: u64,
    pub any_trigger_key_down: bool,
    pub status: TriggerReleaseGateStatus,
}

/// One sample of a Hold trigger: its owner key and its modifiers.
#[derive(Debug, Clone, Copy)]
pub struct HoldModifierReleaseSample {
    pub elapsed_ms: u64,
    pub owner_down: bool,
    pub any_modifier_down: bool,
    pub status: TriggerReleaseGateStatus,
}

/// The outcome of one observation, and the released-since time kept afterwards.
pub open spec fn observe_spec(
    stable_since: Option<u64>,
    stable_window: u64,
    timeout: u64,
    elapsed: u64,
    any_down: bool,
    status: TriggerReleaseGateStatus,
) -> (Option<TriggerReleaseGateOutcome>, Option<u64>) {
    match status {
        TriggerReleaseGateStatus::Shutdown => (Some(TriggerReleaseGateOutcome::Shutdown), stable_since),
        TriggerReleaseGateStatus::Cancelled(reason) => (
            Some(TriggerReleaseGateOutcome::Cancelled(reason)),
            stable_since,
        ),
        TriggerReleaseGateStatus::Current => {
            if elapsed >= timeout {
                (Some(TriggerReleaseGateOutcome::Timeout), stable_since)
            } else if any_down {
                (None, None)
            } else {
                let since = match stable_since {
                    Some(s) => s,
                    None => elapsed,
                };
                if elapsed >= since && elapsed - since >= stable_window {
                    (Some(TriggerReleaseGateOutcome::Ready), Some(since))
                } else {
                    (None, Some(since))
                }
            }
        },
    }
}

impl TriggerReleaseGate {
    pub fn new(stable_window_ms: u64, timeout_ms: u64) -> (r: Self)
        ensures
            r.stable_since_ms is None,
            r.stable_window_ms == stable_window_ms,
            r.timeout_ms == timeout_ms,
    {
        TriggerReleaseGate { stable_since_ms: None, stable_window_ms, timeout_ms }
    }

    /// Feeds one sample. Shutdown and cancellation end the wait at once, and
    /// so does the timeout. A held key clears the released-since time; the
    /// gate is ready once the keys have stayed released for the whole window.
    pub fn observe(
        &mut self,
        elapsed_ms: u64,
        any_trigger_key_down: bool,
        status: TriggerReleaseGateStatus,
    ) -> (r: Option<TriggerReleaseGateOutcome>)
        ensures
            (r, final(self).stable_since_ms) == observe_spec(
                old(self).stable_since_ms,
                old(self).stable_window_ms,
                old(self).timeout_ms,
                elapsed_ms,
                any_trigger_key_down,
                status,
            ),
            final(self).stable_window_ms == old(self).stable_window_ms,
            final(self).timeout_ms == old(self).timeout_ms,
    {
        match status {
            TriggerReleaseGateStatus::Shutdown => return Some(TriggerReleaseGateOutcome::Shutdown),
            TriggerReleaseGateStatus::Cancelled(reason) => {
                return Some(TriggerReleaseGateOutcome::Cancelled(reason))
            },
            TriggerReleaseGateStatus::Current => {},
        }
        if elapsed_ms >= self.timeout_ms {
            return Some(TriggerReleaseGateOutcome::Timeout);
        }
        if any_trigger_key_down {
            self.stable_since_ms = None;
            return None;
        }
        let since = match self.stable_since_ms {
            Some(s) => s,
            None => elapsed_ms,
        };
        self.stable_since_ms = Some(since);
        if elapsed_ms >= since && elapsed_ms - since >= self.stable_window_ms {
            Some(TriggerReleaseGateOutcome::Ready)
        } else {
            None
        }
    }
}

/// An outcome that a sample justifies on its own: a shutdown or cancellation
/// status, a sample past the timeout, or released keys under a current status.
pub open spec fn sample_justifies(
    outcome: TriggerReleaseGateOutcome,
    timeout: u64,
    s: TriggerReleaseSample,
) -> bool {
    match outcome {
        TriggerReleaseGateOutcome::Shutdown => s.status == TriggerReleaseGateStatus::Shutdown,
        TriggerReleaseGateOutcome::Cancelled(reason) => s.status
            == TriggerReleaseGateStatus::Cancelled(reason),
        TriggerReleaseGateOutcome::Timeout => s.status == TriggerReleaseGateStatus::Current
            && s.elapsed_ms >= timeout,
        TriggerReleaseGateOutcome::Ready => s.status == TriggerReleaseGateStatus::Current
            && !s.any_trigger_key_down && s.elapsed_ms < timeout,
    }
}

/// The driver's state after a run of samples, fed one by one to a gate that
/// starts released since `start`: the released-since time, whether the last
/// observation said Ready and waits for one more sample to confirm it, and
/// the outcome once one is decided (the samples after it change nothing).
/// A Ready verdict needs confirming: the outcome is whatever the next
/// observation decides, and when that one decides nothing the wait goes on.
pub open spec fn gate_run(
    window: u64,
    timeout: u64,
    start: Option<u64>,
    samples: Seq<TriggerReleaseSample>,
) -> (Option<u64>, bool, Option<TriggerReleaseGateOutcome>)
    decreases samples.len(),
{
    if samples.len() == 0 {
        (start, false, None)
    } else {
        let prev = gate_run(window, timeout, start, samples.drop_last());
        if prev.2 is Some {
            prev
        } else {
            let s = samples.last();
            let (o, since) = observe_spec(prev.0, window, timeout, s.elapsed_ms, s.any_trigger_key_down, s.status);
            if prev.1 {
                (since, false, o)
            } else {
                match o {
                    Some(TriggerReleaseGateOutcome::Ready) => (since, true, None),
                    _ => (since, false, o),
                }
            }
        }
    }
}

/// The outcome of a gate driven over `samples`: the decided outcome, or a
/// timeout once `u64::MAX` samples decided nothing.
pub open spec fn gate_driven_to(
    gate: TriggerReleaseGate,
    samples: Seq<TriggerReleaseSample>,
    outcome: TriggerReleaseGateOutcome,
) -> bool {
    let run = gate_run(gate.stable_window_ms, gate.timeout_ms, gate.stable_since_ms, samples);
    ||| run.2 == Some(outcome)
    ||| run.2 is None && outcome == TriggerReleaseGateOutcome::Timeout && samples.len() >= u64::MAX
}

/// Samples the trigger keys until the release gate decides. A Ready verdict must be
/// confirmed by one more sample: a key pressed again at that point sends the
/// gate back to waiting, and a shutdown or cancellation seen there wins over
/// the verdict.
///
/// After `u64::MAX` samples the wait ends with `Timeout`; with a clock behind
/// the samples its own timeout ends it much sooner.
pub fn drive_trigger_release_gate<S: Fn() -> TriggerReleaseSample, P: Fn(u64)>(
    gate: TriggerReleaseGate,
    sample: S,
    pause: P,
) -> (r: TriggerReleaseGateOutcome)
    requires
        sample.requires(()),
        forall|ms: u64| #[trigger] pause.requires((ms,)),
    ensures
        exists|samples: Seq<TriggerReleaseSample>|
            (forall|i: int| 0 <= i < samples.len() ==> sample.ensures((), #[trigger] samples[i]))
                && gate_driven_to(gate, samples, r),
        r != TriggerReleaseGateOutcome::Timeout ==> exists|s: TriggerReleaseSample|
            #[trigger] sample.ensures((), s) && sample_justifies(r, gate.timeout_ms, s),
        r == TriggerReleaseGateOutcome::Timeout ==> exists|s: TriggerReleaseSample|
            #[trigger] sample.ensures((), s) && s.status == TriggerReleaseGateStatus::Current,
{
    let mut g = TriggerReleaseGate {
        stable_since_ms: gate.stable_since_ms,
        stable_window_ms: gate.stable_window_ms,
        timeout_ms: gate.timeout_ms,
    };
    let timeout = g.timeout_ms;
    let ghost window = gate.stable_window_ms;
    let ghost mut seen: Seq<TriggerReleaseSample> = Seq::empty();
    let mut rounds: u64 = 0;
    while rounds < u64::MAX
        invariant
            sample.requires(()),
            forall|ms: u64| #[trigger] pause.requires((ms,)),
            g.timeout_ms == timeout,
            timeout == gate.timeout_ms,
            g.stable_window_ms == window,
            window == gate.stable_window_ms,
            forall|i: int| 0 <= i < seen.len() ==> sample.ensures((), #[trigger] seen[i]),
            gate_run(window, timeout, gate.stable_since_ms, seen) == (g.stable_since_ms, false, None::<
                TriggerReleaseGateOutcome,
            >),
            seen.len() >= rounds,
            rounds > 0 ==> exists|s: TriggerReleaseSample|
                #[trigger] sample.ensures((), s) && s.status == TriggerReleaseGateStatus::Current,
        decreases u64::MAX - rounds,
    {
        rounds = rounds + 1;
        let ghost since0 = g.stable_since_ms;
        let observation = sample();
        assert(sample.ensures((), observation));
        let first = g.observe(
            observation.elapsed_ms,
            observation.any_trigger_key_down,
            observation.status,
        );
        let ghost seen1 = seen.push(observation);
        proof {
            assert(seen1.drop_last() =~= seen);
            assert(seen1.last() == observation);
            assert forall|i: int| 0 <= i < seen1.len() implies sample.ensures((), #[trigger] seen1[i]) by {
                if i < seen.len() {
                    assert(seen1[i] == seen[i]);
                }
            };
        }
        match first {
            None => {
                proof {
                    seen = seen1;
                }
                pause(TRIGGER_RELEASE_POLL_MS);
            },
            Some(TriggerReleaseGateOutcome::Ready) => {
                assert(gate_run(window, timeout, gate.stable_since_ms, seen1) == (g.stable_since_ms, true, None::<
                    TriggerReleaseGateOutcome,
                >));
                let final_observation = sample();
                assert(sample.ensures((), final_observation));
                let second = g.observe(
                    final_observation.elapsed_ms,
                    final_observation.any_trigger_key_down,
                    final_observation.status,
                );
                let ghost seen2 = seen1.push(final_observation);
                proof {
                    assert(seen2.drop_last() =~= seen1);
                    assert(seen2.last() == final_observation);
                    assert forall|i: int| 0 <= i < seen2.len() implies sample.ensures((), #[trigger] seen2[i]) by {
                        if i < seen1.len() {
                            assert(seen2[i] == seen1[i]);
                        }
                    };
                }
                assert(gate_run(window, timeout, gate.stable_since_ms, seen2) == (g.stable_since_ms, false, second));
                match second {
                    Some(outcome) => {
                        assert(sample_justifies(outcome, timeout, final_observation));
                        assert(gate_driven_to(gate, seen2, outcome));
                        return outcome;
                    },
                    None => {
                        proof {
                            seen = seen2;
                        }
                        pause(TRIGGER_RELEASE_POLL_MS);
                    },
                }
            },
            Some(outcome) => {
                assert(gate_driven_to(gate, seen1, outcome));
                return outcome;
            },
        }
    }
    assert(gate_driven_to(gate, seen, TriggerReleaseGateOutcome::Timeout));
    TriggerReleaseGateOutcome::Timeout
}

} // verus!

verus! {

/// A Hold sample seen through the release gate: the modifiers are the keys
/// that must be released, and a released owner key cancels the start.
pub open spec fn hold_as_trigger_sample(s: HoldModifierReleaseSample) -> TriggerReleaseSample {
    TriggerReleaseSample {
        elapsed_ms: s.elapsed_ms,
        any_trigger_key_down: s.any_modifier_down,
        status: if s.status == TriggerReleaseGateStatus::Current && !s.owner_down {
            TriggerReleaseGateStatus::Cancelled(TriggerReleaseCancellation::HoldOwnerReleased)
        } else {
            s.status
        },
    }
}

fn hold_sample_to_trigger_sample(s: HoldModifierReleaseSample) -> (r: TriggerReleaseSample)
    ensures
        r == hold_as_trigger_sample(s),
{
    TriggerReleaseSample {
        elapsed_ms: s.elapsed_ms,
        any_trigger_key_down: s.any_modifier_down,
        status: if s.status == TriggerReleaseGateStatus::Current && !s.owner_down {
            TriggerReleaseGateStatus::Cancelled(TriggerReleaseCancellation::HoldOwnerReleased)
        } else {
            s.status
        },
    }
}

/// The outcome of a Hold trigger without modifiers, decided by one sample.
pub open spec fn hold_owner_only_outcome(s: HoldModifierReleaseSample) -> TriggerReleaseGateOutcome {
    match s.status {
        TriggerReleaseGateStatus::Shutdown => TriggerReleaseGateOutcome::Shutdown,
        TriggerReleaseGateStatus::Cancelled(reason) => TriggerReleaseGateOutcome::Cancelled(reason),
        TriggerReleaseGateStatus::Current => if s.owner_down {
            TriggerReleaseGateOutcome::Ready
        } else {
            TriggerReleaseGateOutcome::Cancelled(TriggerReleaseCancellation::HoldOwnerReleased)
        },
    }
}

/// Hold samples seen through the release gate.
pub open spec fn hold_samples_as_trigger(samples: Seq<HoldModifierReleaseSample>) -> Seq<TriggerReleaseSample> {
    samples.map_values(|s: HoldModifierReleaseSample| hold_as_trigger_sample(s))
}

/// Admission wait for a Hold trigger. Without modifiers one sample decides:
/// ready while the owner key is down. With modifiers the release gate waits
/// for every modifier to be released while the owner key stays down; releasing
/// the owner key first cancels the start.
pub fn drive_hold_modifier_release_gate<S: Fn() -> HoldModifierReleaseSample, P: Fn(u64)>(
    has_modifiers: bool,
    gate: TriggerReleaseGate,
    sample: S,
    pause: P,
) -> (r: TriggerReleaseGateOutcome)
    requires
        sample.requires(()),
        forall|ms: u64| #[trigger] pause.requires((ms,)),
    ensures
        !has_modifiers ==> exists|s: HoldModifierReleaseSample|
            #[trigger] sample.ensures((), s) && r == hold_owner_only_outcome(s),
        has_modifiers ==> exists|samples: Seq<HoldModifierReleaseSample>|
            (forall|i: int| 0 <= i < samples.len() ==> sample.ensures((), #[trigger] samples[i]))
                && #[trigger] gate_driven_to(gate, hold_samples_as_trigger(samples), r),
        has_modifiers && r != TriggerReleaseGateOutcome::Timeout ==> exists|s: HoldModifierReleaseSample|
            #[trigger] sample.ensures((), s) && sample_justifies(r, gate.timeout_ms, hold_as_trigger_sample(s)),
{
    if !has_modifiers {
        let observation = sample();
        assert(sample.ensures((), observation));
        return match observation.status {
            TriggerReleaseGateStatus::Shutdown => TriggerReleaseGateOutcome::Shutdown,
            TriggerReleaseGateStatus::Cancelled(reason) => TriggerReleaseGateOutcome::Cancelled(
                reason,
            ),
            TriggerReleaseGateStatus::Current => if observation.owner_down {
                TriggerReleaseGateOutcome::Ready
            } else {
                TriggerReleaseGateOutcome::Cancelled(TriggerReleaseCancellation::HoldOwnerReleased)
            },
        };
    }
    let mut g = TriggerReleaseGate {
        stable_since_ms: gate.stable_since_ms,
        stable_window_ms: gate.stable_window_ms,
        timeout_ms: gate.timeout_ms,
    };
    let timeout = g.timeout_ms;
    let ghost window = gate.stable_window_ms;
    let ghost mut raw_seen: Seq<HoldModifierReleaseSample> = Seq::empty();
    let ghost mut seen: Seq<TriggerReleaseSample> = Seq::empty();
    let mut rounds: u64 = 0;
    assert(hold_samples_as_trigger(raw_seen) =~= seen);
    while rounds < u64::MAX
        invariant
            sample.requires(()),
            forall|ms: u64| #[trigger] pause.requires((ms,)),
            g.timeout_ms == timeout,
            timeout == gate.timeout_ms,
            g.stable_window_ms == window,
            window == gate.stable_window_ms,
            has_modifiers,
            forall|i: int| 0 <= i < raw_seen.len() ==> sample.ensures((), #[trigger] raw_seen[i]),
            seen == hold_samples_as_trigger(raw_seen),
            gate_run(window, timeout, gate.stable_since_ms, seen) == (g.stable_since_ms, false, None::<
                TriggerReleaseGateOutcome,
            >),
            seen.len() >= rounds,
        decreases u64::MAX - rounds,
    {
        rounds = rounds + 1;
        let raw = sample();
        assert(sample.ensures((), raw));
        let observation = hold_sample_to_trigger_sample(raw);
        let first = g.observe(
            observation.elapsed_ms,
            observation.any_trigger_key_down,
            observation.status,
        );
        let ghost raw1 = raw_seen.push(raw);
        let ghost seen1 = seen.push(observation);
        proof {
            assert(seen1.drop_last() =~= seen);
            assert(seen1.last() == observation);
            assert(hold_samples_as_trigger(raw1) =~= seen1);
            assert forall|i: int| 0 <= i < raw1.len() implies sample.ensures((), #[trigger] raw1[i]) by {
                if i < raw_seen.len() {
                    assert(raw1[i] == raw_seen[i]);
                }
            };
        }
        match first {
            None => {
                proof {
                    raw_seen = raw1;
                    seen = seen1;
                }
                pause(TRIGGER_RELEASE_POLL_MS);
            },
            Some(TriggerReleaseGateOutcome::Ready) => {
                assert(gate_run(window, timeout, gate.stable_since_ms, seen1) == (g.stable_since_ms, true, None::<
                    TriggerReleaseGateOutcome,
                >));
                let raw_final = sample();
                assert(sample.ensures((), raw_final));
                let final_observation = hold_sample_to_trigger_sample(raw_final);
                let second = g.observe(
                    final_observation.elapsed_ms,
                    final_observation.any_trigger_key_down,
                    final_observation.status,
                );
                let ghost raw2 = raw1.push(raw_final);
                let ghost seen2 = seen1.push(final_observation);
                proof {
                    assert(seen2.drop_last() =~= seen1);
                    assert(seen2.last() == final_observation);
                    assert(hold_samples_as_trigger(raw2) =~= seen2);
                    assert forall|i: int| 0 <= i < raw2.len() implies sample.ensures((), #[trigger] raw2[i]) by {
                        if i < raw1.len() {
                            assert(raw2[i] == raw1[i]);
                        }
                    };
                }
                assert(gate_run(window, timeout, gate.stable_since_ms, seen2) == (g.stable_since_ms, false, second));
                match second {
                    Some(outcome) => {
                        assert(sample_justifies(outcome, timeout, final_observation));
                        assert(gate_driven_to(gate, seen2, outcome));
                        return outcome;
                    },
                    None => {
                        proof {
                            raw_seen = raw2;
                            seen = seen2;
                        }
                        pause(TRIGGER_RELEASE_POLL_MS);
                    },
                }
            },
            Some(outcome) => {
                assert(sample_justifies(outcome, timeout, observation));
                assert(gate_driven_to(gate, seen1, outcome));
                return outcome;
            },
        }
    }
    assert(gate_driven_to(gate, seen, TriggerReleaseGateOutcome::Timeout));
    TriggerReleaseGateOutcome::Timeout
}

/// The diagnostic name of a cancellation reason.
pub open spec fn cancellation_name(reason: TriggerReleaseCancellation) -> Seq<char> {
    match reason {
        TriggerReleaseCancellation::TriggerConfiguration => "trigger_configuration"@,
        TriggerReleaseCancellation::PhysicalLedgerUncertain => "physical_ledger_uncertain"@,
        TriggerReleaseCancellation::TaskGeneration => "task_generation"@,
        TriggerReleaseCancellation::ControllerGeneration => "controller_generation"@,
        TriggerReleaseCancellation::AdmissionRevision => "admission_revision"@,
        TriggerReleaseCancellation::ConfigRevision => "config_revision"@,
        TriggerReleaseCancellation::HoldLifecycle => "hold_lifecycle"@,
        TriggerReleaseCancellation::HoldOwnerReleased => "hold_owner_released"@,
    }
}

/// The diagnostic name of a cancellation reason.
pub fn trigger_release_cancellation_name(reason: TriggerReleaseCancellation) -> (r: &'static str)
    ensures
        r@ == cancellation_name(reason),
{
    match reason {
        TriggerReleaseCancellation::TriggerConfiguration => "trigger_configuration",
        TriggerReleaseCancellation::PhysicalLedgerUncertain => "physical_ledger_uncertain",
        TriggerReleaseCancellation::TaskGeneration => "task_generation",
        TriggerReleaseCancellation::ControllerGeneration => "controller_generation",
        TriggerReleaseCancellation::AdmissionRevision => "admission_revision",
        TriggerReleaseCancellation::ConfigRevision => "config_revision",
        TriggerReleaseCancellation::HoldLifecycle => "hold_lifecycle",
        TriggerReleaseCancellation::HoldOwnerReleased => "hold_owner_released",
    }
}

/// The number that identifies a macro mode in trigger snapshots.
pub open spec fn mode_identity(mode: MacroMode) -> u8 {
    match mode {
        MacroMode::Once => 0,
        MacroMode::Repeat => 1,
        MacroMode::Hold => 2,
        MacroMode::Toggle => 3,
    }
}

/// Numbers the macro modes 0 (Once) to 3 (Toggle).
pub fn macro_mode_identity(mode: MacroMode) -> (r: u8)
    ensures
        r == mode_identity(mode),
{
    match mode {
        MacroMode::Once => 0,
        MacroMode::Repeat => 1,
        MacroMode::Hold => 2,
        MacroMode::Toggle => 3,
    }
}

/// What a hotkey press does given the macro's mode and whether a playback runs.
#[derive(Debug, Clone, Copy, PartialEq, Eq, Structural)]
pub enum HotkeyPlaybackAction {
    StartAfterRelease,
    StartImmediate,
    StopImmediate,
    Ignore,
}

/// Hold starts at once and is ignored while running; Toggle stops a running
/// playback; Once and Repeat are ignored while running; otherwise the start
/// waits for the trigger keys to be released.
pub open spec fn spec_hotkey_action(mode: MacroMode, playback_running: bool) -> HotkeyPlaybackAction {
    match mode {
        MacroMode::Hold => if playback_running {
            HotkeyPlaybackAction::Ignore
        } else {
            HotkeyPlaybackAction::StartImmediate
        },
        MacroMode::Toggle => if playback_running {
            HotkeyPlaybackAction::StopImmediate
        } else {
            HotkeyPlaybackAction::StartAfterRelease
        },
        MacroMode::Once | MacroMode::Repeat => if playback_running {
            HotkeyPlaybackAction::Ignore
        } else {
            HotkeyPlaybackAction::StartAfterRelease
        },
    }
}

/// The action a hotkey press takes.
pub fn hotkey_playback_action(mode: MacroMode, playback_running: bool) -> (r: HotkeyPlaybackAction)
    ensures
        r == spec_hotkey_action(mode, playback_running),
{
    match (mode, playback_running) {
        (MacroMode::Hold, true) => HotkeyPlaybackAction::Ignore,
        (MacroMode::Hold, false) => HotkeyPlaybackAction::StartImmediate,
        (MacroMode::Toggle, true) => HotkeyPlaybackAction::StopImmediate,
        (MacroMode::Once, true) | (MacroMode::Repeat, true) => HotkeyPlaybackAction::Ignore,
        (MacroMode::Once, false) | (MacroMode::Repeat, false) | (MacroMode::Toggle, false) => {
            HotkeyPlaybackAction::StartAfterRelease
        },
    }
}

/// When a triggered start may proceed.
#[derive(Debug, Clone, Copy, PartialEq, Eq, Structural)]
pub enum TriggerStartTiming {
    ReleaseGated,
    HoldModifierRelease,
}

/// An atomically consistent view of the published Hold lifecycle.
#[derive(Debug, Clone, Copy, PartialEq, Eq)]
pub struct HoldAtomicSnapshot {
    pub epoch: u64,
    pub trigger_matches: bool,
    pub bound_token: Option<RunToken>,
}

/// The snapshot that a pair of reads of the Hold lifecycle denotes, when the
/// reads agree: same non-zero epoch and same phase (1 Pending, 2 Bound,
/// 3 Active) before and after the dependent reads. The run token counts only
/// from the Bound phase on and when it is a real run (non-zero id).
pub open spec fn spec_hold_snapshot(
    epoch_before: u64,
    trigger_matches: bool,
    phase_before: u32,
    token: RunToken,
    phase_after: u32,
    epoch_after: u64,
) -> Option<HoldAtomicSnapshot> {
    if epoch_before == 0 || epoch_before != epoch_after || phase_before != phase_after || !(1
        <= phase_before <= 3) {
        None
    } else {
        Some(
            HoldAtomicSnapshot {
                epoch: epoch_before,
                trigger_matches,
                bound_token: if phase_before >= 2 && token.id != 0 {
                    Some(token)
                } else {
                    None
                },
            },
        )
    }
}

/// Combines lock-free reads of the Hold lifecycle into one snapshot, or
/// rejects them when another publication interleaved.
pub fn consistent_hold_atomic_snapshot(
    epoch_before: u64,
    trigger_matches: bool,
    phase_before: u32,
    token: RunToken,
    phase_after: u32,
    epoch_after: u64,
) -> (r: Option<HoldAtomicSnapshot>)
    ensures
        r == spec_hold_snapshot(
            epoch_before,
            trigger_matches,
            phase_before,
            token,
            phase_after,
            epoch_after,
        ),
{
    if epoch_before == 0 || epoch_before != epoch_after || phase_before != phase_after || !(1
        <= phase_before && phase_before <= 3) {
        return None;
    }
    Some(
        HoldAtomicSnapshot {
            epoch: epoch_before,
            trigger_matches,
            bound_token: if phase_before >= 2 && token.id != 0 {
                Some(token)
            } else {
                None
            },
        },
    )
}

/// A snapshot taken while another publication interleaved is never accepted.
pub proof fn lemma_hold_snapshot_rejects_mixed_reads(
    epoch_before: u64,
    trigger_matches: bool,
    phase_before: u32,
    token: RunToken,
    phase_after: u32,
    epoch_after: u64,
)
    requires
        epoch_before != epoch_after || phase_before != phase_after,
    ensures
        spec_hold_snapshot(
            epoch_before,
            trigger_matches,
            phase_before,
            token,
            phase_after,
            epoch_after,
        ) is None,
{
}

/// Clears the pending-trigger claim.
///
/// Trusted: `AtomicBool::store` with `Release` ordering, which writes `false`
/// and neither panics nor blocks for that ordering. Nothing is stated about
/// the flag: other threads read and claim it.
#[verifier::external_body]
fn release_pending_claim(flag: &AtomicBool)
    opens_invariants none
    no_unwind
{
    flag.store(false, Ordering::Release);
}

/// Holds the claim on the one pending trigger and gives it up when dropped,
/// on every way out of the release wait, so that a later press can claim it
/// again.
pub struct TriggerPendingReset<'a>(pub &'a AtomicBool);

impl<'a> Drop for TriggerPendingReset<'a> {
    fn drop(&mut self)
        opens_invariants none
        no_unwind
    {
        release_pending_claim(self.0);
    }
}

} // verus!
