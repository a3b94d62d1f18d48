//! Platform-independent decisions of the playback engine: the labels shown
//! for a running step, randomised step delays, the cursor a move starts from,
//! the order of a release after a best-effort move, and the freshness of the
//! emergency detector's heartbeat.

use vstd::prelude::*;
use crate::config::MacroStep;
use crate::keys::{button_name, mouse_button_name, KeyAction};
use crate::text::{dec_chars, push_decimal, push_signed_decimal, push_str_chars, signed_dec_chars, string_from_str};

verus! {

/// The emergency detector is alive when it reported at most 100 ms ago, and
/// a heartbeat of zero (never reported) or from the future never counts.
pub open spec fn heartbeat_fresh(now: u64, heartbeat: u64) -> bool {
    heartbeat != 0 && heartbeat <= now && now - heartbeat <= 100
}

/// Whether the detector's last heartbeat is recent.
pub fn detector_heartbeat_fresh(now: u64, heartbeat: u64) -> (r: bool)
    ensures
        r == heartbeat_fresh(now, heartbeat),
{
    heartbeat != 0 && heartbeat <= now && now - heartbeat <= 100
}

/// The diagnostic name of what requested an emergency stop.
pub open spec fn entry_point_name(value: u32) -> Seq<char> {
    if value == 1 {
        "physical_key_detector"@
    } else if value == 2 {
        "low_level_hook"@
    } else if value == 3 {
        "command"@
    } else {
        "unknown"@
    }
}

/// The diagnostic name of an emergency-stop entry point.
pub fn emergency_entry_point_name(value: u32) -> (r: &'static str)
    ensures
        r@ == entry_point_name(value),
{
    match value {
        1 => "physical_key_detector",
        2 => "low_level_hook",
        3 => "command",
        _ => "unknown",
    }
}

/// A move starts from the live cursor position when it can be read, and from
/// the last position the automation itself moved to otherwise.
pub fn resolve_cursor_start(current: Option<(i32, i32)>, cached: Option<(i32, i32)>) -> (r: Option<
    (i32, i32),
>)
    ensures
        r == (if current is Some {
            current
        } else {
            cached
        }),
{
    match current {
        Some(position) => Some(position),
        None => cached,
    }
}

/// Releases a mouse button after an optional move to the release point. The
/// release is attempted whether or not the move worked; its own error comes
/// first, and a failed move is still reported after a successful release.
pub fn release_after_best_effort_move<
    M: FnOnce() -> Result<(), String>,
    R: FnOnce() -> Result<(), String>,
>(move_action: Option<M>, release_action: R) -> (r: Result<(), String>)
    requires
        move_action matches Some(m) ==> m.requires(()),
        release_action.requires(()),
    ensures
        exists|released: Result<(), String>|
            #[trigger] release_action.ensures((), released) && match released {
                Err(e) => r == Err::<(), String>(e),
                Ok(_) => match move_action {
                    None => r is Ok,
                    Some(m) => exists|moved: Result<(), String>|
                        #[trigger] m.ensures((), moved) && r == moved,
                },
            },
{
    let ghost moving = move_action;
    let mut move_error: Option<String> = None;
    let mut moved_ok = true;
    match move_action {
        Some(action) => {
            let moved = action();
            match moved {
                Ok(u) => {
                    assert(moved == Ok::<(), String>(()));
                },
                Err(e) => {
                    move_error = Some(e);
                    moved_ok = false;
                },
            }
            proof {
                let m = moving->0;
                assert(m.ensures((), moved));
            }
        },
        None => {},
    }
    let released = release_action();
    match released {
        Err(e) => Err(e),
        Ok(u) => {
            assert(released == Ok::<(), String>(()));
            match move_error {
                Some(e) => Err(e),
                None => Ok(()),
            }
        },
    }
}

/// The label of a step's kind in the playback status.
pub open spec fn step_kind(step: MacroStep) -> Seq<char> {
    match step {
        MacroStep::Delay { .. } => "delay"@,
        MacroStep::Key { action, .. } => match action {
            KeyAction::Down => "key_down"@,
            KeyAction::Up => "key_up"@,
        },
        MacroStep::MouseMove { .. } => "mouse_move"@,
        MacroStep::MouseButton { action, .. } => match action {
            KeyAction::Down => "mouse_button_down"@,
            KeyAction::Up => "mouse_button_up"@,
        },
        MacroStep::Wheel { .. } => "wheel"@,
        MacroStep::Text { .. } => "text"@,
    }
}

/// The kind of a step, as the playback status names it.
pub fn macro_step_kind(step: &MacroStep) -> (r: &'static str)
    ensures
        r@ == step_kind(*step),
{
    match step {
        MacroStep::Delay { .. } => "delay",
        MacroStep::Key { action, .. } => match action {
            KeyAction::Down => "key_down",
            KeyAction::Up => "key_up",
        },
        MacroStep::MouseMove { .. } => "mouse_move",
        MacroStep::MouseButton { action, .. } => match action {
            KeyAction::Down => "mouse_button_down",
            KeyAction::Up => "mouse_button_up",
        },
        MacroStep::Wheel { .. } => "wheel",
        MacroStep::Text { .. } => "text",
    }
}

/// The human-readable summary of a step in the playback status. Typed text
/// is never shown.
pub open spec fn step_summary(step: MacroStep) -> Seq<char> {
    match step {
        MacroStep::Delay { duration_ms, duration_max_ms } => match duration_max_ms {
            Some(maximum) => "等待 "@ + dec_chars(duration_ms as nat) + "–"@ + dec_chars(
                maximum as nat,
            ) + " ms"@,
            None => "等待 "@ + dec_chars(duration_ms as nat) + " ms"@,
        },
        MacroStep::Key { key, action } => match action {
            KeyAction::Down => "按下 "@ + key@,
            KeyAction::Up => "释放 "@ + key@,
        },
        MacroStep::MouseButton { button, action, .. } => match action {
            KeyAction::Down => "鼠标"@ + button_name(button) + "按下"@,
            KeyAction::Up => "鼠标"@ + button_name(button) + "释放"@,
        },
        MacroStep::MouseMove { x, y } => "移动鼠标至 ("@ + signed_dec_chars(x as int) + ", "@
            + signed_dec_chars(y as int) + ")"@,
        MacroStep::Wheel { delta_x, delta_y } => "滚轮 ("@ + signed_dec_chars(delta_x as int)
            + ", "@ + signed_dec_chars(delta_y as int) + ")"@,
        MacroStep::Text { .. } => "输入文本"@,
    }
}

/// The summary of a step shown while it plays.
pub fn macro_step_summary(step: &MacroStep) -> (r: String)
    ensures
        r@ == step_summary(*step),
{
    match step {
        MacroStep::Delay { duration_ms, duration_max_ms } => {
            let mut s = string_from_str("等待 ");
            push_decimal(&mut s, *duration_ms);
            match duration_max_ms {
                Some(maximum) => {
                    push_str_chars(&mut s, "–");
                    push_decimal(&mut s, *maximum);
                },
                None => {},
            }
            push_str_chars(&mut s, " ms");
            s
        },
        MacroStep::Key { key, action } => {
            let mut s = match action {
                KeyAction::Down => string_from_str("按下 "),
                KeyAction::Up => string_from_str("释放 "),
            };
            push_str_chars(&mut s, key.as_str());
            s
        },
        MacroStep::MouseButton { button, action, .. } => {
            let mut s = string_from_str("鼠标");
            push_str_chars(&mut s, mouse_button_name(*button));
            match action {
                KeyAction::Down => push_str_chars(&mut s, "按下"),
                KeyAction::Up => push_str_chars(&mut s, "释放"),
            }
            s
        },
        MacroStep::MouseMove { x, y } => {
            let mut s = string_from_str("移动鼠标至 (");
            push_signed_decimal(&mut s, *x as i64);
            push_str_chars(&mut s, ", ");
            push_signed_decimal(&mut s, *y as i64);
            push_str_chars(&mut s, ")");
            s
        },
        MacroStep::Wheel { delta_x, delta_y } => {
            let mut s = string_from_str("滚轮 (");
            push_signed_decimal(&mut s, *delta_x as i64);
            push_str_chars(&mut s, ", ");
            push_signed_decimal(&mut s, *delta_y as i64);
            push_str_chars(&mut s, ")");
            s
        },
        MacroStep::Text { .. } => string_from_str("输入文本"),
    }
}

/// `x` rotated left by `n` bits, as `u64::rotate_left` documents it.
pub open spec fn rotate_left_spec(x: u64, n: u64) -> u64 {
    (x << n) | (x >> ((64 - n) as u64))
}

fn rotate_left(x: u64, n: u64) -> (r: u64)
    requires
        0 < n < 64,
    ensures
        r == rotate_left_spec(x, n),
{
    (x << n) | (x >> (64 - n))
}

/// The xorshift mix of the clock sample with both bounds.
pub open spec fn delay_mix(minimum: u64, maximum: u64, clock: u64) -> u64 {
    let v0 = clock ^ rotate_left_spec(minimum, 17) ^ rotate_left_spec(maximum, 55);
    let v1 = v0 ^ (v0 << 13u64);
    let v2 = v1 ^ (v1 >> 7u64);
    v2 ^ (v2 << 17u64)
}

/// The delay chosen for a step from its bounds and a clock sample: the
/// minimum when there is no larger maximum, otherwise the minimum plus the
/// mixed sample reduced into the span, so that it lies in the range.
pub open spec fn delay_for(minimum: u64, maximum: Option<u64>, clock: u64) -> u64 {
    match maximum {
        None => minimum,
        Some(max) => if max <= minimum {
            minimum
        } else {
            (minimum + (delay_mix(minimum, max, clock) as int) % (max - minimum + 1)) as u64
        },
    }
}

/// The delay of a step with the given bounds for the clock sample `clock`.
pub fn randomized_delay_from_clock(minimum: u64, maximum: Option<u64>, clock: u64) -> (r: u64)
    ensures
        r == delay_for(minimum, maximum, clock),
        maximum matches Some(max) ==> (max > minimum ==> minimum <= r <= max),
        !(maximum matches Some(max) && max > minimum) ==> r == minimum,
{
    let max = match maximum {
        None => {
            return minimum;
        },
        Some(max) => max,
    };
    if max <= minimum {
        return minimum;
    }
    let mut value = clock ^ rotate_left(minimum, 17) ^ rotate_left(max, 55);
    value = value ^ (value << 13u64);
    value = value ^ (value >> 7u64);
    value = value ^ (value << 17u64);
    let span: u128 = (max as u128) - (minimum as u128) + 1;
    let offset: u128 = (value as u128) % span;
    assert(offset < span);
    assert(minimum + offset <= max);
    let r: u64 = minimum + (offset as u64);
    r
}

/// A random delay between `minimum` and `maximum` (both included) for one
/// step; exactly `minimum` when there is no larger maximum. The delay is the
/// mix of the bounds with a reading of the clock's nanoseconds.
pub fn randomized_delay_ms(minimum: u64, maximum: Option<u64>) -> (r: u64)
    ensures
        maximum matches Some(max) ==> (max > minimum ==> minimum <= r <= max),
        !(maximum matches Some(max) && max > minimum) ==> r == minimum,
        exists|clock: u64| r == #[trigger] delay_for(minimum, maximum, clock),
{
    let clock = crate::clock::unix_nanos();
    randomized_delay_from_clock(minimum, maximum, clock)
}

} // verus!

verus! {

/// How many times a playback runs its program: once, the repeat count (at
/// least once), or until it is stopped (Hold and Toggle).
pub open spec fn iteration_limit(mode: crate::config::MacroMode, repeat_count: u32) -> Option<u32> {
    match mode {
        crate::config::MacroMode::Once => Some(1),
        crate::config::MacroMode::Repeat => Some(if repeat_count == 0 { 1 } else { repeat_count }),
        _ => None,
    }
}

/// The number of runs a mode allows.
pub fn max_iterations(mode: crate::config::MacroMode, repeat_count: u32) -> (r: Option<u32>)
    ensures
        r == iteration_limit(mode, repeat_count),
{
    match mode {
        crate::config::MacroMode::Once => Some(1),
        crate::config::MacroMode::Repeat => Some(if repeat_count == 0 { 1 } else { repeat_count }),
        crate::config::MacroMode::Hold => None,
        crate::config::MacroMode::Toggle => None,
    }
}

/// Whether another run follows after `completed` runs: always without a
/// limit, otherwise while fewer than the limit have run.
pub fn another_iteration(completed: u32, limit: Option<u32>) -> (r: bool)
    ensures
        r == (match limit {
            Some(max) => completed < max,
            None => true,
        }),
{
    match limit {
        Some(max) => completed < max,
        None => true,
    }
}

/// A playback must stop when its stop flag is raised, the service shuts
/// down, or an emergency stop or controller change happened since it
/// started.
pub fn playback_stop_requested(
    stop_flag: bool,
    shutting_down: bool,
    emergency_generation: u64,
    controller_generation: u64,
    start_generation: u64,
) -> (r: bool)
    ensures
        r == (stop_flag || shutting_down || emergency_generation != start_generation
            || controller_generation != start_generation),
{
    stop_flag || shutting_down || emergency_generation != start_generation || controller_generation
        != start_generation
}

/// How one run of a playback program ended.
#[derive(Debug, Clone, PartialEq, Eq)]
pub enum AutomationProgramResult {
    /// The program ran to its end.
    Continue,
    /// The run was cancelled.
    Stopped,
    /// The script stopped itself with a message for the user.
    StoppedWithMessage { title: String, message: String },
}

/// The result of one run from what the program executor reported: the
/// script's own stop message, `Continue` when it ran to its end, `Stopped`
/// for the F12 cancellation, and any other error unchanged.
pub fn program_run_result(reported: Result<Option<(String, String)>, String>) -> (r: Result<
    AutomationProgramResult,
    String,
>)
    ensures
        match reported {
            Ok(Some((t, m))) => r matches Ok(AutomationProgramResult::StoppedWithMessage { title, message })
                && title@ == t@ && message@ == m@,
            Ok(None) => r == Ok::<AutomationProgramResult, String>(AutomationProgramResult::Continue),
            Err(e) => if e@ == crate::native::CANCELLED@ {
                r == Ok::<AutomationProgramResult, String>(AutomationProgramResult::Stopped)
            } else {
                r matches Err(x) && x@ == e@
            },
        },
{
    match reported {
        Ok(Some((title, message))) => Ok(AutomationProgramResult::StoppedWithMessage { title, message }),
        Ok(None) => Ok(AutomationProgramResult::Continue),
        Err(error) => {
            if crate::native::should_show_playback_error(error.as_str()) {
                Err(error)
            } else {
                Ok(AutomationProgramResult::Stopped)
            }
        },
    }
}

/// What the playback loop does after one run.
#[derive(Debug, Clone, PartialEq, Eq)]
pub enum PlaybackLoopStep {
    /// Start the next run.
    NextRun,
    /// Leave the loop, with the script's stop message if it gave one, or
    /// the error of the failed run.
    Finish { script_message: Option<(String, String)>, error: Option<String> },
}

/// The loop's decision after a run, and how many runs have completed: a
/// cancelled run or a script's own stop ends the loop without an error, a
/// failed run ends it with its error, and a completed run counts and is
/// followed by another while the limit allows.
pub fn after_program_run(result: Result<AutomationProgramResult, String>, completed: u32, limit: Option<u32>) -> (r: (
    PlaybackLoopStep,
    u32,
))
    ensures
        match result {
            Ok(AutomationProgramResult::Continue) => {
                &&& r.1 == (if completed < u32::MAX { completed + 1 } else { completed as int })
                &&& r.0 == (if match limit {
                    Some(max) => r.1 < max,
                    None => true,
                } {
                    PlaybackLoopStep::NextRun
                } else {
                    PlaybackLoopStep::Finish { script_message: None, error: None }
                })
            },
            Ok(AutomationProgramResult::Stopped) => r == (
                PlaybackLoopStep::Finish { script_message: None, error: None },
                completed,
            ),
            Ok(AutomationProgramResult::StoppedWithMessage { title, message }) => {
                &&& r.1 == completed
                &&& r.0 matches PlaybackLoopStep::Finish { script_message: Some((t, m)), error: None }
                    && t@ == title@ && m@ == message@
            },
            Err(e) => {
                &&& r.1 == completed
                &&& r.0 matches PlaybackLoopStep::Finish { script_message: None, error: Some(x) } && x@ == e@
            },
        },
{
    match result {
        Ok(AutomationProgramResult::Continue) => {
            let done = completed.saturating_add(1);
            if another_iteration(done, limit) {
                (PlaybackLoopStep::NextRun, done)
            } else {
                (PlaybackLoopStep::Finish { script_message: None, error: None }, done)
            }
        },
        Ok(AutomationProgramResult::Stopped) => (
            PlaybackLoopStep::Finish { script_message: None, error: None },
            completed,
        ),
        Ok(AutomationProgramResult::StoppedWithMessage { title, message }) => (
            PlaybackLoopStep::Finish { script_message: Some((title, message)), error: None },
            completed,
        ),
        Err(error) => (PlaybackLoopStep::Finish { script_message: None, error: Some(error) }, completed),
    }
}

/// The phase and cleanup status a playback reports when its runs end,
/// before cleanup: `stopping` when it was asked to stop, `failed` when a run
/// failed, none otherwise.
pub fn phase_after_runs(stop_requested: bool, failed: bool) -> (r: Option<(&'static str, &'static str)>)
    ensures
        match r {
            Some((phase, cleanup)) => {
                &&& cleanup@ == "not_started"@
                &&& if stop_requested && !failed {
                    phase@ == "stopping"@
                } else {
                    failed && phase@ == "failed"@
                }
            },
            None => !failed && !stop_requested,
        },
{
    if stop_requested && !failed {
        Some(("stopping", "not_started"))
    } else if failed {
        Some(("failed", "not_started"))
    } else {
        None
    }
}

/// The phase and cleanup status a playback ends with after its input
/// cleanup. An unsafe cleanup is `cleanup_failed`. After a safe cleanup, a
/// script that stopped itself or a stop request ends `stopped`, a failed run
/// `failed`, and otherwise the playback `completed`.
pub fn phase_after_cleanup(cleanup_safe: bool, script_stopped: bool, failed: bool, stop_requested: bool) -> (r: (
    &'static str,
    &'static str,
))
    ensures
        !cleanup_safe ==> r.0@ == "cleanup_failed"@ && r.1@ == "failed"@,
        cleanup_safe ==> r.1@ == "safe"@ && r.0@ == (if script_stopped {
            "stopped"@
        } else if failed {
            "failed"@
        } else if stop_requested {
            "stopped"@
        } else {
            "completed"@
        }),
{
    if !cleanup_safe {
        ("cleanup_failed", "failed")
    } else if script_stopped {
        ("stopped", "safe")
    } else if failed {
        ("failed", "safe")
    } else if stop_requested {
        ("stopped", "safe")
    } else {
        ("completed", "safe")
    }
}

/// Where a playback stands in its ending.
#[derive(Debug, Clone, Copy, PartialEq, Eq, Structural)]
pub enum PlaybackEndPhase {
    /// Its runs are still going.
    Running,
    /// Its runs ended and its input cleanup was started.
    Cleaning,
    /// The cleanup finished and the final phase was reported.
    Done,
}

/// What the playback thread does next as its run ends.
#[derive(Debug, Clone, Copy, PartialEq, Eq)]
pub enum PlaybackEndAction {
    /// Nothing: this step was already taken.
    Nothing,
    /// Report the phase and cleanup status of the ended runs, if any, then
    /// begin cleaning with the controller, raise the stop flag, and run the
    /// input cleanup.
    StartCleanup { interim: Option<(&'static str, &'static str)> },
    /// Report the final phase and cleanup status.
    Finish { phase: &'static str, cleanup: &'static str },
}

/// The ending of one playback. Whatever way the runs end (completed,
/// stopped or failed), the input cleanup is started exactly once, and the
/// final phase is reported exactly once, after it.
pub struct PlaybackEnd {
    pub phase: PlaybackEndPhase,
}

impl PlaybackEnd {
    /// A playback whose runs are going.
    pub fn new() -> (r: Self)
        ensures
            r.phase == PlaybackEndPhase::Running,
    {
        PlaybackEnd { phase: PlaybackEndPhase::Running }
    }

    /// The runs ended: a running playback starts its cleanup, with the
    /// interim phase that `phase_after_runs` gives; at any later point this
    /// does nothing.
    pub fn runs_ended(&mut self, stop_requested: bool, failed: bool) -> (r: PlaybackEndAction)
        ensures
            final(self).phase == end_phase_after(old(self).phase, true),
            r is StartCleanup <==> old(self).phase == PlaybackEndPhase::Running,
            old(self).phase == PlaybackEndPhase::Running ==> {
                &&& final(self).phase == PlaybackEndPhase::Cleaning
                &&& r matches PlaybackEndAction::StartCleanup { interim } && match interim {
                    Some((phase, cleanup)) => {
                        &&& cleanup@ == "not_started"@
                        &&& if stop_requested && !failed {
                            phase@ == "stopping"@
                        } else {
                            failed && phase@ == "failed"@
                        }
                    },
                    None => !failed && !stop_requested,
                }
            },
            old(self).phase != PlaybackEndPhase::Running ==> final(self).phase == old(self).phase
                && r == PlaybackEndAction::Nothing,
    {
        match self.phase {
            PlaybackEndPhase::Running => {
                self.phase = PlaybackEndPhase::Cleaning;
                PlaybackEndAction::StartCleanup { interim: phase_after_runs(stop_requested, failed) }
            },
            _ => PlaybackEndAction::Nothing,
        }
    }

    /// The input cleanup finished: a cleaning playback reports its final
    /// phase as `phase_after_cleanup` gives it; at any other point this does
    /// nothing.
    pub fn cleanup_finished(&mut self, cleanup_safe: bool, script_stopped: bool, failed: bool, stop_requested: bool) -> (r:
        PlaybackEndAction)
        ensures
            final(self).phase == end_phase_after(old(self).phase, false),
            !(r is StartCleanup),
            old(self).phase == PlaybackEndPhase::Cleaning ==> {
                &&& final(self).phase == PlaybackEndPhase::Done
                &&& r matches PlaybackEndAction::Finish { phase, cleanup } && (!cleanup_safe ==> phase@
                    == "cleanup_failed"@ && cleanup@ == "failed"@) && (cleanup_safe ==> cleanup@ == "safe"@
                    && phase@ == (if script_stopped {
                    "stopped"@
                } else if failed {
                    "failed"@
                } else if stop_requested {
                    "stopped"@
                } else {
                    "completed"@
                }))
            },
            old(self).phase != PlaybackEndPhase::Cleaning ==> final(self).phase == old(self).phase
                && r == PlaybackEndAction::Nothing,
    {
        match self.phase {
            PlaybackEndPhase::Cleaning => {
                self.phase = PlaybackEndPhase::Done;
                let (phase, cleanup) = phase_after_cleanup(cleanup_safe, script_stopped, failed, stop_requested);
                PlaybackEndAction::Finish { phase, cleanup }
            },
            _ => PlaybackEndAction::Nothing,
        }
    }
}

/// The phase after one ending event: the end of the runs (`true`) or a
/// finished cleanup (`false`), as `runs_ended` and `cleanup_finished` move it.
pub open spec fn end_phase_after(phase: PlaybackEndPhase, runs_end: bool) -> PlaybackEndPhase {
    if runs_end && phase == PlaybackEndPhase::Running {
        PlaybackEndPhase::Cleaning
    } else if !runs_end && phase == PlaybackEndPhase::Cleaning {
        PlaybackEndPhase::Done
    } else {
        phase
    }
}

/// How many times a sequence of ending events starts the cleanup, from
/// `phase`: each end of runs seen while running starts it.
pub open spec fn cleanup_starts(phase: PlaybackEndPhase, events: Seq<bool>) -> nat
    decreases events.len(),
{
    if events.len() == 0 {
        0
    } else {
        let first = if events[0] && phase == PlaybackEndPhase::Running {
            1nat
        } else {
            0nat
        };
        first + cleanup_starts(end_phase_after(phase, events[0]), events.subrange(1, events.len() as int))
    }
}

/// However the ending events of a playback arrive, its cleanup starts at most
/// once, and never again once it started.
pub proof fn lemma_cleanup_starts_once(phase: PlaybackEndPhase, events: Seq<bool>)
    ensures
        cleanup_starts(phase, events) <= 1,
        phase != PlaybackEndPhase::Running ==> cleanup_starts(phase, events) == 0,
    decreases events.len(),
{
    if events.len() > 0 {
        let rest = events.subrange(1, events.len() as int);
        lemma_cleanup_starts_once(end_phase_after(phase, events[0]), rest);
    }
}

/// One cleanup failure as text: kind, value and last error.
pub open spec fn failure_text(f: crate::input_safety::CleanupFailure) -> Seq<char> {
    f.kind@ + " "@ + f.value@ + ": "@ + f.last_error@
}

/// The failures of a cleanup as text, separated by `; `.
pub open spec fn failures_text(fs: Seq<crate::input_safety::CleanupFailure>) -> Seq<char>
    decreases fs.len(),
{
    if fs.len() == 0 {
        Seq::empty()
    } else if fs.len() == 1 {
        failure_text(fs[0])
    } else {
        failures_text(fs.drop_last()) + "; "@ + failure_text(fs.last())
    }
}

/// The error a playback reports when its input cleanup left input held.
pub fn cleanup_failure_message(failures: &[crate::input_safety::CleanupFailure]) -> (r: String)
    ensures
        r@ == "输入清理失败，当前状态可能不安全: "@ + failures_text(failures@),
{
    let mut text = string_from_str("输入清理失败，当前状态可能不安全: ");
    let ghost prefix = text@;
    let mut i: usize = 0;
    assert(failures@.subrange(0, 0) =~= Seq::<crate::input_safety::CleanupFailure>::empty());
    while i < failures.len()
        invariant
            i <= failures@.len(),
            text@ == prefix + failures_text(failures@.subrange(0, i as int)),
            prefix == "输入清理失败，当前状态可能不安全: "@,
        decreases failures@.len() - i,
    {
        let ghost before = failures@.subrange(0, i as int);
        assert(failures@.subrange(0, i as int + 1).drop_last() =~= before);
        if i > 0 {
            push_str_chars(&mut text, "; ");
        }
        let failure = &failures[i];
        push_str_chars(&mut text, failure.kind);
        push_str_chars(&mut text, " ");
        push_str_chars(&mut text, failure.value.as_str());
        push_str_chars(&mut text, ": ");
        push_str_chars(&mut text, failure.last_error.as_str());
        proof {
            let now = failures@.subrange(0, i as int + 1);
            assert(now.last() == failures@[i as int]);
            if i == 0 {
                assert(now.len() == 1);
                assert(text@ =~= prefix + failures_text(now));
            } else {
                assert(text@ =~= prefix + failures_text(now));
            }
        }
        i = i + 1;
    }
    assert(failures@.subrange(0, i as int) =~= failures@);
    text
}

} // verus!
