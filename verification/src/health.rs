//! Health of the safety channels: whether the emergency stop can be relied
//! on, when a lost control channel must fault the controller, and the total
//! of input that the service still holds.

use std::collections::HashSet;
use vstd::prelude::*;
use crate::input_safety::{CleanupReport, InjectedInputState, InputBroker};
use crate::keys::MouseButton;
use crate::ledger::set_keys;
use crate::recorder::{finish_recorder, finishes_to, RecorderState};
use crate::playback::{detector_heartbeat_fresh, heartbeat_fresh};

verus! {

/// What the keyboard hook thread reports about itself.
#[derive(Debug, Clone, Copy, PartialEq, Eq)]
pub struct HookChannelObservation {
    /// A hook thread was started.
    pub thread_started: bool,
    /// The hook reported that it is installed.
    pub hook_ready: bool,
    /// The hook thread is confirmed running.
    pub thread_running: bool,
    /// The hook's last heartbeat, in milliseconds of the service clock.
    pub heartbeat_ms: u64,
}

/// What the emergency-stop readiness check reads.
#[derive(Debug, Clone, Copy, PartialEq, Eq)]
pub struct EmergencyChannelObservation {
    /// The physical detector last found the control channel usable.
    pub detector_ready: bool,
    /// The priority cleanup lane is ready, or there is none.
    pub cleanup_lane_ready: bool,
    pub hook: HookChannelObservation,
    /// The emergency thread is confirmed running, or was not started.
    pub emergency_thread_running: bool,
    /// The emergency thread's id, 0 before it reported it.
    pub emergency_thread_id: u32,
    /// The emergency thread was told to shut down.
    pub emergency_shutdown: bool,
    /// The emergency thread's last heartbeat.
    pub emergency_heartbeat_ms: u64,
    /// The service clock, in milliseconds, plus one.
    pub now_ms: u64,
}

/// The hook channel works: no hook thread was started, or it is installed,
/// running and its heartbeat is recent.
pub open spec fn hook_channel_ready_spec(hook: HookChannelObservation, now_ms: u64) -> bool {
    !hook.thread_started || (hook.hook_ready && hook.thread_running && heartbeat_fresh(
        now_ms,
        hook.heartbeat_ms,
    ))
}

/// The emergency stop can be relied on: the detector is ready, the cleanup
/// lane is ready, the hook channel works, the emergency thread runs, has
/// reported its id, is not shutting down and its heartbeat is recent.
pub open spec fn emergency_stop_ready_spec(obs: EmergencyChannelObservation) -> bool {
    &&& obs.detector_ready
    &&& obs.cleanup_lane_ready
    &&& hook_channel_ready_spec(obs.hook, obs.now_ms)
    &&& obs.emergency_thread_running
    &&& obs.emergency_thread_id != 0
    &&& !obs.emergency_shutdown
    &&& heartbeat_fresh(obs.now_ms, obs.emergency_heartbeat_ms)
}

/// Whether the hook channel works.
pub fn hook_channel_ready(hook: &HookChannelObservation, now_ms: u64) -> (r: bool)
    ensures
        r == hook_channel_ready_spec(*hook, now_ms),
{
    !hook.thread_started || (hook.hook_ready && hook.thread_running && detector_heartbeat_fresh(
        now_ms,
        hook.heartbeat_ms,
    ))
}

/// Whether the emergency stop can be relied on.
pub fn emergency_stop_ready(obs: &EmergencyChannelObservation) -> (r: bool)
    ensures
        r == emergency_stop_ready_spec(*obs),
{
    obs.detector_ready && obs.cleanup_lane_ready && hook_channel_ready(&obs.hook, obs.now_ms)
        && obs.emergency_thread_running && obs.emergency_thread_id != 0 && !obs.emergency_shutdown
        && detector_heartbeat_fresh(obs.now_ms, obs.emergency_heartbeat_ms)
}

/// What one health observation of the control channel decides.
#[derive(Debug, Clone, Copy, PartialEq, Eq)]
pub struct ControlChannelVerdict {
    /// The channel is usable now.
    pub ready: bool,
    /// It was usable and no longer is: the controller must fault and an
    /// emergency stop must run.
    pub lost: bool,
}

/// The control channel is usable when an emergency key is configured, the
/// input desktop is available and the hook channel works; losing it after it
/// was usable faults the service.
pub fn control_channel_verdict(
    previously_ready: bool,
    emergency_vk: u32,
    desktop_available: bool,
    hook_available: bool,
) -> (r: ControlChannelVerdict)
    ensures
        r.ready == (emergency_vk != 0 && desktop_available && hook_available),
        r.lost == (previously_ready && !r.ready),
{
    let ready = emergency_vk != 0 && desktop_available && hook_available;
    ControlChannelVerdict { ready, lost: previously_ready && !ready }
}

/// `a + b`, or the largest `usize` when that overflows.
pub open spec fn saturating_sum(a: usize, b: usize) -> usize {
    if a + b > usize::MAX {
        usize::MAX
    } else {
        (a + b) as usize
    }
}

/// The saturating totals of a list of key and button counts.
pub open spec fn count_totals(parts: Seq<(usize, usize)>) -> (usize, usize)
    decreases parts.len(),
{
    if parts.len() == 0 {
        (0, 0)
    } else {
        let rest = count_totals(parts.drop_last());
        (saturating_sum(rest.0, parts.last().0), saturating_sum(rest.1, parts.last().1))
    }
}

/// The keys and buttons that the service's input ledgers hold in total,
/// added with saturation. The input broker keeps its own count; when the
/// two disagree, or the ledgers could not all be read, nothing is known and
/// both counts are reported as the largest `usize`, which no caller takes
/// for "nothing held".
pub fn combined_input_counts(parts: &[(usize, usize)], all_read: bool, broker: (usize, usize)) -> (r: (
    usize,
    usize,
))
    ensures
        r == (if all_read && count_totals(parts@) == broker {
            count_totals(parts@)
        } else {
            (usize::MAX, usize::MAX)
        }),
{
    if !all_read {
        return (usize::MAX, usize::MAX);
    }
    let mut keys: usize = 0;
    let mut buttons: usize = 0;
    let mut i: usize = 0;
    while i < parts.len()
        invariant
            i <= parts@.len(),
            (keys, buttons) == count_totals(parts@.subrange(0, i as int)),
        decreases parts@.len() - i,
    {
        proof {
            assert(parts@.subrange(0, i as int + 1).drop_last() =~= parts@.subrange(0, i as int));
        }
        let (k, b) = parts[i];
        keys = keys.saturating_add(k);
        buttons = buttons.saturating_add(b);
        i = i + 1;
    }
    assert(parts@.subrange(0, i as int) =~= parts@);
    if keys != broker.0 || buttons != broker.1 {
        return (usize::MAX, usize::MAX);
    }
    (keys, buttons)
}

/// The emergency thread's periodic duties and key-edge memory.
#[derive(Debug, Clone, Copy, PartialEq, Eq)]
pub struct EmergencyMonitor {
    /// When the hook was last probed, in milliseconds.
    pub last_probe_ms: u64,
    /// When a pending native-hotkey refresh was last retried.
    pub last_refresh_ms: u64,
    /// The emergency key was down at the last tick.
    pub key_down: bool,
}

/// What one tick of the emergency thread does.
#[derive(Debug, Clone, Copy, PartialEq, Eq)]
pub struct MonitorActions {
    /// Probe the hook channel (every 20 ms).
    pub probe_hook: bool,
    /// Retry a pending native-hotkey refresh (every 50 ms).
    pub retry_refresh: bool,
    /// The emergency key went down: request an emergency stop.
    pub request_stop: bool,
}

/// Whether `period` milliseconds have passed since `last`.
pub open spec fn period_due(last: u64, now_ms: u64, period: u64) -> bool {
    now_ms >= last && now_ms - last >= period
}

impl EmergencyMonitor {
    /// A monitor started at `now_ms`: the first tick probes the hook at
    /// once.
    pub fn new(now_ms: u64) -> (r: Self)
        ensures
            r.last_probe_ms == (if now_ms >= 20 { now_ms - 20 } else { 0 }),
            r.last_refresh_ms == now_ms,
            !r.key_down,
    {
        EmergencyMonitor { last_probe_ms: now_ms.saturating_sub(20), last_refresh_ms: now_ms, key_down: false }
    }

    /// One tick at `now_ms`, with the configured emergency key (0 when none)
    /// and whether that key is physically down. A stop is requested on the
    /// tick where the key goes down, once per press.
    pub fn tick(&mut self, now_ms: u64, key: u32, physically_down: bool) -> (r: MonitorActions)
        ensures
            r.probe_hook == period_due(old(self).last_probe_ms, now_ms, 20),
            r.retry_refresh == period_due(old(self).last_refresh_ms, now_ms, 50),
            final(self).last_probe_ms == (if r.probe_hook { now_ms } else { old(self).last_probe_ms }),
            final(self).last_refresh_ms == (if r.retry_refresh { now_ms } else { old(self).last_refresh_ms }),
            final(self).key_down == key_down_after(key, physically_down),
            r.request_stop == stop_requested_at(*old(self), key, physically_down),
    {
        let probe_hook = now_ms >= self.last_probe_ms && now_ms - self.last_probe_ms >= 20;
        if probe_hook {
            self.last_probe_ms = now_ms;
        }
        let retry_refresh = now_ms >= self.last_refresh_ms && now_ms - self.last_refresh_ms >= 50;
        if retry_refresh {
            self.last_refresh_ms = now_ms;
        }
        let down = key != 0 && physically_down;
        let request_stop = down && !self.key_down;
        self.key_down = down;
        MonitorActions { probe_hook, retry_refresh, request_stop }
    }
}

/// The emergency key counts as down when one is configured and it is
/// physically down.
pub open spec fn key_down_after(key: u32, physically_down: bool) -> bool {
    key != 0 && physically_down
}

/// A tick requests a stop when the key is down now and was not at the last
/// tick.
pub open spec fn stop_requested_at(m: EmergencyMonitor, key: u32, physically_down: bool) -> bool {
    key_down_after(key, physically_down) && !m.key_down
}

/// A held emergency key requests one stop: once a tick has seen it down,
/// every later tick that still sees it down requests none.
pub proof fn lemma_one_stop_per_press(m: EmergencyMonitor, key: u32)
    requires
        m.key_down == key_down_after(key, true),
    ensures
        !stop_requested_at(m, key, true),
{
}

/// The emergency cleanup's request and completion sequence numbers, and
/// whether a cleanup is scheduled.
#[derive(Debug, Clone, Copy, PartialEq, Eq)]
pub struct EmergencyCleanupTracker {
    /// The sequence number of the latest cleanup request.
    pub requested: u64,
    /// The sequence number that the last finished cleanup served.
    pub completed: u64,
    /// A cleanup has been started and has not finished.
    pub scheduled: bool,
}

impl EmergencyCleanupTracker {
    /// Completions never run ahead of requests.
    pub open spec fn wf(&self) -> bool {
        self.completed <= self.requested
    }

    /// A tracker with nothing requested.
    pub fn new() -> (r: Self)
        ensures
            r.wf(),
            r.requested == 0,
            r.completed == 0,
            !r.scheduled,
    {
        EmergencyCleanupTracker { requested: 0, completed: 0, scheduled: false }
    }

    /// Records one more cleanup request.
    pub fn request(&mut self)
        requires
            old(self).wf(),
            old(self).requested < u64::MAX,
        ensures
            final(self).wf(),
            *final(self) == (EmergencyCleanupTracker { requested: (old(self).requested + 1) as u64, ..*old(self) }),
    {
        self.requested = self.requested + 1;
    }

    /// Records a request that the priority cleanup lane numbered `sequence`;
    /// the latest number wins.
    pub fn record_lane_request(&mut self, sequence: u64)
        requires
            old(self).wf(),
        ensures
            final(self).wf(),
            *final(self) == (EmergencyCleanupTracker {
                requested: if sequence > old(self).requested { sequence } else { old(self).requested },
                ..*old(self)
            }),
    {
        if sequence > self.requested {
            self.requested = sequence;
        }
    }

    /// Starts a cleanup for the latest request, if one is pending, none is
    /// scheduled and the previous cleanup thread has exited; returns the
    /// sequence number it serves. At most one cleanup runs at a time.
    pub fn begin_cleanup(&mut self, previous_thread_exited: bool) -> (r: Option<u64>)
        requires
            old(self).wf(),
        ensures
            final(self).wf(),
            r is Some <==> (old(self).requested != old(self).completed && previous_thread_exited
                && !old(self).scheduled),
            r matches Some(sequence) ==> sequence == old(self).requested && *final(self) == (
            EmergencyCleanupTracker { scheduled: true, ..*old(self) }),
            r is None ==> *final(self) == *old(self),
    {
        if self.requested == self.completed || !previous_thread_exited || self.scheduled {
            return None;
        }
        self.scheduled = true;
        Some(self.requested)
    }

    /// Records that the cleanup serving `sequence` finished.
    pub fn finish_cleanup(&mut self, sequence: u64)
        requires
            old(self).wf(),
            sequence <= old(self).requested,
        ensures
            final(self).wf(),
            *final(self) == (EmergencyCleanupTracker { completed: sequence, scheduled: false, ..*old(self) }),
    {
        self.completed = sequence;
        self.scheduled = false;
    }

    /// Withdraws a cleanup whose thread could not be started; the request
    /// stays pending.
    pub fn abandon_cleanup(&mut self)
        requires
            old(self).wf(),
        ensures
            final(self).wf(),
            *final(self) == (EmergencyCleanupTracker { scheduled: false, ..*old(self) }),
    {
        self.scheduled = false;
    }

    /// The emergency cleanup is at rest: nothing is scheduled, every request
    /// has been served and the worker (lane or thread) is done.
    pub fn is_quiescent(&self, worker_done: bool) -> (r: bool)
        ensures
            r == (!self.scheduled && self.completed == self.requested && worker_done),
    {
        !self.scheduled && self.completed == self.requested && worker_done
    }
}

/// How an emergency cleanup ended.
#[derive(Debug, Clone, Copy, PartialEq, Eq)]
pub struct EmergencyCleanupVerdict {
    /// The controller stays fault-locked and input recovery is required.
    pub lock_fault: bool,
    /// The cleanup is reported safe.
    pub safe: bool,
}

/// An emergency cleanup locks the controller when it could not read the
/// playback registry or settle all of its bookkeeping; it is safe only when
/// those were read and settled, every held input was released and the
/// executors are known to be contained.
pub fn emergency_cleanup_verdict(
    registry_known: bool,
    bookkeeping_known: bool,
    input_released: bool,
    containment_unknown: bool,
) -> (r: EmergencyCleanupVerdict)
    ensures
        r.lock_fault == (!registry_known || !bookkeeping_known),
        r.safe == (registry_known && bookkeeping_known && input_released && !containment_unknown),
{
    EmergencyCleanupVerdict {
        lock_fault: !registry_known || !bookkeeping_known,
        safe: registry_known && bookkeeping_known && input_released && !containment_unknown,
    }
}

/// Keeps in the logical pressed set only the keys that are physically down
/// now; nothing is released, only stale bookkeeping is dropped.
pub fn retain_physically_held<F: Fn(u32) -> bool>(pressed: &mut HashSet<u32>, is_down: F)
    requires
        forall|vk: u32| #[trigger] is_down.requires((vk,)),
    ensures
        forall|vk: u32| #[trigger] final(pressed)@.contains(vk) ==> old(pressed)@.contains(vk) && is_down.ensures((vk,), true),
        forall|vk: u32| #[trigger] old(pressed)@.contains(vk) && !final(pressed)@.contains(vk) ==> is_down.ensures((vk,), false),
{
    let keys = set_keys(pressed);
    let ghost original = pressed@;
    let mut i: usize = 0;
    while i < keys.len()
        invariant
            i <= keys@.len(),
            keys@.to_set() == original,
            keys@.no_duplicates(),
            forall|vk: u32| #[trigger] is_down.requires((vk,)),
            forall|vk: u32| #[trigger] pressed@.contains(vk) ==> original.contains(vk),
            forall|j: int| i <= j < keys@.len() ==> pressed@.contains(#[trigger] keys@[j]),
            forall|j: int| 0 <= j < i ==> (pressed@.contains(#[trigger] keys@[j]) ==> is_down.ensures((keys@[j],), true))
                && (!pressed@.contains(keys@[j]) ==> is_down.ensures((keys@[j],), false)),
        decreases keys@.len() - i,
    {
        let vk = keys[i];
        let down = is_down(vk);
        if !down {
            pressed.remove(&vk);
            proof {
                assert forall|j: int| i + 1 <= j < keys@.len() implies pressed@.contains(#[trigger] keys@[j]) by {
                    assert(keys@[j] != keys@[i as int]);
                };
                assert forall|j: int| 0 <= j < i implies (pressed@.contains(#[trigger] keys@[j]) ==> is_down.ensures((keys@[j],), true))
                    && (!pressed@.contains(keys@[j]) ==> is_down.ensures((keys@[j],), false)) by {
                    assert(keys@[j] != keys@[i as int]);
                };
            }
        }
        i = i + 1;
    }
    proof {
        assert forall|vk: u32| #[trigger] pressed@.contains(vk) implies original.contains(vk) && is_down.ensures((vk,), true) by {
            assert(keys@.to_set().contains(vk));
            let j = choose|j: int| 0 <= j < keys@.len() && keys@[j] == vk;
            assert(pressed@.contains(keys@[j]));
        };
        assert forall|vk: u32| #[trigger] original.contains(vk) && !pressed@.contains(vk) implies is_down.ensures((vk,), false) by {
            assert(keys@.to_set().contains(vk));
            let j = choose|j: int| 0 <= j < keys@.len() && keys@[j] == vk;
            assert(!pressed@.contains(keys@[j]));
        };
    }
}

/// A ledger after an emergency cleanup pass: it kept its owner, holds no
/// more than before, and forgot an input only after its release succeeded.
pub open spec fn ledger_cleaned<K: Fn(u32) -> Result<(), String>, B: Fn(MouseButton) -> Result<(), String>>(
    before: InjectedInputState,
    after: InjectedInputState,
    key_up: K,
    button_up: B,
) -> bool {
    &&& after.wf()
    &&& after.spec_owner() == before.spec_owner()
    &&& after.held_keys().subset_of(before.held_keys())
    &&& after.held_buttons().subset_of(before.held_buttons())
    &&& forall|k: u32|
        #[trigger] before.held_keys().contains(k) && !after.held_keys().contains(k) ==> key_up.ensures(
            (k,),
            Ok(()),
        )
    &&& forall|b: MouseButton|
        #[trigger] before.held_buttons().contains(b) && !after.held_buttons().contains(b) ==> button_up.ensures(
            (b,),
            Ok(()),
        )
}

/// A ledger that holds nothing.
pub open spec fn ledger_empty(l: InjectedInputState) -> bool {
    l.held_keys().is_empty() && l.held_buttons().is_empty()
}

/// Cleans every ledger once, in order, against the shared broker, and adds
/// their reports. The result is safe exactly when no ledger holds anything
/// afterwards.
pub fn clean_all_ledgers<K: Fn(u32) -> Result<(), String>, B: Fn(MouseButton) -> Result<(), String>>(
    ledgers: Vec<InjectedInputState>,
    broker: &mut InputBroker,
    key_up: K,
    button_up: B,
) -> (r: (Vec<InjectedInputState>, CleanupReport))
    requires
        forall|i: int| 0 <= i < ledgers@.len() ==> (#[trigger] ledgers@[i]).wf(),
        old(broker).wf(),
        forall|k: u32| #[trigger] key_up.requires((k,)),
        forall|b: MouseButton| #[trigger] button_up.requires((b,)),
    ensures
        final(broker).wf(),
        r.0@.len() == ledgers@.len(),
        forall|i: int| 0 <= i < ledgers@.len() ==> ledger_cleaned(ledgers@[i], #[trigger] r.0@[i], key_up, button_up),
        r.1.failures@.len() == 0 <==> forall|i: int| 0 <= i < r.0@.len() ==> ledger_empty(#[trigger] r.0@[i]),
{
    let mut rest = ledgers;
    let ghost orig = rest@;
    let mut done: Vec<InjectedInputState> = Vec::new();
    let mut report = CleanupReport::default();
    while rest.len() > 0
        invariant
            done@.len() + rest@.len() == orig.len(),
            rest@ == orig.subrange(done@.len() as int, orig.len() as int),
            broker.wf(),
            forall|i: int| 0 <= i < rest@.len() ==> (#[trigger] rest@[i]).wf(),
            forall|i: int| 0 <= i < done@.len() ==> ledger_cleaned(orig[i], #[trigger] done@[i], key_up, button_up),
            report.failures@.len() == 0 <==> forall|i: int| 0 <= i < done@.len() ==> ledger_empty(#[trigger] done@[i]),
            forall|k: u32| #[trigger] key_up.requires((k,)),
            forall|b: MouseButton| #[trigger] button_up.requires((b,)),
        decreases rest@.len(),
    {
        let ghost before_rest = rest@;
        let mut ledger = rest.remove(0);
        assert(ledger == orig[done@.len() as int]);
        assert(rest@ =~= orig.subrange(done@.len() as int + 1, orig.len() as int));
        let ghost start = ledger;
        let part = ledger.cleanup(broker, &key_up, &button_up);
        let ghost done_before = done@;
        let ghost report_before = report.failures@;
        report.absorb(part);
        done.push(ledger);
        proof {
            assert(ledger_cleaned(start, done@[done@.len() - 1], key_up, button_up));
            assert forall|i: int| 0 <= i < done@.len() implies ledger_cleaned(orig[i], #[trigger] done@[i], key_up, button_up) by {
                if i < done_before.len() {
                    assert(done@[i] == done_before[i]);
                }
            };
            assert((report.failures@.len() == 0) <==> (forall|i: int| 0 <= i < done@.len() ==> ledger_empty(#[trigger] done@[i]))) by {
                if report.failures@.len() == 0 {
                    assert forall|i: int| 0 <= i < done@.len() implies ledger_empty(#[trigger] done@[i]) by {
                        if i < done_before.len() {
                            assert(done@[i] == done_before[i]);
                        }
                    };
                }
                if forall|i: int| 0 <= i < done@.len() ==> ledger_empty(#[trigger] done@[i]) {
                    assert forall|i: int| 0 <= i < done_before.len() implies ledger_empty(#[trigger] done_before[i]) by {
                        assert(done@[i] == done_before[i]);
                    };
                    assert(ledger_empty(done@[done@.len() - 1]));
                }
            };
        }
    }
    (done, report)
}

/// Settles the bookkeeping after an emergency stop: a running recording is
/// finished (its held keys and buttons get release steps), every latch and
/// the typed text are forgotten, and the logical pressed set keeps only the
/// keys that are physically down.
pub fn emergency_bookkeeping<F: Fn(u32) -> bool>(
    recorder: &mut RecorderState,
    latched: &mut HashSet<String>,
    text_buffer: &mut Vec<char>,
    pressed: &mut HashSet<u32>,
    is_down: F,
)
    requires
        forall|vk: u32| #[trigger] is_down.requires((vk,)),
    ensures
        old(recorder).active ==> !final(recorder).active && final(recorder).completed_steps is Some
            && finishes_to(
            old(recorder).steps@,
            old(recorder).pressed_keys@,
            old(recorder).pressed_buttons@,
            final(recorder).completed_steps->0@,
        ),
        !old(recorder).active ==> *final(recorder) == *old(recorder),
        final(latched)@ == Set::<String>::empty(),
        final(text_buffer)@.len() == 0,
        forall|vk: u32| #[trigger] final(pressed)@.contains(vk) ==> old(pressed)@.contains(vk) && is_down.ensures((vk,), true),
        forall|vk: u32| #[trigger] old(pressed)@.contains(vk) && !final(pressed)@.contains(vk) ==> is_down.ensures((vk,), false),
{
    if recorder.active {
        finish_recorder(recorder);
    }
    latched.clear();
    text_buffer.clear();
    retain_physically_held(pressed, is_down);
}

/// The emergency cleanup after a stop: every ledger is cleaned once, the
/// bookkeeping is settled, and the verdict is drawn. The bookkeeping counts as
/// settled here; whether the playback registry was read and whether the
/// executors are contained comes from the caller.
pub fn emergency_cleanup_pass<
    K: Fn(u32) -> Result<(), String>,
    B: Fn(MouseButton) -> Result<(), String>,
    F: Fn(u32) -> bool,
>(
    ledgers: Vec<InjectedInputState>,
    broker: &mut InputBroker,
    recorder: &mut RecorderState,
    latched: &mut HashSet<String>,
    text_buffer: &mut Vec<char>,
    pressed: &mut HashSet<u32>,
    registry_known: bool,
    containment_unknown: bool,
    key_up: K,
    button_up: B,
    is_down: F,
) -> (r: (Vec<InjectedInputState>, CleanupReport, EmergencyCleanupVerdict))
    requires
        forall|i: int| 0 <= i < ledgers@.len() ==> (#[trigger] ledgers@[i]).wf(),
        old(broker).wf(),
        forall|k: u32| #[trigger] key_up.requires((k,)),
        forall|b: MouseButton| #[trigger] button_up.requires((b,)),
        forall|vk: u32| #[trigger] is_down.requires((vk,)),
    ensures
        final(broker).wf(),
        r.0@.len() == ledgers@.len(),
        forall|i: int| 0 <= i < ledgers@.len() ==> ledger_cleaned(ledgers@[i], #[trigger] r.0@[i], key_up, button_up),
        r.1.failures@.len() == 0 <==> forall|i: int| 0 <= i < r.0@.len() ==> ledger_empty(#[trigger] r.0@[i]),
        old(recorder).active ==> !final(recorder).active && final(recorder).completed_steps is Some,
        !old(recorder).active ==> *final(recorder) == *old(recorder),
        final(latched)@ == Set::<String>::empty(),
        final(text_buffer)@.len() == 0,
        forall|vk: u32| #[trigger] final(pressed)@.contains(vk) ==> old(pressed)@.contains(vk) && is_down.ensures((vk,), true),
        r.2.lock_fault == !registry_known,
        r.2.safe == (registry_known && r.1.failures@.len() == 0 && !containment_unknown),
{
    let (ledgers, report) = clean_all_ledgers(ledgers, broker, key_up, button_up);
    emergency_bookkeeping(recorder, latched, text_buffer, pressed, is_down);
    let released = report.is_safe();
    let verdict = emergency_cleanup_verdict(registry_known, true, released, containment_unknown);
    (ledgers, report, verdict)
}

} // verus!
