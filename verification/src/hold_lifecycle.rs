//! The published Hold lifecycle: the epoch allocator, the identity that the
//! trigger path publishes for a Hold start, the phases that the start passes
//! through, and the cancellation watermark that the owner key's release
//! raises. A released Hold never binds, activates or validates again.

use vstd::prelude::*;
use vstd::relations::{sorted_by, total_ordering};
use crate::config::{AutomationProgram, MacroRule, MacroStep};
use crate::hold::{
    cancel_hold_identity_for_key, hold_trigger_word_contains, phase_token, words_contain,
    HoldLifecycleIdentity, HoldLifecyclePhase,
};
use crate::native::{collect_trigger_vks, is_native_clicker_rule, spec_is_clicker, spec_trigger_vks};
use crate::runtime::RunToken;
use crate::snapshot::{ascending, sort_key_codes, trigger_macro_snapshot, TriggerMacroSnapshot};
use crate::status::AppError;
use crate::trigger::{macro_mode_identity, mode_identity};

verus! {

broadcast use vstd::seq_lib::group_to_multiset_ensures;

/// Two steps with the same kind and the same contents.
pub open spec fn same_step(a: MacroStep, b: MacroStep) -> bool {
    match (a, b) {
        (
            MacroStep::Delay { duration_ms: d1, duration_max_ms: m1 },
            MacroStep::Delay { duration_ms: d2, duration_max_ms: m2 },
        ) => d1 == d2 && m1 == m2,
        (MacroStep::Key { key: k1, action: a1 }, MacroStep::Key { key: k2, action: a2 }) => k1@
            == k2@ && a1 == a2,
        (
            MacroStep::MouseButton { button: b1, action: a1, x: x1, y: y1 },
            MacroStep::MouseButton { button: b2, action: a2, x: x2, y: y2 },
        ) => b1 == b2 && a1 == a2 && x1 == x2 && y1 == y2,
        (MacroStep::MouseMove { x: x1, y: y1 }, MacroStep::MouseMove { x: x2, y: y2 }) => x1 == x2
            && y1 == y2,
        (
            MacroStep::Wheel { delta_x: x1, delta_y: y1 },
            MacroStep::Wheel { delta_x: x2, delta_y: y2 },
        ) => x1 == x2 && y1 == y2,
        (MacroStep::Text { text: t1 }, MacroStep::Text { text: t2 }) => t1@ == t2@,
        _ => false,
    }
}

/// Two step lists of the same length with the same steps.
pub open spec fn same_steps(a: Seq<MacroStep>, b: Seq<MacroStep>) -> bool {
    a.len() == b.len() && forall|i: int| 0 <= i < a.len() ==> same_step(#[trigger] a[i], b[i])
}

/// Two programs of the same kind with the same contents.
pub open spec fn same_program_contents(a: AutomationProgram, b: AutomationProgram) -> bool {
    match (a, b) {
        (
            AutomationProgram::Script { source: x, api_version: v },
            AutomationProgram::Script { source: y, api_version: w },
        ) => x@ == y@ && v == w,
        (AutomationProgram::Macro { steps: x }, AutomationProgram::Macro { steps: y }) => same_steps(
            x@,
            y@,
        ),
        _ => false,
    }
}

/// Whether a stored snapshot still describes `rule`, that is, equals a fresh
/// snapshot of it: the same id, switches and program, and the same trigger
/// keys (the stored ones are kept sorted, so the same keys in any order).
pub open spec fn snapshot_describes(stored: TriggerMacroSnapshot, rule: MacroRule) -> bool {
    &&& stored.id@ == rule.id@
    &&& stored.enabled == rule.enabled
    &&& match spec_trigger_vks(rule.trigger_keys@) {
        Some(vks) => stored.trigger_vks matches Some(v) && v@.to_multiset() == vks.to_multiset(),
        None => stored.trigger_vks is None,
    }
    &&& stored.mode == mode_identity(rule.mode)
    &&& stored.repeat_count == rule.repeat_count
    &&& stored.speed_bits == rule.speed_bits
    &&& stored.import_error == (rule.import_error is Some)
    &&& stored.clicker == spec_is_clicker(rule)
    &&& same_program_contents(stored.program, rule.program)
}

/// A stored snapshot keeps its trigger keys in ascending order.
pub open spec fn snapshot_sorted(stored: TriggerMacroSnapshot) -> bool {
    stored.trigger_vks matches Some(v) ==> ascending(v@)
}

fn option_u64_equal(a: Option<u64>, b: Option<u64>) -> (r: bool)
    ensures
        r == (a == b),
{
    match (a, b) {
        (Some(x), Some(y)) => x == y,
        (None, None) => true,
        _ => false,
    }
}

fn step_equal(a: &MacroStep, b: &MacroStep) -> (r: bool)
    ensures
        r == same_step(*a, *b),
{
    match (a, b) {
        (
            MacroStep::Delay { duration_ms: d1, duration_max_ms: m1 },
            MacroStep::Delay { duration_ms: d2, duration_max_ms: m2 },
        ) => *d1 == *d2 && option_u64_equal(*m1, *m2),
        (MacroStep::Key { key: k1, action: a1 }, MacroStep::Key { key: k2, action: a2 }) => *k1
            == *k2 && *a1 == *a2,
        (
            MacroStep::MouseButton { button: b1, action: a1, x: x1, y: y1 },
            MacroStep::MouseButton { button: b2, action: a2, x: x2, y: y2 },
        ) => *b1 == *b2 && *a1 == *a2 && *x1 == *x2 && *y1 == *y2,
        (MacroStep::MouseMove { x: x1, y: y1 }, MacroStep::MouseMove { x: x2, y: y2 }) => *x1
            == *x2 && *y1 == *y2,
        (
            MacroStep::Wheel { delta_x: x1, delta_y: y1 },
            MacroStep::Wheel { delta_x: x2, delta_y: y2 },
        ) => *x1 == *x2 && *y1 == *y2,
        (MacroStep::Text { text: t1 }, MacroStep::Text { text: t2 }) => *t1 == *t2,
        _ => false,
    }
}

pub(crate) fn program_equal(a: &AutomationProgram, b: &AutomationProgram) -> (r: bool)
    ensures
        r == same_program_contents(*a, *b),
{
    match (a, b) {
        (
            AutomationProgram::Script { source: x, api_version: v },
            AutomationProgram::Script { source: y, api_version: w },
        ) => *x == *y && *v == *w,
        (AutomationProgram::Macro { steps: x }, AutomationProgram::Macro { steps: y }) => {
            if x.len() != y.len() {
                return false;
            }
            let mut i: usize = 0;
            while i < x.len()
                invariant
                    i <= x@.len(),
                    x@.len() == y@.len(),
                    forall|j: int| 0 <= j < i ==> same_step(#[trigger] x@[j], y@[j]),
                    same_program_contents(*a, *b) == same_steps(x@, y@),
                decreases x@.len() - i,
            {
                if !step_equal(&x[i], &y[i]) {
                    assert(!same_step(x@[i as int], y@[i as int]));
                    return false;
                }
                i = i + 1;
            }
            true
        },
        (AutomationProgram::Script { .. }, AutomationProgram::Macro { .. }) => false,
        (AutomationProgram::Macro { .. }, AutomationProgram::Script { .. }) => false,
    }
}

fn codes_equal(a: &[u32], b: &[u32]) -> (r: bool)
    ensures
        r == (a@ == b@),
{
    if a.len() != b.len() {
        return false;
    }
    let mut i: usize = 0;
    while i < a.len()
        invariant
            i <= a@.len(),
            a@.len() == b@.len(),
            forall|j: int| 0 <= j < i ==> a@[j] == b@[j],
        decreases a@.len() - i,
    {
        if a[i] != b[i] {
            return false;
        }
        i = i + 1;
    }
    assert(a@ =~= b@);
    true
}

proof fn lemma_ascending_same_keys_equal(x: Seq<u32>, y: Seq<u32>)
    requires
        ascending(x),
        ascending(y),
        x.to_multiset() == y.to_multiset(),
    ensures
        x == y,
{
    let leq = |a: u32, b: u32| a <= b;
    assert(sorted_by(x, leq));
    assert(sorted_by(y, leq));
    assert(total_ordering(leq));
    vstd::seq_lib::lemma_sorted_unique(x, y, leq);
}

/// Whether a sorted stored snapshot still describes `rule`.
pub fn snapshot_describes_rule(stored: &TriggerMacroSnapshot, rule: &MacroRule) -> (r: bool)
    requires
        snapshot_sorted(*stored),
    ensures
        r == snapshot_describes(*stored, *rule),
{
    if stored.id != rule.id || stored.enabled != rule.enabled {
        return false;
    }
    let keys_match = match (&stored.trigger_vks, collect_trigger_vks(rule.trigger_keys.as_slice())) {
        (Some(v), Some(keys)) => {
            let ghost original = keys@;
            let sorted = sort_key_codes(keys);
            let same = codes_equal(v.as_slice(), sorted.as_slice());
            proof {
                if !same && v@.to_multiset() == original.to_multiset() {
                    lemma_ascending_same_keys_equal(v@, sorted@);
                }
            }
            same
        },
        (None, None) => true,
        _ => false,
    };
    keys_match && stored.mode == macro_mode_identity(rule.mode) && stored.repeat_count
        == rule.repeat_count && stored.speed_bits == rule.speed_bits && stored.import_error
        == rule.import_error.is_some() && stored.clicker == is_native_clicker_rule(rule)
        && program_equal(&stored.program, &rule.program)
}

/// The number under which a phase is published for the keyboard callback:
/// 1 pending, 2 bound, 3 active; 0 when nothing is published.
pub open spec fn phase_code(phase: HoldLifecyclePhase) -> u8 {
    match phase {
        HoldLifecyclePhase::Pending => 1,
        HoldLifecyclePhase::Bound { .. } => 2,
        HoldLifecyclePhase::Active { .. } => 3,
        HoldLifecyclePhase::Retired => 0,
    }
}

/// The token that stands for "no run".
pub open spec fn no_token() -> RunToken {
    RunToken { id: 0, generation: 0 }
}

/// The published token of a phase: its run, or no run.
pub open spec fn published_token(phase: HoldLifecyclePhase) -> RunToken {
    match phase_token(phase) {
        Some(token) => token,
        None => no_token(),
    }
}

/// The Hold lifecycle that the trigger path publishes and the keyboard
/// callback reads, with the epoch counter and the cancellation watermark.
#[derive(Debug, Clone)]
pub struct HoldLifecycleSlot {
    /// The last epoch handed out; epochs start at 1.
    pub last_epoch: u64,
    /// Set once the counter ran out; no epoch is handed out afterwards.
    pub epochs_exhausted: bool,
    /// The published identity.
    pub current: Option<HoldLifecycleIdentity>,
    /// The epoch of the published identity, 0 when none is published.
    pub published_epoch: u64,
    /// Every epoch up to this one has been released by its owner key.
    pub cancelled_epoch: u64,
    /// The owner key of the published identity, one bit per key.
    pub trigger_words: [u64; 4],
    /// The published phase number.
    pub phase_code: u8,
    /// The run the published identity is bound to, or no run.
    pub bound_token: RunToken,
}

impl HoldLifecycleSlot {
    /// The slot's invariant: the identity and the fields that the callback
    /// reads agree, and every epoch in use was handed out.
    pub open spec fn wf(&self) -> bool {
        &&& self.published_epoch <= self.last_epoch
        &&& self.cancelled_epoch <= self.last_epoch
        &&& (self.current is Some) == (self.published_epoch != 0)
        &&& match self.current {
            Some(identity) => {
                &&& identity.epoch == self.published_epoch
                &&& identity.phase != HoldLifecyclePhase::Retired
                &&& self.phase_code == phase_code(identity.phase)
                &&& self.bound_token == published_token(identity.phase)
                &&& identity.owner_vk < 256
                &&& forall|vk: u32| #[trigger] words_contain(self.trigger_words@, vk) <==> vk == identity.owner_vk
                &&& identity.cancelled ==> self.cancelled_epoch >= identity.epoch
                &&& snapshot_sorted(identity.rule_snapshot)
            },
            None => {
                &&& self.phase_code == 0
                &&& self.bound_token == no_token()
                &&& forall|vk: u32| !#[trigger] words_contain(self.trigger_words@, vk)
            },
        }
    }

    /// Whether the Hold of `epoch` may still start `rule`: it is the one
    /// published, its owner key has not been released, it is not retired and
    /// it was published for this very rule.
    pub open spec fn hold_valid(&self, rule: MacroRule, epoch: u64) -> bool {
        &&& self.published_epoch == epoch
        &&& self.cancelled_epoch < epoch
        &&& self.current matches Some(identity)
        &&& identity.epoch == epoch
        &&& !identity.cancelled
        &&& identity.macro_id@ == rule.id@
        &&& snapshot_describes(identity.rule_snapshot, rule)
        &&& identity.phase != HoldLifecyclePhase::Retired
    }

    /// Whether a key-down of `vk` belongs to the published, unreleased Hold.
    pub open spec fn owns_keydown(&self, vk: u32) -> bool {
        self.published_epoch != 0 && words_contain(self.trigger_words@, vk) && self.cancelled_epoch
            < self.published_epoch
    }

    /// An empty slot.
    pub fn new() -> (r: Self)
        ensures
            r.wf(),
            r.last_epoch == 0,
            !r.epochs_exhausted,
            r.current is None,
            r.cancelled_epoch == 0,
    {
        let r = HoldLifecycleSlot {
            last_epoch: 0,
            epochs_exhausted: false,
            current: None,
            published_epoch: 0,
            cancelled_epoch: 0,
            trigger_words: [0u64; 4],
            phase_code: 0,
            bound_token: RunToken { id: 0, generation: 0 },
        };
        proof {
            assert forall|vk: u32| !words_contain(r.trigger_words@, vk) by {
                if vk / 64 < 4 {
                    assert(r.trigger_words@[(vk / 64) as int] == 0);
                    let b = (vk % 64) as u64;
                    assert((0u64 >> b) & 1 == 0) by (bit_vector);
                }
            };
        }
        r
    }

    /// Hands out the next epoch. Epochs only grow: each one handed out is
    /// one more than the last, and none is handed out once the counter is
    /// exhausted.
    pub fn allocate_epoch(&mut self) -> (r: Option<u64>)
        requires
            old(self).wf(),
        ensures
            final(self).wf(),
            match r {
                Some(epoch) => {
                    &&& !old(self).epochs_exhausted
                    &&& old(self).last_epoch < u64::MAX
                    &&& epoch == old(self).last_epoch + 1
                    &&& *final(self) == HoldLifecycleSlot { last_epoch: epoch, ..*old(self) }
                },
                None => {
                    &&& old(self).epochs_exhausted || old(self).last_epoch == u64::MAX
                    &&& *final(self) == HoldLifecycleSlot { epochs_exhausted: true, ..*old(self) }
                },
            },
    {
        if self.last_epoch == u64::MAX || self.epochs_exhausted {
            self.epochs_exhausted = true;
            return None;
        }
        self.last_epoch = self.last_epoch + 1;
        Some(self.last_epoch)
    }

    /// Publishes a Hold for `rule` owned by `owner_vk`. An epoch is taken
    /// first; the Hold is published only when none is published yet and the
    /// owner key has a bit in the trigger words.
    pub fn publish(&mut self, rule: &MacroRule, owner_vk: u32) -> (r: Option<u64>)
        requires
            old(self).wf(),
        ensures
            final(self).wf(),
            final(self).cancelled_epoch == old(self).cancelled_epoch,
            final(self).last_epoch >= old(self).last_epoch,
            r is Some <==> (!old(self).epochs_exhausted && old(self).last_epoch < u64::MAX
                && old(self).current is None && owner_vk < 256),
            r matches Some(epoch) ==> {
                &&& epoch == old(self).last_epoch + 1
                &&& final(self).last_epoch == epoch
                &&& final(self).published_epoch == epoch
                &&& final(self).phase_code == 1
                &&& final(self).current matches Some(identity) && identity.epoch == epoch
                    && identity.macro_id@ == rule.id@ && identity.owner_vk == owner_vk
                    && identity.phase == HoldLifecyclePhase::Pending && !identity.cancelled
                    && snapshot_describes(identity.rule_snapshot, *rule)
            },
            r is None ==> final(self).current == old(self).current && final(self).published_epoch
                == old(self).published_epoch,
    {
        let epoch = match self.allocate_epoch() {
            Some(epoch) => epoch,
            None => {
                return None;
            },
        };
        if self.current.is_some() || self.published_epoch != 0 {
            return None;
        }
        let index = owner_vk / 64;
        if index >= 4 {
            return None;
        }
        let mut words = [0u64; 4];
        let bit: u64 = (owner_vk % 64) as u64;
        words[index as usize] = 1u64 << bit;
        let snapshot = trigger_macro_snapshot(rule);
        proof {
            assert forall|vk: u32| words_contain(words@, vk) <==> vk == owner_vk by {
                if vk / 64 < 4 {
                    let w = words@[(vk / 64) as int];
                    let b = (vk % 64) as u64;
                    if vk / 64 == index {
                        assert(w == 1u64 << bit);
                        assert(((1u64 << bit) >> b) & 1 == 1 <==> b == bit) by (bit_vector)
                            requires
                                b < 64,
                                bit < 64,
                        ;
                        assert(vk == owner_vk <==> b == bit);
                    } else {
                        assert(w == 0);
                        assert((0u64 >> b) & 1 == 0) by (bit_vector);
                    }
                }
            };
            assert(snapshot_sorted(snapshot));
            lemma_fresh_snapshot_describes(*rule, snapshot);
        }
        self.current = Some(
            HoldLifecycleIdentity {
                epoch,
                macro_id: rule.id.clone(),
                rule_snapshot: snapshot,
                owner_vk,
                phase: HoldLifecyclePhase::Pending,
                cancelled: false,
            },
        );
        self.trigger_words = words;
        self.bound_token = RunToken { id: 0, generation: 0 };
        self.phase_code = 1;
        self.published_epoch = epoch;
        Some(epoch)
    }

    /// Checks that the Hold of `expected_epoch` may still start `rule`. A
    /// start that is not a Hold start passes.
    pub fn validate(&self, rule: &MacroRule, expected_epoch: Option<u64>) -> (r: Result<(), AppError>)
        requires
            self.wf(),
        ensures
            match expected_epoch {
                None => r is Ok,
                Some(epoch) => (r is Ok) == self.hold_valid(*rule, epoch),
            },
            r matches Err(e) ==> e.code@ == "macro_hold_released"@,
    {
        let epoch = match expected_epoch {
            None => {
                return Ok(());
            },
            Some(epoch) => epoch,
        };
        if self.published_epoch != epoch || self.cancelled_epoch >= epoch {
            return Err(released_error());
        }
        let valid = match &self.current {
            Some(identity) => identity.epoch == epoch && !identity.cancelled && identity.macro_id
                == rule.id && snapshot_describes_rule(&identity.rule_snapshot, rule)
                && identity.phase != HoldLifecyclePhase::Retired,
            None => false,
        };
        if valid {
            Ok(())
        } else {
            Err(released_error())
        }
    }

    /// Binds the pending Hold of `expected_epoch` to the run it starts.
    pub fn bind_run(&mut self, rule: &MacroRule, expected_epoch: Option<u64>, run_token: RunToken) -> (r:
        Result<(), AppError>)
        requires
            old(self).wf(),
        ensures
            final(self).wf(),
            r matches Err(e) ==> e.code@ == "macro_hold_released"@,
            match expected_epoch {
                None => r is Ok && *final(self) == *old(self),
                Some(epoch) => {
                    &&& (r is Ok) == (old(self).hold_valid(*rule, epoch)
                        && old(self).current->0.phase == HoldLifecyclePhase::Pending)
                    &&& r is Ok ==> {
                        &&& final(self).current == Some(
                            HoldLifecycleIdentity {
                                phase: HoldLifecyclePhase::Bound { run_token },
                                ..old(self).current->0
                            },
                        )
                        &&& final(self).phase_code == 2
                        &&& final(self).bound_token == run_token
                        &&& final(self).published_epoch == old(self).published_epoch
                        &&& final(self).cancelled_epoch == old(self).cancelled_epoch
                        &&& final(self).last_epoch == old(self).last_epoch
                    }
                    &&& r is Err ==> *final(self) == *old(self)
                },
            },
    {
        let epoch = match expected_epoch {
            None => {
                return Ok(());
            },
            Some(epoch) => epoch,
        };
        match self.validate(rule, expected_epoch) {
            Ok(()) => {},
            Err(e) => {
                return Err(e);
            },
        }
        let pending = match &self.current {
            Some(identity) => identity.epoch == epoch && !identity.cancelled && identity.phase
                == HoldLifecyclePhase::Pending,
            None => false,
        };
        if !pending {
            return Err(released_error());
        }
        let mut identity = match self.current.take() {
            Some(identity) => identity,
            None => {
                return Err(released_error());
            },
        };
        identity.phase = HoldLifecyclePhase::Bound { run_token };
        self.current = Some(identity);
        self.bound_token = run_token;
        self.phase_code = 2;
        Ok(())
    }

    /// Activates the bound Hold of `expected_epoch` once its run has been
    /// registered as playback instance `instance_id`.
    pub fn activate(
        &mut self,
        rule: &MacroRule,
        expected_epoch: Option<u64>,
        run_token: RunToken,
        instance_id: u64,
    ) -> (r: Result<(), AppError>)
        requires
            old(self).wf(),
        ensures
            final(self).wf(),
            r matches Err(e) ==> e.code@ == "macro_hold_released"@,
            match expected_epoch {
                None => r is Ok && *final(self) == *old(self),
                Some(epoch) => {
                    &&& (r is Ok) == (old(self).hold_valid(*rule, epoch)
                        && old(self).current->0.phase == HoldLifecyclePhase::Bound { run_token })
                    &&& r is Ok ==> {
                        &&& final(self).current == Some(
                            HoldLifecycleIdentity {
                                phase: HoldLifecyclePhase::Active { run_token, instance_id },
                                ..old(self).current->0
                            },
                        )
                        &&& final(self).phase_code == 3
                        &&& final(self).bound_token == old(self).bound_token
                        &&& final(self).published_epoch == old(self).published_epoch
                        &&& final(self).cancelled_epoch == old(self).cancelled_epoch
                        &&& final(self).last_epoch == old(self).last_epoch
                    }
                    &&& r is Err ==> *final(self) == *old(self)
                },
            },
    {
        let epoch = match expected_epoch {
            None => {
                return Ok(());
            },
            Some(epoch) => epoch,
        };
        match self.validate(rule, expected_epoch) {
            Ok(()) => {},
            Err(e) => {
                return Err(e);
            },
        }
        let bound = match &self.current {
            Some(identity) => identity.epoch == epoch && !identity.cancelled && identity.phase
                == HoldLifecyclePhase::Bound { run_token },
            None => false,
        };
        if !bound {
            return Err(released_error());
        }
        let mut identity = match self.current.take() {
            Some(identity) => identity,
            None => {
                return Err(released_error());
            },
        };
        identity.phase = HoldLifecyclePhase::Active { run_token, instance_id };
        self.current = Some(identity);
        self.phase_code = 3;
        Ok(())
    }

    /// Retires the Hold of `epoch`: nothing is published afterwards. A
    /// retire for another epoch changes nothing.
    pub fn retire(&mut self, epoch: u64)
        requires
            old(self).wf(),
        ensures
            final(self).wf(),
            final(self).cancelled_epoch == old(self).cancelled_epoch,
            final(self).last_epoch == old(self).last_epoch,
            if old(self).current matches Some(identity) && identity.epoch == epoch {
                &&& final(self).current is None
                &&& final(self).published_epoch == 0
                &&& forall|vk: u32| !final(self).owns_keydown(vk)
            } else {
                *final(self) == *old(self)
            },
    {
        let matches = match &self.current {
            Some(identity) => identity.epoch == epoch,
            None => false,
        };
        if !matches {
            return;
        }
        self.current = None;
        self.phase_code = 0;
        self.published_epoch = 0;
        self.bound_token = RunToken { id: 0, generation: 0 };
        self.trigger_words = [0u64; 4];
        proof {
            assert forall|vk: u32| !words_contain(self.trigger_words@, vk) by {
                if vk / 64 < 4 {
                    assert(self.trigger_words@[(vk / 64) as int] == 0);
                    let b = (vk % 64) as u64;
                    assert((0u64 >> b) & 1 == 0) by (bit_vector);
                }
            };
        }
    }

    /// The release of `vk`: when `vk` owns the published Hold, its epoch is
    /// cancelled and the run it was bound to is reported for revocation.
    pub fn release_owner_key(&mut self, vk: u32) -> (r: HoldRelease)
        requires
            old(self).wf(),
        ensures
            final(self).wf(),
            final(self).last_epoch == old(self).last_epoch,
            final(self).published_epoch == old(self).published_epoch,
            final(self).cancelled_epoch >= old(self).cancelled_epoch,
            r.matched == (old(self).current matches Some(identity) && identity.owner_vk == vk),
            !r.matched ==> *final(self) == *old(self) && r.epoch is None && r.revoke is None,
            r.matched ==> {
                let identity = old(self).current->0;
                &&& r.epoch == Some(identity.epoch)
                &&& final(self).cancelled_epoch >= identity.epoch
                &&& final(self).cancelled_epoch == (if old(self).cancelled_epoch < identity.epoch {
                    identity.epoch
                } else {
                    old(self).cancelled_epoch
                })
                &&& r.revoke == revocation(identity)
                &&& forall|rule: MacroRule| !final(self).hold_valid(rule, identity.epoch)
            },
    {
        let mut matched_epoch: Option<u64> = None;
        let mut bound_token: Option<RunToken> = None;
        let matched = cancel_hold_identity_for_key(&mut self.current, vk, &mut matched_epoch, &mut bound_token);
        if let Some(epoch) = matched_epoch {
            if self.cancelled_epoch < epoch {
                self.cancelled_epoch = epoch;
            }
        }
        let revoke = match bound_token {
            Some(token) => if token.id != 0 {
                Some(token)
            } else {
                None
            },
            None => None,
        };
        HoldRelease { matched, epoch: matched_epoch, revoke }
    }

    /// Whether a key-down of `vk` belongs to the published, unreleased Hold.
    pub fn owns_owner_keydown(&self, vk: u32) -> (r: bool)
        ensures
            r == self.owns_keydown(vk),
    {
        if self.published_epoch == 0 {
            return false;
        }
        hold_trigger_word_contains(&self.trigger_words, vk) && self.cancelled_epoch < self.published_epoch
    }
}

/// The run that the release of a live Hold's owner key revokes: the run it
/// is bound to, unless it was already cancelled or no run is bound.
pub open spec fn revocation(identity: HoldLifecycleIdentity) -> Option<RunToken> {
    if identity.cancelled {
        None
    } else {
        match phase_token(identity.phase) {
            Some(token) => if token.id != 0 {
                Some(token)
            } else {
                None
            },
            None => None,
        }
    }
}

/// What the release of a key did to the published Hold.
#[derive(Debug, Clone, Copy, PartialEq, Eq)]
pub struct HoldRelease {
    /// The key owns the published Hold.
    pub matched: bool,
    /// The epoch that the release cancelled.
    pub epoch: Option<u64>,
    /// The run that must lose its input permission.
    pub revoke: Option<RunToken>,
}

fn released_error() -> (r: AppError)
    ensures
        r.code@ == "macro_hold_released"@,
        r.message@ == "Hold 快捷键已松开或生命周期已失效，本次启动已取消"@,
        r.detail is None,
{
    AppError::invalid("macro_hold_released", "Hold 快捷键已松开或生命周期已失效，本次启动已取消")
}

proof fn lemma_fresh_snapshot_describes(rule: MacroRule, s: TriggerMacroSnapshot)
    requires
        crate::snapshot::snapshot_of(rule, s),
    ensures
        snapshot_describes(s, rule),
{
    match (s.program, rule.program) {
        (AutomationProgram::Macro { steps: x }, AutomationProgram::Macro { steps: y }) => {
            assert forall|i: int| 0 <= i < x@.len() implies same_step(#[trigger] x@[i], y@[i]) by {
                assert(x@[i] == y@[i]);
            };
        },
        _ => {},
    }
}

/// Once the owner key of a Hold is released, that Hold can never again pass
/// validation, bind its run or activate, whatever rule it is asked for: the
/// cancellation watermark never falls and validation requires the epoch to
/// lie above it.
pub proof fn lemma_released_hold_never_starts(slot: HoldLifecycleSlot, rule: MacroRule, epoch: u64)
    requires
        slot.cancelled_epoch >= epoch,
    ensures
        !slot.hold_valid(rule, epoch),
{
}

} // verus!
