//! What a configuration update changes for the input service: whether the
//! native hotkey registrations must be refreshed, and whether pending
//! trigger starts lose their permission.

use vstd::prelude::*;
use crate::config::AppConfig;
use crate::hold_lifecycle::same_program_contents;
use crate::keys::{key_to_vk, spec_key_to_vk};
use crate::native::{native_registration_plan, plan_view, spec_plan};
use crate::config::MacroRule;
use crate::native::{spec_is_clicker, spec_trigger_vks};
use crate::snapshot::{
    ascending, permission_snapshot_of, snapshot_of, trigger_macro_snapshot, trigger_permission_snapshot, TriggerMacroSnapshot,
    TriggerPermissionSnapshot,
};
use crate::status::AppError;
use crate::trigger::mode_identity;

verus! {

/// Two trigger snapshots with the same contents.
pub open spec fn same_macro_snapshot(a: TriggerMacroSnapshot, b: TriggerMacroSnapshot) -> bool {
    &&& a.id@ == b.id@
    &&& a.enabled == b.enabled
    &&& match (a.trigger_vks, b.trigger_vks) {
        (Some(x), Some(y)) => x@ == y@,
        (None, None) => true,
        _ => false,
    }
    &&& a.mode == b.mode
    &&& a.repeat_count == b.repeat_count
    &&& a.speed_bits == b.speed_bits
    &&& a.import_error == b.import_error
    &&& a.clicker == b.clicker
    &&& same_program_contents(a.program, b.program)
}

/// Two permission snapshots with the same contents, rule by rule.
pub open spec fn same_permissions(a: TriggerPermissionSnapshot, b: TriggerPermissionSnapshot) -> bool {
    &&& a.global_enabled == b.global_enabled
    &&& a.emergency_vk == b.emergency_vk
    &&& a.macros@.len() == b.macros@.len()
    &&& forall|i: int| 0 <= i < a.macros@.len() ==> same_macro_snapshot(#[trigger] a.macros@[i], b.macros@[i])
}

fn option_codes_equal(a: &Option<Vec<u32>>, b: &Option<Vec<u32>>) -> (r: bool)
    ensures
        r == (match (*a, *b) {
            (Some(x), Some(y)) => x@ == y@,
            (None, None) => true,
            _ => false,
        }),
{
    match (a, b) {
        (Some(x), Some(y)) => {
            if x.len() != y.len() {
                return false;
            }
            let mut i: usize = 0;
            while i < x.len()
                invariant
                    i <= x@.len(),
                    x@.len() == y@.len(),
                    forall|j: int| 0 <= j < i ==> x@[j] == y@[j],
                    *a == Some(*x),
                    *b == Some(*y),
                decreases x@.len() - i,
            {
                if x[i] != y[i] {
                    assert(x@[i as int] != y@[i as int]);
                    return false;
                }
                i = i + 1;
            }
            assert(x@ =~= y@);
            true
        },
        (None, None) => true,
        (Some(_), None) => false,
        (None, Some(_)) => false,
    }
}

fn macro_snapshots_equal(a: &TriggerMacroSnapshot, b: &TriggerMacroSnapshot) -> (r: bool)
    ensures
        r == same_macro_snapshot(*a, *b),
{
    a.id == b.id && a.enabled == b.enabled && option_codes_equal(&a.trigger_vks, &b.trigger_vks)
        && a.mode == b.mode && a.repeat_count == b.repeat_count && a.speed_bits == b.speed_bits
        && a.import_error == b.import_error && a.clicker == b.clicker
        && crate::hold_lifecycle::program_equal(&a.program, &b.program)
}

/// Whether two permission snapshots have the same contents.
pub fn permissions_equal(a: &TriggerPermissionSnapshot, b: &TriggerPermissionSnapshot) -> (r: bool)
    ensures
        r == same_permissions(*a, *b),
{
    if a.global_enabled != b.global_enabled || a.macros.len() != b.macros.len() {
        return false;
    }
    let same_key = match (a.emergency_vk, b.emergency_vk) {
        (Some(x), Some(y)) => x == y,
        (None, None) => true,
        _ => false,
    };
    if !same_key {
        return false;
    }
    let mut i: usize = 0;
    while i < a.macros.len()
        invariant
            i <= a.macros@.len(),
            a.macros@.len() == b.macros@.len(),
            forall|j: int| 0 <= j < i ==> same_macro_snapshot(#[trigger] a.macros@[j], b.macros@[j]),
        decreases a.macros@.len() - i,
    {
        if !macro_snapshots_equal(&a.macros[i], &b.macros[i]) {
            return false;
        }
        i = i + 1;
    }
    true
}

fn plans_equal(a: &Vec<(String, u32, u32)>, b: &Vec<(String, u32, u32)>) -> (r: bool)
    ensures
        r == (plan_view(a@) == plan_view(b@)),
{
    if a.len() != b.len() {
        return false;
    }
    let mut i: usize = 0;
    while i < a.len()
        invariant
            i <= a@.len(),
            a@.len() == b@.len(),
            forall|j: int| 0 <= j < i ==> plan_view(a@)[j] == plan_view(b@)[j],
        decreases a@.len() - i,
    {
        let (x_id, x_mods, x_key) = &a[i];
        let (y_id, y_mods, y_key) = &b[i];
        if *x_id != *y_id || *x_mods != *y_mods || *x_key != *y_key {
            assert(plan_view(a@)[i as int] != plan_view(b@)[i as int]);
            return false;
        }
        i = i + 1;
    }
    assert(plan_view(a@) =~= plan_view(b@));
    true
}

/// What a configuration update changes for the input service.
#[derive(Debug, Clone, Copy, PartialEq, Eq)]
pub struct ConfigChange {
    /// The emergency key or the native hotkey plan changed: the native
    /// registrations must be refreshed.
    pub native_refresh: bool,
    /// The trigger permissions changed: pending trigger starts are cancelled
    /// by a new configuration revision.
    pub permissions_changed: bool,
}

/// The native hotkey plan of a configuration.
pub open spec fn config_plan(config: AppConfig) -> Seq<(Seq<char>, u32, u32)> {
    spec_plan(config.macros@, spec_key_to_vk(config.emergency_stop@))
}

/// Decides what replacing `current` by `next` changes. Registrations are
/// refreshed exactly when the emergency key or the registration plan
/// differs; trigger permissions change exactly when the permission snapshots
/// of the two configurations differ.
pub fn config_change(current: &AppConfig, next: &AppConfig) -> (r: ConfigChange)
    ensures
        r.native_refresh == (spec_key_to_vk(current.emergency_stop@) != spec_key_to_vk(next.emergency_stop@)
            || config_plan(*current) != config_plan(*next)),
        exists|a: TriggerPermissionSnapshot, b: TriggerPermissionSnapshot|
            permission_snapshot_of(*current, a) && permission_snapshot_of(*next, b) && r.permissions_changed
                == !same_permissions(a, b),
{
    let key_before = key_to_vk(current.emergency_stop.as_str());
    let key_after = key_to_vk(next.emergency_stop.as_str());
    let key_changed = match (key_before, key_after) {
        (Some(x), Some(y)) => x != y,
        (None, None) => false,
        _ => true,
    };
    let plan_before = native_registration_plan(current);
    let plan_after = native_registration_plan(next);
    let native_refresh = key_changed || !plans_equal(&plan_before, &plan_after);
    let before = trigger_permission_snapshot(current);
    let after = trigger_permission_snapshot(next);
    let permissions_changed = !permissions_equal(&before, &after);
    ConfigChange { native_refresh, permissions_changed }
}

/// Two rules that a trigger cannot tell apart: the same id, enabled state,
/// trigger keys (in any order), mode, repeat count, speed, import state,
/// clicker identity and program.
pub open spec fn same_trigger_identity(a: MacroRule, b: MacroRule) -> bool {
    &&& a.id@ == b.id@
    &&& a.enabled == b.enabled
    &&& match (spec_trigger_vks(a.trigger_keys@), spec_trigger_vks(b.trigger_keys@)) {
        (Some(x), Some(y)) => x.to_multiset() == y.to_multiset(),
        (None, None) => true,
        _ => false,
    }
    &&& mode_identity(a.mode) == mode_identity(b.mode)
    &&& a.repeat_count == b.repeat_count
    &&& a.speed_bits == b.speed_bits
    &&& (a.import_error is Some) == (b.import_error is Some)
    &&& spec_is_clicker(a) == spec_is_clicker(b)
    &&& same_program_contents(a.program, b.program)
}

/// A trigger that waited for its keys to be released may still start: the
/// global switch is on, and the first rule with its id is enabled and cannot
/// be told apart from the rule the trigger was accepted for.
pub open spec fn pending_trigger_admitted(config: AppConfig, task: MacroRule) -> bool {
    &&& config.global_enabled
    &&& exists|i: int|
        0 <= i < config.macros@.len() && #[trigger] config.macros@[i].id@ == task.id@ && (forall|j: int|
            0 <= j < i ==> config.macros@[j].id@ != task.id@) && config.macros@[i].enabled
            && same_trigger_identity(config.macros@[i], task)
}

proof fn lemma_snapshots_compare_rules(a: MacroRule, b: MacroRule, sa: TriggerMacroSnapshot, sb: TriggerMacroSnapshot)
    requires
        snapshot_of(a, sa),
        snapshot_of(b, sb),
    ensures
        same_macro_snapshot(sa, sb) == same_trigger_identity(a, b),
{
    let leq = |x: u32, y: u32| x <= y;
    assert(vstd::relations::total_ordering(leq));
    match (sa.trigger_vks, sb.trigger_vks) {
        (Some(x), Some(y)) => {
            if x@.to_multiset() == y@.to_multiset() {
                assert(vstd::relations::sorted_by(x@, leq));
                assert(vstd::relations::sorted_by(y@, leq));
                vstd::seq_lib::lemma_sorted_unique(x@, y@, leq);
            }
        },
        _ => {},
    }
}

/// Whether a trigger accepted for `task` may still start under `config`.
pub fn pending_trigger_still_admitted(config: &AppConfig, task: &MacroRule) -> (r: bool)
    ensures
        r == pending_trigger_admitted(*config, *task),
{
    if !config.global_enabled {
        return false;
    }
    let mut i: usize = 0;
    while i < config.macros.len()
        invariant
            i <= config.macros@.len(),
            config.global_enabled,
            forall|j: int| 0 <= j < i ==> config.macros@[j].id@ != task.id@,
        decreases config.macros@.len() - i,
    {
        let rule = &config.macros[i];
        if rule.id == task.id {
            if !rule.enabled {
                proof {
                    assert forall|k: int|
                        0 <= k < config.macros@.len() && #[trigger] config.macros@[k].id@ == task.id@ && (forall|j: int|
                            0 <= j < k ==> config.macros@[j].id@ != task.id@) implies k == i by {
                        if k < i {
                        } else if k > i {
                            assert(config.macros@[i as int].id@ == task.id@);
                        }
                    };
                }
                return false;
            }
            let sa = trigger_macro_snapshot(rule);
            let sb = trigger_macro_snapshot(task);
            let same = macro_snapshots_equal(&sa, &sb);
            proof {
                lemma_snapshots_compare_rules(*rule, *task, sa, sb);
                assert forall|k: int|
                    0 <= k < config.macros@.len() && #[trigger] config.macros@[k].id@ == task.id@ && (forall|j: int|
                        0 <= j < k ==> config.macros@[j].id@ != task.id@) implies k == i by {
                    if k > i {
                        assert(config.macros@[i as int].id@ == task.id@);
                    }
                };
                assert(config.macros@[i as int] == *rule);
                assert(config.macros@[i as int].id@ == task.id@);
                assert(same == same_trigger_identity(config.macros@[i as int], *task));
                if same {
                    assert(0 <= i < config.macros@.len() && config.macros@[i as int].id@ == task.id@ && (forall|j: int|
                        0 <= j < i ==> config.macros@[j].id@ != task.id@) && config.macros@[i as int].enabled
                        && same_trigger_identity(config.macros@[i as int], *task));
                }
            }
            return same;
        }
        i = i + 1;
    }
    false
}

/// The trigger configuration revision after `current`; once the counter is
/// used up, new hotkey starts stay locked until a restart.
pub fn advance_trigger_config_revision(current: u64) -> (r: Result<u64, AppError>)
    ensures
        current < u64::MAX ==> r == Ok::<u64, AppError>((current + 1) as u64),
        current == u64::MAX ==> (r matches Err(e) && e.code@ == "trigger_config_revision_exhausted"@
            && e.message@ == "快捷键配置版本已耗尽，已锁定新的快捷键启动；请重启 AutoFlow"@),
{
    match current.checked_add(1) {
        Some(next) => Ok(next),
        None => Err(
            AppError::invalid(
                "trigger_config_revision_exhausted",
                "快捷键配置版本已耗尽，已锁定新的快捷键启动；请重启 AutoFlow",
            ),
        ),
    }
}

} // verus!
