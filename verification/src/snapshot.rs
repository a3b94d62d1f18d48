//! The trigger-permission snapshot: everything about the configuration that
//! decides whether a pending trigger may still start. A start is abandoned
//! when the snapshot taken at admission no longer equals the current one.

use vstd::prelude::*;
use crate::config::{AppConfig, AutomationProgram, MacroMode, MacroRule, MacroStep};
use crate::keys::{key_to_vk, spec_key_to_vk};
use crate::native::{is_native_clicker_rule, spec_is_clicker, spec_trigger_vks};
use crate::trigger::{macro_mode_identity, mode_identity};

verus! {

broadcast use vstd::seq_lib::group_to_multiset_ensures;

/// Ascending order.
pub open spec fn ascending(s: Seq<u32>) -> bool {
    forall|i: int, j: int| 0 <= i < j < s.len() ==> s[i] <= s[j]
}

/// The key codes in ascending order.
pub fn sort_key_codes(v: Vec<u32>) -> (r: Vec<u32>)
    ensures
        ascending(r@),
        r@.to_multiset() == v@.to_multiset(),
{
    let mut out: Vec<u32> = Vec::new();
    let mut i: usize = 0;
    while i < v.len()
        invariant
            i <= v@.len(),
            ascending(out@),
            out@.to_multiset() == v@.subrange(0, i as int).to_multiset(),
        decreases v@.len() - i,
    {
        let x = v[i];
        let mut p: usize = out.len();
        while p > 0 && out[p - 1] > x
            invariant
                p <= out@.len(),
                forall|k: int| p <= k < out@.len() ==> out@[k] > x,
            decreases p,
        {
            p = p - 1;
        }
        let ghost before = out@;
        out.insert(p, x);
        proof {
            assert(out@ == before.insert(p as int, x));
            assert forall|a: int, b: int| 0 <= a < b < out@.len() implies out@[a] <= out@[b] by {
                if a < p && b == p {
                    assert(before[a] <= before[p - 1]);
                }
            };
            assert(v@.subrange(0, i as int + 1) =~= v@.subrange(0, i as int).push(x));
        }
        i = i + 1;
    }
    assert(v@.subrange(0, v@.len() as int) =~= v@);
    out
}

/// Lexicographic order of texts by their characters' code points, which is
/// also the byte order of their UTF-8 encodings.
pub open spec fn text_less(a: Seq<char>, b: Seq<char>) -> bool
    decreases a.len(),
{
    if a.len() == 0 {
        b.len() > 0
    } else if b.len() == 0 {
        false
    } else if (a[0] as u32) < (b[0] as u32) {
        true
    } else if (a[0] as u32) > (b[0] as u32) {
        false
    } else {
        text_less(a.drop_first(), b.drop_first())
    }
}

proof fn lemma_char_eq(a: char, b: char)
    requires
        (a as u32) == (b as u32),
    ensures
        a == b,
{
    vstd::utf8::char_u32_cast(a, a as u32);
    vstd::utf8::char_u32_cast(b, b as u32);
}

/// Two texts are equal or one comes before the other, never both ways.
pub proof fn lemma_text_order_total(a: Seq<char>, b: Seq<char>)
    ensures
        text_less(a, b) || a == b || text_less(b, a),
        !(text_less(a, b) && text_less(b, a)),
        !text_less(a, a),
    decreases a.len(),
{
    if a.len() > 0 && b.len() > 0 {
        lemma_text_order_total(a.drop_first(), b.drop_first());
        if (a[0] as u32) == (b[0] as u32) {
            lemma_char_eq(a[0], b[0]);
            if a.drop_first() == b.drop_first() {
                assert(a =~= seq![a[0]] + a.drop_first());
                assert(b =~= seq![b[0]] + b.drop_first());
            }
        }
    } else if a.len() == 0 && b.len() == 0 {
        assert(a =~= b);
    }
    if a.len() > 0 {
        lemma_text_order_total(a.drop_first(), a.drop_first());
    }
}

/// The order of texts is transitive.
pub proof fn lemma_text_order_transitive(a: Seq<char>, b: Seq<char>, c: Seq<char>)
    requires
        text_less(a, b),
        text_less(b, c),
    ensures
        text_less(a, c),
    decreases a.len(),
{
    if a.len() > 0 && b.len() > 0 && c.len() > 0 {
        if (a[0] as u32) == (b[0] as u32) && (b[0] as u32) == (c[0] as u32) {
            lemma_text_order_transitive(a.drop_first(), b.drop_first(), c.drop_first());
        }
    }
}

fn text_less_exec(a: &String, b: &String) -> (r: bool)
    ensures
        r == text_less(a@, b@),
{
    let x = crate::text::str_chars(a.as_str());
    let y = crate::text::str_chars(b.as_str());
    let mut i: usize = 0;
    assert(a@.subrange(0, a@.len() as int) =~= a@);
    assert(b@.subrange(0, b@.len() as int) =~= b@);
    while i < x.len() && i < y.len() && (x[i] as u32) == (y[i] as u32)
        invariant
            x@ == a@,
            y@ == b@,
            i <= x@.len(),
            i <= y@.len(),
            text_less(a@, b@) == text_less(a@.subrange(i as int, a@.len() as int), b@.subrange(
                i as int,
                b@.len() as int,
            )),
        decreases x@.len() - i,
    {
        proof {
            let sa = a@.subrange(i as int, a@.len() as int);
            let sb = b@.subrange(i as int, b@.len() as int);
            assert(sa.drop_first() =~= a@.subrange(i as int + 1, a@.len() as int));
            assert(sb.drop_first() =~= b@.subrange(i as int + 1, b@.len() as int));
        }
        i = i + 1;
    }
    if i == x.len() {
        i < y.len()
    } else if i == y.len() {
        false
    } else {
        (x[i] as u32) < (y[i] as u32)
    }
}

/// A verbatim copy of a macro step.
fn copy_step(step: &MacroStep) -> (r: MacroStep)
    ensures
        r == *step,
{
    match step {
        MacroStep::Delay { duration_ms, duration_max_ms } => MacroStep::Delay {
            duration_ms: *duration_ms,
            duration_max_ms: *duration_max_ms,
        },
        MacroStep::Key { key, action } => MacroStep::Key { key: key.clone(), action: *action },
        MacroStep::MouseButton { button, action, x, y } => MacroStep::MouseButton {
            button: *button,
            action: *action,
            x: *x,
            y: *y,
        },
        MacroStep::MouseMove { x, y } => MacroStep::MouseMove { x: *x, y: *y },
        MacroStep::Wheel { delta_x, delta_y } => MacroStep::Wheel {
            delta_x: *delta_x,
            delta_y: *delta_y,
        },
        MacroStep::Text { text } => MacroStep::Text { text: text.clone() },
    }
}

/// Two programs with the same source or the same steps.
pub open spec fn same_program(a: AutomationProgram, b: AutomationProgram) -> bool {
    match (a, b) {
        (
            AutomationProgram::Script { source: x, api_version: v },
            AutomationProgram::Script { source: y, api_version: w },
        ) => x == y && v == w,
        (AutomationProgram::Macro { steps: x }, AutomationProgram::Macro { steps: y }) => x@ == y@,
        _ => false,
    }
}

/// A verbatim copy of a program.
pub fn copy_program(program: &AutomationProgram) -> (r: AutomationProgram)
    ensures
        same_program(r, *program),
{
    match program {
        AutomationProgram::Script { source, api_version } => {
            let copied = source.clone();
            assert(copied == *source);
            AutomationProgram::Script { source: copied, api_version: *api_version }
        },
        AutomationProgram::Macro { steps } => {
            let mut out: Vec<MacroStep> = Vec::new();
            let mut i: usize = 0;
            while i < steps.len()
                invariant
                    i <= steps@.len(),
                    out@ == steps@.subrange(0, i as int),
                decreases steps@.len() - i,
            {
                out.push(copy_step(&steps[i]));
                i = i + 1;
                assert(out@ =~= steps@.subrange(0, i as int));
            }
            assert(out@ =~= steps@);
            AutomationProgram::Macro { steps: out }
        },
    }
}

/// What about one enabled macro decides whether its pending start is still
/// permitted.
#[derive(Debug, Clone, PartialEq, Eq)]
pub struct TriggerMacroSnapshot {
    pub id: String,
    pub enabled: bool,
    pub trigger_vks: Option<Vec<u32>>,
    pub mode: u8,
    pub repeat_count: u32,
    pub speed_bits: u32,
    pub import_error: bool,
    pub clicker: bool,
    pub program: AutomationProgram,
}

/// What about the configuration decides whether pending starts are still
/// permitted.
#[derive(Debug, Clone, PartialEq, Eq)]
pub struct TriggerPermissionSnapshot {
    pub global_enabled: bool,
    pub emergency_vk: Option<u32>,
    pub macros: Vec<TriggerMacroSnapshot>,
}

/// The snapshot of one rule: its trigger keys as sorted codes (absent when a
/// key is unknown), its identity and settings, whether it is the clicker and
/// its program.
pub open spec fn snapshot_of(rule: MacroRule, s: TriggerMacroSnapshot) -> bool {
    &&& s.id@ == rule.id@
    &&& s.enabled == rule.enabled
    &&& match spec_trigger_vks(rule.trigger_keys@) {
        Some(vks) => s.trigger_vks matches Some(v) && ascending(v@) && v@.to_multiset()
            == vks.to_multiset(),
        None => s.trigger_vks is None,
    }
    &&& s.mode == mode_identity(rule.mode)
    &&& s.repeat_count == rule.repeat_count
    &&& s.speed_bits == rule.speed_bits
    &&& s.import_error == (rule.import_error is Some)
    &&& s.clicker == spec_is_clicker(rule)
    &&& same_program(s.program, rule.program)
}

/// The snapshot of a rule.
pub fn trigger_macro_snapshot(rule: &MacroRule) -> (r: TriggerMacroSnapshot)
    ensures
        snapshot_of(*rule, r),
{
    let trigger_vks = match crate::native::collect_trigger_vks(rule.trigger_keys.as_slice()) {
        Some(keys) => Some(sort_key_codes(keys)),
        None => None,
    };
    TriggerMacroSnapshot {
        id: rule.id.clone(),
        enabled: rule.enabled,
        trigger_vks,
        mode: macro_mode_identity(rule.mode),
        repeat_count: rule.repeat_count,
        speed_bits: rule.speed_bits,
        import_error: rule.import_error.is_some(),
        clicker: is_native_clicker_rule(rule),
        program: copy_program(&rule.program),
    }
}

/// Snapshots ordered by id.
pub open spec fn ordered_by_id(s: Seq<TriggerMacroSnapshot>) -> bool {
    forall|i: int, j: int| 0 <= i < j < s.len() ==> !text_less(s[j].id@, s[i].id@)
}

/// The enabled rules among the first `n`.
pub open spec fn enabled_rules(rules: Seq<MacroRule>) -> Seq<MacroRule> {
    rules.filter(|r: MacroRule| r.enabled)
}

/// The snapshot of a configuration: its global switch, its emergency key's
/// code and the snapshots of its enabled rules ordered by id; each enabled
/// rule has exactly one snapshot.
pub open spec fn permission_snapshot_of(config: AppConfig, s: TriggerPermissionSnapshot) -> bool {
    &&& s.global_enabled == config.global_enabled
    &&& s.emergency_vk == spec_key_to_vk(config.emergency_stop@)
    &&& ordered_by_id(s.macros@)
    &&& s.macros@.len() == enabled_rules(config.macros@).len()
    &&& exists|order: Seq<int>|
        #![trigger order.len()]
        order.len() == s.macros@.len() && (forall|i: int, j: int|
            0 <= i < j < order.len() ==> order[i] != order[j]) && (forall|i: int, j: int|
            #![trigger order[i], order[j]]
            0 <= i < j < order.len() && s.macros@[i].id@ == s.macros@[j].id@ ==> order[i] < order[j])
            && (forall|i: int|
            0 <= i < order.len() ==> 0 <= order[i] < enabled_rules(config.macros@).len()
                && snapshot_of(
                enabled_rules(config.macros@)[order[i]],
                #[trigger] s.macros@[i],
            ))
}

/// The snapshot of the configuration's trigger permissions.
pub fn trigger_permission_snapshot(config: &AppConfig) -> (r: TriggerPermissionSnapshot)
    ensures
        permission_snapshot_of(*config, r),
{
    let ghost rules = config.macros@;
    let mut out: Vec<TriggerMacroSnapshot> = Vec::new();
    let ghost mut order: Seq<int> = Seq::empty();
    let ghost mut seen: Seq<MacroRule> = Seq::empty();
    let mut i: usize = 0;
    while i < config.macros.len()
        invariant
            i <= rules.len(),
            rules == config.macros@,
            seen == enabled_rules(rules.subrange(0, i as int)),
            ordered_by_id(out@),
            order.len() == out@.len(),
            out@.len() == seen.len(),
            forall|a: int, b: int| 0 <= a < b < order.len() ==> order[a] != order[b],
            forall|a: int, b: int|
                #![trigger order[a], order[b]]
                0 <= a < b < order.len() && out@[a].id@ == out@[b].id@ ==> order[a] < order[b],
            forall|a: int| 0 <= a < order.len() ==> 0 <= #[trigger] order[a] < seen.len(),
            forall|a: int|
                0 <= a < order.len() ==> snapshot_of(seen[order[a]], #[trigger] out@[a]),
        decreases rules.len() - i,
    {
        let rule = &config.macros[i];
        proof {
            assert(rules.subrange(0, i as int + 1) =~= rules.subrange(0, i as int).push(rules[i as int]));
            rules.subrange(0, i as int).lemma_filter_push(rules[i as int], |r: MacroRule| r.enabled);
        }
        if rule.enabled {
            let snap = trigger_macro_snapshot(rule);
            let mut p: usize = out.len();
            while p > 0 && text_less_exec(&snap.id, &out[p - 1].id)
                invariant
                    p <= out@.len(),
                    forall|k: int| p <= k < out@.len() ==> text_less(snap.id@, #[trigger] out@[k].id@),
                decreases p,
            {
                p = p - 1;
            }
            let ghost before = out@;
            let ghost before_order = order;
            let ghost index = seen.len() as int;
            let ghost before_seen = seen;
            out.insert(p, snap);
            proof {
                order = before_order.insert(p as int, index);
                seen = seen.push(rules[i as int]);
                assert forall|a: int, b: int| 0 <= a < b < out@.len() implies !text_less(
                    out@[b].id@,
                    out@[a].id@,
                ) by {
                    if a < p as int && b == p as int {
                        lemma_text_order_total(before[p - 1].id@, snap.id@);
                        if text_less(snap.id@, before[a].id@) {
                            lemma_text_order_total(before[a].id@, before[p - 1].id@);
                            if text_less(before[a].id@, before[p - 1].id@) {
                                lemma_text_order_transitive(snap.id@, before[a].id@, before[p - 1].id@);
                            }
                        }
                    } else if a == p as int {
                        lemma_text_order_total(snap.id@, out@[b].id@);
                    } else if a < p as int && b > p as int {
                        assert(out@[a] == before[a]);
                        assert(out@[b] == before[b - 1]);
                    } else if a > p as int {
                        assert(out@[a] == before[a - 1]);
                        assert(out@[b] == before[b - 1]);
                    } else {
                        assert(out@[a] == before[a]);
                        assert(out@[b] == before[b]);
                    }
                };
                assert forall|a: int| 0 <= a < order.len() implies 0 <= #[trigger] order[a] < seen.len() by {
                    if a < p as int {
                        assert(order[a] == before_order[a]);
                    } else if a > p as int {
                        assert(order[a] == before_order[a - 1]);
                    }
                };
                assert forall|a: int| 0 <= a < order.len() implies snapshot_of(
                    seen[order[a]],
                    #[trigger] out@[a],
                ) by {
                    if a == p as int {
                        assert(out@[a] == snap);
                        assert(order[a] == index);
                        assert(seen[index] == rules[i as int]);
                    } else if a < p as int {
                        assert(before_order[a] < index);
                        assert(seen[before_order[a]] == before_seen[before_order[a]]);
                        assert(out@[a] == before[a]);
                        assert(order[a] == before_order[a]);
                    } else {
                        assert(out@[a] == before[a - 1]);
                        assert(order[a] == before_order[a - 1]);
                        assert(before_order[a - 1] < index);
                        assert(seen[before_order[a - 1]] == before_seen[before_order[a - 1]]);
                    }
                };
                assert forall|a: int, b: int|
                    #![trigger order[a], order[b]]
                    0 <= a < b < order.len() && out@[a].id@ == out@[b].id@ implies order[a] < order[b] by {
                    if a == p as int {
                        assert(out@[b] == before[b - 1]);
                        assert(text_less(snap.id@, before[b - 1].id@));
                        lemma_text_order_total(snap.id@, snap.id@);
                    } else if b == p as int {
                        assert(order[a] == before_order[a]);
                        assert(before_order[a] < index);
                    } else {
                        let ao = if a < p as int { a } else { a - 1 };
                        let bo = if b < p as int { b } else { b - 1 };
                        assert(order[a] == before_order[ao]);
                        assert(order[b] == before_order[bo]);
                        assert(out@[a] == before[ao]);
                        assert(out@[b] == before[bo]);
                    }
                };
                assert forall|a: int, b: int| 0 <= a < b < order.len() implies order[a] != order[b] by {
                    if a == p as int {
                        let bo = b - 1;
                        assert(order[b] == before_order[bo]);
                        assert(before_order[bo] < index);
                    } else if b == p as int {
                        assert(order[a] == before_order[a]);
                        assert(before_order[a] < index);
                    } else {
                        let ao = if a < p as int { a } else { a - 1 };
                        let bo = if b < p as int { b } else { b - 1 };
                        assert(order[a] == before_order[ao]);
                        assert(order[b] == before_order[bo]);
                    }
                };
            }
        }
        i = i + 1;
    }
    proof {
        assert(rules.subrange(0, rules.len() as int) =~= rules);
    }
    proof {
        assert(seen == enabled_rules(config.macros@));
        assert(order.len() == out@.len());
    }
    let r = TriggerPermissionSnapshot {
        global_enabled: config.global_enabled,
        emergency_vk: key_to_vk(config.emergency_stop.as_str()),
        macros: out,
    };
    assert(r.macros@.len() == enabled_rules(config.macros@).len());
    r
}

} // verus!
