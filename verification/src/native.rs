//! Trigger-key planning: native hotkey registration, fallback trigger matching
//! in the keyboard hook and the latch state that keeps one press from
//! starting a macro twice.

use std::collections::HashSet;
use std::collections::HashMap;
use vstd::prelude::*;
use vstd::std_specs::iter::IteratorSpec;
use crate::config::{AppConfig, AutomationProgram, MacroMode, MacroRule, MacroStep};
use crate::keys::{key_to_vk, spec_key_to_vk, KeyAction, MouseButton};
use crate::text::{chars_equal_str, str_chars, trim_chars, trimmed};
use crate::trigger::{hotkey_playback_action, spec_hotkey_action, HotkeyPlaybackAction, TriggerStartTiming};

verus! {

broadcast use vstd::std_specs::hash::group_hash_axioms;

/// Accumulated `RegisterHotKey` modifiers and primary key over a prefix of
/// trigger keys; `None` once a key is unknown or a second primary key appears.
pub open spec fn hotkey_fold(keys: Seq<String>) -> Option<(u32, Option<u32>)>
    decreases keys.len(),
{
    if keys.len() == 0 {
        Some((0u32, None))
    } else {
        match hotkey_fold(keys.drop_last()) {
            None => None,
            Some((m, p)) => match spec_key_to_vk(keys.last()@) {
                None => None,
                Some(vk) => if vk == 0x10 {
                    Some((m | 4u32, p))
                } else if vk == 0x11 {
                    Some((m | 2u32, p))
                } else if vk == 0x12 {
                    Some((m | 1u32, p))
                } else if vk == 0x5B {
                    Some((m | 8u32, p))
                } else if p is Some {
                    None
                } else {
                    Some((m, Some(vk)))
                },
            },
        }
    }
}

/// The `(modifiers, key)` pair to register for a trigger: Shift, Ctrl, Alt and
/// Windows become modifier bits, and exactly one other key is required.
pub open spec fn spec_native_hotkey(keys: Seq<String>) -> Option<(u32, u32)> {
    match hotkey_fold(keys) {
        Some((m, Some(k))) => Some((m, k)),
        _ => None,
    }
}

proof fn lemma_hotkey_fold_none_stays(keys: Seq<String>, i: int)
    requires
        0 <= i <= keys.len(),
        hotkey_fold(keys.subrange(0, i)) is None,
    ensures
        hotkey_fold(keys) is None,
    decreases keys.len() - i,
{
    if i < keys.len() {
        assert(keys.subrange(0, i + 1).drop_last() =~= keys.subrange(0, i));
        lemma_hotkey_fold_none_stays(keys, i + 1);
    } else {
        assert(keys.subrange(0, i) =~= keys);
    }
}

/// A two-key trigger made of a modifier and another key registers as that
/// key with the modifier's bit, as `RegisterHotKey` defines them: Alt 1,
/// Ctrl 2, Shift 4, Windows 8.
pub proof fn lemma_modifier_and_key_register(keys: Seq<String>, modifier: u32, key: u32)
    requires
        keys.len() == 2,
        spec_key_to_vk(keys[0]@) == Some(modifier),
        modifier == 0x10 || modifier == 0x11 || modifier == 0x12 || modifier == 0x5B,
        spec_key_to_vk(keys[1]@) == Some(key),
        key != 0x10 && key != 0x11 && key != 0x12 && key != 0x5B,
    ensures
        spec_native_hotkey(keys) == Some((
            if modifier == 0x12 {
                1u32
            } else if modifier == 0x11 {
                2u32
            } else if modifier == 0x10 {
                4u32
            } else {
                8u32
            },
            key,
        )),
{
    let first = keys.drop_last();
    assert(first.drop_last() =~= Seq::<String>::empty());
    assert(first.last() == keys[0]);
    assert(keys.last() == keys[1]);
    assert(0u32 | 1u32 == 1u32 && 0u32 | 2u32 == 2u32 && 0u32 | 4u32 == 4u32 && 0u32 | 8u32 == 8u32) by (bit_vector);
    let bit: u32 = if modifier == 0x12 {
        1u32
    } else if modifier == 0x11 {
        2u32
    } else if modifier == 0x10 {
        4u32
    } else {
        8u32
    };
    assert(hotkey_fold(first.drop_last()) == Some((0u32, None::<u32>)));
    assert(hotkey_fold(first) == Some((bit, None::<u32>)));
    assert(hotkey_fold(keys) == Some((bit, Some(key))));
}

/// Translates trigger keys into a native hotkey registration.
pub fn native_hotkey_spec(trigger_keys: &[String]) -> (r: Option<(u32, u32)>)
    ensures
        r == spec_native_hotkey(trigger_keys@),
{
    let mut modifiers: u32 = 0;
    let mut primary: Option<u32> = None;
    let mut i: usize = 0;
    assert(trigger_keys@.subrange(0, 0) =~= Seq::<String>::empty());
    while i < trigger_keys.len()
        invariant
            i <= trigger_keys@.len(),
            hotkey_fold(trigger_keys@.subrange(0, i as int)) == Some((modifiers, primary)),
        decreases trigger_keys@.len() - i,
    {
        let ghost prefix = trigger_keys@.subrange(0, i as int + 1);
        assert(prefix.drop_last() =~= trigger_keys@.subrange(0, i as int));
        assert(prefix.last() == trigger_keys@[i as int]);
        match key_to_vk(trigger_keys[i].as_str()) {
            None => {
                proof {
                    lemma_hotkey_fold_none_stays(trigger_keys@, i + 1);
                }
                return None;
            },
            Some(vk) => {
                if vk == 0x10 {
                    modifiers = modifiers | 4;
                } else if vk == 0x11 {
                    modifiers = modifiers | 2;
                } else if vk == 0x12 {
                    modifiers = modifiers | 1;
                } else if vk == 0x5B {
                    modifiers = modifiers | 8;
                } else {
                    if primary.is_some() {
                        proof {
                            lemma_hotkey_fold_none_stays(trigger_keys@, i + 1);
                        }
                        return None;
                    }
                    primary = Some(vk);
                }
            },
        }
        i = i + 1;
    }
    assert(trigger_keys@.subrange(0, i as int) =~= trigger_keys@);
    match primary {
        Some(k) => Some((modifiers, k)),
        None => None,
    }
}

/// Whether some trigger key names the virtual key `vk`.
pub open spec fn keys_name_vk(keys: Seq<String>, vk: u32) -> bool {
    exists|i: int| 0 <= i < keys.len() && spec_key_to_vk(#[trigger] keys[i]@) == Some(vk)
}

pub(crate) fn any_key_names_vk(keys: &[String], vk: u32) -> (r: bool)
    ensures
        r == keys_name_vk(keys@, vk),
{
    let mut i: usize = 0;
    while i < keys.len()
        invariant
            i <= keys@.len(),
            forall|j: int| 0 <= j < i ==> spec_key_to_vk(#[trigger] keys@[j]@) != Some(vk),
        decreases keys@.len() - i,
    {
        if key_to_vk(keys[i].as_str()) == Some(vk) {
            return true;
        }
        i = i + 1;
    }
    false
}

/// The name that marks the built-in clicker.
pub open spec fn clicker_name() -> Seq<char> {
    "连点器"@
}

/// The built-in clicker: named 连点器 (ignoring surrounding whitespace) and
/// triggered by exactly Ctrl and F8.
pub open spec fn spec_is_clicker(rule: MacroRule) -> bool {
    trimmed(rule.name@) == clicker_name() && rule.trigger_keys@.len() == 2 && keys_name_vk(
        rule.trigger_keys@,
        0x11,
    ) && keys_name_vk(rule.trigger_keys@, 0x77)
}

pub(crate) fn name_is_clicker(name: &String) -> (r: bool)
    ensures
        r == (trimmed(name@) == clicker_name()),
{
    let chars = str_chars(name.as_str());
    let t = trim_chars(chars.as_slice());
    chars_equal_str(t.as_slice(), "连点器")
}

/// Whether a rule is the built-in Ctrl+F8 clicker.
pub fn is_native_clicker_rule(rule: &MacroRule) -> (r: bool)
    ensures
        r == spec_is_clicker(*rule),
{
    name_is_clicker(&rule.name) && rule.trigger_keys.len() == 2 && any_key_names_vk(
        rule.trigger_keys.as_slice(),
        0x11,
    ) && any_key_names_vk(rule.trigger_keys.as_slice(), 0x77)
}

/// The clicker's Ctrl+F8 may be registered only when the emergency-stop key is
/// neither Ctrl nor F8.
pub fn native_clicker_registration_allowed(config: &AppConfig) -> (r: bool)
    ensures
        r == (spec_key_to_vk(config.emergency_stop@) != Some(0x11u32) && spec_key_to_vk(
            config.emergency_stop@,
        ) != Some(0x77u32)),
{
    let emergency = key_to_vk(config.emergency_stop.as_str());
    emergency != Some(0x11u32) && emergency != Some(0x77u32)
}

/// Whether a rule gets a native registration, and with what.
pub open spec fn plan_entry(rule: MacroRule, emergency: Option<u32>) -> Option<(Seq<char>, u32, u32)> {
    if rule.enabled && rule.mode != MacroMode::Hold && !spec_is_clicker(rule)
        && rule.import_error is None {
        match spec_native_hotkey(rule.trigger_keys@) {
            None => None,
            Some((m, k)) => if emergency matches Some(e) && keys_name_vk(rule.trigger_keys@, e) {
                None
            } else {
                Some((rule.id@, m, k))
            },
        }
    } else {
        None
    }
}

/// The registrations for a list of rules, in rule order.
pub open spec fn spec_plan(rules: Seq<MacroRule>, emergency: Option<u32>) -> Seq<(Seq<char>, u32, u32)>
    decreases rules.len(),
{
    if rules.len() == 0 {
        Seq::empty()
    } else {
        let rest = spec_plan(rules.drop_last(), emergency);
        match plan_entry(rules.last(), emergency) {
            Some(e) => rest.push(e),
            None => rest,
        }
    }
}

pub open spec fn plan_view(v: Seq<(String, u32, u32)>) -> Seq<(Seq<char>, u32, u32)> {
    v.map_values(|t: (String, u32, u32)| (t.0@, t.1, t.2))
}

/// The native hotkeys to register: every enabled, importable, non-Hold,
/// non-clicker rule whose trigger is a valid hotkey and does not use the
/// emergency-stop key. Only these properties decide registration, so script,
/// speed or display edits never force a re-registration.
pub fn native_registration_plan(config: &AppConfig) -> (r: Vec<(String, u32, u32)>)
    ensures
        plan_view(r@) == spec_plan(config.macros@, spec_key_to_vk(config.emergency_stop@)),
{
    let emergency = key_to_vk(config.emergency_stop.as_str());
    let mut out: Vec<(String, u32, u32)> = Vec::new();
    let mut i: usize = 0;
    assert(config.macros@.subrange(0, 0) =~= Seq::<MacroRule>::empty());
    assert(plan_view(out@) =~= Seq::empty());
    while i < config.macros.len()
        invariant
            i <= config.macros@.len(),
            emergency == spec_key_to_vk(config.emergency_stop@),
            plan_view(out@) == spec_plan(config.macros@.subrange(0, i as int), emergency),
        decreases config.macros@.len() - i,
    {
        let rule = &config.macros[i];
        let ghost prefix = config.macros@.subrange(0, i as int + 1);
        assert(prefix.drop_last() =~= config.macros@.subrange(0, i as int));
        assert(prefix.last() == *rule);
        if rule.enabled && rule.mode != MacroMode::Hold && !is_native_clicker_rule(rule)
            && rule.import_error.is_none() {
            match native_hotkey_spec(rule.trigger_keys.as_slice()) {
                None => {},
                Some((m, k)) => {
                    let blocked = match emergency {
                        Some(e) => any_key_names_vk(rule.trigger_keys.as_slice(), e),
                        None => false,
                    };
                    if !blocked {
                        let id = rule.id.clone();
                        let ghost before = out@;
                        out.push((id, m, k));
                        assert(plan_view(out@) =~= plan_view(before).push((rule.id@, m, k)));
                    }
                },
            }
        }
        i = i + 1;
    }
    assert(config.macros@.subrange(0, i as int) =~= config.macros@);
    out
}

/// The clicker always toggles; every other rule uses its configured mode.
pub open spec fn spec_effective_mode(rule: MacroRule) -> MacroMode {
    if trimmed(rule.name@) == clicker_name() {
        MacroMode::Toggle
    } else {
        rule.mode
    }
}

/// The mode a hotkey press acts in.
pub fn effective_hotkey_mode(rule: &MacroRule) -> (r: MacroMode)
    ensures
        r == spec_effective_mode(*rule),
{
    if name_is_clicker(&rule.name) {
        MacroMode::Toggle
    } else {
        rule.mode
    }
}

/// Hold triggers wait for their modifiers; every other start waits for the
/// trigger keys to be released.
pub fn trigger_start_timing(rule: &MacroRule) -> (r: TriggerStartTiming)
    ensures
        r == (if spec_effective_mode(*rule) == MacroMode::Hold {
            TriggerStartTiming::HoldModifierRelease
        } else {
            TriggerStartTiming::ReleaseGated
        }),
{
    if effective_hotkey_mode(rule) == MacroMode::Hold {
        TriggerStartTiming::HoldModifierRelease
    } else {
        TriggerStartTiming::ReleaseGated
    }
}

/// The virtual keys of all trigger keys, when every one is a known key.
pub open spec fn spec_trigger_vks(keys: Seq<String>) -> Option<Seq<u32>> {
    if forall|i: int| 0 <= i < keys.len() ==> (#[trigger] spec_key_to_vk(keys[i]@)) is Some {
        Some(Seq::new(keys.len(), |i: int| spec_key_to_vk(keys[i]@)->0))
    } else {
        None
    }
}

pub(crate) fn collect_trigger_vks(keys: &[String]) -> (r: Option<Vec<u32>>)
    ensures
        match spec_trigger_vks(keys@) {
            Some(v) => r is Some && r->0@ == v,
            None => r is None,
        },
{
    let mut out: Vec<u32> = Vec::new();
    let mut i: usize = 0;
    while i < keys.len()
        invariant
            i <= keys@.len(),
            out@.len() == i,
            forall|j: int| 0 <= j < i ==> spec_key_to_vk(#[trigger] keys@[j]@) == Some(out@[j]),
        decreases keys@.len() - i,
    {
        match key_to_vk(keys[i].as_str()) {
            None => {
                return None;
            },
            Some(vk) => {
                out.push(vk);
            },
        }
        i = i + 1;
    }
    assert(out@ =~= Seq::new(keys@.len(), |j: int| spec_key_to_vk(keys@[j]@)->0));
    Some(out)
}

/// A key-down matches a rule when every trigger key is a known key, the
/// pressed key is one of them and all of them are held.
pub open spec fn spec_rule_matches(rule: MacroRule, current_vk: u32, pressed: Set<u32>) -> bool {
    match spec_trigger_vks(rule.trigger_keys@) {
        None => false,
        Some(vks) => vks.len() > 0 && vks.contains(current_vk) && forall|i: int|
            0 <= i < vks.len() ==> pressed.contains(#[trigger] vks[i]),
    }
}

/// A key-down matches a rule only when every one of the rule's trigger keys
/// names a key and all of them are held, the key going down among them.
pub proof fn lemma_match_needs_every_trigger_key(rule: MacroRule, current_vk: u32, pressed: Set<u32>)
    requires
        spec_rule_matches(rule, current_vk, pressed),
    ensures
        rule.trigger_keys@.len() > 0,
        forall|i: int|
            0 <= i < rule.trigger_keys@.len() ==> match #[trigger] spec_key_to_vk(rule.trigger_keys@[i]@) {
                Some(v) => pressed.contains(v),
                None => false,
            },
        exists|i: int| 0 <= i < rule.trigger_keys@.len() && spec_key_to_vk(#[trigger] rule.trigger_keys@[i]@) == Some(current_vk),
{
    let vks = spec_trigger_vks(rule.trigger_keys@)->0;
    assert forall|i: int|
        0 <= i < rule.trigger_keys@.len() implies match #[trigger] spec_key_to_vk(rule.trigger_keys@[i]@) {
            Some(v) => pressed.contains(v),
            None => false,
        } by {
        assert(spec_key_to_vk(rule.trigger_keys@[i]@) is Some);
        assert(vks[i] == spec_key_to_vk(rule.trigger_keys@[i]@)->0);
        assert(pressed.contains(vks[i]));
    };
    let j = choose|j: int| 0 <= j < vks.len() && vks[j] == current_vk;
    assert(spec_key_to_vk(rule.trigger_keys@[j]@) is Some);
    assert(spec_key_to_vk(rule.trigger_keys@[j]@) == Some(current_vk));
}

/// Whether a key-down completes a rule's trigger combination.
pub fn macro_rule_matches_key_down(rule: &MacroRule, current_vk: u32, pressed: &HashSet<u32>) -> (r:
    bool)
    ensures
        r == spec_rule_matches(*rule, current_vk, pressed@),
        r ==> forall|i: int|
            0 <= i < rule.trigger_keys@.len() ==> match #[trigger] spec_key_to_vk(rule.trigger_keys@[i]@) {
                Some(v) => pressed@.contains(v),
                None => false,
            },
{
    proof {
        if spec_rule_matches(*rule, current_vk, pressed@) {
            lemma_match_needs_every_trigger_key(*rule, current_vk, pressed@);
        }
    }
    let vks = match collect_trigger_vks(rule.trigger_keys.as_slice()) {
        None => return false,
        Some(v) => v,
    };
    if vks.len() == 0 {
        return false;
    }
    let mut contains_current = false;
    let mut all_held = true;
    let mut i: usize = 0;
    while i < vks.len()
        invariant
            i <= vks@.len(),
            contains_current == exists|j: int| 0 <= j < i && vks@[j] == current_vk,
            all_held == forall|j: int| 0 <= j < i ==> pressed@.contains(#[trigger] vks@[j]),
        decreases vks@.len() - i,
    {
        if vks[i] == current_vk {
            contains_current = true;
        }
        if !pressed.contains(&vks[i]) {
            all_held = false;
        }
        i = i + 1;
    }
    contains_current && all_held
}

/// Whether `vk` is a trigger key of some enabled rule.
pub open spec fn spec_is_trigger_key(rules: Seq<MacroRule>, vk: u32) -> bool {
    exists|i: int| 0 <= i < rules.len() && (#[trigger] rules[i]).enabled && keys_name_vk(rules[i].trigger_keys@, vk)
}

/// Whether a key belongs to the trigger of an enabled macro.
pub fn is_macro_trigger_key(config: &AppConfig, vk: u32) -> (r: bool)
    ensures
        r == spec_is_trigger_key(config.macros@, vk),
{
    let mut i: usize = 0;
    while i < config.macros.len()
        invariant
            i <= config.macros@.len(),
            forall|j: int|
                0 <= j < i ==> !((#[trigger] config.macros@[j]).enabled && keys_name_vk(
                    config.macros@[j].trigger_keys@,
                    vk,
                )),
        decreases config.macros@.len() - i,
    {
        let rule = &config.macros[i];
        if rule.enabled && any_key_names_vk(rule.trigger_keys.as_slice(), vk) {
            return true;
        }
        i = i + 1;
    }
    false
}

} // verus!

verus! {

/// The virtual keys of a trigger, when it has at least one key and every key
/// is known.
pub fn macro_trigger_vks(trigger_keys: &[String]) -> (r: Option<Vec<u32>>)
    ensures
        match spec_trigger_vks(trigger_keys@) {
            Some(v) => if v.len() > 0 {
                r is Some && r->0@ == v
            } else {
                r is None
            },
            None => r is None,
        },
{
    match collect_trigger_vks(trigger_keys) {
        Some(v) => if v.len() > 0 {
            Some(v)
        } else {
            None
        },
        None => None,
    }
}

/// The decimal codes of `vks` joined by `+`.
pub open spec fn joined_codes(vks: Seq<u32>) -> Seq<char>
    decreases vks.len(),
{
    if vks.len() == 0 {
        Seq::empty()
    } else if vks.len() == 1 {
        crate::text::dec_chars(vks[0] as nat)
    } else {
        joined_codes(vks.drop_last()) + seq!['+'] + crate::text::dec_chars(vks.last() as nat)
    }
}

/// The latch signature of a trigger: `macro+` and the joined virtual-key codes.
pub open spec fn latch_signature(vks: Seq<u32>) -> Seq<char> {
    seq!['m', 'a', 'c', 'r', 'o', '+'] + joined_codes(vks)
}

fn signature_for_vks(vks: &[u32]) -> (r: String)
    ensures
        r@ == latch_signature(vks@),
{
    let mut s = String::new();
    crate::text::push_char(&mut s, 'm');
    crate::text::push_char(&mut s, 'a');
    crate::text::push_char(&mut s, 'c');
    crate::text::push_char(&mut s, 'r');
    crate::text::push_char(&mut s, 'o');
    crate::text::push_char(&mut s, '+');
    let mut i: usize = 0;
    assert(vks@.subrange(0, 0) =~= Seq::<u32>::empty());
    while i < vks.len()
        invariant
            i <= vks@.len(),
            s@ == seq!['m', 'a', 'c', 'r', 'o', '+'] + joined_codes(vks@.subrange(0, i as int)),
        decreases vks@.len() - i,
    {
        let ghost before = s@;
        let ghost prefix = vks@.subrange(0, i as int + 1);
        assert(prefix.drop_last() =~= vks@.subrange(0, i as int));
        if i > 0 {
            crate::text::push_char(&mut s, '+');
        }
        crate::text::push_decimal(&mut s, vks[i] as u64);
        if i == 0 {
            assert(s@ =~= seq!['m', 'a', 'c', 'r', 'o', '+'] + joined_codes(prefix));
        } else {
            assert(s@ =~= seq!['m', 'a', 'c', 'r', 'o', '+'] + joined_codes(prefix));
        }
        i = i + 1;
    }
    assert(vks@.subrange(0, i as int) =~= vks@);
    s
}

/// The decimal codes of `vks` joined by `+`, as a string.
pub(crate) fn codes_signature(vks: &[u32]) -> (r: String)
    ensures
        r@ == joined_codes(vks@),
{
    let mut s = String::new();
    let mut i: usize = 0;
    assert(vks@.subrange(0, 0) =~= Seq::<u32>::empty());
    while i < vks.len()
        invariant
            i <= vks@.len(),
            s@ == joined_codes(vks@.subrange(0, i as int)),
        decreases vks@.len() - i,
    {
        let ghost prefix = vks@.subrange(0, i as int + 1);
        assert(prefix.drop_last() =~= vks@.subrange(0, i as int));
        if i > 0 {
            crate::text::push_char(&mut s, '+');
        }
        crate::text::push_decimal(&mut s, vks[i] as u64);
        assert(s@ =~= joined_codes(prefix));
        i = i + 1;
    }
    assert(vks@.subrange(0, i as int) =~= vks@);
    s
}

/// The latch signature that keeps one held trigger from starting twice.
pub fn macro_latch_signature(trigger_keys: &[String]) -> (r: Option<String>)
    ensures
        match spec_trigger_vks(trigger_keys@) {
            Some(v) => if v.len() > 0 {
                r is Some && r->0@ == latch_signature(v)
            } else {
                r is None
            },
            None => r is None,
        },
{
    match macro_trigger_vks(trigger_keys) {
        Some(v) => Some(signature_for_vks(v.as_slice())),
        None => None,
    }
}

/// After a macro completes, forgets its trigger keys and latch once none of
/// them is physically held; returns false and changes nothing otherwise.
pub fn clear_released_macro_trigger_state<F: Fn(u32) -> bool>(
    pressed: &mut HashSet<u32>,
    latched: &mut HashSet<String>,
    trigger_vks: &[u32],
    is_physically_down: F,
) -> (r: bool)
    requires
        forall|vk: u32| #[trigger] is_physically_down.requires((vk,)),
    ensures
        !r ==> final(pressed)@ == old(pressed)@ && final(latched)@ == old(latched)@,
        !r ==> exists|i: int|
            0 <= i < trigger_vks@.len() && is_physically_down.ensures(
                (#[trigger] trigger_vks@[i],),
                true,
            ),
        r ==> forall|i: int|
            0 <= i < trigger_vks@.len() ==> is_physically_down.ensures(
                (#[trigger] trigger_vks@[i],),
                false,
            ),
        r ==> forall|v: u32|
            #[trigger] final(pressed)@.contains(v) <==> (old(pressed)@.contains(v)
                && !trigger_vks@.contains(v)),
{
    let mut i: usize = 0;
    while i < trigger_vks.len()
        invariant
            i <= trigger_vks@.len(),
            forall|vk: u32| #[trigger] is_physically_down.requires((vk,)),
            forall|j: int|
                0 <= j < i ==> is_physically_down.ensures((#[trigger] trigger_vks@[j],), false),
        decreases trigger_vks@.len() - i,
    {
        if is_physically_down(trigger_vks[i]) {
            return false;
        }
        i = i + 1;
    }
    let mut k: usize = 0;
    let ghost original = pressed@;
    while k < trigger_vks.len()
        invariant
            k <= trigger_vks@.len(),
            forall|v: u32|
                #[trigger] pressed@.contains(v) <==> (original.contains(v) && !(exists|j: int|
                    0 <= j < k && trigger_vks@[j] == v)),
        decreases trigger_vks@.len() - k,
    {
        pressed.remove(&trigger_vks[k]);
        k = k + 1;
    }
    assert forall|v: u32| #[trigger] pressed@.contains(v) <==> (original.contains(v)
        && !trigger_vks@.contains(v)) by {
        if trigger_vks@.contains(v) {
            let j = choose|j: int| 0 <= j < trigger_vks@.len() && trigger_vks@[j] == v;
            assert(0 <= j < k && trigger_vks@[j] == v);
        }
    };
    let signature = signature_for_vks(trigger_vks);
    latched.remove(&signature);
    true
}

/// The message with which a script reports that F12 stopped it.
pub const CANCELLED: &'static str = "脚本已被 F12 停止";

/// A playback error is shown unless it is the F12 cancellation.
pub fn should_show_playback_error(error: &str) -> (r: bool)
    ensures
        r == (error@ != CANCELLED@),
{
    let chars = str_chars(error);
    !chars_equal_str(chars.as_slice(), CANCELLED)
}

/// Start errors that are expected outcomes of a busy, stopping or stale
/// trigger and are not shown to the user.
pub open spec fn silent_start_error(code: Seq<char>) -> bool {
    code == "macro_busy"@ || code == "runtime_admission_busy"@ || code == "app_shutting_down"@
        || code == "playback_cancelled"@ || code == "emergency_stop_unavailable"@ || code
        == "macro_trigger_config_stale"@ || code == "macro_hold_released"@
}

/// Whether a start error code is shown to the user.
pub fn should_show_start_error(code: &str) -> (r: bool)
    ensures
        r == !silent_start_error(code@),
{
    let c = str_chars(code);
    let s = c.as_slice();
    !(chars_equal_str(s, "macro_busy") || chars_equal_str(s, "runtime_admission_busy")
        || chars_equal_str(s, "app_shutting_down") || chars_equal_str(s, "playback_cancelled")
        || chars_equal_str(s, "emergency_stop_unavailable") || chars_equal_str(
        s,
        "macro_trigger_config_stale",
    ) || chars_equal_str(s, "macro_hold_released"))
}

/// The program the built-in clicker always runs: left down, 25 ms, left up,
/// 75 ms, at the current cursor position.
pub open spec fn clicker_steps_ok(steps: Seq<MacroStep>) -> bool {
    steps.len() == 4 && steps[0] == MacroStep::MouseButton {
        button: MouseButton::Left,
        action: KeyAction::Down,
        x: 0,
        y: 0,
    } && steps[1] == MacroStep::Delay { duration_ms: 25, duration_max_ms: None } && steps[2]
        == MacroStep::MouseButton { button: MouseButton::Left, action: KeyAction::Up, x: 0, y: 0 }
        && steps[3] == MacroStep::Delay { duration_ms: 75, duration_max_ms: None }
}

/// Makes a rule playable: the clicker is forced to Toggle mode and its fixed
/// click program, so a partial recording can never turn it into a no-op;
/// every other rule is returned unchanged.
pub fn normalize_playback_rule(macro_rule: MacroRule) -> (r: MacroRule)
    ensures
        trimmed(macro_rule.name@) != clicker_name() ==> r == macro_rule,
        trimmed(macro_rule.name@) == clicker_name() ==> {
            &&& r.mode == MacroMode::Toggle
            &&& r.program matches AutomationProgram::Macro { steps } && clicker_steps_ok(steps@)
            &&& r.id == macro_rule.id
            &&& r.name == macro_rule.name
            &&& r.enabled == macro_rule.enabled
            &&& r.trigger_keys == macro_rule.trigger_keys
            &&& r.import_error == macro_rule.import_error
            &&& r.repeat_count == macro_rule.repeat_count
            &&& r.speed_bits == macro_rule.speed_bits
        },
{
    let mut rule = macro_rule;
    if name_is_clicker(&rule.name) {
        rule.mode = MacroMode::Toggle;
        let mut steps: Vec<MacroStep> = Vec::new();
        steps.push(
            MacroStep::MouseButton { button: MouseButton::Left, action: KeyAction::Down, x: 0, y: 0 },
        );
        steps.push(MacroStep::Delay { duration_ms: 25, duration_max_ms: None });
        steps.push(
            MacroStep::MouseButton { button: MouseButton::Left, action: KeyAction::Up, x: 0, y: 0 },
        );
        steps.push(MacroStep::Delay { duration_ms: 75, duration_max_ms: None });
        rule.program = AutomationProgram::Macro { steps };
    }
    rule
}

/// Two rules that agree on everything a native registration depends on:
/// id, enabled switch, whether the mode is Hold, whether the rule is the
/// clicker, whether it failed to import, and its trigger keys.
pub open spec fn same_registration(a: MacroRule, b: MacroRule) -> bool {
    &&& a.id@ == b.id@
    &&& a.enabled == b.enabled
    &&& (a.mode == MacroMode::Hold) == (b.mode == MacroMode::Hold)
    &&& spec_is_clicker(a) == spec_is_clicker(b)
    &&& (a.import_error is None) == (b.import_error is None)
    &&& a.trigger_keys@ == b.trigger_keys@
}

/// Script, speed, display and other edits that keep every rule's
/// registration properties never change the native registration plan.
pub proof fn lemma_plan_ignores_unrelated_edits(
    a: Seq<MacroRule>,
    b: Seq<MacroRule>,
    emergency: Option<u32>,
)
    requires
        a.len() == b.len(),
        forall|i: int| 0 <= i < a.len() ==> same_registration(#[trigger] a[i], b[i]),
    ensures
        spec_plan(a, emergency) == spec_plan(b, emergency),
    decreases a.len(),
{
    if a.len() > 0 {
        lemma_plan_ignores_unrelated_edits(a.drop_last(), b.drop_last(), emergency);
        assert(same_registration(a[a.len() - 1], b[b.len() - 1]));
        assert(plan_entry(a.last(), emergency) == plan_entry(b.last(), emergency));
    }
}

/// The ids of a registration map, each once.
fn registration_ids(registered: &HashMap<i32, String>) -> (r: Vec<i32>)
    ensures
        r@.to_set() == registered@.dom(),
        r@.no_duplicates(),
{
    let mut out: Vec<i32> = Vec::new();
    let ghost ids = IteratorSpec::remaining(&vstd::std_specs::hash::spec_keys_iter(registered)).unref();
    proof {
        vstd::std_specs::hash::axiom_spec_keys_iter(registered);
    }
    for id in it: registered.keys()
        invariant
            it.seq().map_values(|x: &i32| *x) == ids,
            out@ == ids.take(it.index() as int),
    {
        out.push(*id);
        assert(out@ =~= ids.take(it.index() as int + 1));
    }
    assert(out@ =~= ids);
    proof {
        let rem = IteratorSpec::remaining(&vstd::std_specs::hash::spec_keys_iter(registered));
        assert forall|i: int, j: int|
            0 <= i < ids.len() && 0 <= j < ids.len() && i != j implies ids[i] != ids[j] by {
            assert(rem[i] != rem[j]);
        };
    }
    out
}

/// Unregisters every native hotkey of the map. An id leaves the map only when
/// the system accepted its release, so a failed release stays for diagnosis
/// and a later retry. Returns whether the map is now empty.
pub fn retire_native_registration_map<U: Fn(i32) -> bool>(
    registered: &mut HashMap<i32, String>,
    unregister: U,
) -> (r: bool)
    requires
        forall|id: i32| #[trigger] unregister.requires((id,)),
    ensures
        final(registered)@.dom().subset_of(old(registered)@.dom()),
        forall|id: i32| #[trigger]
            final(registered)@.contains_key(id) ==> final(registered)@[id] == old(registered)@[id]
                && unregister.ensures((id,), false),
        forall|id: i32|
            #[trigger] old(registered)@.contains_key(id) && !final(registered)@.contains_key(id)
                ==> unregister.ensures((id,), true),
        r == final(registered)@.is_empty(),
{
    let ids = registration_ids(registered);
    let ghost start = registered@;
    let mut i: usize = 0;
    while i < ids.len()
        invariant
            ids@.to_set() == start.dom(),
            ids@.no_duplicates(),
            start == old(registered)@,
            i <= ids@.len(),
            registered@.dom().subset_of(start.dom()),
            forall|j: int| i <= j < ids@.len() ==> registered@.contains_key(#[trigger] ids@[j]),
            forall|id: i32| #[trigger]
                registered@.contains_key(id) ==> registered@[id] == start[id],
            forall|id: i32|
                #[trigger] registered@.contains_key(id) && (exists|j: int| 0 <= j < i && ids@[j] == id)
                    ==> unregister.ensures((id,), false),
            forall|id: i32|
                #[trigger] start.contains_key(id) && !registered@.contains_key(id) ==> unregister.ensures((id,), true),
            forall|id: i32| #[trigger] unregister.requires((id,)),
        decreases ids@.len() - i,
    {
        let id = ids[i];
        let released = unregister(id);
        if released {
            registered.remove(&id);
            proof {
                assert forall|j: int| i + 1 <= j < ids@.len() implies registered@.contains_key(
                    #[trigger] ids@[j],
                ) by {
                    assert(ids@[j] != ids@[i as int]);
                };
            }
        }
        proof {
            assert forall|k: i32|
                #[trigger] registered@.contains_key(k) && (exists|j: int| 0 <= j < i + 1 && ids@[j] == k)
                    implies unregister.ensures((k,), false) by {
                if k != id {
                    let j = choose|j: int| 0 <= j < i + 1 && ids@[j] == k;
                    assert(j != i);
                }
            };
        }
        i = i + 1;
    }
    proof {
        assert forall|k: i32| #[trigger] registered@.contains_key(k) implies unregister.ensures((k,), false) by {
            assert(ids@.to_set().contains(k));
            let j = choose|j: int| 0 <= j < ids@.len() && ids@[j] == k;
        };
    }
    registered.is_empty()
}

} // verus!

verus! {

/// Whether key `k` of rule `m` is a known key `vk` of an enabled rule.
pub open spec fn trigger_key_at(rules: Seq<MacroRule>, m: int, k: int, vk: u32) -> bool {
    &&& 0 <= m < rules.len()
    &&& rules[m].enabled
    &&& 0 <= k < rules[m].trigger_keys@.len()
    &&& spec_key_to_vk(rules[m].trigger_keys@[k]@) == Some(vk)
}

proof fn lemma_trigger_key_at(rules: Seq<MacroRule>, vk: u32)
    requires
        spec_is_trigger_key(rules, vk),
    ensures
        exists|m: int, k: int| #[trigger] trigger_key_at(rules, m, k, vk),
{
    let m = choose|m: int| 0 <= m < rules.len() && (#[trigger] rules[m]).enabled && keys_name_vk(rules[m].trigger_keys@, vk);
    let k = choose|k: int| 0 <= k < rules[m].trigger_keys@.len() && spec_key_to_vk(#[trigger] rules[m].trigger_keys@[k]@) == Some(vk);
    assert(trigger_key_at(rules, m, k, vk));
}

proof fn lemma_trigger_key_at_is_trigger(rules: Seq<MacroRule>, m: int, k: int, vk: u32)
    requires
        trigger_key_at(rules, m, k, vk),
    ensures
        spec_is_trigger_key(rules, vk),
{
    assert(spec_key_to_vk(rules[m].trigger_keys@[k]@) == Some(vk));
    assert(keys_name_vk(rules[m].trigger_keys@, vk));
    assert(rules[m].enabled);
}

/// Whether some trigger key of an enabled macro is down: by the physical
/// ledger (when `use_ledger`) or else by the asynchronous key state.
fn any_trigger_down<F: Fn(u32) -> bool>(
    config: &AppConfig,
    ledger: &HashSet<u32>,
    is_async_down: F,
    use_ledger: bool,
) -> (out: (bool, F))
    requires
        forall|vk: u32| #[trigger] is_async_down.requires((vk,)),
    ensures
        out.1 == is_async_down,
        out.0 ==> exists|vk: u32|
            #[trigger] spec_is_trigger_key(config.macros@, vk) && ((use_ledger && crate::ledger::ledger_holds(
                ledger@,
                vk,
            )) || is_async_down.ensures((vk,), true)),
        !out.0 ==> forall|vk: u32|
            #[trigger] spec_is_trigger_key(config.macros@, vk) ==> (use_ledger ==> !crate::ledger::ledger_holds(
                ledger@,
                vk,
            )) && is_async_down.ensures((vk,), false),
{
    let mut i: usize = 0;
    while i < config.macros.len()
        invariant
            i <= config.macros@.len(),
            forall|vk: u32| #[trigger] is_async_down.requires((vk,)),
            forall|m: int, k: int, vk: u32|
                #[trigger] trigger_key_at(config.macros@, m, k, vk) && m < i ==> (use_ledger
                    ==> !crate::ledger::ledger_holds(ledger@, vk)) && is_async_down.ensures((vk,), false),
        decreases config.macros@.len() - i,
    {
        let rule = &config.macros[i];
        if rule.enabled {
            let mut j: usize = 0;
            while j < rule.trigger_keys.len()
                invariant
                    j <= rule.trigger_keys@.len(),
                    i < config.macros@.len(),
                    *rule == config.macros@[i as int],
                    rule.enabled,
                    forall|vk: u32| #[trigger] is_async_down.requires((vk,)),
                    forall|m: int, k: int, vk: u32|
                        #[trigger] trigger_key_at(config.macros@, m, k, vk) && (m < i || (m == i && k < j))
                            ==> (use_ledger ==> !crate::ledger::ledger_holds(ledger@, vk))
                            && is_async_down.ensures((vk,), false),
                decreases rule.trigger_keys@.len() - j,
            {
                if let Some(vk) = key_to_vk(rule.trigger_keys[j].as_str()) {
                    proof {
                        assert(trigger_key_at(config.macros@, i as int, j as int, vk));
                        lemma_trigger_key_at_is_trigger(config.macros@, i as int, j as int, vk);
                    }
                    if use_ledger && crate::ledger::physical_ledger_contains_trigger(ledger, vk) {
                        return (true, is_async_down);
                    }
                    if is_async_down(vk) {
                        return (true, is_async_down);
                    }
                }
                j = j + 1;
            }
        }
        i = i + 1;
    }
    proof {
        assert forall|vk: u32| #[trigger] spec_is_trigger_key(config.macros@, vk) implies (use_ledger
            ==> !crate::ledger::ledger_holds(ledger@, vk)) && is_async_down.ensures(
            (vk,),
            false,
        ) by {
            lemma_trigger_key_at(config.macros@, vk);
            let (m, k) = choose|m: int, k: int| #[trigger] trigger_key_at(config.macros@, m, k, vk);
            assert(trigger_key_at(config.macros@, m, k, vk));
            assert(m < i);
        };
    }
    (false, is_async_down)
}

/// Re-arms the macro triggers after a stop that required it: once no
/// trigger key of an enabled macro is down, by the physical ledger or by the
/// asynchronous key state (sampled a second time just before clearing), the
/// trigger keys leave the logical pressed set and the macro latches are
/// dropped. Returns false and changes nothing while any of them is down.
pub fn rearm_released_triggers<F: Fn(u32) -> bool>(
    pressed: &mut HashSet<u32>,
    latched: &mut HashSet<String>,
    config: &AppConfig,
    ledger: &HashSet<u32>,
    is_async_down: F,
) -> (r: bool)
    requires
        forall|vk: u32| #[trigger] is_async_down.requires((vk,)),
    ensures
        !r ==> final(pressed)@ == old(pressed)@ && final(latched)@ == old(latched)@,
        r ==> final(latched)@ == old(latched)@.filter(|s: String| !is_macro_latch(s@)),
        r ==> final(latched)@ == old(latched)@.filter(|s: String| !is_macro_latch(s@)),
        !r ==> exists|vk: u32|
            #[trigger] spec_is_trigger_key(config.macros@, vk) && (crate::ledger::ledger_holds(ledger@, vk)
                || is_async_down.ensures((vk,), true)),
        r ==> forall|vk: u32|
            #[trigger] spec_is_trigger_key(config.macros@, vk) ==> !crate::ledger::ledger_holds(ledger@, vk)
                && is_async_down.ensures((vk,), false),
        r ==> forall|v: u32|
            #[trigger] final(pressed)@.contains(v) <==> (old(pressed)@.contains(v)
                && !spec_is_trigger_key(config.macros@, v)),
{
    let (down, is_async_down) = any_trigger_down(config, ledger, is_async_down, true);
    if down {
        return false;
    }
    let (down_again, is_async_down) = any_trigger_down(config, ledger, is_async_down, false);
    if down_again {
        return false;
    }
    let ghost original = pressed@;
    let mut i: usize = 0;
    while i < config.macros.len()
        invariant
            i <= config.macros@.len(),
            forall|v: u32| #[trigger] pressed@.contains(v) ==> original.contains(v),
            forall|v: u32|
                original.contains(v) && !spec_is_trigger_key(config.macros@, v) ==> #[trigger] pressed@.contains(v),
            forall|m: int, k: int, vk: u32|
                #[trigger] trigger_key_at(config.macros@, m, k, vk) && m < i ==> !pressed@.contains(vk),
        decreases config.macros@.len() - i,
    {
        let rule = &config.macros[i];
        if rule.enabled {
            let mut j: usize = 0;
            while j < rule.trigger_keys.len()
                invariant
                    j <= rule.trigger_keys@.len(),
                    i < config.macros@.len(),
                    *rule == config.macros@[i as int],
                    rule.enabled,
                    forall|v: u32| #[trigger] pressed@.contains(v) ==> original.contains(v),
                    forall|v: u32|
                        original.contains(v) && !spec_is_trigger_key(config.macros@, v) ==> #[trigger] pressed@.contains(v),
                    forall|m: int, k: int, vk: u32|
                        #[trigger] trigger_key_at(config.macros@, m, k, vk) && (m < i || (m == i && k < j))
                            ==> !pressed@.contains(vk),
                decreases rule.trigger_keys@.len() - j,
            {
                if let Some(vk) = key_to_vk(rule.trigger_keys[j].as_str()) {
                    proof {
                        assert(trigger_key_at(config.macros@, i as int, j as int, vk));
                        lemma_trigger_key_at_is_trigger(config.macros@, i as int, j as int, vk);
                    }
                    pressed.remove(&vk);
                }
                j = j + 1;
            }
        }
        i = i + 1;
    }
    proof {
        assert forall|v: u32| #[trigger] pressed@.contains(v) <==> (original.contains(v)
            && !spec_is_trigger_key(config.macros@, v)) by {
            if spec_is_trigger_key(config.macros@, v) {
                lemma_trigger_key_at(config.macros@, v);
                let (m, k) = choose|m: int, k: int| #[trigger] trigger_key_at(config.macros@, m, k, v);
                assert(trigger_key_at(config.macros@, m, k, v));
            }
        };
    }
    drop_macro_latches(latched);
    true
}

/// A macro latch: its signature starts with `macro+`.
pub open spec fn is_macro_latch(signature: Seq<char>) -> bool {
    signature.len() >= 6 && signature.subrange(0, 6) == seq!['m', 'a', 'c', 'r', 'o', '+']
}

/// Whether a latch survives a re-arm: launch latches do, macro latches do
/// not.
pub fn keeps_latch_on_rearm(signature: &String) -> (r: bool)
    ensures
        r == !is_macro_latch(signature@),
{
    let chars = crate::text::str_chars(signature.as_str());
    if chars.len() < 6 {
        return true;
    }
    let prefix = ['m', 'a', 'c', 'r', 'o', '+'];
    let mut i: usize = 0;
    while i < 6
        invariant
            i <= 6,
            chars@.len() >= 6,
            chars@ == signature@,
            prefix@ == seq!['m', 'a', 'c', 'r', 'o', '+'],
            forall|j: int| 0 <= j < i ==> chars@[j] == prefix@[j],
        decreases 6 - i,
    {
        if chars[i] != prefix[i] {
            assert(signature@.subrange(0, 6)[i as int] != seq!['m', 'a', 'c', 'r', 'o', '+'][i as int]);
            return true;
        }
        i = i + 1;
    }
    assert(signature@.subrange(0, 6) =~= seq!['m', 'a', 'c', 'r', 'o', '+']);
    false
}

/// Drops the macro latches, keeping those of launch hotkeys.
///
/// Trusted: `HashSet::retain` with `keeps_latch_on_rearm` as the predicate;
/// `retain` keeps exactly the elements for which the predicate holds.
#[verifier::external_body]
fn drop_macro_latches(latched: &mut HashSet<String>)
    ensures
        final(latched)@ == old(latched)@.filter(|s: String| !is_macro_latch(s@)),
{
    latched.retain(|signature| keeps_latch_on_rearm(signature));
}

} // verus!

verus! {

/// What a native hotkey message leads to.
#[derive(Debug, Clone, Copy, PartialEq, Eq, Structural)]
pub enum NativeHotkeyDispatch {
    /// Nothing: the message is stale or the service is not taking triggers.
    Drop,
    /// The rule at this index is not restarted while a macro runs; the
    /// refusal is recorded.
    IgnoredWhileRunning { rule: usize },
    /// The running macro is stopped.
    Stop,
    /// The rule at this index is handed to the trigger worker.
    Submit { rule: usize },
}

/// The service state that a native hotkey message is decided against.
#[derive(Debug, Clone, Copy, PartialEq, Eq)]
pub struct NativeHotkeyGate {
    pub recording: bool,
    pub rearm_required: bool,
    pub refresh_pending: bool,
    pub playback_running: bool,
}

/// The index of the first enabled rule with the id `id`.
pub open spec fn first_enabled_with_id(rules: Seq<MacroRule>, id: Seq<char>) -> Option<int>
    decreases rules.len(),
{
    if rules.len() == 0 {
        None
    } else {
        match first_enabled_with_id(rules.drop_last(), id) {
            Some(i) => Some(i),
            None => if rules.last().enabled && rules.last().id@ == id {
                Some(rules.len() - 1)
            } else {
                None
            },
        }
    }
}

/// The index of the first enabled clicker rule.
pub open spec fn first_enabled_clicker(rules: Seq<MacroRule>) -> Option<int>
    decreases rules.len(),
{
    if rules.len() == 0 {
        None
    } else {
        match first_enabled_clicker(rules.drop_last()) {
            Some(i) => Some(i),
            None => if rules.last().enabled && spec_is_clicker(rules.last()) {
                Some(rules.len() - 1)
            } else {
                None
            },
        }
    }
}

/// A native macro hotkey: dropped while recording, while triggers wait to be
/// re-armed or registrations to be refreshed, when the id is not registered,
/// when the service is disabled or its rule is gone; otherwise its mode and
/// whether a macro runs decide.
pub open spec fn native_macro_dispatch(
    gate: NativeHotkeyGate,
    registered: Map<i32, String>,
    hotkey_id: i32,
    config: AppConfig,
) -> NativeHotkeyDispatch {
    if gate.recording || gate.rearm_required || gate.refresh_pending || !registered.contains_key(
        hotkey_id,
    ) || !config.global_enabled {
        NativeHotkeyDispatch::Drop
    } else {
        match first_enabled_with_id(config.macros@, registered[hotkey_id]@) {
            None => NativeHotkeyDispatch::Drop,
            Some(i) => match spec_hotkey_action(
                spec_effective_mode(config.macros@[i]),
                gate.playback_running,
            ) {
                HotkeyPlaybackAction::Ignore => NativeHotkeyDispatch::IgnoredWhileRunning {
                    rule: i as usize,
                },
                HotkeyPlaybackAction::StopImmediate => NativeHotkeyDispatch::Stop,
                _ => NativeHotkeyDispatch::Submit { rule: i as usize },
            },
        }
    }
}

/// The native clicker hotkey toggles the clicker: it stops a running macro
/// and otherwise starts the first enabled clicker rule.
pub open spec fn native_clicker_dispatch(gate: NativeHotkeyGate, config: AppConfig) -> NativeHotkeyDispatch {
    if gate.recording || gate.rearm_required || gate.refresh_pending || !config.global_enabled {
        NativeHotkeyDispatch::Drop
    } else {
        match first_enabled_clicker(config.macros@) {
            None => NativeHotkeyDispatch::Drop,
            Some(i) => match spec_hotkey_action(MacroMode::Toggle, gate.playback_running) {
                HotkeyPlaybackAction::StopImmediate => NativeHotkeyDispatch::Stop,
                HotkeyPlaybackAction::StartAfterRelease => NativeHotkeyDispatch::Submit {
                    rule: i as usize,
                },
                _ => NativeHotkeyDispatch::Drop,
            },
        }
    }
}

proof fn lemma_first_enabled_with_id_found(rules: Seq<MacroRule>, id: Seq<char>, n: int)
    requires
        0 < n <= rules.len(),
        first_enabled_with_id(rules.subrange(0, n - 1), id) is None,
        rules[n - 1].enabled && rules[n - 1].id@ == id,
    ensures
        first_enabled_with_id(rules, id) == Some(n - 1),
    decreases rules.len() - n,
{
    assert(rules.subrange(0, n).drop_last() =~= rules.subrange(0, n - 1));
    if n < rules.len() {
        lemma_first_enabled_with_id_extends(rules, id, n);
    } else {
        assert(rules.subrange(0, n) =~= rules);
    }
}

proof fn lemma_first_enabled_with_id_extends(rules: Seq<MacroRule>, id: Seq<char>, n: int)
    requires
        0 < n <= rules.len(),
        first_enabled_with_id(rules.subrange(0, n), id) is Some,
    ensures
        first_enabled_with_id(rules, id) == first_enabled_with_id(rules.subrange(0, n), id),
    decreases rules.len() - n,
{
    if n < rules.len() {
        assert(rules.subrange(0, n + 1).drop_last() =~= rules.subrange(0, n));
        lemma_first_enabled_with_id_extends(rules, id, n + 1);
    } else {
        assert(rules.subrange(0, n) =~= rules);
    }
}

proof fn lemma_first_enabled_with_id_bounds(rules: Seq<MacroRule>, id: Seq<char>)
    ensures
        first_enabled_with_id(rules, id) matches Some(i) ==> 0 <= i < rules.len() && rules[i].enabled
            && rules[i].id@ == id,
    decreases rules.len(),
{
    if rules.len() > 0 {
        lemma_first_enabled_with_id_bounds(rules.drop_last(), id);
    }
}

fn find_enabled_with_id(rules: &[MacroRule], id: &String) -> (r: Option<usize>)
    ensures
        match first_enabled_with_id(rules@, id@) {
            Some(i) => r is Some && r->0 as int == i,
            None => r is None,
        },
        r matches Some(i) ==> i < rules@.len(),
{
    proof {
        lemma_first_enabled_with_id_bounds(rules@, id@);
    }
    let mut i: usize = 0;
    while i < rules.len()
        invariant
            i <= rules@.len(),
            first_enabled_with_id(rules@.subrange(0, i as int), id@) is None,
        decreases rules@.len() - i,
    {
        proof {
            assert(rules@.subrange(0, i as int + 1).drop_last() =~= rules@.subrange(0, i as int));
        }
        if rules[i].enabled && rules[i].id == *id {
            proof {
                lemma_first_enabled_with_id_found(rules@, id@, i as int + 1);
            }
            return Some(i);
        }
        i = i + 1;
    }
    assert(rules@.subrange(0, i as int) =~= rules@);
    None
}

proof fn lemma_first_enabled_clicker_found(rules: Seq<MacroRule>, n: int)
    requires
        0 < n <= rules.len(),
        first_enabled_clicker(rules.subrange(0, n - 1)) is None,
        rules[n - 1].enabled && spec_is_clicker(rules[n - 1]),
    ensures
        first_enabled_clicker(rules) == Some(n - 1),
    decreases rules.len() - n,
{
    assert(rules.subrange(0, n).drop_last() =~= rules.subrange(0, n - 1));
    if n < rules.len() {
        lemma_first_enabled_clicker_extends(rules, n);
    } else {
        assert(rules.subrange(0, n) =~= rules);
    }
}

proof fn lemma_first_enabled_clicker_extends(rules: Seq<MacroRule>, n: int)
    requires
        0 < n <= rules.len(),
        first_enabled_clicker(rules.subrange(0, n)) is Some,
    ensures
        first_enabled_clicker(rules) == first_enabled_clicker(rules.subrange(0, n)),
    decreases rules.len() - n,
{
    if n < rules.len() {
        assert(rules.subrange(0, n + 1).drop_last() =~= rules.subrange(0, n));
        lemma_first_enabled_clicker_extends(rules, n + 1);
    } else {
        assert(rules.subrange(0, n) =~= rules);
    }
}

fn find_enabled_clicker(rules: &[MacroRule]) -> (r: Option<usize>)
    ensures
        match first_enabled_clicker(rules@) {
            Some(i) => r == Some(i as usize),
            None => r is None,
        },
{
    let mut i: usize = 0;
    while i < rules.len()
        invariant
            i <= rules@.len(),
            first_enabled_clicker(rules@.subrange(0, i as int)) is None,
        decreases rules@.len() - i,
    {
        proof {
            assert(rules@.subrange(0, i as int + 1).drop_last() =~= rules@.subrange(0, i as int));
        }
        if rules[i].enabled && is_native_clicker_rule(&rules[i]) {
            proof {
                lemma_first_enabled_clicker_found(rules@, i as int + 1);
            }
            return Some(i);
        }
        i = i + 1;
    }
    assert(rules@.subrange(0, i as int) =~= rules@);
    None
}

/// Decides a native macro hotkey message.
pub fn dispatch_native_macro_hotkey(
    gate: NativeHotkeyGate,
    registered: &HashMap<i32, String>,
    hotkey_id: i32,
    config: &AppConfig,
) -> (r: NativeHotkeyDispatch)
    ensures
        r == native_macro_dispatch(gate, registered@, hotkey_id, *config),
{
    if gate.recording || gate.rearm_required || gate.refresh_pending {
        return NativeHotkeyDispatch::Drop;
    }
    let macro_id = match registered.get(&hotkey_id) {
        Some(id) => id,
        None => {
            return NativeHotkeyDispatch::Drop;
        },
    };
    if !config.global_enabled {
        return NativeHotkeyDispatch::Drop;
    }
    let index = match find_enabled_with_id(config.macros.as_slice(), macro_id) {
        Some(i) => i,
        None => {
            return NativeHotkeyDispatch::Drop;
        },
    };
    let rule = &config.macros[index];
    match hotkey_playback_action(effective_hotkey_mode(rule), gate.playback_running) {
        HotkeyPlaybackAction::Ignore => NativeHotkeyDispatch::IgnoredWhileRunning { rule: index },
        HotkeyPlaybackAction::StopImmediate => NativeHotkeyDispatch::Stop,
        HotkeyPlaybackAction::StartAfterRelease => NativeHotkeyDispatch::Submit { rule: index },
        HotkeyPlaybackAction::StartImmediate => NativeHotkeyDispatch::Submit { rule: index },
    }
}

/// Decides a native clicker hotkey message.
pub fn dispatch_native_clicker_hotkey(gate: NativeHotkeyGate, config: &AppConfig) -> (r:
    NativeHotkeyDispatch)
    ensures
        r == native_clicker_dispatch(gate, *config),
{
    if gate.recording || gate.rearm_required || gate.refresh_pending || !config.global_enabled {
        return NativeHotkeyDispatch::Drop;
    }
    let index = match find_enabled_clicker(config.macros.as_slice()) {
        Some(i) => i,
        None => {
            return NativeHotkeyDispatch::Drop;
        },
    };
    match hotkey_playback_action(MacroMode::Toggle, gate.playback_running) {
        HotkeyPlaybackAction::StopImmediate => NativeHotkeyDispatch::Stop,
        HotkeyPlaybackAction::StartAfterRelease => NativeHotkeyDispatch::Submit { rule: index },
        HotkeyPlaybackAction::StartImmediate => NativeHotkeyDispatch::Drop,
        HotkeyPlaybackAction::Ignore => NativeHotkeyDispatch::Drop,
    }
}

} // verus!

verus! {

/// A fresh key-down that completes the trigger of an enabled Toggle rule
/// (the clicker counts as one) stops a running macro at once.
pub open spec fn toggle_stop_requested(config: AppConfig, vk: u32, was_pressed: bool, pressed: Set<u32>) -> bool {
    !was_pressed && exists|i: int|
        0 <= i < config.macros@.len() && (#[trigger] config.macros@[i]).enabled && spec_effective_mode(
            config.macros@[i],
        ) == MacroMode::Toggle && spec_rule_matches(config.macros@[i], vk, pressed)
}

/// Whether a key-down asks for the running Toggle macro to stop.
pub fn toggle_stop_requested_by_key_down(
    config: &AppConfig,
    vk: u32,
    was_pressed: bool,
    pressed: &HashSet<u32>,
) -> (r: bool)
    ensures
        r == toggle_stop_requested(*config, vk, was_pressed, pressed@),
{
    if was_pressed {
        return false;
    }
    let mut i: usize = 0;
    while i < config.macros.len()
        invariant
            i <= config.macros@.len(),
            !was_pressed,
            forall|j: int|
                0 <= j < i ==> !((#[trigger] config.macros@[j]).enabled && spec_effective_mode(
                    config.macros@[j],
                ) == MacroMode::Toggle && spec_rule_matches(config.macros@[j], vk, pressed@)),
        decreases config.macros@.len() - i,
    {
        let rule = &config.macros[i];
        if rule.enabled && effective_hotkey_mode(rule) == MacroMode::Toggle && macro_rule_matches_key_down(
            rule,
            vk,
            pressed,
        ) {
            return true;
        }
        i = i + 1;
    }
    false
}

/// Whether the keyboard path leaves rule `rule` to a native registration:
/// the clicker while its native hotkey is registered, or a rule whose id is
/// registered.
pub open spec fn handled_natively(rule: MacroRule, registered: Map<i32, String>, clicker_registered: bool) -> bool {
    (clicker_registered && spec_is_clicker(rule)) || name_registered(registered, rule.id@)
}

/// Some registration is for the macro with id `id`.
pub open spec fn name_registered(registered: Map<i32, String>, id: Seq<char>) -> bool {
    exists|hotkey: i32| registered.contains_key(hotkey) && #[trigger] registered[hotkey]@ == id
}

/// `id` is among `names`.
pub open spec fn name_listed_in(names: Seq<String>, id: Seq<char>) -> bool {
    exists|k: int| 0 <= k < names.len() && #[trigger] names[k]@ == id
}

/// A rule that the keyboard path starts for this key-down: enabled, not
/// handled natively, and its trigger completed by the key.
pub open spec fn fallback_candidate(
    rule: MacroRule,
    registered: Map<i32, String>,
    clicker_registered: bool,
    vk: u32,
    pressed: Set<u32>,
) -> bool {
    rule.enabled && !handled_natively(rule, registered, clicker_registered) && spec_rule_matches(
        rule,
        vk,
        pressed,
    )
}

fn registered_ids(registered: &HashMap<i32, String>) -> (r: Vec<String>)
    ensures
        forall|s: Seq<char>| #[trigger] name_listed_in(r@, s) <==> name_registered(registered@, s),
{
    let ids = registration_ids(registered);
    let mut out: Vec<String> = Vec::new();
    let mut k: usize = 0;
    while k < ids.len()
        invariant
            k <= ids@.len(),
            ids@.to_set() == registered@.dom(),
            out@.len() == k,
            forall|i: int| 0 <= i < k ==> registered@.contains_key(ids@[i]) && (#[trigger] out@[i])@
                == registered@[ids@[i]]@,
        decreases ids@.len() - k,
    {
        let id = ids[k];
        proof {
            assert(ids@.to_set().contains(id));
        }
        match registered.get(&id) {
            Some(name) => {
                out.push(name.clone());
            },
            None => {
                return out;
            },
        }
        k = k + 1;
    }
    proof {
        assert forall|s: Seq<char>| #[trigger] name_listed_in(out@, s) <==> name_registered(registered@, s) by {
            if exists|id: i32| registered@.contains_key(id) && #[trigger] registered@[id]@ == s {
                let id = choose|id: i32| registered@.contains_key(id) && #[trigger] registered@[id]@ == s;
                assert(ids@.to_set().contains(id));
                let i = choose|i: int| 0 <= i < ids@.len() && ids@[i] == id;
                assert(out@[i]@ == s);
            }
            if exists|i: int| 0 <= i < out@.len() && #[trigger] out@[i]@ == s {
                let i = choose|i: int| 0 <= i < out@.len() && #[trigger] out@[i]@ == s;
                assert(registered@.contains_key(ids@[i]) && registered@[ids@[i]]@ == s);
            }
        };
    }
    out
}

/// The first rule at or after `from` that the keyboard path would start for
/// this key-down; the caller moves past a rule whose latch is already held.
pub fn next_fallback_candidate(
    config: &AppConfig,
    registered: &HashMap<i32, String>,
    clicker_registered: bool,
    vk: u32,
    pressed: &HashSet<u32>,
    from: usize,
) -> (r: Option<usize>)
    ensures
        match r {
            Some(i) => from <= i < config.macros@.len() && fallback_candidate(
                config.macros@[i as int],
                registered@,
                clicker_registered,
                vk,
                pressed@,
            ) && forall|j: int|
                from <= j < i ==> !fallback_candidate(
                    #[trigger] config.macros@[j],
                    registered@,
                    clicker_registered,
                    vk,
                    pressed@,
                ),
            None => forall|j: int|
                from <= j < config.macros@.len() ==> !fallback_candidate(
                    #[trigger] config.macros@[j],
                    registered@,
                    clicker_registered,
                    vk,
                    pressed@,
                ),
        },
{
    if from >= config.macros.len() {
        return None;
    }
    let names = registered_ids(registered);
    let mut i: usize = from;
    while i < config.macros.len()
        invariant
            from <= i <= config.macros@.len(),
            forall|s: Seq<char>| #[trigger] name_listed_in(names@, s) <==> name_registered(registered@, s),
            forall|j: int|
                from <= j < i ==> !fallback_candidate(
                    #[trigger] config.macros@[j],
                    registered@,
                    clicker_registered,
                    vk,
                    pressed@,
                ),
        decreases config.macros@.len() - i,
    {
        let rule = &config.macros[i];
        if rule.enabled && !(clicker_registered && is_native_clicker_rule(rule)) && !name_listed(
            names.as_slice(),
            &rule.id,
        ) && macro_rule_matches_key_down(rule, vk, pressed) {
            assert(!name_listed_in(names@, rule.id@));
            assert(!name_registered(registered@, rule.id@));
            return Some(i);
        }
        i = i + 1;
    }
    None
}

fn name_listed(names: &[String], id: &String) -> (r: bool)
    ensures
        r == name_listed_in(names@, id@),
{
    let mut k: usize = 0;
    while k < names.len()
        invariant
            k <= names@.len(),
            forall|j: int| 0 <= j < k ==> (#[trigger] names@[j])@ != id@,
        decreases names@.len() - k,
    {
        if names[k] == *id {
            return true;
        }
        k = k + 1;
    }
    false
}

} // verus!

verus! {

/// The first id given to a native macro hotkey.
pub const NATIVE_MACRO_HOTKEY_ID_START: i32 = 0x5000;

/// Native hotkey ids of one service session: each is handed out once, from
/// 0x5000 up to 0x7fff, and none after that.
#[derive(Debug, Clone, Copy, PartialEq, Eq)]
pub struct NativeHotkeyIds {
    /// The next id to hand out; past 0x7fff when exhausted.
    pub next: u64,
}

impl NativeHotkeyIds {
    /// A fresh session starting at 0x5000.
    pub fn new() -> (r: Self)
        ensures
            r.next == 0x5000,
    {
        NativeHotkeyIds { next: 0x5000 }
    }

    /// Hands out the next id, or `None` once the ids are used up; an old
    /// hotkey message can never resolve to a newer macro.
    pub fn allocate(&mut self) -> (r: Option<i32>)
        ensures
            old(self).next <= 0x7fff ==> r == Some(old(self).next as i32) && final(self).next == old(
                self,
            ).next + 1,
            old(self).next > 0x7fff ==> r is None && final(self).next == old(self).next,
    {
        if self.next <= 0x7fff {
            let id = self.next as i32;
            self.next = self.next + 1;
            Some(id)
        } else {
            None
        }
    }
}

} // verus!
