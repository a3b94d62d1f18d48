//! Background keyboard features of the hook: key remaps, launch hotkeys and
//! text expansion, and the typed-text buffer that text expansion matches.

use std::collections::HashSet;
use vstd::prelude::*;
use crate::config::{HotkeyRule, TextExpansionRule};
use crate::keys::{is_keyboard_modifier, is_text_modifier, key_to_vk, spec_is_shift, spec_is_text_modifier, spec_key_to_vk};
use crate::ledger::set_keys;
use crate::native::{joined_codes, spec_trigger_vks};
use crate::text::{ascii_lower_seq, chars_equal, is_white_space, is_whitespace_char, str_chars, to_ascii_lower};

verus! {

broadcast use vstd::std_specs::hash::group_hash_axioms;

/// How many typed characters the expansion buffer keeps.
pub const TEXT_BUFFER_CHARS: usize = 64;

/// The largest replacement, in UTF-8 bytes, that a background expansion may
/// type.
pub const MAX_REPLACEMENT_BYTES: usize = 16384;

/// A remap rule for `vk`: enabled, of kind `remap`, with the single trigger
/// key `vk`.
pub open spec fn remap_rule_for(rule: HotkeyRule, vk: u32) -> bool {
    rule.enabled && rule.action.action_type@ == "remap"@ && rule.trigger_keys@.len() == 1
        && spec_key_to_vk(rule.trigger_keys@[0]@) == Some(vk)
}

/// The index of the first remap rule for `vk`.
pub open spec fn first_remap(rules: Seq<HotkeyRule>, vk: u32) -> Option<int>
    decreases rules.len(),
{
    if rules.len() == 0 {
        None
    } else {
        match first_remap(rules.drop_last(), vk) {
            Some(i) => Some(i),
            None => if remap_rule_for(rules.last(), vk) {
                Some(rules.len() - 1)
            } else {
                None
            },
        }
    }
}

/// The key that the first remap rule for `vk` sends instead, if that rule's
/// target is a known key; `None` when no rule remaps `vk` or the first one
/// names an unknown target.
pub fn remap_target(rules: &[HotkeyRule], vk: u32) -> (r: Option<u32>)
    ensures
        r == (match first_remap(rules@, vk) {
            Some(i) => spec_key_to_vk(rules@[i].action.target@),
            None => None,
        }),
{
    let mut i: usize = 0;
    while i < rules.len()
        invariant
            i <= rules@.len(),
            first_remap(rules@.subrange(0, i as int), vk) is None,
        decreases rules@.len() - i,
    {
        let rule = &rules[i];
        proof {
            assert(rules@.subrange(0, i as int + 1).drop_last() =~= rules@.subrange(0, i as int));
        }
        if rule.enabled && chars_equal(str_chars(rule.action.action_type.as_str()).as_slice(), str_chars("remap").as_slice())
            && rule.trigger_keys.len() == 1 && key_to_vk(rule.trigger_keys[0].as_str()) == Some(vk) {
            proof {
                lemma_first_remap_prefix(rules@, vk, i as int + 1);
            }
            return key_to_vk(rule.action.target.as_str());
        }
        i = i + 1;
    }
    assert(rules@.subrange(0, i as int) =~= rules@);
    None
}

proof fn lemma_first_remap_prefix(rules: Seq<HotkeyRule>, vk: u32, n: int)
    requires
        0 < n <= rules.len(),
        first_remap(rules.subrange(0, n - 1), vk) is None,
        remap_rule_for(rules[n - 1], vk),
    ensures
        first_remap(rules, vk) == Some(n - 1),
    decreases rules.len() - n,
{
    assert(rules.subrange(0, n).drop_last() =~= rules.subrange(0, n - 1));
    if n < rules.len() {
        lemma_first_remap_extends(rules, vk, n);
    } else {
        assert(rules.subrange(0, n) =~= rules);
    }
}

proof fn lemma_first_remap_extends(rules: Seq<HotkeyRule>, vk: u32, n: int)
    requires
        0 < n <= rules.len(),
        first_remap(rules.subrange(0, n), vk) is Some,
    ensures
        first_remap(rules, vk) == first_remap(rules.subrange(0, n), vk),
    decreases rules.len() - n,
{
    if n < rules.len() {
        assert(rules.subrange(0, n + 1).drop_last() =~= rules.subrange(0, n));
        lemma_first_remap_extends(rules, vk, n + 1);
    } else {
        assert(rules.subrange(0, n) =~= rules);
    }
}

/// A launch hotkey fires on a fresh press of one of its trigger keys while
/// all of them are held and every one is a known key; its latch signature is
/// the decimal codes of the keys joined by `+`.
pub open spec fn launch_fires(rule: HotkeyRule, vk: u32, was_pressed: bool, pressed: Set<u32>) -> Option<
    Seq<char>,
> {
    if rule.enabled && rule.action.action_type@ == "launch"@ && !was_pressed {
        match spec_trigger_vks(rule.trigger_keys@) {
            Some(vks) => if vks.contains(vk) && (forall|k: u32| vks.contains(k) ==> pressed.contains(k)) {
                Some(joined_codes(vks))
            } else {
                None
            },
            None => None,
        }
    } else {
        None
    }
}

/// The latch signature of a launch hotkey that this key-down fires, if it
/// fires.
pub fn launch_trigger_signature(
    rule: &HotkeyRule,
    vk: u32,
    was_pressed: bool,
    pressed: &HashSet<u32>,
) -> (r: Option<String>)
    ensures
        match launch_fires(*rule, vk, was_pressed, pressed@) {
            Some(sig) => r matches Some(s) && s@ == sig,
            None => r is None,
        },
{
    if !rule.enabled || was_pressed || !chars_equal(
        str_chars(rule.action.action_type.as_str()).as_slice(),
        str_chars("launch").as_slice(),
    ) {
        return None;
    }
    let vks = match crate::native::collect_trigger_vks(rule.trigger_keys.as_slice()) {
        Some(v) => v,
        None => {
            return None;
        },
    };
    let mut found = false;
    let mut all_held = true;
    let mut i: usize = 0;
    while i < vks.len()
        invariant
            i <= vks@.len(),
            found == (exists|j: int| 0 <= j < i && #[trigger] vks@[j] == vk),
            all_held == (forall|j: int| 0 <= j < i ==> pressed@.contains(#[trigger] vks@[j])),
        decreases vks@.len() - i,
    {
        let k = vks[i];
        if k == vk {
            found = true;
        }
        if !pressed.contains(&k) {
            all_held = false;
        }
        i = i + 1;
    }
    if !found || !all_held {
        proof {
            if !found {
                assert forall|j: int| 0 <= j < vks@.len() implies vks@[j] != vk by {};
            }
            if !all_held {
                let j = choose|j: int| 0 <= j < vks@.len() && !pressed@.contains(#[trigger] vks@[j]);
                assert(vks@.contains(vks@[j]));
            }
        }
        return None;
    }
    proof {
        assert forall|k: u32| vks@.contains(k) implies pressed@.contains(k) by {
            let j = choose|j: int| 0 <= j < vks@.len() && vks@[j] == k;
            assert(pressed@.contains(vks@[j]));
        };
    }
    Some(crate::native::codes_signature(vks.as_slice()))
}

/// The expansion buffer after typing `typed`: at most its last 64 characters.
pub open spec fn buffer_after(buffer: Seq<char>, typed: Seq<char>) -> Seq<char> {
    let all = buffer + typed;
    if all.len() > 64 {
        all.subrange(all.len() - 64, all.len() as int)
    } else {
        all
    }
}

/// Appends typed characters to the expansion buffer, keeping the last 64.
pub fn push_typed_text(buffer: &mut Vec<char>, typed: &str)
    ensures
        final(buffer)@ == buffer_after(old(buffer)@, typed@),
{
    let chars = str_chars(typed);
    let mut i: usize = 0;
    while i < chars.len()
        invariant
            i <= chars@.len(),
            buffer@ == old(buffer)@ + typed@.subrange(0, i as int),
            chars@ == typed@,
        decreases chars@.len() - i,
    {
        buffer.push(chars[i]);
        i = i + 1;
        assert(buffer@ =~= old(buffer)@ + typed@.subrange(0, i as int));
    }
    assert(typed@.subrange(0, i as int) =~= typed@);
    if buffer.len() > TEXT_BUFFER_CHARS {
        let drop = buffer.len() - TEXT_BUFFER_CHARS;
        let mut kept: Vec<char> = Vec::new();
        let mut j: usize = drop;
        while j < buffer.len()
            invariant
                drop <= j <= buffer@.len(),
                kept@ == buffer@.subrange(drop as int, j as int),
            decreases buffer@.len() - j,
        {
            kept.push(buffer[j]);
            j = j + 1;
            assert(kept@ =~= buffer@.subrange(drop as int, j as int));
        }
        *buffer = kept;
    }
}

/// What one key-down does to the expansion buffer.
#[derive(Debug, Clone, Copy, PartialEq, Eq, Structural)]
pub enum TypedKeyEffect {
    /// The buffer is emptied: a shortcut, a non-character key or whitespace.
    Clear,
    /// The buffer stays as it is: a bare modifier.
    Keep,
    /// The typed characters are appended.
    Append,
}

/// Whether Ctrl, Alt or a Windows key is among the pressed keys.
pub open spec fn text_modifier_held(pressed: Set<u32>) -> bool {
    exists|k: u32| pressed.contains(k) && spec_is_text_modifier(k)
}

/// The effect of a key-down of `vk` that types `character` (if it types
/// anything) while `pressed` is held: a shortcut chord or whitespace ends the
/// typed word, a key that types nothing ends it unless it is a modifier.
pub open spec fn typed_key_effect(pressed: Set<u32>, vk: u32, character: Option<Seq<char>>) -> TypedKeyEffect {
    if text_modifier_held(pressed) && !spec_is_text_modifier(vk) {
        TypedKeyEffect::Clear
    } else {
        match character {
            None => if spec_is_shift(vk) || spec_is_text_modifier(vk) {
                TypedKeyEffect::Keep
            } else {
                TypedKeyEffect::Clear
            },
            Some(c) => if exists|i: int| 0 <= i < c.len() && is_white_space(#[trigger] c[i]) {
                TypedKeyEffect::Clear
            } else {
                TypedKeyEffect::Append
            },
        }
    }
}

fn any_text_modifier(pressed: &HashSet<u32>) -> (r: bool)
    ensures
        r == text_modifier_held(pressed@),
{
    let keys = set_keys(pressed);
    let mut i: usize = 0;
    while i < keys.len()
        invariant
            i <= keys@.len(),
            forall|j: int| 0 <= j < i ==> !spec_is_text_modifier(#[trigger] keys@[j]),
            keys@.to_set() == pressed@,
        decreases keys@.len() - i,
    {
        if is_text_modifier(keys[i]) {
            proof {
                let k = keys@[i as int];
                assert(keys@.to_set().contains(k));
                assert(spec_is_text_modifier(k));
                assert(pressed@.contains(k));
            }
            return true;
        }
        i = i + 1;
    }
    proof {
        assert forall|k: u32| pressed@.contains(k) implies !spec_is_text_modifier(k) by {
            assert(keys@.to_set().contains(k));
            let j = choose|j: int| 0 <= j < keys@.len() && keys@[j] == k;
            assert(!spec_is_text_modifier(keys@[j]));
        };
    }
    false
}

fn has_whitespace(chars: &[char]) -> (r: bool)
    ensures
        r == (exists|i: int| 0 <= i < chars@.len() && is_white_space(#[trigger] chars@[i])),
{
    let mut i: usize = 0;
    while i < chars.len()
        invariant
            i <= chars@.len(),
            forall|j: int| 0 <= j < i ==> !is_white_space(#[trigger] chars@[j]),
        decreases chars@.len() - i,
    {
        if is_whitespace_char(chars[i]) {
            return true;
        }
        i = i + 1;
    }
    false
}

/// The characters a key-down typed, if it typed any.
pub open spec fn typed_chars(character: Option<&str>) -> Option<Seq<char>> {
    match character {
        Some(c) => Some(c@),
        None => None,
    }
}

/// Applies a key-down to the expansion buffer and reports what it did.
pub fn update_typed_buffer(
    buffer: &mut Vec<char>,
    pressed: &HashSet<u32>,
    vk: u32,
    character: Option<&str>,
) -> (r: TypedKeyEffect)
    ensures
        r == typed_key_effect(pressed@, vk, typed_chars(character)),
        r == TypedKeyEffect::Clear ==> final(buffer)@.len() == 0,
        r == TypedKeyEffect::Keep ==> final(buffer)@ == old(buffer)@,
        r == TypedKeyEffect::Append ==> (character matches Some(c) && final(buffer)@ == buffer_after(
            old(buffer)@,
            c@,
        )),
{
    if any_text_modifier(pressed) && !is_text_modifier(vk) {
        buffer.clear();
        return TypedKeyEffect::Clear;
    }
    match character {
        None => {
            if is_keyboard_modifier(vk) {
                TypedKeyEffect::Keep
            } else {
                buffer.clear();
                TypedKeyEffect::Clear
            }
        },
        Some(c) => {
            let chars = str_chars(c);
            assert(typed_chars(character) == Some(c@));
            if has_whitespace(chars.as_slice()) {
                assert(typed_key_effect(pressed@, vk, Some(c@)) == TypedKeyEffect::Clear);
                buffer.clear();
                TypedKeyEffect::Clear
            } else {
                assert(typed_key_effect(pressed@, vk, Some(c@)) == TypedKeyEffect::Append);
                push_typed_text(buffer, c);
                TypedKeyEffect::Append
            }
        },
    }
}

/// A text expansion rule matches when it is enabled and the buffer ends with
/// its abbreviation, compared with ASCII case folded unless the rule is case
/// sensitive.
pub open spec fn expansion_matches(rule: TextExpansionRule, buffer: Seq<char>) -> bool {
    let abbreviation = if rule.case_sensitive {
        rule.abbreviation@
    } else {
        ascii_lower_seq(rule.abbreviation@)
    };
    let current = if rule.case_sensitive {
        buffer
    } else {
        ascii_lower_seq(buffer)
    };
    rule.enabled && abbreviation.len() <= current.len() && current.subrange(
        current.len() - abbreviation.len(),
        current.len() as int,
    ) == abbreviation
}

/// The index of the first matching expansion rule.
pub open spec fn first_expansion(rules: Seq<TextExpansionRule>, buffer: Seq<char>) -> Option<int>
    decreases rules.len(),
{
    if rules.len() == 0 {
        None
    } else {
        match first_expansion(rules.drop_last(), buffer) {
            Some(i) => Some(i),
            None => if expansion_matches(rules.last(), buffer) {
                Some(rules.len() - 1)
            } else {
                None
            },
        }
    }
}

fn ends_with_chars(text: &[char], suffix: &[char]) -> (r: bool)
    ensures
        r == (suffix@.len() <= text@.len() && text@.subrange(
            text@.len() - suffix@.len(),
            text@.len() as int,
        ) == suffix@),
{
    if suffix.len() > text.len() {
        return false;
    }
    let offset = text.len() - suffix.len();
    let mut i: usize = 0;
    while i < suffix.len()
        invariant
            offset + suffix@.len() == text@.len(),
            offset + suffix.len() == text.len(),
            i <= suffix@.len(),
            forall|j: int| 0 <= j < i ==> text@[offset + j] == suffix@[j],
        decreases suffix@.len() - i,
    {
        if text[offset + i] != suffix[i] {
            assert(text@.subrange(offset as int, text@.len() as int)[i as int] != suffix@[i as int]);
            return false;
        }
        i = i + 1;
    }
    assert(text@.subrange(offset as int, text@.len() as int) =~= suffix@);
    true
}

fn rule_matches(rule: &TextExpansionRule, buffer: &[char]) -> (r: bool)
    ensures
        r == expansion_matches(*rule, buffer@),
{
    if !rule.enabled {
        return false;
    }
    let abbreviation = str_chars(rule.abbreviation.as_str());
    if rule.case_sensitive {
        ends_with_chars(buffer, abbreviation.as_slice())
    } else {
        let folded_abbreviation = to_ascii_lower(abbreviation.as_slice());
        let folded_buffer = to_ascii_lower(buffer);
        ends_with_chars(folded_buffer.as_slice(), folded_abbreviation.as_slice())
    }
}

/// The first text expansion whose abbreviation the buffer ends with.
pub fn find_text_expansion(rules: &[TextExpansionRule], buffer: &[char]) -> (r: Option<usize>)
    ensures
        match first_expansion(rules@, buffer@) {
            Some(i) => r == Some(i as usize),
            None => r is None,
        },
{
    let mut i: usize = 0;
    while i < rules.len()
        invariant
            i <= rules@.len(),
            first_expansion(rules@.subrange(0, i as int), buffer@) is None,
        decreases rules@.len() - i,
    {
        proof {
            assert(rules@.subrange(0, i as int + 1).drop_last() =~= rules@.subrange(0, i as int));
        }
        if rule_matches(&rules[i], buffer) {
            proof {
                lemma_first_expansion_prefix(rules@, buffer@, i as int + 1);
            }
            return Some(i);
        }
        i = i + 1;
    }
    assert(rules@.subrange(0, i as int) =~= rules@);
    None
}

proof fn lemma_first_expansion_prefix(rules: Seq<TextExpansionRule>, buffer: Seq<char>, n: int)
    requires
        0 < n <= rules.len(),
        first_expansion(rules.subrange(0, n - 1), buffer) is None,
        expansion_matches(rules[n - 1], buffer),
    ensures
        first_expansion(rules, buffer) == Some(n - 1),
    decreases rules.len() - n,
{
    assert(rules.subrange(0, n).drop_last() =~= rules.subrange(0, n - 1));
    if n < rules.len() {
        lemma_first_expansion_extends(rules, buffer, n);
    } else {
        assert(rules.subrange(0, n) =~= rules);
    }
}

proof fn lemma_first_expansion_extends(rules: Seq<TextExpansionRule>, buffer: Seq<char>, n: int)
    requires
        0 < n <= rules.len(),
        first_expansion(rules.subrange(0, n), buffer) is Some,
    ensures
        first_expansion(rules, buffer) == first_expansion(rules.subrange(0, n), buffer),
    decreases rules.len() - n,
{
    if n < rules.len() {
        assert(rules.subrange(0, n + 1).drop_last() =~= rules.subrange(0, n));
        lemma_first_expansion_extends(rules, buffer, n + 1);
    } else {
        assert(rules.subrange(0, n) =~= rules);
    }
}

/// Whether a replacement may be typed by the background expansion: at most
/// 16 KiB of UTF-8.
pub fn replacement_within_limit(rule: &TextExpansionRule) -> (r: bool)
    ensures
        r == (crate::diagnostics::utf8_len(rule.replacement@) <= 16384),
{
    let chars = str_chars(rule.replacement.as_str());
    crate::diagnostics::chars_bytes(&chars) <= 16384
}

} // verus!
