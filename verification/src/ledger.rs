//! The physical key ledger kept by the keyboard hook, and the key-set tests
//! that the hook applies to it.

use std::collections::HashSet;
use vstd::prelude::*;
use vstd::std_specs::iter::IteratorSpec;
use crate::keys::{canonical_vk, key_to_vk, spec_key_to_vk};
use crate::text::{parse_u32, parse_u32_spec, str_chars, string_from_chars};

verus! {

broadcast use vstd::std_specs::hash::group_hash_axioms;

/// The ledger after one hook event: injected events never change it, a key-down
/// adds the raw key and a key-up removes it.
pub open spec fn ledger_after(
    ledger: Set<u32>,
    raw_vk: u32,
    is_down: bool,
    is_up: bool,
    injected: bool,
) -> Set<u32> {
    if injected {
        ledger
    } else if is_down {
        ledger.insert(raw_vk)
    } else if is_up {
        ledger.remove(raw_vk)
    } else {
        ledger
    }
}

/// Records one physical key event in the ledger of held raw keys.
pub fn update_physical_pressed_ledger(
    ledger: &mut HashSet<u32>,
    raw_vk: u32,
    is_down: bool,
    is_up: bool,
    injected: bool,
)
    ensures
        final(ledger)@ == ledger_after(old(ledger)@, raw_vk, is_down, is_up, injected),
{
    if injected {
        return;
    }
    if is_down {
        ledger.insert(raw_vk);
    } else if is_up {
        ledger.remove(&raw_vk);
    }
}

/// A trigger key is physically held when a held raw key folds to it; a trigger
/// written as a side-specific key needs exactly that key.
pub open spec fn ledger_holds(ledger: Set<u32>, trigger_vk: u32) -> bool {
    if canonical_vk(trigger_vk) == trigger_vk {
        exists|raw: u32| ledger.contains(raw) && canonical_vk(raw) == trigger_vk
    } else {
        ledger.contains(trigger_vk)
    }
}

/// Whether the ledger holds a key that counts as the given trigger key.
pub fn physical_ledger_contains_trigger(ledger: &HashSet<u32>, trigger_vk: u32) -> (r: bool)
    ensures
        r == ledger_holds(ledger@, trigger_vk),
{
    let r = match trigger_vk {
        0x10 => ledger.contains(&0x10u32) || ledger.contains(&0xA0u32) || ledger.contains(&0xA1u32),
        0x11 => ledger.contains(&0x11u32) || ledger.contains(&0xA2u32) || ledger.contains(&0xA3u32),
        0x12 => ledger.contains(&0x12u32) || ledger.contains(&0xA4u32) || ledger.contains(&0xA5u32),
        0x5B => ledger.contains(&0x5Bu32) || ledger.contains(&0x5Cu32),
        vk => ledger.contains(&vk),
    };
    proof {
        if canonical_vk(trigger_vk) == trigger_vk {
            if r {
                if trigger_vk == 0x10 {
                    if ledger@.contains(0x10) {
                        assert(canonical_vk(0x10) == 0x10);
                    } else if ledger@.contains(0xA0) {
                        assert(canonical_vk(0xA0) == 0x10);
                    } else {
                        assert(canonical_vk(0xA1) == 0x10);
                    }
                } else if trigger_vk == 0x11 {
                    if ledger@.contains(0x11) {
                        assert(canonical_vk(0x11) == 0x11);
                    } else if ledger@.contains(0xA2) {
                        assert(canonical_vk(0xA2) == 0x11);
                    } else {
                        assert(canonical_vk(0xA3) == 0x11);
                    }
                } else if trigger_vk == 0x12 {
                    if ledger@.contains(0x12) {
                        assert(canonical_vk(0x12) == 0x12);
                    } else if ledger@.contains(0xA4) {
                        assert(canonical_vk(0xA4) == 0x12);
                    } else {
                        assert(canonical_vk(0xA5) == 0x12);
                    }
                } else if trigger_vk == 0x5B {
                    if ledger@.contains(0x5B) {
                        assert(canonical_vk(0x5B) == 0x5B);
                    } else {
                        assert(canonical_vk(0x5C) == 0x5B);
                    }
                } else {
                    assert(canonical_vk(trigger_vk) == trigger_vk);
                }
            }
        }
    }
    r
}

/// Whether a trigger key is down: the physical ledger is authoritative, and
/// the asynchronous key state is consulted only when the ledger does not hold
/// the key (a key-down swallowed by the hook can still be seen there).
pub fn trigger_down_from_ledger_or_async<F: FnOnce(u32) -> bool>(
    ledger: &HashSet<u32>,
    trigger_vk: u32,
    is_async_down: F,
) -> (r: bool)
    requires
        is_async_down.requires((trigger_vk,)),
    ensures
        ledger_holds(ledger@, trigger_vk) ==> r,
        !ledger_holds(ledger@, trigger_vk) ==> is_async_down.ensures((trigger_vk,), r),
{
    physical_ledger_contains_trigger(ledger, trigger_vk) || is_async_down(trigger_vk)
}

/// Shift, Ctrl and F9 are all held and the event is one of them.
pub open spec fn spec_is_recording_shortcut(vk: u32, pressed: Set<u32>) -> bool {
    (vk == 0x10 || vk == 0x11 || vk == 0x78) && pressed.contains(0x10) && pressed.contains(0x11)
        && pressed.contains(0x78)
}

/// Whether a key event completes the Ctrl+Shift+F9 recording shortcut.
pub fn is_recording_shortcut_key(vk: u32, pressed: &HashSet<u32>) -> (r: bool)
    ensures
        r == spec_is_recording_shortcut(vk, pressed@),
{
    (vk == 0x10 || vk == 0x11 || vk == 0x78) && pressed.contains(&0x10u32) && pressed.contains(
        &0x11u32,
    ) && pressed.contains(&0x78u32)
}

/// Whether a key event is Tab or Esc pressed with Alt or Windows held: a
/// window switch that the recorder must not replay.
pub fn is_focus_switch_key(vk: u32, pressed: &HashSet<u32>) -> (r: bool)
    ensures
        r == ((vk == 0x09 || vk == 0x1B) && (pressed@.contains(0x12) || pressed@.contains(0x5B))),
{
    (vk == 0x09 || vk == 0x1B) && (pressed.contains(&0x12u32) || pressed.contains(&0x5Bu32))
}

/// The `+`-separated parts of a signature, empty parts included, as
/// `str::split('+')` yields them.
pub open spec fn plus_parts(s: Seq<char>) -> Seq<Seq<char>>
    decreases s.len(),
{
    if s.len() == 0 {
        seq![Seq::<char>::empty()]
    } else if s.last() == '+' {
        plus_parts(s.drop_last()).push(Seq::<char>::empty())
    } else {
        let p = plus_parts(s.drop_last());
        p.update(p.len() - 1, p.last().push(s.last()))
    }
}

proof fn lemma_plus_parts_nonempty(s: Seq<char>)
    ensures
        plus_parts(s).len() >= 1,
    decreases s.len(),
{
    if s.len() > 0 {
        lemma_plus_parts_nonempty(s.drop_last());
    }
}

/// A signature part names a virtual key either by key name or as a decimal number.
pub open spec fn part_names_vk(part: Seq<char>, vk: u32) -> bool {
    spec_key_to_vk(part) == Some(vk) || parse_u32_spec(part) == Some(vk)
}

fn part_matches(part: &Vec<char>, vk: u32) -> (r: bool)
    ensures
        r == part_names_vk(part@, vk),
{
    let text = string_from_chars(part.as_slice());
    let by_name = key_to_vk(text.as_str());
    if by_name == Some(vk) {
        return true;
    }
    parse_u32(part.as_slice()) == Some(vk)
}

/// Whether a latch signature (`Ctrl+F8`, `macro+119`, ...) names the key `vk`.
pub fn latched_signature_contains_vk(signature: &str, vk: u32) -> (r: bool)
    ensures
        r == exists|i: int| 0 <= i < plus_parts(signature@).len() && part_names_vk(
            #[trigger] plus_parts(signature@)[i],
            vk,
        ),
{
    let chars = str_chars(signature);
    let mut current: Vec<char> = Vec::new();
    let mut found = false;
    let mut i: usize = 0;
    let ghost mut done: Seq<Seq<char>> = Seq::empty();
    assert(chars@.subrange(0, 0) =~= Seq::<char>::empty());
    while i < chars.len()
        invariant
            i <= chars@.len(),
            chars@ == signature@,
            plus_parts(chars@.subrange(0, i as int)) == done.push(current@),
            found == exists|j: int| 0 <= j < done.len() && part_names_vk(#[trigger] done[j], vk),
        decreases chars@.len() - i,
    {
        let c = chars[i];
        let ghost prefix = chars@.subrange(0, i as int + 1);
        assert(prefix.drop_last() =~= chars@.subrange(0, i as int));
        if c == '+' {
            let m = part_matches(&current, vk);
            proof {
                let old_done = done;
                done = done.push(current@);
                assert forall|j: int| 0 <= j < done.len() && part_names_vk(
                    #[trigger] done[j],
                    vk,
                ) implies (0 <= j < old_done.len() && part_names_vk(old_done[j], vk)) || (j
                    == old_done.len() && m) by {
                    if j < old_done.len() {
                        assert(done[j] == old_done[j]);
                    }
                };
                if m {
                    assert(done[old_done.len() as int] == current@);
                }
                assert forall|j: int|
                    0 <= j < old_done.len() && part_names_vk(#[trigger] old_done[j], vk) implies (0
                    <= j < done.len() && part_names_vk(done[j], vk)) by {
                    assert(done[j] == old_done[j]);
                };
            }
            found = found || m;
            current = Vec::new();
            assert(plus_parts(prefix) =~= done.push(current@));
        } else {
            current.push(c);
            assert(plus_parts(prefix) =~= done.push(current@));
        }
        i = i + 1;
    }
    let last = part_matches(&current, vk);
    assert(chars@.subrange(0, chars@.len() as int) =~= chars@);
    proof {
        let parts = done.push(current@);
        assert forall|j: int| 0 <= j < parts.len() && part_names_vk(
            #[trigger] parts[j],
            vk,
        ) implies (0 <= j < done.len() && part_names_vk(done[j], vk)) || (j == done.len()
            && last) by {
            if j < done.len() {
                assert(parts[j] == done[j]);
            }
        };
        if last {
            assert(parts[done.len() as int] == current@);
        }
        assert forall|j: int| 0 <= j < done.len() && part_names_vk(#[trigger] done[j], vk) implies (0
            <= j < parts.len() && part_names_vk(parts[j], vk)) by {
            assert(parts[j] == done[j]);
        };
    }
    found || last
}

} // verus!

verus! {

/// The keys of a set, each once, in the set's iteration order.
pub fn set_keys(set: &HashSet<u32>) -> (r: Vec<u32>)
    ensures
        r@.to_set() == set@,
        r@.no_duplicates(),
        r@.len() == set@.len(),
{
    let mut out: Vec<u32> = Vec::new();
    let ghost keys = IteratorSpec::remaining(&vstd::std_specs::hash::spec_hash_keys_iter(set)).unref();
    proof {
        vstd::std_specs::hash::axiom_spec_hash_keys_iter(set);
    }
    for k in it: set.iter()
        invariant
            it.seq().map_values(|x: &u32| *x) == keys,
            out@ == keys.take(it.index() as int),
    {
        out.push(*k);
        assert(out@ =~= keys.take(it.index() as int + 1));
    }
    assert(out@ =~= keys);
    proof {
        let rem = IteratorSpec::remaining(&vstd::std_specs::hash::spec_hash_keys_iter(set));
        assert forall|i: int, j: int|
            0 <= i < keys.len() && 0 <= j < keys.len() && i != j implies keys[i] != keys[j] by {
            assert(rem[i] != rem[j]);
        };
    }
    out
}

/// Injected events never change the physical ledger, a repeated key-down
/// leaves it as it is, and a key-up removes only that raw key, so that the
/// other side of a modifier stays held.
pub proof fn lemma_ledger_is_physical(ledger: Set<u32>, raw_vk: u32, other: u32, is_down: bool, is_up: bool)
    ensures
        ledger_after(ledger, raw_vk, is_down, is_up, true) == ledger,
        ledger.contains(raw_vk) ==> ledger_after(ledger, raw_vk, true, false, false) == ledger,
        other != raw_vk ==> (ledger_after(ledger, raw_vk, false, true, false).contains(other)
            == ledger.contains(other)),
        !ledger_after(ledger, raw_vk, false, true, false).contains(raw_vk),
{
    assert(ledger.contains(raw_vk) ==> ledger.insert(raw_vk) =~= ledger);
}

/// Whether a held key sets entry `i` of the keyboard state: the key itself,
/// and each left or right Shift, Ctrl or Alt also sets the generic one.
pub open spec fn key_marks(key: u32, i: int) -> bool {
    key == i || (i == 0x10 && (key == 0xA0 || key == 0xA1)) || (i == 0x11 && (key == 0xA2
        || key == 0xA3)) || (i == 0x12 && (key == 0xA4 || key == 0xA5))
}

/// Whether entry `i` of the keyboard state shows a pressed key: a held key
/// marks it, or the generic Shift is held and `i` is a left or right Shift.
pub open spec fn state_down(pressed: Set<u32>, i: int) -> bool {
    (exists|k: u32| pressed.contains(k) && #[trigger] key_marks(k, i)) || (pressed.contains(
        0x10,
    ) && (i == 0xA0 || i == 0xA1))
}

/// The keyboard state that translates a key to text: 0x80 for every pressed
/// entry, and the Caps Lock toggle bit when Caps Lock is held.
pub open spec fn keyboard_state_byte(pressed: Set<u32>, i: int) -> u8 {
    let high: u8 = if state_down(pressed, i) {
        0x80
    } else {
        0
    };
    if i == 0x14 && pressed.contains(0x14) {
        (high + 1) as u8
    } else {
        high
    }
}

/// The 256-entry keyboard state for the held keys.
pub fn keyboard_state_for_pressed(pressed: &HashSet<u32>) -> (r: Vec<u8>)
    ensures
        r@.len() == 256,
        forall|i: int| 0 <= i < 256 ==> r@[i] == keyboard_state_byte(pressed@, i),
{
    let mut state: Vec<u8> = Vec::new();
    let mut n: usize = 0;
    while n < 256
        invariant
            n <= 256,
            state@.len() == n,
            forall|i: int| 0 <= i < n ==> state@[i] == 0,
        decreases 256 - n,
    {
        state.push(0);
        n = n + 1;
    }
    let keys = set_keys(pressed);
    let mut j: usize = 0;
    while j < keys.len()
        invariant
            keys@.to_set() == pressed@,
            j <= keys@.len(),
            state@.len() == 256,
            forall|i: int|
                0 <= i < 256 ==> state@[i] == (if exists|w: int|
                    0 <= w < j && #[trigger] key_marks(keys@[w], i) {
                    0x80u8
                } else {
                    0u8
                }),
        decreases keys@.len() - j,
    {
        let key = keys[j];
        let ghost before = state@;
        if key < 256 {
            state.set(key as usize, 0x80);
        }
        if key == 0xA0 || key == 0xA1 {
            state.set(0x10, 0x80);
        } else if key == 0xA2 || key == 0xA3 {
            state.set(0x11, 0x80);
        } else if key == 0xA4 || key == 0xA5 {
            state.set(0x12, 0x80);
        }
        proof {
            assert forall|i: int| 0 <= i < 256 implies state@[i] == (if exists|w: int|
                0 <= w < j + 1 && #[trigger] key_marks(keys@[w], i) {
                0x80u8
            } else {
                0u8
            }) by {
                if key_marks(keys@[j as int], i) {
                    assert(state@[i] == 0x80);
                } else {
                    assert(state@[i] == before[i]);
                    if exists|w: int| 0 <= w < j + 1 && #[trigger] key_marks(keys@[w], i) {
                        let w = choose|w: int| 0 <= w < j + 1 && #[trigger] key_marks(keys@[w], i);
                        assert(w < j);
                    }
                }
            };
        }
        j = j + 1;
    }
    proof {
        assert forall|i: int| 0 <= i < 256 implies (state@[i] == 0x80u8) == (exists|k: u32|
            pressed@.contains(k) && #[trigger] key_marks(k, i)) && (state@[i] == 0x80u8 || state@[i]
            == 0u8) by {
            if exists|k: u32| pressed@.contains(k) && #[trigger] key_marks(k, i) {
                let k = choose|k: u32| pressed@.contains(k) && #[trigger] key_marks(k, i);
                assert(keys@.to_set().contains(k));
                let w = choose|w: int| 0 <= w < keys@.len() && keys@[w] == k;
                assert(key_marks(keys@[w], i));
            }
            if exists|w: int| 0 <= w < keys@.len() && #[trigger] key_marks(keys@[w], i) {
                let w = choose|w: int| 0 <= w < keys@.len() && #[trigger] key_marks(keys@[w], i);
                assert(pressed@.contains(keys@[w]));
            }
        };
    }
    if pressed.contains(&0x10) {
        state.set(0x10, 0x80);
        state.set(0xA0, 0x80);
        state.set(0xA1, 0x80);
        assert(key_marks(0x10, 0x10));
    }
    if pressed.contains(&0x14) {
        let caps = state[0x14] | 0x01;
        assert(key_marks(0x14, 0x14));
        assert(state@[0x14] == 0x80u8);
        assert(0x80u8 | 0x01u8 == 0x81u8) by (bit_vector);
        state.set(0x14, caps);
    }
    state
}

} // verus!
