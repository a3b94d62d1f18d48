//! The injected-input ledger. A key or button is recorded as held only after
//! its press was accepted, and forgotten only after its release was accepted,
//! so emergency cleanup always knows exactly what this service still holds.

use std::collections::HashMap;
use std::collections::HashSet;
use std::sync::atomic::AtomicBool;
use std::sync::atomic::Ordering;
use vstd::prelude::*;
use crate::keys::{button_id, mouse_button_id, KeyAction, MouseButton};
use crate::runtime::{RunToken, RuntimeController};
use crate::text::{prefixed_hex, push_str_chars, str_chars, string_from_str};

verus! {

broadcast use vstd::std_specs::hash::group_hash_axioms;

/// How often cleanup tries to release one input before reporting it.
pub const MAX_CLEANUP_ATTEMPTS: usize = 3;

/// Marks a ledger key as a UTF-16 code unit typed as text rather than a
/// virtual key.
pub const UNICODE_INPUT_TAG: u32 = 0x10000;

/// The diagnostic label of a ledger key: text units are never shown, virtual
/// keys appear as `0x` and their hexadecimal code.
pub open spec fn key_label(key: u32) -> Seq<char> {
    if key & UNICODE_INPUT_TAG != 0 {
        "unicode_unit"@
    } else {
        prefixed_hex(key as nat)
    }
}

/// The diagnostic label of a ledger key, which never reveals typed text.
pub fn input_key_label(key: u32) -> (r: String)
    ensures
        r@ == key_label(key),
{
    if key & UNICODE_INPUT_TAG != 0 {
        string_from_str("unicode_unit")
    } else {
        crate::text::hex_label(key as u64)
    }
}

/// The `Debug` name of a button.
pub open spec fn button_debug_name(button: MouseButton) -> Seq<char> {
    match button {
        MouseButton::Left => "Left"@,
        MouseButton::Right => "Right"@,
        MouseButton::Middle => "Middle"@,
        MouseButton::X1 => "X1"@,
        MouseButton::X2 => "X2"@,
    }
}

fn button_debug_label(button: MouseButton) -> (r: String)
    ensures
        r@ == button_debug_name(button),
{
    match button {
        MouseButton::Left => string_from_str("Left"),
        MouseButton::Right => string_from_str("Right"),
        MouseButton::Middle => string_from_str("Middle"),
        MouseButton::X1 => string_from_str("X1"),
        MouseButton::X2 => string_from_str("X2"),
    }
}

fn describe(prefix: &str, label: &String) -> (r: String)
    ensures
        r@ == prefix@ + label@,
{
    let mut s = string_from_str(prefix);
    push_str_chars(&mut s, label.as_str());
    s
}


/// One input that cleanup could not release.
#[derive(Debug, Clone, PartialEq, Eq)]
pub struct CleanupFailure {
    pub kind: &'static str,
    pub value: String,
    pub attempts: usize,
    pub last_error: String,
}

/// What a cleanup released, and what it could not.
#[derive(Debug, Clone, PartialEq, Eq)]
pub struct CleanupReport {
    pub released_keys: usize,
    pub released_buttons: usize,
    pub failures: Vec<CleanupFailure>,
}

impl CleanupReport {
    /// Safe exactly when nothing was left held.
    pub fn is_safe(&self) -> (r: bool)
        ensures
            r == (self.failures@.len() == 0),
    {
        self.failures.len() == 0
    }

    /// How many inputs remain held.
    pub fn unreleased_count(&self) -> (r: usize)
        ensures
            r == self.failures@.len(),
    {
        self.failures.len()
    }

    /// Adds another cleanup's report to this one: the release counts are
    /// added (saturating) and its failures follow this one's.
    pub fn absorb(&mut self, other: CleanupReport)
        ensures
            final(self).released_keys == crate::health::saturating_sum(
                old(self).released_keys,
                other.released_keys,
            ),
            final(self).released_buttons == crate::health::saturating_sum(
                old(self).released_buttons,
                other.released_buttons,
            ),
            final(self).failures@ == old(self).failures@ + other.failures@,
    {
        let mut other = other;
        self.released_keys = self.released_keys.saturating_add(other.released_keys);
        self.released_buttons = self.released_buttons.saturating_add(other.released_buttons);
        self.failures.append(&mut other.failures);
    }
}

impl Default for CleanupReport {
    fn default() -> (r: Self)
        ensures
            r.released_keys == 0,
            r.released_buttons == 0,
            r.failures@.len() == 0,
    {
        CleanupReport { released_keys: 0, released_buttons: 0, failures: Vec::new() }
    }
}

/// Which producer holds each injected key and button, shared by all the
/// input ledgers of one service. A producer may only press what no other
/// producer holds and may only release what it holds itself.
pub struct InputBroker {
    /// The owner of each held key.
    pub key_owners: HashMap<u32, u64>,
    /// The owner of each button by its number less one; 0 for none.
    pub button_owners: [u64; 5],
    /// The last owner identity handed out.
    pub next_owner: u64,
}

/// The slot of a button in the owner table.
pub open spec fn button_slot(button: MouseButton) -> int {
    button_id(button) - 1
}

impl InputBroker {
    /// The owner of each held key.
    pub closed spec fn key_owners(&self) -> Map<u32, u64> {
        self.key_owners@
    }

    /// The owner of a button, 0 when nobody holds it.
    pub closed spec fn button_owner(&self, button: MouseButton) -> u64 {
        self.button_owners@[button_slot(button)]
    }

    /// The last owner identity handed out.
    pub closed spec fn last_owner(&self) -> u64 {
        self.next_owner
    }

    /// `owner` holds key `vk`.
    pub open spec fn owns_key(&self, vk: u32, owner: u64) -> bool {
        self.key_owners().contains_key(vk) && self.key_owners()[vk] == owner
    }

    /// `owner` holds `button`.
    pub open spec fn owns_button(&self, button: MouseButton, owner: u64) -> bool {
        owner != 0 && self.button_owner(button) == owner
    }

    /// No key is recorded for the null owner.
    pub closed spec fn wf(&self) -> bool {
        forall|k: u32| #[trigger] self.key_owners@.contains_key(k) ==> self.key_owners@[k] != 0
    }

    /// A broker with no owners and nothing held.
    pub fn new() -> (r: Self)
        ensures
            r.wf(),
            r.key_owners() == Map::<u32, u64>::empty(),
            forall|b: MouseButton| r.button_owner(b) == 0,
            r.last_owner() == 0,
    {
        InputBroker { key_owners: HashMap::new(), button_owners: [0u64; 5], next_owner: 0 }
    }

    /// Hands out a new owner identity, or 0 once they are used up; an
    /// identity is never reused.
    pub fn register_owner(&mut self) -> (r: u64)
        requires
            old(self).wf(),
        ensures
            final(self).wf(),
            final(self).key_owners() == old(self).key_owners(),
            forall|b: MouseButton| final(self).button_owner(b) == old(self).button_owner(b),
            old(self).last_owner() < u64::MAX ==> r == old(self).last_owner() + 1 && final(self).last_owner() == r,
            old(self).last_owner() == u64::MAX ==> r == 0 && final(self).last_owner() == u64::MAX,
    {
        if self.next_owner == u64::MAX {
            return 0;
        }
        self.next_owner = self.next_owner + 1;
        self.next_owner
    }

    /// The number of keys and buttons held by any owner.
    pub fn counts(&self) -> (r: (usize, usize))
        ensures
            r.0 == self.key_owners().dom().len(),
            r.1 == Set::new(|b: MouseButton| self.button_owner(b) != 0).len(),
    {
        proof {
            vstd::std_specs::hash::axiom_hashmap_view_finite_dom(self.key_owners);
        }
        let mut held: usize = 0;
        let ghost mut seen: Set<MouseButton> = Set::empty();
        let all = [MouseButton::Left, MouseButton::Right, MouseButton::Middle, MouseButton::X1, MouseButton::X2];
        let mut i: usize = 0;
        while i < 5
            invariant
                i <= 5,
                all@ == seq![MouseButton::Left, MouseButton::Right, MouseButton::Middle, MouseButton::X1, MouseButton::X2],
                seen == Set::new(|b: MouseButton| button_id(b) <= i && self.button_owner(b) != 0),
                seen.finite(),
                held == seen.len(),
                held <= i,
            decreases 5 - i,
        {
            let b = all[i];
            let ghost before = seen;
            if self.button_owners[i] != 0 {
                held = held + 1;
                proof {
                    seen = seen.insert(b);
                }
            }
            proof {
                assert(button_id(b) == i + 1);
                assert(seen =~= Set::new(|c: MouseButton| button_id(c) <= i + 1 && self.button_owner(c) != 0));
            }
            i = i + 1;
        }
        proof {
            assert(seen =~= Set::new(|b: MouseButton| self.button_owner(b) != 0));
        }
        (self.key_owners.len(), held)
    }
}

impl Default for InputBroker {
    fn default() -> (r: Self)
        ensures
            r.wf(),
            r.key_owners() == Map::<u32, u64>::empty(),
            forall|b: MouseButton| r.button_owner(b) == 0,
            r.last_owner() == 0,
    {
        InputBroker::new()
    }
}

/// The keys and mouse buttons this service holds down.
pub struct InjectedInputState {
    owner: u64,
    keys: HashSet<u32>,
    buttons: Vec<MouseButton>,
    last_input: Option<String>,
    last_input_at_ms: Option<u64>,
}

impl InjectedInputState {
    /// The keys held down.
    pub closed spec fn held_keys(&self) -> Set<u32> {
        self.keys@
    }

    /// The buttons held down.
    pub closed spec fn held_buttons(&self) -> Set<MouseButton> {
        self.buttons@.to_set()
    }

    /// The description of the last input transaction, if any.
    pub closed spec fn spec_last_input(&self) -> Option<Seq<char>> {
        match self.last_input {
            Some(s) => Some(s@),
            None => None,
        }
    }

    /// When the last input transaction happened, in Unix milliseconds.
    pub closed spec fn spec_last_input_at_ms(&self) -> Option<u64> {
        self.last_input_at_ms
    }

    /// The button list holds each button once.
    pub closed spec fn wf(&self) -> bool {
        self.buttons@.no_duplicates()
    }

    /// The owner identity of this ledger's input in the shared broker; 0
    /// when none could be handed out, and then nothing can be pressed.
    pub closed spec fn spec_owner(&self) -> u64 {
        self.owner
    }

    /// An empty ledger that is the first owner of a broker of its own.
    pub fn new() -> (r: Self)
        ensures
            r.wf(),
            r.held_keys() == Set::<u32>::empty(),
            r.held_buttons() == Set::<MouseButton>::empty(),
            r.spec_last_input() is None,
            r.spec_owner() == 1,
    {
        Self::with_owner(1)
    }

    /// An empty ledger with a new owner identity from `broker`.
    pub fn with_broker(broker: &mut InputBroker) -> (r: Self)
        requires
            old(broker).wf(),
        ensures
            final(broker).wf(),
            final(broker).key_owners() == old(broker).key_owners(),
            forall|b: MouseButton| final(broker).button_owner(b) == old(broker).button_owner(b),
            old(broker).last_owner() < u64::MAX ==> r.spec_owner() == old(broker).last_owner() + 1
                && final(broker).last_owner() == r.spec_owner(),
            old(broker).last_owner() == u64::MAX ==> r.spec_owner() == 0 && final(broker).last_owner()
                == u64::MAX,
            r.wf(),
            r.held_keys() == Set::<u32>::empty(),
            r.held_buttons() == Set::<MouseButton>::empty(),
            r.spec_last_input() is None,
    {
        let owner = broker.register_owner();
        Self::with_owner(owner)
    }

    /// The owner identity of this ledger.
    pub fn owner(&self) -> (r: u64)
        ensures
            r == self.spec_owner(),
    {
        self.owner
    }

    fn with_owner(owner: u64) -> (r: Self)
        ensures
            r.wf(),
            r.held_keys() == Set::<u32>::empty(),
            r.held_buttons() == Set::<MouseButton>::empty(),
            r.spec_last_input() is None,
            r.spec_owner() == owner,
    {
        let r = InjectedInputState {
            owner,
            keys: HashSet::new(),
            buttons: Vec::new(),
            last_input: None,
            last_input_at_ms: None,
        };
        assert(r.buttons@.to_set() =~= Set::<MouseButton>::empty());
        r
    }

    /// Fails with the F12 message when the cancellation flag is set.
    fn check_cancel(cancel: Option<&AtomicBool>) -> (r: Result<(), String>)
        ensures
            cancel is None ==> r is Ok,
            r matches Err(e) ==> cancel is Some && e@ == "脚本已被 F12 停止"@,
    {
        match cancel {
            Some(flag) => if flag.load(Ordering::SeqCst) {
                Err(string_from_str("脚本已被 F12 停止"))
            } else {
                Ok(())
            },
            None => Ok(()),
        }
    }

    fn mark_last_input(&mut self, description: String)
        ensures
            final(self).owner == old(self).owner,
            final(self).keys == old(self).keys,
            final(self).buttons == old(self).buttons,
            final(self).last_input == Some(description),
            final(self).last_input_at_ms is Some,
    {
        self.last_input = Some(description);
        self.last_input_at_ms = Some(crate::clock::unix_millis());
    }

    fn button_index(&self, button: MouseButton) -> (r: Option<usize>)
        ensures
            r is None <==> !self.held_buttons().contains(button),
            r matches Some(i) ==> i < self.buttons@.len() && self.buttons@[i as int] == button,
    {
        let mut i: usize = 0;
        while i < self.buttons.len()
            invariant
                i <= self.buttons@.len(),
                forall|j: int| 0 <= j < i ==> self.buttons@[j] != button,
            decreases self.buttons@.len() - i,
        {
            if self.buttons[i] == button {
                return Some(i);
            }
            i = i + 1;
        }
        None
    }

    fn has_button(&self, button: MouseButton) -> (r: bool)
        ensures
            r == self.held_buttons().contains(button),
    {
        self.button_index(button).is_some()
    }

    fn forget_button(&mut self, button: MouseButton)
        requires
            old(self).wf(),
        ensures
            final(self).wf(),
            final(self).held_buttons() == old(self).held_buttons().remove(button),
            final(self).owner == old(self).owner,
            final(self).keys == old(self).keys,
            final(self).last_input == old(self).last_input,
    {
        match self.button_index(button) {
            None => {
                assert(self.buttons@.to_set() =~= old(self).buttons@.to_set().remove(button));
            },
            Some(i) => {
                let ghost before = self.buttons@;
                let _ = self.buttons.remove(i);
                proof {
                    assert forall|c: MouseButton|
                        #[trigger] self.buttons@.to_set().contains(c) <==> (before.to_set().contains(c)
                            && c != button) by {
                        if self.buttons@.contains(c) {
                            let k = choose|k: int| 0 <= k < self.buttons@.len() && self.buttons@[k] == c;
                            if k < i {
                                assert(before[k] == c);
                            } else {
                                assert(before[k + 1] == c);
                            }
                        }
                        if before.contains(c) && c != button {
                            let k = choose|k: int| 0 <= k < before.len() && before[k] == c;
                            if k < i {
                                assert(self.buttons@[k] == c);
                            } else {
                                assert(k != i);
                                assert(self.buttons@[k - 1] == c);
                            }
                        }
                    };
                    assert(self.buttons@.to_set() =~= before.to_set().remove(button));
                    assert forall|x: int, y: int|
                        0 <= x < self.buttons@.len() && 0 <= y < self.buttons@.len() && x != y implies self.buttons@[x]
                        != self.buttons@[y] by {
                        let xo = if x < i { x } else { x + 1 };
                        let yo = if y < i { y } else { y + 1 };
                        assert(self.buttons@[x] == before[xo]);
                        assert(self.buttons@[y] == before[yo]);
                    };
                }
            },
        }
    }

    fn remember_button(&mut self, button: MouseButton)
        requires
            old(self).wf(),
        ensures
            final(self).wf(),
            final(self).held_buttons() == old(self).held_buttons().insert(button),
            final(self).owner == old(self).owner,
            final(self).keys == old(self).keys,
            final(self).last_input == old(self).last_input,
    {
        if !self.has_button(button) {
            let ghost before = self.buttons@;
            self.buttons.push(button);
            proof {
                assert forall|c: MouseButton|
                    #[trigger] self.buttons@.to_set().contains(c) <==> (before.to_set().contains(c)
                        || c == button) by {
                    if before.contains(c) {
                        let k = choose|k: int| 0 <= k < before.len() && before[k] == c;
                        assert(self.buttons@[k] == c);
                    }
                    if c == button {
                        assert(self.buttons@[before.len() as int] == c);
                    }
                    if self.buttons@.contains(c) && c != button {
                        let k = choose|k: int| 0 <= k < self.buttons@.len() && self.buttons@[k] == c;
                        assert(k < before.len());
                        assert(before[k] == c);
                    }
                };
                assert(self.buttons@.to_set() =~= before.to_set().insert(button));
                assert forall|x: int, y: int|
                    0 <= x < self.buttons@.len() && 0 <= y < self.buttons@.len() && x != y implies self.buttons@[x]
                    != self.buttons@[y] by {
                    if x == before.len() {
                        assert(!before.contains(button));
                        assert(before[y] == self.buttons@[y]);
                    } else if y == before.len() {
                        assert(!before.contains(button));
                        assert(before[x] == self.buttons@[x]);
                    }
                };
            }
        } else {
            assert(self.buttons@.to_set() =~= old(self).buttons@.to_set().insert(button));
        }
    }
}


impl InjectedInputState {
    /// A press of `vk` by this ledger conflicts with the broker: the ledger
    /// has no owner identity, another owner holds the key, or the ledger and
    /// the broker disagree on whether this owner holds it.
    pub open spec fn key_press_conflict(&self, broker: &InputBroker, vk: u32) -> bool {
        ||| self.spec_owner() == 0
        ||| (broker.key_owners().contains_key(vk) && broker.key_owners()[vk] != self.spec_owner())
        ||| (self.held_keys().contains(vk) != broker.owns_key(vk, self.spec_owner()))
    }

    /// A press of `button` conflicts with the broker, as for keys.
    pub open spec fn button_press_conflict(&self, broker: &InputBroker, button: MouseButton) -> bool {
        ||| self.spec_owner() == 0
        ||| (broker.button_owner(button) != 0 && broker.button_owner(button) != self.spec_owner())
        ||| (self.held_buttons().contains(button) != broker.owns_button(button, self.spec_owner()))
    }

    fn key_press_conflicts(&self, broker: &InputBroker, vk: u32) -> (r: bool)
        ensures
            r == self.key_press_conflict(broker, vk),
    {
        if self.owner == 0 {
            return true;
        }
        let owned = match broker.key_owners.get(&vk) {
            Some(o) => {
                if *o != self.owner {
                    return true;
                }
                true
            },
            None => false,
        };
        self.keys.contains(&vk) != owned
    }

    fn owns_key_now(&self, broker: &InputBroker, vk: u32) -> (r: bool)
        ensures
            r == broker.owns_key(vk, self.spec_owner()),
    {
        match broker.key_owners.get(&vk) {
            Some(o) => *o == self.owner,
            None => false,
        }
    }

    fn button_press_conflicts(&self, broker: &InputBroker, button: MouseButton) -> (r: bool)
        requires
            self.wf(),
        ensures
            r == self.button_press_conflict(broker, button),
    {
        if self.owner == 0 {
            return true;
        }
        let slot = (mouse_button_id(button) - 1) as usize;
        let current = broker.button_owners[slot];
        if current != 0 && current != self.owner {
            return true;
        }
        self.has_button(button) != (current == self.owner)
    }

    fn owns_button_now(&self, broker: &InputBroker, button: MouseButton) -> (r: bool)
        ensures
            r == broker.owns_button(button, self.spec_owner()),
    {
        let slot = (mouse_button_id(button) - 1) as usize;
        self.owner != 0 && broker.button_owners[slot] == self.owner
    }
}

/// Two ledgers that share a broker never hold one key at once: while the
/// broker records a key as one owner's, a press of it by a ledger with any
/// other owner identity conflicts and is refused before anything is sent.
pub proof fn lemma_held_key_is_exclusive(
    broker: &InputBroker,
    holder: &InjectedInputState,
    other: &InjectedInputState,
    vk: u32,
)
    requires
        broker.owns_key(vk, holder.spec_owner()),
        other.spec_owner() != holder.spec_owner(),
    ensures
        other.key_press_conflict(broker, vk),
{
}

/// The same for buttons.
pub proof fn lemma_held_button_is_exclusive(
    broker: &InputBroker,
    holder: &InjectedInputState,
    other: &InjectedInputState,
    button: MouseButton,
)
    requires
        broker.owns_button(button, holder.spec_owner()),
        other.spec_owner() != holder.spec_owner(),
    ensures
        other.button_press_conflict(broker, button),
{
}

impl InputBroker {
    fn claim_key(&mut self, vk: u32, owner: u64)
        requires
            old(self).wf(),
            owner != 0,
        ensures
            final(self).wf(),
            final(self).key_owners() == old(self).key_owners().insert(vk, owner),
            forall|b: MouseButton| final(self).button_owner(b) == old(self).button_owner(b),
            final(self).last_owner() == old(self).last_owner(),
    {
        self.key_owners.insert(vk, owner);
    }

    fn release_key(&mut self, vk: u32)
        requires
            old(self).wf(),
        ensures
            final(self).wf(),
            final(self).key_owners() == old(self).key_owners().remove(vk),
            forall|b: MouseButton| final(self).button_owner(b) == old(self).button_owner(b),
            final(self).last_owner() == old(self).last_owner(),
    {
        self.key_owners.remove(&vk);
    }

    fn set_button_owner(&mut self, button: MouseButton, owner: u64)
        requires
            old(self).wf(),
        ensures
            final(self).wf(),
            final(self).key_owners() == old(self).key_owners(),
            final(self).button_owner(button) == owner,
            forall|b: MouseButton| b != button ==> final(self).button_owner(b) == old(self).button_owner(b),
            final(self).last_owner() == old(self).last_owner(),
    {
        let slot = (mouse_button_id(button) - 1) as usize;
        self.button_owners[slot] = owner;
        proof {
            assert forall|b: MouseButton| b != button implies self.button_owner(b) == old(self).button_owner(b) by {
                assert(button_slot(b) != button_slot(button));
            };
        }
    }
}

impl InjectedInputState {
    /// Presses a key once `permission` and the cancellation flag allow it and
    /// `send` reports success; only then is the key recorded as held, here
    /// and in the broker. Nothing is sent while the press conflicts with the
    /// broker.
    pub fn send_key_down_with_permission<
        P: FnOnce() -> Result<(), String>,
        F: FnOnce() -> Result<(), String>,
    >(&mut self, broker: &mut InputBroker, vk: u32, cancel: Option<&AtomicBool>, permission: P, send: F) -> (r: Result<
        (),
        String,
    >)
        requires
            old(self).wf(),
            old(broker).wf(),
            permission.requires(()),
            send.requires(()),
        ensures
            final(self).wf(),
            final(broker).wf(),
            final(self).spec_owner() == old(self).spec_owner(),
            final(self).held_buttons() == old(self).held_buttons(),
            forall|b: MouseButton| final(broker).button_owner(b) == old(broker).button_owner(b),
            final(broker).last_owner() == old(broker).last_owner(),
            cancel is None && old(self).key_press_conflict(old(broker), vk) ==> (r matches Err(e) && e@
                == "输入键已由其他功能持有或归属不明，未发送按下"@),
            r is Ok ==> {
                &&& !old(self).key_press_conflict(old(broker), vk)
                &&& final(self).held_keys() == old(self).held_keys().insert(vk)
                &&& final(broker).key_owners() == old(broker).key_owners().insert(vk, old(self).spec_owner())
                &&& permission.ensures((), Ok(()))
                &&& send.ensures((), Ok(()))
                &&& final(self).spec_last_input() == Some("key_down:"@ + key_label(vk))
            },
            r is Err ==> final(self).held_keys() == old(self).held_keys() && final(self).spec_last_input()
                == old(self).spec_last_input() && *final(broker) == *old(broker),
            r matches Err(e) ==> (cancel is Some && e@ == cancelled_message()) || (old(self).key_press_conflict(old(broker), vk) && e@ == press_conflict_message()) || (!old(self).key_press_conflict(old(broker), vk) && permission.ensures((), Err(e))) || (!old(self).key_press_conflict(old(broker), vk) && permission.ensures((), Ok(())) && send.ensures((), Err(e))),
    {
        Self::check_cancel(cancel)?;
        if self.key_press_conflicts(broker, vk) {
            return Err(string_from_str("输入键已由其他功能持有或归属不明，未发送按下"));
        }
        let granted = permission();
        match granted {
            Err(e) => {
                return Err(e);
            },
            Ok(u) => {
                assert(u == ());
            },
        }
        Self::check_cancel(cancel)?;
        let sent = send();
        match sent {
            Err(e) => {
                return Err(e);
            },
            Ok(u) => {
                assert(u == ());
            },
        }
        let label = input_key_label(vk);
        self.mark_last_input(describe("key_down:", &label));
        self.keys.insert(vk);
        broker.claim_key(vk, self.owner);
        Ok(())
    }

    /// Presses a key without a permission check (recovery and tests).
    pub fn send_key_down<F: FnOnce() -> Result<(), String>>(
        &mut self,
        broker: &mut InputBroker,
        vk: u32,
        cancel: Option<&AtomicBool>,
        send: F,
    ) -> (r: Result<(), String>)
        requires
            old(self).wf(),
            old(broker).wf(),
            send.requires(()),
        ensures
            final(self).wf(),
            final(broker).wf(),
            final(self).spec_owner() == old(self).spec_owner(),
            final(self).held_buttons() == old(self).held_buttons(),
            forall|b: MouseButton| final(broker).button_owner(b) == old(broker).button_owner(b),
            cancel is None && old(self).key_press_conflict(old(broker), vk) ==> (r matches Err(e) && e@
                == "输入键已由其他功能持有或归属不明，未发送按下"@),
            r is Ok ==> final(self).held_keys() == old(self).held_keys().insert(vk) && send.ensures(
                (),
                Ok(()),
            ) && final(broker).key_owners() == old(broker).key_owners().insert(vk, old(self).spec_owner())
                && final(self).spec_last_input() == Some("key_down:"@ + key_label(vk)),
            final(broker).last_owner() == old(broker).last_owner(),
            r is Err ==> final(self).held_keys() == old(self).held_keys() && *final(broker) == *old(broker),
            r matches Err(e) ==> (cancel is Some && e@ == cancelled_message()) || (old(self).key_press_conflict(old(broker), vk) && e@ == press_conflict_message()) || (!old(self).key_press_conflict(old(broker), vk) && send.ensures((), Err(e))),
    {
        self.send_key_down_with_permission(broker, vk, cancel, || -> (r: Result<(), String>)
            ensures r is Ok
        { Ok(()) }, send)
    }

    /// Releases a held key without a permission check: the recovery path that
    /// must work after a run lost its permission. A key that is not held is
    /// never released; that is a successful no-op. A key that the broker does
    /// not record as this owner's is never released either.
    pub fn send_key_up<F: FnOnce() -> Result<(), String>>(
        &mut self,
        broker: &mut InputBroker,
        vk: u32,
        cancel: Option<&AtomicBool>,
        send: F,
    ) -> (r: Result<(), String>)
        requires
            old(self).wf(),
            old(broker).wf(),
            send.requires(()),
        ensures
            final(self).wf(),
            final(broker).wf(),
            final(self).spec_owner() == old(self).spec_owner(),
            final(self).held_buttons() == old(self).held_buttons(),
            forall|b: MouseButton| final(broker).button_owner(b) == old(broker).button_owner(b),
            final(broker).last_owner() == old(broker).last_owner(),
            !old(self).held_keys().contains(vk) ==> final(self).held_keys() == old(self).held_keys()
                && final(self).spec_last_input() == old(self).spec_last_input() && *final(broker) == *old(broker),
            !old(self).held_keys().contains(vk) && cancel is None ==> r is Ok,
            old(self).held_keys().contains(vk) && !old(broker).owns_key(vk, old(self).spec_owner())
                && cancel is None ==> (r matches Err(e) && e@ == "输入键归属不明，未发送释放"@),
            old(self).held_keys().contains(vk) && r is Ok ==> {
                &&& old(broker).owns_key(vk, old(self).spec_owner())
                &&& final(self).held_keys() == old(self).held_keys().remove(vk)
                &&& final(broker).key_owners() == old(broker).key_owners().remove(vk)
                &&& send.ensures((), Ok(()))
                &&& final(self).spec_last_input() == Some("key_up:"@ + key_label(vk))
            },
            r is Err ==> final(self).held_keys() == old(self).held_keys() && *final(broker) == *old(broker),
            r matches Err(e) ==> (cancel is Some && e@ == cancelled_message()) || (old(self).held_keys().contains(vk) && !old(broker).owns_key(vk, old(self).spec_owner()) && e@ == "输入键归属不明，未发送释放"@) || (old(self).held_keys().contains(vk) && old(broker).owns_key(vk, old(self).spec_owner()) && send.ensures((), Err(e))),
    {
        Self::check_cancel(cancel)?;
        if !self.keys.contains(&vk) {
            return Ok(());
        }
        if !self.owns_key_now(broker, vk) {
            return Err(string_from_str("输入键归属不明，未发送释放"));
        }
        Self::check_cancel(cancel)?;
        let sent = send();
        match sent {
            Err(e) => {
                return Err(e);
            },
            Ok(u) => {
                assert(u == ());
            },
        }
        let label = input_key_label(vk);
        self.mark_last_input(describe("key_up:", &label));
        self.keys.remove(&vk);
        broker.release_key(vk);
        Ok(())
    }

    /// Releases a held key once `permission` allows it. A key that is not held
    /// is never released; that is a successful no-op. A key that the broker
    /// does not record as this owner's is never released either.
    pub fn send_key_up_with_permission<
        P: FnOnce() -> Result<(), String>,
        F: FnOnce() -> Result<(), String>,
    >(&mut self, broker: &mut InputBroker, vk: u32, cancel: Option<&AtomicBool>, permission: P, send: F) -> (r: Result<
        (),
        String,
    >)
        requires
            old(self).wf(),
            old(broker).wf(),
            permission.requires(()),
            send.requires(()),
        ensures
            final(self).wf(),
            final(broker).wf(),
            final(self).spec_owner() == old(self).spec_owner(),
            final(self).held_buttons() == old(self).held_buttons(),
            forall|b: MouseButton| final(broker).button_owner(b) == old(broker).button_owner(b),
            final(broker).last_owner() == old(broker).last_owner(),
            !old(self).held_keys().contains(vk) ==> final(self).held_keys() == old(self).held_keys()
                && final(self).spec_last_input() == old(self).spec_last_input() && *final(broker) == *old(broker),
            !old(self).held_keys().contains(vk) && cancel is None ==> r is Ok,
            old(self).held_keys().contains(vk) && !old(broker).owns_key(vk, old(self).spec_owner())
                && cancel is None ==> (r matches Err(e) && e@ == "输入键归属不明，未发送释放"@),
            old(self).held_keys().contains(vk) && r is Ok ==> {
                &&& old(broker).owns_key(vk, old(self).spec_owner())
                &&& final(self).held_keys() == old(self).held_keys().remove(vk)
                &&& final(broker).key_owners() == old(broker).key_owners().remove(vk)
                &&& permission.ensures((), Ok(()))
                &&& send.ensures((), Ok(()))
                &&& final(self).spec_last_input() == Some("key_up:"@ + key_label(vk))
            },
            r is Err ==> final(self).held_keys() == old(self).held_keys() && *final(broker) == *old(broker),
            r matches Err(e) ==> (cancel is Some && e@ == cancelled_message()) || (old(self).held_keys().contains(vk) && !old(broker).owns_key(vk, old(self).spec_owner()) && e@ == "输入键归属不明，未发送释放"@) || (old(self).held_keys().contains(vk) && old(broker).owns_key(vk, old(self).spec_owner()) && permission.ensures((), Err(e))) || (old(self).held_keys().contains(vk) && old(broker).owns_key(vk, old(self).spec_owner()) && permission.ensures((), Ok(())) && send.ensures((), Err(e))),
    {
        Self::check_cancel(cancel)?;
        if !self.keys.contains(&vk) {
            return Ok(());
        }
        if !self.owns_key_now(broker, vk) {
            return Err(string_from_str("输入键归属不明，未发送释放"));
        }
        let granted = permission();
        match granted {
            Err(e) => {
                return Err(e);
            },
            Ok(u) => {
                assert(u == ());
            },
        }
        Self::check_cancel(cancel)?;
        let sent = send();
        match sent {
            Err(e) => {
                return Err(e);
            },
            Ok(u) => {
                assert(u == ());
            },
        }
        let label = input_key_label(vk);
        self.mark_last_input(describe("key_up:", &label));
        self.keys.remove(&vk);
        broker.release_key(vk);
        Ok(())
    }

    /// Presses a mouse button once `permission` and the cancellation flag allow
    /// it and `send` reports success; only then is the button recorded as held,
    /// here and in the broker. Nothing is sent while the press conflicts with
    /// the broker.
    pub fn send_button_down_with_permission<
        P: FnOnce() -> Result<(), String>,
        F: FnOnce() -> Result<(), String>,
    >(&mut self, broker: &mut InputBroker, button: MouseButton, cancel: Option<&AtomicBool>, permission: P, send: F) -> (r:
        Result<(), String>)
        requires
            old(self).wf(),
            old(broker).wf(),
            permission.requires(()),
            send.requires(()),
        ensures
            final(self).wf(),
            final(broker).wf(),
            final(self).spec_owner() == old(self).spec_owner(),
            final(self).held_keys() == old(self).held_keys(),
            final(broker).key_owners() == old(broker).key_owners(),
            final(broker).last_owner() == old(broker).last_owner(),
            cancel is None && old(self).button_press_conflict(old(broker), button) ==> (r matches Err(e)
                && e@ == "鼠标按钮已由其他功能持有或归属不明，未发送按下"@),
            r is Ok ==> {
                &&& !old(self).button_press_conflict(old(broker), button)
                &&& final(self).held_buttons() == old(self).held_buttons().insert(button)
                &&& final(broker).button_owner(button) == old(self).spec_owner()
                &&& forall|b: MouseButton| b != button ==> final(broker).button_owner(b) == old(broker).button_owner(b)
                &&& permission.ensures((), Ok(()))
                &&& send.ensures((), Ok(()))
                &&& final(self).spec_last_input() == Some("button_down:"@ + button_debug_name(button))
            },
            r is Err ==> final(self).held_buttons() == old(self).held_buttons() && *final(broker) == *old(broker),
            r matches Err(e) ==> (cancel is Some && e@ == cancelled_message()) || (old(self).button_press_conflict(old(broker), button) && e@ == "鼠标按钮已由其他功能持有或归属不明，未发送按下"@) || (!old(self).button_press_conflict(old(broker), button) && permission.ensures((), Err(e))) || (!old(self).button_press_conflict(old(broker), button) && permission.ensures((), Ok(())) && send.ensures((), Err(e))),
    {
        Self::check_cancel(cancel)?;
        if self.button_press_conflicts(broker, button) {
            return Err(string_from_str("鼠标按钮已由其他功能持有或归属不明，未发送按下"));
        }
        let granted = permission();
        match granted {
            Err(e) => {
                return Err(e);
            },
            Ok(u) => {
                assert(u == ());
            },
        }
        Self::check_cancel(cancel)?;
        let sent = send();
        match sent {
            Err(e) => {
                return Err(e);
            },
            Ok(u) => {
                assert(u == ());
            },
        }
        let label = button_debug_label(button);
        self.mark_last_input(describe("button_down:", &label));
        self.remember_button(button);
        broker.set_button_owner(button, self.owner);
        Ok(())
    }

    /// Presses a mouse button without a permission check (recovery and tests).
    pub fn send_button_down<F: FnOnce() -> Result<(), String>>(
        &mut self,
        broker: &mut InputBroker,
        button: MouseButton,
        cancel: Option<&AtomicBool>,
        send: F,
    ) -> (r: Result<(), String>)
        requires
            old(self).wf(),
            old(broker).wf(),
            send.requires(()),
        ensures
            final(self).wf(),
            final(broker).wf(),
            final(self).spec_owner() == old(self).spec_owner(),
            final(self).held_keys() == old(self).held_keys(),
            final(broker).key_owners() == old(broker).key_owners(),
            cancel is None && old(self).button_press_conflict(old(broker), button) ==> (r matches Err(e)
                && e@ == "鼠标按钮已由其他功能持有或归属不明，未发送按下"@),
            r is Ok ==> final(self).held_buttons() == old(self).held_buttons().insert(button)
                && send.ensures((), Ok(())) && final(broker).button_owner(button) == old(self).spec_owner()
                && final(self).spec_last_input() == Some("button_down:"@ + button_debug_name(button)),
            forall|b: MouseButton| b != button ==> #[trigger] final(broker).button_owner(b) == old(broker).button_owner(b),
            final(broker).last_owner() == old(broker).last_owner(),
            r is Err ==> final(self).held_buttons() == old(self).held_buttons() && *final(broker) == *old(broker),
            r matches Err(e) ==> (cancel is Some && e@ == cancelled_message()) || (old(self).button_press_conflict(old(broker), button) && e@ == "鼠标按钮已由其他功能持有或归属不明，未发送按下"@) || (!old(self).button_press_conflict(old(broker), button) && send.ensures((), Err(e))),
    {
        self.send_button_down_with_permission(broker, button, cancel, || -> (r: Result<(), String>)
            ensures r is Ok
        { Ok(()) }, send)
    }

    /// Releases a held mouse button without a permission check. A button that
    /// is not held is never released; that is a successful no-op. A button
    /// that the broker does not record as this owner's is never released
    /// either.
    pub fn send_button_up<F: FnOnce() -> Result<(), String>>(
        &mut self,
        broker: &mut InputBroker,
        button: MouseButton,
        cancel: Option<&AtomicBool>,
        send: F,
    ) -> (r: Result<(), String>)
        requires
            old(self).wf(),
            old(broker).wf(),
            send.requires(()),
        ensures
            final(self).wf(),
            final(broker).wf(),
            final(self).spec_owner() == old(self).spec_owner(),
            final(self).held_keys() == old(self).held_keys(),
            final(broker).key_owners() == old(broker).key_owners(),
            final(broker).last_owner() == old(broker).last_owner(),
            !old(self).held_buttons().contains(button) ==> final(self).held_buttons() == old(self).held_buttons() && final(self).spec_last_input() == old(self).spec_last_input() && *final(broker) == *old(broker),
            !old(self).held_buttons().contains(button) && cancel is None ==> r is Ok,
            old(self).held_buttons().contains(button) && !old(broker).owns_button(button, old(self).spec_owner())
                && cancel is None ==> (r matches Err(e) && e@ == "鼠标按钮归属不明，未发送释放"@),
            old(self).held_buttons().contains(button) && r is Ok ==> {
                &&& old(broker).owns_button(button, old(self).spec_owner())
                &&& final(self).held_buttons() == old(self).held_buttons().remove(button)
                &&& final(broker).button_owner(button) == 0
                &&& forall|b: MouseButton| b != button ==> final(broker).button_owner(b) == old(broker).button_owner(b)
                &&& send.ensures((), Ok(()))
                &&& final(self).spec_last_input() == Some("button_up:"@ + button_debug_name(button))
            },
            r is Err ==> final(self).held_buttons() == old(self).held_buttons() && *final(broker) == *old(broker),
            r matches Err(e) ==> (cancel is Some && e@ == cancelled_message()) || (old(self).held_buttons().contains(button) && !old(broker).owns_button(button, old(self).spec_owner()) && e@ == "鼠标按钮归属不明，未发送释放"@) || (old(self).held_buttons().contains(button) && old(broker).owns_button(button, old(self).spec_owner()) && send.ensures((), Err(e))),
    {
        Self::check_cancel(cancel)?;
        if !self.has_button(button) {
            return Ok(());
        }
        if !self.owns_button_now(broker, button) {
            return Err(string_from_str("鼠标按钮归属不明，未发送释放"));
        }
        Self::check_cancel(cancel)?;
        let sent = send();
        match sent {
            Err(e) => {
                return Err(e);
            },
            Ok(u) => {
                assert(u == ());
            },
        }
        let label = button_debug_label(button);
        self.mark_last_input(describe("button_up:", &label));
        self.forget_button(button);
        broker.set_button_owner(button, 0);
        Ok(())
    }

    /// Performs an input action that holds nothing down (a move, a wheel
    /// turn) once `permission` and the cancellation flag allow it.
    pub fn perform_with_permission<
        P: FnOnce() -> Result<(), String>,
        F: FnOnce() -> Result<(), String>,
    >(&mut self, description: &str, cancel: Option<&AtomicBool>, permission: P, send: F) -> (r:
        Result<(), String>)
        requires
            old(self).wf(),
            permission.requires(()),
            send.requires(()),
        ensures
            final(self).wf(),
            final(self).held_keys() == old(self).held_keys(),
            final(self).held_buttons() == old(self).held_buttons(),
            final(self).spec_owner() == old(self).spec_owner(),
            r is Ok ==> permission.ensures((), Ok(())) && send.ensures((), Ok(()))
                && final(self).spec_last_input() == Some(description@),
            r is Err ==> final(self).spec_last_input() == old(self).spec_last_input(),
            r matches Err(e) ==> (cancel is Some && e@ == cancelled_message()) || permission.ensures((), Err(e)) || (permission.ensures((), Ok(())) && send.ensures((), Err(e))),
    {
        Self::check_cancel(cancel)?;
        let granted = permission();
        match granted {
            Err(e) => {
                return Err(e);
            },
            Ok(u) => {
                assert(u == ());
            },
        }
        Self::check_cancel(cancel)?;
        let sent = send();
        match sent {
            Err(e) => {
                return Err(e);
            },
            Ok(u) => {
                assert(u == ());
            },
        }
        self.mark_last_input(string_from_str(description));
        Ok(())
    }

    /// The number of held keys and held buttons.
    pub fn counts(&self) -> (r: (usize, usize))
        requires
            self.wf(),
        ensures
            r.0 == self.held_keys().len(),
            r.1 == self.held_buttons().len(),
    {
        proof {
            self.buttons@.unique_seq_to_set();
        }
        (self.keys.len(), self.buttons.len())
    }

    /// Whether a key is held.
    pub fn has_key(&self, vk: u32) -> (r: bool)
        ensures
            r == self.held_keys().contains(vk),
    {
        self.keys.contains(&vk)
    }

    /// The held buttons, each once.
    pub fn buttons_snapshot(&self) -> (r: Result<Vec<MouseButton>, String>)
        requires
            self.wf(),
        ensures
            r matches Ok(v) && v@.to_set() == self.held_buttons() && v@.no_duplicates(),
    {
        Ok(self.buttons.clone())
    }

    /// The description of the last input transaction.
    pub fn last_input(&self) -> (r: Option<String>)
        ensures
            match r {
                Some(s) => self.spec_last_input() == Some(s@),
                None => self.spec_last_input() is None,
            },
    {
        match &self.last_input {
            Some(s) => Some(s.clone()),
            None => None,
        }
    }

    /// When the last input transaction happened, in Unix milliseconds.
    pub fn last_input_at_ms(&self) -> (r: Option<u64>)
        ensures
            r == self.spec_last_input_at_ms(),
    {
        self.last_input_at_ms
    }
}


/// The conflict message of a press that the broker refuses.
pub open spec fn press_conflict_message() -> Seq<char> {
    "输入键已由其他功能持有或归属不明，未发送按下"@
}

/// The cancellation message.
pub open spec fn cancelled_message() -> Seq<char> {
    "脚本已被 F12 停止"@
}

/// A press of `key` by `owner` conflicts with a ledger holding `held` and a
/// broker recording `owners`, as `key_press_conflict` says of live values.
pub open spec fn unit_conflict(held: Set<u32>, owners: Map<u32, u64>, owner: u64, key: u32) -> bool {
    ||| owner == 0
    ||| (owners.contains_key(key) && owners[key] != owner)
    ||| (held.contains(key) != (owners.contains_key(key) && owners[key] == owner))
}

/// The UTF-16 code units of one character.
pub open spec fn utf16_of_char(c: char) -> Seq<u16> {
    let v = (c as u32) as int;
    if v < 0x10000 {
        seq![v as u16]
    } else {
        seq![(0xD800 + (v - 0x10000) / 0x400) as u16, (0xDC00 + (v - 0x10000) % 0x400) as u16]
    }
}

/// The UTF-16 encoding of a text, as `str::encode_utf16` produces it.
pub open spec fn utf16_units(s: Seq<char>) -> Seq<u16>
    decreases s.len(),
{
    if s.len() == 0 {
        seq![]
    } else {
        utf16_units(s.drop_last()) + utf16_of_char(s.last())
    }
}

/// The ledger key under which a typed UTF-16 unit is held.
pub open spec fn unicode_key(unit: u16) -> u32 {
    (UNICODE_INPUT_TAG + unit) as u32
}

/// The ledger keys of the first `n` units of a text.
pub open spec fn text_keys(units: Seq<u16>, n: int) -> Set<u32> {
    Set::new(|k: u32| exists|i: int| 0 <= i < n && k == unicode_key(#[trigger] units[i]))
}

/// How typing a text failed at unit `j`, with `held` and `owners` the ledger
/// and broker when typing began and `end_*` them afterwards. Until unit `j`
/// every unit was pressed and released. Unit `j` was either not pressed:
/// the cancellation flag was set, the broker refused the press, the
/// permission was refused, or the press failed, and nothing of it was
/// recorded; or pressed but not released: it stays held, here and in the
/// broker, with its press as the last input and the release's error.
pub open spec fn text_unit_failed<F: Fn(u32, bool) -> Result<(), String>>(
    send: F,
    held: Set<u32>,
    owners: Map<u32, u64>,
    owner: u64,
    units: Seq<u16>,
    j: int,
    cancellable: bool,
    permission_refused: bool,
    permission_granted: bool,
    end_held: Set<u32>,
    end_owners: Map<u32, u64>,
    last: Option<Seq<char>>,
    e: String,
) -> bool {
    let before = held.difference(text_keys(units, j));
    let owners_before = owners.remove_keys(text_keys(units, j));
    let key = unicode_key(units[j]);
    let conflict = unit_conflict(before, owners_before, owner, key);
    ||| {
        &&& end_held == before
        &&& end_owners == owners_before
        &&& {
            ||| cancellable && e@ == cancelled_message()
            ||| conflict && e@ == press_conflict_message()
            ||| !conflict && permission_refused
            ||| !conflict && permission_granted && send.ensures((key, true), Err(e))
        }
    }
    ||| {
        &&& end_held == before.insert(key)
        &&& end_owners == owners_before.insert(key, owner)
        &&& !conflict
        &&& permission_granted
        &&& send.ensures((key, true), Ok(()))
        &&& send.ensures((key, false), Err(e))
        &&& last == Some("key_down:"@ + "unicode_unit"@)
    }
}

/// The UTF-16 code units of a text.
pub fn encode_utf16(text: &str) -> (r: Vec<u16>)
    ensures
        r@ == utf16_units(text@),
{
    let chars = str_chars(text);
    let mut out: Vec<u16> = Vec::new();
    let mut i: usize = 0;
    while i < chars.len()
        invariant
            chars@ == text@,
            i <= chars@.len(),
            out@ == utf16_units(text@.subrange(0, i as int)),
        decreases chars@.len() - i,
    {
        let c = chars[i];
        let v: u32 = c as u32;
        let ghost prev = out@;
        proof {
            vstd::utf8::char_is_scalar(c);
        }
        assert(v <= 0x10FFFF);
        if v < 0x10000 {
            out.push(v as u16);
            assert(out@ =~= prev + utf16_of_char(c));
        } else {
            let w: u32 = v - 0x10000;
            let hi: u16 = (0xD800 + w / 0x400) as u16;
            let lo: u16 = (0xDC00 + w % 0x400) as u16;
            out.push(hi);
            out.push(lo);
            assert(out@ =~= prev + utf16_of_char(c));
        }
        proof {
            let next = text@.subrange(0, i as int + 1);
            assert(next.drop_last() =~= text@.subrange(0, i as int));
            assert(next.last() == c);
        }
        i = i + 1;
        assert(out@ =~= utf16_units(text@.subrange(0, i as int)));
    }
    assert(text@.subrange(0, chars@.len() as int) =~= text@);
    out
}

fn unicode_key_of(unit: u16) -> (r: u32)
    ensures
        r == unicode_key(unit),
        key_label(r) == "unicode_unit"@,
{
    let v: u32 = unit as u32;
    let r: u32 = UNICODE_INPUT_TAG | v;
    assert(r == 0x10000u32 + v && r & 0x10000u32 != 0) by (bit_vector)
        requires
            r == 0x10000u32 | v,
            v < 0x10000u32,
    ;
    r
}

/// The error reported for a held input that the broker does not record as
/// the ledger's own; cleanup does not try to release it.
pub open spec fn ownership_mismatch_message() -> Seq<char> {
    "输入归属不一致，未执行释放"@
}

/// A key failure of a cleanup: the key is still held and the report names it
/// by its redacted label. A key this ledger owned in the broker was tried
/// `MAX_CLEANUP_ATTEMPTS` times and the report carries the error `key_up`
/// gave on the last try; any other key was not tried at all and carries the
/// ownership error.
pub open spec fn key_failure_reports<K: Fn(u32) -> Result<(), String>>(
    key_up: K,
    failure: CleanupFailure,
    k: u32,
    held: Set<u32>,
    owned: bool,
) -> bool {
    &&& failure.kind@ == "key"@
    &&& held.contains(k)
    &&& failure.value@ == key_label(k)
    &&& if owned {
        &&& failure.attempts == MAX_CLEANUP_ATTEMPTS
        &&& key_up.ensures((k,), Err(failure.last_error))
    } else {
        failure.attempts == 0 && failure.last_error@ == ownership_mismatch_message()
    }
}

/// A button failure of a cleanup, as for keys.
pub open spec fn button_failure_reports<B: Fn(MouseButton) -> Result<(), String>>(
    button_up: B,
    failure: CleanupFailure,
    b: MouseButton,
    held: Set<MouseButton>,
    owned: bool,
) -> bool {
    &&& failure.kind@ == "button"@
    &&& held.contains(b)
    &&& failure.value@ == button_debug_name(b)
    &&& if owned {
        &&& failure.attempts == MAX_CLEANUP_ATTEMPTS
        &&& button_up.ensures((b,), Err(failure.last_error))
    } else {
        failure.attempts == 0 && failure.last_error@ == ownership_mismatch_message()
    }
}

impl Default for InjectedInputState {
    fn default() -> (r: Self)
        ensures
            r.wf(),
            r.held_keys() == Set::<u32>::empty(),
            r.held_buttons() == Set::<MouseButton>::empty(),
            r.spec_last_input() is None,
            r.spec_owner() == 1,
    {
        Self::new()
    }
}

impl InjectedInputState {
    fn record_key_down(&mut self, vk: u32)
        ensures
            final(self).held_keys() == old(self).held_keys().insert(vk),
            final(self).buttons == old(self).buttons,
            final(self).owner == old(self).owner,
            final(self).spec_last_input() == Some("key_down:"@ + key_label(vk)),
    {
        let label = input_key_label(vk);
        self.mark_last_input(describe("key_down:", &label));
        self.keys.insert(vk);
    }

    fn record_key_up(&mut self, vk: u32)
        ensures
            final(self).held_keys() == old(self).held_keys().remove(vk),
            final(self).buttons == old(self).buttons,
            final(self).owner == old(self).owner,
            final(self).spec_last_input() == Some("key_up:"@ + key_label(vk)),
    {
        let label = input_key_label(vk);
        self.mark_last_input(describe("key_up:", &label));
        self.keys.remove(&vk);
    }

    /// Types a text as UTF-16 units. Each unit is pressed under `permission`
    /// and the cancellation flag and recorded as held, here and in the broker,
    /// then released without consulting the flag, so a cancellation that
    /// arrives during a press still releases that unit and stops before the
    /// next one. A unit whose press conflicts with the broker is not sent; a
    /// unit whose release fails stays held for cleanup. The text itself never
    /// reaches the diagnostic description.
    #[verifier::spinoff_prover]
    #[verifier::rlimit(30)]
    pub fn send_text_with_permission<
        P: Fn() -> Result<(), String>,
        F: Fn(u32, bool) -> Result<(), String>,
    >(&mut self, broker: &mut InputBroker, text: &str, cancel: Option<&AtomicBool>, permission: P, send: F) -> (r: Result<
        (),
        String,
    >)
        requires
            old(self).wf(),
            old(broker).wf(),
            permission.requires(()),
            forall|k: u32, d: bool| #[trigger] send.requires((k, d)),
        ensures
            final(self).wf(),
            final(broker).wf(),
            final(self).spec_owner() == old(self).spec_owner(),
            final(self).held_buttons() == old(self).held_buttons(),
            forall|b: MouseButton| final(broker).button_owner(b) == old(broker).button_owner(b),
            final(broker).last_owner() == old(broker).last_owner(),
            r is Ok ==> final(self).held_keys() == old(self).held_keys().difference(
                text_keys(utf16_units(text@), utf16_units(text@).len() as int),
            ) && final(broker).key_owners() == old(broker).key_owners().remove_keys(
                text_keys(utf16_units(text@), utf16_units(text@).len() as int),
            ),
            r is Ok && utf16_units(text@).len() > 0 ==> final(self).spec_last_input() == Some(
                "key_up:"@ + "unicode_unit"@,
            ) && permission.ensures((), Ok(())),
            r is Ok ==> forall|j: int|
                0 <= j < utf16_units(text@).len() ==> send.ensures(
                    (unicode_key(#[trigger] utf16_units(text@)[j]), true),
                    Ok(()),
                ) && send.ensures((unicode_key(utf16_units(text@)[j]), false), Ok(())),
            !permission.ensures((), Ok(())) ==> final(self).held_keys() == old(self).held_keys()
                && *final(broker) == *old(broker),
            cancel is None && utf16_units(text@).len() > 0 && old(self).key_press_conflict(
                old(broker),
                unicode_key(utf16_units(text@)[0]),
            ) ==> (r matches Err(e) && e@ == "输入键已由其他功能持有或归属不明，未发送按下"@),
            r is Err ==> exists|j: int|
                0 <= j < utf16_units(text@).len() && #[trigger] text_unit_failed(
                    send,
                    old(self).held_keys(),
                    old(broker).key_owners(),
                    old(self).spec_owner(),
                    utf16_units(text@),
                    j,
                    cancel is Some,
                    permission.ensures((), Err(r->Err_0)),
                    permission.ensures((), Ok(())),
                    final(self).held_keys(),
                    final(broker).key_owners(),
                    final(self).spec_last_input(),
                    r->Err_0,
                ),
    {
        let units = encode_utf16(text);
        let ghost all = units@;
        let ghost start = self.held_keys();
        let ghost start_owners = broker.key_owners();
        let mut i: usize = 0;
        assert(start.difference(text_keys(all, 0)) =~= start);
        assert(start_owners.remove_keys(text_keys(all, 0)) =~= start_owners);
        while i < units.len()
            invariant
                all == units@,
                all == utf16_units(text@),
                i <= all.len(),
                self.wf(),
                broker.wf(),
                self.spec_owner() == old(self).spec_owner(),
                self.held_buttons() == old(self).held_buttons(),
                forall|b: MouseButton| broker.button_owner(b) == old(broker).button_owner(b),
                broker.last_owner() == old(broker).last_owner(),
                start == old(self).held_keys(),
                start_owners == old(broker).key_owners(),
                self.held_keys() == start.difference(text_keys(all, i as int)),
                broker.key_owners() == start_owners.remove_keys(text_keys(all, i as int)),
                i == 0 ==> self.held_keys() == start && broker.key_owners() == start_owners
                    && *broker == *old(broker),
                i > 0 ==> self.spec_last_input() == Some("key_up:"@ + "unicode_unit"@)
                    && permission.ensures((), Ok(())),
                i > 0 ==> !old(self).key_press_conflict(old(broker), unicode_key(all[0])),
                forall|j: int|
                    0 <= j < i ==> send.ensures((unicode_key(#[trigger] all[j]), true), Ok(())) && send.ensures(
                        (unicode_key(all[j]), false),
                        Ok(()),
                    ),
                permission.requires(()),
                forall|k: u32, d: bool| #[trigger] send.requires((k, d)),
            decreases all.len() - i,
        {
            let key = unicode_key_of(units[i]);
            let ghost before = self.held_keys();
            let ghost owners_before = broker.key_owners();
            let ghost owner = self.spec_owner();
            let ghost last_before = self.spec_last_input();
            let ghost conflict = unit_conflict(before, owners_before, owner, key);
            assert(key == unicode_key(all[i as int]));
            assert(conflict == self.key_press_conflict(broker, key));
            if let Err(e) = Self::check_cancel(cancel) {
                assert(text_unit_failed(
                    send, start, start_owners, owner, all, i as int, cancel is Some,
                    permission.ensures((), Err(e)), permission.ensures((), Ok(())),
                    self.held_keys(), broker.key_owners(), self.spec_last_input(), e,
                ));
                return Err(e);
            }
            if self.key_press_conflicts(broker, key) {
                let e = string_from_str("输入键已由其他功能持有或归属不明，未发送按下");
                assert(e@ == press_conflict_message());
                assert(conflict);
                assert(text_unit_failed(
                    send, old(self).held_keys(), old(broker).key_owners(), old(self).spec_owner(),
                    utf16_units(text@), i as int, cancel is Some,
                    permission.ensures((), Err(e)), permission.ensures((), Ok(())),
                    self.held_keys(), broker.key_owners(), self.spec_last_input(), e,
                ));
                let r: Result<(), String> = Err(e);
                assert(r->Err_0 == e);
                assert(exists|j: int|
                    0 <= j < utf16_units(text@).len() && #[trigger] text_unit_failed(
                        send, old(self).held_keys(), old(broker).key_owners(), old(self).spec_owner(),
                        utf16_units(text@), j, cancel is Some,
                        permission.ensures((), Err(r->Err_0)), permission.ensures((), Ok(())),
                        self.held_keys(), broker.key_owners(), self.spec_last_input(), r->Err_0,
                    ));
                return r;
            }
            proof {
                if i == 0 {
                    assert(!old(self).key_press_conflict(old(broker), unicode_key(all[0])));
                }
            }
            let granted = permission();
            match granted {
                Err(e) => {
                    assert(text_unit_failed(
                        send, start, start_owners, owner, all, i as int, cancel is Some,
                        permission.ensures((), Err(e)), permission.ensures((), Ok(())),
                        self.held_keys(), broker.key_owners(), self.spec_last_input(), e,
                    ));
                    return Err(e);
                },
                Ok(u) => {},
            }
            if let Err(e) = Self::check_cancel(cancel) {
                assert(text_unit_failed(
                    send, start, start_owners, owner, all, i as int, cancel is Some,
                    permission.ensures((), Err(e)), permission.ensures((), Ok(())),
                    self.held_keys(), broker.key_owners(), self.spec_last_input(), e,
                ));
                return Err(e);
            }
            let pressed = send(key, true);
            match pressed {
                Err(e) => {
                    assert(send.ensures((key, true), Err(e)));
                    assert(text_unit_failed(
                        send, start, start_owners, owner, all, i as int, cancel is Some,
                        permission.ensures((), Err(e)), permission.ensures((), Ok(())),
                        self.held_keys(), broker.key_owners(), self.spec_last_input(), e,
                    ));
                    return Err(e);
                },
                Ok(u) => {},
            }
            self.record_key_down(key);
            broker.claim_key(key, self.owner);
            let released = send(key, false);
            match released {
                Err(e) => {
                    assert(send.ensures((key, false), Err(e)));
                    assert(self.held_keys() == before.insert(unicode_key(all[i as int])));
                    assert(text_unit_failed(
                        send, start, start_owners, owner, all, i as int, cancel is Some,
                        permission.ensures((), Err(e)), permission.ensures((), Ok(())),
                        self.held_keys(), broker.key_owners(), self.spec_last_input(), e,
                    ));
                    return Err(e);
                },
                Ok(u) => {},
            }
            self.record_key_up(key);
            broker.release_key(key);
            proof {
                assert(send.ensures((key, true), Ok(())));
                assert(send.ensures((key, false), Ok(())));
                assert forall|j: int|
                    0 <= j < i + 1 implies send.ensures((unicode_key(#[trigger] all[j]), true), Ok(()))
                    && send.ensures((unicode_key(all[j]), false), Ok(())) by {
                    if j == i {
                        assert(unicode_key(all[j]) == key);
                    }
                };
                assert forall|k: u32| #[trigger]
                    text_keys(all, i as int + 1).contains(k) <==> (text_keys(
                        all,
                        i as int,
                    ).contains(k) || k == key) by {
                    if k == key {
                        assert(all[i as int] == units@[i as int]);
                    }
                    if text_keys(all, i as int + 1).contains(k) && k != key {
                        let w = choose|w: int| 0 <= w < i + 1 && k == unicode_key(#[trigger] all[w]);
                        assert(w < i);
                    }
                };
                assert(before.insert(key).remove(key) =~= start.difference(
                    text_keys(all, i as int + 1),
                ));
                assert(owners_before.insert(key, self.owner).remove(key) =~= start_owners.remove_keys(
                    text_keys(all, i as int + 1),
                ));
            }
            i = i + 1;
        }
        Ok(())
    }

    /// Tries to release each held key that the broker records as this
    /// ledger's up to `MAX_CLEANUP_ATTEMPTS` times, stopping at the first
    /// success and forgetting exactly the keys whose release succeeded, here
    /// and in the broker. A held key the broker does not record as this
    /// ledger's is not tried. Returns how many were released, one failure per
    /// key that stays held and, as ghost, the key of each failure.
    #[verifier::spinoff_prover]
    #[verifier::rlimit(40)]
    fn release_held_keys<K: Fn(u32) -> Result<(), String>>(&mut self, broker: &mut InputBroker, key_up: K) -> (r: (
        usize,
        Vec<CleanupFailure>,
        Ghost<Seq<u32>>,
    ))
        requires
            old(self).wf(),
            old(broker).wf(),
            forall|k: u32| #[trigger] key_up.requires((k,)),
        ensures
            final(self).wf(),
            final(broker).wf(),
            final(self).buttons == old(self).buttons,
            final(self).owner == old(self).owner,
            final(self).held_keys().subset_of(old(self).held_keys()),
            final(self).held_keys().finite(),
            final(broker).key_owners() == old(broker).key_owners().remove_keys(
                old(self).held_keys().difference(final(self).held_keys()),
            ),
            forall|b: MouseButton| final(broker).button_owner(b) == old(broker).button_owner(b),
            final(broker).last_owner() == old(broker).last_owner(),
            r.0 + final(self).held_keys().len() == old(self).held_keys().len(),
            r.1@.len() == final(self).held_keys().len(),
            r.2@.len() == r.1@.len(),
            forall|k: u32|
                #[trigger] old(self).held_keys().contains(k) && !final(self).held_keys().contains(k) ==> old(
                    broker,
                ).owns_key(k, old(self).owner) && key_up.ensures((k,), Ok(())),
            forall|i: int|
                0 <= i < r.1@.len() ==> key_failure_reports(
                    key_up,
                    #[trigger] r.1@[i],
                    r.2@[i],
                    final(self).held_keys(),
                    old(broker).owns_key(r.2@[i], old(self).owner),
                ),
            forall|k: u32|
                #[trigger] final(self).held_keys().contains(k) ==> exists|i: int| 0 <= i < r.2@.len() && r.2@[i] == k,
    {
        broadcast use vstd::seq_lib::seq_to_set_is_finite;

        let mut released_count: usize = 0;
        let mut failures: Vec<CleanupFailure> = Vec::new();
        let keys = crate::ledger::set_keys(&self.keys);
        let ghost start_keys = self.held_keys();
        let ghost start_broker = *broker;
        let ghost owner = self.owner;
        let ghost mut key_fail: Seq<int> = Seq::empty();
        proof {
            keys@.unique_seq_to_set();
            assert(start_keys.difference(start_keys) =~= Set::<u32>::empty());
            assert(start_broker.key_owners().remove_keys(Set::<u32>::empty()) =~= start_broker.key_owners());
        }
        let mut i: usize = 0;
        while i < keys.len()
            invariant
                keys@.to_set() == start_keys,
                keys@.no_duplicates(),
                start_keys == old(self).held_keys(),
                start_broker == *old(broker),
                owner == old(self).owner,
                start_keys.finite(),
                start_keys.len() == keys@.len(),
                i <= keys@.len(),
                self.wf(),
                broker.wf(),
                self.owner == owner,
                self.buttons == old(self).buttons,
                self.held_keys().subset_of(start_keys),
                broker.key_owners() == start_broker.key_owners().remove_keys(
                    start_keys.difference(self.held_keys()),
                ),
                forall|b: MouseButton| broker.button_owner(b) == start_broker.button_owner(b),
                broker.last_owner() == start_broker.last_owner(),
                forall|j: int| i <= j < keys@.len() ==> self.held_keys().contains(#[trigger] keys@[j]),
                released_count + self.held_keys().len() == start_keys.len(),
                failures@.len() + released_count == i,
                key_fail.len() == failures@.len(),
                forall|k: u32|
                    #[trigger] start_keys.contains(k) && !self.held_keys().contains(k) ==> start_broker.owns_key(
                        k,
                        owner,
                    ) && key_up.ensures((k,), Ok(())),
                forall|j: int| 0 <= j < failures@.len() ==> 0 <= #[trigger] key_fail[j] < i,
                forall|j: int|
                    0 <= j < failures@.len() ==> key_failure_reports(
                        key_up,
                        #[trigger] failures@[j],
                        keys@[key_fail[j]],
                        self.held_keys(),
                        start_broker.owns_key(keys@[key_fail[j]], owner),
                    ),
                forall|j: int|
                    0 <= j < i && self.held_keys().contains(#[trigger] keys@[j]) ==> exists|t: int|
                        0 <= t < key_fail.len() && key_fail[t] == j,
                forall|k: u32| #[trigger] key_up.requires((k,)),
            decreases keys@.len() - i,
        {
            let vk = keys[i];
            let label = input_key_label(vk);
            let ghost failures_before = failures@;
            let ghost fail_before = key_fail;
            let ghost held_before = self.held_keys();
            let ghost owners_before = broker.key_owners();
            assert(self.held_keys().contains(keys@[i as int]));
            assert(!start_keys.difference(self.held_keys()).contains(vk));
            let owned = self.owns_key_now(broker, vk);
            assert(owned == start_broker.owns_key(vk, owner));
            let mut released = false;
            if !owned {
                failures.push(
                    CleanupFailure {
                        kind: "key",
                        value: label,
                        attempts: 0,
                        last_error: string_from_str("输入归属不一致，未执行释放"),
                    },
                );
                proof {
                    key_fail = key_fail.push(i as int);
                }
            } else {
                let mut attempt: usize = 0;
                let mut last_error = String::new();
                let ghost keys_now = self.keys@;
                let ghost buttons_now = self.buttons;
                let ghost owner_now = self.owner;
                while attempt < MAX_CLEANUP_ATTEMPTS && !released
                    invariant
                        attempt <= MAX_CLEANUP_ATTEMPTS,
                        released ==> key_up.ensures((vk,), Ok(())),
                        !released && attempt > 0 ==> key_up.ensures((vk,), Err(last_error)),
                        self.keys@ == keys_now,
                        self.buttons == buttons_now,
                        self.owner == owner_now,
                        forall|k: u32| #[trigger] key_up.requires((k,)),
                    decreases MAX_CLEANUP_ATTEMPTS - attempt,
                {
                    attempt = attempt + 1;
                    self.mark_last_input(describe("cleanup_key_up:", &label));
                    let outcome = key_up(vk);
                    match outcome {
                        Ok(u) => {
                            released = true;
                        },
                        Err(e) => {
                            last_error = e;
                        },
                    }
                }
                if released {
                    self.keys.remove(&vk);
                    broker.release_key(vk);
                    released_count = released_count + 1;
                    proof {
                        assert forall|j: int| 0 <= j < key_fail.len() implies keys@[key_fail[j]] != vk by {
                            assert(failures_before[j] == failures@[j]);
                            assert(key_fail[j] < i);
                        };
                        assert(start_keys.difference(self.held_keys()) =~= start_keys.difference(
                            held_before,
                        ).insert(vk));
                        assert(owners_before.remove(vk) =~= start_broker.key_owners().remove_keys(
                            start_keys.difference(self.held_keys()),
                        ));
                    }
                } else {
                    failures.push(
                        CleanupFailure { kind: "key", value: label, attempts: attempt, last_error },
                    );
                    proof {
                        key_fail = key_fail.push(i as int);
                    }
                }
            }
            proof {
                assert forall|j: int| 0 <= j < failures@.len() implies 0 <= key_fail[j] < i + 1
                    && key_failure_reports(
                    key_up,
                    #[trigger] failures@[j],
                    keys@[key_fail[j]],
                    self.held_keys(),
                    start_broker.owns_key(keys@[key_fail[j]], owner),
                ) by {
                    if j < failures_before.len() {
                        assert(failures@[j] == failures_before[j]);
                        assert(key_fail[j] == fail_before[j]);
                        assert(key_failure_reports(
                            key_up,
                            failures_before[j],
                            keys@[fail_before[j]],
                            held_before,
                            start_broker.owns_key(keys@[fail_before[j]], owner),
                        ));
                        assert(keys@[fail_before[j]] != vk || !released);
                        assert(self.held_keys().contains(keys@[key_fail[j]]));
                    }
                };
                assert forall|j: int|
                    0 <= j < i + 1 && self.held_keys().contains(#[trigger] keys@[j]) implies exists|t: int|
                    0 <= t < key_fail.len() && key_fail[t] == j by {
                    if j == i {
                        assert(!released);
                        assert(key_fail[key_fail.len() - 1] == j);
                    } else {
                        assert(keys@[j] != vk);
                        assert(held_before.contains(keys@[j]));
                        let t = choose|t: int| 0 <= t < fail_before.len() && fail_before[t] == j;
                        assert(key_fail[t] == j);
                    }
                };
            }
            i = i + 1;
        }
        let ghost failed_keys = Seq::new(key_fail.len(), |j: int| keys@[key_fail[j]]);
        proof {
            assert forall|k: u32| #[trigger] self.held_keys().contains(k) implies exists|t: int|
                0 <= t < failed_keys.len() && failed_keys[t] == k by {
                assert(start_keys.contains(k));
                let j = choose|j: int| 0 <= j < keys@.len() && keys@[j] == k;
                let t = choose|t: int| 0 <= t < key_fail.len() && key_fail[t] == j;
                assert(failed_keys[t] == k);
            };
        }
        (released_count, failures, Ghost(failed_keys))
    }

    /// Tries to release each held button that the broker records as this
    /// ledger's up to `MAX_CLEANUP_ATTEMPTS` times, as for keys. Returns how
    /// many were released, one failure per button that stays held and, as
    /// ghost, the button of each failure.
    #[verifier::spinoff_prover]
    #[verifier::rlimit(40)]
    fn release_held_buttons<B: Fn(MouseButton) -> Result<(), String>>(
        &mut self,
        broker: &mut InputBroker,
        button_up: B,
    ) -> (r: (usize, Vec<CleanupFailure>, Ghost<Seq<MouseButton>>))
        requires
            old(self).wf(),
            old(broker).wf(),
            forall|c: MouseButton| #[trigger] button_up.requires((c,)),
        ensures
            final(self).wf(),
            final(broker).wf(),
            final(self).keys == old(self).keys,
            final(self).owner == old(self).owner,
            final(self).held_buttons().subset_of(old(self).held_buttons()),
            final(broker).key_owners() == old(broker).key_owners(),
            final(broker).last_owner() == old(broker).last_owner(),
            forall|c: MouseButton|
                #[trigger] final(broker).button_owner(c) == if old(self).held_buttons().contains(c)
                    && !final(self).held_buttons().contains(c) {
                    0
                } else {
                    old(broker).button_owner(c)
                },
            r.0 + final(self).held_buttons().len() == old(self).held_buttons().len(),
            r.1@.len() == final(self).held_buttons().len(),
            forall|c: MouseButton|
                #[trigger] old(self).held_buttons().contains(c) && !final(self).held_buttons().contains(c)
                    ==> old(broker).owns_button(c, old(self).owner) && button_up.ensures((c,), Ok(())),
            r.2@.len() == r.1@.len(),
            forall|i: int|
                0 <= i < r.1@.len() ==> button_failure_reports(
                    button_up,
                    #[trigger] r.1@[i],
                    r.2@[i],
                    final(self).held_buttons(),
                    old(broker).owns_button(r.2@[i], old(self).owner),
                ),
            forall|c: MouseButton|
                #[trigger] final(self).held_buttons().contains(c) ==> exists|i: int| 0 <= i < r.2@.len() && r.2@[i] == c,
    {
        broadcast use vstd::seq_lib::seq_to_set_is_finite;

        let mut released_count: usize = 0;
        let mut failures: Vec<CleanupFailure> = Vec::new();
        let buttons = self.buttons.clone();
        let ghost start_buttons = self.held_buttons();
        let ghost start_broker = *broker;
        let ghost owner = self.owner;
        proof {
            assert(buttons@ =~= self.buttons@);
            buttons@.unique_seq_to_set();
        }
        let ghost mut button_fail: Seq<int> = Seq::empty();
        let mut b: usize = 0;
        while b < buttons.len()
            invariant
                buttons@.to_set() == start_buttons,
                buttons@.no_duplicates(),
                start_buttons == old(self).held_buttons(),
                start_broker == *old(broker),
                owner == old(self).owner,
                start_buttons.len() == buttons@.len(),
                b <= buttons@.len(),
                self.wf(),
                broker.wf(),
                self.owner == owner,
                self.keys == old(self).keys,
                self.held_buttons().subset_of(start_buttons),
                broker.key_owners() == start_broker.key_owners(),
                broker.last_owner() == start_broker.last_owner(),
                forall|c: MouseButton|
                    #[trigger] broker.button_owner(c) == if start_buttons.contains(c)
                        && !self.held_buttons().contains(c) {
                        0
                    } else {
                        start_broker.button_owner(c)
                    },
                forall|j: int| b <= j < buttons@.len() ==> self.held_buttons().contains(#[trigger] buttons@[j]),
                released_count + self.held_buttons().len() == start_buttons.len(),
                failures@.len() + released_count == b,
                button_fail.len() == failures@.len(),
                forall|c: MouseButton|
                    #[trigger] start_buttons.contains(c) && !self.held_buttons().contains(c) ==> start_broker.owns_button(
                        c,
                        owner,
                    ) && button_up.ensures((c,), Ok(())),
                forall|j: int| 0 <= j < failures@.len() ==> 0 <= #[trigger] button_fail[j] < b,
                forall|j: int|
                    0 <= j < failures@.len() ==> button_failure_reports(
                        button_up,
                        #[trigger] failures@[j],
                        buttons@[button_fail[j]],
                        self.held_buttons(),
                        start_broker.owns_button(buttons@[button_fail[j]], owner),
                    ),
                forall|j: int|
                    0 <= j < b && self.held_buttons().contains(#[trigger] buttons@[j]) ==> exists|t: int|
                        0 <= t < button_fail.len() && button_fail[t] == j,
                forall|c: MouseButton| #[trigger] button_up.requires((c,)),
            decreases buttons@.len() - b,
        {
            let button = buttons[b];
            let label = button_debug_label(button);
            let ghost failures_before = failures@;
            let ghost fail_before = button_fail;
            let ghost held_before = self.held_buttons();
            assert(self.held_buttons().contains(buttons@[b as int]));
            assert(broker.button_owner(button) == start_broker.button_owner(button));
            let owned = self.owns_button_now(broker, button);
            let mut released = false;
            if !owned {
                failures.push(
                    CleanupFailure {
                        kind: "button",
                        value: label,
                        attempts: 0,
                        last_error: string_from_str("输入归属不一致，未执行释放"),
                    },
                );
                proof {
                    button_fail = button_fail.push(b as int);
                }
            } else {
                let mut attempt: usize = 0;
                let mut last_error = String::new();
                let ghost keys_now = self.keys;
                let ghost buttons_now = self.buttons;
                let ghost owner_now = self.owner;
                while attempt < MAX_CLEANUP_ATTEMPTS && !released
                    invariant
                        attempt <= MAX_CLEANUP_ATTEMPTS,
                        released ==> button_up.ensures((button,), Ok(())),
                        !released && attempt > 0 ==> button_up.ensures((button,), Err(last_error)),
                        self.keys == keys_now,
                        self.buttons == buttons_now,
                        self.owner == owner_now,
                        forall|c: MouseButton| #[trigger] button_up.requires((c,)),
                    decreases MAX_CLEANUP_ATTEMPTS - attempt,
                {
                    attempt = attempt + 1;
                    self.mark_last_input(describe("cleanup_button_up:", &label));
                    let outcome = button_up(button);
                    match outcome {
                        Ok(u) => {
                            released = true;
                        },
                        Err(e) => {
                            last_error = e;
                        },
                    }
                }
                if released {
                    self.forget_button(button);
                    broker.set_button_owner(button, 0);
                    released_count = released_count + 1;
                    proof {
                        assert forall|j: int| 0 <= j < button_fail.len() implies buttons@[button_fail[j]]
                            != button by {
                            assert(failures_before[j] == failures@[j]);
                            assert(button_fail[j] < b);
                        };
                    }
                } else {
                    failures.push(
                        CleanupFailure { kind: "button", value: label, attempts: attempt, last_error },
                    );
                    proof {
                        button_fail = button_fail.push(b as int);
                    }
                }
            }
            proof {
                assert forall|j: int| 0 <= j < failures@.len() implies 0 <= button_fail[j] < b + 1
                    && button_failure_reports(
                    button_up,
                    #[trigger] failures@[j],
                    buttons@[button_fail[j]],
                    self.held_buttons(),
                    start_broker.owns_button(buttons@[button_fail[j]], owner),
                ) by {
                    if j < failures_before.len() {
                        assert(failures@[j] == failures_before[j]);
                        assert(button_fail[j] == fail_before[j]);
                        assert(button_failure_reports(
                            button_up,
                            failures_before[j],
                            buttons@[fail_before[j]],
                            held_before,
                            start_broker.owns_button(buttons@[fail_before[j]], owner),
                        ));
                        assert(buttons@[fail_before[j]] != button || !released);
                        assert(self.held_buttons().contains(buttons@[button_fail[j]]));
                    }
                };
                assert forall|j: int|
                    0 <= j < b + 1 && self.held_buttons().contains(#[trigger] buttons@[j]) implies exists|t: int|
                    0 <= t < button_fail.len() && button_fail[t] == j by {
                    if j == b {
                        assert(!released);
                        assert(button_fail[button_fail.len() - 1] == j);
                    } else {
                        assert(buttons@[j] != button);
                        assert(held_before.contains(buttons@[j]));
                        let t = choose|t: int| 0 <= t < fail_before.len() && fail_before[t] == j;
                        assert(button_fail[t] == j);
                    }
                };
            }
            b = b + 1;
        }
        let ghost failed_buttons = Seq::new(button_fail.len(), |j: int| buttons@[button_fail[j]]);
        proof {
            assert forall|c: MouseButton| #[trigger] self.held_buttons().contains(c) implies exists|t: int|
                0 <= t < failed_buttons.len() && failed_buttons[t] == c by {
                assert(start_buttons.contains(c));
                let j = choose|j: int| 0 <= j < buttons@.len() && buttons@[j] == c;
                let t = choose|t: int| 0 <= t < button_fail.len() && button_fail[t] == j;
                assert(failed_buttons[t] == c);
            };
        }
        (released_count, failures, Ghost(failed_buttons))
    }

    /// Releases every held key and button that the broker records as this
    /// ledger's, each tried up to `MAX_CLEANUP_ATTEMPTS` times and stopping
    /// at the first success; the cancellation flag is not consulted. An input
    /// is forgotten, here and in the broker, exactly when its release
    /// succeeded; a held input the broker does not record as this ledger's is
    /// not tried. Every input that stays held is reported by one failure,
    /// keys first, with the error of its last release attempt. No other
    /// owner's entry in the broker is touched.
    pub fn cleanup<K: Fn(u32) -> Result<(), String>, B: Fn(MouseButton) -> Result<(), String>>(
        &mut self,
        broker: &mut InputBroker,
        key_up: K,
        button_up: B,
    ) -> (r: CleanupReport)
        requires
            old(self).wf(),
            old(broker).wf(),
            forall|k: u32| #[trigger] key_up.requires((k,)),
            forall|b: MouseButton| #[trigger] button_up.requires((b,)),
        ensures
            final(self).wf(),
            final(broker).wf(),
            final(self).spec_owner() == old(self).spec_owner(),
            final(self).held_keys().subset_of(old(self).held_keys()),
            final(self).held_buttons().subset_of(old(self).held_buttons()),
            r.released_keys + final(self).held_keys().len() == old(self).held_keys().len(),
            r.released_buttons + final(self).held_buttons().len() == old(self).held_buttons().len(),
            r.failures@.len() == final(self).held_keys().len() + final(self).held_buttons().len(),
            r.failures@.len() == 0 <==> (final(self).held_keys().is_empty()
                && final(self).held_buttons().is_empty()),
            final(broker).key_owners() == old(broker).key_owners().remove_keys(
                old(self).held_keys().difference(final(self).held_keys()),
            ),
            forall|b: MouseButton|
                #[trigger] final(broker).button_owner(b) == if old(self).held_buttons().contains(b)
                    && !final(self).held_buttons().contains(b) {
                    0
                } else {
                    old(broker).button_owner(b)
                },
            final(broker).last_owner() == old(broker).last_owner(),
            forall|k: u32|
                #[trigger] old(broker).key_owners().contains_key(k) && old(broker).key_owners()[k]
                    != old(self).spec_owner() ==> final(broker).key_owners().contains_key(k)
                    && final(broker).key_owners()[k] == old(broker).key_owners()[k],
            forall|b: MouseButton|
                old(broker).button_owner(b) != old(self).spec_owner() ==> #[trigger] final(broker).button_owner(b)
                    == old(broker).button_owner(b),
            forall|k: u32|
                #[trigger] old(self).held_keys().contains(k) && !final(self).held_keys().contains(k) ==> old(
                    broker,
                ).owns_key(k, old(self).spec_owner()) && key_up.ensures((k,), Ok(())),
            forall|b: MouseButton|
                #[trigger] old(self).held_buttons().contains(b) && !final(self).held_buttons().contains(b)
                    ==> old(broker).owns_button(b, old(self).spec_owner()) && button_up.ensures((b,), Ok(())),
            (forall|k: u32, res: Result<(), String>| #[trigger] key_up.ensures((k,), res) ==> res is Ok) && (forall|
                k: u32,
            | #[trigger] old(self).held_keys().contains(k) ==> old(broker).owns_key(k, old(self).spec_owner()))
                ==> final(self).held_keys().is_empty(),
            (forall|b: MouseButton, res: Result<(), String>| #[trigger] button_up.ensures((b,), res) ==> res is Ok)
                && (forall|b: MouseButton| #[trigger] old(self).held_buttons().contains(b) ==> old(
                broker,
            ).owns_button(b, old(self).spec_owner())) ==> final(self).held_buttons().is_empty(),
            forall|k: u32|
                #[trigger] final(self).held_keys().contains(k) ==> exists|i: int|
                    0 <= i < final(self).held_keys().len() && key_failure_reports(
                        key_up,
                        r.failures@[i],
                        k,
                        final(self).held_keys(),
                        old(broker).owns_key(k, old(self).spec_owner()),
                    ),
            forall|b: MouseButton|
                #[trigger] final(self).held_buttons().contains(b) ==> exists|i: int|
                    final(self).held_keys().len() <= i < r.failures@.len() && button_failure_reports(
                        button_up,
                        r.failures@[i],
                        b,
                        final(self).held_buttons(),
                        old(broker).owns_button(b, old(self).spec_owner()),
                    ),
    {
        let ghost start_broker = *broker;
        let (released_keys, mut failures, Ghost(failed_keys)) = self.release_held_keys(broker, key_up);
        let ghost key_failures = failures@;
        let ghost held_keys = self.held_keys();
        let ghost mid_broker = *broker;
        let (released_buttons, mut button_failures, Ghost(failed_buttons)) = self.release_held_buttons(
            broker,
            button_up,
        );
        let ghost button_part = button_failures@;
        failures.append(&mut button_failures);
        let report = CleanupReport { released_keys, released_buttons, failures };
        proof {
            broadcast use vstd::seq_lib::seq_to_set_is_finite;
            broadcast use vstd::set_lib::lemma_set_empty_equivalency_len;
            assert(self.held_buttons().finite());
            assert(report.failures@ =~= key_failures + button_part);
            assert(self.held_keys() == held_keys);
            assert forall|k: u32| #[trigger] self.held_keys().contains(k) implies exists|i: int|
                0 <= i < self.held_keys().len() && key_failure_reports(
                    key_up,
                    report.failures@[i],
                    k,
                    self.held_keys(),
                    start_broker.owns_key(k, self.owner),
                ) by {
                assert(held_keys.contains(k));
                let i = choose|i: int| 0 <= i < failed_keys.len() && failed_keys[i] == k;
                assert(report.failures@[i] == key_failures[i]);
                assert(key_failure_reports(
                    key_up,
                    key_failures[i],
                    failed_keys[i],
                    held_keys,
                    start_broker.owns_key(failed_keys[i], self.owner),
                ));
            };
            assert forall|b: MouseButton| #[trigger] self.held_buttons().contains(b) implies exists|i: int|
                self.held_keys().len() <= i < report.failures@.len() && button_failure_reports(
                    button_up,
                    report.failures@[i],
                    b,
                    self.held_buttons(),
                    start_broker.owns_button(b, self.owner),
                ) by {
                let w = choose|w: int| 0 <= w < failed_buttons.len() && failed_buttons[w] == b;
                let i = w + key_failures.len();
                assert(report.failures@[i] == button_part[w]);
                assert(mid_broker.button_owner(b) == start_broker.button_owner(b));
                assert(button_failure_reports(
                    button_up,
                    button_part[w],
                    failed_buttons[w],
                    self.held_buttons(),
                    mid_broker.owns_button(failed_buttons[w], self.owner),
                ));
            };
        }
        proof {
            if (forall|k: u32, res: Result<(), String>| #[trigger] key_up.ensures((k,), res) ==> res is Ok) && (forall|
                k: u32,
            | #[trigger] old(self).held_keys().contains(k) ==> start_broker.owns_key(k, self.owner)) {
                assert forall|k: u32| !self.held_keys().contains(k) by {
                    if self.held_keys().contains(k) {
                        let i = choose|i: int| 0 <= i < failed_keys.len() && failed_keys[i] == k;
                        assert(key_failure_reports(
                            key_up,
                            key_failures[i],
                            failed_keys[i],
                            held_keys,
                            start_broker.owns_key(failed_keys[i], self.owner),
                        ));
                        assert(key_up.ensures((k,), Err(key_failures[i].last_error)));
                    }
                };
                assert(self.held_keys() =~= Set::<u32>::empty());
            }
            if (forall|b: MouseButton, res: Result<(), String>| #[trigger] button_up.ensures((b,), res) ==> res is Ok)
                && (forall|b: MouseButton| #[trigger] old(self).held_buttons().contains(b) ==> start_broker.owns_button(
                b,
                self.owner,
            )) {
                assert forall|b: MouseButton| !self.held_buttons().contains(b) by {
                    if self.held_buttons().contains(b) {
                        let w = choose|w: int| 0 <= w < failed_buttons.len() && failed_buttons[w] == b;
                        assert(mid_broker.button_owner(b) == start_broker.button_owner(b));
                        assert(old(self).held_buttons().contains(b));
                        assert(start_broker.owns_button(b, self.owner));
                        assert(button_failure_reports(
                            button_up,
                            button_part[w],
                            failed_buttons[w],
                            self.held_buttons(),
                            mid_broker.owns_button(failed_buttons[w], self.owner),
                        ));
                        assert(button_up.ensures((b,), Err(button_part[w].last_error)));
                    }
                };
                assert(self.held_buttons() =~= Set::<MouseButton>::empty());
            }
        }
        report
    }
}


/// The capability held by one admitted playback run. Every ordinary input goes
/// through it and is refused once the controller no longer lets the run inject
/// input; the forced releases deliberately skip that check so that a revoked
/// run can still let go of what it holds.
pub struct InputPermit {
    state: InjectedInputState,
    token: RunToken,
}

/// The refusal of a permit whose run may no longer inject input.
pub open spec fn permit_revoked_message() -> Seq<char> {
    "输入许可已撤销，当前动作已停止"@
}

/// A permit's refusal: the run may no longer inject input, and the error is
/// the revocation message.
pub open spec fn permit_refused(controller: RuntimeController, token: RunToken, e: String) -> bool {
    !controller.spec_input_allowed(token) && e@ == permit_revoked_message()
}

fn permit_check(controller: &RuntimeController, token: RunToken) -> (r: Result<(), String>)
    ensures
        r is Ok <==> controller.spec_input_allowed(token),
        r matches Err(e) ==> e@ == permit_revoked_message(),
{
    if controller.input_allowed(token) {
        Ok(())
    } else {
        Err(string_from_str("输入许可已撤销，当前动作已停止"))
    }
}

impl InputPermit {
    /// The ledger behind the permit.
    pub closed spec fn spec_state(&self) -> InjectedInputState {
        self.state
    }

    /// The run the permit belongs to.
    pub closed spec fn spec_token(&self) -> RunToken {
        self.token
    }

    /// A permit for the run `token` over the ledger `state`.
    pub fn new(state: InjectedInputState, token: RunToken) -> (r: Self)
        ensures
            r.spec_state() == state,
            r.spec_token() == token,
    {
        InputPermit { state, token }
    }

    /// The ledger behind the permit.
    pub fn state(&self) -> (r: &InjectedInputState)
        ensures
            *r == self.spec_state(),
    {
        &self.state
    }

    /// Gives the ledger back, for cleanup after the run.
    pub fn into_state(self) -> (r: InjectedInputState)
        ensures
            r == self.spec_state(),
    {
        self.state
    }

    /// Presses a key while the run may inject input.
    pub fn send_key_down<F: FnOnce() -> Result<(), String>>(
        &mut self,
        controller: &RuntimeController,
        broker: &mut InputBroker,
        vk: u32,
        cancel: Option<&AtomicBool>,
        send: F,
    ) -> (r: Result<(), String>)
        requires
            old(self).spec_state().wf(),
            old(broker).wf(),
            send.requires(()),
        ensures
            final(self).spec_state().wf(),
            final(broker).wf(),
            !controller.spec_input_allowed(old(self).spec_token()) ==> *final(broker) == *old(broker)
                && final(self).spec_state().held_keys() == old(self).spec_state().held_keys()
                && final(self).spec_state().held_buttons() == old(self).spec_state().held_buttons(),
            cancel is None && old(self).spec_state().key_press_conflict(old(broker), vk) ==> r is Err,
            r is Ok ==> final(broker).key_owners() == old(broker).key_owners().insert(
                vk,
                old(self).spec_state().spec_owner(),
            ),
            r is Err ==> *final(broker) == *old(broker),
            final(self).spec_token() == old(self).spec_token(),
            final(self).spec_state().spec_owner() == old(self).spec_state().spec_owner(),
            final(self).spec_state().held_buttons() == old(self).spec_state().held_buttons(),
            r is Ok ==> controller.spec_input_allowed(old(self).spec_token()) && final(self).spec_state().held_keys() == old(self).spec_state().held_keys().insert(vk) && send.ensures(
                (),
                Ok(()),
            ),
            r is Err ==> final(self).spec_state().held_keys() == old(self).spec_state().held_keys(),
            r matches Err(e) ==> (cancel is Some && e@ == cancelled_message()) || (old(self).spec_state().key_press_conflict(old(broker), vk) && e@ == press_conflict_message()) || (!old(self).spec_state().key_press_conflict(old(broker), vk) && permit_refused(*controller, old(self).spec_token(), e)) || (!old(self).spec_state().key_press_conflict(old(broker), vk) && controller.spec_input_allowed(old(self).spec_token()) && send.ensures((), Err(e))),
    {
        let token = self.token;
        let permission = || -> (r: Result<(), String>)
            ensures
                r is Ok <==> controller.spec_input_allowed(token),
                r matches Err(e) ==> e@ == permit_revoked_message(),
            { permit_check(controller, token) };
        self.state.send_key_down_with_permission(broker, vk, cancel, permission, send)
    }

    /// Releases a held key while the run may inject input.
    pub fn send_key_up<F: FnOnce() -> Result<(), String>>(
        &mut self,
        controller: &RuntimeController,
        broker: &mut InputBroker,
        vk: u32,
        cancel: Option<&AtomicBool>,
        send: F,
    ) -> (r: Result<(), String>)
        requires
            old(self).spec_state().wf(),
            old(broker).wf(),
            send.requires(()),
        ensures
            final(self).spec_state().wf(),
            final(broker).wf(),
            !controller.spec_input_allowed(old(self).spec_token()) ==> *final(broker) == *old(broker)
                && final(self).spec_state().held_keys() == old(self).spec_state().held_keys()
                && final(self).spec_state().held_buttons() == old(self).spec_state().held_buttons(),
            old(self).spec_state().held_keys().contains(vk) && !old(broker).owns_key(
                vk,
                old(self).spec_state().spec_owner(),
            ) && cancel is None ==> r is Err,
            old(self).spec_state().held_keys().contains(vk) && r is Ok ==> final(broker).key_owners()
                == old(broker).key_owners().remove(vk),
            r is Err ==> *final(broker) == *old(broker),
            final(self).spec_token() == old(self).spec_token(),
            final(self).spec_state().spec_owner() == old(self).spec_state().spec_owner(),
            final(self).spec_state().held_buttons() == old(self).spec_state().held_buttons(),
            !old(self).spec_state().held_keys().contains(vk) ==> final(self).spec_state().held_keys()
                == old(self).spec_state().held_keys(),
            old(self).spec_state().held_keys().contains(vk) && r is Ok ==> controller.spec_input_allowed(
                old(self).spec_token(),
            ) && final(self).spec_state().held_keys() == old(self).spec_state().held_keys().remove(vk)
                && send.ensures((), Ok(())),
            r is Err ==> final(self).spec_state().held_keys() == old(self).spec_state().held_keys(),
            r matches Err(e) ==> (cancel is Some && e@ == cancelled_message()) || (old(self).spec_state().held_keys().contains(vk) && !old(broker).owns_key(vk, old(self).spec_state().spec_owner()) && e@ == "输入键归属不明，未发送释放"@) || (old(self).spec_state().held_keys().contains(vk) && old(broker).owns_key(vk, old(self).spec_state().spec_owner()) && permit_refused(*controller, old(self).spec_token(), e)) || (old(self).spec_state().held_keys().contains(vk) && old(broker).owns_key(vk, old(self).spec_state().spec_owner()) && controller.spec_input_allowed(old(self).spec_token()) && send.ensures((), Err(e))),
            !old(self).spec_state().held_keys().contains(vk) && cancel is None ==> r is Ok,
    {
        let token = self.token;
        let permission = || -> (r: Result<(), String>)
            ensures
                r is Ok <==> controller.spec_input_allowed(token),
                r matches Err(e) ==> e@ == permit_revoked_message(),
            { permit_check(controller, token) };
        self.state.send_key_up_with_permission(broker, vk, cancel, permission, send)
    }

    /// Presses a mouse button while the run may inject input.
    pub fn send_button_down<F: FnOnce() -> Result<(), String>>(
        &mut self,
        controller: &RuntimeController,
        broker: &mut InputBroker,
        button: MouseButton,
        cancel: Option<&AtomicBool>,
        send: F,
    ) -> (r: Result<(), String>)
        requires
            old(self).spec_state().wf(),
            old(broker).wf(),
            send.requires(()),
        ensures
            final(self).spec_state().wf(),
            final(broker).wf(),
            !controller.spec_input_allowed(old(self).spec_token()) ==> *final(broker) == *old(broker)
                && final(self).spec_state().held_keys() == old(self).spec_state().held_keys()
                && final(self).spec_state().held_buttons() == old(self).spec_state().held_buttons(),
            cancel is None && old(self).spec_state().button_press_conflict(old(broker), button) ==> r is Err,
            r is Ok ==> final(broker).button_owner(button) == old(self).spec_state().spec_owner(),
            r is Err ==> *final(broker) == *old(broker),
            final(self).spec_token() == old(self).spec_token(),
            final(self).spec_state().spec_owner() == old(self).spec_state().spec_owner(),
            final(self).spec_state().held_keys() == old(self).spec_state().held_keys(),
            r is Ok ==> controller.spec_input_allowed(old(self).spec_token()) && final(self).spec_state().held_buttons() == old(self).spec_state().held_buttons().insert(button)
                && send.ensures((), Ok(())),
            r is Err ==> final(self).spec_state().held_buttons() == old(self).spec_state().held_buttons(),
            r matches Err(e) ==> (cancel is Some && e@ == cancelled_message()) || (old(self).spec_state().button_press_conflict(old(broker), button) && e@ == "鼠标按钮已由其他功能持有或归属不明，未发送按下"@) || (!old(self).spec_state().button_press_conflict(old(broker), button) && permit_refused(*controller, old(self).spec_token(), e)) || (!old(self).spec_state().button_press_conflict(old(broker), button) && controller.spec_input_allowed(old(self).spec_token()) && send.ensures((), Err(e))),
    {
        let token = self.token;
        let permission = || -> (r: Result<(), String>)
            ensures
                r is Ok <==> controller.spec_input_allowed(token),
                r matches Err(e) ==> e@ == permit_revoked_message(),
            { permit_check(controller, token) };
        self.state.send_button_down_with_permission(broker, button, cancel, permission, send)
    }

    /// Releases a held key whatever the run's permission: the recovery path.
    pub fn force_key_up<F: FnOnce() -> Result<(), String>>(&mut self, broker: &mut InputBroker, vk: u32, send: F) -> (r:
        Result<(), String>)
        requires
            old(self).spec_state().wf(),
            old(broker).wf(),
            send.requires(()),
        ensures
            final(self).spec_state().wf(),
            final(broker).wf(),
            old(self).spec_state().held_keys().contains(vk) && r is Ok ==> final(broker).key_owners()
                == old(broker).key_owners().remove(vk),
            r is Err ==> *final(broker) == *old(broker),
            final(self).spec_token() == old(self).spec_token(),
            final(self).spec_state().spec_owner() == old(self).spec_state().spec_owner(),
            final(self).spec_state().held_buttons() == old(self).spec_state().held_buttons(),
            !old(self).spec_state().held_keys().contains(vk) ==> r is Ok && final(self).spec_state().held_keys() == old(self).spec_state().held_keys(),
            old(self).spec_state().held_keys().contains(vk) && r is Ok ==> final(self).spec_state().held_keys() == old(self).spec_state().held_keys().remove(vk) && send.ensures(
                (),
                Ok(()),
            ),
            r is Err ==> final(self).spec_state().held_keys() == old(self).spec_state().held_keys(),
            r matches Err(e) ==> (!old(broker).owns_key(vk, old(self).spec_state().spec_owner()) && e@ == "输入键归属不明，未发送释放"@) || send.ensures((), Err(e)),
    {
        self.state.send_key_up(broker, vk, None, send)
    }

    /// Releases a held button whatever the run's permission.
    pub fn force_button_up<F: FnOnce() -> Result<(), String>>(
        &mut self,
        broker: &mut InputBroker,
        button: MouseButton,
        send: F,
    ) -> (r: Result<(), String>)
        requires
            old(self).spec_state().wf(),
            old(broker).wf(),
            send.requires(()),
        ensures
            final(self).spec_state().wf(),
            final(broker).wf(),
            old(self).spec_state().held_buttons().contains(button) && r is Ok ==> final(broker).button_owner(button) == 0,
            r is Err ==> *final(broker) == *old(broker),
            final(self).spec_token() == old(self).spec_token(),
            final(self).spec_state().spec_owner() == old(self).spec_state().spec_owner(),
            final(self).spec_state().held_keys() == old(self).spec_state().held_keys(),
            !old(self).spec_state().held_buttons().contains(button) ==> r is Ok && final(self).spec_state().held_buttons() == old(self).spec_state().held_buttons(),
            old(self).spec_state().held_buttons().contains(button) && r is Ok ==> final(self).spec_state().held_buttons() == old(self).spec_state().held_buttons().remove(button)
                && send.ensures((), Ok(())),
            r is Err ==> final(self).spec_state().held_buttons() == old(self).spec_state().held_buttons(),
            r matches Err(e) ==> (!old(broker).owns_button(button, old(self).spec_state().spec_owner()) && e@ == "鼠标按钮归属不明，未发送释放"@) || send.ensures((), Err(e)),
    {
        self.state.send_button_up(broker, button, None, send)
    }

    /// Performs an input that holds nothing down while the run may inject
    /// input.
    pub fn perform<F: FnOnce() -> Result<(), String>>(
        &mut self,
        controller: &RuntimeController,
        description: &str,
        cancel: Option<&AtomicBool>,
        send: F,
    ) -> (r: Result<(), String>)
        requires
            old(self).spec_state().wf(),
            send.requires(()),
        ensures
            final(self).spec_state().wf(),
            final(self).spec_token() == old(self).spec_token(),
            final(self).spec_state().spec_owner() == old(self).spec_state().spec_owner(),
            final(self).spec_state().held_keys() == old(self).spec_state().held_keys(),
            final(self).spec_state().held_buttons() == old(self).spec_state().held_buttons(),
            r is Ok ==> controller.spec_input_allowed(old(self).spec_token()) && send.ensures(
                (),
                Ok(()),
            ) && final(self).spec_state().spec_last_input() == Some(description@),
            r matches Err(e) ==> (cancel is Some && e@ == cancelled_message()) || permit_refused(*controller, old(self).spec_token(), e) || (controller.spec_input_allowed(old(self).spec_token()) && send.ensures((), Err(e))),
    {
        let token = self.token;
        let permission = || -> (r: Result<(), String>)
            ensures
                r is Ok <==> controller.spec_input_allowed(token),
                r matches Err(e) ==> e@ == permit_revoked_message(),
            { permit_check(controller, token) };
        self.state.perform_with_permission(description, cancel, permission, send)
    }

    /// Types a text while the run may inject input; each unit is checked.
    pub fn send_text<F: Fn(u32, bool) -> Result<(), String>>(
        &mut self,
        controller: &RuntimeController,
        broker: &mut InputBroker,
        text: &str,
        cancel: Option<&AtomicBool>,
        send: F,
    ) -> (r: Result<(), String>)
        requires
            old(self).spec_state().wf(),
            old(broker).wf(),
            forall|k: u32, d: bool| #[trigger] send.requires((k, d)),
        ensures
            final(self).spec_state().wf(),
            final(broker).wf(),
            final(self).spec_token() == old(self).spec_token(),
            final(self).spec_state().spec_owner() == old(self).spec_state().spec_owner(),
            final(self).spec_state().held_buttons() == old(self).spec_state().held_buttons(),
            r is Ok ==> final(self).spec_state().held_keys() == old(self).spec_state().held_keys().difference(
                text_keys(utf16_units(text@), utf16_units(text@).len() as int),
            ) && final(broker).key_owners() == old(broker).key_owners().remove_keys(
                text_keys(utf16_units(text@), utf16_units(text@).len() as int),
            ),
            r is Ok && utf16_units(text@).len() > 0 ==> controller.spec_input_allowed(
                old(self).spec_token(),
            ),
            !controller.spec_input_allowed(old(self).spec_token()) ==> final(self).spec_state().held_keys()
                == old(self).spec_state().held_keys() && *final(broker) == *old(broker),
            cancel is None && utf16_units(text@).len() > 0 && old(self).spec_state().key_press_conflict(
                old(broker),
                unicode_key(utf16_units(text@)[0]),
            ) ==> r is Err,
            r is Err ==> exists|j: int|
                0 <= j < utf16_units(text@).len() && #[trigger] text_unit_failed(
                    send,
                    old(self).spec_state().held_keys(),
                    old(broker).key_owners(),
                    old(self).spec_state().spec_owner(),
                    utf16_units(text@),
                    j,
                    cancel is Some,
                    permit_refused(*controller, old(self).spec_token(), r->Err_0),
                    controller.spec_input_allowed(old(self).spec_token()),
                    final(self).spec_state().held_keys(),
                    final(broker).key_owners(),
                    final(self).spec_state().spec_last_input(),
                    r->Err_0,
                ),
    {
        let token = self.token;
        let permission = || -> (r: Result<(), String>)
            ensures
                r is Ok <==> controller.spec_input_allowed(token),
                r matches Err(e) ==> e@ == permit_revoked_message(),
            { permit_check(controller, token) };
        let ghost start_held = self.state.held_keys();
        let ghost start_owners = broker.key_owners();
        let r = self.state.send_text_with_permission(broker, text, cancel, permission, send);
        proof {
            if r is Err {
                let e = r->Err_0;
                let j = choose|j: int|
                    0 <= j < utf16_units(text@).len() && #[trigger] text_unit_failed(
                        send, start_held, start_owners, old(self).spec_state().spec_owner(),
                        utf16_units(text@), j, cancel is Some,
                        permission.ensures((), Err(e)), permission.ensures((), Ok(())),
                        self.state.held_keys(), broker.key_owners(), self.state.spec_last_input(), e,
                    );
                assert(permission.ensures((), Err(e)) ==> !controller.spec_input_allowed(token) && e@
                    == permit_revoked_message());
                assert(permission.ensures((), Ok(())) ==> controller.spec_input_allowed(token));
                assert(text_unit_failed(
                    send, start_held, start_owners, old(self).spec_state().spec_owner(),
                    utf16_units(text@), j, cancel is Some,
                    permit_refused(*controller, token, e),
                    controller.spec_input_allowed(token),
                    self.state.held_keys(), broker.key_owners(), self.state.spec_last_input(), e,
                ));
                assert(token == old(self).spec_token());
                assert(start_held == old(self).spec_state().held_keys());
                assert(exists|j: int|
                    0 <= j < utf16_units(text@).len() && #[trigger] text_unit_failed(
                        send,
                        old(self).spec_state().held_keys(),
                        old(broker).key_owners(),
                        old(self).spec_state().spec_owner(),
                        utf16_units(text@),
                        j,
                        cancel is Some,
                        permit_refused(*controller, old(self).spec_token(), r->Err_0),
                        controller.spec_input_allowed(old(self).spec_token()),
                        self.spec_state().held_keys(),
                        broker.key_owners(),
                        self.spec_state().spec_last_input(),
                        r->Err_0,
                    ));
            }
        }
        r
    }
}

/// One point of a planned pointer trajectory and the pause after it.
#[derive(Debug, Clone, Copy, PartialEq, Eq)]
pub struct PointerTrajectoryPoint {
    pub x: i32,
    pub y: i32,
    pub delay_ms: u64,
}

/// The diagnostic description of a pointer move.
pub open spec fn move_description(x: i32, y: i32) -> Seq<char> {
    "mouse_move:"@ + crate::text::signed_dec_chars(x as int) + ","@ + crate::text::signed_dec_chars(
        y as int,
    )
}

fn move_label(x: i32, y: i32) -> (r: String)
    ensures
        r@ == move_description(x, y),
{
    let mut s = string_from_str("mouse_move:");
    crate::text::push_signed_decimal(&mut s, x as i64);
    push_str_chars(&mut s, ",");
    crate::text::push_signed_decimal(&mut s, y as i64);
    s
}

impl InputPermit {
    /// Moves the pointer along planned points. Before every point the
    /// cancellation flag and the run's permission are checked again, so a
    /// trajectory planned before a stop never writes after it; `pause` waits
    /// after a point and reports whether the wait ran to its end.
    pub fn execute_pointer_points<
        W: Fn(i32, i32) -> Result<(), String>,
        S: Fn(u64) -> bool,
    >(
        &mut self,
        controller: &RuntimeController,
        points: &[PointerTrajectoryPoint],
        cancel: &AtomicBool,
        writer: W,
        pause: S,
    ) -> (r: Result<(), String>)
        requires
            old(self).spec_state().wf(),
            forall|x: i32, y: i32| #[trigger] writer.requires((x, y)),
            forall|ms: u64| #[trigger] pause.requires((ms,)),
        ensures
            final(self).spec_state().wf(),
            final(self).spec_token() == old(self).spec_token(),
            final(self).spec_state().spec_owner() == old(self).spec_state().spec_owner(),
            final(self).spec_state().held_keys() == old(self).spec_state().held_keys(),
            final(self).spec_state().held_buttons() == old(self).spec_state().held_buttons(),
            points@.len() > 0 && !controller.spec_input_allowed(old(self).spec_token()) ==> r is Err,
            r is Ok && points@.len() > 0 ==> controller.spec_input_allowed(old(self).spec_token())
                && final(self).spec_state().spec_last_input() == Some(
                move_description(points@.last().x, points@.last().y),
            ),
            points@.len() == 0 ==> r is Ok,
            r matches Err(e) ==> points@.len() > 0 && {
                ||| e@ == "脚本已被 F12 停止"@
                ||| !controller.spec_input_allowed(old(self).spec_token()) && e@ == permit_revoked_message()
                ||| exists|x: i32, y: i32| #[trigger] writer.ensures((x, y), Err(e))
            },
    {
        let mut i: usize = 0;
        while i < points.len()
            invariant
                i <= points@.len(),
                self.spec_state().wf(),
                self.spec_token() == old(self).spec_token(),
                self.spec_state().spec_owner() == old(self).spec_state().spec_owner(),
                self.spec_state().held_keys() == old(self).spec_state().held_keys(),
                self.spec_state().held_buttons() == old(self).spec_state().held_buttons(),
                i > 0 ==> controller.spec_input_allowed(old(self).spec_token())
                    && self.spec_state().spec_last_input() == Some(
                    move_description(points@[i - 1].x, points@[i - 1].y),
                ),
                forall|x: i32, y: i32| #[trigger] writer.requires((x, y)),
                forall|ms: u64| #[trigger] pause.requires((ms,)),
            decreases points@.len() - i,
        {
            let point = points[i];
            if cancel.load(Ordering::SeqCst) {
                return Err(string_from_str("脚本已被 F12 停止"));
            }
            permit_check(controller, self.token)?;
            InjectedInputState::check_cancel(Some(cancel))?;
            let written = writer(point.x, point.y);
            match written {
                Err(e) => {
                    assert(writer.ensures((point.x, point.y), Err(e)));
                    return Err(e);
                },
                Ok(u) => {},
            }
            self.state.mark_last_input(move_label(point.x, point.y));
            if point.delay_ms > 0 && !pause(point.delay_ms) {
                return Err(string_from_str("脚本已被 F12 停止"));
            }
            i = i + 1;
        }
        Ok(())
    }
}

/// What the service does with the recovery-required indicator after a
/// cleanup.
#[derive(Debug, Clone, Copy, PartialEq, Eq, Structural)]
pub enum RecoveryIndicator {
    Clear,
    Raise,
    Keep,
}

/// How the service answers a cleanup report: whether the controller locks
/// against new starts, what becomes of the recovery indicator, and the
/// safety records to write.
#[derive(Debug, Clone, PartialEq, Eq)]
pub struct CleanupOutcome {
    pub lock_fault: bool,
    pub recovery: RecoveryIndicator,
    pub records: Vec<(String, Vec<(String, String)>)>,
}

/// The views of safety records.
pub open spec fn records_view(records: Seq<(String, Vec<(String, String)>)>) -> Seq<
    (Seq<char>, Seq<(Seq<char>, Seq<char>)>),
> {
    records.map_values(
        |r: (String, Vec<(String, String)>)| (r.0@, crate::hold::fields_view(r.1@)),
    )
}

/// The record of a failed release.
pub open spec fn failure_record(scope: Seq<char>, failure: CleanupFailure) -> (
    Seq<char>,
    Seq<(Seq<char>, Seq<char>)>,
) {
    (
        "input_cleanup_failed"@,
        seq![
            ("scope"@, scope),
            ("kind"@, failure.kind@),
            ("value"@, failure.value@),
            ("attempts"@, crate::text::dec_chars(failure.attempts as nat)),
            ("error"@, failure.last_error@),
            ("status"@, "unsafe_manual_recovery_required"@),
        ],
    )
}

fn field(name: &str, value: String) -> (r: (String, String))
    ensures
        r.0@ == name@,
        r.1@ == value@,
{
    (string_from_str(name), value)
}

fn usize_text(n: usize) -> (r: String)
    ensures
        r@ == crate::text::dec_chars(n as nat),
{
    crate::text::u64_to_decimal(n as u64)
}

/// The answer to a cleanup report. A safe cleanup records what it released
/// and clears the recovery indicator when no held input is left anywhere
/// (`held_counts` holds the service-wide counts of held keys and buttons); an unsafe one locks the
/// controller, sets the indicator and records every failure with its
/// context. A later safe cleanup never unlocks by itself.
pub fn cleanup_report_outcome(report: &CleanupReport, scope: &str, held_counts: (usize, usize)) -> (r:
    CleanupOutcome)
    ensures
        r.lock_fault == (report.failures@.len() > 0),
        r.recovery == (if report.failures@.len() > 0 {
            RecoveryIndicator::Raise
        } else if held_counts == (0usize, 0usize) {
            RecoveryIndicator::Clear
        } else {
            RecoveryIndicator::Keep
        }),
        report.failures@.len() == 0 ==> records_view(r.records@) == seq![
            (
                "input_cleanup_completed"@,
                seq![
                    ("scope"@, scope@),
                    ("released_keys"@, crate::text::dec_chars(report.released_keys as nat)),
                    ("released_buttons"@, crate::text::dec_chars(report.released_buttons as nat)),
                ],
            ),
        ],
        report.failures@.len() > 0 ==> records_view(r.records@) == report.failures@.map_values(
            |f: CleanupFailure| failure_record(scope@, f),
        ),
{
    let mut records: Vec<(String, Vec<(String, String)>)> = Vec::new();
    if report.failures.len() == 0 {
        let fields = vec![
            field("scope", string_from_str(scope)),
            field("released_keys", usize_text(report.released_keys)),
            field("released_buttons", usize_text(report.released_buttons)),
        ];
        records.push((string_from_str("input_cleanup_completed"), fields));
        assert(records_view(records@) =~= seq![
            (
                "input_cleanup_completed"@,
                seq![
                    ("scope"@, scope@),
                    ("released_keys"@, crate::text::dec_chars(report.released_keys as nat)),
                    ("released_buttons"@, crate::text::dec_chars(report.released_buttons as nat)),
                ],
            ),
        ]) by {
            assert(crate::hold::fields_view(records@[0].1@) =~= seq![
                ("scope"@, scope@),
                ("released_keys"@, crate::text::dec_chars(report.released_keys as nat)),
                ("released_buttons"@, crate::text::dec_chars(report.released_buttons as nat)),
            ]);
        };
        let recovery = if held_counts.0 == 0 && held_counts.1 == 0 {
            RecoveryIndicator::Clear
        } else {
            RecoveryIndicator::Keep
        };
        return CleanupOutcome { lock_fault: false, recovery, records };
    }
    let mut i: usize = 0;
    while i < report.failures.len()
        invariant
            i <= report.failures@.len(),
            records_view(records@) == report.failures@.subrange(0, i as int).map_values(
                |f: CleanupFailure| failure_record(scope@, f),
            ),
        decreases report.failures@.len() - i,
    {
        let failure = &report.failures[i];
        let fields = vec![
            field("scope", string_from_str(scope)),
            field("kind", string_from_str(failure.kind)),
            field("value", failure.value.clone()),
            field("attempts", usize_text(failure.attempts)),
            field("error", failure.last_error.clone()),
            field("status", string_from_str("unsafe_manual_recovery_required")),
        ];
        let ghost before = records@;
        records.push((string_from_str("input_cleanup_failed"), fields));
        proof {
            assert(crate::hold::fields_view(records@.last().1@) =~= failure_record(scope@, *failure).1);
            assert(records_view(records@) =~= records_view(before).push(failure_record(scope@, *failure)));
            assert(report.failures@.subrange(0, i as int + 1) =~= report.failures@.subrange(
                0,
                i as int,
            ).push(*failure));
        }
        i = i + 1;
    }
    assert(report.failures@.subrange(0, i as int) =~= report.failures@);
    CleanupOutcome { lock_fault: true, recovery: RecoveryIndicator::Raise, records }
}

} // verus!
