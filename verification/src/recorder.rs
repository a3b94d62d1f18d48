//! The macro recorder: how captured input becomes macro steps, and how the
//! recording shortcut, window switches and the stop click are kept out of the
//! recording.
//!
//! Times are monotonic milliseconds.

use std::collections::HashSet;
use vstd::prelude::*;
use crate::config::MacroStep;
use crate::keys::{key_name_from_vk, key_to_vk, spec_key_name, spec_key_to_vk, KeyAction, MouseButton};

verus! {

broadcast use vstd::std_specs::hash::group_hash_axioms;

/// The longest delay a recorded gap becomes, in milliseconds.
pub const MAX_RECORDED_DELAY_MS: u64 = 60000;

/// State of one macro recording.
pub struct RecorderState {
    pub active: bool,
    pub capture_started: bool,
    pub capture_mouse_move: bool,
    pub capture_mouse_clicks: bool,
    pub started_at_ms: Option<u64>,
    pub last_event_ms: Option<u64>,
    pub last_mouse_move: Option<(u64, i32, i32)>,
    pub steps: Vec<MacroStep>,
    pub completed_steps: Option<Vec<MacroStep>>,
    pub pressed_keys: HashSet<u32>,
    pub pressed_buttons: Vec<MouseButton>,
}

impl RecorderState {
    /// An idle recorder that captures moves and clicks once started.
    pub fn new() -> (r: Self)
        ensures
            !r.active,
            !r.capture_started,
            r.capture_mouse_move,
            r.capture_mouse_clicks,
            r.started_at_ms is None,
            r.last_event_ms is None,
            r.last_mouse_move is None,
            r.steps@.len() == 0,
            r.completed_steps is None,
            r.pressed_keys@ == Set::<u32>::empty(),
            r.pressed_buttons@.len() == 0,
    {
        RecorderState {
            active: false,
            capture_started: false,
            capture_mouse_move: true,
            capture_mouse_clicks: true,
            started_at_ms: None,
            last_event_ms: None,
            last_mouse_move: None,
            steps: Vec::new(),
            completed_steps: None,
            pressed_keys: HashSet::new(),
            pressed_buttons: Vec::new(),
        }
    }
}

impl Default for RecorderState {
    fn default() -> (r: Self)
        ensures
            !r.active,
            r.steps@.len() == 0,
            r.completed_steps is None,
            r.pressed_keys@ == Set::<u32>::empty(),
            r.pressed_buttons@.len() == 0,
    {
        RecorderState::new()
    }
}

/// The delay step recorded between two events, if any: the whole milliseconds
/// elapsed (never negative), capped at one minute; none when no time passed.
pub open spec fn gap_step(last: Option<u64>, now: u64) -> Seq<MacroStep> {
    match last {
        None => Seq::empty(),
        Some(l) => if now > l {
            seq![
                MacroStep::Delay {
                    duration_ms: if now - l > MAX_RECORDED_DELAY_MS {
                        MAX_RECORDED_DELAY_MS
                    } else {
                        (now - l) as u64
                    },
                    duration_max_ms: None,
                },
            ]
        } else {
            Seq::empty()
        },
    }
}

/// Appends a step, preceded by the delay since the previous recorded event.
/// Every interval of at least one millisecond is kept, so fast mouse samples
/// replay at their recorded pace.
pub fn push_record_step_at(recorder: &mut RecorderState, step: MacroStep, now_ms: u64)
    ensures
        final(recorder).steps@ == old(recorder).steps@ + gap_step(old(recorder).last_event_ms, now_ms).push(step),
        final(recorder).last_event_ms == Some(now_ms),
        final(recorder).active == old(recorder).active,
        final(recorder).capture_started == old(recorder).capture_started,
        final(recorder).capture_mouse_move == old(recorder).capture_mouse_move,
        final(recorder).capture_mouse_clicks == old(recorder).capture_mouse_clicks,
        final(recorder).started_at_ms == old(recorder).started_at_ms,
        final(recorder).last_mouse_move == old(recorder).last_mouse_move,
        final(recorder).completed_steps == old(recorder).completed_steps,
        final(recorder).pressed_keys@ == old(recorder).pressed_keys@,
        final(recorder).pressed_buttons@ == old(recorder).pressed_buttons@,
{
    let ghost before = recorder.steps@;
    if let Some(last) = recorder.last_event_ms {
        if now_ms > last {
            let elapsed = now_ms - last;
            let capped = if elapsed > MAX_RECORDED_DELAY_MS {
                MAX_RECORDED_DELAY_MS
            } else {
                elapsed
            };
            recorder.steps.push(MacroStep::Delay { duration_ms: capped, duration_max_ms: None });
        }
    }
    recorder.steps.push(step);
    recorder.last_event_ms = Some(now_ms);
    assert(recorder.steps@ =~= before + gap_step(old(recorder).last_event_ms, now_ms).push(step));
}

/// A trailing step that belongs to a shortcut made of the given keys: a delay,
/// or a key-down of one of those keys.
pub open spec fn is_shortcut_residue(step: MacroStep, a: u32, b: u32, c: u32) -> bool {
    match step {
        MacroStep::Delay { .. } => true,
        MacroStep::Key { key, action } => action == KeyAction::Down && (match spec_key_to_vk(
            key@,
        ) {
            Some(vk) => vk == a || vk == b || vk == c,
            None => false,
        }),
        _ => false,
    }
}

/// `steps` without its trailing run of residue of the given shortcut.
pub open spec fn strip_shortcut_residue(steps: Seq<MacroStep>, a: u32, b: u32, c: u32) -> Seq<
    MacroStep,
>
    decreases steps.len(),
{
    if steps.len() > 0 && is_shortcut_residue(steps.last(), a, b, c) {
        strip_shortcut_residue(steps.drop_last(), a, b, c)
    } else {
        steps
    }
}

fn step_is_shortcut_residue(step: &MacroStep, a: u32, b: u32, c: u32) -> (r: bool)
    ensures
        r == is_shortcut_residue(*step, a, b, c),
{
    match step {
        MacroStep::Delay { .. } => true,
        MacroStep::Key { key, action } => {
            if *action == KeyAction::Down {
                match key_to_vk(key.as_str()) {
                    Some(vk) => vk == a || vk == b || vk == c,
                    None => false,
                }
            } else {
                false
            }
        },
        _ => false,
    }
}

fn pop_shortcut_residue(steps: &mut Vec<MacroStep>, a: u32, b: u32, c: u32)
    ensures
        final(steps)@ == strip_shortcut_residue(old(steps)@, a, b, c),
{
    while steps.len() > 0 && step_is_shortcut_residue(&steps[steps.len() - 1], a, b, c)
        invariant
            strip_shortcut_residue(steps@, a, b, c) == strip_shortcut_residue(old(steps)@, a, b, c),
        decreases steps@.len(),
    {
        let ghost before = steps@;
        let _ = steps.pop();
        assert(steps@ =~= before.drop_last());
    }
}

/// Removes the Ctrl+Shift+F9 recording shortcut from the end of the recording:
/// its keys leave the pressed set, and trailing delays and presses of those
/// keys are dropped.
pub fn discard_recording_shortcut_steps(recorder: &mut RecorderState)
    ensures
        final(recorder).steps@ == strip_shortcut_residue(old(recorder).steps@, 0x10, 0x11, 0x78),
        final(recorder).pressed_keys@ == old(recorder).pressed_keys@.remove(0x10).remove(
            0x11,
        ).remove(0x78),
        final(recorder).last_event_ms is None,
        final(recorder).active == old(recorder).active,
        final(recorder).pressed_buttons@ == old(recorder).pressed_buttons@,
        final(recorder).completed_steps == old(recorder).completed_steps,
{
    recorder.pressed_keys.remove(&0x10u32);
    recorder.pressed_keys.remove(&0x11u32);
    recorder.pressed_keys.remove(&0x78u32);
    pop_shortcut_residue(&mut recorder.steps, 0x10, 0x11, 0x78);
    recorder.last_event_ms = None;
}

/// Removes an Alt+Tab or Win+Tab window switch from the end of the recording:
/// Tab, Alt and Windows leave the pressed set, and trailing delays and presses
/// of those keys are dropped.
pub fn discard_focus_switch_state(recorder: &mut RecorderState)
    ensures
        final(recorder).steps@ == strip_shortcut_residue(old(recorder).steps@, 0x09, 0x12, 0x5B),
        final(recorder).pressed_keys@ == old(recorder).pressed_keys@.remove(0x09).remove(
            0x12,
        ).remove(0x5B),
        final(recorder).last_event_ms is None,
        final(recorder).active == old(recorder).active,
        final(recorder).pressed_buttons@ == old(recorder).pressed_buttons@,
        final(recorder).completed_steps == old(recorder).completed_steps,
{
    recorder.pressed_keys.remove(&0x09u32);
    recorder.pressed_keys.remove(&0x12u32);
    recorder.pressed_keys.remove(&0x5Bu32);
    pop_shortcut_residue(&mut recorder.steps, 0x09, 0x12, 0x5B);
    recorder.last_event_ms = None;
}

} // verus!

verus! {

/// `steps` without a final delay, if it ends in one.
pub open spec fn drop_trailing_delay(steps: Seq<MacroStep>) -> Seq<MacroStep> {
    if steps.len() > 0 && steps.last() is Delay {
        steps.drop_last()
    } else {
        steps
    }
}

/// `steps` without its trailing cursor path: mouse moves and the delays
/// between them, back to the previous keyboard or button action.
pub open spec fn strip_moves(steps: Seq<MacroStep>) -> Seq<MacroStep>
    decreases steps.len(),
{
    if steps.len() > 0 && steps.last() is MouseMove {
        strip_moves(drop_trailing_delay(steps.drop_last()))
    } else {
        steps
    }
}

/// `buttons` without `b`.
pub open spec fn without_button(buttons: Seq<MouseButton>, b: MouseButton) -> Seq<MouseButton>
    decreases buttons.len(),
{
    if buttons.len() == 0 {
        buttons
    } else if buttons.last() == b {
        without_button(buttons.drop_last(), b)
    } else {
        without_button(buttons.drop_last(), b).push(buttons.last())
    }
}

proof fn lemma_without_button_lacks(buttons: Seq<MouseButton>, b: MouseButton)
    ensures
        !without_button(buttons, b).contains(b),
    decreases buttons.len(),
{
    if buttons.len() > 0 {
        lemma_without_button_lacks(buttons.drop_last(), b);
        let r = without_button(buttons.drop_last(), b);
        if buttons.last() != b {
            assert forall|i: int| 0 <= i < r.push(buttons.last()).len() implies r.push(
                buttons.last(),
            )[i] != b by {
                if i < r.len() {
                    assert(r.push(buttons.last())[i] == r[i]);
                }
            };
        }
    }
}

proof fn lemma_without_button_keeps(buttons: Seq<MouseButton>, b: MouseButton, c: MouseButton)
    requires
        c != b,
    ensures
        without_button(buttons, b).contains(c) == buttons.contains(c),
    decreases buttons.len(),
{
    if buttons.len() > 0 {
        lemma_without_button_keeps(buttons.drop_last(), b, c);
        let r = without_button(buttons.drop_last(), b);
        let d = buttons.drop_last();
        if buttons.contains(c) {
            let i = choose|i: int| 0 <= i < buttons.len() && buttons[i] == c;
            if i < d.len() {
                assert(d[i] == c);
            }
        }
        if d.contains(c) {
            let i = choose|i: int| 0 <= i < d.len() && d[i] == c;
            assert(buttons[i] == c);
        }
        if buttons.last() != b {
            let p = r.push(buttons.last());
            if r.contains(c) {
                let i = choose|i: int| 0 <= i < r.len() && r[i] == c;
                assert(p[i] == c);
            }
            if p.contains(c) {
                let i = choose|i: int| 0 <= i < p.len() && p[i] == c;
                if i < r.len() {
                    assert(r[i] == c);
                }
            }
            if buttons.last() == c {
                assert(p[r.len() as int] == c);
            }
        }
    }
}

/// Removes up to `n` trailing button actions, each with the delay before it,
/// releasing their buttons from the pressed list.
pub open spec fn strip_clicks(steps: Seq<MacroStep>, buttons: Seq<MouseButton>, n: nat) -> (
    Seq<MacroStep>,
    Seq<MouseButton>,
)
    decreases n,
{
    if n > 0 && steps.len() > 0 && steps.last() is MouseButton {
        strip_clicks(
            drop_trailing_delay(steps.drop_last()),
            without_button(buttons, steps.last()->MouseButton_button),
            (n - 1) as nat,
        )
    } else {
        (steps, buttons)
    }
}

fn remove_button(buttons: &mut Vec<MouseButton>, b: MouseButton)
    ensures
        final(buttons)@ == without_button(old(buttons)@, b),
{
    let mut kept: Vec<MouseButton> = Vec::new();
    let mut i: usize = 0;
    assert(buttons@.subrange(0, 0) =~= Seq::<MouseButton>::empty());
    while i < buttons.len()
        invariant
            i <= buttons@.len(),
            kept@ == without_button(buttons@.subrange(0, i as int), b),
        decreases buttons@.len() - i,
    {
        let x = buttons[i];
        let ghost prefix = buttons@.subrange(0, i as int + 1);
        assert(prefix.drop_last() =~= buttons@.subrange(0, i as int));
        if x != b {
            kept.push(x);
        }
        assert(prefix =~= buttons@.subrange(0, i as int).push(x));
        i = i + 1;
    }
    assert(buttons@.subrange(0, i as int) =~= buttons@);
    *buttons = kept;
}

fn last_button(steps: &Vec<MacroStep>) -> (r: Option<MouseButton>)
    ensures
        r is Some <==> (steps@.len() > 0 && steps@.last() is MouseButton),
        r is Some ==> r->0 == steps@.last()->MouseButton_button,
{
    if steps.len() == 0 {
        return None;
    }
    match &steps[steps.len() - 1] {
        MacroStep::MouseButton { button, .. } => Some(*button),
        _ => None,
    }
}

fn ends_with_move(steps: &Vec<MacroStep>) -> (r: bool)
    ensures
        r == (steps@.len() > 0 && steps@.last() is MouseMove),
{
    if steps.len() == 0 {
        return false;
    }
    match &steps[steps.len() - 1] {
        MacroStep::MouseMove { .. } => true,
        _ => false,
    }
}

fn pop_trailing_delay(steps: &mut Vec<MacroStep>)
    ensures
        final(steps)@ == drop_trailing_delay(old(steps)@),
{
    if steps.len() > 0 {
        let is_delay = match &steps[steps.len() - 1] {
            MacroStep::Delay { .. } => true,
            _ => false,
        };
        if is_delay {
            let _ = steps.pop();
        }
    }
}

/// What removing a stop click leaves: the recording without its final click
/// (at most the two button actions of one click, each with its delay) and
/// without the cursor path before that, and whether anything was removed.
pub open spec fn trailing_mouse_removed(steps: Seq<MacroStep>, buttons: Seq<MouseButton>) -> (
    Seq<MacroStep>,
    Seq<MouseButton>,
) {
    let (s1, b1) = strip_clicks(steps, buttons, 2);
    (strip_moves(s1), b1)
}

/// A recording that ends with a complete click (the cursor moving to the
/// button, a delay, the button going down, a delay, the same button coming
/// up) loses that whole click and the cursor path before it: what is left is
/// exactly what came before, whenever that does not itself end with a
/// pointer move or a delay. An earlier click stays.
pub proof fn lemma_stop_click_is_removed(
    before: Seq<MacroStep>,
    buttons: Seq<MouseButton>,
    to: (i32, i32),
    gap: (u64, Option<u64>),
    held_for: (u64, Option<u64>),
    button: MouseButton,
    down_at: (i32, i32),
    up_at: (i32, i32),
)
    requires
        before.len() == 0 || !(before.last() is Delay || before.last() is MouseMove),
    ensures
        trailing_mouse_removed(
            before + seq![
                MacroStep::MouseMove { x: to.0, y: to.1 },
                MacroStep::Delay { duration_ms: gap.0, duration_max_ms: gap.1 },
                MacroStep::MouseButton { button, action: KeyAction::Down, x: down_at.0, y: down_at.1 },
                MacroStep::Delay { duration_ms: held_for.0, duration_max_ms: held_for.1 },
                MacroStep::MouseButton { button, action: KeyAction::Up, x: up_at.0, y: up_at.1 },
            ],
            buttons,
        ).0 == before,
        trailing_mouse_removed(
            before + seq![
                MacroStep::MouseButton { button, action: KeyAction::Down, x: down_at.0, y: down_at.1 },
                MacroStep::Delay { duration_ms: held_for.0, duration_max_ms: held_for.1 },
                MacroStep::MouseButton { button, action: KeyAction::Up, x: up_at.0, y: up_at.1 },
            ],
            buttons,
        ).0 == before,
{
    let mv = MacroStep::MouseMove { x: to.0, y: to.1 };
    let d1 = MacroStep::Delay { duration_ms: gap.0, duration_max_ms: gap.1 };
    let dn = MacroStep::MouseButton { button, action: KeyAction::Down, x: down_at.0, y: down_at.1 };
    let d2 = MacroStep::Delay { duration_ms: held_for.0, duration_max_ms: held_for.1 };
    let up = MacroStep::MouseButton { button, action: KeyAction::Up, x: up_at.0, y: up_at.1 };
    let b1 = without_button(buttons, button);
    let b2 = without_button(b1, button);
    let full = before + seq![mv, d1, dn, d2, up];
    assert(full.drop_last() =~= before + seq![mv, d1, dn, d2]);
    assert(drop_trailing_delay(full.drop_last()) =~= before + seq![mv, d1, dn]);
    assert((before + seq![mv, d1, dn]).drop_last() =~= before + seq![mv, d1]);
    assert(drop_trailing_delay(before + seq![mv, d1]) =~= before + seq![mv]);
    assert(strip_clicks(before + seq![mv], b2, 0) == (before + seq![mv], b2));
    assert(strip_clicks(before + seq![mv, d1, dn], b1, 1) == (before + seq![mv], b2));
    assert(strip_clicks(full, buttons, 2) == (before + seq![mv], b2));
    assert((before + seq![mv]).drop_last() =~= before);
    assert(drop_trailing_delay(before) == before);
    assert(strip_moves(before) == before);
    assert(strip_moves(before + seq![mv]) == before);
    let short = before + seq![dn, d2, up];
    assert(short.drop_last() =~= before + seq![dn, d2]);
    assert(drop_trailing_delay(short.drop_last()) =~= before + seq![dn]);
    assert((before + seq![dn]).drop_last() =~= before);
    assert(drop_trailing_delay(before) == before);
    assert(strip_clicks(before, b2, 0) == (before, b2));
    assert(strip_clicks(before + seq![dn], b1, 1) == (before, b2));
    assert(strip_clicks(short, buttons, 2) == (before, b2));
}

/// Removes the click on the stop button, and the cursor path leading to it,
/// from the end of a recording. The previous click is kept. When something
/// was removed, the next event starts a fresh timing reference.
pub fn discard_trailing_mouse_input_steps(recorder: &mut RecorderState)
    ensures
        (final(recorder).steps@, final(recorder).pressed_buttons@) == trailing_mouse_removed(
            old(recorder).steps@,
            old(recorder).pressed_buttons@,
        ),
        final(recorder).steps@ != old(recorder).steps@ ==> final(recorder).last_event_ms is None
            && final(recorder).last_mouse_move is None,
        final(recorder).steps@ == old(recorder).steps@ ==> final(recorder).last_event_ms == old(recorder).last_event_ms && final(recorder).last_mouse_move == old(recorder).last_mouse_move,
        final(recorder).pressed_keys@ == old(recorder).pressed_keys@,
        final(recorder).active == old(recorder).active,
        final(recorder).completed_steps == old(recorder).completed_steps,
{
    let mut removed = false;
    let mut round: usize = 0;
    let ghost s0 = recorder.steps@;
    let ghost b0 = recorder.pressed_buttons@;
    while round < 2 && last_button(&recorder.steps).is_some()
        invariant
            round <= 2,
            strip_clicks(s0, b0, 2) == strip_clicks(
                recorder.steps@,
                recorder.pressed_buttons@,
                (2 - round) as nat,
            ),
            removed ==> recorder.steps@.len() < s0.len(),
            !removed ==> recorder.steps@ == s0 && recorder.pressed_buttons@ == b0,
            recorder.pressed_keys@ == old(recorder).pressed_keys@,
            recorder.active == old(recorder).active,
            recorder.completed_steps == old(recorder).completed_steps,
            recorder.last_event_ms == old(recorder).last_event_ms,
            recorder.last_mouse_move == old(recorder).last_mouse_move,
        decreases 2 - round,
    {
        let button = match last_button(&recorder.steps) {
            Some(b) => b,
            None => {
                return;
            },
        };
        let _ = recorder.steps.pop();
        remove_button(&mut recorder.pressed_buttons, button);
        removed = true;
        pop_trailing_delay(&mut recorder.steps);
        round = round + 1;
    }
    let ghost s1 = recorder.steps@;
    assert(strip_clicks(s0, b0, 2) == (s1, recorder.pressed_buttons@));
    while ends_with_move(&recorder.steps)
        invariant
            strip_moves(s1) == strip_moves(recorder.steps@),
            removed ==> recorder.steps@.len() < s0.len(),
            !removed ==> recorder.steps@ == s0,
            strip_clicks(s0, b0, 2).1 == recorder.pressed_buttons@,
            recorder.pressed_keys@ == old(recorder).pressed_keys@,
            recorder.active == old(recorder).active,
            recorder.completed_steps == old(recorder).completed_steps,
            recorder.last_event_ms == old(recorder).last_event_ms,
            recorder.last_mouse_move == old(recorder).last_mouse_move,
        decreases recorder.steps@.len(),
    {
        let _ = recorder.steps.pop();
        pop_trailing_delay(&mut recorder.steps);
        removed = true;
    }
    if removed {
        recorder.last_event_ms = None;
        recorder.last_mouse_move = None;
    }
}

} // verus!

verus! {

/// A key-up step for each key, in order.
pub open spec fn key_up_steps_ok(steps: Seq<MacroStep>, keys: Seq<u32>) -> bool {
    steps.len() == keys.len() && forall|i: int|
        0 <= i < keys.len() ==> (#[trigger] steps[i] matches MacroStep::Key { key, action }
            && key@ == spec_key_name(keys[i]) && action == KeyAction::Up)
}

/// A button-up step at (0, 0) for each button, in order.
pub open spec fn button_up_steps(buttons: Seq<MouseButton>) -> Seq<MacroStep> {
    buttons.map_values(
        |b: MouseButton| MacroStep::MouseButton { button: b, action: KeyAction::Up, x: 0, y: 0 },
    )
}

/// `done` is `steps` followed by a release step for each held key (in some
/// order, each once) and then for each held button, in order.
pub open spec fn finishes_to(
    steps: Seq<MacroStep>,
    held_keys: Set<u32>,
    held_buttons: Seq<MouseButton>,
    done: Seq<MacroStep>,
) -> bool {
    exists|keys: Seq<u32>|
        #![trigger keys.to_set()]
        {
            let n = steps.len() as int;
            let k = keys.len() as int;
            &&& keys.to_set() == held_keys
            &&& keys.no_duplicates()
            &&& done.len() == n + k + held_buttons.len()
            &&& done.subrange(0, n) == steps
            &&& key_up_steps_ok(done.subrange(n, n + k), keys)
            &&& done.subrange(n + k, done.len() as int) == button_up_steps(held_buttons)
        }
}

/// Ends a recording: every key and button still held gets a release step, the
/// steps become the completed result, and the recorder returns to idle.
pub fn finish_recorder(recorder: &mut RecorderState)
    ensures
        final(recorder).completed_steps is Some,
        finishes_to(
            old(recorder).steps@,
            old(recorder).pressed_keys@,
            old(recorder).pressed_buttons@,
            final(recorder).completed_steps->0@,
        ),
        final(recorder).steps@.len() == 0,
        final(recorder).pressed_keys@ == Set::<u32>::empty(),
        final(recorder).pressed_buttons@.len() == 0,
        !final(recorder).active,
        !final(recorder).capture_started,
        final(recorder).started_at_ms is None,
        final(recorder).last_event_ms is None,
        final(recorder).last_mouse_move is None,
{
    let keys = crate::ledger::set_keys(&recorder.pressed_keys);
    let ghost n: int = recorder.steps@.len() as int;
    let ghost base = recorder.steps@;
    let mut i: usize = 0;
    while i < keys.len()
        invariant
            i <= keys@.len(),
            recorder.steps@.len() == n + i,
            recorder.steps@.subrange(0, n as int) == base,
            key_up_steps_ok(recorder.steps@.subrange(n as int, n + i), keys@.subrange(0, i as int)),
            recorder.pressed_buttons@ == old(recorder).pressed_buttons@,
            recorder.pressed_keys@ == old(recorder).pressed_keys@,
            n == old(recorder).steps@.len(),
            base == old(recorder).steps@,
        decreases keys@.len() - i,
    {
        let name = key_name_from_vk(keys[i]);
        let ghost before = recorder.steps@;
        recorder.steps.push(MacroStep::Key { key: name, action: KeyAction::Up });
        assert(recorder.steps@.subrange(0, n as int) =~= before.subrange(0, n as int));
        assert forall|j: int| 0 <= j < i + 1 implies (#[trigger] recorder.steps@.subrange(
            n as int,
            n + i + 1,
        )[j] matches MacroStep::Key { key, action } && key@ == spec_key_name(
            keys@.subrange(0, i as int + 1)[j],
        ) && action == KeyAction::Up) by {
            if j < i {
                assert(recorder.steps@.subrange(n as int, n + i + 1)[j] == before.subrange(
                    n as int,
                    n + i,
                )[j]);
            }
        };
        i = i + 1;
    }
    assert(keys@.subrange(0, i as int) =~= keys@);
    let ghost k: int = keys@.len() as int;
    let mut j: usize = 0;
    while j < recorder.pressed_buttons.len()
        invariant
            j <= recorder.pressed_buttons@.len(),
            recorder.pressed_buttons@ == old(recorder).pressed_buttons@,
            recorder.pressed_keys@ == old(recorder).pressed_keys@,
            n == old(recorder).steps@.len(),
            base == old(recorder).steps@,
            k == keys@.len(),
            recorder.steps@.len() == n + k + j,
            recorder.steps@.subrange(0, n as int) == base,
            key_up_steps_ok(recorder.steps@.subrange(n as int, n + k), keys@),
            recorder.steps@.subrange(n + k, n + k + j) == button_up_steps(
                recorder.pressed_buttons@.subrange(0, j as int),
            ),
        decreases recorder.pressed_buttons@.len() - j,
    {
        let b = recorder.pressed_buttons[j];
        let ghost before = recorder.steps@;
        recorder.steps.push(MacroStep::MouseButton { button: b, action: KeyAction::Up, x: 0, y: 0 });
        assert(recorder.steps@.subrange(0, n as int) =~= before.subrange(0, n as int));
        assert(recorder.steps@.subrange(n as int, n + k) =~= before.subrange(n as int, n + k));
        let ghost step = MacroStep::MouseButton { button: b, action: KeyAction::Up, x: 0, y: 0 };
        assert(recorder.steps@.subrange(n + k, n + k + j + 1) =~= before.subrange(
            n + k,
            n + k + j,
        ).push(step));
        assert(recorder.pressed_buttons@.subrange(0, j as int + 1) =~= recorder.pressed_buttons@.subrange(
            0,
            j as int,
        ).push(b));
        assert(button_up_steps(recorder.pressed_buttons@.subrange(0, j as int).push(b))
            =~= button_up_steps(recorder.pressed_buttons@.subrange(0, j as int)).push(step));
        j = j + 1;
    }
    assert(recorder.pressed_buttons@.subrange(0, j as int) =~= recorder.pressed_buttons@);
    recorder.pressed_keys.clear();
    recorder.pressed_buttons = Vec::new();
    recorder.active = false;
    recorder.capture_started = false;
    recorder.started_at_ms = None;
    recorder.last_event_ms = None;
    recorder.last_mouse_move = None;
    let mut done: Vec<MacroStep> = Vec::new();
    std::mem::swap(&mut done, &mut recorder.steps);
    recorder.completed_steps = Some(done);
    assert(keys@.to_set() == old(recorder).pressed_keys@);
}

/// One captured input event, or a recorder control event, in capture order.
pub enum GraphCapture {
    BeginBoundary,
    FinishShortcut,
    DiscardFocus,
    DiscardMouse,
    Key(u32, bool),
    Button(MouseButton, KeyAction, i32, i32),
    Move(i32, i32),
    Wheel(i32, i32),
}

/// Whether a cursor sample is too close in time and space to the previous one
/// to be worth recording: under 16 ms and at most 3 pixels on either axis.
pub open spec fn move_is_jitter(previous: Option<(u64, i32, i32)>, at: u64, x: i32, y: i32) -> bool {
    match previous {
        None => false,
        Some((t, px, py)) => {
            let elapsed = if at > t {
                at - t
            } else {
                0
            };
            let dx = if x >= px {
                x - px
            } else {
                px - x
            };
            let dy = if y >= py {
                y - py
            } else {
                py - y
            };
            elapsed < 16 && dx <= 3 && dy <= 3
        },
    }
}

fn abs_difference(a: i32, b: i32) -> (r: i64)
    ensures
        r == (if a >= b {
            a - b
        } else {
            b - a
        }),
{
    let d = (a as i64) - (b as i64);
    if d < 0 {
        -d
    } else {
        d
    }
}

fn contains_button(buttons: &Vec<MouseButton>, b: MouseButton) -> (r: bool)
    ensures
        r == buttons@.contains(b),
{
    let mut i: usize = 0;
    while i < buttons.len()
        invariant
            i <= buttons@.len(),
            forall|j: int| 0 <= j < i ==> buttons@[j] != b,
        decreases buttons@.len() - i,
    {
        if buttons[i] == b {
            return true;
        }
        i = i + 1;
    }
    false
}

/// Applies one captured event to an active recording; an inactive recorder
/// ignores every event.
///
/// A key event is recorded only when it changes the key's pressed state
/// (repeats and unmatched releases are dropped); a button release is recorded
/// only for a pressed button; cursor jitter is dropped; wheel events are
/// always recorded.
pub fn apply_graph_capture(recorder: &mut RecorderState, event: GraphCapture, at_ms: u64)
    ensures
        !old(recorder).active ==> *final(recorder) == *old(recorder),
        (event is Key || event is Button || event is Move || event is Wheel) ==> recording_kept(
            *old(recorder),
            *final(recorder),
        ),
        (event is Button || event is Move || event is Wheel) ==> final(recorder).pressed_keys@ == old(
            recorder,
        ).pressed_keys@,
        (event is Key || event is Move || event is Wheel) ==> final(recorder).pressed_buttons@ == old(
            recorder,
        ).pressed_buttons@,
        (event is Key || event is Button || event is Wheel) ==> final(recorder).last_mouse_move == old(
            recorder,
        ).last_mouse_move,
        match event {
            GraphCapture::Button(button, _, _, _) => forall|c: MouseButton|
                c != button ==> (#[trigger] final(recorder).pressed_buttons@.contains(c) == old(
                    recorder,
                ).pressed_buttons@.contains(c)),
            _ => true,
        },
        old(recorder).active ==> match event {
            GraphCapture::Key(vk, down) => if down == old(recorder).pressed_keys@.contains(vk) {
                *final(recorder) == *old(recorder)
            } else {
                &&& final(recorder).steps@.len() == old(recorder).steps@.len() + gap_step(
                    old(recorder).last_event_ms,
                    at_ms,
                ).len() + 1
                &&& final(recorder).steps@.drop_last() == old(recorder).steps@ + gap_step(
                    old(recorder).last_event_ms,
                    at_ms,
                )
                &&& final(recorder).steps@.last() matches MacroStep::Key { key, action }
                    && key@ == spec_key_name(vk) && action == (if down {
                    KeyAction::Down
                } else {
                    KeyAction::Up
                })
                &&& final(recorder).pressed_keys@ == (if down {
                    old(recorder).pressed_keys@.insert(vk)
                } else {
                    old(recorder).pressed_keys@.remove(vk)
                })
                &&& final(recorder).last_event_ms == Some(at_ms)
            },
            GraphCapture::Button(button, action, x, y) => if action == KeyAction::Up
                && !old(recorder).pressed_buttons@.contains(button) {
                *final(recorder) == *old(recorder)
            } else {
                &&& final(recorder).steps@ == old(recorder).steps@ + gap_step(
                    old(recorder).last_event_ms,
                    at_ms,
                ).push(MacroStep::MouseButton { button, action, x, y })
                &&& final(recorder).pressed_buttons@.contains(button) == (action
                    == KeyAction::Down)
                &&& final(recorder).last_event_ms == Some(at_ms)
            },
            GraphCapture::Move(x, y) => if move_is_jitter(
                old(recorder).last_mouse_move,
                at_ms,
                x,
                y,
            ) {
                *final(recorder) == *old(recorder)
            } else {
                &&& final(recorder).steps@ == old(recorder).steps@ + gap_step(
                    old(recorder).last_event_ms,
                    at_ms,
                ).push(MacroStep::MouseMove { x, y })
                &&& final(recorder).last_mouse_move == Some((at_ms, x, y))
                &&& final(recorder).last_event_ms == Some(at_ms)
            },
            GraphCapture::Wheel(delta_x, delta_y) => {
                &&& final(recorder).steps@ == old(recorder).steps@ + gap_step(
                    old(recorder).last_event_ms,
                    at_ms,
                ).push(MacroStep::Wheel { delta_x, delta_y })
                &&& final(recorder).last_event_ms == Some(at_ms)
            },
            GraphCapture::BeginBoundary => {
                &&& final(recorder).capture_started
                &&& final(recorder).last_event_ms is None
                &&& final(recorder).last_mouse_move is None
                &&& final(recorder).pressed_keys@ == Set::<u32>::empty()
                &&& final(recorder).pressed_buttons@.len() == 0
                &&& final(recorder).steps@ == old(recorder).steps@
            },
            GraphCapture::DiscardFocus => final(recorder).steps@ == strip_shortcut_residue(
                old(recorder).steps@,
                0x09,
                0x12,
                0x5B,
            ),
            GraphCapture::DiscardMouse => (final(recorder).steps@, final(recorder).pressed_buttons@) == trailing_mouse_removed(
                old(recorder).steps@,
                old(recorder).pressed_buttons@,
            ),
            GraphCapture::FinishShortcut => !final(recorder).active && final(recorder).completed_steps is Some,
        },
{
    if !recorder.active {
        return;
    }
    match event {
        GraphCapture::BeginBoundary => {
            recorder.capture_started = true;
            recorder.last_event_ms = None;
            recorder.last_mouse_move = None;
            recorder.pressed_keys.clear();
            recorder.pressed_buttons = Vec::new();
        },
        GraphCapture::DiscardFocus => discard_focus_switch_state(recorder),
        GraphCapture::DiscardMouse => discard_trailing_mouse_input_steps(recorder),
        GraphCapture::FinishShortcut => {
            discard_recording_shortcut_steps(recorder);
            finish_recorder(recorder);
        },
        GraphCapture::Key(vk, down) => {
            if down == recorder.pressed_keys.contains(&vk) {
                return;
            }
            let name = key_name_from_vk(vk);
            let action = if down {
                KeyAction::Down
            } else {
                KeyAction::Up
            };
            push_record_step_at(recorder, MacroStep::Key { key: name, action }, at_ms);
            if down {
                recorder.pressed_keys.insert(vk);
            } else {
                recorder.pressed_keys.remove(&vk);
            }
        },
        GraphCapture::Button(button, action, x, y) => {
            let held = contains_button(&recorder.pressed_buttons, button);
            if action == KeyAction::Up && !held {
                return;
            }
            push_record_step_at(recorder, MacroStep::MouseButton { button, action, x, y }, at_ms);
            if action == KeyAction::Down {
                if !held {
                    let ghost before = recorder.pressed_buttons@;
                    recorder.pressed_buttons.push(button);
                    assert(recorder.pressed_buttons@.last() == button);
                    proof {
                        assert forall|c: MouseButton| c != button implies (#[trigger] recorder.pressed_buttons@.contains(c)
                            == before.contains(c)) by {
                            if before.contains(c) {
                                let i = choose|i: int| 0 <= i < before.len() && before[i] == c;
                                assert(recorder.pressed_buttons@[i] == c);
                            }
                            if recorder.pressed_buttons@.contains(c) {
                                let i = choose|i: int| 0 <= i < recorder.pressed_buttons@.len() && recorder.pressed_buttons@[i] == c;
                                assert(i < before.len());
                                assert(before[i] == c);
                            }
                        };
                    }
                }
            } else {
                remove_button(&mut recorder.pressed_buttons, button);
                proof {
                    lemma_without_button_lacks(old(recorder).pressed_buttons@, button);
                    assert forall|c: MouseButton| c != button implies (#[trigger] recorder.pressed_buttons@.contains(c)
                        == old(recorder).pressed_buttons@.contains(c)) by {
                        lemma_without_button_keeps(old(recorder).pressed_buttons@, button, c);
                    };
                }
            }
        },
        GraphCapture::Move(x, y) => {
            if let Some((t, px, py)) = recorder.last_mouse_move {
                let elapsed = if at_ms > t {
                    at_ms - t
                } else {
                    0
                };
                let dx = abs_difference(x, px);
                let dy = abs_difference(y, py);
                if elapsed < 16 && dx <= 3 && dy <= 3 {
                    return;
                }
            }
            recorder.last_mouse_move = Some((at_ms, x, y));
            push_record_step_at(recorder, MacroStep::MouseMove { x, y }, at_ms);
        },
        GraphCapture::Wheel(delta_x, delta_y) => {
            push_record_step_at(recorder, MacroStep::Wheel { delta_x, delta_y }, at_ms);
        },
    }
}

} // verus!

verus! {

/// An input event leaves the recording's state and options as they were: it
/// stays active with the same capture options and start, and completes
/// nothing.
pub open spec fn recording_kept(before: RecorderState, after: RecorderState) -> bool {
    &&& after.active == before.active
    &&& after.capture_started == before.capture_started
    &&& after.capture_mouse_move == before.capture_mouse_move
    &&& after.capture_mouse_clicks == before.capture_mouse_clicks
    &&& after.started_at_ms == before.started_at_ms
    &&& after.completed_steps == before.completed_steps
}

/// Arms the recorder for a new recording at `now_ms`: it records with the
/// given capture options, from no steps and no held input; capturing starts
/// at the first admitted event.
pub fn arm_recorder(recorder: &mut RecorderState, capture_mouse_move: bool, capture_mouse_clicks: bool, now_ms: u64)
    ensures
        final(recorder).active,
        !final(recorder).capture_started,
        final(recorder).capture_mouse_move == capture_mouse_move,
        final(recorder).capture_mouse_clicks == capture_mouse_clicks,
        final(recorder).started_at_ms == Some(now_ms),
        final(recorder).last_event_ms is None,
        final(recorder).last_mouse_move is None,
        final(recorder).steps@.len() == 0,
        final(recorder).completed_steps is None,
        final(recorder).pressed_keys@ == Set::<u32>::empty(),
        final(recorder).pressed_buttons@.len() == 0,
{
    recorder.capture_mouse_move = capture_mouse_move;
    recorder.capture_mouse_clicks = capture_mouse_clicks;
    recorder.capture_started = false;
    recorder.active = true;
    recorder.started_at_ms = Some(now_ms);
    recorder.last_event_ms = None;
    recorder.last_mouse_move = None;
    recorder.steps = Vec::new();
    recorder.completed_steps = None;
    recorder.pressed_keys = HashSet::new();
    recorder.pressed_buttons = Vec::new();
}

/// The steps a live recording ends with, before the held input is released:
/// without the trailing pointer path and clicks when asked to drop them.
pub open spec fn recorded_before_finish(recorder: RecorderState, discard_trailing: bool) -> (
    Seq<MacroStep>,
    Seq<MouseButton>,
) {
    if discard_trailing {
        trailing_mouse_removed(recorder.steps@, recorder.pressed_buttons@)
    } else {
        (recorder.steps@, recorder.pressed_buttons@)
    }
}

/// Stops the recording and hands over its steps. A live recording is
/// finished first (dropping the trailing pointer path and clicks when asked);
/// a finished recording not yet collected is handed over as it is. With
/// neither, the request fails with `recording_inactive`. The recorder keeps
/// no result afterwards.
pub fn take_recording(recorder: &mut RecorderState, discard_trailing: bool) -> (r: Result<
    crate::status::MacroRecordingResult,
    crate::status::AppError,
>)
    ensures
        final(recorder).completed_steps is None,
        !final(recorder).active,
        old(recorder).active ==> (r matches Ok(result) && result.target is None && finishes_to(
            recorded_before_finish(*old(recorder), discard_trailing).0,
            old(recorder).pressed_keys@,
            recorded_before_finish(*old(recorder), discard_trailing).1,
            result.steps@,
        )),
        !old(recorder).active ==> match old(recorder).completed_steps {
            Some(steps) => (r matches Ok(result) && result.steps == steps && result.target is None),
            None => (r matches Err(e) && e.code@ == "recording_inactive"@ && e.message@
                == "当前没有正在进行的宏录制"@),
        },
{
    if recorder.active {
        if discard_trailing {
            discard_trailing_mouse_input_steps(recorder);
        }
        finish_recorder(recorder);
    }
    let taken = recorder.completed_steps.take();
    match taken {
        Some(steps) => Ok(crate::status::MacroRecordingResult { steps, target: None }),
        None => Err(crate::status::AppError::invalid("recording_inactive", "当前没有正在进行的宏录制")),
    }
}

} // verus!
