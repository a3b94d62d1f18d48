use autoflow::config::{AppConfig, AutomationProgram, MacroMode, MacroRule, MacroStep};
use autoflow::hold::{
    cancel_hold_identity_for_key, hold_diagnostic_fields, hold_trigger_word_contains,
    trigger_release_gate_status, HoldLifecycleIdentity, HoldLifecyclePhase, TriggerGateObservation,
    TriggerTaskStamp,
};
use autoflow::input_safety::{InjectedInputState, InputPermit, PointerTrajectoryPoint};
use autoflow::keys::{
    canonical_virtual_key, is_keyboard_modifier, is_shift_key, is_text_modifier,
    shifted_printable_character, KeyAction, MouseButton,
};
use autoflow::launch::{split_command_line, visit_launch_commands};
use autoflow::ledger::{
    is_recording_shortcut_key, latched_signature_contains_vk, physical_ledger_contains_trigger,
    trigger_down_from_ledger_or_async, update_physical_pressed_ledger,
};
use autoflow::native::{
    clear_released_macro_trigger_state, native_clicker_registration_allowed, native_hotkey_spec,
    native_registration_plan, retire_native_registration_map, should_show_playback_error, CANCELLED,
};
use autoflow::playback::{
    detector_heartbeat_fresh, emergency_entry_point_name, macro_step_kind, macro_step_summary,
    randomized_delay_from_clock, randomized_delay_ms, release_after_best_effort_move,
    resolve_cursor_start,
};
use autoflow::recorder::{discard_recording_shortcut_steps, push_record_step_at, RecorderState};
use autoflow::runtime::{RunToken, RuntimeController};
use autoflow::snapshot::{sort_key_codes, trigger_macro_snapshot, trigger_permission_snapshot};
use autoflow::trigger::{
    drive_hold_modifier_release_gate, drive_trigger_release_gate, HoldModifierReleaseSample,
    TriggerReleaseCancellation, TriggerReleaseGate, TriggerReleaseGateOutcome,
    TriggerReleaseGateStatus, TriggerReleaseSample,
};
use std::cell::{Cell, RefCell};
use std::collections::{HashMap, HashSet, VecDeque};
use std::sync::atomic::{AtomicBool, AtomicUsize, Ordering};

fn speed_bits(speed: f32) -> u32 {
    speed.to_bits()
}

fn rule_fixture(id: &str, trigger_keys: &[&str], mode: MacroMode) -> MacroRule {
    MacroRule {
        id: id.into(),
        name: id.into(),
        import_error: None,
        enabled: true,
        trigger_keys: trigger_keys.iter().map(|key| key.to_string()).collect(),
        mode,
        repeat_count: 1,
        speed_bits: speed_bits(1.0),
        record_mouse_move: true,
        record_mouse_clicks: true,
        target: None,
        program: AutomationProgram::Macro { steps: Vec::new() },
    }
}

fn running_controller() -> (RuntimeController, RunToken) {
    let mut controller = RuntimeController::new();
    let lease = controller
        .begin_start(None)
        .expect("start should be admitted");
    let token = lease.token();
    assert!(controller.activate(token));
    lease.commit();
    (controller, token)
}

#[test]
fn emergency_heartbeat_requires_a_recent_monotonic_observation() {
    assert!(!detector_heartbeat_fresh(1000, 0));
    assert!(detector_heartbeat_fresh(1000, 900));
    assert!(!detector_heartbeat_fresh(1000, 899));
    assert!(!detector_heartbeat_fresh(1000, 1001));
}

#[test]
fn late_biomimetic_trajectory_cannot_write_after_permit_revocation() {
    let (mut controller, token) = running_controller();
    let mut permit = InputPermit::new(InjectedInputState::default(), token);
    let planned = [PointerTrajectoryPoint {
        x: 640,
        y: 480,
        delay_ms: 0,
    }];
    let cancel = AtomicBool::new(false);

    // Model a planner returning after F12 changed the controller generation.
    // The trajectory executor must recheck the permit before invoking its
    // platform writer.
    controller.request_stop();
    let writes = AtomicUsize::new(0);
    assert!(permit
        .execute_pointer_points(
            &controller,
            &planned,
            &cancel,
            |_, _| {
                writes.fetch_add(1, Ordering::SeqCst);
                Ok(())
            },
            |_| true,
        )
        .is_err());
    assert_eq!(writes.load(Ordering::SeqCst), 0);
}

#[test]
fn native_unregister_failures_remain_tracked_and_retry_only_remaining_ids() {
    let mut registered: HashMap<i32, String> =
        HashMap::from([(0x5000, "one".into()), (0x5001, "two".into())]);
    let calls = RefCell::new(Vec::new());
    assert!(!retire_native_registration_map(&mut registered, |id| {
        calls.borrow_mut().push(id);
        id == 0x5001
    }));
    calls.borrow_mut().sort_unstable();
    assert_eq!(*calls.borrow(), [0x5000, 0x5001]);
    assert_eq!(registered.len(), 1);
    assert_eq!(registered.get(&0x5000).map(String::as_str), Some("one"));
    calls.borrow_mut().clear();
    assert!(retire_native_registration_map(&mut registered, |id| {
        calls.borrow_mut().push(id);
        true
    }));
    assert_eq!(*calls.borrow(), [0x5000]);
    assert!(registered.is_empty());
}

#[test]
fn registration_plan_ignores_script_and_ui_edits_but_detects_trigger_changes() {
    let mut config = AppConfig {
        macros: vec![MacroRule {
            name: "fixture".into(),
            ..rule_fixture("registration-fixture", &["F10"], MacroMode::Once)
        }],
        ..AppConfig::default()
    };
    let expected = native_registration_plan(&config);
    assert_eq!(expected, [("registration-fixture".into(), 0, 0x79)]);
    config.global_enabled = false;
    config.show_playback_overlay = true;
    config.macros[0].name = "renamed".into();
    config.macros[0].mode = MacroMode::Toggle;
    config.macros[0].speed_bits = speed_bits(2.0);
    config.macros[0].program = AutomationProgram::Macro {
        steps: vec![MacroStep::Delay {
            duration_ms: 37,
            duration_max_ms: None,
        }],
    };
    assert_eq!(native_registration_plan(&config), expected);
    config.macros[0].trigger_keys = vec!["Ctrl".into(), "F10".into()];
    assert_ne!(native_registration_plan(&config), expected);
    config.macros[0].mode = MacroMode::Hold;
    assert!(native_registration_plan(&config).is_empty());
    config.macros[0].mode = MacroMode::Once;
    config.macros[0].enabled = false;
    assert!(native_registration_plan(&config).is_empty());
    config.macros[0].enabled = true;
    config.macros[0].trigger_keys = vec!["F12".into()];
    assert!(native_registration_plan(&config).is_empty());
    config.macros[0].trigger_keys = vec!["Ctrl".into(), "F12".into()];
    assert!(native_registration_plan(&config).is_empty());
    config.emergency_stop = "F11".into();
    config.macros[0].trigger_keys = vec!["Shift".into(), "F11".into()];
    assert!(native_registration_plan(&config).is_empty());
    config.macros[0].trigger_keys = vec!["Shift".into(), "F10".into()];
    assert!(!native_registration_plan(&config).is_empty());
}

#[test]
fn native_clicker_registration_rejects_any_emergency_key_in_ctrl_f8() {
    let mut config = AppConfig::default();
    assert!(native_clicker_registration_allowed(&config));
    config.emergency_stop = "F8".into();
    assert!(!native_clicker_registration_allowed(&config));
    config.emergency_stop = "Control".into();
    assert!(!native_clicker_registration_allowed(&config));
}

#[test]
fn launch_command_dispatch_rechecks_permission_between_commands() {
    let checks = Cell::new(0);
    let seen = RefCell::new(Vec::new());
    visit_launch_commands(
        "\"test program\" a\nsecond b\nthird c",
        || {
            checks.set(checks.get() + 1);
            checks.get() == 1
        },
        |program, args| seen.borrow_mut().push((program.to_string(), args.to_vec())),
    );
    assert_eq!(checks.get(), 2);
    assert_eq!(*seen.borrow(), [("test program".to_string(), vec!["a".to_string()])]);
    visit_launch_commands("never-executed", || false, |_, _| panic!("revoked launch"));
}

#[test]
fn ctrl_f9_gate_waits_for_every_key_and_a_stable_release_window() {
    let mut gate = TriggerReleaseGate::new(18, 5000);
    assert_eq!(gate.observe(0, true, TriggerReleaseGateStatus::Current), None);
    // F9 is up, but Ctrl remains down: startup is still forbidden.
    assert_eq!(gate.observe(12, true, TriggerReleaseGateStatus::Current), None);
    assert_eq!(gate.observe(20, false, TriggerReleaseGateStatus::Current), None);
    assert_eq!(gate.observe(37, false, TriggerReleaseGateStatus::Current), None);
    assert_eq!(
        gate.observe(38, false, TriggerReleaseGateStatus::Current),
        Some(TriggerReleaseGateOutcome::Ready)
    );
}

#[test]
fn single_key_gate_never_starts_before_key_up() {
    let mut gate = TriggerReleaseGate::new(18, 5000);
    for millis in [0, 20, 200] {
        assert_eq!(
            gate.observe(millis, true, TriggerReleaseGateStatus::Current),
            None
        );
    }
    assert_eq!(gate.observe(201, false, TriggerReleaseGateStatus::Current), None);
    assert_eq!(
        gate.observe(219, false, TriggerReleaseGateStatus::Current),
        Some(TriggerReleaseGateOutcome::Ready)
    );
}

#[test]
fn hold_owner_release_is_terminal_but_owner_only_hold_is_immediate() {
    let released = RefCell::new(VecDeque::from([
        HoldModifierReleaseSample {
            elapsed_ms: 0,
            owner_down: true,
            any_modifier_down: true,
            status: TriggerReleaseGateStatus::Current,
        },
        HoldModifierReleaseSample {
            elapsed_ms: 3,
            owner_down: false,
            any_modifier_down: true,
            status: TriggerReleaseGateStatus::Current,
        },
        // A re-press must not create a new start in this epoch.
        HoldModifierReleaseSample {
            elapsed_ms: 6,
            owner_down: true,
            any_modifier_down: false,
            status: TriggerReleaseGateStatus::Current,
        },
    ]));
    assert_eq!(
        drive_hold_modifier_release_gate(
            true,
            TriggerReleaseGate::new(18, 5000),
            || released.borrow_mut().pop_front().expect("Hold release sample"),
            |_| {},
        ),
        TriggerReleaseGateOutcome::Cancelled(TriggerReleaseCancellation::HoldOwnerReleased)
    );
    assert_eq!(released.borrow().len(), 1);

    let samples = Cell::new(0);
    assert_eq!(
        drive_hold_modifier_release_gate(
            false,
            TriggerReleaseGate::new(18, 5000),
            || {
                samples.set(samples.get() + 1);
                HoldModifierReleaseSample {
                    elapsed_ms: 0,
                    owner_down: true,
                    any_modifier_down: false,
                    status: TriggerReleaseGateStatus::Current,
                }
            },
            |_| {},
        ),
        TriggerReleaseGateOutcome::Ready
    );
    assert_eq!(samples.get(), 1);
}

#[test]
fn final_admission_repress_resets_stability_and_never_returns_ready() {
    let samples = RefCell::new(VecDeque::from([
        TriggerReleaseSample {
            elapsed_ms: 0,
            any_trigger_key_down: true,
            status: TriggerReleaseGateStatus::Current,
        },
        TriggerReleaseSample {
            elapsed_ms: 20,
            any_trigger_key_down: false,
            status: TriggerReleaseGateStatus::Current,
        },
        TriggerReleaseSample {
            elapsed_ms: 38,
            any_trigger_key_down: false,
            status: TriggerReleaseGateStatus::Current,
        },
        // This is the final-admission resample after the stable window.
        // Re-pressing F9 must reset the window, not return Ready.
        TriggerReleaseSample {
            elapsed_ms: 39,
            any_trigger_key_down: true,
            status: TriggerReleaseGateStatus::Current,
        },
        // A later shutdown is terminal, so the earlier Ready candidate
        // cannot leak through.
        TriggerReleaseSample {
            elapsed_ms: 40,
            any_trigger_key_down: false,
            status: TriggerReleaseGateStatus::Shutdown,
        },
    ]));
    let outcome = drive_trigger_release_gate(
        TriggerReleaseGate::new(18, 5000),
        || samples.borrow_mut().pop_front().expect("deterministic gate sample"),
        |_| {},
    );
    assert_eq!(outcome, TriggerReleaseGateOutcome::Shutdown);
    assert!(samples.borrow().is_empty());
}

#[test]
fn clicker_identity_is_trigger_permission_relevant() {
    let mut ordinary = AppConfig {
        macros: vec![rule_fixture("trigger-fixture", &["Ctrl", "F8"], MacroMode::Toggle)],
        ..AppConfig::default()
    };
    ordinary.macros[0].trigger_keys = vec!["Ctrl".into(), "F8".into()];
    ordinary.macros[0].mode = MacroMode::Toggle;
    let mut clicker = ordinary.clone();
    clicker.macros[0].name = "连点器".into();
    assert_ne!(
        trigger_permission_snapshot(&ordinary),
        trigger_permission_snapshot(&clicker)
    );
}

#[test]
fn hold_diagnostics_are_correlatable_and_do_not_include_typed_content() {
    let fields = hold_diagnostic_fields(
        Some("hold-diagnostic-fixture"),
        "input_permission_revoked",
        Some(17),
        Some(RunToken {
            id: 23,
            generation: 29,
        }),
        Some(0x41),
        Some(0x41),
        Some(0x41),
    )
    .into_iter()
    .collect::<HashMap<_, _>>();

    assert_eq!(fields.get("mode").map(String::as_str), Some("hold"));
    assert_eq!(
        fields.get("source").map(String::as_str),
        Some("low_level_keyboard")
    );
    assert_eq!(
        fields.get("decision").map(String::as_str),
        Some("input_permission_revoked")
    );
    assert_eq!(fields.get("hold_epoch").map(String::as_str), Some("17"));
    assert_eq!(fields.get("run_id").map(String::as_str), Some("23"));
    assert_eq!(fields.get("run_generation").map(String::as_str), Some("29"));
    assert_eq!(fields.get("canonical_vk").map(String::as_str), Some("0x41"));
    assert_eq!(fields.get("owner_vk").map(String::as_str), Some("0x41"));
    assert_eq!(fields.get("released_vk").map(String::as_str), Some("0x41"));
    assert!(!fields.contains_key("key"));
    assert!(!fields.contains_key("text"));
    assert!(!fields.contains_key("content"));
}

#[test]
fn left_and_right_modifier_vk_codes_are_supported() {
    assert!(is_shift_key(0xA0));
    assert!(is_shift_key(0xA1));
    assert!(is_text_modifier(0xA2));
    assert!(is_text_modifier(0xA5));
    assert!(is_keyboard_modifier(0x5B));
}

#[test]
fn modifier_keys_are_canonicalized_for_combo_matching() {
    assert_eq!(canonical_virtual_key(0xA2), 0x11);
    assert_eq!(canonical_virtual_key(0xA5), 0x12);
    assert_eq!(canonical_virtual_key(0xA1), 0x10);
    assert_eq!(canonical_virtual_key(0x5C), 0x5B);

    for (raw, canonical) in [
        (0xA0, 0x10),
        (0xA1, 0x10),
        (0xA2, 0x11),
        (0xA3, 0x11),
        (0xA4, 0x12),
        (0xA5, 0x12),
        (0x5B, 0x5B),
        (0x5C, 0x5B),
    ] {
        let ledger = HashSet::from([raw]);
        assert!(physical_ledger_contains_trigger(&ledger, canonical));
    }
}

#[test]
fn hook_physical_ledger_is_conservative_when_async_state_is_false() {
    let mut ledger = HashSet::new();
    update_physical_pressed_ledger(&mut ledger, 0x78, true, false, false);
    assert!(trigger_down_from_ledger_or_async(&ledger, 0x78, |_| false));

    let mut gate = TriggerReleaseGate::new(18, 5000);
    assert_eq!(
        gate.observe(
            100,
            trigger_down_from_ledger_or_async(&ledger, 0x78, |_| false),
            TriggerReleaseGateStatus::Current,
        ),
        None
    );
    update_physical_pressed_ledger(&mut ledger, 0x78, false, true, false);
    assert!(!trigger_down_from_ledger_or_async(&ledger, 0x78, |_| false));
    assert_eq!(gate.observe(101, false, TriggerReleaseGateStatus::Current), None);
    assert_eq!(
        gate.observe(119, false, TriggerReleaseGateStatus::Current),
        Some(TriggerReleaseGateOutcome::Ready)
    );
}

#[test]
fn swallowed_combo_key_and_modifier_sides_require_real_hook_keyups() {
    let mut ledger = HashSet::new();
    update_physical_pressed_ledger(&mut ledger, 0xA2, true, false, false);
    update_physical_pressed_ledger(&mut ledger, 0xA3, true, false, false);
    update_physical_pressed_ledger(&mut ledger, 0x78, true, false, false);
    assert!(physical_ledger_contains_trigger(&ledger, 0x11));
    assert!(physical_ledger_contains_trigger(&ledger, 0x78));

    // The swallowed final F9 key cannot disappear merely because the async
    // provider reports false. Its physical keyup is authoritative.
    assert!(trigger_down_from_ledger_or_async(&ledger, 0x78, |_| false));
    update_physical_pressed_ledger(&mut ledger, 0x78, false, true, false);
    assert!(!physical_ledger_contains_trigger(&ledger, 0x78));
    assert!(physical_ledger_contains_trigger(&ledger, 0x11));

    // Releasing one side must not clear the other physical Ctrl.
    update_physical_pressed_ledger(&mut ledger, 0xA2, false, true, false);
    assert!(physical_ledger_contains_trigger(&ledger, 0x11));
    update_physical_pressed_ledger(&mut ledger, 0xA3, false, true, false);
    assert!(!physical_ledger_contains_trigger(&ledger, 0x11));
}

#[test]
fn injected_and_repeat_events_do_not_corrupt_physical_ledger() {
    let mut ledger = HashSet::new();
    update_physical_pressed_ledger(&mut ledger, 0x78, true, false, true);
    assert!(ledger.is_empty(), "injected keydown is never physical state");

    update_physical_pressed_ledger(&mut ledger, 0x78, true, false, false);
    update_physical_pressed_ledger(&mut ledger, 0x78, true, false, false);
    assert_eq!(ledger, HashSet::from([0x78]));
    update_physical_pressed_ledger(&mut ledger, 0x78, false, true, true);
    assert_eq!(ledger, HashSet::from([0x78]));
    update_physical_pressed_ledger(&mut ledger, 0x78, false, true, false);
    assert!(ledger.is_empty());
}

#[test]
fn shifted_number_keys_produce_symbols_for_text_expansions() {
    let pressed = HashSet::from([0x10]);
    assert_eq!(shifted_printable_character(0x32, &pressed), Some("@"));
    assert_eq!(shifted_printable_character(0x31, &pressed), Some("!"));
    assert_eq!(shifted_printable_character(0x32, &HashSet::new()), None);
}

#[test]
fn random_delay_stays_in_the_requested_range() {
    assert_eq!(randomized_delay_ms(300, None), 300);
    assert_eq!(randomized_delay_ms(300, Some(100)), 300);
    for _ in 0..16 {
        let value = randomized_delay_ms(120, Some(360));
        assert!((120..=360).contains(&value));
    }
}

#[test]
fn live_cursor_position_takes_priority_over_cached_automation_endpoint() {
    assert_eq!(
        resolve_cursor_start(Some((420, 260)), Some((100, 80))),
        Some((420, 260))
    );
    assert_eq!(resolve_cursor_start(None, Some((100, 80))), Some((100, 80)));
}

#[test]
fn mouse_button_release_is_attempted_when_cursor_move_fails() {
    let released = AtomicBool::new(false);
    let result = release_after_best_effort_move(Some(|| Err("move rejected".to_string())), || {
        released.store(true, Ordering::SeqCst);
        Ok(())
    });
    assert_eq!(result, Err("move rejected".to_string()));
    assert!(released.load(Ordering::SeqCst));
}

#[test]
fn mouse_button_release_failure_is_not_hidden_by_move_success() {
    let result = release_after_best_effort_move(Some(|| Ok(())), || {
        Err("button release rejected".to_string())
    });
    assert_eq!(result, Err("button release rejected".to_string()));
}

#[test]
fn mouse_button_release_reports_move_failure_after_successful_release() {
    let result = release_after_best_effort_move(Some(|| Err("move rejected".to_string())), || Ok(()));
    assert_eq!(result, Err("move rejected".to_string()));
}

#[test]
fn split_command_line_preserves_quoted_paths_and_arguments() {
    assert_eq!(
        split_command_line(r#""C:\Program Files\Demo\demo.exe" --open"#),
        vec![
            r#"C:\Program Files\Demo\demo.exe"#.to_string(),
            "--open".to_string(),
        ]
    );
}

#[test]
fn recording_shortcut_is_detected_and_removed_from_recording() {
    let pressed = HashSet::from([0x10_u32, 0x11_u32, 0x78_u32]);
    assert!(is_recording_shortcut_key(0x78, &pressed));

    let mut recorder = RecorderState {
        steps: vec![
            MacroStep::Key {
                key: "Ctrl".to_string(),
                action: KeyAction::Down,
            },
            MacroStep::Delay {
                duration_ms: 20,
                duration_max_ms: None,
            },
            MacroStep::Key {
                key: "Shift".to_string(),
                action: KeyAction::Down,
            },
            MacroStep::Key {
                key: "F9".to_string(),
                action: KeyAction::Down,
            },
        ],
        pressed_keys: pressed,
        ..Default::default()
    };
    discard_recording_shortcut_steps(&mut recorder);
    assert!(recorder.steps.is_empty());
    assert!(recorder.pressed_keys.is_empty());
}

#[test]
fn macro_and_hotkey_latches_are_released_by_key_up() {
    assert!(latched_signature_contains_vk("macro+119", 0x77));
    assert!(latched_signature_contains_vk("17+119", 0x11));
    assert!(latched_signature_contains_vk("Ctrl+F8", 0x77));
    assert!(!latched_signature_contains_vk("macro+119", 0x78));
}

#[test]
fn completed_macro_reconciles_stale_pressed_and_latched_trigger_state() {
    let trigger_vks = [0x77_u32];
    let signature = "macro+119".to_string();
    let mut pressed = HashSet::from(trigger_vks);
    let mut latched = HashSet::from([signature.clone()]);

    assert!(clear_released_macro_trigger_state(
        &mut pressed,
        &mut latched,
        &trigger_vks,
        |_| false,
    ));
    assert!(!pressed.contains(&0x77));
    assert!(!latched.contains(&signature));
}

#[test]
fn completed_macro_keeps_trigger_state_while_key_is_physically_held() {
    let trigger_vks = [0x77_u32];
    let signature = "macro+119".to_string();
    let mut pressed = HashSet::from(trigger_vks);
    let mut latched = HashSet::from([signature.clone()]);

    assert!(!clear_released_macro_trigger_state(
        &mut pressed,
        &mut latched,
        &trigger_vks,
        |_| true,
    ));
    assert!(pressed.contains(&0x77));
    assert!(latched.contains(&signature));
}

#[test]
fn playback_errors_are_visible_but_f12_cancellation_stays_silent() {
    assert!(should_show_playback_error("找不到图像文件"));
    assert!(!should_show_playback_error(CANCELLED));
}

#[test]
fn native_hotkey_specs_support_single_function_keys_and_modifier_combos() {
    assert_eq!(native_hotkey_spec(&["F9".to_string()]), Some((0, 0x78)));
    assert_eq!(
        native_hotkey_spec(&["Ctrl".to_string(), "F9".to_string()]),
        Some((0x0002, 0x78))
    );
    assert_eq!(native_hotkey_spec(&["Ctrl".to_string()]), None);
    assert_eq!(
        native_hotkey_spec(&["F8".to_string(), "F9".to_string()]),
        None
    );
}

#[test]
fn recording_preserves_sub_eight_millisecond_step_intervals() {
    let mut recorder = RecorderState::default();
    let started = 1_000_u64;
    push_record_step_at(&mut recorder, MacroStep::MouseMove { x: 10, y: 20 }, started);
    push_record_step_at(
        &mut recorder,
        MacroStep::MouseMove { x: 30, y: 40 },
        started + 4,
    );

    assert_eq!(
        recorder.steps,
        vec![
            MacroStep::MouseMove { x: 10, y: 20 },
            MacroStep::Delay {
                duration_ms: 4,
                duration_max_ms: None,
            },
            MacroStep::MouseMove { x: 30, y: 40 },
        ]
    );
}

// Scenarios for the decisions that stand beside the ported tests.

#[test]
fn emergency_entry_points_have_stable_names() {
    assert_eq!(emergency_entry_point_name(1), "physical_key_detector");
    assert_eq!(emergency_entry_point_name(2), "low_level_hook");
    assert_eq!(emergency_entry_point_name(3), "command");
    assert_eq!(emergency_entry_point_name(0), "unknown");
    assert_eq!(emergency_entry_point_name(7), "unknown");
}

#[test]
fn release_without_a_move_reports_only_the_release() {
    let no_move: Option<fn() -> Result<(), String>> = None;
    assert_eq!(release_after_best_effort_move(no_move, || Ok(())), Ok(()));
    assert_eq!(
        release_after_best_effort_move(no_move, || Err("released badly".to_string())),
        Err("released badly".to_string())
    );
}

#[test]
fn randomized_delay_mixes_the_clock_into_the_span() {
    assert_eq!(randomized_delay_from_clock(50, None, 12345), 50);
    assert_eq!(randomized_delay_from_clock(50, Some(50), 12345), 50);
    for clock in [0_u64, 1, 2, 12345, u64::MAX] {
        let value = randomized_delay_from_clock(10, Some(20), clock);
        assert!((10..=20).contains(&value));
    }
    assert_eq!(randomized_delay_from_clock(0, Some(u64::MAX), 0) <= u64::MAX, true);
    // A span of one value leaves no choice.
    assert_eq!(randomized_delay_from_clock(u64::MAX - 1, Some(u64::MAX - 1), 99), u64::MAX - 1);
}

#[test]
fn step_labels_name_the_step_without_typed_text() {
    let delay = MacroStep::Delay {
        duration_ms: 120,
        duration_max_ms: Some(360),
    };
    assert_eq!(macro_step_kind(&delay), "delay");
    assert_eq!(macro_step_summary(&delay), "等待 120–360 ms");
    let fixed = MacroStep::Delay {
        duration_ms: 5,
        duration_max_ms: None,
    };
    assert_eq!(macro_step_summary(&fixed), "等待 5 ms");
    let key = MacroStep::Key {
        key: "Ctrl".into(),
        action: KeyAction::Up,
    };
    assert_eq!(macro_step_kind(&key), "key_up");
    assert_eq!(macro_step_summary(&key), "释放 Ctrl");
    let click = MacroStep::MouseButton {
        button: MouseButton::Right,
        action: KeyAction::Down,
        x: 1,
        y: 2,
    };
    assert_eq!(macro_step_kind(&click), "mouse_button_down");
    assert_eq!(
        macro_step_summary(&click),
        format!("鼠标{}按下", autoflow::keys::mouse_button_name(MouseButton::Right))
    );
    let moved = MacroStep::MouseMove { x: -5, y: 7 };
    assert_eq!(macro_step_kind(&moved), "mouse_move");
    assert_eq!(macro_step_summary(&moved), "移动鼠标至 (-5, 7)");
    let wheel = MacroStep::Wheel {
        delta_x: 0,
        delta_y: -120,
    };
    assert_eq!(macro_step_kind(&wheel), "wheel");
    assert_eq!(macro_step_summary(&wheel), "滚轮 (0, -120)");
    let text = MacroStep::Text {
        text: "secret".into(),
    };
    assert_eq!(macro_step_kind(&text), "text");
    assert_eq!(macro_step_summary(&text), "输入文本");
}

#[test]
fn hold_words_cover_the_first_256_keys() {
    let mut words = [0_u64; 4];
    words[1] |= 1 << (0x41 - 64);
    words[3] |= 1 << 63;
    assert!(hold_trigger_word_contains(&words, 0x41));
    assert!(!hold_trigger_word_contains(&words, 0x42));
    assert!(hold_trigger_word_contains(&words, 255));
    assert!(!hold_trigger_word_contains(&words, 256));
    assert!(!hold_trigger_word_contains(&[u64::MAX; 4], 4096));
}

#[test]
fn owner_key_up_cancels_the_live_hold_once() {
    let token = RunToken {
        id: 3,
        generation: 4,
    };
    let mut current = Some(HoldLifecycleIdentity {
        epoch: 9,
        macro_id: "hold".into(),
        rule_snapshot: trigger_macro_snapshot(&rule_fixture("hold", &["A"], MacroMode::Hold)),
        owner_vk: 0x41,
        phase: HoldLifecyclePhase::Active {
            run_token: token,
            instance_id: 2,
        },
        cancelled: false,
    });
    let mut matched = None;
    let mut bound = None;
    assert!(!cancel_hold_identity_for_key(&mut current, 0x42, &mut matched, &mut bound));
    assert_eq!(matched, None);
    assert!(cancel_hold_identity_for_key(&mut current, 0x41, &mut matched, &mut bound));
    assert_eq!(matched, Some(9));
    assert_eq!(bound, Some(token));
    assert!(current.as_ref().expect("hold").cancelled);
    // A second key-up finds the Hold already cancelled.
    let mut matched_again = None;
    let mut bound_again = None;
    assert!(cancel_hold_identity_for_key(
        &mut current,
        0x41,
        &mut matched_again,
        &mut bound_again
    ));
    assert_eq!(matched_again, Some(9));
    assert_eq!(bound_again, None);
    let mut none = None;
    assert!(!cancel_hold_identity_for_key(&mut none, 0x41, &mut matched, &mut bound));
}

#[test]
fn release_gate_reports_the_first_stale_admission_fact() {
    let task = TriggerTaskStamp {
        generation: 1,
        controller_generation: 2,
        admission_revision: 3,
        config_revision: 4,
        hold_epoch: Some(5),
    };
    let current = TriggerGateObservation {
        shutdown: false,
        emergency_generation: 1,
        controller_generation: 2,
        ledger_uncertain: false,
        admission_revision: 3,
        config_revision: 4,
        hold_lifecycle_epoch: 5,
        hold_cancelled_epoch: 4,
    };
    assert_eq!(
        trigger_release_gate_status(&current, &task),
        TriggerReleaseGateStatus::Current
    );
    let cases = [
        (
            TriggerGateObservation {
                shutdown: true,
                emergency_generation: 9,
                ..current
            },
            TriggerReleaseGateStatus::Shutdown,
        ),
        (
            TriggerGateObservation {
                emergency_generation: 9,
                ledger_uncertain: true,
                ..current
            },
            TriggerReleaseGateStatus::Cancelled(TriggerReleaseCancellation::TaskGeneration),
        ),
        (
            TriggerGateObservation {
                controller_generation: 9,
                ..current
            },
            TriggerReleaseGateStatus::Cancelled(TriggerReleaseCancellation::ControllerGeneration),
        ),
        (
            TriggerGateObservation {
                ledger_uncertain: true,
                ..current
            },
            TriggerReleaseGateStatus::Cancelled(
                TriggerReleaseCancellation::PhysicalLedgerUncertain,
            ),
        ),
        (
            TriggerGateObservation {
                admission_revision: 9,
                ..current
            },
            TriggerReleaseGateStatus::Cancelled(TriggerReleaseCancellation::AdmissionRevision),
        ),
        (
            TriggerGateObservation {
                config_revision: 9,
                ..current
            },
            TriggerReleaseGateStatus::Cancelled(TriggerReleaseCancellation::ConfigRevision),
        ),
        (
            TriggerGateObservation {
                hold_cancelled_epoch: 5,
                ..current
            },
            TriggerReleaseGateStatus::Cancelled(TriggerReleaseCancellation::HoldLifecycle),
        ),
        (
            TriggerGateObservation {
                hold_lifecycle_epoch: 6,
                ..current
            },
            TriggerReleaseGateStatus::Cancelled(TriggerReleaseCancellation::HoldLifecycle),
        ),
    ];
    for (observed, expected) in cases {
        assert_eq!(trigger_release_gate_status(&observed, &task), expected);
    }
    let toggle_task = TriggerTaskStamp {
        hold_epoch: None,
        ..task
    };
    let stale_hold = TriggerGateObservation {
        hold_lifecycle_epoch: 0,
        hold_cancelled_epoch: 99,
        ..current
    };
    assert_eq!(
        trigger_release_gate_status(&stale_hold, &toggle_task),
        TriggerReleaseGateStatus::Current
    );
}

#[test]
fn trigger_snapshots_sort_codes_and_order_rules_by_id() {
    assert_eq!(sort_key_codes(vec![0x78, 0x11, 0x10, 0x11]), vec![0x10, 0x11, 0x11, 0x78]);
    let snapshot = trigger_macro_snapshot(&rule_fixture("b", &["F9", "Ctrl"], MacroMode::Repeat));
    assert_eq!(snapshot.trigger_vks, Some(vec![0x11, 0x78]));
    assert_eq!(snapshot.mode, 1);
    assert!(!snapshot.clicker);
    let unknown = trigger_macro_snapshot(&rule_fixture("c", &["NoSuchKey"], MacroMode::Once));
    assert_eq!(unknown.trigger_vks, None);

    let mut disabled = rule_fixture("a", &["F1"], MacroMode::Once);
    disabled.enabled = false;
    let config = AppConfig {
        macros: vec![
            rule_fixture("zeta", &["F2"], MacroMode::Once),
            disabled,
            rule_fixture("alpha", &["F3"], MacroMode::Once),
            rule_fixture("Beta", &["F4"], MacroMode::Once),
        ],
        ..AppConfig::default()
    };
    let permission = trigger_permission_snapshot(&config);
    assert!(permission.global_enabled);
    assert_eq!(permission.emergency_vk, Some(0x7B));
    let ids: Vec<&str> = permission.macros.iter().map(|m| m.id.as_str()).collect();
    assert_eq!(ids, ["Beta", "alpha", "zeta"]);
}

#[test]
fn pending_claim_clears_on_every_gate_exit_and_can_be_reclaimed() {
    let terminal_statuses = [
        TriggerReleaseGateStatus::Current,
        TriggerReleaseGateStatus::Shutdown,
        TriggerReleaseGateStatus::Cancelled(TriggerReleaseCancellation::TaskGeneration),
        TriggerReleaseGateStatus::Cancelled(TriggerReleaseCancellation::ControllerGeneration),
        TriggerReleaseGateStatus::Cancelled(TriggerReleaseCancellation::AdmissionRevision),
        TriggerReleaseGateStatus::Cancelled(TriggerReleaseCancellation::ConfigRevision),
        TriggerReleaseGateStatus::Cancelled(TriggerReleaseCancellation::PhysicalLedgerUncertain),
    ];
    for status in terminal_statuses {
        let pending = AtomicBool::new(true);
        {
            let _reset = autoflow::trigger::TriggerPendingReset(&pending);
            let mut gate = TriggerReleaseGate::new(18, 10);
            assert!(gate.observe(10, true, status).is_some());
            assert!(pending.load(Ordering::Acquire));
        }
        assert!(!pending.load(Ordering::Acquire));
        assert!(pending
            .compare_exchange(false, true, Ordering::AcqRel, Ordering::Acquire)
            .is_ok());
    }
}

#[test]
fn hold_atomic_snapshot_rejects_mixed_epoch_phase_and_token_reads() {
    let old = RunToken {
        id: 7,
        generation: 3,
    };
    let stable = autoflow::trigger::consistent_hold_atomic_snapshot(11, true, 2, old, 2, 11)
        .expect("stable Bound snapshot");
    assert_eq!(stable.epoch, 11);
    assert!(stable.trigger_matches);
    assert_eq!(stable.bound_token, Some(old));

    // Retirement/replacement between dependent field loads must not combine
    // an old trigger bitmap with a new lifecycle token.
    let replacement = RunToken {
        id: 8,
        generation: 3,
    };
    assert!(
        autoflow::trigger::consistent_hold_atomic_snapshot(11, true, 2, replacement, 2, 12)
            .is_none()
    );
    // A Pending -> Bound publication observed halfway through is retried,
    // rather than accepting the token under the old phase.
    assert!(autoflow::trigger::consistent_hold_atomic_snapshot(11, true, 1, old, 2, 11).is_none());
    assert!(autoflow::trigger::consistent_hold_atomic_snapshot(11, true, 3, old, 0, 0).is_none());
}

#[test]
fn keyboard_state_marks_generic_modifiers_and_caps_lock() {
    let state = autoflow::ledger::keyboard_state_for_pressed(&HashSet::from([0xA3, 0x41, 0x14]));
    assert_eq!(state.len(), 256);
    assert_eq!(state[0x41], 0x80);
    assert_eq!(state[0xA3], 0x80);
    assert_eq!(state[0x11], 0x80);
    assert_eq!(state[0x10], 0);
    assert_eq!(state[0x14], 0x81);
    let shifted = autoflow::ledger::keyboard_state_for_pressed(&HashSet::from([0x10, 0x1000]));
    assert_eq!(shifted[0x10], 0x80);
    assert_eq!(shifted[0xA0], 0x80);
    assert_eq!(shifted[0xA1], 0x80);
    assert_eq!(shifted.iter().filter(|b| **b != 0).count(), 3);
}

#[test]
fn mouse_button_messages_are_recognised() {
    for id in [0x201, 0x202, 0x204, 0x205, 0x207, 0x208, 0x20B, 0x20C] {
        assert!(autoflow::keys::is_mouse_button_message(id));
    }
    for id in [0x200, 0x203, 0x206, 0x20A, 0x20E, 0] {
        assert!(!autoflow::keys::is_mouse_button_message(id));
    }
}

#[test]
fn pointer_trajectory_without_points_succeeds_and_writer_errors_pass_through() {
    let (controller, token) = running_controller();
    let mut permit = InputPermit::new(InjectedInputState::default(), token);
    let cancel = AtomicBool::new(false);
    assert!(permit
        .execute_pointer_points(&controller, &[], &cancel, |_, _| Ok(()), |_| true)
        .is_ok());
    let planned = [PointerTrajectoryPoint { x: 1, y: 2, delay_ms: 0 }];
    assert_eq!(
        permit.execute_pointer_points(&controller, &planned, &cancel, |_, _| Err("win32=87".to_string()), |_| true),
        Err("win32=87".to_string())
    );
}
