use std::collections::{HashMap, HashSet};

use autoflow::admission::{
    playback_start_refusal, safety_recovery_refusal, trigger_submission_admitted, RecoveryObservation,
    StartAdmissionObservation, TriggerSubmitObservation,
};
use autoflow::config::{AutomationProgram, HotkeyAction, HotkeyRule, MacroMode, MacroRule, MacroStep, TextExpansionRule};
use autoflow::config::AppConfig;
use autoflow::native::{
    dispatch_native_clicker_hotkey, dispatch_native_macro_hotkey, keeps_latch_on_rearm, next_fallback_candidate,
    rearm_released_triggers, toggle_stop_requested_by_key_down,
    NativeHotkeyDispatch, NativeHotkeyGate, NativeHotkeyIds,
};
use autoflow::remap::RemapTable;
use autoflow::expansion::{
    find_text_expansion, launch_trigger_signature, push_typed_text, remap_target, replacement_within_limit,
    update_typed_buffer, TypedKeyEffect,
};

fn hotkey(kind: &str, keys: &[&str], target: &str) -> HotkeyRule {
    HotkeyRule {
        enabled: true,
        trigger_keys: keys.iter().map(|key| key.to_string()).collect(),
        action: HotkeyAction { action_type: kind.into(), target: target.into() },
    }
}

fn expansion(abbreviation: &str, replacement: &str, case_sensitive: bool) -> TextExpansionRule {
    TextExpansionRule {
        enabled: true,
        abbreviation: abbreviation.into(),
        replacement: replacement.into(),
        case_sensitive,
    }
}

fn chars(text: &str) -> Vec<char> {
    text.chars().collect()
}

fn rule(name: &str, steps: Vec<MacroStep>) -> MacroRule {
    MacroRule {
        id: "fixture".into(),
        name: name.into(),
        import_error: None,
        enabled: true,
        trigger_keys: vec!["F9".into()],
        mode: MacroMode::Once,
        repeat_count: 1,
        speed_bits: 1.0f32.to_bits(),
        record_mouse_move: true,
        record_mouse_clicks: true,
        target: None,
        program: AutomationProgram::Macro { steps },
    }
}

fn clear_observation() -> StartAdmissionObservation {
    StartAdmissionObservation {
        previous_thread_running: false,
        recording_active: false,
        generation_current: true,
        shutting_down: false,
        emergency_stop_ready: true,
        behavior_recording: false,
        input_recovery_required: false,
        playback_running: false,
    }
}

fn one_step() -> Vec<MacroStep> {
    vec![MacroStep::Delay { duration_ms: 10, duration_max_ms: None }]
}

#[test]
fn first_enabled_remap_for_the_key_wins() {
    let mut disabled = hotkey("remap", &["A"], "C");
    disabled.enabled = false;
    let rules = vec![
        disabled,
        hotkey("launch", &["A"], "notepad"),
        hotkey("remap", &["A", "B"], "D"),
        hotkey("remap", &["A"], "B"),
        hotkey("remap", &["A"], "E"),
    ];
    assert_eq!(remap_target(&rules, 0x41), Some(0x42));
    assert_eq!(remap_target(&rules, 0x43), None);
}

#[test]
fn remap_to_an_unknown_key_is_not_applied() {
    let rules = vec![hotkey("remap", &["A"], "NoSuchKey"), hotkey("remap", &["A"], "B")];
    assert_eq!(remap_target(&rules, 0x41), None);
}

#[test]
fn launch_fires_on_fresh_press_with_all_keys_held() {
    let rule = hotkey("launch", &["Ctrl", "F7"], "notepad.exe");
    let pressed: HashSet<u32> = [0x11, 0x76].into_iter().collect();
    assert_eq!(launch_trigger_signature(&rule, 0x76, false, &pressed), Some("17+118".to_string()));
    assert_eq!(launch_trigger_signature(&rule, 0x76, true, &pressed), None);
    let partial: HashSet<u32> = [0x76].into_iter().collect();
    assert_eq!(launch_trigger_signature(&rule, 0x76, false, &partial), None);
    assert_eq!(launch_trigger_signature(&rule, 0x41, false, &pressed), None);
}

#[test]
fn launch_with_an_unknown_key_or_other_kind_never_fires() {
    let pressed: HashSet<u32> = [0x76].into_iter().collect();
    let unknown = hotkey("launch", &["F7", "NoSuchKey"], "notepad.exe");
    assert_eq!(launch_trigger_signature(&unknown, 0x76, false, &pressed), None);
    let remap = hotkey("remap", &["F7"], "B");
    assert_eq!(launch_trigger_signature(&remap, 0x76, false, &pressed), None);
    let mut disabled = hotkey("launch", &["F7"], "notepad.exe");
    disabled.enabled = false;
    assert_eq!(launch_trigger_signature(&disabled, 0x76, false, &pressed), None);
}

#[test]
fn typed_text_buffer_keeps_the_last_sixty_four_characters() {
    let mut buffer = Vec::new();
    push_typed_text(&mut buffer, "ab");
    push_typed_text(&mut buffer, "文");
    assert_eq!(buffer, chars("ab文"));
    let long: String = std::iter::repeat('x').take(70).collect();
    push_typed_text(&mut buffer, &long);
    assert_eq!(buffer.len(), 64);
    assert!(buffer.iter().all(|c| *c == 'x'));
    let mut near_full: Vec<char> = std::iter::repeat('a').take(63).collect();
    push_typed_text(&mut near_full, "yz");
    assert_eq!(near_full.len(), 64);
    assert_eq!(near_full[0], 'a');
    assert_eq!(&near_full[62..], &['y', 'z']);
}

#[test]
fn text_expansion_matches_suffix_with_optional_case_folding() {
    let rules = vec![
        expansion("ADDR", "exact", true),
        expansion("addr", "folded", false),
        expansion("dr", "short", false),
    ];
    assert_eq!(find_text_expansion(&rules, &chars("my ADDR")), Some(0));
    assert_eq!(find_text_expansion(&rules, &chars("my AdDr")), Some(1));
    assert_eq!(find_text_expansion(&rules, &chars("xdR")), Some(2));
    assert_eq!(find_text_expansion(&rules, &chars("addrx")), None);
    assert_eq!(find_text_expansion(&rules, &chars("dd")), None);
}

#[test]
fn disabled_or_longer_abbreviation_never_matches() {
    let mut disabled = expansion("sig", "Regards", false);
    disabled.enabled = false;
    let rules = vec![disabled, expansion("longer", "x", true)];
    assert_eq!(find_text_expansion(&rules, &chars("sig")), None);
    assert_eq!(find_text_expansion(&rules, &chars("nger")), None);
    assert_eq!(find_text_expansion(&[], &chars("sig")), None);
}

#[test]
fn replacement_limit_counts_utf8_bytes() {
    let exact: String = std::iter::repeat('a').take(16384).collect();
    assert!(replacement_within_limit(&expansion("x", &exact, true)));
    let over: String = std::iter::repeat('a').take(16385).collect();
    assert!(!replacement_within_limit(&expansion("x", &over, true)));
    // 5462 three-byte characters are 16386 bytes.
    let wide: String = std::iter::repeat('文').take(5462).collect();
    assert!(!replacement_within_limit(&expansion("x", &wide, true)));
    let wide_ok: String = std::iter::repeat('文').take(5461).collect();
    assert!(replacement_within_limit(&expansion("x", &wide_ok, true)));
}

#[test]
fn admitted_start_needs_every_check_to_pass() {
    assert!(playback_start_refusal(&clear_observation(), &rule("fixture", one_step())).is_none());
}

#[test]
fn start_refusals_come_in_service_order() {
    let mut observation = clear_observation();
    observation.playback_running = true;
    observation.recording_active = true;
    let (error, shown) = playback_start_refusal(&observation, &rule("fixture", Vec::new())).expect("refused");
    assert_eq!(error.code, "recording_active");
    assert!(!shown);

    let mut observation = clear_observation();
    observation.playback_running = true;
    let (error, shown) = playback_start_refusal(&observation, &rule("fixture", Vec::new())).expect("refused");
    assert_eq!(error.code, "macro_empty");
    assert!(shown);

    let (error, shown) = playback_start_refusal(&observation, &rule("fixture", one_step())).expect("refused");
    assert_eq!(error.code, "macro_busy");
    assert_eq!(error.message, "已有一个宏正在运行");
    assert!(!shown);

    let mut observation = clear_observation();
    observation.emergency_stop_ready = false;
    observation.input_recovery_required = true;
    let (error, shown) = playback_start_refusal(&observation, &rule("fixture", one_step())).expect("refused");
    assert_eq!(error.code, "emergency_stop_unavailable");
    assert!(shown);
    assert!(error.detail.is_none());
}

#[test]
fn each_start_refusal_has_its_code() {
    let cases: Vec<(fn(&mut StartAdmissionObservation), &str)> = vec![
        (|o| o.previous_thread_running = true, "macro_busy"),
        (|o| o.generation_current = false, "playback_cancelled"),
        (|o| o.shutting_down = true, "app_shutting_down"),
        (|o| o.behavior_recording = true, "behavior_recording_active"),
        (|o| o.input_recovery_required = true, "input_safety_recovery_required"),
    ];
    for (change, code) in cases {
        let mut observation = clear_observation();
        change(&mut observation);
        let (error, _) = playback_start_refusal(&observation, &rule("fixture", one_step())).expect("refused");
        assert_eq!(error.code, code);
    }
}

#[test]
fn clicker_and_scripts_are_never_empty() {
    let observation = clear_observation();
    assert!(playback_start_refusal(&observation, &rule(" 连点器 ", Vec::new())).is_none());
    let mut script = rule("script", Vec::new());
    script.program = AutomationProgram::Script { source: String::new(), api_version: 1 };
    assert!(playback_start_refusal(&observation, &script).is_none());
}

#[test]
fn scripts_of_another_api_version_are_refused() {
    let observation = clear_observation();
    let mut script = rule("script", Vec::new());
    script.program = AutomationProgram::Script { source: "wait(1)".to_string(), api_version: 2 };
    let (error, shown) = playback_start_refusal(&observation, &script).expect("refused");
    assert_eq!(error.code, "rhai_api_version");
    assert_eq!(error.message, "Rhai API 版本不受支持，请使用 apiVersion: 1");
    assert!(shown);
}

#[test]
fn typed_keys_grow_or_clear_the_buffer() {
    let none: HashSet<u32> = HashSet::new();
    let mut buffer = chars("ad");
    assert_eq!(update_typed_buffer(&mut buffer, &none, 0x44, Some("d")), TypedKeyEffect::Append);
    assert_eq!(buffer, chars("add"));
    assert_eq!(update_typed_buffer(&mut buffer, &none, 0x20, Some(" ")), TypedKeyEffect::Clear);
    assert!(buffer.is_empty());

    let mut buffer = chars("ad");
    let shift: HashSet<u32> = [0xA0].into_iter().collect();
    assert_eq!(update_typed_buffer(&mut buffer, &shift, 0xA0, None), TypedKeyEffect::Keep);
    assert_eq!(buffer, chars("ad"));
    assert_eq!(update_typed_buffer(&mut buffer, &none, 0x25, None), TypedKeyEffect::Clear);
    assert!(buffer.is_empty());
}

#[test]
fn shortcut_chords_clear_the_buffer_but_modifiers_alone_do_not() {
    let ctrl: HashSet<u32> = [0xA2].into_iter().collect();
    let mut buffer = chars("ad");
    assert_eq!(update_typed_buffer(&mut buffer, &ctrl, 0x43, Some("c")), TypedKeyEffect::Clear);
    assert!(buffer.is_empty());
    let mut buffer = chars("ad");
    assert_eq!(update_typed_buffer(&mut buffer, &ctrl, 0x12, None), TypedKeyEffect::Keep);
    assert_eq!(buffer, chars("ad"));
}

#[test]
fn remap_reservations_keep_sources_and_targets_exclusive() {
    let mut table = RemapTable::new();
    assert!(table.is_empty());
    assert!(table.reserve(0x41, 0x42));
    assert_eq!(table.target_of(0x41), Some(0x42));
    assert!(!table.reserve(0x41, 0x44));
    assert!(!table.reserve(0x43, 0x42));
    assert_eq!(table.target_of(0x43), None);
    assert!(table.reserve(0x43, 0x44));
    let mut entries = table.entries();
    entries.sort();
    assert_eq!(entries, vec![(0x41, 0x42), (0x43, 0x44)]);
}

#[test]
fn remap_release_only_clears_its_own_pair() {
    let mut table = RemapTable::new();
    assert!(table.reserve(0x41, 0x42));
    table.finish_release(0x41, 0x99);
    assert_eq!(table.target_of(0x41), Some(0x42));
    table.finish_release(0x41, 0x42);
    assert!(table.is_empty());
    assert!(table.reserve(0x41, 0x42));
    table.cancel(0x41);
    assert!(table.is_empty());
}

#[test]
fn remap_cleanup_keeps_entries_whose_key_is_still_held() {
    let mut table = RemapTable::new();
    assert!(table.reserve(0x41, 0x42));
    assert!(table.reserve(0x43, 0x44));
    let held: HashSet<u32> = [0x44].into_iter().collect();
    assert!(!table.settle_after_cleanup(&held));
    assert_eq!(table.target_of(0x41), None);
    assert_eq!(table.target_of(0x43), Some(0x44));
    assert!(table.settle_after_cleanup(&HashSet::new()));
    assert!(table.is_empty());
}

fn trigger_config() -> AppConfig {
    let mut disabled = rule("off", one_step());
    disabled.enabled = false;
    disabled.trigger_keys = vec!["F7".into()];
    let mut enabled = rule("on", one_step());
    enabled.trigger_keys = vec!["Ctrl".into(), "F9".into(), "NoSuchKey".into()];
    AppConfig { macros: vec![enabled, disabled], ..AppConfig::default() }
}

#[test]
fn rearm_waits_until_every_enabled_trigger_key_is_up() {
    let config = trigger_config();
    let mut pressed: HashSet<u32> = [0x11, 0x78, 0x76, 0x41].into_iter().collect();
    let mut latched: HashSet<String> = ["macro+17+120".to_string(), "17+118".to_string()].into_iter().collect();
    let ledger: HashSet<u32> = [0x78].into_iter().collect();
    assert!(!rearm_released_triggers(&mut pressed, &mut latched, &config, &ledger, |_| false));
    assert_eq!(pressed.len(), 4);
    assert_eq!(latched.len(), 2);
    let empty = HashSet::new();
    assert!(!rearm_released_triggers(&mut pressed, &mut latched, &config, &empty, |vk| vk == 0x11));
    assert_eq!(pressed.len(), 4);
    // A disabled rule's key being down does not hold the re-arm back.
    assert!(rearm_released_triggers(&mut pressed, &mut latched, &config, &empty, |vk| vk == 0x76));
    let expected: HashSet<u32> = [0x76, 0x41].into_iter().collect();
    assert_eq!(pressed, expected);
    let kept: HashSet<String> = ["17+118".to_string()].into_iter().collect();
    assert_eq!(latched, kept);
}

#[test]
fn only_macro_latches_are_dropped_on_rearm() {
    assert!(!keeps_latch_on_rearm(&"macro+17+120".to_string()));
    assert!(!keeps_latch_on_rearm(&"macro+".to_string()));
    assert!(keeps_latch_on_rearm(&"macro".to_string()));
    assert!(keeps_latch_on_rearm(&"17+118".to_string()));
    assert!(keeps_latch_on_rearm(&"Macro+17".to_string()));
}

fn open_gate(playback_running: bool) -> NativeHotkeyGate {
    NativeHotkeyGate { recording: false, rearm_required: false, refresh_pending: false, playback_running }
}

fn dispatch_config() -> AppConfig {
    let mut once = rule("once", one_step());
    once.id = "once".into();
    let mut toggle = rule("toggle", one_step());
    toggle.id = "toggle".into();
    toggle.mode = MacroMode::Toggle;
    let mut clicker = rule("连点器", one_step());
    clicker.id = "clicker".into();
    clicker.trigger_keys = vec!["Ctrl".into(), "F8".into()];
    AppConfig { macros: vec![once, toggle, clicker], ..AppConfig::default() }
}

#[test]
fn native_macro_hotkey_follows_mode_and_running_state() {
    let config = dispatch_config();
    let registered: HashMap<i32, String> = [(1, "once".to_string()), (2, "toggle".to_string()), (3, "gone".to_string())]
        .into_iter()
        .collect();
    assert_eq!(dispatch_native_macro_hotkey(open_gate(false), &registered, 1, &config), NativeHotkeyDispatch::Submit { rule: 0 });
    assert_eq!(
        dispatch_native_macro_hotkey(open_gate(true), &registered, 1, &config),
        NativeHotkeyDispatch::IgnoredWhileRunning { rule: 0 }
    );
    assert_eq!(dispatch_native_macro_hotkey(open_gate(true), &registered, 2, &config), NativeHotkeyDispatch::Stop);
    assert_eq!(dispatch_native_macro_hotkey(open_gate(false), &registered, 3, &config), NativeHotkeyDispatch::Drop);
    assert_eq!(dispatch_native_macro_hotkey(open_gate(false), &registered, 9, &config), NativeHotkeyDispatch::Drop);
}

#[test]
fn native_hotkeys_are_dropped_while_the_service_is_not_taking_triggers() {
    let mut config = dispatch_config();
    let registered: HashMap<i32, String> = [(1, "once".to_string())].into_iter().collect();
    for gate in [
        NativeHotkeyGate { recording: true, ..open_gate(false) },
        NativeHotkeyGate { rearm_required: true, ..open_gate(false) },
        NativeHotkeyGate { refresh_pending: true, ..open_gate(false) },
    ] {
        assert_eq!(dispatch_native_macro_hotkey(gate, &registered, 1, &config), NativeHotkeyDispatch::Drop);
        assert_eq!(dispatch_native_clicker_hotkey(gate, &config), NativeHotkeyDispatch::Drop);
    }
    config.macros[0].enabled = false;
    assert_eq!(dispatch_native_macro_hotkey(open_gate(false), &registered, 1, &config), NativeHotkeyDispatch::Drop);
    config.global_enabled = false;
    assert_eq!(dispatch_native_clicker_hotkey(open_gate(false), &config), NativeHotkeyDispatch::Drop);
}

#[test]
fn native_clicker_hotkey_toggles_the_clicker() {
    let config = dispatch_config();
    assert_eq!(dispatch_native_clicker_hotkey(open_gate(false), &config), NativeHotkeyDispatch::Submit { rule: 2 });
    assert_eq!(dispatch_native_clicker_hotkey(open_gate(true), &config), NativeHotkeyDispatch::Stop);
    let without = AppConfig { macros: vec![rule("plain", one_step())], ..AppConfig::default() };
    assert_eq!(dispatch_native_clicker_hotkey(open_gate(false), &without), NativeHotkeyDispatch::Drop);
}

#[test]
fn toggle_trigger_stops_a_running_macro_on_a_fresh_press() {
    let config = dispatch_config();
    let ctrl_f9: HashSet<u32> = [0x11, 0x78].into_iter().collect();
    let mut toggle_config = config.clone();
    toggle_config.macros[1].trigger_keys = vec!["Ctrl".into(), "F9".into()];
    toggle_config.macros[0].trigger_keys = vec!["F10".into()];
    assert!(toggle_stop_requested_by_key_down(&toggle_config, 0x78, false, &ctrl_f9));
    assert!(!toggle_stop_requested_by_key_down(&toggle_config, 0x78, true, &ctrl_f9));
    assert!(!toggle_stop_requested_by_key_down(&toggle_config, 0x41, false, &ctrl_f9));
    // The clicker acts as a Toggle rule.
    let ctrl_f8: HashSet<u32> = [0x11, 0x77].into_iter().collect();
    assert!(toggle_stop_requested_by_key_down(&config, 0x77, false, &ctrl_f8));
    // A Once rule never stops a macro this way.
    let f10: HashSet<u32> = [0x79].into_iter().collect();
    assert!(!toggle_stop_requested_by_key_down(&toggle_config, 0x79, false, &f10));
}

#[test]
fn keyboard_path_skips_rules_owned_by_native_hotkeys() {
    let mut config = dispatch_config();
    config.macros[1].trigger_keys = vec!["F9".into()];
    let f9: HashSet<u32> = [0x78].into_iter().collect();
    let none: HashMap<i32, String> = HashMap::new();
    assert_eq!(next_fallback_candidate(&config, &none, false, 0x78, &f9, 0), Some(0));
    assert_eq!(next_fallback_candidate(&config, &none, false, 0x78, &f9, 1), Some(1));
    assert_eq!(next_fallback_candidate(&config, &none, false, 0x78, &f9, 2), None);
    assert_eq!(next_fallback_candidate(&config, &none, false, 0x78, &f9, 7), None);
    let registered: HashMap<i32, String> = [(4, "once".to_string())].into_iter().collect();
    assert_eq!(next_fallback_candidate(&config, &registered, false, 0x78, &f9, 0), Some(1));
    let ctrl_f8: HashSet<u32> = [0x11, 0x77].into_iter().collect();
    assert_eq!(next_fallback_candidate(&config, &none, false, 0x77, &ctrl_f8, 0), Some(2));
    assert_eq!(next_fallback_candidate(&config, &none, true, 0x77, &ctrl_f8, 0), None);
}

#[test]
fn trigger_submission_needs_a_current_untouched_service() {
    let current = TriggerSubmitObservation {
        shutting_down: false,
        emergency_generation: 3,
        controller_generation: 3,
        config_revision_current: true,
        ledger_uncertain: false,
    };
    let plain = rule("plain", one_step());
    assert!(trigger_submission_admitted(&current, 3, &plain, 0x7B));
    assert!(!trigger_submission_admitted(&current, 2, &plain, 0x7B));
    assert!(!trigger_submission_admitted(&TriggerSubmitObservation { shutting_down: true, ..current }, 3, &plain, 0x7B));
    assert!(!trigger_submission_admitted(&TriggerSubmitObservation { controller_generation: 4, ..current }, 3, &plain, 0x7B));
    assert!(!trigger_submission_admitted(&TriggerSubmitObservation { config_revision_current: false, ..current }, 3, &plain, 0x7B));
    assert!(!trigger_submission_admitted(&TriggerSubmitObservation { ledger_uncertain: true, ..current }, 3, &plain, 0x7B));
    // A trigger that contains the emergency key is never submitted.
    assert!(!trigger_submission_admitted(&current, 3, &plain, 0x78));
}

#[test]
fn native_registration_ids_never_reuse_or_wrap_after_exhaustion() {
    let mut ids = NativeHotkeyIds::new();
    assert_eq!(ids.allocate(), Some(0x5000));
    assert_eq!(ids.allocate(), Some(0x5001));
    ids.next = 0x7fff;
    assert_eq!(ids.allocate(), Some(0x7fff));
    assert_eq!(ids.allocate(), None);
    assert_eq!(ids.allocate(), None);
    assert_eq!(ids.next, 0x8000);
}

#[test]
fn playback_is_blocked_until_failed_input_cleanup_is_recovered() {
    let observation = StartAdmissionObservation { input_recovery_required: true, ..clear_observation() };
    let mut unsafe_rule = rule("safety-test", Vec::new());
    unsafe_rule.trigger_keys = Vec::new();
    let (error, _) = playback_start_refusal(&observation, &unsafe_rule).expect("unsafe input state must block a new playback");
    assert_eq!(error.code, "input_safety_recovery_required");
}

#[test]
fn emergency_generation_cancels_a_queued_start_before_validation() {
    let observation = StartAdmissionObservation { generation_current: false, ..clear_observation() };
    let mut cancelled = rule("cancelled-before-start", Vec::new());
    cancelled.trigger_keys = Vec::new();
    let (error, _) =
        playback_start_refusal(&observation, &cancelled).expect("an emergency request must cancel a queued start");
    assert_eq!(error.code, "playback_cancelled");
}

fn ready_for_recovery() -> RecoveryObservation {
    RecoveryObservation {
        containment_unknown: false,
        emergency_stop_ready: true,
        playback_thread_quiescent: true,
        desktop_accepts_input: true,
        controller_quiescent: true,
        emergency_cleanup_quiescent: true,
        held_counts: (0, 0),
        input_recovery_required: false,
        playback_thread_owned: false,
    }
}

#[test]
fn recovery_is_refused_until_every_safety_channel_is_confirmed() {
    assert!(safety_recovery_refusal(&ready_for_recovery()).is_none());
    let mut held = ready_for_recovery();
    held.held_counts = (0, 1);
    assert_eq!(safety_recovery_refusal(&held).map(|e| e.code), Some("safety_recovery_not_ready".to_string()));
    let mut pending = ready_for_recovery();
    pending.input_recovery_required = true;
    assert_eq!(safety_recovery_refusal(&pending).map(|e| e.code), Some("safety_recovery_not_ready".to_string()));
    let mut unknown = held;
    unknown.containment_unknown = true;
    assert_eq!(
        safety_recovery_refusal(&unknown).map(|e| e.code),
        Some("executor_containment_unconfirmed".to_string())
    );
}
