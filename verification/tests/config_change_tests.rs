use autoflow::config::{AppConfig, AutomationProgram, MacroMode, MacroRule, MacroStep};
use autoflow::config_change::{advance_trigger_config_revision, config_change, pending_trigger_still_admitted};

fn once_rule(id: &str, keys: &[&str]) -> MacroRule {
    MacroRule {
        id: id.into(),
        name: id.into(),
        import_error: None,
        enabled: true,
        trigger_keys: keys.iter().map(|key| key.to_string()).collect(),
        mode: MacroMode::Once,
        repeat_count: 1,
        speed_bits: 1.0f32.to_bits(),
        record_mouse_move: true,
        record_mouse_clicks: true,
        target: None,
        program: AutomationProgram::Macro { steps: vec![MacroStep::Delay { duration_ms: 5, duration_max_ms: None }] },
    }
}

fn base() -> AppConfig {
    AppConfig { macros: vec![once_rule("a", &["Ctrl", "F9"]), once_rule("b", &["F10"])], ..AppConfig::default() }
}

#[test]
fn identical_configuration_changes_nothing() {
    let change = config_change(&base(), &base());
    assert!(!change.native_refresh);
    assert!(!change.permissions_changed);
}

#[test]
fn display_settings_change_nothing_for_triggers() {
    let mut next = base();
    next.show_playback_overlay = true;
    next.macros[0].name = "renamed".into();
    next.macros[1].record_mouse_move = false;
    let change = config_change(&base(), &next);
    assert!(!change.native_refresh);
    assert!(!change.permissions_changed);
}

#[test]
fn program_edits_revoke_pending_starts_without_reregistering() {
    let mut next = base();
    next.macros[0].program = AutomationProgram::Script { source: "wait(1)".into(), api_version: 1 };
    let change = config_change(&base(), &next);
    assert!(!change.native_refresh);
    assert!(change.permissions_changed);
}

#[test]
fn trigger_and_emergency_key_edits_refresh_registrations() {
    let mut next = base();
    next.macros[1].trigger_keys = vec!["F11".into()];
    let change = config_change(&base(), &next);
    assert!(change.native_refresh);
    assert!(change.permissions_changed);

    let mut next = base();
    next.emergency_stop = "F8".into();
    let change = config_change(&base(), &next);
    assert!(change.native_refresh);
    assert!(change.permissions_changed);

    let mut next = base();
    next.global_enabled = false;
    let change = config_change(&base(), &next);
    assert!(!change.native_refresh);
    assert!(change.permissions_changed);
}

#[test]
fn pending_trigger_survives_only_an_unchanged_enabled_rule() {
    let config = base();
    let task = config.macros[0].clone();
    assert!(pending_trigger_still_admitted(&config, &task));
    let mut reordered = base();
    reordered.macros[0].trigger_keys = vec!["F9".into(), "Ctrl".into()];
    assert!(pending_trigger_still_admitted(&reordered, &task));
    let mut rekeyed = base();
    rekeyed.macros[0].trigger_keys = vec!["Ctrl".into(), "F8".into()];
    assert!(!pending_trigger_still_admitted(&rekeyed, &task));
    let mut disabled = base();
    disabled.macros[0].enabled = false;
    assert!(!pending_trigger_still_admitted(&disabled, &task));
    let mut paused = base();
    paused.global_enabled = false;
    assert!(!pending_trigger_still_admitted(&paused, &task));
    let mut removed = base();
    removed.macros.remove(0);
    assert!(!pending_trigger_still_admitted(&removed, &task));
}

#[test]
fn trigger_revision_counter_fails_closed_when_used_up() {
    assert_eq!(advance_trigger_config_revision(7), Ok(8));
    let error = advance_trigger_config_revision(u64::MAX).expect_err("exhausted");
    assert_eq!(error.code, "trigger_config_revision_exhausted");
}
