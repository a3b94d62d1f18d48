use autoflow::config::{AutomationProgram, MacroMode, MacroRule, MacroStep};
use autoflow::hold::HoldLifecyclePhase;
use autoflow::hold_lifecycle::{snapshot_describes_rule, HoldLifecycleSlot};
use autoflow::runtime::RunToken;
use autoflow::snapshot::trigger_macro_snapshot;

fn hold_rule(id: &str, keys: &[&str]) -> MacroRule {
    MacroRule {
        id: id.into(),
        name: id.into(),
        import_error: None,
        enabled: true,
        trigger_keys: keys.iter().map(|key| key.to_string()).collect(),
        mode: MacroMode::Hold,
        repeat_count: 1,
        speed_bits: 1.0f32.to_bits(),
        record_mouse_move: true,
        record_mouse_clicks: true,
        target: None,
        program: AutomationProgram::Macro {
            steps: vec![MacroStep::Text { text: "x".into() }],
        },
    }
}

#[test]
fn hold_epochs_only_grow_and_stop_when_exhausted() {
    let mut slot = HoldLifecycleSlot::new();
    assert_eq!(slot.allocate_epoch(), Some(1));
    assert_eq!(slot.allocate_epoch(), Some(2));
    slot.last_epoch = u64::MAX;
    assert_eq!(slot.allocate_epoch(), None);
    assert!(slot.epochs_exhausted);
    slot.last_epoch = 5;
    assert_eq!(slot.allocate_epoch(), None);
}

#[test]
fn hold_start_passes_pending_bound_active_in_order() {
    let rule = hold_rule("hold", &["Ctrl", "A"]);
    let mut slot = HoldLifecycleSlot::new();
    let epoch = slot.publish(&rule, 0x41).expect("published");
    assert_eq!(epoch, 1);
    assert!(slot.owns_owner_keydown(0x41));
    assert!(!slot.owns_owner_keydown(0x42));
    assert!(slot.validate(&rule, Some(epoch)).is_ok());
    assert!(slot.validate(&rule, None).is_ok());

    let token = RunToken { id: 7, generation: 3 };
    let other = RunToken { id: 8, generation: 3 };
    assert!(slot.activate(&rule, Some(epoch), token, 1).is_err());
    assert!(slot.bind_run(&rule, Some(epoch), token).is_ok());
    assert_eq!(slot.phase_code, 2);
    assert_eq!(slot.bound_token, token);
    assert!(slot.bind_run(&rule, Some(epoch), token).is_err());
    assert!(slot.activate(&rule, Some(epoch), other, 1).is_err());
    assert!(slot.activate(&rule, Some(epoch), token, 4).is_ok());
    assert_eq!(slot.phase_code, 3);
    assert_eq!(
        slot.current.as_ref().expect("hold").phase,
        HoldLifecyclePhase::Active { run_token: token, instance_id: 4 }
    );
}

#[test]
fn only_one_hold_is_published_at_a_time() {
    let rule = hold_rule("hold", &["A"]);
    let mut slot = HoldLifecycleSlot::new();
    assert_eq!(slot.publish(&rule, 0x41), Some(1));
    assert_eq!(slot.publish(&rule, 0x42), None);
    // The refused publication still used up an epoch.
    assert_eq!(slot.last_epoch, 2);
    slot.retire(2);
    assert!(slot.current.is_some());
    slot.retire(1);
    assert!(slot.current.is_none());
    assert_eq!(slot.published_epoch, 0);
    assert!(!slot.owns_owner_keydown(0x41));
    assert_eq!(slot.publish(&rule, 0x42), Some(3));
}

#[test]
fn owner_key_outside_the_trigger_words_is_refused() {
    let rule = hold_rule("hold", &["A"]);
    let mut slot = HoldLifecycleSlot::new();
    assert_eq!(slot.publish(&rule, 256), None);
    assert!(slot.current.is_none());
    assert_eq!(slot.publish(&rule, 255), Some(2));
    assert!(slot.owns_owner_keydown(255));
}

#[test]
fn released_hold_never_starts_and_revokes_its_run() {
    let rule = hold_rule("hold", &["A"]);
    let mut slot = HoldLifecycleSlot::new();
    let epoch = slot.publish(&rule, 0x41).expect("published");
    let token = RunToken { id: 7, generation: 3 };
    assert!(slot.bind_run(&rule, Some(epoch), token).is_ok());

    let unrelated = slot.release_owner_key(0x42);
    assert!(!unrelated.matched);
    assert_eq!(unrelated.revoke, None);

    let release = slot.release_owner_key(0x41);
    assert!(release.matched);
    assert_eq!(release.epoch, Some(epoch));
    assert_eq!(release.revoke, Some(token));
    assert_eq!(slot.cancelled_epoch, epoch);
    assert!(!slot.owns_owner_keydown(0x41));
    let error = slot.validate(&rule, Some(epoch)).expect_err("released");
    assert_eq!(error.code, "macro_hold_released");
    assert!(slot.activate(&rule, Some(epoch), token, 1).is_err());

    // A second release reports the epoch again but revokes nothing more.
    let again = slot.release_owner_key(0x41);
    assert!(again.matched);
    assert_eq!(again.revoke, None);
}

#[test]
fn pending_hold_released_before_binding_revokes_nothing() {
    let rule = hold_rule("hold", &["A"]);
    let mut slot = HoldLifecycleSlot::new();
    let epoch = slot.publish(&rule, 0x41).expect("published");
    let release = slot.release_owner_key(0x41);
    assert!(release.matched);
    assert_eq!(release.revoke, None);
    assert!(slot.bind_run(&rule, Some(epoch), RunToken { id: 1, generation: 1 }).is_err());
}

#[test]
fn hold_validation_follows_the_rule_it_was_published_for() {
    let rule = hold_rule("hold", &["Ctrl", "A"]);
    let mut slot = HoldLifecycleSlot::new();
    let epoch = slot.publish(&rule, 0x41).expect("published");
    let reordered = hold_rule("hold", &["A", "Ctrl"]);
    assert!(slot.validate(&reordered, Some(epoch)).is_ok());
    let mut edited = rule.clone();
    edited.program = AutomationProgram::Macro { steps: vec![MacroStep::Text { text: "y".into() }] };
    assert!(slot.validate(&edited, Some(epoch)).is_err());
    let mut slower = rule.clone();
    slower.speed_bits = 0.5f32.to_bits();
    assert!(slot.validate(&slower, Some(epoch)).is_err());
    assert!(slot.validate(&hold_rule("other", &["Ctrl", "A"]), Some(epoch)).is_err());
    assert!(slot.validate(&rule, Some(epoch + 1)).is_err());
}

#[test]
fn stored_snapshot_describes_its_rule() {
    let rule = hold_rule("hold", &["F9", "Shift"]);
    let snapshot = trigger_macro_snapshot(&rule);
    assert!(snapshot_describes_rule(&snapshot, &rule));
    assert!(snapshot_describes_rule(&snapshot, &hold_rule("hold", &["Shift", "F9"])));
    assert!(!snapshot_describes_rule(&snapshot, &hold_rule("hold", &["F9"])));
    let mut disabled = rule.clone();
    disabled.enabled = false;
    assert!(!snapshot_describes_rule(&snapshot, &disabled));
}

#[test]
fn stale_hold_owner_cannot_clear_new_identity_and_epoch_exhaustion_fails_closed() {
    let rule = hold_rule("hold", &["Ctrl", "A"]);
    let mut slot = HoldLifecycleSlot::new();
    let old_epoch = slot.publish(&rule, 0x41).expect("old Hold");
    slot.retire(old_epoch);
    let new_epoch = slot.publish(&rule, 0x41).expect("new Hold");
    slot.retire(old_epoch);
    assert_eq!(slot.published_epoch, new_epoch);
    slot.validate(&rule, Some(new_epoch)).expect("stale retirement must not clear newer Hold");
    slot.retire(new_epoch);

    slot.last_epoch = u64::MAX;
    assert!(slot.publish(&rule, 0x41).is_none());
    assert!(slot.epochs_exhausted);
    assert_eq!(slot.published_epoch, 0);
}
