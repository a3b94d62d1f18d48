use autoflow::input_safety::{
    cleanup_report_outcome, encode_utf16, RecoveryIndicator, input_key_label, InjectedInputState, InputBroker, InputPermit, MAX_CLEANUP_ATTEMPTS,
    UNICODE_INPUT_TAG,
};
use autoflow::keys::MouseButton;
use autoflow::runtime::{RunToken, RuntimeController};
use std::cell::{Cell, RefCell};
use std::sync::atomic::{AtomicBool, AtomicUsize, Ordering};

fn running_controller() -> (RuntimeController, RunToken) {
    let mut controller = RuntimeController::new();
    let lease = controller
        .begin_start(None)
        .expect("start should be admitted");
    let token = lease.token();
    assert!(controller.activate(token));
    lease.commit();
    (controller, token)
}

#[test]
fn canceled_transaction_does_not_wait_for_contended_operation() {
    let mut broker = InputBroker::default();
    let mut state = InjectedInputState::default();
    let cancel = AtomicBool::new(true);
    let result = state.send_key_down_with_permission(
        &mut broker, 0x41,
        Some(&cancel),
        || panic!("permission unnecessary"),
        || panic!("no input"),
    );
    assert!(result.expect_err("cancel").contains("F12"));
    assert_eq!(state.counts(), (0, 0));
}

#[test]
fn unicode_failed_release_remains_tracked_and_cleanup_redacts_content() {
    let mut broker = InputBroker::default();
    let mut state = InjectedInputState::default();
    let calls = RefCell::new(Vec::new());
    assert!(state
        .send_text_with_permission(
            &mut broker, "密",
            None,
            || Ok(()),
            |key, down| {
                calls.borrow_mut().push((key, down));
                if down {
                    Ok(())
                } else {
                    Err("mock release failure".into())
                }
            }
        )
        .is_err());
    assert_eq!(
        *calls.borrow(),
        vec![
            (UNICODE_INPUT_TAG | u32::from('密'), true),
            (UNICODE_INPUT_TAG | u32::from('密'), false)
        ]
    );
    assert_eq!(state.counts(), (1, 0));
    assert_eq!(state.last_input(), Some("key_down:unicode_unit".into()));
    let failed = state.cleanup(&mut broker, |_| Err("mock denied".into()), |_| Ok(()));
    assert_eq!(failed.failures[0].value, "unicode_unit");
    assert_eq!(state.counts(), (1, 0));
    assert!(state
        .cleanup(
            &mut broker, |key| {
                assert_eq!(key, calls.borrow()[0].0);
                Ok(())
            },
            |_| Ok(())
        )
        .is_safe());
    assert_eq!(state.counts(), (0, 0));
}

#[test]
fn unicode_cancel_during_down_still_releases_and_prevents_next_unit() {
    let mut broker = InputBroker::default();
    let mut state = InjectedInputState::default();
    let cancel = AtomicBool::new(false);
    let calls = RefCell::new(Vec::new());
    assert!(state
        .send_text_with_permission(
            &mut broker, "ab",
            Some(&cancel),
            || Ok(()),
            |key, down| {
                calls.borrow_mut().push((key, down));
                if down {
                    cancel.store(true, Ordering::SeqCst);
                }
                Ok(())
            }
        )
        .is_err());
    let calls = calls.into_inner();
    assert_eq!(calls.len(), 2);
    assert!(calls[0].1);
    assert!(!calls[1].1);
    assert_eq!(calls[0].0, calls[1].0);
    assert_eq!(state.counts(), (0, 0));
}

#[test]
fn unicode_surrogate_units_are_sent_and_tracked_separately() {
    let mut broker = InputBroker::default();
    let mut state = InjectedInputState::default();
    let calls = RefCell::new(Vec::new());
    state
        .send_text_with_permission(
            &mut broker, "😀",
            None,
            || Ok(()),
            |key, down| {
                calls.borrow_mut().push((key, down));
                Ok(())
            },
        )
        .expect("text");
    let expected = "😀"
        .encode_utf16()
        .flat_map(|unit| {
            [
                (UNICODE_INPUT_TAG | u32::from(unit), true),
                (UNICODE_INPUT_TAG | u32::from(unit), false),
            ]
        })
        .collect::<Vec<_>>();
    assert_eq!(*calls.borrow(), expected);
    assert_eq!(state.counts(), (0, 0));
}

#[test]
fn key_is_tracked_only_after_successful_down() {
    let mut broker = InputBroker::default();
    let mut state = InjectedInputState::default();
    assert!(state.send_key_down(&mut broker, 0x41, None, || Ok(())).is_ok());
    assert_eq!(state.counts(), (1, 0));
    let failed = state.send_key_down(&mut broker, 0x42, None, || Err("down failed".to_string()));
    assert!(failed.is_err());
    assert_eq!(state.counts(), (1, 0));
}

#[test]
fn key_is_removed_only_after_successful_up() {
    let mut broker = InputBroker::default();
    let mut state = InjectedInputState::default();
    state.send_key_down(&mut broker, 0x41, None, || Ok(())).unwrap();
    assert!(state
        .send_key_up(&mut broker, 0x41, None, || Err("up failed".to_string()))
        .is_err());
    assert_eq!(state.counts(), (1, 0));
    state.send_key_up(&mut broker, 0x41, None, || Ok(())).unwrap();
    assert_eq!(state.counts(), (0, 0));
}

#[test]
fn left_mouse_down_is_tracked_after_success() {
    let mut broker = InputBroker::default();
    let mut state = InjectedInputState::default();
    state
        .send_button_down(&mut broker, MouseButton::Left, None, || Ok(()))
        .unwrap();
    assert_eq!(state.counts(), (0, 1));
}

#[test]
fn right_mouse_down_is_tracked_after_success() {
    let mut broker = InputBroker::default();
    let mut state = InjectedInputState::default();
    state
        .send_button_down(&mut broker, MouseButton::Right, None, || Ok(()))
        .unwrap();
    assert_eq!(state.counts(), (0, 1));
}

#[test]
fn mouse_up_failure_keeps_button_registered() {
    let mut broker = InputBroker::default();
    let mut state = InjectedInputState::default();
    state
        .send_button_down(&mut broker, MouseButton::Left, None, || Ok(()))
        .unwrap();
    assert!(state
        .send_button_up(&mut broker, MouseButton::Left, None, || Err("up failed".to_string()))
        .is_err());
    assert_eq!(state.counts(), (0, 1));
}

#[test]
fn cleanup_releases_one_key_exactly_once_when_first_attempt_succeeds() {
    let mut broker = InputBroker::default();
    let mut state = InjectedInputState::default();
    state.send_key_down(&mut broker, 0x41, None, || Ok(())).unwrap();
    let calls = AtomicUsize::new(0);
    let report = state.cleanup(
        &mut broker, |_: u32| {
            calls.fetch_add(1, Ordering::SeqCst);
            Ok(())
        },
        |_: MouseButton| Ok(()),
    );
    assert!(report.is_safe());
    assert_eq!(calls.load(Ordering::SeqCst), 1);
    assert_eq!(state.counts(), (0, 0));
}

#[test]
fn cleanup_retries_a_transient_key_release() {
    let mut broker = InputBroker::default();
    let mut state = InjectedInputState::default();
    state.send_key_down(&mut broker, 0x41, None, || Ok(())).unwrap();
    let calls = AtomicUsize::new(0);
    let report = state.cleanup(
        &mut broker, |_: u32| {
            let call = calls.fetch_add(1, Ordering::SeqCst);
            if call == 0 {
                Err("temporary".to_string())
            } else {
                Ok(())
            }
        },
        |_: MouseButton| Ok(()),
    );
    assert!(report.is_safe());
    assert_eq!(calls.load(Ordering::SeqCst), 2);
}

#[test]
fn cleanup_is_bounded_for_a_persistent_key_failure() {
    let mut broker = InputBroker::default();
    let mut state = InjectedInputState::default();
    state.send_key_down(&mut broker, 0x41, None, || Ok(())).unwrap();
    let calls = AtomicUsize::new(0);
    let report = state.cleanup(
        &mut broker, |_: u32| {
            calls.fetch_add(1, Ordering::SeqCst);
            Err("persistent".to_string())
        },
        |_: MouseButton| Ok(()),
    );
    assert!(!report.is_safe());
    assert_eq!(calls.load(Ordering::SeqCst), MAX_CLEANUP_ATTEMPTS);
    assert_eq!(state.counts(), (1, 0));
}

#[test]
fn cleanup_releases_left_button_after_cancel() {
    let mut broker = InputBroker::default();
    let mut state = InjectedInputState::default();
    state
        .send_button_down(&mut broker, MouseButton::Left, None, || Ok(()))
        .unwrap();
    let cancel = AtomicBool::new(true);
    let report = state.cleanup(
        &mut broker, |_| Ok(()),
        |button| {
            assert_eq!(button, MouseButton::Left);
            Ok(())
        },
    );
    assert!(cancel.load(Ordering::SeqCst));
    assert!(report.is_safe());
    assert_eq!(state.counts(), (0, 0));
}

#[test]
fn cancellation_blocks_a_new_key_down() {
    let mut broker = InputBroker::default();
    let mut state = InjectedInputState::default();
    let cancel = AtomicBool::new(true);
    assert!(state.send_key_down(&mut broker, 0x41, Some(&cancel), || Ok(())).is_err());
    assert_eq!(state.counts(), (0, 0));
}

#[test]
fn cancellation_blocks_a_new_mouse_down() {
    let mut broker = InputBroker::default();
    let mut state = InjectedInputState::default();
    let cancel = AtomicBool::new(true);
    assert!(state
        .send_button_down(&mut broker, MouseButton::Left, Some(&cancel), || Ok(()))
        .is_err());
    assert_eq!(state.counts(), (0, 0));
}

#[test]
fn cleanup_does_not_consult_cancel_flag() {
    let mut broker = InputBroker::default();
    let mut state = InjectedInputState::default();
    state.send_key_down(&mut broker, 0x41, None, || Ok(())).unwrap();
    let report = state.cleanup(&mut broker, |_| Ok(()), |_| Ok(()));
    assert!(report.is_safe());
}

#[test]
fn cleanup_handles_key_and_button_together() {
    let mut broker = InputBroker::default();
    let mut state = InjectedInputState::default();
    state.send_key_down(&mut broker, 0x41, None, || Ok(())).unwrap();
    state
        .send_button_down(&mut broker, MouseButton::Right, None, || Ok(()))
        .unwrap();
    let report = state.cleanup(&mut broker, |_| Ok(()), |_| Ok(()));
    assert_eq!(report.released_keys, 1);
    assert_eq!(report.released_buttons, 1);
    assert_eq!(state.counts(), (0, 0));
}

#[test]
fn failed_button_cleanup_remains_visible_for_recovery() {
    let mut broker = InputBroker::default();
    let mut state = InjectedInputState::default();
    state
        .send_button_down(&mut broker, MouseButton::Right, None, || Ok(()))
        .unwrap();
    let report = state.cleanup(&mut broker, |_| Ok(()), |_| Err("blocked".to_string()));
    assert_eq!(report.unreleased_count(), 1);
    assert_eq!(state.counts(), (0, 1));
}

#[test]
fn a_second_cleanup_can_recover_a_previous_failure() {
    let mut broker = InputBroker::default();
    let mut state = InjectedInputState::default();
    state.send_key_down(&mut broker, 0x41, None, || Ok(())).unwrap();
    assert!(!state
        .cleanup(&mut broker, |_| Err("blocked".to_string()), |_| Ok(()))
        .is_safe());
    assert!(state.cleanup(&mut broker, |_| Ok(()), |_| Ok(())).is_safe());
    assert_eq!(state.counts(), (0, 0));
}

#[test]
fn cleanup_report_keeps_per_input_failure_context() {
    let mut broker = InputBroker::default();
    let mut state = InjectedInputState::default();
    state.send_key_down(&mut broker, 0x41, None, || Ok(())).unwrap();
    let report = state.cleanup(&mut broker, |_| Err("win32=5".to_string()), |_| Ok(()));
    assert_eq!(report.failures[0].kind, "key");
    assert_eq!(report.failures[0].value, "0x41");
    assert_eq!(report.failures[0].attempts, MAX_CLEANUP_ATTEMPTS);
    assert_eq!(report.failures[0].last_error, "win32=5");
}

#[test]
fn duplicate_down_is_one_tracked_input() {
    let mut broker = InputBroker::default();
    let mut state = InjectedInputState::default();
    state.send_key_down(&mut broker, 0x41, None, || Ok(())).unwrap();
    state.send_key_down(&mut broker, 0x41, None, || Ok(())).unwrap();
    assert_eq!(state.counts(), (1, 0));
}

#[test]
fn duplicate_up_is_idempotent_after_success() {
    let mut broker = InputBroker::default();
    let mut state = InjectedInputState::default();
    state.send_key_down(&mut broker, 0x41, None, || Ok(())).unwrap();
    state.send_key_up(&mut broker, 0x41, None, || Ok(())).unwrap();
    state.send_key_up(&mut broker, 0x41, None, || Ok(())).unwrap();
    assert_eq!(state.counts(), (0, 0));
}

#[test]
fn operation_serializes_send_and_tracking() {
    let mut broker = InputBroker::default();
    let mut state = InjectedInputState::default();
    state.send_key_down(&mut broker, 0x41, None, || Ok(())).unwrap();
    state
        .send_button_down(&mut broker, MouseButton::Left, None, || Ok(()))
        .unwrap();
    let report = state.cleanup(&mut broker, |_| Ok(()), |_| Ok(()));
    assert!(report.is_safe());
    assert_eq!(state.counts(), (0, 0));
}

#[test]
fn x_buttons_are_tracked_without_collapsing_into_left_button() {
    let mut broker = InputBroker::default();
    let mut state = InjectedInputState::default();
    state
        .send_button_down(&mut broker, MouseButton::X1, None, || Ok(()))
        .unwrap();
    state
        .send_button_down(&mut broker, MouseButton::X2, None, || Ok(()))
        .unwrap();
    assert_eq!(state.counts(), (0, 2));
    state.cleanup(&mut broker, |_| Ok(()), |_| Ok(()));
    assert_eq!(state.counts(), (0, 0));
}

#[test]
fn cleanup_does_not_release_untracked_buttons() {
    let mut broker = InputBroker::default();
    let mut state = InjectedInputState::default();
    let calls = AtomicUsize::new(0);
    let report = state.cleanup(
        &mut broker, |_| Ok(()),
        |_| {
            calls.fetch_add(1, Ordering::SeqCst);
            Ok(())
        },
    );
    assert!(report.is_safe());
    assert_eq!(calls.load(Ordering::SeqCst), 0);
}

#[test]
fn failed_down_does_not_trigger_cleanup_release() {
    let mut broker = InputBroker::default();
    let mut state = InjectedInputState::default();
    assert!(state
        .send_button_down(&mut broker, MouseButton::Left, None, || Err("down".to_string()))
        .is_err());
    let calls = AtomicUsize::new(0);
    state.cleanup(
        &mut broker, |_| Ok(()),
        |_| {
            calls.fetch_add(1, Ordering::SeqCst);
            Ok(())
        },
    );
    assert_eq!(calls.load(Ordering::SeqCst), 0);
}

#[test]
fn cleanup_failure_does_not_clear_tracking_before_retry() {
    let mut broker = InputBroker::default();
    let mut state = InjectedInputState::default();
    state
        .send_button_down(&mut broker, MouseButton::Left, None, || Ok(()))
        .unwrap();
    state.cleanup(&mut broker, |_| Ok(()), |_| Err("still down".to_string()));
    assert_eq!(state.counts(), (0, 1));
}

#[test]
fn playback_permit_revocation_blocks_new_input_but_allows_forced_release() {
    let (mut controller, token) = running_controller();
    let mut broker = InputBroker::default();
    let mut permit = InputPermit::new(InjectedInputState::default(), token);

    permit
        .send_key_down(&controller, &mut broker, 0x41, None, || Ok(()))
        .expect("running playback may press a key");
    controller.request_stop();
    let send_called = AtomicBool::new(false);
    assert!(permit
        .send_key_down(&controller, &mut broker, 0x42, None, || {
            send_called.store(true, Ordering::SeqCst);
            Ok(())
        })
        .is_err());
    assert!(!send_called.load(Ordering::SeqCst));
    assert_eq!(permit.state().counts(), (1, 0));

    permit
        .force_key_up(&mut broker, 0x41, || Ok(()))
        .expect("cleanup must be allowed after revocation");
    assert_eq!(permit.state().counts(), (0, 0));
    assert!(controller.begin_cleaning(token));
    assert!(controller.finish(token, true));
}

#[test]
fn playback_permit_checks_motion_and_text_like_operations_atomically() {
    let (mut controller, token) = running_controller();
    let mut broker = InputBroker::default();
    let mut permit = InputPermit::new(InjectedInputState::default(), token);
    let calls = AtomicUsize::new(0);
    permit
        .perform(&controller, "mouse_move", None, || {
            calls.fetch_add(1, Ordering::SeqCst);
            Ok(())
        })
        .unwrap();
    controller.request_stop();
    assert!(permit
        .perform(&controller, "unicode_text", None, || {
            calls.fetch_add(1, Ordering::SeqCst);
            Ok(())
        })
        .is_err());
    assert_eq!(calls.load(Ordering::SeqCst), 1);
}

// Scenarios beyond the ported tests.

#[test]
fn ledger_labels_redact_text_units() {
    assert_eq!(input_key_label(0x41), "0x41");
    assert_eq!(input_key_label(0x5), "0x5");
    assert_eq!(input_key_label(UNICODE_INPUT_TAG | 0x41), "unicode_unit");
}

#[test]
fn utf16_encoding_matches_std() {
    for text in ["", "abc", "密码", "😀x", "\u{10FFFF}\u{FFFF}"] {
        assert_eq!(encode_utf16(text), text.encode_utf16().collect::<Vec<_>>());
    }
}

#[test]
fn transactions_describe_the_last_input() {
    let mut broker = InputBroker::default();
    let mut state = InjectedInputState::default();
    assert_eq!(state.last_input(), None);
    assert_eq!(state.last_input_at_ms(), None);
    state.send_key_down(&mut broker, 0x41, None, || Ok(())).unwrap();
    assert_eq!(state.last_input(), Some("key_down:0x41".into()));
    assert!(state.last_input_at_ms().is_some());
    state
        .send_button_down(&mut broker, MouseButton::Middle, None, || Ok(()))
        .unwrap();
    assert_eq!(state.last_input(), Some("button_down:Middle".into()));
    state
        .perform_with_permission("wheel", None, || Ok(()), || Ok(()))
        .unwrap();
    assert_eq!(state.last_input(), Some("wheel".into()));
    assert!(state.has_key(0x41));
    assert_eq!(state.buttons_snapshot(), Ok(vec![MouseButton::Middle]));
    state
        .send_button_up(&mut broker, MouseButton::Middle, None, || Ok(()))
        .unwrap();
    assert_eq!(state.last_input(), Some("button_up:Middle".into()));
    // Releasing a button that is not held sends nothing.
    let sent = AtomicBool::new(false);
    state
        .send_button_up(&mut broker, MouseButton::Middle, None, || {
            sent.store(true, Ordering::SeqCst);
            Ok(())
        })
        .unwrap();
    assert!(!sent.load(Ordering::SeqCst));
}

#[test]
fn refused_permission_sends_nothing_and_keeps_the_ledger() {
    let mut broker = InputBroker::default();
    let mut state = InjectedInputState::default();
    let sent = AtomicBool::new(false);
    assert_eq!(
        state.send_key_down_with_permission(
            &mut broker, 0x41,
            None,
            || Err("refused".to_string()),
            || {
                sent.store(true, Ordering::SeqCst);
                Ok(())
            }
        ),
        Err("refused".to_string())
    );
    assert!(!sent.load(Ordering::SeqCst));
    assert_eq!(state.counts(), (0, 0));
    state.send_key_down(&mut broker, 0x41, None, || Ok(())).unwrap();
    assert_eq!(
        state.send_key_up_with_permission(&mut broker, 0x41, None, || Err("refused".into()), || Ok(())),
        Err("refused".to_string())
    );
    assert_eq!(state.counts(), (1, 0));
    assert!(state
        .send_button_down_with_permission(&mut broker, MouseButton::X1, None, || Err("no".into()), || Ok(()))
        .is_err());
    assert_eq!(state.counts(), (1, 0));
}

#[test]
fn cleanup_reports_keys_before_buttons() {
    let mut broker = InputBroker::default();
    let mut state = InjectedInputState::default();
    state.send_key_down(&mut broker, 0x41, None, || Ok(())).unwrap();
    state
        .send_button_down(&mut broker, MouseButton::X2, None, || Ok(()))
        .unwrap();
    let report = state.cleanup(&mut broker, |_| Err("k".into()), |_| Err("b".into()));
    assert_eq!(report.released_keys, 0);
    assert_eq!(report.released_buttons, 0);
    assert_eq!(report.unreleased_count(), 2);
    assert_eq!(report.failures[0].kind, "key");
    assert_eq!(report.failures[1].kind, "button");
    assert_eq!(report.failures[1].value, "X2");
    assert_eq!(report.failures[1].attempts, MAX_CLEANUP_ATTEMPTS);
    assert_eq!(report.failures[1].last_error, "b");
    assert_eq!(state.last_input(), Some("cleanup_button_up:X2".into()));
}

#[test]
fn permit_text_and_button_operations_follow_the_controller() {
    let (mut controller, token) = running_controller();
    let mut broker = InputBroker::default();
    let mut permit = InputPermit::new(InjectedInputState::default(), token);
    permit
        .send_button_down(&controller, &mut broker, MouseButton::Left, None, || Ok(()))
        .unwrap();
    permit
        .send_text(&controller, &mut broker, "hi", None, |_, _| Ok(()))
        .unwrap();
    permit
        .send_key_down(&controller, &mut broker, 0x10, None, || Ok(()))
        .unwrap();
    permit
        .send_key_up(&controller, &mut broker, 0x10, None, || Ok(()))
        .unwrap();
    assert_eq!(permit.state().counts(), (0, 1));
    controller.request_stop();
    let typed = Cell::new(0);
    assert!(permit
        .send_text(&controller, &mut broker, "x", None, |_, _| {
            typed.set(typed.get() + 1);
            Ok(())
        })
        .is_err());
    assert_eq!(typed.get(), 0);
    permit.force_button_up(&mut broker, MouseButton::Left, || Ok(())).unwrap();
    let state = permit.into_state();
    assert_eq!(state.counts(), (0, 0));
}

#[test]
fn cleanup_outcome_locks_on_failure_and_records_every_input() {
    let mut broker = InputBroker::default();
    let mut state = InjectedInputState::default();
    state.send_key_down(&mut broker, 0x41, None, || Ok(())).unwrap();
    state
        .send_button_down(&mut broker, MouseButton::Left, None, || Ok(()))
        .unwrap();
    let failed = state.cleanup(&mut broker, |_| Err("win32=5".into()), |_| Err("win32=6".into()));
    let outcome = cleanup_report_outcome(&failed, "emergency", state.counts());
    assert!(outcome.lock_fault);
    assert_eq!(outcome.recovery, RecoveryIndicator::Raise);
    assert_eq!(outcome.records.len(), 2);
    assert_eq!(outcome.records[0].0, "input_cleanup_failed");
    assert_eq!(
        outcome.records[0].1,
        vec![
            ("scope".to_string(), "emergency".to_string()),
            ("kind".to_string(), "key".to_string()),
            ("value".to_string(), "0x41".to_string()),
            ("attempts".to_string(), "3".to_string()),
            ("error".to_string(), "win32=5".to_string()),
            (
                "status".to_string(),
                "unsafe_manual_recovery_required".to_string()
            ),
        ]
    );
    assert_eq!(outcome.records[1].1[2].1, "Left");

    let released = state.cleanup(&mut broker, |_| Ok(()), |_| Ok(()));
    let outcome = cleanup_report_outcome(&released, "emergency", state.counts());
    assert!(!outcome.lock_fault);
    assert_eq!(outcome.recovery, RecoveryIndicator::Clear);
    assert_eq!(
        outcome.records,
        vec![(
            "input_cleanup_completed".to_string(),
            vec![
                ("scope".to_string(), "emergency".to_string()),
                ("released_keys".to_string(), "1".to_string()),
                ("released_buttons".to_string(), "1".to_string()),
            ]
        )]
    );
    let elsewhere = cleanup_report_outcome(&released, "playback", (1, 0));
    assert_eq!(elsewhere.recovery, RecoveryIndicator::Keep);
}

#[test]
fn exhausted_owner_identity_never_wraps_or_reuses_an_existing_owner() {
    let mut broker = InputBroker::default();
    broker.next_owner = u64::MAX - 1;
    let mut last = InjectedInputState::with_broker(&mut broker);
    assert_eq!(last.owner(), u64::MAX);
    last.send_key_down(&mut broker, 0x08, None, || Ok(()))
        .expect("last identity");
    for _ in 0..3 {
        let mut rejected = InjectedInputState::with_broker(&mut broker);
        assert_eq!(rejected.owner(), 0);
        assert!(rejected
            .send_key_down(&mut broker, 0x09, None, || panic!("exhausted owner must not inject"))
            .is_err());
        assert_eq!(broker.next_owner, u64::MAX);
    }
    assert!(last.cleanup(&mut broker, |_| Ok(()), |_| Ok(())).is_safe());
    assert_eq!(broker.counts(), (0, 0));
}

#[test]
fn shared_broker_rejects_cross_owner_key_press_and_never_releases_another_owner() {
    let mut broker = InputBroker::default();
    let mut remap = InjectedInputState::with_broker(&mut broker);
    let mut text = InjectedInputState::with_broker(&mut broker);
    remap
        .send_key_down(&mut broker, 0x08, None, || Ok(()))
        .expect("remap down");
    assert_eq!(broker.counts(), (1, 0));
    assert!(text
        .send_key_down(&mut broker, 0x08, None, || panic!("conflicting press must not send"))
        .is_err());
    text.send_key_up(&mut broker, 0x08, None, || panic!("foreign recovery release"))
        .expect("no-op");
    text.send_key_up_with_permission(
        &mut broker,
        0x08,
        None,
        || Ok(()),
        || panic!("foreign normal release"),
    )
    .expect("no-op");
    assert!(text
        .cleanup(&mut broker, |_| panic!("foreign cleanup"), |_| panic!("no buttons"))
        .is_safe());
    assert!(!remap
        .cleanup(&mut broker, |_| Err("mock failed release".into()), |_| Ok(()))
        .is_safe());
    assert!(text
        .send_key_down(&mut broker, 0x08, None, || panic!("failed cleanup still owns key"))
        .is_err());
    assert!(remap.cleanup(&mut broker, |_| Ok(()), |_| Ok(())).is_safe());
    assert_eq!(broker.counts(), (0, 0));
    text.send_key_down(&mut broker, 0x08, None, || Ok(()))
        .expect("new ownership");
    assert_eq!(remap.counts(), (0, 0));
    assert_eq!(text.counts(), (1, 0));
    assert!(text.cleanup(&mut broker, |_| Ok(()), |_| Ok(())).is_safe());
}

#[test]
fn shared_broker_button_collision_and_ownership_corruption_fail_closed() {
    let mut broker = InputBroker::default();
    let mut first = InjectedInputState::with_broker(&mut broker);
    let mut second = InjectedInputState::with_broker(&mut broker);
    first
        .send_button_down(&mut broker, MouseButton::Left, None, || Ok(()))
        .expect("down");
    assert!(second
        .send_button_down(&mut broker, MouseButton::Left, None, || panic!("collision"))
        .is_err());
    second
        .send_button_up(&mut broker, MouseButton::Left, None, || panic!("foreign up"))
        .expect("no-op");
    broker.button_owners[0] = second.owner();
    let report = first.cleanup(
        &mut broker,
        |_| panic!("no keys"),
        |_| panic!("unknown ownership cannot release"),
    );
    assert!(!report.is_safe());
    assert_eq!(report.failures[0].attempts, 0);
    assert_eq!(first.counts(), (0, 1));
    broker.button_owners[0] = first.owner();
    assert!(first.cleanup(&mut broker, |_| Ok(()), |_| Ok(())).is_safe());
    assert_eq!(broker.counts(), (0, 0));
}

#[test]
fn cleanup_reports_an_unowned_key_untried_with_the_ownership_error() {
    let mut broker = InputBroker::default();
    let mut first = InjectedInputState::with_broker(&mut broker);
    first.send_key_down(&mut broker, 0x41, None, || Ok(())).expect("down");
    broker.key_owners.insert(0x41, 7);
    let report = first.cleanup(&mut broker, |_| panic!("must not release"), |_| Ok(()));
    assert_eq!(report.failures.len(), 1);
    assert_eq!(report.failures[0].kind, "key");
    assert_eq!(report.failures[0].value, "0x41");
    assert_eq!(report.failures[0].attempts, 0);
    assert_eq!(report.failures[0].last_error, "输入归属不一致，未执行释放");
    assert_eq!(broker.key_owners.get(&0x41), Some(&7));
    assert_eq!(first.counts(), (1, 0));
    assert!(first
        .send_key_up(&mut broker, 0x41, None, || panic!("not ours"))
        .is_err());
}

#[test]
fn text_unit_held_by_another_owner_is_refused_before_permission() {
    let mut broker = InputBroker::default();
    let mut holder = InjectedInputState::with_broker(&mut broker);
    let mut typist = InjectedInputState::with_broker(&mut broker);
    holder
        .send_key_down(&mut broker, UNICODE_INPUT_TAG | u32::from('a'), None, || Ok(()))
        .expect("down");
    let result = typist.send_text_with_permission(
        &mut broker,
        "a",
        None,
        || panic!("conflict is checked first"),
        |_, _| panic!("nothing is sent"),
    );
    assert_eq!(result, Err("输入键已由其他功能持有或归属不明，未发送按下".to_string()));
    assert_eq!(typist.counts(), (0, 0));
    assert_eq!(broker.counts(), (1, 0));
}

#[test]
fn revoked_permit_refuses_a_tracked_release_and_ignores_an_untracked_one() {
    let (mut controller, token) = running_controller();
    let mut broker = InputBroker::default();
    let mut permit = InputPermit::new(InjectedInputState::default(), token);
    permit.send_key_down(&controller, &mut broker, 0x41, None, || Ok(())).unwrap();
    controller.request_stop();
    assert_eq!(
        permit.send_key_up(&controller, &mut broker, 0x41, None, || panic!("revoked")),
        Err("输入许可已撤销，当前动作已停止".to_string())
    );
    assert_eq!(permit.state().counts(), (1, 0));
    assert_eq!(permit.send_key_up(&controller, &mut broker, 0x42, None, || panic!("untracked")), Ok(()));
}

#[test]
fn refused_permission_error_is_returned_unchanged() {
    let mut broker = InputBroker::default();
    let mut state = InjectedInputState::default();
    assert_eq!(
        state.send_key_down_with_permission(&mut broker, 0x41, None, || Err("denied".to_string()), || panic!("not sent")),
        Err("denied".to_string())
    );
    assert_eq!(
        state.perform_with_permission("move", None, || Err("denied".to_string()), || panic!("not sent")),
        Err("denied".to_string())
    );
    assert_eq!(state.counts(), (0, 0));
}
