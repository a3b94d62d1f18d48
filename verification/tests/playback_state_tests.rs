use std::sync::atomic::{AtomicBool, Ordering};
use std::sync::Arc;

use autoflow::config::{AutomationProgram, MacroStep};
use autoflow::keys::KeyAction;
use autoflow::input_safety::InjectedInputState;
use autoflow::playback_state::PlaybackState;
use autoflow::runtime::{RunToken, RuntimePhase};

#[test]
fn stale_playback_thread_cannot_clear_a_newer_instance() {
    let mut playback = PlaybackState {
        running: true,
        instance_id: 2,
        last_error: None,
        ..Default::default()
    };

    assert!(!playback.finalize_instance(1, Some("stale".to_string()), 0));
    assert!(playback.running);
    assert_eq!(playback.instance_id, 2);
    assert_eq!(playback.last_error, None);

    assert!(playback.finalize_instance(2, Some("current".to_string()), 0));
    assert!(!playback.running);
    assert_eq!(playback.last_error.as_deref(), Some("current"));
}

#[test]
fn rejected_start_error_cannot_clear_the_active_playback_instance() {
    let stop = Arc::new(AtomicBool::new(false));
    let mut playback = PlaybackState::default();
    playback.running = true;
    playback.stop = Some(Arc::clone(&stop));
    playback.instance_id = 21;
    playback.phase = "running".to_string();

    playback.set_start_error("a second trigger was rejected");

    assert!(playback.running);
    assert!(playback.stop.is_some());
    assert_eq!(playback.instance_id, 21);
    assert_eq!(playback.phase, "running");
    assert_eq!(playback.last_error, None);
    assert!(!stop.load(Ordering::SeqCst));
}

#[test]
fn stale_playback_progress_cannot_overwrite_a_newer_instance() {
    let mut playback = PlaybackState::default();
    playback.running = true;
    playback.instance_id = 9;

    playback.set_action(8, 3, "stale", Some("旧线程".to_string()));
    let status = playback.status(false, false, RuntimePhase::Running, 0);
    assert_eq!(status.current_step, 0);
    assert_eq!(status.action_summary, None);

    playback.set_action(9, 3, "mouse_move", Some("移动鼠标至 (10, 20)".to_string()));
    let status = playback.status(false, false, RuntimePhase::Running, 0);
    assert_eq!(status.current_step, 3);
    assert_eq!(status.action_kind.as_deref(), Some("mouse_move"));
    assert_eq!(status.action_summary.as_deref(), Some("移动鼠标至 (10, 20)"));
}

#[test]
fn playback_status_keeps_cleanup_phase_until_cleanup_finishes() {
    let mut playback = PlaybackState::default();
    playback.running = true;
    playback.instance_id = 12;
    playback.macro_name = Some("清理测试".to_string());
    playback.phase = "stopping".to_string();

    playback.set_phase(12, "cleaning", "pending", None);
    let status = playback.status(false, false, RuntimePhase::Cleaning, 0);
    assert!(status.running);
    assert_eq!(status.phase, "cleaning");
    assert_eq!(status.cleanup_status, "pending");
}

#[test]
fn cleanup_failure_remains_visible_until_a_new_playback_instance() {
    let mut playback = PlaybackState::default();
    playback.running = true;
    playback.instance_id = 13;
    playback.macro_name = Some("清理失败测试".to_string());
    playback.phase = "cleanup_failed".to_string();
    playback.cleanup_status = "failed".to_string();

    assert!(playback.finalize_instance(13, Some("输入清理失败".to_string()), 1_000));
    let status = playback.status(true, false, RuntimePhase::Idle, 1_000);
    assert!(!status.running);
    assert_eq!(status.phase, "cleanup_failed");
    assert_eq!(status.cleanup_status, "failed");
    assert!(status.overlay_visible);
}

#[test]
fn playback_overlay_is_hidden_while_macro_recording() {
    let mut playback = PlaybackState::default();
    playback.running = true;
    playback.instance_id = 14;
    playback.macro_name = Some("录制期间隐藏".to_string());
    playback.phase = "running".to_string();
    assert!(!playback.status(true, true, RuntimePhase::Running, 0).overlay_visible);
}

#[test]
fn finished_playback_is_shown_for_a_while_then_cleared() {
    let mut playback = PlaybackState::default();
    playback.begin_instance(
        5,
        RunToken { id: 5, generation: 1 },
        Arc::new(AtomicBool::new(false)),
        2,
        Arc::new(InjectedInputState::default()),
        None,
        4,
        &"m1".to_string(),
        &"示例".to_string(),
        &AutomationProgram::Macro { steps: Vec::new() },
        10_000,
    );
    let status = playback.status(true, false, RuntimePhase::Running, 10_250);
    assert!(status.running);
    assert_eq!(status.elapsed_ms, 250);
    assert_eq!(status.program_kind, "macro");
    assert_eq!(status.phase, "running");
    assert_eq!(status.cleanup_status, "not_started");
    assert!(status.overlay_visible);

    assert!(playback.finalize_instance(5, None, 11_000));
    let status = playback.status(true, false, RuntimePhase::Idle, 12_799);
    assert_eq!(status.phase, "completed");
    assert_eq!(status.cleanup_status, "safe");
    assert!(status.overlay_visible);

    let status = playback.status(true, false, RuntimePhase::Idle, 12_800);
    assert_eq!(status.phase, "idle");
    assert_eq!(status.cleanup_status, "not_started");
    assert_eq!(status.macro_name, None);
    assert_eq!(status.program_kind, "unknown");
    assert_eq!(status.elapsed_ms, 0);
    assert_eq!(status.playback_id, 5);
    assert!(!status.overlay_visible);
}

#[test]
fn status_phase_falls_back_to_the_controller() {
    let mut playback = PlaybackState::default();
    let status = playback.status(false, false, RuntimePhase::Idle, 0);
    assert_eq!(status.phase, "idle");
    assert_eq!(status.cleanup_status, "not_started");
    playback.phase = "running".to_string();
    let status = playback.status(false, false, RuntimePhase::FaultLocked, 0);
    assert_eq!(status.phase, "fault_locked");
}

#[test]
fn refused_start_is_reported_as_failed_and_safe() {
    let mut playback = PlaybackState::default();
    playback.set_start_error("F12 紧急停止通道尚未就绪");
    assert_eq!(playback.phase, "failed");
    assert_eq!(playback.cleanup_status, "safe");
    assert_eq!(playback.last_error.as_deref(), Some("F12 紧急停止通道尚未就绪"));
    let status = playback.status(true, false, RuntimePhase::Idle, 0);
    assert!(!status.overlay_visible);
}

#[test]
fn script_playback_reports_its_kind() {
    let mut playback = PlaybackState::default();
    playback.begin_instance(
        1,
        RunToken { id: 1, generation: 1 },
        Arc::new(AtomicBool::new(false)),
        0,
        Arc::new(InjectedInputState::default()),
        Some(77),
        0,
        &"s".to_string(),
        &"脚本".to_string(),
        &AutomationProgram::Script { source: "wait(1)".to_string(), api_version: 1 },
        0,
    );
    assert_eq!(playback.program_kind.as_deref(), Some("rhai"));
    assert_eq!(playback.restore_window, Some(77));
    playback.set_phase(1, "cleanup_failed", "failed", Some("释放失败".to_string()));
    assert!(playback.finalize_instance(1, None, 50));
    assert!(playback.terminal_persistent);
    assert_eq!(playback.terminal_until_ms, None);
    assert_eq!(playback.status(false, false, RuntimePhase::Idle, u64::MAX).phase, "cleanup_failed");
}

#[test]
fn stop_signal_raises_the_flag_and_marks_the_run_stopping() {
    let mut idle = PlaybackState::default();
    assert!(!idle.signal_stop());
    assert_eq!(idle.phase, "");

    let stop = Arc::new(AtomicBool::new(false));
    let mut playback = PlaybackState::default();
    playback.running = true;
    playback.stop = Some(Arc::clone(&stop));
    playback.phase = "running".to_string();
    playback.cleanup_status = "pending".to_string();
    assert!(playback.signal_stop());
    assert!(stop.load(Ordering::SeqCst));
    assert_eq!(playback.phase, "stopping");
    assert_eq!(playback.cleanup_status, "not_started");
}

#[test]
fn progress_reports_describe_the_step_being_played() {
    let program = AutomationProgram::Macro {
        steps: vec![
            MacroStep::Delay { duration_ms: 20, duration_max_ms: None },
            MacroStep::Key { key: "A".into(), action: KeyAction::Down },
        ],
    };
    let mut playback = PlaybackState::default();
    playback.running = true;
    playback.instance_id = 3;
    playback.record_progress(3, &program, 2, "ignored");
    assert_eq!(playback.current_step, 2);
    assert_eq!(playback.current_step_kind.as_deref(), Some("key_down"));
    playback.record_progress(3, &program, 3, "ignored");
    assert_eq!(playback.current_step, 2);
    playback.record_progress(4, &program, 1, "ignored");
    assert_eq!(playback.current_step, 2);

    let script = AutomationProgram::Script { source: "click(1, 2)".into(), api_version: 1 };
    playback.record_progress(3, &script, 5, "click");
    assert_eq!(playback.current_step, 5);
    assert_eq!(playback.current_step_kind.as_deref(), Some("rhai"));
    assert_eq!(playback.action_summary.as_deref(), Some("Rhai API：click"));
}
