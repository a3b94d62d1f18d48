use autoflow::config::MacroMode;
use autoflow::input_safety::CleanupFailure;
use autoflow::playback::{
    after_program_run, program_run_result, PlaybackEnd, PlaybackEndAction, PlaybackEndPhase, AutomationProgramResult, PlaybackLoopStep, another_iteration, cleanup_failure_message, max_iterations, phase_after_cleanup, phase_after_runs,
    playback_stop_requested,
};

#[test]
fn modes_bound_the_number_of_runs() {
    assert_eq!(max_iterations(MacroMode::Once, 9), Some(1));
    assert_eq!(max_iterations(MacroMode::Repeat, 3), Some(3));
    assert_eq!(max_iterations(MacroMode::Repeat, 0), Some(1));
    assert_eq!(max_iterations(MacroMode::Hold, 3), None);
    assert_eq!(max_iterations(MacroMode::Toggle, 3), None);
    assert!(another_iteration(2, Some(3)));
    assert!(!another_iteration(3, Some(3)));
    assert!(another_iteration(u32::MAX, None));
}

#[test]
fn playback_stops_on_flag_shutdown_or_generation_change() {
    assert!(!playback_stop_requested(false, false, 4, 4, 4));
    assert!(playback_stop_requested(true, false, 4, 4, 4));
    assert!(playback_stop_requested(false, true, 4, 4, 4));
    assert!(playback_stop_requested(false, false, 5, 4, 4));
    assert!(playback_stop_requested(false, false, 4, 5, 4));
}

#[test]
fn playback_phases_follow_how_it_ended() {
    assert_eq!(phase_after_runs(true, false), Some(("stopping", "not_started")));
    assert_eq!(phase_after_runs(true, true), Some(("failed", "not_started")));
    assert_eq!(phase_after_runs(false, true), Some(("failed", "not_started")));
    assert_eq!(phase_after_runs(false, false), None);

    assert_eq!(phase_after_cleanup(false, true, true, true), ("cleanup_failed", "failed"));
    assert_eq!(phase_after_cleanup(true, true, true, true), ("stopped", "safe"));
    assert_eq!(phase_after_cleanup(true, false, true, true), ("failed", "safe"));
    assert_eq!(phase_after_cleanup(true, false, false, true), ("stopped", "safe"));
    assert_eq!(phase_after_cleanup(true, false, false, false), ("completed", "safe"));
}

#[test]
fn cleanup_failure_message_lists_every_held_input() {
    let failures = vec![
        CleanupFailure { kind: "key", value: "0x41".into(), attempts: 3, last_error: "拒绝".into() },
        CleanupFailure { kind: "mouse_button", value: "left".into(), attempts: 3, last_error: "busy".into() },
    ];
    assert_eq!(
        cleanup_failure_message(&failures),
        "输入清理失败，当前状态可能不安全: key 0x41: 拒绝; mouse_button left: busy"
    );
    assert_eq!(cleanup_failure_message(&[]), "输入清理失败，当前状态可能不安全: ");
}

#[test]
fn executor_reports_map_to_run_results() {
    assert_eq!(program_run_result(Ok(None)), Ok(AutomationProgramResult::Continue));
    assert_eq!(
        program_run_result(Ok(Some(("标题".to_string(), "完成".to_string())))),
        Ok(AutomationProgramResult::StoppedWithMessage { title: "标题".to_string(), message: "完成".to_string() })
    );
    assert_eq!(program_run_result(Err("脚本已被 F12 停止".to_string())), Ok(AutomationProgramResult::Stopped));
    assert_eq!(program_run_result(Err("boom".to_string())), Err("boom".to_string()));
}

#[test]
fn repeat_loop_counts_runs_and_stops_at_the_limit() {
    let limit = max_iterations(MacroMode::Repeat, 2);
    let (step, done) = after_program_run(Ok(AutomationProgramResult::Continue), 0, limit);
    assert_eq!((step, done), (PlaybackLoopStep::NextRun, 1));
    let (step, done) = after_program_run(Ok(AutomationProgramResult::Continue), done, limit);
    assert_eq!(step, PlaybackLoopStep::Finish { script_message: None, error: None });
    assert_eq!(done, 2);
    let (step, done) = after_program_run(Ok(AutomationProgramResult::Continue), 7, None);
    assert_eq!((step, done), (PlaybackLoopStep::NextRun, 8));
}

#[test]
fn a_stopped_or_failed_run_ends_the_loop_without_counting() {
    assert_eq!(
        after_program_run(Ok(AutomationProgramResult::Stopped), 3, None),
        (PlaybackLoopStep::Finish { script_message: None, error: None }, 3)
    );
    assert_eq!(
        after_program_run(
            Ok(AutomationProgramResult::StoppedWithMessage { title: "t".to_string(), message: "m".to_string() }),
            1,
            Some(5)
        ),
        (PlaybackLoopStep::Finish { script_message: Some(("t".to_string(), "m".to_string())), error: None }, 1)
    );
    assert_eq!(
        after_program_run(Err("发送失败".to_string()), 0, Some(1)),
        (PlaybackLoopStep::Finish { script_message: None, error: Some("发送失败".to_string()) }, 0)
    );
}

#[test]
fn cleanup_starts_once_and_the_final_phase_follows_it() {
    let mut end = PlaybackEnd::new();
    assert_eq!(end.cleanup_finished(true, false, false, false), PlaybackEndAction::Nothing);
    assert_eq!(end.runs_ended(true, false), PlaybackEndAction::StartCleanup { interim: Some(("stopping", "not_started")) });
    assert_eq!(end.runs_ended(false, true), PlaybackEndAction::Nothing);
    assert_eq!(end.phase, PlaybackEndPhase::Cleaning);
    assert_eq!(end.cleanup_finished(true, false, false, true), PlaybackEndAction::Finish { phase: "stopped", cleanup: "safe" });
    assert_eq!(end.cleanup_finished(true, false, false, true), PlaybackEndAction::Nothing);
    assert_eq!(end.phase, PlaybackEndPhase::Done);
}
