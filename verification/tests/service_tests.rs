use autoflow::cleanup_lane::{LaneStep, PriorityCleanup, LANE_SEQUENCE};
use autoflow::config::MacroStep;
use autoflow::keys::{key_name_from_vk, key_to_vk, mouse_button_name, parse_mouse_button, MouseButton};
use autoflow::recorder::RecorderState;
use autoflow::runtime::{runtime_phase_name, RuntimeController, RuntimePhase, StartError};
use autoflow::status::{recording_status_of, unavailable_recording_status, AppError};

#[test]
fn internal_error_is_structured_for_frontend() {
    let error = AppError::internal("测试错误");
    assert_eq!(error.code, "internal_error");
    assert_eq!(error.message, "测试错误");
    assert!(error.detail.is_none());
}

#[test]
fn app_errors_keep_code_message_and_detail() {
    let invalid = AppError::invalid("bad_key", "未知按键");
    assert_eq!(invalid.code, "bad_key");
    assert_eq!(invalid.message, "未知按键");
    assert_eq!(invalid.detail, None);
    let detailed = AppError::with_detail("io", "写入失败", "disk full");
    assert_eq!(detailed.code, "io");
    assert_eq!(detailed.detail.as_deref(), Some("disk full"));
}

#[test]
fn recording_status_counts_live_or_completed_steps() {
    let mut recorder = RecorderState::default();
    let idle = recording_status_of(&recorder);
    assert!(!idle.active);
    assert_eq!(idle.step_count, 0);
    assert!(idle.capture_mouse_move && idle.capture_mouse_clicks);
    recorder.completed_steps = Some(vec![MacroStep::MouseMove { x: 1, y: 2 }]);
    assert_eq!(recording_status_of(&recorder).step_count, 1);
    recorder.active = true;
    recorder.capture_started = true;
    recorder.steps = vec![
        MacroStep::MouseMove { x: 1, y: 2 },
        MacroStep::MouseMove { x: 3, y: 4 },
    ];
    let live = recording_status_of(&recorder);
    assert!(live.active && live.capture_started);
    assert_eq!(live.step_count, 2);
    assert!(!live.target_locked);
    assert_eq!(live.target_name, None);
    let unavailable = unavailable_recording_status();
    assert!(!unavailable.active);
    assert_eq!(unavailable.step_count, 0);
}

#[test]
fn cleanup_lane_coalesces_requests_and_close_fences_publication() {
    let mut lane = PriorityCleanup::new();
    assert!(lane.is_ready(true));
    assert!(!lane.is_ready(false));
    assert!(lane.is_idle(true));
    assert_eq!(lane.worker_step(), LaneStep::Park);
    assert_eq!(lane.request(), Some(1));
    assert_eq!(lane.worker_step(), LaneStep::Run(1));
    lane.begin_run();
    for sequence in 2..=1000 {
        assert_eq!(lane.request(), Some(sequence));
    }
    assert!(!lane.is_idle(true));
    lane.close();
    assert!(lane.is_closed());
    assert_eq!(lane.request(), None);
    lane.finish_run(1, true);
    // The requests made during the first run coalesce into one more run.
    assert_eq!(lane.worker_step(), LaneStep::Run(1000));
    lane.begin_run();
    lane.finish_run(1000, true);
    assert!(lane.work_complete());
    assert_eq!(lane.worker_step(), LaneStep::Exit);
    assert!(!lane.is_quiescent(true));
    lane.mark_exited();
    assert!(lane.is_quiescent(true));
    assert!(!lane.is_quiescent(false));
}

#[test]
fn failed_cleanup_run_stops_the_lane_without_replay() {
    let mut lane = PriorityCleanup::new();
    assert_eq!(lane.request(), Some(1));
    lane.begin_run();
    lane.finish_run(1, false);
    assert!(!lane.work_complete());
    assert!(!lane.is_ready(true));
    assert_eq!(lane.request(), None);
}

#[test]
fn cleanup_lane_sequence_never_wraps() {
    assert_eq!(LANE_SEQUENCE, (1u64 << 63) - 1);
    let mut lane = PriorityCleanup::new();
    let mut last = 0;
    for _ in 0..5 {
        let next = lane.request().expect("open lane");
        assert_eq!(next, last + 1);
        last = next;
    }
}

#[test]
fn runtime_controller_admits_one_run_and_stop_revokes_it() {
    let mut controller = RuntimeController::new();
    assert_eq!(controller.phase(), RuntimePhase::Idle);
    let lease = controller.begin_start(Some(0)).expect("idle controller admits");
    let token = lease.token();
    assert!(matches!(
        controller.begin_start(None),
        Err(StartError::Busy)
    ));
    assert!(!controller.input_allowed(token));
    assert!(controller.activate(token));
    assert!(controller.input_allowed(token));
    assert_eq!(controller.request_stop(), 1);
    assert!(controller.token_revoked(token));
    assert_eq!(controller.phase(), RuntimePhase::Stopping);
    assert!(controller.begin_cleaning(token));
    assert!(controller.finish(token, false));
    assert_eq!(controller.phase(), RuntimePhase::FaultLocked);
    assert!(matches!(
        controller.begin_start(None),
        Err(StartError::FaultLocked)
    ));
    assert_eq!(runtime_phase_name(RuntimePhase::FaultLocked), "fault_locked");
}

#[test]
fn a_stop_refuses_a_start_requested_for_an_older_generation() {
    let mut controller = RuntimeController::new();
    let stale = controller.generation();
    controller.request_stop();
    assert!(controller.begin_start(Some(stale)).is_err());
    assert!(controller
        .begin_start(Some(controller.generation()))
        .is_ok());
}

#[test]
fn key_names_round_trip_through_codes() {
    for vk in 1..=254_u32 {
        let name = key_name_from_vk(vk);
        assert_eq!(key_to_vk(&name), Some(vk), "{name}");
    }
    for button in [
        MouseButton::Left,
        MouseButton::Right,
        MouseButton::Middle,
        MouseButton::X1,
        MouseButton::X2,
    ] {
        assert_eq!(parse_mouse_button(mouse_button_name(button)), Ok(button));
    }
}
