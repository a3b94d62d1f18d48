use autoflow::admission::{recording_start_refusal, RecordingStartObservation};
use autoflow::config::MacroStep;
use autoflow::keys::{KeyAction, MouseButton};
use autoflow::recorder::{
    apply_graph_capture, arm_recorder, finish_recorder, push_record_step_at, take_recording, GraphCapture, RecorderState,
};

fn clear_recording_observation() -> RecordingStartObservation {
    RecordingStartObservation {
        initializing: false,
        previous_execution_running: false,
        admission_busy: false,
        controller_idle: true,
        input_quiescent: true,
        recorder_available: true,
        recording_active: false,
        result_pending: false,
        behavior_available: true,
        behavior_recording: false,
    }
}

#[test]
fn recording_start_checks_come_in_service_order() {
    assert!(recording_start_refusal(&clear_recording_observation()).is_none());
    let all_wrong = RecordingStartObservation {
        initializing: true,
        previous_execution_running: true,
        admission_busy: true,
        controller_idle: false,
        input_quiescent: false,
        recorder_available: false,
        recording_active: true,
        result_pending: true,
        behavior_available: false,
        behavior_recording: true,
    };
    assert_eq!(recording_start_refusal(&all_wrong).expect("refused").code, "runtime_initializing");
    let cases: Vec<(fn(&mut RecordingStartObservation), &str, &str)> = vec![
        (|o| o.previous_execution_running = true, "macro_busy", "上一执行或急停清理尚未完成退出收尾，未排队启动"),
        (|o| o.admission_busy = true, "runtime_admission_busy", "播放或录制的启动准入正在处理中，未排队，请重新操作"),
        (|o| o.controller_idle = false, "macro_busy", "运行控制器尚未空闲，请先完成停止和清理后再录制"),
        (
            |o| o.input_quiescent = false,
            "recording_input_busy",
            "仍有程序注入或待释放的重映射输入，请松开按键并完成清理后再录制",
        ),
        (|o| o.recorder_available = false, "internal_error", "录制器状态异常，请重启 AutoFlow"),
        (|o| o.recording_active = true, "recording_active", "宏录制已经在进行中"),
        (|o| o.result_pending = true, "recording_result_pending", "上一份录制结果尚未领取，请先保存或明确丢弃"),
        (|o| o.behavior_available = false, "recording_state_unavailable", "行为录制状态不可用，未开始录制"),
        (|o| o.behavior_recording = true, "behavior_recording_active", "行为训练录制进行中，请先停止后再录制宏"),
    ];
    for (change, code, message) in cases {
        let mut observation = clear_recording_observation();
        change(&mut observation);
        let error = recording_start_refusal(&observation).expect("refused");
        assert_eq!(error.code, code);
        assert_eq!(error.message, message);
        assert!(error.detail.is_none());
    }
}

#[test]
fn armed_recorder_starts_empty_with_its_options() {
    let mut recorder = RecorderState::default();
    push_record_step_at(&mut recorder, MacroStep::MouseMove { x: 1, y: 2 }, 5);
    recorder.pressed_keys.insert(0x41);
    arm_recorder(&mut recorder, false, true, 100);
    assert!(recorder.active);
    assert!(!recorder.capture_started);
    assert!(!recorder.capture_mouse_move);
    assert!(recorder.capture_mouse_clicks);
    assert_eq!(recorder.started_at_ms, Some(100));
    assert!(recorder.steps.is_empty());
    assert!(recorder.pressed_keys.is_empty());
    assert_eq!(recorder.last_event_ms, None);
}

#[test]
fn stopping_a_live_recording_releases_held_input() {
    let mut recorder = RecorderState::default();
    arm_recorder(&mut recorder, true, true, 0);
    push_record_step_at(&mut recorder, MacroStep::Key { key: "A".into(), action: KeyAction::Down }, 10);
    recorder.pressed_keys.insert(0x41);
    let result = take_recording(&mut recorder, false).expect("recorded");
    assert!(result.target.is_none());
    assert_eq!(
        result.steps,
        vec![
            MacroStep::Key { key: "A".into(), action: KeyAction::Down },
            MacroStep::Key { key: "A".into(), action: KeyAction::Up },
        ]
    );
    assert!(!recorder.active);
    assert!(recorder.completed_steps.is_none());
    let error = take_recording(&mut recorder, false).expect_err("nothing left");
    assert_eq!(error.code, "recording_inactive");
    assert_eq!(error.message, "当前没有正在进行的宏录制");
}

#[test]
fn stopping_with_a_click_drops_the_trailing_pointer_path() {
    let mut recorder = RecorderState::default();
    arm_recorder(&mut recorder, true, true, 0);
    push_record_step_at(&mut recorder, MacroStep::Key { key: "B".into(), action: KeyAction::Down }, 0);
    push_record_step_at(&mut recorder, MacroStep::Key { key: "B".into(), action: KeyAction::Up }, 0);
    push_record_step_at(&mut recorder, MacroStep::MouseMove { x: 5, y: 5 }, 0);
    push_record_step_at(
        &mut recorder,
        MacroStep::MouseButton { button: MouseButton::Left, action: KeyAction::Down, x: 5, y: 5 },
        0,
    );
    recorder.pressed_buttons.push(MouseButton::Left);
    let result = take_recording(&mut recorder, true).expect("recorded");
    assert_eq!(
        result.steps,
        vec![
            MacroStep::Key { key: "B".into(), action: KeyAction::Down },
            MacroStep::Key { key: "B".into(), action: KeyAction::Up },
        ]
    );
}

#[test]
fn collected_result_of_a_finished_recording_is_handed_over_once() {
    let mut recorder = RecorderState::default();
    recorder.completed_steps = Some(vec![MacroStep::Text { text: "hi".into() }]);
    let result = take_recording(&mut recorder, true).expect("pending result");
    assert_eq!(result.steps, vec![MacroStep::Text { text: "hi".into() }]);
    assert!(take_recording(&mut recorder, true).is_err());
}

fn observation_for(recorder: &RecorderState) -> RecordingStartObservation {
    RecordingStartObservation {
        recording_active: recorder.active,
        result_pending: recorder.completed_steps.is_some(),
        ..clear_recording_observation()
    }
}

#[test]
fn new_recording_cannot_overwrite_uncollected_completed_result() {
    let mut recorder = RecorderState::default();
    assert!(recording_start_refusal(&observation_for(&recorder)).is_none());
    arm_recorder(&mut recorder, true, true, 0);
    recorder.steps.push(MacroStep::MouseMove { x: 12, y: 34 });
    finish_recorder(&mut recorder);
    assert_eq!(
        recording_start_refusal(&observation_for(&recorder)).expect("pending result").code,
        "recording_result_pending"
    );
    assert_eq!(take_recording(&mut recorder, false).expect("preserved result").steps.len(), 1);
    assert!(recording_start_refusal(&observation_for(&recorder)).is_none());
}

#[test]
fn input_events_keep_the_recording_and_each_others_state() {
    let mut recorder = RecorderState::new();
    arm_recorder(&mut recorder, true, true, 0);
    apply_graph_capture(&mut recorder, GraphCapture::Key(0x41, true), 10);
    apply_graph_capture(&mut recorder, GraphCapture::Button(MouseButton::X1, KeyAction::Down, 1, 2), 20);
    apply_graph_capture(&mut recorder, GraphCapture::Wheel(0, 120), 30);
    apply_graph_capture(&mut recorder, GraphCapture::Button(MouseButton::Left, KeyAction::Up, 1, 2), 40);
    assert!(recorder.active);
    assert!(recorder.completed_steps.is_none());
    assert!(recorder.pressed_keys.contains(&0x41));
    assert_eq!(recorder.pressed_buttons, vec![MouseButton::X1]);
}
