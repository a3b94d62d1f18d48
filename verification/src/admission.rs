//! Playback admission: the order in which a start request is checked against
//! the service state, and the error each refusal reports.

use vstd::prelude::*;
use crate::config::{AutomationProgram, MacroRule};
use crate::native::{any_key_names_vk, clicker_name, keys_name_vk};
use crate::status::AppError;
use crate::text::trimmed;

verus! {

/// What a start request is checked against, read while admitting it.
#[derive(Debug, Clone, Copy, PartialEq, Eq)]
pub struct StartAdmissionObservation {
    /// A previous playback thread has not been confirmed to have exited.
    pub previous_thread_running: bool,
    pub recording_active: bool,
    /// The emergency generation is still the one the request was made under.
    pub generation_current: bool,
    pub shutting_down: bool,
    pub emergency_stop_ready: bool,
    pub behavior_recording: bool,
    /// A previous cleanup was not confirmed safe, executor containment is
    /// unknown, or input is still held somewhere.
    pub input_recovery_required: bool,
    pub playback_running: bool,
}

/// A refusal: its code, its message and whether it is also shown as the
/// playback's start error.
pub open spec fn refusal(code: Seq<char>, message: Seq<char>, shown: bool) -> Option<
    (Seq<char>, Seq<char>, bool),
> {
    Some((code, message, shown))
}

/// A macro without steps cannot play; the clicker always has its own steps.
pub open spec fn empty_macro(rule: MacroRule) -> bool {
    &&& trimmed(rule.name@) != clicker_name()
    &&& rule.program matches AutomationProgram::Macro { steps }
    &&& steps@.len() == 0
}

/// The script API version this service runs.
pub const SCRIPT_API_VERSION: u32 = 1;

/// The first check a start request fails, in the order the service makes
/// them, or `None` when it may start.
pub open spec fn start_refusal(obs: StartAdmissionObservation, rule: MacroRule) -> Option<
    (Seq<char>, Seq<char>, bool),
> {
    if obs.previous_thread_running {
        refusal("macro_busy"@, "上一播放线程仍未实际退出，未排队启动"@, false)
    } else if obs.recording_active {
        refusal("recording_active"@, "宏录制正在进行中，请先停止录制再播放"@, false)
    } else if !obs.generation_current {
        refusal("playback_cancelled"@, "宏启动已被 F12 取消"@, false)
    } else if obs.shutting_down {
        refusal("app_shutting_down"@, "AutoFlow 正在关闭，已拒绝启动宏"@, false)
    } else if !obs.emergency_stop_ready {
        refusal(
            "emergency_stop_unavailable"@,
            "F12 紧急停止通道尚未就绪，已禁止启动宏；请检查急停键冲突或重新配置"@,
            true,
        )
    } else if obs.behavior_recording {
        refusal("behavior_recording_active"@, "行为训练录制进行中，请先停止录制后再播放宏"@, false)
    } else if obs.input_recovery_required {
        refusal(
            "input_safety_recovery_required"@,
            "上一次输入清理未确认安全，已禁止重新播放；请先按 F12 再次清理并确认安全诊断"@,
            false,
        )
    } else if empty_macro(rule) {
        refusal("macro_empty"@, "这个宏还没有步骤，录制或添加步骤后才能播放"@, true)
    } else if rule.program matches AutomationProgram::Script { api_version, .. } && api_version
        != SCRIPT_API_VERSION {
        refusal("rhai_api_version"@, "Rhai API 版本不受支持，请使用 apiVersion: 1"@, true)
    } else if obs.playback_running {
        refusal("macro_busy"@, "已有一个宏正在运行"@, false)
    } else {
        None
    }
}

/// The view of a refusal.
pub open spec fn refusal_view(r: Option<(AppError, bool)>) -> Option<(Seq<char>, Seq<char>, bool)> {
    match r {
        Some((error, shown)) => Some((error.code@, error.message@, shown)),
        None => None,
    }
}

fn refuse(code: &str, message: &str, shown: bool) -> (r: Option<(AppError, bool)>)
    ensures
        refusal_view(r) == refusal(code@, message@, shown),
        r matches Some((e, _)) && e.detail is None,
{
    Some((AppError::invalid(code, message), shown))
}

/// Why a start request is refused, or `None` when it may start; the flag
/// says whether the refusal is also shown as the playback's start error.
pub fn playback_start_refusal(obs: &StartAdmissionObservation, rule: &MacroRule) -> (r: Option<
    (AppError, bool),
>)
    ensures
        refusal_view(r) == start_refusal(*obs, *rule),
        r matches Some((e, _)) ==> e.detail is None,
{
    if obs.previous_thread_running {
        return refuse("macro_busy", "上一播放线程仍未实际退出，未排队启动", false);
    }
    if obs.recording_active {
        return refuse("recording_active", "宏录制正在进行中，请先停止录制再播放", false);
    }
    if !obs.generation_current {
        return refuse("playback_cancelled", "宏启动已被 F12 取消", false);
    }
    if obs.shutting_down {
        return refuse("app_shutting_down", "AutoFlow 正在关闭，已拒绝启动宏", false);
    }
    if !obs.emergency_stop_ready {
        return refuse(
            "emergency_stop_unavailable",
            "F12 紧急停止通道尚未就绪，已禁止启动宏；请检查急停键冲突或重新配置",
            true,
        );
    }
    if obs.behavior_recording {
        return refuse(
            "behavior_recording_active",
            "行为训练录制进行中，请先停止录制后再播放宏",
            false,
        );
    }
    if obs.input_recovery_required {
        return refuse(
            "input_safety_recovery_required",
            "上一次输入清理未确认安全，已禁止重新播放；请先按 F12 再次清理并确认安全诊断",
            false,
        );
    }
    // The clicker always plays its own fixed steps, so only other rules can
    // be empty.
    let empty = !crate::native::name_is_clicker(&rule.name) && match &rule.program {
        AutomationProgram::Macro { steps } => steps.len() == 0,
        AutomationProgram::Script { .. } => false,
    };
    if empty {
        return refuse("macro_empty", "这个宏还没有步骤，录制或添加步骤后才能播放", true);
    }
    if let AutomationProgram::Script { api_version, .. } = &rule.program {
        if *api_version != SCRIPT_API_VERSION {
            return refuse("rhai_api_version", "Rhai API 版本不受支持，请使用 apiVersion: 1", true);
        }
    }
    if obs.playback_running {
        return refuse("macro_busy", "已有一个宏正在运行", false);
    }
    None
}

/// A start is admitted only when no check fails: no other playback or
/// recording is active, the request is current, the service is not shutting
/// down, its emergency stop works, and no input is left unreleased.
pub proof fn lemma_admitted_start_is_safe(obs: StartAdmissionObservation, rule: MacroRule)
    requires
        start_refusal(obs, rule) is None,
    ensures
        !obs.previous_thread_running,
        !obs.recording_active,
        !obs.behavior_recording,
        obs.generation_current,
        !obs.shutting_down,
        obs.emergency_stop_ready,
        !obs.input_recovery_required,
        !obs.playback_running,
        !empty_macro(rule),
{
}

} // verus!

verus! {

/// What a trigger submission is checked against.
#[derive(Debug, Clone, Copy, PartialEq, Eq)]
pub struct TriggerSubmitObservation {
    pub shutting_down: bool,
    /// The emergency generation now.
    pub emergency_generation: u64,
    /// The controller generation now.
    pub controller_generation: u64,
    /// The configuration revision the trigger was read under is current.
    pub config_revision_current: bool,
    /// The physical key ledger may have missed events.
    pub ledger_uncertain: bool,
}

/// A trigger is handed to the trigger worker only when the service is not
/// shutting down, no emergency stop or controller change happened since the
/// key event (`generation`), the configuration is unchanged, the physical
/// ledger is trustworthy and the rule's trigger does not use the emergency
/// key. (The single pending-start claim is taken after these checks.)
pub open spec fn trigger_submission_allowed(
    obs: TriggerSubmitObservation,
    generation: u64,
    rule: MacroRule,
    emergency_vk: u32,
) -> bool {
    &&& !obs.shutting_down
    &&& obs.emergency_generation == generation
    &&& obs.controller_generation == generation
    &&& obs.config_revision_current
    &&& !obs.ledger_uncertain
    &&& !keys_name_vk(rule.trigger_keys@, emergency_vk)
}

/// Whether a trigger may be handed to the trigger worker.
pub fn trigger_submission_admitted(
    obs: &TriggerSubmitObservation,
    generation: u64,
    rule: &MacroRule,
    emergency_vk: u32,
) -> (r: bool)
    ensures
        r == trigger_submission_allowed(*obs, generation, *rule, emergency_vk),
{
    !obs.shutting_down && obs.emergency_generation == generation && obs.controller_generation
        == generation && obs.config_revision_current && !obs.ledger_uncertain
        && !any_key_names_vk(rule.trigger_keys.as_slice(), emergency_vk)
}

} // verus!

verus! {

/// What a recording start is checked against, read while admitting it.
#[derive(Debug, Clone, Copy, PartialEq, Eq)]
pub struct RecordingStartObservation {
    /// The safety service has not finished starting.
    pub initializing: bool,
    /// A playback thread or an emergency cleanup has not finished exiting.
    pub previous_execution_running: bool,
    /// Another playback or recording start holds the admission.
    pub admission_busy: bool,
    /// The playback controller is idle.
    pub controller_idle: bool,
    /// No injected input is held and no remap waits for its release.
    pub input_quiescent: bool,
    /// The recorder's state could be read.
    pub recorder_available: bool,
    /// A macro recording is already active.
    pub recording_active: bool,
    /// The previous recording's steps have not been collected.
    pub result_pending: bool,
    /// The behavior recorder's state could be read.
    pub behavior_available: bool,
    /// A behavior recording is active.
    pub behavior_recording: bool,
}

/// The first check a recording start fails, in the order the service makes
/// them, as the error's code and message; `None` when it may start.
pub open spec fn recording_refusal(obs: RecordingStartObservation) -> Option<(Seq<char>, Seq<char>)> {
    if obs.initializing {
        Some(("runtime_initializing"@, "安全运行服务尚未完成初始化，未排队启动"@))
    } else if obs.previous_execution_running {
        Some(("macro_busy"@, "上一执行或急停清理尚未完成退出收尾，未排队启动"@))
    } else if obs.admission_busy {
        Some(("runtime_admission_busy"@, "播放或录制的启动准入正在处理中，未排队，请重新操作"@))
    } else if !obs.controller_idle {
        Some(("macro_busy"@, "运行控制器尚未空闲，请先完成停止和清理后再录制"@))
    } else if !obs.input_quiescent {
        Some(
            (
                "recording_input_busy"@,
                "仍有程序注入或待释放的重映射输入，请松开按键并完成清理后再录制"@,
            ),
        )
    } else if !obs.recorder_available {
        Some(("internal_error"@, "录制器状态异常，请重启 AutoFlow"@))
    } else if obs.recording_active {
        Some(("recording_active"@, "宏录制已经在进行中"@))
    } else if obs.result_pending {
        Some(("recording_result_pending"@, "上一份录制结果尚未领取，请先保存或明确丢弃"@))
    } else if !obs.behavior_available {
        Some(("recording_state_unavailable"@, "行为录制状态不可用，未开始录制"@))
    } else if obs.behavior_recording {
        Some(("behavior_recording_active"@, "行为训练录制进行中，请先停止后再录制宏"@))
    } else {
        None
    }
}

/// The view of an optional error.
pub open spec fn error_view(r: Option<AppError>) -> Option<(Seq<char>, Seq<char>)> {
    match r {
        Some(e) => Some((e.code@, e.message@)),
        None => None,
    }
}

/// Why a recording start is refused, or `None` when it may start.
pub fn recording_start_refusal(obs: &RecordingStartObservation) -> (r: Option<AppError>)
    ensures
        error_view(r) == recording_refusal(*obs),
        r matches Some(e) ==> e.detail is None,
{
    if obs.initializing {
        return Some(AppError::invalid("runtime_initializing", "安全运行服务尚未完成初始化，未排队启动"));
    }
    if obs.previous_execution_running {
        return Some(AppError::invalid("macro_busy", "上一执行或急停清理尚未完成退出收尾，未排队启动"));
    }
    if obs.admission_busy {
        return Some(
            AppError::invalid("runtime_admission_busy", "播放或录制的启动准入正在处理中，未排队，请重新操作"),
        );
    }
    if !obs.controller_idle {
        return Some(AppError::invalid("macro_busy", "运行控制器尚未空闲，请先完成停止和清理后再录制"));
    }
    if !obs.input_quiescent {
        return Some(
            AppError::invalid(
                "recording_input_busy",
                "仍有程序注入或待释放的重映射输入，请松开按键并完成清理后再录制",
            ),
        );
    }
    if !obs.recorder_available {
        return Some(AppError::internal("录制器状态异常，请重启 AutoFlow"));
    }
    if obs.recording_active {
        return Some(AppError::invalid("recording_active", "宏录制已经在进行中"));
    }
    if obs.result_pending {
        return Some(AppError::invalid("recording_result_pending", "上一份录制结果尚未领取，请先保存或明确丢弃"));
    }
    if !obs.behavior_available {
        return Some(AppError::invalid("recording_state_unavailable", "行为录制状态不可用，未开始录制"));
    }
    if obs.behavior_recording {
        return Some(AppError::invalid("behavior_recording_active", "行为训练录制进行中，请先停止后再录制宏"));
    }
    None
}

/// What an explicit safety recovery is checked against.
#[derive(Debug, Clone, Copy, PartialEq, Eq)]
pub struct RecoveryObservation {
    /// An executor or its channel threads were not confirmed to have exited.
    pub containment_unknown: bool,
    pub emergency_stop_ready: bool,
    pub playback_thread_quiescent: bool,
    pub desktop_accepts_input: bool,
    pub controller_quiescent: bool,
    pub emergency_cleanup_quiescent: bool,
    /// The service-wide counts of held keys and buttons.
    pub held_counts: (usize, usize),
    pub input_recovery_required: bool,
    /// A playback thread still owns the playback slot.
    pub playback_thread_owned: bool,
}

/// Why an explicit recovery cannot lift the lock: unconfirmed executor
/// containment first, then any safety channel, exit or cleanup that is not
/// yet confirmed, and `None` when the controller may be asked to recover.
pub open spec fn recovery_refusal(obs: RecoveryObservation) -> Option<(Seq<char>, Seq<char>)> {
    if obs.containment_unknown {
        Some((
            "executor_containment_unconfirmed"@,
            "执行器或通信线程退出未确认；清空输入账本不能解除此锁定。请停止测试，确认全部 AutoFlow 进程退出后再重新启动。"@,
        ))
    } else if !obs.emergency_stop_ready || !obs.playback_thread_quiescent || !obs.desktop_accepts_input
        || !obs.controller_quiescent || !obs.emergency_cleanup_quiescent || obs.held_counts != (
        0usize,
        0usize,
    ) || obs.input_recovery_required || obs.playback_thread_owned {
        Some(("safety_recovery_not_ready"@, "安全通道、执行器退出或输入清理尚未确认，不能解除锁定"@))
    } else {
        None
    }
}

/// Why an explicit recovery is refused before the controller is asked, or
/// `None` when it may be asked.
pub fn safety_recovery_refusal(obs: &RecoveryObservation) -> (r: Option<AppError>)
    ensures
        error_view(r) == recovery_refusal(*obs),
        r matches Some(e) ==> e.detail is None,
{
    if obs.containment_unknown {
        return Some(
            AppError::invalid(
                "executor_containment_unconfirmed",
                "执行器或通信线程退出未确认；清空输入账本不能解除此锁定。请停止测试，确认全部 AutoFlow 进程退出后再重新启动。",
            ),
        );
    }
    if !obs.emergency_stop_ready || !obs.playback_thread_quiescent || !obs.desktop_accepts_input
        || !obs.controller_quiescent || !obs.emergency_cleanup_quiescent || obs.held_counts.0 != 0
        || obs.held_counts.1 != 0 || obs.input_recovery_required || obs.playback_thread_owned {
        return Some(
            AppError::invalid("safety_recovery_not_ready", "安全通道、执行器退出或输入清理尚未确认，不能解除锁定"),
        );
    }
    None
}

} // verus!
