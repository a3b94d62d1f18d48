//! The Hold lifecycle: which trigger keys the published Hold words contain,
//! how a key-up cancels the Hold it owns, what the release gate of a pending
//! trigger task reports, and the diagnostic fields of Hold decisions.

use vstd::prelude::*;
use crate::runtime::RunToken;
use crate::snapshot::TriggerMacroSnapshot;
use crate::text::{dec_chars, prefixed_hex_two, string_from_str, u64_to_decimal, hex_label_two_digits};
use crate::trigger::{TriggerReleaseCancellation, TriggerReleaseGateStatus};

verus! {

/// Whether the published trigger words contain `vk`: bit `vk % 64` of word
/// `vk / 64`, for the 256 keys that the four words cover.
pub open spec fn words_contain(words: Seq<u64>, vk: u32) -> bool {
    vk / 64 < words.len() && (words[(vk / 64) as int] >> ((vk % 64) as u64)) & 1 == 1
}

/// Whether a snapshot of the four Hold trigger words contains `vk`.
pub fn hold_trigger_word_contains(words: &[u64; 4], vk: u32) -> (r: bool)
    ensures
        r == words_contain(words@, vk),
{
    let index = vk / 64;
    if index >= 4 {
        return false;
    }
    let word = words[index as usize];
    let bit: u64 = (vk % 64) as u64;
    let r = word & (1u64 << bit) != 0;
    assert(r == ((word >> bit) & 1 == 1)) by (bit_vector)
        requires
            bit < 64,
            r == (word & (1u64 << bit) != 0),
    ;
    r
}

/// Where a Hold lifecycle stands.
#[derive(Debug, Clone, Copy, PartialEq, Eq, Structural)]
pub enum HoldLifecyclePhase {
    Pending,
    Bound { run_token: RunToken },
    Active { run_token: RunToken, instance_id: u64 },
    Retired,
}

/// The Hold lifecycle published for the key that owns it.
#[derive(Debug, Clone, PartialEq, Eq)]
pub struct HoldLifecycleIdentity {
    pub epoch: u64,
    pub macro_id: String,
    /// The rule as the trigger path saw it when it published the Hold.
    pub rule_snapshot: TriggerMacroSnapshot,
    pub owner_vk: u32,
    pub phase: HoldLifecyclePhase,
    pub cancelled: bool,
}

/// The run a Hold phase is bound to, if any.
pub open spec fn phase_token(phase: HoldLifecyclePhase) -> Option<RunToken> {
    match phase {
        HoldLifecyclePhase::Bound { run_token } => Some(run_token),
        HoldLifecyclePhase::Active { run_token, .. } => Some(run_token),
        _ => None,
    }
}

/// Cancels the Hold that `vk` owns. Returns whether `vk` owns the current
/// Hold; its epoch is then reported, and a Hold that was still live is marked
/// cancelled and reports the run it was bound to. A Hold already cancelled or
/// retired is left as it is, and nothing is reported of its run.
pub fn cancel_hold_identity_for_key(
    current: &mut Option<HoldLifecycleIdentity>,
    vk: u32,
    matched_epoch: &mut Option<u64>,
    bound_token: &mut Option<RunToken>,
) -> (r: bool)
    ensures
        r == (match *old(current) {
            Some(identity) => identity.owner_vk == vk,
            None => false,
        }),
        !r ==> *final(current) == *old(current) && *final(matched_epoch) == *old(matched_epoch)
            && *final(bound_token) == *old(bound_token),
        r ==> {
            let identity = (*old(current))->0;
            &&& *final(matched_epoch) == Some(identity.epoch)
            &&& if identity.cancelled || identity.phase == HoldLifecyclePhase::Retired {
                *final(current) == *old(current) && *final(bound_token) == *old(bound_token)
            } else {
                &&& *final(current) == Some(HoldLifecycleIdentity { cancelled: true, ..identity })
                &&& *final(bound_token) == phase_token(identity.phase)
            }
        },
{
    match current {
        Some(identity) => {
            if identity.owner_vk != vk {
                return false;
            }
            *matched_epoch = Some(identity.epoch);
            if identity.cancelled || identity.phase == HoldLifecyclePhase::Retired {
                return true;
            }
            identity.cancelled = true;
            *bound_token = match identity.phase {
                HoldLifecyclePhase::Bound { run_token } => Some(run_token),
                HoldLifecyclePhase::Active { run_token, .. } => Some(run_token),
                _ => None,
            };
            true
        },
        None => false,
    }
}

/// What a pending trigger task was admitted under.
#[derive(Debug, Clone, Copy, PartialEq, Eq)]
pub struct TriggerTaskStamp {
    pub generation: u64,
    pub controller_generation: u64,
    pub admission_revision: u64,
    pub config_revision: u64,
    pub hold_epoch: Option<u64>,
}

/// The service state that the release gate compares a task against, read at
/// one poll.
#[derive(Debug, Clone, Copy, PartialEq, Eq)]
pub struct TriggerGateObservation {
    pub shutdown: bool,
    pub emergency_generation: u64,
    pub controller_generation: u64,
    pub ledger_uncertain: bool,
    pub admission_revision: u64,
    pub config_revision: u64,
    pub hold_lifecycle_epoch: u64,
    pub hold_cancelled_epoch: u64,
}

/// Decides the release gate of one task.
/// Shutdown wins, then the first admission fact that changed.
pub open spec fn gate_status(
    observed: TriggerGateObservation,
    task: TriggerTaskStamp,
) -> TriggerReleaseGateStatus {
    if observed.shutdown {
        TriggerReleaseGateStatus::Shutdown
    } else if observed.emergency_generation != task.generation {
        TriggerReleaseGateStatus::Cancelled(TriggerReleaseCancellation::TaskGeneration)
    } else if observed.controller_generation != task.controller_generation {
        TriggerReleaseGateStatus::Cancelled(TriggerReleaseCancellation::ControllerGeneration)
    } else if observed.ledger_uncertain {
        TriggerReleaseGateStatus::Cancelled(TriggerReleaseCancellation::PhysicalLedgerUncertain)
    } else if observed.admission_revision != task.admission_revision {
        TriggerReleaseGateStatus::Cancelled(TriggerReleaseCancellation::AdmissionRevision)
    } else if observed.config_revision != task.config_revision {
        TriggerReleaseGateStatus::Cancelled(TriggerReleaseCancellation::ConfigRevision)
    } else if task.hold_epoch matches Some(epoch) && (observed.hold_lifecycle_epoch != epoch
        || observed.hold_cancelled_epoch >= epoch) {
        TriggerReleaseGateStatus::Cancelled(TriggerReleaseCancellation::HoldLifecycle)
    } else {
        TriggerReleaseGateStatus::Current
    }
}

/// Whether a pending trigger task may still start, given one observation of
/// the service state.
pub fn trigger_release_gate_status(
    observed: &TriggerGateObservation,
    task: &TriggerTaskStamp,
) -> (r: TriggerReleaseGateStatus)
    ensures
        r == gate_status(*observed, *task),
{
    if observed.shutdown {
        TriggerReleaseGateStatus::Shutdown
    } else if observed.emergency_generation != task.generation {
        TriggerReleaseGateStatus::Cancelled(TriggerReleaseCancellation::TaskGeneration)
    } else if observed.controller_generation != task.controller_generation {
        TriggerReleaseGateStatus::Cancelled(TriggerReleaseCancellation::ControllerGeneration)
    } else if observed.ledger_uncertain {
        TriggerReleaseGateStatus::Cancelled(TriggerReleaseCancellation::PhysicalLedgerUncertain)
    } else if observed.admission_revision != task.admission_revision {
        TriggerReleaseGateStatus::Cancelled(TriggerReleaseCancellation::AdmissionRevision)
    } else if observed.config_revision != task.config_revision {
        TriggerReleaseGateStatus::Cancelled(TriggerReleaseCancellation::ConfigRevision)
    } else {
        match task.hold_epoch {
            Some(epoch) => if observed.hold_lifecycle_epoch != epoch || observed.hold_cancelled_epoch
                >= epoch {
                TriggerReleaseGateStatus::Cancelled(TriggerReleaseCancellation::HoldLifecycle)
            } else {
                TriggerReleaseGateStatus::Current
            },
            None => TriggerReleaseGateStatus::Current,
        }
    }
}

/// A task is current only when nothing it was admitted under has changed.
pub proof fn lemma_current_gate_means_unchanged(
    observed: TriggerGateObservation,
    task: TriggerTaskStamp,
)
    requires
        gate_status(observed, task) == TriggerReleaseGateStatus::Current,
    ensures
        !observed.shutdown,
        !observed.ledger_uncertain,
        observed.emergency_generation == task.generation,
        observed.controller_generation == task.controller_generation,
        observed.admission_revision == task.admission_revision,
        observed.config_revision == task.config_revision,
        task.hold_epoch matches Some(epoch) ==> observed.hold_lifecycle_epoch == epoch
            && observed.hold_cancelled_epoch < epoch,
{
}

/// The views of a list of diagnostic fields.
pub open spec fn fields_view(fields: Seq<(String, String)>) -> Seq<(Seq<char>, Seq<char>)> {
    fields.map_values(|f: (String, String)| (f.0@, f.1@))
}

/// The decimal rendering of an optional number.
pub open spec fn optional_decimal(value: Option<u64>) -> Option<Seq<char>> {
    match value {
        Some(v) => Some(dec_chars(v as nat)),
        None => None,
    }
}

/// The diagnostic rendering of an optional key code.
pub open spec fn optional_key_code(value: Option<u32>) -> Option<Seq<char>> {
    match value {
        Some(v) => Some(prefixed_hex_two(v as nat)),
        None => None,
    }
}

/// The characters of an optional text.
pub open spec fn optional_text(value: Option<&str>) -> Option<Seq<char>> {
    match value {
        Some(v) => Some(v@),
        None => None,
    }
}

/// The field of an optional value, or nothing.
pub open spec fn optional_field(name: Seq<char>, value: Option<Seq<char>>) -> Seq<
    (Seq<char>, Seq<char>),
> {
    match value {
        Some(v) => seq![(name, v)],
        None => seq![],
    }
}

/// The diagnostic record of a Hold decision: fixed mode and source, the
/// decision, then each correlation value that is known. Key codes are given
/// as `0x` and at least two hexadecimal digits; no typed content appears.
pub open spec fn hold_fields(
    macro_id: Option<Seq<char>>,
    decision: Seq<char>,
    epoch: Option<u64>,
    run_token: Option<RunToken>,
    trigger_vk: Option<u32>,
    owner_vk: Option<u32>,
    released_vk: Option<u32>,
) -> Seq<(Seq<char>, Seq<char>)> {
    seq![("mode"@, "hold"@), ("source"@, "low_level_keyboard"@), ("decision"@, decision)]
        + optional_field("macro_id"@, macro_id)
        + optional_field("hold_epoch"@, optional_decimal(epoch))
        + run_fields(run_token) + optional_field("canonical_vk"@, optional_key_code(trigger_vk))
        + optional_field("owner_vk"@, optional_key_code(owner_vk))
        + optional_field("released_vk"@, optional_key_code(released_vk))
}

fn push_field(fields: &mut Vec<(String, String)>, name: &str, value: String)
    ensures
        fields_view(final(fields)@) == fields_view(old(fields)@).push((name@, value@)),
{
    let ghost before = fields@;
    fields.push((string_from_str(name), value));
    assert(fields_view(fields@) =~= fields_view(before).push((name@, value@)));
}

/// The view of an optional text value.
pub open spec fn optional_view(value: Option<String>) -> Option<Seq<char>> {
    match value {
        Some(v) => Some(v@),
        None => None,
    }
}

fn push_optional_field(fields: &mut Vec<(String, String)>, name: &str, value: Option<String>)
    ensures
        fields_view(final(fields)@) == fields_view(old(fields)@) + optional_field(
            name@,
            optional_view(value),
        ),
{
    let ghost before = fields_view(fields@);
    match value {
        Some(v) => push_field(fields, name, v),
        None => {},
    }
    assert(fields_view(fields@) =~= before + optional_field(name@, optional_view(value)));
}

fn key_code_text(vk: Option<u32>) -> (r: Option<String>)
    ensures
        optional_view(r) == optional_key_code(vk),
{
    match vk {
        Some(v) => Some(hex_label_two_digits(v as u64)),
        None => None,
    }
}

/// The run fields of a Hold record: only a real run (non-zero id) appears.
pub open spec fn run_fields(run_token: Option<RunToken>) -> Seq<(Seq<char>, Seq<char>)> {
    match run_token {
        Some(t) => if t.id != 0 {
            seq![("run_id"@, dec_chars(t.id as nat)), ("run_generation"@, dec_chars(t.generation as nat))]
        } else {
            seq![]
        },
        None => seq![],
    }
}

fn push_run_fields(fields: &mut Vec<(String, String)>, run_token: Option<RunToken>)
    ensures
        fields_view(final(fields)@) == fields_view(old(fields)@) + run_fields(run_token),
{
    let ghost before = fields_view(fields@);
    match run_token {
        Some(t) => if t.id != 0 {
            push_field(fields, "run_id", u64_to_decimal(t.id));
            push_field(fields, "run_generation", u64_to_decimal(t.generation));
        },
        None => {},
    }
    assert(fields_view(fields@) =~= before + run_fields(run_token));
}

/// The fields recorded for a Hold decision.
pub fn hold_diagnostic_fields(
    macro_id: Option<&str>,
    decision: &str,
    epoch: Option<u64>,
    run_token: Option<RunToken>,
    trigger_vk: Option<u32>,
    owner_vk: Option<u32>,
    released_vk: Option<u32>,
) -> (r: Vec<(String, String)>)
    ensures
        fields_view(r@) == hold_fields(
            optional_text(macro_id),
            decision@,
            epoch,
            run_token,
            trigger_vk,
            owner_vk,
            released_vk,
        ),
{
    let mut fields: Vec<(String, String)> = Vec::new();
    assert(fields_view(fields@) =~= seq![]);
    push_field(&mut fields, "mode", string_from_str("hold"));
    push_field(&mut fields, "source", string_from_str("low_level_keyboard"));
    push_field(&mut fields, "decision", string_from_str(decision));
    let id_text = match macro_id {
        Some(m) => Some(string_from_str(m)),
        None => None,
    };
    assert(optional_view(id_text) == optional_text(macro_id));
    push_optional_field(&mut fields, "macro_id", id_text);
    let epoch_text = match epoch {
        Some(e) => Some(u64_to_decimal(e)),
        None => None,
    };
    assert(optional_view(epoch_text) == optional_decimal(epoch));
    push_optional_field(&mut fields, "hold_epoch", epoch_text);
    push_run_fields(&mut fields, run_token);
    push_optional_field(&mut fields, "canonical_vk", key_code_text(trigger_vk));
    push_optional_field(&mut fields, "owner_vk", key_code_text(owner_vk));
    push_optional_field(&mut fields, "released_vk", key_code_text(released_vk));
    fields
}

} // verus!
