//! Capacity status of a node as the doctor reports it, its wire form, and
//! the pass/fail verdict of a bench run.
use vstd::prelude::*;

use crate::text::push_str;

verus! {

#[derive(Debug, Clone, Copy, PartialEq, Eq, Structural)]
pub enum CapacityDoctorStatus {
    Healthy,
    Degraded,
    Unknown,
    NoProfile,
}

#[derive(Debug, Clone, Copy, PartialEq, Eq, Structural)]
pub enum DiagnosisCode {
    NoProfile,
    FingerprintMismatch,
    GatesFailed,
    DegradedPlacement,
    ResidentModelMismatch,
    SlowRawShort,
}

pub open spec fn doctor_text(s: CapacityDoctorStatus) -> Seq<char> {
    match s {
        CapacityDoctorStatus::Healthy => "healthy"@,
        CapacityDoctorStatus::Degraded => "degraded"@,
        CapacityDoctorStatus::Unknown => "unknown"@,
        CapacityDoctorStatus::NoProfile => "no_profile"@,
    }
}

/// Wire name of a doctor status.
pub fn doctor_status_str(s: CapacityDoctorStatus) -> (r: &'static str)
    ensures
        r@ == doctor_text(s),
{
    match s {
        CapacityDoctorStatus::Healthy => "healthy",
        CapacityDoctorStatus::Degraded => "degraded",
        CapacityDoctorStatus::Unknown => "unknown",
        CapacityDoctorStatus::NoProfile => "no_profile",
    }
}

pub open spec fn doctor_name(s: CapacityDoctorStatus) -> Seq<char> {
    match s {
        CapacityDoctorStatus::Healthy => "Healthy"@,
        CapacityDoctorStatus::Degraded => "Degraded"@,
        CapacityDoctorStatus::Unknown => "Unknown"@,
        CapacityDoctorStatus::NoProfile => "NoProfile"@,
    }
}

/// The status as the report prints it.
pub fn doctor_status_name(s: CapacityDoctorStatus) -> (r: &'static str)
    ensures
        r@ == doctor_name(s),
{
    match s {
        CapacityDoctorStatus::Healthy => "Healthy",
        CapacityDoctorStatus::Degraded => "Degraded",
        CapacityDoctorStatus::Unknown => "Unknown",
        CapacityDoctorStatus::NoProfile => "NoProfile",
    }
}

/// The capacity status of a node.
#[derive(Debug)]
pub struct CapacityStatus {
    pub completed: bool,
    pub stale: bool,
    pub doctor: CapacityDoctorStatus,
    pub active_profile_id: Option<String>,
    pub active_profile_label: Option<String>,
    pub hardware_summary: Option<String>,
    pub gates_ok: bool,
    pub last_setup_at: Option<String>,
    pub profile_model: Option<String>,
    pub profile_base_model: Option<String>,
}

impl Default for CapacityStatus {
    fn default() -> (r: Self)
        ensures
            !r.completed && !r.stale && !r.gates_ok,
            r.doctor == CapacityDoctorStatus::NoProfile,
            r.active_profile_id is None && r.active_profile_label is None && r.hardware_summary is None,
            r.last_setup_at is None && r.profile_model is None && r.profile_base_model is None,
    {
        CapacityStatus {
            completed: false,
            stale: false,
            doctor: CapacityDoctorStatus::NoProfile,
            active_profile_id: None,
            active_profile_label: None,
            hardware_summary: None,
            gates_ok: false,
            last_setup_at: None,
            profile_model: None,
            profile_base_model: None,
        }
    }
}

/// The doctor's finding on a node.
#[derive(Debug)]
pub struct CapacityDiagnosis {
    pub status: CapacityDoctorStatus,
    pub codes: Vec<DiagnosisCode>,
    pub summary: String,
    pub recommendations: Vec<String>,
}

/// Capacity status as a worker serves it.
#[derive(Debug)]
pub struct WorkerCapacityWire {
    pub completed: bool,
    pub doctor: String,
    pub stale: bool,
    pub gates_ok: bool,
    pub active_profile_id: Option<String>,
    pub active_profile_label: Option<String>,
    pub hardware_summary: Option<String>,
}

pub open spec fn opt_view(s: Option<String>) -> Option<Seq<char>> {
    match s {
        Some(t) => Some(t@),
        None => None,
    }
}

fn copy_opt(s: &Option<String>) -> (r: Option<String>)
    ensures
        opt_view(r) == opt_view(*s),
{
    match s {
        Some(t) => Some(t.clone()),
        None => None,
    }
}

/// The wire form of a status: the doctor as its wire name, the rest as is.
pub fn worker_capacity_wire(status: &CapacityStatus) -> (r: WorkerCapacityWire)
    ensures
        r.completed == status.completed,
        r.doctor@ == doctor_text(status.doctor),
        r.stale == status.stale,
        r.gates_ok == status.gates_ok,
        opt_view(r.active_profile_id) == opt_view(status.active_profile_id),
        opt_view(r.active_profile_label) == opt_view(status.active_profile_label),
        opt_view(r.hardware_summary) == opt_view(status.hardware_summary),
{
    let mut doctor = String::new();
    push_str(&mut doctor, doctor_status_str(status.doctor));
    WorkerCapacityWire {
        completed: status.completed,
        doctor,
        stale: status.stale,
        gates_ok: status.gates_ok,
        active_profile_id: copy_opt(&status.active_profile_id),
        active_profile_label: copy_opt(&status.active_profile_label),
        hardware_summary: copy_opt(&status.hardware_summary),
    }
}

#[derive(Debug, Clone, Copy, PartialEq, Eq, Structural)]
pub enum GateSeverity {
    Warn,
    Fail,
}

#[derive(Debug)]
pub struct GateFailure {
    pub gate: String,
    pub message: String,
    pub severity: GateSeverity,
}

#[derive(Debug)]
pub struct GateVerdict {
    pub passed: bool,
    pub failures: Vec<GateFailure>,
}

pub open spec fn any_fail(fs: Seq<GateFailure>) -> bool {
    exists|i: int| 0 <= i < fs.len() && #[trigger] fs[i].severity == GateSeverity::Fail
}

impl GateVerdict {
    /// The verdict of a gate run: passed unless some failure is a `Fail`.
    pub fn from_failures(failures: Vec<GateFailure>) -> (r: GateVerdict)
        ensures
            r.failures@ == failures@,
            r.passed == !any_fail(failures@),
    {
        let mut i: usize = 0;
        let mut fail = false;
        while i < failures.len()
            invariant
                i <= failures@.len(),
                fail == exists|j: int| 0 <= j < i && #[trigger] failures@[j].severity == GateSeverity::Fail,
            decreases failures.len() - i,
        {
            match failures[i].severity {
                GateSeverity::Fail => {
                    fail = true;
                },
                GateSeverity::Warn => {},
            }
            i = i + 1;
        }
        GateVerdict { passed: !fail, failures }
    }
}

/// Capacity health of a node as the coordinator records it.
#[derive(Debug)]
pub struct NodeCapacityHealth {
    pub doctor: String,
    pub active_profile_id: Option<String>,
    pub gates_ok: bool,
    pub stale: bool,
}

/// The coordinator's record of a worker's wire status.
pub fn node_capacity_from_wire(wire: &WorkerCapacityWire) -> (r: NodeCapacityHealth)
    ensures
        r.doctor@ == wire.doctor@,
        opt_view(r.active_profile_id) == opt_view(wire.active_profile_id),
        r.gates_ok == wire.gates_ok,
        r.stale == wire.stale,
{
    NodeCapacityHealth {
        doctor: wire.doctor.clone(),
        active_profile_id: copy_opt(&wire.active_profile_id),
        gates_ok: wire.gates_ok,
        stale: wire.stale,
    }
}

/// Failure of a bench probe.
#[derive(Debug)]
pub enum ProbeError {
    Client(String),
}

/// Prompt of the raw-short probe.
pub const RAW_SHORT_PROMPT: &'static str = "Reply with exactly the word: ready.";

} // verus!
