use lokai_engine::broker::estimate::UncertaintyModel;
use lokai_engine::broker::metrics::SchedulerMetrics;
use lokai_engine::capacity::applier::{estate_model_name, is_estate_or_bench_tag};
use lokai_engine::capacity::detect::compute_fingerprint;
use lokai_engine::capacity::profile::{GpuInfo, GpuRole};
use lokai_engine::capacity::report::format_capacity_report;
use lokai_engine::capacity::status::{
    CapacityDiagnosis, CapacityDoctorStatus, CapacityStatus, DiagnosisCode,
};
use lokai_engine::tools::types::{ChangeKind, FileChange};
use lokai_engine::tools::verify::{format_post_edit_snapshot, summarize_verify_failure};

#[test]
fn post_edit_snapshot_shows_changed_region() {
    let change = FileChange {
        path: "a.py".into(),
        kind: ChangeKind::Edit,
        before: Some("line1\nline2\nline3\n".into()),
        after: Some("line1\nCHANGED\nline3\n".into()),
    };
    let snap = format_post_edit_snapshot(&change);
    assert!(snap.contains("CHANGED"));
    assert!(snap.contains("post-edit snapshot"));
}

#[test]
fn summarize_verify_failure_extracts_error_line() {
    let out = "stdout:\nGRADE: FAIL\nstderr:\nre.error: bad range\n";
    let line = summarize_verify_failure(out).unwrap();
    assert!(line.contains("re.error"));
}

#[test]
fn mean_abs_prediction_error_from_samples() {
    let mut m = SchedulerMetrics::default();
    assert_eq!(m.mean_abs_prediction_error_ms(), None);
    m.record_prediction_error(100);
    m.record_prediction_error(50);
    assert_eq!(m.prediction_sample_count(), 2);
    assert_eq!(m.mean_abs_prediction_error_ms(), Some(75));
}

#[test]
fn unknown_worker_gets_large_uncertainty() {
    let u = UncertaintyModel {
        samples: 0,
        cold_floor_ms: 400,
        ..UncertaintyModel::default()
    };
    assert!(u.margin_ms(true) >= 400);
}

#[test]
fn estate_tag_is_idempotent_across_reoptimize() {
    assert_eq!(estate_model_name("qwen3.6:latest"), "qwen3.6-estate");
    assert_eq!(estate_model_name("qwen3.6-estate"), "qwen3.6-estate");
    assert_eq!(
        estate_model_name("qwen3.6-gpu-estate-estate-estate:latest"),
        "qwen3.6-gpu-estate"
    );
    assert!(is_estate_or_bench_tag("qwen3.6-estate:latest"));
    assert!(is_estate_or_bench_tag("lokai-bench-opt"));
    assert!(!is_estate_or_bench_tag("qwen3.5:latest"));
}

#[test]
fn fingerprint_stable() {
    let gpus = vec![GpuInfo {
        name: "Tesla P40".into(),
        uuid: Some("GPU-1".into()),
        bus_id: Some("03:00.0".into()),
        vram_total_mb: 24_576,
        role: GpuRole::Compute,
    }];
    let a = compute_fingerprint(&gpus, 8, 32_768, "windows-x86_64");
    let b = compute_fingerprint(&gpus, 8, 32_768, "windows-x86_64");
    assert_eq!(a, b);
}

#[test]
fn override_explains_that_doctor_is_about_the_profile() {
    let status = CapacityStatus {
        completed: true,
        stale: false,
        doctor: CapacityDoctorStatus::Degraded,
        active_profile_id: Some("p1".into()),
        active_profile_label: Some("lab".into()),
        hardware_summary: Some("GPU".into()),
        gates_ok: false,
        last_setup_at: None,
        profile_model: Some("qwen3.6-estate".into()),
        profile_base_model: Some("qwen3.6:latest".into()),
    };
    let diagnosis = CapacityDiagnosis {
        status: CapacityDoctorStatus::Degraded,
        codes: vec![DiagnosisCode::GatesFailed],
        summary: "Profile `lab` degraded — too large".into(),
        recommendations: vec!["re-optimize".into()],
    };
    let text = format_capacity_report(&status, Some(&diagnosis), Some("qwen3.5:latest"));
    assert!(text.contains("This chat:        qwen3.5:latest"));
    assert!(text.contains("qwen3.6-estate"));
    assert!(text.contains("not using the saved profile"));
    assert!(text.contains("Doctor is describing the *profile default*"));
    assert!(text.contains("you do not need `/optimize` to switch"));
}
