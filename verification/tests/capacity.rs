use lokai_engine::capacity::applier::{
    estate_base_stem, estate_model_name, is_estate_or_bench_tag, render_modelfile, ApplyError,
};
use lokai_engine::capacity::detect::{compute_fingerprint, hardware_summary, infer_gpu_role};
use lokai_engine::capacity::profile::{
    default_keep_alive, GpuInfo, GpuRole, HardwareSnapshot, InferenceRecipe,
};
use lokai_engine::capacity::report::session_matches_profile;
use lokai_engine::capacity::status::{
    doctor_status_str, node_capacity_from_wire, worker_capacity_wire, CapacityDoctorStatus,
    CapacityStatus,
};

fn status(doctor: CapacityDoctorStatus) -> CapacityStatus {
    CapacityStatus {
        completed: true,
        stale: false,
        doctor,
        active_profile_id: Some("p1".into()),
        active_profile_label: Some("lab".into()),
        hardware_summary: Some("GPU".into()),
        gates_ok: true,
        last_setup_at: None,
        profile_model: None,
        profile_base_model: None,
    }
}

#[test]
fn worker_wire_round_trip() {
    let w = worker_capacity_wire(&status(CapacityDoctorStatus::Healthy));
    let node = node_capacity_from_wire(&w);
    assert!(node.gates_ok);
    assert_eq!(node.doctor, "healthy");
    assert_eq!(node.active_profile_id.as_deref(), Some("p1"));
    assert!(!node.stale);
}

#[test]
fn doctor_wire_names() {
    assert_eq!(doctor_status_str(CapacityDoctorStatus::Degraded), "degraded");
    assert_eq!(doctor_status_str(CapacityDoctorStatus::NoProfile), "no_profile");
    let w = worker_capacity_wire(&status(CapacityDoctorStatus::Unknown));
    assert_eq!(w.doctor, "unknown");
    assert_eq!(w.hardware_summary.as_deref(), Some("GPU"));
}

fn gpu(name: &str, vram: u32, role: GpuRole) -> GpuInfo {
    GpuInfo {
        name: name.into(),
        uuid: None,
        bus_id: None,
        vram_total_mb: vram,
        role,
    }
}

#[test]
fn hardware_summary_lists_inference_gpus() {
    let hw = HardwareSnapshot {
        fingerprint: "fp".into(),
        gpus: vec![
            gpu("RTX 4090", 24564, GpuRole::Compute),
            gpu("GTX 970", 4096, GpuRole::Display),
            gpu("Mystery", 8192, GpuRole::Unknown),
        ],
        cpu_cores: 16,
        ram_mb: 65536,
        os: "linux".into(),
        ollama_version: None,
    };
    assert_eq!(hardware_summary(&hw), "RTX 4090 24564MB + Mystery 8192MB");
    let cpu_only = HardwareSnapshot {
        gpus: vec![],
        ..hw
    };
    assert_eq!(hardware_summary(&cpu_only), "CPU 16 cores, 64 GB RAM");
}

#[test]
fn gpu_roles_from_names() {
    assert_eq!(infer_gpu_role("NVIDIA GeForce RTX 4090", 1), GpuRole::Compute);
    assert_eq!(infer_gpu_role("Tesla P40", 3), GpuRole::Compute);
    assert_eq!(infer_gpu_role("NVIDIA GeForce GTX 970", 0), GpuRole::Display);
    assert_eq!(infer_gpu_role("Some Adapter", 0), GpuRole::Compute);
    assert_eq!(infer_gpu_role("Some Adapter", 2), GpuRole::Unknown);
}

#[test]
fn fingerprint_changes_with_hardware() {
    let gpus = vec![gpu("A", 1, GpuRole::Compute)];
    let a = compute_fingerprint(&gpus, 8, 16000, "linux");
    let b = compute_fingerprint(&gpus, 8, 32000, "linux");
    assert_eq!(a.len(), 19);
    assert!(a.starts_with("fp_"));
    assert_ne!(a, b);
}

#[test]
fn estate_names_and_tags() {
    assert_eq!(estate_model_name("qwen2.5:7b"), "qwen2.5-estate");
    assert_eq!(estate_model_name("qwen2.5-estate-estate"), "qwen2.5-estate");
    assert_eq!(estate_base_stem(" llama3 :8b"), "llama3");
    assert!(is_estate_or_bench_tag("qwen2.5-estate:latest"));
    assert!(is_estate_or_bench_tag("lokai-bench-opt"));
    assert!(!is_estate_or_bench_tag("qwen2.5:7b"));
}

#[test]
fn session_model_matches_profile_models() {
    assert!(session_matches_profile(
        "qwen2.5-estate",
        Some("qwen2.5-estate"),
        None
    ));
    assert!(session_matches_profile("qwen2.5:7b", None, Some("qwen2.5:7b")));
    assert!(!session_matches_profile("llama3:8b", None, Some("qwen2.5:7b")));
}

#[test]
fn modelfile_renders_parameters() {
    let recipe = InferenceRecipe {
        base_model: "qwen2.5:7b".into(),
        estate_model: "qwen2.5-7b-estate".into(),
        num_ctx: 8192,
        num_gpu: Some(99),
        keep_alive: default_keep_alive(),
        modelfile_path: None,
        env_hints: vec![],
        draft_model: None,
        draft_count: None,
    };
    assert_eq!(
        render_modelfile(&recipe),
        "FROM qwen2.5:7b\nPARAMETER num_ctx 8192\nPARAMETER num_gpu 99"
    );
    assert_eq!(recipe.keep_alive, "30m");
    let no_gpu = InferenceRecipe {
        num_gpu: None,
        ..recipe
    };
    assert_eq!(render_modelfile(&no_gpu), "FROM qwen2.5:7b\nPARAMETER num_ctx 8192");
    assert_eq!(ApplyError::Io("disk".into()).message(), "io: disk");
}

use lokai_engine::capacity::detect::parse_nvidia_smi;
use lokai_engine::capacity::doctor::{
    diagnose, is_fingerprint_stale, ollama_model_matches, worker_db_unavailable, GpuShare,
    LivePlacement,
};
use lokai_engine::capacity::profile::{
    InferenceDefaults, ProfileSource, RuntimeProfile, TierRole, SCHEMA_VERSION,
};
use lokai_engine::capacity::status::DiagnosisCode;

fn hw(fingerprint: &str, gpus: Vec<GpuInfo>) -> HardwareSnapshot {
    HardwareSnapshot {
        fingerprint: fingerprint.into(),
        gpus,
        cpu_cores: 8,
        ram_mb: 32_768,
        os: "windows-x86_64".into(),
        ollama_version: None,
    }
}

fn profile(fingerprint: &str) -> RuntimeProfile {
    RuntimeProfile {
        schema_version: SCHEMA_VERSION,
        id: "p1".into(),
        label: "test".into(),
        created_at_ms: 0,
        node_id: "local".into(),
        role: TierRole::Coder,
        source: ProfileSource::Import,
        hardware: hw(fingerprint, vec![]),
        recipe: InferenceRecipe {
            base_model: "qwen3.6:latest".into(),
            estate_model: "qwen3.6-estate".into(),
            num_ctx: 4096,
            num_gpu: None,
            keep_alive: "30m".into(),
            modelfile_path: None,
            env_hints: vec![],
            draft_model: None,
            draft_count: None,
        },
        gates_passed: true,
    }
}

fn live(pct: Option<f32>, resident: &str) -> LivePlacement {
    LivePlacement {
        gpu_share: pct.map(|p| GpuShare {
            below_full: p < 100.0,
            percent_text: format!("{p:.1}"),
        }),
        resident_model: resident.into(),
    }
}

#[test]
fn detects_degraded_gpu() {
    let p = profile("fp");
    let live_hw = hw("fp", vec![gpu("P40", 24_576, GpuRole::Compute)]);
    let d = diagnose(Some(&p), &live_hw, Some(&live(Some(24.0), "qwen3.6:latest")));
    assert_eq!(d.status, CapacityDoctorStatus::Degraded);
    assert!(d.codes.contains(&DiagnosisCode::DegradedPlacement));
    assert!(d.recommendations.iter().any(|r| r.contains("(24.0% on GPU)")));
}

#[test]
fn different_model_or_missing_measurement_cannot_be_healthy() {
    let base = hw("", vec![]);
    let fp = compute_fingerprint(&base.gpus, base.cpu_cores, base.ram_mb, &base.os);
    let p = profile(&fp);
    let d = diagnose(Some(&p), &base, Some(&live(Some(100.0), "qwen3.6:latest")));
    assert_eq!(d.status, CapacityDoctorStatus::Degraded);
    assert!(d.codes.contains(&DiagnosisCode::ResidentModelMismatch));
    let ok = live(Some(100.0), "qwen3.6-estate:latest");
    let healthy = diagnose(Some(&p), &base, Some(&ok));
    assert_eq!(healthy.status, CapacityDoctorStatus::Healthy);
    assert_eq!(healthy.summary, "Profile `test` healthy — CPU 8 cores, 32 GB RAM");
    assert_eq!(
        diagnose(Some(&p), &base, Some(&live(Some(96.0), "qwen3.6-estate:latest"))).status,
        CapacityDoctorStatus::Degraded
    );
    assert_eq!(
        diagnose(Some(&p), &base, Some(&live(None, "qwen3.6-estate:latest"))).status,
        CapacityDoctorStatus::Unknown
    );
}

#[test]
fn doctor_without_profile_or_database() {
    let d = diagnose(None, &hw("fp", vec![]), None);
    assert_eq!(d.status, CapacityDoctorStatus::NoProfile);
    assert_eq!(d.codes, vec![DiagnosisCode::NoProfile]);
    assert_eq!(d.recommendations.len(), 1);
    let u = worker_db_unavailable();
    assert_eq!(u.summary, "worker.db unavailable");
    assert!(u.codes.is_empty());
}

#[test]
fn stale_fingerprint_and_failed_gates_are_findings() {
    let mut p = profile("fp_old");
    p.gates_passed = false;
    let live_hw = hw("x", vec![]);
    assert!(is_fingerprint_stale(&p, &live_hw));
    let d = diagnose(Some(&p), &live_hw, None);
    assert_eq!(
        d.codes,
        vec![DiagnosisCode::FingerprintMismatch, DiagnosisCode::GatesFailed]
    );
    assert_eq!(
        d.summary,
        "Profile `test` degraded — Hardware fingerprint changed — consider re-optimize (ES5-2)."
    );
    assert!(ollama_model_matches("m", "m:latest"));
    assert!(!ollama_model_matches("m:7b", "m"));
}

#[test]
fn nvidia_smi_rows_become_gpus() {
    let text = "GPU-1, Tesla P40, 24576, 00000000:01:00.0\n\n  GPU-2 , GeForce GTX 970, 4096\r\nbroken\nGPU-3, Mystery, lots\n";
    let gpus = parse_nvidia_smi(text);
    assert_eq!(gpus.len(), 3);
    assert_eq!(gpus[0].uuid.as_deref(), Some("GPU-1"));
    assert_eq!(gpus[0].name, "Tesla P40");
    assert_eq!(gpus[0].vram_total_mb, 24576);
    assert_eq!(gpus[0].bus_id.as_deref(), Some("00000000:01:00.0"));
    assert_eq!(gpus[0].role, GpuRole::Compute);
    assert_eq!(gpus[1].vram_total_mb, 4096);
    assert!(gpus[1].bus_id.is_none());
    assert_eq!(gpus[1].role, GpuRole::Display);
    assert_eq!(gpus[2].vram_total_mb, 0);
    assert_eq!(gpus[2].role, GpuRole::Unknown);
}

#[test]
fn profile_schema_and_defaults() {
    let p = profile("fp");
    assert!(p.validate_schema().is_ok());
    let mut bad = profile("fp");
    bad.schema_version = 2;
    assert_eq!(
        bad.validate_schema().unwrap_err(),
        "unsupported schema_version 2 (want 1)"
    );
    let mut no_id = profile("fp");
    no_id.id = String::new();
    assert_eq!(no_id.validate_schema().unwrap_err(), "profile id required");
    let d = InferenceDefaults::from_profile(&p);
    assert_eq!(d.model_fast, "qwen3.6-estate");
    assert_eq!(d.num_ctx, 4096);
    assert_eq!(d.profile_id.as_deref(), Some("p1"));
    let f = InferenceDefaults::fallback_from("m", None, Some("4"));
    assert_eq!(f.model_hard, "m");
    assert_eq!(f.num_ctx, 8192);
    assert_eq!(f.draft_count, Some(4));
    assert!(InferenceDefaults::fallback_from("m", None, Some("x")).draft_count.is_none());
}

use lokai_engine::capacity::detect::fingerprint_of_hash;
use lokai_engine::capacity::doctor::diagnose_with_fingerprint;

#[test]
fn fingerprint_text_of_a_hash() {
    assert_eq!(fingerprint_of_hash(0), "fp_0000000000000000");
    assert_eq!(fingerprint_of_hash(0xdead_beef), "fp_00000000deadbeef");
    assert_eq!(fingerprint_of_hash(u64::MAX), "fp_ffffffffffffffff");
    let fp = compute_fingerprint(&[], 8, 1024, "linux");
    assert!(fp.starts_with("fp_") && fp.len() == 19);
}

#[test]
fn diagnosis_for_a_given_live_fingerprint() {
    let p = profile("fp_a");
    let base = hw("", vec![]);
    let ok = live(Some(100.0), "qwen3.6-estate:latest");
    let same = diagnose_with_fingerprint(&p, "fp_a", &base, Some(&ok));
    assert_eq!(same.status, CapacityDoctorStatus::Healthy);
    let moved = diagnose_with_fingerprint(&p, "fp_b", &base, Some(&ok));
    assert_eq!(moved.codes, vec![DiagnosisCode::FingerprintMismatch]);
    assert_eq!(moved.status, CapacityDoctorStatus::Degraded);
}

#[test]
fn estate_names_have_one_suffix_and_a_fixed_stem() {
    for m in ["qwen3.6:latest", "a-estate-estate:q4", "plain", "x-estate:", ""] {
        let stem = estate_base_stem(m);
        assert!(!stem.contains(':'));
        assert!(!stem.ends_with("-estate"));
        assert_eq!(estate_base_stem(&stem), stem);
        assert_eq!(estate_base_stem(&format!("{stem}-estate:tag")), stem);
        let name = estate_model_name(m);
        assert!(!name.contains(':'));
        assert_eq!(name, format!("{stem}-estate"));
        assert_eq!(estate_model_name(&name), name);
    }
}

use lokai_engine::capacity::detect::fingerprint_input;

#[test]
fn fingerprint_input_keeps_gpu_keys_in_order_without_role() {
    let gpus = vec![gpu("A", 100, GpuRole::Compute), gpu("B", 200, GpuRole::Display)];
    let input = fingerprint_input(&gpus, 4, 2048, "linux");
    let names: Vec<&str> = input.gpus.iter().map(|k| k.name.as_str()).collect();
    assert_eq!(names, vec!["A", "B"]);
    assert_eq!(input.gpus[1].vram_total_mb, 200);
    assert_eq!((input.cpu_cores, input.ram_mb, input.os.as_str()), (4, 2048, "linux"));
    // The role is not hashed: the same hardware with other roles fingerprints alike.
    let other = vec![gpu("A", 100, GpuRole::Display), gpu("B", 200, GpuRole::Compute)];
    assert_eq!(compute_fingerprint(&gpus, 4, 2048, "linux"), compute_fingerprint(&other, 4, 2048, "linux"));
}
