//! The capacity doctor: the saved profile held against the live machine and the
//! live placement of its model.
use vstd::prelude::*;

use crate::capacity::detect::{compute_fingerprint, fingerprint_text, hardware_summary, summary_text};
use crate::capacity::profile::{HardwareSnapshot, RuntimeProfile};
use crate::capacity::status::{CapacityDiagnosis, CapacityDoctorStatus, DiagnosisCode};
use crate::text::{chars_eq, chars_of, contains, contains_chars, push_str, views_of};

verus! {

/// The live GPU share of the profile's runner, as the host measured it.
#[derive(Debug)]
pub struct GpuShare {
    /// The share is under full GPU residency (100%).
    pub below_full: bool,
    /// The share with one decimal, as in `85.0`.
    pub percent_text: String,
}

/// What the doctor reads of the live placement.
#[derive(Debug)]
pub struct LivePlacement {
    /// `None` when the share was not measured.
    pub gpu_share: Option<GpuShare>,
    pub resident_model: String,
}

/// An Ollama model name with its tag: an untagged name means `:latest`.
pub open spec fn tagged(name: Seq<char>) -> Seq<char> {
    if contains(name, seq![':']) {
        name
    } else {
        name + ":latest"@
    }
}

/// Two Ollama model names name the same model once an untagged one reads as `:latest`.
pub open spec fn model_matches(a: Seq<char>, b: Seq<char>) -> bool {
    tagged(a) == tagged(b)
}

fn tagged_exec(name: &str) -> (r: Vec<char>)
    ensures
        r@ == tagged(name@),
{
    let mut c = chars_of(name);
    let colon = vec![':'];
    assert(colon@ =~= seq![':']);
    let has_colon = contains_chars(c.as_slice(), colon.as_slice());
    if !has_colon {
        let suffix = chars_of(":latest");
        let mut i: usize = 0;
        let ghost base = c@;
        while i < suffix.len()
            invariant
                i <= suffix@.len(),
                suffix@ == ":latest"@,
                c@ == base + suffix@.take(i as int),
            decreases suffix.len() - i,
        {
            c.push(suffix[i]);
            assert(suffix@.take(i + 1) =~= suffix@.take(i as int).push(suffix@[i as int]));
            i = i + 1;
        }
        assert(suffix@.take(suffix@.len() as int) =~= suffix@);
    }
    c
}

/// Whether two Ollama model names name the same model.
pub fn ollama_model_matches(a: &str, b: &str) -> (r: bool)
    ensures
        r == model_matches(a@, b@),
{
    let x = tagged_exec(a);
    let y = tagged_exec(b);
    chars_eq(x.as_slice(), y.as_slice())
}

/// The profile was made on hardware with another fingerprint than `live_fp`.
pub open spec fn fingerprint_stale(p: RuntimeProfile, live_fp: Seq<char>) -> bool {
    p.hardware.fingerprint@ != live_fp
}

/// Whether the profile's fingerprint differs from the live machine's, whose
/// fingerprint is some hash written by `fingerprint_of_hash`.
pub fn is_fingerprint_stale(profile: &RuntimeProfile, live: &HardwareSnapshot) -> (r: bool)
    ensures
        exists|h: u64| r == fingerprint_stale(*profile, fingerprint_text(h)),
{
    let fp = compute_fingerprint(live.gpus.as_slice(), live.cpu_cores, live.ram_mb, live.os.as_str());
    let a = chars_of(fp.as_str());
    let b = chars_of(profile.hardware.fingerprint.as_str());
    let r = !chars_eq(a.as_slice(), b.as_slice());
    proof {
        let h = choose|h: u64| fp@ == fingerprint_text(h);
        assert(r == fingerprint_stale(*profile, fingerprint_text(h)));
    }
    r
}

pub open spec fn stale_note() -> Seq<char> {
    "Hardware fingerprint changed — consider re-optimize (ES5-2)."@
}

pub open spec fn gates_note() -> Seq<char> {
    "Active profile did not pass gates at creation."@
}

pub open spec fn offload_note(pct: Seq<char>) -> Seq<char> {
    "Model is CPU-offloaded ("@ + pct
        + "% on GPU). Release the spilled allocation and retry a fully GPU-resident configuration."@
}

pub open spec fn resident_note(expected: Seq<char>, live: Seq<char>) -> Seq<char> {
    "Expected resident `"@ + expected + "`, live `"@ + live + "`."@
}

/// The findings on a profile, in order: a stale fingerprint, failed gates, a
/// live placement off the GPU, a different resident model.
pub open spec fn findings(p: RuntimeProfile, stale: bool, live: Option<LivePlacement>) -> Seq<(DiagnosisCode, Seq<char>)> {
    let a: Seq<(DiagnosisCode, Seq<char>)> = if stale {
        seq![(DiagnosisCode::FingerprintMismatch, stale_note())]
    } else {
        Seq::empty()
    };
    let b = if !p.gates_passed {
        a.push((DiagnosisCode::GatesFailed, gates_note()))
    } else {
        a
    };
    match live {
        None => b,
        Some(l) => {
            let c = match l.gpu_share {
                Some(g) => if g.below_full {
                    b.push((DiagnosisCode::DegradedPlacement, offload_note(g.percent_text@)))
                } else {
                    b
                },
                None => b,
            };
            if !model_matches(l.resident_model@, p.recipe.estate_model@) {
                c.push(
                    (
                        DiagnosisCode::ResidentModelMismatch,
                        resident_note(p.recipe.estate_model@, l.resident_model@),
                    ),
                )
            } else {
                c
            }
        },
    }
}

/// Degraded on any finding; otherwise unknown without a measured GPU share, else healthy.
pub open spec fn doctor_status(fs: Seq<(DiagnosisCode, Seq<char>)>, live: Option<LivePlacement>) -> CapacityDoctorStatus {
    if fs.len() > 0 {
        CapacityDoctorStatus::Degraded
    } else if match live {
        Some(l) => l.gpu_share is None,
        None => true,
    } {
        CapacityDoctorStatus::Unknown
    } else {
        CapacityDoctorStatus::Healthy
    }
}

pub open spec fn no_profile_summary() -> Seq<char> {
    "No active capacity profile — run `lokai estate capacity profiles import` or optimize."@
}

pub open spec fn no_profile_recommendation() -> Seq<char> {
    "Import a profile JSON or run ES5-2 optimize when available."@
}

/// The one-line summary of a diagnosis.
pub open spec fn doctor_summary(
    label: Seq<char>,
    status: CapacityDoctorStatus,
    fs: Seq<(DiagnosisCode, Seq<char>)>,
    hw: HardwareSnapshot,
) -> Seq<char> {
    match status {
        CapacityDoctorStatus::Healthy => "Profile `"@ + label + "` healthy — "@ + summary_text(hw),
        CapacityDoctorStatus::Degraded => "Profile `"@ + label + "` degraded — "@ + (if fs.len() > 0 {
            fs[0].1
        } else {
            "check inference placement"@
        }),
        _ => "Profile `"@ + label + "` — could not read live Ollama placement"@,
    }
}

/// Push a finding: its code and its recommendation.
fn note(codes: &mut Vec<DiagnosisCode>, recs: &mut Vec<String>, code: DiagnosisCode, text: String)
    ensures
        final(codes)@ == old(codes)@.push(code),
        views_of(final(recs)@) == views_of(old(recs)@).push(text@),
{
    codes.push(code);
    let ghost before = views_of(recs@);
    recs.push(text);
    assert(views_of(recs@) =~= before.push(text@));
}

/// `r` is the diagnosis of profile `p`, given whether its fingerprint is
/// stale, the live hardware and the live placement.
pub open spec fn diagnosis_is(
    r: CapacityDiagnosis,
    p: RuntimeProfile,
    stale: bool,
    hw: HardwareSnapshot,
    lv: Option<LivePlacement>,
) -> bool {
    let fs = findings(p, stale, lv);
    &&& r.codes@ == fs.map_values(|f: (DiagnosisCode, Seq<char>)| f.0)
    &&& views_of(r.recommendations@) == fs.map_values(|f: (DiagnosisCode, Seq<char>)| f.1)
    &&& r.status == doctor_status(fs, lv)
    &&& r.summary@ == doctor_summary(p.label@, r.status, fs, hw)
}

pub open spec fn opt_live(live: Option<&LivePlacement>) -> Option<LivePlacement> {
    match live {
        Some(l) => Some(*l),
        None => None,
    }
}

/// Compare the active profile with the live machine and placement. The live
/// fingerprint is the machine's hardware hash, which is not the same on every
/// machine; `diagnose_with_fingerprint` gives the diagnosis for each value of it.
pub fn diagnose(profile: Option<&RuntimeProfile>, live_hw: &HardwareSnapshot, live: Option<&LivePlacement>) -> (r: CapacityDiagnosis)
    ensures
        match profile {
            None => {
                &&& r.status == CapacityDoctorStatus::NoProfile
                &&& r.codes@ == seq![DiagnosisCode::NoProfile]
                &&& r.summary@ == no_profile_summary()
                &&& views_of(r.recommendations@) == seq![no_profile_recommendation()]
            },
            Some(p) => exists|h: u64|
                diagnosis_is(r, *p, fingerprint_stale(*p, fingerprint_text(h)), *live_hw, opt_live(live)),
        },
{
    match profile {
        None => {
            let mut recs: Vec<String> = Vec::new();
            recs.push(String::from_str("Import a profile JSON or run ES5-2 optimize when available."));
            assert(views_of(recs@) =~= seq![no_profile_recommendation()]);
            let codes = vec![DiagnosisCode::NoProfile];
            assert(codes@ =~= seq![DiagnosisCode::NoProfile]);
            CapacityDiagnosis {
                status: CapacityDoctorStatus::NoProfile,
                codes,
                summary: String::from_str(
                    "No active capacity profile — run `lokai estate capacity profiles import` or optimize.",
                ),
                recommendations: recs,
            }
        },
        Some(p) => {
            let fp = compute_fingerprint(
                live_hw.gpus.as_slice(),
                live_hw.cpu_cores,
                live_hw.ram_mb,
                live_hw.os.as_str(),
            );
            let r = diagnose_with_fingerprint(p, fp.as_str(), live_hw, live);
            proof {
                let h = choose|h: u64| fp@ == fingerprint_text(h);
                assert(diagnosis_is(r, *p, fingerprint_stale(*p, fingerprint_text(h)), *live_hw, opt_live(live)));
            }
            r
        },
    }
}

/// Compare a profile with the live machine, whose fingerprint is `live_fp`,
/// and with the live placement.
pub fn diagnose_with_fingerprint(
    p: &RuntimeProfile,
    live_fp: &str,
    live_hw: &HardwareSnapshot,
    live: Option<&LivePlacement>,
) -> (r: CapacityDiagnosis)
    ensures
        diagnosis_is(r, *p, fingerprint_stale(*p, live_fp@), *live_hw, opt_live(live)),
{
    let ghost lv = opt_live(live);
    let a = chars_of(live_fp);
    let b = chars_of(p.hardware.fingerprint.as_str());
    let stale = !chars_eq(a.as_slice(), b.as_slice());
    let ghost fs = findings(*p, stale, lv);
    let mut codes: Vec<DiagnosisCode> = Vec::new();
    let mut recs: Vec<String> = Vec::new();
    let ghost mut acc: Seq<(DiagnosisCode, Seq<char>)> = Seq::empty();
    if stale {
        note(&mut codes, &mut recs, DiagnosisCode::FingerprintMismatch, String::from_str(
            "Hardware fingerprint changed — consider re-optimize (ES5-2).",
        ));
        proof {
            acc = acc.push((DiagnosisCode::FingerprintMismatch, stale_note()));
        }
    }
    if !p.gates_passed {
        note(&mut codes, &mut recs, DiagnosisCode::GatesFailed, String::from_str(
            "Active profile did not pass gates at creation.",
        ));
        proof {
            acc = acc.push((DiagnosisCode::GatesFailed, gates_note()));
        }
    }
    let mut measured = false;
    if let Some(l) = live {
        if let Some(g) = &l.gpu_share {
            measured = true;
            if g.below_full {
                let mut m = String::from_str("Model is CPU-offloaded (");
                push_str(&mut m, g.percent_text.as_str());
                push_str(
                    &mut m,
                    "% on GPU). Release the spilled allocation and retry a fully GPU-resident configuration.",
                );
                note(&mut codes, &mut recs, DiagnosisCode::DegradedPlacement, m);
                proof {
                    acc = acc.push((DiagnosisCode::DegradedPlacement, offload_note(g.percent_text@)));
                }
            }
        }
        if !ollama_model_matches(l.resident_model.as_str(), p.recipe.estate_model.as_str()) {
            let mut m = String::from_str("Expected resident `");
            push_str(&mut m, p.recipe.estate_model.as_str());
            push_str(&mut m, "`, live `");
            push_str(&mut m, l.resident_model.as_str());
            push_str(&mut m, "`.");
            note(&mut codes, &mut recs, DiagnosisCode::ResidentModelMismatch, m);
            proof {
                acc = acc.push(
                    (
                        DiagnosisCode::ResidentModelMismatch,
                        resident_note(p.recipe.estate_model@, l.resident_model@),
                    ),
                );
            }
        }
    }
    assert(acc =~= fs);
    assert(codes@ =~= fs.map_values(|f: (DiagnosisCode, Seq<char>)| f.0));
    assert(views_of(recs@) =~= fs.map_values(|f: (DiagnosisCode, Seq<char>)| f.1));
    let status = if codes.len() > 0 {
        CapacityDoctorStatus::Degraded
    } else if !measured {
        CapacityDoctorStatus::Unknown
    } else {
        CapacityDoctorStatus::Healthy
    };
    let mut summary = String::from_str("Profile `");
    push_str(&mut summary, p.label.as_str());
    match status {
        CapacityDoctorStatus::Healthy => {
            push_str(&mut summary, "` healthy — ");
            let hs = hardware_summary(live_hw);
            push_str(&mut summary, hs.as_str());
        },
        CapacityDoctorStatus::Degraded => {
            push_str(&mut summary, "` degraded — ");
            assert(recs@.len() > 0);
            assert(views_of(recs@)[0] == recs@[0]@);
            push_str(&mut summary, recs[0].as_str());
        },
        _ => {
            push_str(&mut summary, "` — could not read live Ollama placement");
        },
    }
    CapacityDiagnosis { status, codes, summary, recommendations: recs }
}

/// The diagnosis when the worker's database cannot be opened.
pub fn worker_db_unavailable() -> (r: CapacityDiagnosis)
    ensures
        r.status == CapacityDoctorStatus::NoProfile,
        r.codes@.len() == 0,
        r.summary@ == "worker.db unavailable"@,
        r.recommendations@.len() == 0,
{
    CapacityDiagnosis {
        status: CapacityDoctorStatus::NoProfile,
        codes: Vec::new(),
        summary: String::from_str("worker.db unavailable"),
        recommendations: Vec::new(),
    }
}

} // verus!
