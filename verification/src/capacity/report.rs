//! The human-readable capacity report for the CLI and TUI.
use vstd::prelude::*;

use crate::capacity::applier::{base_stem, estate_base_stem};
use crate::capacity::status::{
    doctor_name, doctor_status_name, opt_view, CapacityDiagnosis, CapacityDoctorStatus, CapacityStatus,
};
use crate::text::{chars_eq, chars_of, push_str};

verus! {

/// A chat model is the profile's model when it has the profile's estate tag
/// or base model as its base stem.
pub open spec fn same_model(session: Seq<char>, estate: Option<Seq<char>>, base: Option<Seq<char>>) -> bool {
    (estate is Some && base_stem(session) == base_stem(estate->0)) || (base is Some && base_stem(
        session,
    ) == base_stem(base->0))
}

fn same_stem(a: &str, b: &str) -> (r: bool)
    ensures
        r == (base_stem(a@) == base_stem(b@)),
{
    let x = estate_base_stem(a);
    let y = estate_base_stem(b);
    let xc = chars_of(x.as_str());
    let yc = chars_of(y.as_str());
    chars_eq(xc.as_slice(), yc.as_slice())
}

pub fn session_matches_profile(session: &str, estate: Option<&str>, base: Option<&str>) -> (r: bool)
    ensures
        r == same_model(
            session@,
            match estate {
                Some(e) => Some(e@),
                None => None,
            },
            match base {
                Some(b) => Some(b@),
                None => None,
            },
        ),
{
    let by_estate = match estate {
        Some(e) => same_stem(session, e),
        None => false,
    };
    let by_base = match base {
        Some(b) => same_stem(session, b),
        None => false,
    };
    by_estate || by_base
}

pub open spec fn bool_text(b: bool) -> Seq<char> {
    if b {
        "true"@
    } else {
        "false"@
    }
}

pub open spec fn labeled(label: Seq<char>, v: Option<Seq<char>>) -> Seq<char> {
    match v {
        Some(x) => label + x + "\n"@,
        None => Seq::empty(),
    }
}

pub open spec fn rec_lines(rs: Seq<Seq<char>>) -> Seq<char>
    decreases rs.len(),
{
    if rs.len() == 0 {
        Seq::empty()
    } else {
        rec_lines(rs.drop_last()) + "  → "@ + rs.last() + "\n"@
    }
}

pub open spec fn not_using_note() -> Seq<char> {
    "\nThis session is not using the saved profile model.\n`--model` already selected this chat — you do not need `/optimize` to switch.\nThe profile is only the default when a session omits `--model`.\n"@
}

pub open spec fn doctor_note() -> Seq<char> {
    "Doctor is describing the *profile default*, not this chat.\n"@
}

pub open spec fn gates_note() -> Seq<char> {
    "\nThe saved profile for this model failed capacity gates.\nChat will still try; inference aborts only if this model spills out of VRAM.\n"@
}

pub open spec fn head_text(st: CapacityStatus, sess: Option<Seq<char>>, same: bool) -> Seq<char> {
    let model = opt_view(st.profile_model);
    match sess {
        Some(s) => "This chat:        "@ + s + "\n"@ + match model {
            Some(e) => "Profile default:  "@ + e + if same {
                "  (same model)\n"@
            } else {
                "\n"@
            },
            None => "Profile default:  (none)\n"@,
        },
        None => labeled("Profile model:    "@, model),
    }
}

pub open spec fn line(label: Seq<char>, value: Seq<char>) -> Seq<char> {
    label + value + "\n"@
}

pub open spec fn flags_text(st: CapacityStatus) -> Seq<char> {
    "\nCapacity profile:\n"@ + line("  completed: "@, bool_text(st.completed)) + line(
        "  doctor:    "@,
        doctor_name(st.doctor),
    ) + line("  stale:     "@, bool_text(st.stale)) + line("  gates_ok:  "@, bool_text(st.gates_ok))
}

pub open spec fn ids_text(st: CapacityStatus) -> Seq<char> {
    labeled("  profile:   "@, opt_view(st.active_profile_id)) + labeled(
        "  label:     "@,
        opt_view(st.active_profile_label),
    ) + labeled("  hardware:  "@, opt_view(st.hardware_summary)) + labeled(
        "  since:     "@,
        opt_view(st.last_setup_at),
    )
}

pub open spec fn body_text(st: CapacityStatus) -> Seq<char> {
    flags_text(st) + ids_text(st)
}

pub open spec fn findings_text(diag: Option<(Seq<char>, Seq<Seq<char>>)>) -> Seq<char> {
    match diag {
        Some((summary, recs)) => "\n"@ + summary + "\n"@ + rec_lines(recs),
        None => Seq::empty(),
    }
}

pub open spec fn tail_text(st: CapacityStatus, has_session: bool, same: bool) -> Seq<char> {
    if has_session {
        if !same && st.profile_model is Some {
            not_using_note() + if st.doctor == CapacityDoctorStatus::Degraded || st.doctor
                == CapacityDoctorStatus::Unknown {
                doctor_note()
            } else {
                Seq::empty()
            }
        } else if !st.gates_ok && same {
            gates_note()
        } else {
            Seq::empty()
        }
    } else {
        Seq::empty()
    }
}

/// The report: which model this chat uses against the profile default, the
/// profile's state, the doctor's findings, and a note when the chat and the
/// profile disagree or the profile failed its gates.
pub open spec fn report_text(st: CapacityStatus, diag: Option<(Seq<char>, Seq<Seq<char>>)>, session: Option<Seq<char>>) -> Seq<char> {
    let sess = match session {
        Some(s) => if s.len() > 0 {
            Some(s)
        } else {
            None
        },
        None => None,
    };
    let same = match sess {
        Some(s) => same_model(s, opt_view(st.profile_model), opt_view(st.profile_base_model)),
        None => false,
    };
    head_text(st, sess, same) + body_text(st) + findings_text(diag) + tail_text(st, sess is Some, same)
}

fn push_labeled(s: &mut String, label: &str, v: &Option<String>)
    ensures
        final(s)@ == old(s)@ + labeled(label@, opt_view(*v)),
{
    match v {
        Some(x) => {
            push_str(s, label);
            push_str(s, x.as_str());
            push_str(s, "\n");
            assert(s@ =~= old(s)@ + labeled(label@, opt_view(*v)));
        },
        None => {
            assert(s@ =~= old(s)@ + labeled(label@, opt_view(*v)));
        },
    }
}

fn push_head(out: &mut String, status: &CapacityStatus, sess: Option<&str>, same: bool)
    ensures
        final(out)@ == old(out)@ + head_text(
            *status,
            match sess {
                Some(s) => Some(s@),
                None => None,
            },
            same,
        ),
{
    match sess {
        Some(s) => {
            push_str(out, "This chat:        ");
            push_str(out, s);
            push_str(out, "\n");
            let ghost mid = out@;
            match &status.profile_model {
                Some(e) => {
                    push_str(out, "Profile default:  ");
                    push_str(out, e.as_str());
                    if same {
                        push_str(out, "  (same model)\n");
                    } else {
                        push_str(out, "\n");
                    }
                },
                None => push_str(out, "Profile default:  (none)\n"),
            }
            assert(out@ =~= old(out)@ + head_text(*status, Some(s@), same));
        },
        None => push_labeled(out, "Profile model:    ", &status.profile_model),
    }
}

fn push_body(out: &mut String, status: &CapacityStatus)
    ensures
        final(out)@ == old(out)@ + body_text(*status),
{
    push_flags(out, status);
    let ghost mid = out@;
    push_labeled(out, "  profile:   ", &status.active_profile_id);
    push_labeled(out, "  label:     ", &status.active_profile_label);
    push_labeled(out, "  hardware:  ", &status.hardware_summary);
    push_labeled(out, "  since:     ", &status.last_setup_at);
    assert(out@ =~= mid + ids_text(*status));
    assert(out@ =~= old(out)@ + body_text(*status));
}

fn push_line(out: &mut String, label: &str, value: &str)
    ensures
        final(out)@ == old(out)@ + line(label@, value@),
{
    push_str(out, label);
    push_str(out, value);
    push_str(out, "\n");
    assert(out@ =~= old(out)@ + line(label@, value@));
}

fn bool_str(b: bool) -> (r: &'static str)
    ensures
        r@ == bool_text(b),
{
    if b {
        "true"
    } else {
        "false"
    }
}

fn push_flags(out: &mut String, status: &CapacityStatus)
    ensures
        final(out)@ == old(out)@ + flags_text(*status),
{
    push_str(out, "\nCapacity profile:\n");
    let ghost a = out@;
    push_line(out, "  completed: ", bool_str(status.completed));
    let ghost b = out@;
    push_line(out, "  doctor:    ", doctor_status_name(status.doctor));
    let ghost c = out@;
    push_line(out, "  stale:     ", bool_str(status.stale));
    let ghost d = out@;
    push_line(out, "  gates_ok:  ", bool_str(status.gates_ok));
    assert(out@ =~= old(out)@ + flags_text(*status));
}

fn push_findings(out: &mut String, diagnosis: Option<&CapacityDiagnosis>)
    ensures
        final(out)@ == old(out)@ + findings_text(
            match diagnosis {
                Some(d) => Some((d.summary@, d.recommendations@.map_values(|x: String| x@))),
                None => None,
            },
        ),
{
    if let Some(d) = diagnosis {
        push_str(out, "\n");
        push_str(out, d.summary.as_str());
        push_str(out, "\n");
        let ghost start = out@;
        let ghost rs = d.recommendations@.map_values(|x: String| x@);
        let mut i: usize = 0;
        while i < d.recommendations.len()
            invariant
                i <= d.recommendations@.len(),
                rs == d.recommendations@.map_values(|x: String| x@),
                out@ == start + rec_lines(rs.take(i as int)),
            decreases d.recommendations.len() - i,
        {
            assert(rs.take(i + 1).drop_last() =~= rs.take(i as int));
            push_str(out, "  → ");
            push_str(out, d.recommendations[i].as_str());
            push_str(out, "\n");
            assert(out@ =~= start + rec_lines(rs.take(i + 1)));
            i = i + 1;
        }
        assert(rs.take(rs.len() as int) =~= rs);
        assert(out@ =~= old(out)@ + findings_text(Some((d.summary@, rs))));
    } else {
        assert(out@ =~= old(out)@ + findings_text(None));
    }
}

fn push_tail(out: &mut String, status: &CapacityStatus, has_session: bool, same: bool)
    ensures
        final(out)@ == old(out)@ + tail_text(*status, has_session, same),
{
    if has_session {
        if !same && status.profile_model.is_some() {
            push_str(
                out,
                "\nThis session is not using the saved profile model.\n`--model` already selected this chat — you do not need `/optimize` to switch.\nThe profile is only the default when a session omits `--model`.\n",
            );
            match status.doctor {
                CapacityDoctorStatus::Degraded | CapacityDoctorStatus::Unknown => {
                    push_str(out, "Doctor is describing the *profile default*, not this chat.\n");
                },
                _ => {},
            }
            assert(out@ =~= old(out)@ + tail_text(*status, has_session, same));
        } else if !status.gates_ok && same {
            push_str(
                out,
                "\nThe saved profile for this model failed capacity gates.\nChat will still try; inference aborts only if this model spills out of VRAM.\n",
            );
        } else {
            assert(out@ =~= old(out)@ + tail_text(*status, has_session, same));
        }
    } else {
        assert(out@ =~= old(out)@ + tail_text(*status, has_session, same));
    }
}

/// Session-aware doctor and capacity text. `session_model` is this chat's `--model`.
pub fn format_capacity_report(
    status: &CapacityStatus,
    diagnosis: Option<&CapacityDiagnosis>,
    session_model: Option<&str>,
) -> (r: String)
    ensures
        r@ == report_text(
            *status,
            match diagnosis {
                Some(d) => Some((d.summary@, d.recommendations@.map_values(|x: String| x@))),
                None => None,
            },
            match session_model {
                Some(s) => Some(s@),
                None => None,
            },
        ),
{
    let sess: Option<&str> = match session_model {
        Some(s) => if !s.is_empty() {
            Some(s)
        } else {
            None
        },
        None => None,
    };
    let same = match sess {
        Some(s) => session_matches_profile(
            s,
            match &status.profile_model {
                Some(m) => Some(m.as_str()),
                None => None,
            },
            match &status.profile_base_model {
                Some(b) => Some(b.as_str()),
                None => None,
            },
        ),
        None => false,
    };
    let mut out = String::new();
    push_head(&mut out, status, sess, same);
    push_body(&mut out, status);
    push_findings(&mut out, diagnosis);
    push_tail(&mut out, status, sess.is_some(), same);
    assert(out@ =~= Seq::<char>::empty() + head_text(
        *status,
        match sess {
            Some(s) => Some(s@),
            None => None,
        },
        same,
    ) + body_text(*status) + findings_text(
        match diagnosis {
            Some(d) => Some((d.summary@, d.recommendations@.map_values(|x: String| x@))),
            None => None,
        },
    ) + tail_text(*status, sess.is_some(), same));
    out
}

} // verus!
