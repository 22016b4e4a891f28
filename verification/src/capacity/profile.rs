//! Runtime profile types: the hardware a profile was made on and the recipe
//! it runs inference with.
use vstd::prelude::*;

use crate::text::{chars_of, decimal, parse_usize, parse_usize_chars, push_decimal, push_str};

verus! {

pub const SCHEMA_VERSION: u32 = 1;

/// Node id of the local machine in capacity bindings.
pub const LOCAL_NODE_ID: &'static str = "local";

#[derive(Debug, Clone, Copy, PartialEq, Eq, Structural)]
pub enum TierRole {
    Coder,
    Fast,
    Hard,
    Embed,
}

#[derive(Debug, Clone, Copy, PartialEq, Eq, Structural)]
pub enum ProfileSource {
    Setup,
    Reoptimize,
    Manual,
    Import,
}

#[derive(Debug, Clone, Copy, PartialEq, Eq, Structural)]
pub enum GpuRole {
    Compute,
    Display,
    Unknown,
}

impl Default for GpuRole {
    fn default() -> (r: Self)
        ensures
            r == GpuRole::Unknown,
    {
        GpuRole::Unknown
    }
}

#[derive(Debug)]
pub struct GpuInfo {
    pub name: String,
    pub uuid: Option<String>,
    pub bus_id: Option<String>,
    pub vram_total_mb: u32,
    pub role: GpuRole,
}

#[derive(Debug)]
pub struct HardwareSnapshot {
    pub fingerprint: String,
    pub gpus: Vec<GpuInfo>,
    pub cpu_cores: u32,
    pub ram_mb: u64,
    pub os: String,
    pub ollama_version: Option<String>,
}

#[derive(Debug)]
pub struct EnvHint {
    pub name: String,
    pub value: String,
    /// Always false in persisted profiles — documentation only.
    pub apply: bool,
    pub rationale: Option<String>,
}

#[derive(Debug)]
pub struct InferenceRecipe {
    pub base_model: String,
    pub estate_model: String,
    pub num_ctx: u32,
    pub num_gpu: Option<u32>,
    pub keep_alive: String,
    pub modelfile_path: Option<String>,
    pub env_hints: Vec<EnvHint>,
    /// Configured speculative draft model.
    pub draft_model: Option<String>,
    /// Number of speculative tokens to generate per forward pass.
    pub draft_count: Option<u32>,
}

/// Keep-alive of a recipe that does not name one.
pub fn default_keep_alive() -> (r: String)
    ensures
        r@ == "30m"@,
{
    String::from_str("30m")
}

/// Session defaults resolved from the active profile binding.
#[derive(Debug)]
pub struct InferenceDefaults {
    pub model_fast: String,
    pub model_hard: String,
    pub num_ctx: u32,
    pub profile_id: Option<String>,
    pub profile_label: Option<String>,
    pub draft_model: Option<String>,
    pub draft_count: Option<u32>,
}

/// A saved runtime profile as the library reads it. Its measured placement and
/// bench metrics are floating point and stay with the host.
#[derive(Debug)]
pub struct RuntimeProfile {
    pub schema_version: u32,
    pub id: String,
    pub label: String,
    /// Creation time, in ms since the Unix epoch.
    pub created_at_ms: i64,
    pub node_id: String,
    pub role: TierRole,
    pub source: ProfileSource,
    pub hardware: HardwareSnapshot,
    pub recipe: InferenceRecipe,
    pub gates_passed: bool,
}

/// Why a profile is not loadable, checked in this order.
pub open spec fn schema_problem(p: RuntimeProfile) -> Option<Seq<char>> {
    if p.schema_version != SCHEMA_VERSION {
        Some("unsupported schema_version "@ + decimal(p.schema_version as nat) + " (want "@ + decimal(
            SCHEMA_VERSION as nat,
        ) + ")"@)
    } else if p.id@.len() == 0 {
        Some("profile id required"@)
    } else if p.recipe.estate_model@.len() == 0 {
        Some("recipe.estate_model required"@)
    } else {
        None
    }
}

impl RuntimeProfile {
    /// Accept a profile of this schema version with an id and an estate model.
    pub fn validate_schema(&self) -> (r: Result<(), String>)
        ensures
            match r {
                Ok(()) => schema_problem(*self) is None,
                Err(m) => schema_problem(*self) == Some(m@),
            },
    {
        if self.schema_version != SCHEMA_VERSION {
            let mut m = String::from_str("unsupported schema_version ");
            push_decimal(&mut m, self.schema_version as u128);
            push_str(&mut m, " (want ");
            push_decimal(&mut m, SCHEMA_VERSION as u128);
            push_str(&mut m, ")");
            return Err(m);
        }
        if self.id.as_str().is_empty() {
            return Err(String::from_str("profile id required"));
        }
        if self.recipe.estate_model.as_str().is_empty() {
            return Err(String::from_str("recipe.estate_model required"));
        }
        Ok(())
    }
}

pub open spec fn opt_text(s: Option<String>) -> Option<Seq<char>> {
    match s {
        Some(t) => Some(t@),
        None => None,
    }
}

fn copy_opt(s: &Option<String>) -> (r: Option<String>)
    ensures
        opt_text(r) == opt_text(*s),
{
    match s {
        Some(t) => Some(t.clone()),
        None => None,
    }
}

impl InferenceDefaults {
    /// Session defaults of a profile: its estate model for fast and hard work.
    pub fn from_profile(profile: &RuntimeProfile) -> (r: InferenceDefaults)
        ensures
            r.model_fast@ == profile.recipe.estate_model@,
            r.model_hard@ == profile.recipe.estate_model@,
            r.num_ctx == profile.recipe.num_ctx,
            opt_text(r.profile_id) == Some(profile.id@),
            opt_text(r.profile_label) == Some(profile.label@),
            opt_text(r.draft_model) == opt_text(profile.recipe.draft_model),
            r.draft_count == profile.recipe.draft_count,
    {
        InferenceDefaults {
            model_fast: profile.recipe.estate_model.clone(),
            model_hard: profile.recipe.estate_model.clone(),
            num_ctx: profile.recipe.num_ctx,
            profile_id: Some(profile.id.clone()),
            profile_label: Some(profile.label.clone()),
            draft_model: copy_opt(&profile.recipe.draft_model),
            draft_count: profile.recipe.draft_count,
        }
    }

    /// Defaults without a profile: `model` for both tiers, an 8192-token context,
    /// and the draft settings given (a draft count that is not a `u32` is dropped).
    pub fn fallback_from(model: &str, draft_model: Option<String>, draft_count: Option<&str>) -> (r: InferenceDefaults)
        ensures
            r.model_fast@ == model@,
            r.model_hard@ == model@,
            r.num_ctx == 8192,
            r.profile_id is None,
            r.profile_label is None,
            opt_text(r.draft_model) == opt_text(draft_model),
            match draft_count {
                Some(t) => match parse_usize(t@) {
                    Some(v) => if v <= u32::MAX {
                        r.draft_count == Some(v as u32)
                    } else {
                        r.draft_count is None
                    },
                    None => r.draft_count is None,
                },
                None => r.draft_count is None,
            },
    {
        let count = match draft_count {
            Some(t) => {
                let c = chars_of(t);
                match parse_usize_chars(c.as_slice()) {
                    Some(v) => if v <= u32::MAX as usize {
                        Some(v as u32)
                    } else {
                        None
                    },
                    None => None,
                }
            },
            None => None,
        };
        InferenceDefaults {
            model_fast: String::from_str(model),
            model_hard: String::from_str(model),
            num_ctx: 8192,
            profile_id: None,
            profile_label: None,
            draft_model,
            draft_count: count,
        }
    }
}

} // verus!
