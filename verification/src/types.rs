//! Domain records shared by the tool layer, the scheduler and the agent
//! loop.
use crate::text::owned;
use vstd::prelude::*;

verus! {

/// One job printed by a per-company script.
#[derive(Clone, Debug)]
pub struct RawJob {
    pub external_id: String,
    pub title: String,
    pub url: String,
    pub location: Option<Vec<String>>,
    pub posted_at: Option<String>,
    pub description: Option<String>,
}

/// A job already recorded for a company.
#[derive(Clone, Debug)]
pub struct JobSummary {
    pub external_id: String,
    pub title: String,
    pub url: String,
    pub first_seen_at: String,
}

/// Deny and allow lists applied to every script run.
#[derive(Clone, Debug)]
pub struct Filters {
    pub title_deny: Vec<String>,
    pub location_allow_countries: Vec<String>,
    pub require_remote_or_locations: Vec<String>,
    pub clearance_deny: Vec<String>,
}

impl Default for Filters {
    /// No constraints: every list empty.
    fn default() -> (f: Filters)
        ensures
            f.title_deny@.len() == 0,
            f.location_allow_countries@.len() == 0,
            f.require_remote_or_locations@.len() == 0,
            f.clearance_deny@.len() == 0,
    {
        Filters {
            title_deny: Vec::new(),
            location_allow_countries: Vec::new(),
            require_remote_or_locations: Vec::new(),
            clearance_deny: Vec::new(),
        }
    }
}

/// One row of the `runs` audit table.
#[derive(Clone, Debug)]
pub struct RunResult {
    pub started_at: String,
    pub finished_at: Option<String>,
    pub exit_code: Option<i32>,
    pub new_job_count: Option<i64>,
    pub stderr_tail: Option<String>,
    pub error: Option<String>,
}

/// One row of the `token_usage` audit table.
#[derive(Clone, Debug)]
pub struct TokenUsage {
    pub occurred_at: String,
    pub provider: String,
    pub model: Option<String>,
    pub purpose: String,
    pub input_tokens: Option<i64>,
    pub output_tokens: Option<i64>,
    pub company_tag: Option<String>,
}

/// The view of an optional string.
pub open spec fn opt_string_view(v: Option<String>) -> Option<Seq<char>> {
    match v {
        Some(s) => Some(s@),
        None => None,
    }
}

/// The audit row for a driver invocation that consumed `input` and
/// `output` tokens; none when nothing was consumed. Token counts are
/// stored as signed 64-bit integers, as the audit table holds them.
pub fn usage_record(
    occurred_at: String,
    provider: &str,
    model: Option<String>,
    purpose: &str,
    input: u64,
    output: u64,
) -> (r: Option<TokenUsage>)
    ensures
        r.is_none() <==> (input == 0 && output == 0),
        r matches Some(u) ==> {
            &&& u.occurred_at@ == occurred_at@
            &&& u.provider@ == provider@
            &&& opt_string_view(u.model) == opt_string_view(model)
            &&& u.purpose@ == purpose@
            &&& u.input_tokens == Some(input as i64)
            &&& u.output_tokens == Some(output as i64)
            &&& u.company_tag.is_none()
        },
{
    if input == 0 && output == 0 {
        return None;
    }
    Some(TokenUsage {
        occurred_at,
        provider: owned(provider),
        model,
        purpose: owned(purpose),
        input_tokens: Some(input as i64),
        output_tokens: Some(output as i64),
        company_tag: None,
    })
}

} // verus!
