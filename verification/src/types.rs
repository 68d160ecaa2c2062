//! Plain records that the dashboard computes and reports.
use vstd::prelude::*;

verus! {

/// Totals over the API call log of one time window.
#[derive(Clone, Copy, Debug, PartialEq, Eq, Structural, Default)]
pub struct CoreStats {
    pub api_calls: i64,
    pub input_tokens: i64,
    pub output_tokens: i64,
    pub sessions: i64,
}

/// Calls and tokens that fell into one time slot of a chart.
#[derive(Clone, Copy, Debug, PartialEq, Eq, Structural)]
pub struct Bucket {
    pub api_calls: i64,
    pub tokens: i64,
}

/// All-time totals of one model.
#[derive(Clone, Copy, Debug, PartialEq, Eq, Structural)]
pub struct ModelSummary {
    pub api_calls: i64,
    pub input_tokens: i64,
    pub output_tokens: i64,
    pub cache_read_tokens: i64,
    pub cache_write_tokens: i64,
    pub reasoning_tokens: i64,
    pub sessions: i64,
    pub total_tokens: i64,
}

/// One row of the API call log: when it was written (whole seconds since
/// the epoch), how many calls it counts and how many tokens they used.
#[derive(Clone, Copy, Debug, PartialEq, Eq, Structural)]
pub struct UsageRow {
    pub timestamp: i64,
    pub api_calls: i64,
    pub tokens: i64,
}

/// The reply of the session-management endpoints.
#[derive(Clone, Debug, PartialEq, Eq)]
pub struct StatusResponse {
    pub status: String,
    pub message: String,
    pub session_id: Option<String>,
    pub stopped_count: Option<i64>,
    pub kept_session: Option<String>,
    pub updated_count: Option<i64>,
    pub old_sessions_count: Option<i64>,
    pub note: Option<String>,
}

} // verus!
