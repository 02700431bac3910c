//! Project-scoped records.

use vstd::prelude::*;

verus! {

/// The webhook job.
#[derive(Debug)]
pub struct WebhookJob {
    /// The webhook job status.
    pub status: String,
    /// The webhook job update time.
    pub update_time: String,
    /// The webhook job event type.
    pub event_type: String,
    /// The webhook job creation time.
    pub creation_time: String,
    /// The webhook job notify detailed data.
    pub job_detail: String,
    /// The webhook job ID.
    pub id: i64,
    /// The webhook job notify type.
    pub notify_type: String,
    /// The webhook policy ID.
    pub policy_id: i64,
}

} // verus!
