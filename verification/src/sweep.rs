//! The sweep coordinator's result type and its assembly.
//!
//! One sweep processes the configured repositories in order, each
//! independently: select the stale tags against the one retention cutoff
//! computed for the whole run, issue the deletions, then schedule and
//! watch a GC run. Deletions always happen strictly before GC is
//! scheduled, and GC is scheduled even when some deletions failed, to
//! reclaim the space of those that succeeded.

use vstd::prelude::*;
use crate::deletion::{
    spec_deleted_names, spec_deletion_errors, summarize_deletions, DeleteOutcome,
};
use crate::gc::{GcFailure, GcState};
use crate::tag::Tag;

verus! {

/// How a repository's GC run ended. Only `Finished` is success;
/// `TimedOut` is reported apart from `Failed` because the job may still
/// be running and needs manual verification rather than a bug report.
#[derive(Debug, PartialEq, Eq)]
pub enum GcOutcome {
    Finished,
    TimedOut,
    Failed { failure: GcFailure },
}

impl GcOutcome {
    /// Only a finished GC run counts as success.
    pub open spec fn spec_is_success(self) -> bool {
        self is Finished
    }

    /// Whether the repository's sweep succeeded.
    pub fn is_success(&self) -> (r: bool)
        ensures
            r == self.spec_is_success(),
    {
        match self {
            GcOutcome::Finished => true,
            GcOutcome::TimedOut => false,
            GcOutcome::Failed { .. } => false,
        }
    }
}

/// The result of one repository's sweep: what was deleted, what failed,
/// and how the GC run ended. Built once, never mutated.
#[derive(Debug)]
pub struct SweepOutcome {
    /// Names of the deleted tags, in deletion order.
    pub deleted_tags: Vec<String>,
    /// (name, detail) for every delete call that failed, in order.
    pub deletion_errors: Vec<(String, String)>,
    /// How the GC run ended.
    pub gc_outcome: GcOutcome,
}

/// The outcome a terminal machine state reports.
pub open spec fn spec_gc_outcome(state: GcState) -> GcOutcome
    recommends
        state.is_terminal(),
{
    match state {
        GcState::Finished => GcOutcome::Finished,
        GcState::TimedOut => GcOutcome::TimedOut,
        GcState::Failed { failure } => GcOutcome::Failed { failure },
        _ => GcOutcome::TimedOut,
    }
}

/// Assembles a repository's sweep outcome from the selected tags, the
/// outcome of each tag's delete call, and the terminal GC state. The
/// deletion record and the GC outcome are kept side by side: deletion
/// failures never suppressed the GC run, and the report shows both.
pub fn sweep_outcome(selected: Vec<Tag>, outcomes: Vec<DeleteOutcome>, gc: GcState) -> (r:
    SweepOutcome)
    requires
        selected@.len() == outcomes@.len(),
        gc.is_terminal(),
    ensures
        r.deleted_tags@ == spec_deleted_names(selected@, outcomes@),
        r.deletion_errors@ == spec_deletion_errors(selected@, outcomes@),
        r.gc_outcome == spec_gc_outcome(gc),
{
    let (deleted, errors) = summarize_deletions(selected, outcomes);
    let gc_outcome = match gc {
        GcState::Finished => GcOutcome::Finished,
        GcState::TimedOut => GcOutcome::TimedOut,
        GcState::Failed { failure } => GcOutcome::Failed { failure },
        _ => GcOutcome::TimedOut,
    };
    SweepOutcome { deleted_tags: deleted, deletion_errors: errors, gc_outcome }
}

} // verus!
