//! The deletion executor's bookkeeping.
//!
//! Deletes are issued one at a time, in selection order, by whoever holds
//! the network; a failure for one tag never aborts the remaining
//! deletions. This module owns the decision logic: pairing each selected
//! tag with the outcome of its delete call and splitting the run into the
//! deleted names and the recorded failures, both in issue order.

use vstd::prelude::*;
use crate::tag::Tag;

verus! {

/// The outcome of one delete call, as reported by the registry gateway.
#[derive(Debug, PartialEq, Eq)]
pub enum DeleteOutcome {
    /// The registry acknowledged the deletion.
    Deleted,
    /// The registry refused or the call failed; the response detail.
    Failed { detail: String },
}

/// The names of the tags whose delete call succeeded, in issue order.
pub open spec fn spec_deleted_names(tags: Seq<Tag>, outs: Seq<DeleteOutcome>) -> Seq<String>
    recommends
        tags.len() == outs.len(),
    decreases tags.len(),
{
    if tags.len() == 0 || tags.len() != outs.len() {
        Seq::empty()
    } else {
        let rest = spec_deleted_names(tags.drop_last(), outs.drop_last());
        if outs.last() is Deleted {
            rest.push(tags.last().name)
        } else {
            rest
        }
    }
}

/// The (name, detail) pairs of the tags whose delete call failed, in
/// issue order.
pub open spec fn spec_deletion_errors(tags: Seq<Tag>, outs: Seq<DeleteOutcome>) -> Seq<
    (String, String),
>
    recommends
        tags.len() == outs.len(),
    decreases tags.len(),
{
    if tags.len() == 0 || tags.len() != outs.len() {
        Seq::empty()
    } else {
        let rest = spec_deletion_errors(tags.drop_last(), outs.drop_last());
        match outs.last() {
            DeleteOutcome::Deleted => rest,
            DeleteOutcome::Failed { detail } => rest.push((tags.last().name, detail)),
        }
    }
}

/// Every tag of a deletion run is accounted for on exactly one side:
/// the deleted names and the recorded failures together number the tags.
pub proof fn lemma_deletions_partition(tags: Seq<Tag>, outs: Seq<DeleteOutcome>)
    requires
        tags.len() == outs.len(),
    ensures
        spec_deleted_names(tags, outs).len() + spec_deletion_errors(tags, outs).len()
            == tags.len(),
    decreases tags.len(),
{
    if tags.len() > 0 {
        lemma_deletions_partition(tags.drop_last(), outs.drop_last());
    }
}

/// Splits a deletion run into deleted names and recorded failures, both
/// in issue order. Every tag is accounted for on exactly one side; a
/// failure leaves the later tags' outcomes intact rather than aborting.
pub fn summarize_deletions(tags: Vec<Tag>, outcomes: Vec<DeleteOutcome>) -> (r: (
    Vec<String>,
    Vec<(String, String)>,
))
    requires
        tags@.len() == outcomes@.len(),
    ensures
        r.0@ == spec_deleted_names(tags@, outcomes@),
        r.1@ == spec_deletion_errors(tags@, outcomes@),
{
    let ghost gtags = tags@;
    let ghost gouts = outcomes@;
    let mut tags_left = tags;
    let mut outs_left = outcomes;
    let n0: usize = tags_left.len();
    assert(gtags.len() == n0);
    let mut deleted: Vec<String> = Vec::new();
    let mut errors: Vec<(String, String)> = Vec::new();
    let mut idx: usize = 0;
    while tags_left.len() > 0
        invariant
            gtags == tags@,
            gouts == outcomes@,
            gtags.len() == gouts.len() <= usize::MAX,
            idx + tags_left@.len() == gtags.len(),
            tags_left@ == gtags.subrange(idx as int, gtags.len() as int),
            outs_left@ == gouts.subrange(idx as int, gouts.len() as int),
            deleted@ == spec_deleted_names(
                gtags.subrange(0, idx as int),
                gouts.subrange(0, idx as int),
            ),
            errors@ == spec_deletion_errors(
                gtags.subrange(0, idx as int),
                gouts.subrange(0, idx as int),
            ),
        decreases tags_left@.len(),
    {
        let tag = tags_left.remove(0);
        let out = outs_left.remove(0);
        assert(tag == gtags[idx as int]);
        assert(out == gouts[idx as int]);
        match out {
            DeleteOutcome::Deleted => {
                deleted.push(tag.name);
            },
            DeleteOutcome::Failed { detail } => {
                errors.push((tag.name, detail));
            },
        }
        proof {
            let tp = gtags.subrange(0, idx + 1);
            let op = gouts.subrange(0, idx + 1);
            assert(tp.drop_last() =~= gtags.subrange(0, idx as int));
            assert(op.drop_last() =~= gouts.subrange(0, idx as int));
            assert(tp.last() == gtags[idx as int]);
            assert(op.last() == gouts[idx as int]);
        }
        idx = idx + 1;
        proof {
            assert(tags_left@ =~= gtags.subrange(idx as int, gtags.len() as int));
            assert(outs_left@ =~= gouts.subrange(idx as int, gouts.len() as int));
        }
    }
    proof {
        assert(gtags.subrange(0, idx as int) =~= gtags);
        assert(gouts.subrange(0, idx as int) =~= gouts);
    }
    (deleted, errors)
}

} // verus!
