//! Image tags and the retention selector.
//!
//! `select` is the first stage of a sweep: given the tags of one
//! repository and the retention cutoff, it keeps exactly the tags pushed
//! at or before the cutoff, in their input order. A push time that does
//! not parse is a fatal error for the repository's sweep, not a tag to
//! skip: it signals a registry contract violation.

use vstd::prelude::*;
use crate::common::{Label, Signature};
use crate::timestamp::{parse_time, spec_parse_timestamp, Timestamp};

verus! {

/// A tag record as the registry reports it, with its push time still a
/// raw string.
#[derive(Debug)]
pub struct Tag {
    pub name: String,
    pub author: String,
    pub docker_version: String,
    pub created: String,
    pub architecture: String,
    pub os: String,
    pub digest: String,
    pub size: u64,
    pub signature: Option<Signature>,
    pub labels: Vec<Label>,
    pub push_time: String,
    pub pull_time: String,
    pub os_version: Option<String>,
}

/// A push time that could not be parsed, naming the offending tag.
#[derive(Debug)]
pub struct SelectError {
    /// Position of the offending tag in the input.
    pub index: usize,
    /// Name of the offending tag.
    pub tag_name: String,
}

/// A tag is eligible for deletion when its push time parses and lies at
/// or before the cutoff (the boundary is inclusive).
pub open spec fn eligible(t: Tag, cutoff: Timestamp) -> bool {
    match spec_parse_timestamp(t.push_time@) {
        Some(ts) => ts.spec_le(cutoff),
        None => false,
    }
}

/// Exactly the eligible tags, in input order.
pub open spec fn spec_select(tags: Seq<Tag>, cutoff: Timestamp) -> Seq<Tag> {
    tags.filter(|t: Tag| eligible(t, cutoff))
}

/// Every push time in the sequence parses.
pub open spec fn all_push_times_parse(tags: Seq<Tag>) -> bool {
    forall|i: int| 0 <= i < tags.len() ==> spec_parse_timestamp(#[trigger] tags[i].push_time@) is Some
}

/// A tag pushed exactly at the cutoff instant is eligible: the boundary
/// is inclusive.
pub proof fn lemma_cutoff_boundary_inclusive(t: Tag, cutoff: Timestamp)
    requires
        spec_parse_timestamp(t.push_time@) == Some(cutoff),
    ensures
        eligible(t, cutoff),
{
}

/// `spec_select` returns exactly the subset of eligible tags: every
/// eligible tag of the input is kept, and everything kept came from the
/// input and is eligible.
pub proof fn lemma_select_exact(tags: Seq<Tag>, cutoff: Timestamp)
    ensures
        forall|i: int|
            0 <= i < tags.len() && eligible(#[trigger] tags[i], cutoff) ==> spec_select(
                tags,
                cutoff,
            ).contains(tags[i]),
        forall|j: int|
            0 <= j < spec_select(tags, cutoff).len() ==> tags.contains(
                #[trigger] spec_select(tags, cutoff)[j],
            ) && eligible(spec_select(tags, cutoff)[j], cutoff),
        spec_select(tags, cutoff).len() <= tags.len(),
{
    let pred = |t: Tag| eligible(t, cutoff);
    tags.lemma_filter_len(pred);
    assert forall|i: int|
        0 <= i < tags.len() && eligible(#[trigger] tags[i], cutoff) implies spec_select(
        tags,
        cutoff,
    ).contains(tags[i]) by {
        tags.lemma_filter_contains(pred, i);
    }
    assert forall|j: int| 0 <= j < spec_select(tags, cutoff).len() implies tags.contains(
        #[trigger] spec_select(tags, cutoff)[j],
    ) && eligible(spec_select(tags, cutoff)[j], cutoff) by {
        tags.lemma_filter_pred(pred, j);
        assert(spec_select(tags, cutoff).contains(spec_select(tags, cutoff)[j]));
        tags.lemma_filter_contains_rev(pred, spec_select(tags, cutoff)[j]);
    }
}

/// Selecting over one more tag keeps the selection and appends the tag
/// exactly when it is eligible.
proof fn lemma_select_step(prefix: Seq<Tag>, t: Tag, cutoff: Timestamp)
    ensures
        spec_select(prefix.push(t), cutoff) == if eligible(t, cutoff) {
            spec_select(prefix, cutoff).push(t)
        } else {
            spec_select(prefix, cutoff)
        },
{
    let pred = |x: Tag| eligible(x, cutoff);
    assert(prefix.push(t) =~= prefix + seq![t]);
    Seq::<Tag>::filter_distributes_over_add(prefix, seq![t], pred);
    reveal(Seq::filter);
    assert(seq![t].drop_last() =~= Seq::<Tag>::empty());
    assert(Seq::<Tag>::empty().filter(pred) =~= Seq::<Tag>::empty());
    assert(seq![t].last() == t);
    if eligible(t, cutoff) {
        assert(seq![t].filter(pred) =~= seq![t]);
        assert(spec_select(prefix, cutoff) + seq![t] =~= spec_select(prefix, cutoff).push(t));
    } else {
        assert(seq![t].filter(pred) =~= Seq::<Tag>::empty());
        assert(spec_select(prefix, cutoff) + Seq::<Tag>::empty() =~= spec_select(prefix, cutoff));
    }
}

/// Keeps exactly the tags pushed at or before `cutoff`, in input order.
///
/// Fails on the first tag whose push time does not parse, naming it; in
/// that case nothing is reported deleted and the repository's sweep must
/// stop before any deletion is issued.
#[verifier::rlimit(50)]
pub fn select(tags: Vec<Tag>, cutoff: &Timestamp) -> (r: Result<Vec<Tag>, SelectError>)
    ensures
        match r {
            Ok(kept) => {
                &&& all_push_times_parse(tags@)
                &&& kept@ == spec_select(tags@, *cutoff)
            },
            Err(e) => {
                &&& 0 <= e.index < tags@.len()
                &&& spec_parse_timestamp(tags@[e.index as int].push_time@) is None
                &&& forall|i: int|
                    0 <= i < e.index ==> spec_parse_timestamp(
                        #[trigger] tags@[i].push_time@,
                    ) is Some
                &&& e.tag_name == tags@[e.index as int].name
            },
        },
{
    let ghost orig = tags@;
    let mut input = tags;
    let n0: usize = input.len();
    assert(orig.len() == n0);
    let mut kept: Vec<Tag> = Vec::new();
    let mut idx: usize = 0;
    while input.len() > 0
        invariant
            orig == tags@,
            orig.len() <= usize::MAX,
            idx + input@.len() == orig.len(),
            input@ == orig.subrange(idx as int, orig.len() as int),
            forall|i: int|
                0 <= i < idx ==> spec_parse_timestamp(#[trigger] orig[i].push_time@) is Some,
            kept@ == spec_select(orig.subrange(0, idx as int), *cutoff),
        decreases input@.len(),
    {
        let tag = input.remove(0);
        assert(tag == orig[idx as int]);
        let ghost prefix = orig.subrange(0, idx as int);
        match parse_time(tag.push_time.as_str()) {
            Ok(ts) => {
                if ts.le(cutoff) {
                    kept.push(tag);
                }
            },
            Err(_) => {
                return Err(SelectError { index: idx, tag_name: tag.name });
            },
        }
        proof {
            lemma_select_step(prefix, orig[idx as int], *cutoff);
            assert(orig.subrange(0, idx + 1) =~= prefix.push(orig[idx as int]));
            assert(kept@ == spec_select(orig.subrange(0, idx + 1), *cutoff));
        }
        idx = idx + 1;
        proof {
            assert(input@ =~= orig.subrange(idx as int, orig.len() as int));
        }
    }
    proof {
        assert(orig.subrange(0, idx as int) =~= orig);
    }
    Ok(kept)
}

} // verus!
