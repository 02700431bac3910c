use harbor_rs::deletion::{summarize_deletions, DeleteOutcome};
use harbor_rs::gc::{
    resolve_gc, GCResult, GcState, PollResponse, Schedule, ScheduleResponse,
};
use harbor_rs::sweep::{sweep_outcome, GcOutcome};
use harbor_rs::tag::{select, Tag};
use harbor_rs::timestamp::parse_time;

fn tag(name: &str, push_time: &str) -> Tag {
    Tag {
        name: name.to_string(),
        author: String::new(),
        docker_version: String::new(),
        created: String::new(),
        architecture: String::new(),
        os: String::new(),
        digest: String::new(),
        size: 0,
        signature: None,
        labels: vec![],
        push_time: push_time.to_string(),
        pull_time: String::new(),
        os_version: None,
    }
}

fn finished_poll() -> PollResponse {
    PollResponse::Jobs {
        jobs: vec![GCResult {
            job_status: "finished".to_string(),
            update_time: String::new(),
            schedule: Schedule::manual(),
            deleted: false,
            job_kind: "MANUAL".to_string(),
            creation_time: String::new(),
            id: 7,
            job_name: "GARBAGE_COLLECTION".to_string(),
        }],
    }
}

#[test]
fn deletion_failure_does_not_abort_the_rest() {
    // Three tags; the second delete call fails.
    let tags = vec![
        tag("v1", "2021-11-01T00:00:00Z"),
        tag("v2", "2021-11-02T00:00:00Z"),
        tag("v3", "2021-11-03T00:00:00Z"),
    ];
    let outcomes = vec![
        DeleteOutcome::Deleted,
        DeleteOutcome::Failed { detail: "500 internal".to_string() },
        DeleteOutcome::Deleted,
    ];
    let (deleted, errors) = summarize_deletions(tags, outcomes);
    assert_eq!(deleted, vec!["v1".to_string(), "v3".to_string()]);
    assert_eq!(errors, vec![("v2".to_string(), "500 internal".to_string())]);

    // GC scheduling is still attempted afterward, and the outcome keeps
    // the deletion errors side by side with the GC result.
    let (gc, polls_used) = resolve_gc(ScheduleResponse::Created, vec![finished_poll()]);
    assert_eq!(polls_used, 1);
    let tags = vec![
        tag("v1", "2021-11-01T00:00:00Z"),
        tag("v2", "2021-11-02T00:00:00Z"),
        tag("v3", "2021-11-03T00:00:00Z"),
    ];
    let outcomes = vec![
        DeleteOutcome::Deleted,
        DeleteOutcome::Failed { detail: "500 internal".to_string() },
        DeleteOutcome::Deleted,
    ];
    let outcome = sweep_outcome(tags, outcomes, gc);
    assert_eq!(outcome.deleted_tags, vec!["v1".to_string(), "v3".to_string()]);
    assert_eq!(
        outcome.deletion_errors,
        vec![("v2".to_string(), "500 internal".to_string())]
    );
    assert_eq!(outcome.gc_outcome, GcOutcome::Finished);
    assert!(outcome.gc_outcome.is_success());
}

#[test]
fn end_to_end_demo_app_sweep() {
    // Repository "demo/app", retention window 30 days, "now" fixed.
    let _repository = "demo/app";
    let now = parse_time("2024-06-30T12:00:00Z").unwrap();
    let cutoff = now.minus_days(30).unwrap();
    assert_eq!(cutoff.format_second_precision(), "2024-05-31 12:00:00");

    // Tag A pushed 40 days ago, tag B pushed 5 days ago.
    let tags = vec![
        tag("A", "2024-05-21T12:00:00Z"),
        tag("B", "2024-06-25T12:00:00Z"),
    ];
    let selected = select(tags, &cutoff).unwrap();
    let selected_names: Vec<String> = selected.iter().map(|t| t.name.clone()).collect();
    assert_eq!(selected_names, vec!["A".to_string()]);

    // A's deletion succeeds; GC finishes on the first poll.
    let outcomes = vec![DeleteOutcome::Deleted];
    let (gc, polls_used) = resolve_gc(ScheduleResponse::Created, vec![finished_poll()]);
    assert_eq!(polls_used, 1);
    let outcome = sweep_outcome(selected, outcomes, gc);
    assert_eq!(outcome.deleted_tags, vec!["A".to_string()]);
    assert!(outcome.deletion_errors.is_empty());
    assert_eq!(outcome.gc_outcome, GcOutcome::Finished);
}

#[test]
fn timed_out_and_failed_are_reported_apart() {
    let running: Vec<PollResponse> = (0..100)
        .map(|_| PollResponse::Jobs {
            jobs: vec![GCResult {
                job_status: "running".to_string(),
                update_time: String::new(),
                schedule: Schedule::manual(),
                deleted: false,
                job_kind: "MANUAL".to_string(),
                creation_time: String::new(),
                id: 7,
                job_name: "GARBAGE_COLLECTION".to_string(),
            }],
        })
        .collect();
    let (gc, _) = resolve_gc(ScheduleResponse::Created, running);
    let outcome = sweep_outcome(Vec::new(), Vec::new(), gc);
    assert_eq!(outcome.gc_outcome, GcOutcome::TimedOut);
    assert!(!outcome.gc_outcome.is_success());

    let (gc, _) = resolve_gc(
        ScheduleResponse::Rejected { detail: "403 forbidden".to_string() },
        Vec::new(),
    );
    let outcome = sweep_outcome(Vec::new(), Vec::new(), gc);
    assert!(matches!(outcome.gc_outcome, GcOutcome::Failed { .. }));
    assert!(!outcome.gc_outcome.is_success());
}
