use harbor_rs::gc::{
    resolve_gc, GcAction, GcFailure, GcState, GCResult, PollResponse, Schedule, ScheduleResponse,
    ScheduleType, GC_POLL_CAP,
};

fn job(status: &str) -> GCResult {
    GCResult {
        job_status: status.to_string(),
        update_time: String::new(),
        schedule: Schedule::manual(),
        deleted: false,
        job_kind: "MANUAL".to_string(),
        creation_time: String::new(),
        id: 1,
        job_name: "GARBAGE_COLLECTION".to_string(),
    }
}

fn jobs(status: &str) -> PollResponse {
    PollResponse::Jobs { jobs: vec![job(status)] }
}

#[test]
fn gc_finishes_after_exactly_six_polls() {
    let mut polls: Vec<PollResponse> = (0..5).map(|_| jobs("running")).collect();
    polls.push(jobs("finished"));
    // Extra responses past the terminal one must never be consumed.
    polls.push(jobs("running"));
    let (state, used) = resolve_gc(ScheduleResponse::Created, polls);
    assert_eq!(state, GcState::Finished);
    assert_eq!(used, 6);
}

#[test]
fn gc_times_out_after_exactly_the_poll_budget() {
    let polls: Vec<PollResponse> = (0..150).map(|_| jobs("running")).collect();
    let (state, used) = resolve_gc(ScheduleResponse::Created, polls);
    assert_eq!(state, GcState::TimedOut);
    assert_eq!(used as u64, GC_POLL_CAP);
    assert_eq!(used, 100);
}

#[test]
fn gc_fails_on_an_empty_job_list_without_sleeping() {
    let polls = vec![PollResponse::Jobs { jobs: vec![] }];
    let (state, used) = resolve_gc(ScheduleResponse::Created, polls);
    assert_eq!(state, GcState::Failed { failure: GcFailure::EmptyJobList });
    assert_eq!(used, 1);
    // The only state whose action sleeps is Polling; the first fetch is
    // asked for by Scheduled, which does not sleep.
    assert_eq!(GcState::Scheduled.next_action(), GcAction::FetchJobs);
    assert_eq!(GcState::Polling { polls: 1 }.next_action(), GcAction::SleepThenFetch);
}

#[test]
fn gc_schedule_rejection_fails_with_zero_polls() {
    let polls = vec![jobs("finished")];
    let (state, used) = resolve_gc(
        ScheduleResponse::Rejected { detail: "409 conflict".to_string() },
        polls,
    );
    assert_eq!(
        state,
        GcState::Failed {
            failure: GcFailure::ScheduleRejected { detail: "409 conflict".to_string() }
        }
    );
    assert_eq!(used, 0);
}

#[test]
fn gc_transport_error_fails_the_run() {
    let polls = vec![
        jobs("running"),
        PollResponse::TransportError { detail: "502 bad gateway".to_string() },
    ];
    let (state, used) = resolve_gc(ScheduleResponse::Created, polls);
    assert_eq!(
        state,
        GcState::Failed { failure: GcFailure::Transport { detail: "502 bad gateway".to_string() } }
    );
    assert_eq!(used, 2);
}

#[test]
fn gc_any_other_status_keeps_polling() {
    // Statuses other than "finished" are not errors: the run just keeps
    // polling (and the caller logs them verbatim).
    let polls = vec![jobs("pending"), jobs("strange-new-label"), jobs("finished")];
    let (state, used) = resolve_gc(ScheduleResponse::Created, polls);
    assert_eq!(state, GcState::Finished);
    assert_eq!(used, 3);
}

#[test]
fn gc_runs_out_of_responses_while_polling() {
    let polls = vec![jobs("running"), jobs("running")];
    let (state, used) = resolve_gc(ScheduleResponse::Created, polls);
    assert_eq!(state, GcState::Polling { polls: 2 });
    assert_eq!(used, 2);
}

#[test]
fn manual_schedule_descriptor() {
    let s = Schedule::manual();
    assert_eq!(s.schedule_type, "Manual");
    assert!(s.cron.is_none());
}

#[test]
fn schedule_type_wire_names() {
    assert_eq!(ScheduleType::Hourly.as_str(), "Hourly");
    assert_eq!(ScheduleType::Daily.as_str(), "Daily");
    assert_eq!(ScheduleType::Weekly.as_str(), "Weekly");
    assert_eq!(ScheduleType::Custom.as_str(), "Custom");
    assert_eq!(ScheduleType::Manual.as_str(), "Manual");
    assert_eq!(ScheduleType::NoSchedule.as_str(), "None");
}

#[test]
fn idle_asks_for_schedule_creation() {
    assert_eq!(GcState::Idle.next_action(), GcAction::CreateSchedule);
    assert_eq!(GcState::Finished.next_action(), GcAction::Report);
}
