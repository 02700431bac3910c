//! Garbage-collection scheduling records and the bounded polling state
//! machine.
//!
//! After a repository's deletions, a manual GC run is scheduled once
//! (never retried) and its job list is then polled until the newest job
//! reports `finished`, an error occurs, or the poll budget runs out.
//! The machine here takes one gateway response at a time and decides the
//! next state and the next action; whoever holds the network performs the
//! actions and feeds the responses back.

use vstd::prelude::*;

verus! {

/// How a garbage-collection run is scheduled.
#[derive(Debug, Clone, Copy, PartialEq, Eq, Structural)]
pub enum ScheduleType {
    Hourly,
    Daily,
    Weekly,
    Custom,
    Manual,
    /// No schedule at all; serialized as `None` on the wire.
    NoSchedule,
}

impl ScheduleType {
    /// The wire name of each schedule type: an explicit mapping, so the
    /// payload sent to the registry never depends on identifier naming.
    pub open spec fn spec_name(self) -> Seq<char> {
        match self {
            ScheduleType::Hourly => "Hourly"@,
            ScheduleType::Daily => "Daily"@,
            ScheduleType::Weekly => "Weekly"@,
            ScheduleType::Custom => "Custom"@,
            ScheduleType::Manual => "Manual"@,
            ScheduleType::NoSchedule => "None"@,
        }
    }

    /// The wire name of the schedule type.
    pub fn as_str(&self) -> (r: &'static str)
        ensures
            r@ == self.spec_name(),
    {
        match self {
            ScheduleType::Hourly => "Hourly",
            ScheduleType::Daily => "Daily",
            ScheduleType::Weekly => "Weekly",
            ScheduleType::Custom => "Custom",
            ScheduleType::Manual => "Manual",
            ScheduleType::NoSchedule => "None",
        }
    }
}

/// A schedule descriptor as the registry's GC endpoint takes it.
#[derive(Debug)]
pub struct Schedule {
    pub schedule_type: String,
    pub cron: Option<String>,
}

impl Schedule {
    /// The descriptor of a manual, run-once GC schedule: type `Manual`,
    /// no cron expression.
    pub fn manual() -> (r: Schedule)
        ensures
            r.schedule_type@ == ScheduleType::Manual.spec_name(),
            r.cron is None,
    {
        Schedule { schedule_type: String::from_str(ScheduleType::Manual.as_str()), cron: None }
    }
}

/// One garbage-collection job record, as the registry reports it. The
/// machine only ever reads `job_status`; the rest is carried for
/// reporting.
#[derive(Debug)]
pub struct GCResult {
    pub job_status: String,
    pub update_time: String,
    pub schedule: Schedule,
    pub deleted: bool,
    pub job_kind: String,
    pub creation_time: String,
    pub id: u64,
    pub job_name: String,
}

/// The poll budget: how many times the job list is fetched before the
/// run is declared timed out.
pub const GC_POLL_CAP: u64 = 100;

/// Why a GC run failed, as opposed to merely timing out.
#[derive(Debug, PartialEq, Eq)]
pub enum GcFailure {
    /// The schedule-creation request returned a non-created status; the
    /// response detail. The request is attempted exactly once.
    ScheduleRejected { detail: String },
    /// The job list came back empty right after a schedule was created:
    /// an invariant violation on the registry's side.
    EmptyJobList,
    /// A poll request itself failed; the response detail.
    Transport { detail: String },
}

/// The orchestrator's state. `Finished`, `TimedOut` and `Failed` are
/// terminal; only `Finished` counts as success.
#[derive(Debug, PartialEq, Eq)]
pub enum GcState {
    /// Nothing requested yet.
    Idle,
    /// The manual schedule was created; no poll has happened yet.
    Scheduled,
    /// `polls` fetches of the job list have seen a still-running job.
    Polling { polls: u64 },
    /// The newest job reported `finished`.
    Finished,
    /// The poll budget ran out; the job may still be running and needs
    /// manual verification.
    TimedOut,
    /// An outright error; never retried.
    Failed { failure: GcFailure },
}

/// What the machine asks its caller to do next.
#[derive(Debug, Clone, Copy, PartialEq, Eq, Structural)]
pub enum GcAction {
    /// Request creation of the manual schedule.
    CreateSchedule,
    /// Fetch the job list now.
    FetchJobs,
    /// Wait one poll interval, then fetch the job list.
    SleepThenFetch,
    /// Terminal: report the outcome.
    Report,
}

/// The response to the schedule-creation request.
#[derive(Debug)]
pub enum ScheduleResponse {
    /// The registry answered with a created status.
    Created,
    /// Any other status; the response detail.
    Rejected { detail: String },
}

/// The response to one poll of the job list.
#[derive(Debug)]
pub enum PollResponse {
    /// The job list, most recent job first.
    Jobs { jobs: Vec<GCResult> },
    /// The poll request itself failed; the response detail.
    TransportError { detail: String },
}

/// How many polls the state has already absorbed.
pub open spec fn polls_done(state: GcState) -> int {
    match state {
        GcState::Polling { polls } => polls as int,
        _ => 0,
    }
}

/// The transition out of `Idle`: a created status moves to `Scheduled`,
/// anything else fails outright.
pub open spec fn spec_on_schedule_response(resp: ScheduleResponse) -> GcState {
    match resp {
        ScheduleResponse::Created => GcState::Scheduled,
        ScheduleResponse::Rejected { detail } => GcState::Failed {
            failure: GcFailure::ScheduleRejected { detail },
        },
    }
}

/// The transition on one poll response, from `Scheduled` or `Polling`:
/// an empty job list fails, a `finished` newest job finishes, anything
/// else keeps polling until the budget is spent.
pub open spec fn spec_on_poll(state: GcState, resp: PollResponse) -> GcState {
    match resp {
        PollResponse::TransportError { detail } => GcState::Failed {
            failure: GcFailure::Transport { detail },
        },
        PollResponse::Jobs { jobs } => {
            if jobs@.len() == 0 {
                GcState::Failed { failure: GcFailure::EmptyJobList }
            } else if jobs@[0].job_status@ == "finished"@ {
                GcState::Finished
            } else if polls_done(state) + 1 >= GC_POLL_CAP {
                GcState::TimedOut
            } else {
                GcState::Polling { polls: (polls_done(state) + 1) as u64 }
            }
        },
    }
}

impl GcState {
    /// Terminal states never transition again within one sweep.
    pub open spec fn is_terminal(self) -> bool {
        self is Finished || self is TimedOut || self is Failed
    }

    /// The machine never records a poll count outside the budget.
    pub open spec fn wf(self) -> bool {
        match self {
            GcState::Polling { polls } => 1 <= polls < GC_POLL_CAP,
            _ => true,
        }
    }

    /// The action each state asks for. A sleep is owed only between two
    /// polls, so a run that fails on its first poll never slept.
    pub open spec fn spec_action(self) -> GcAction {
        match self {
            GcState::Idle => GcAction::CreateSchedule,
            GcState::Scheduled => GcAction::FetchJobs,
            GcState::Polling { .. } => GcAction::SleepThenFetch,
            _ => GcAction::Report,
        }
    }

    /// What the caller must do next.
    pub fn next_action(&self) -> (a: GcAction)
        ensures
            a == self.spec_action(),
    {
        match self {
            GcState::Idle => GcAction::CreateSchedule,
            GcState::Scheduled => GcAction::FetchJobs,
            GcState::Polling { .. } => GcAction::SleepThenFetch,
            GcState::Finished => GcAction::Report,
            GcState::TimedOut => GcAction::Report,
            GcState::Failed { .. } => GcAction::Report,
        }
    }

    /// Absorbs the schedule-creation response. The request is made
    /// exactly once: a rejection moves straight to `Failed` and no poll
    /// will ever be asked for.
    pub fn on_schedule_response(self, resp: ScheduleResponse) -> (next: GcState)
        requires
            self is Idle,
        ensures
            next == spec_on_schedule_response(resp),
            next.wf(),
    {
        match resp {
            ScheduleResponse::Created => GcState::Scheduled,
            ScheduleResponse::Rejected { detail } => GcState::Failed {
                failure: GcFailure::ScheduleRejected { detail },
            },
        }
    }

    /// Absorbs one poll response.
    pub fn on_poll(self, resp: PollResponse) -> (next: GcState)
        requires
            self is Scheduled || self is Polling,
            self.wf(),
        ensures
            next == spec_on_poll(self, resp),
            next.wf(),
    {
        let polls: u64 = match &self {
            GcState::Polling { polls } => *polls,
            _ => 0,
        };
        match resp {
            PollResponse::TransportError { detail } => GcState::Failed {
                failure: GcFailure::Transport { detail },
            },
            PollResponse::Jobs { jobs } => {
                if jobs.len() == 0 {
                    GcState::Failed { failure: GcFailure::EmptyJobList }
                } else if status_is_finished(&jobs[0].job_status) {
                    GcState::Finished
                } else if polls + 1 >= GC_POLL_CAP {
                    GcState::TimedOut
                } else {
                    GcState::Polling { polls: polls + 1 }
                }
            },
        }
    }
}

/// The state and poll count a run reaches when the gateway answers with
/// `resps`, in order, until a terminal state or the responses run out.
pub open spec fn spec_run_polls(state: GcState, resps: Seq<PollResponse>) -> (GcState, int)
    decreases resps.len(),
{
    if !(state is Scheduled || state is Polling) || resps.len() == 0 {
        (state, 0)
    } else {
        let rest = spec_run_polls(spec_on_poll(state, resps[0]), resps.subrange(1, resps.len() as int));
        (rest.0, 1 + rest.1)
    }
}

/// Runs a whole GC orchestration against pre-recorded gateway responses:
/// the schedule-creation response, then one poll response per fetch.
/// Returns the final state and how many poll responses were consumed.
pub fn resolve_gc(schedule_resp: ScheduleResponse, polls: Vec<PollResponse>) -> (r: (
    GcState,
    usize,
))
    ensures
        ({
            let target = spec_run_polls(spec_on_schedule_response(schedule_resp), polls@);
            r.0 == target.0 && r.1 == target.1 && r.0.wf()
        }),
{
    let ghost gpolls = polls@;
    let mut state = GcState::Idle.on_schedule_response(schedule_resp);
    let ghost s1 = state;
    let ghost target = spec_run_polls(s1, gpolls);
    let mut rest = polls;
    let mut used: usize = 0;
    let n0: usize = rest.len();
    assert(gpolls.len() == n0);
    loop
        invariant
            state.wf(),
            used + rest@.len() == gpolls.len(),
            gpolls.len() <= usize::MAX,
            rest@ == gpolls.subrange(used as int, gpolls.len() as int),
            target == spec_run_polls(s1, gpolls),
            spec_run_polls(state, rest@) == (target.0, target.1 - used),
        ensures
            !(state is Scheduled || state is Polling) || rest@.len() == 0,
            state.wf(),
            spec_run_polls(state, rest@) == (target.0, target.1 - used),
        decreases rest@.len(),
    {
        let live = match &state {
            GcState::Scheduled => true,
            GcState::Polling { .. } => true,
            _ => false,
        };
        if !live {
            break ;
        }
        if rest.len() == 0 {
            break ;
        }
        let resp = rest.remove(0);
        assert(resp == gpolls[used as int]);
        state = state.on_poll(resp);
        used = used + 1;
        proof {
            assert(rest@ =~= gpolls.subrange(used as int, gpolls.len() as int));
        }
    }
    (state, used)
}

/// The polling loop is bounded: whatever the gateway answers, a run
/// never consumes more polls than the budget leaves.
pub proof fn lemma_poll_budget(state: GcState, resps: Seq<PollResponse>)
    requires
        state.wf(),
    ensures
        0 <= spec_run_polls(state, resps).1,
        spec_run_polls(state, resps).1 + polls_done(state) <= GC_POLL_CAP,
    decreases resps.len(),
{
    if (state is Scheduled || state is Polling) && resps.len() > 0 {
        let next = spec_on_poll(state, resps[0]);
        lemma_poll_budget(next, resps.subrange(1, resps.len() as int));
    }
}

/// A run never stops for no reason: it consumes responses in order and
/// halts only in a terminal state or because the responses ran out.
pub proof fn lemma_run_polls_settles(state: GcState, resps: Seq<PollResponse>)
    requires
        state.wf(),
        state is Scheduled || state is Polling,
    ensures
        0 <= spec_run_polls(state, resps).1 <= resps.len(),
        spec_run_polls(state, resps).0.is_terminal() || spec_run_polls(state, resps).1
            == resps.len(),
    decreases resps.len(),
{
    if resps.len() > 0 {
        let next = spec_on_poll(state, resps[0]);
        let rest = resps.subrange(1, resps.len() as int);
        if next is Scheduled || next is Polling {
            lemma_run_polls_settles(next, rest);
        } else {
            assert(spec_run_polls(next, rest) == (next, 0int));
        }
    }
}

/// A poll response whose newest job is still running.
pub open spec fn running_response(r: PollResponse) -> bool {
    match r {
        PollResponse::Jobs { jobs } => jobs@.len() > 0 && jobs@[0].job_status@ != "finished"@,
        PollResponse::TransportError { .. } => false,
    }
}

/// A poll response whose newest job reports `finished`.
pub open spec fn finished_response(r: PollResponse) -> bool {
    match r {
        PollResponse::Jobs { jobs } => jobs@.len() > 0 && jobs@[0].job_status@ == "finished"@,
        PollResponse::TransportError { .. } => false,
    }
}

/// A gateway that always reports a still-running job exhausts the
/// budget: the run consumes exactly the remaining budget and times out.
/// From `Scheduled` that is exactly `GC_POLL_CAP` polls.
pub proof fn lemma_always_running_times_out(state: GcState, resps: Seq<PollResponse>)
    requires
        state.wf(),
        state is Scheduled || state is Polling,
        forall|i: int| 0 <= i < resps.len() ==> running_response(#[trigger] resps[i]),
        resps.len() + polls_done(state) >= GC_POLL_CAP,
    ensures
        spec_run_polls(state, resps) == (GcState::TimedOut, GC_POLL_CAP - polls_done(state)),
    decreases resps.len(),
{
    let next = spec_on_poll(state, resps[0]);
    let rest = resps.subrange(1, resps.len() as int);
    assert(running_response(resps[0]));
    if polls_done(state) + 1 >= GC_POLL_CAP {
        assert(next == GcState::TimedOut);
        assert(spec_run_polls(next, rest) == (next, 0int));
        assert(polls_done(state) == GC_POLL_CAP - 1);
    } else {
        assert(forall|i: int| 0 <= i < rest.len() ==> running_response(#[trigger] rest[i]));
        lemma_always_running_times_out(next, rest);
    }
}

/// The run ends in `Finished` the moment the newest job reports
/// `finished`: `k` still-running polls followed by a finished one within
/// the budget yield `Finished` after exactly `k + 1` polls.
pub proof fn lemma_finishes_on_first_finished(state: GcState, resps: Seq<PollResponse>, k: int)
    requires
        state.wf(),
        state is Scheduled || state is Polling,
        0 <= k < resps.len(),
        forall|i: int| 0 <= i < k ==> running_response(#[trigger] resps[i]),
        finished_response(resps[k]),
        k + 1 + polls_done(state) <= GC_POLL_CAP,
    ensures
        spec_run_polls(state, resps) == (GcState::Finished, k + 1),
    decreases k,
{
    let next = spec_on_poll(state, resps[0]);
    let rest = resps.subrange(1, resps.len() as int);
    if k == 0 {
        assert(next == GcState::Finished);
        assert(spec_run_polls(next, rest) == (next, 0int));
    } else {
        assert(running_response(resps[0]));
        assert(next == GcState::Polling { polls: (polls_done(state) + 1) as u64 });
        assert(forall|i: int| 0 <= i < k - 1 ==> running_response(#[trigger] rest[i]));
        assert(finished_response(rest[k - 1]));
        lemma_finishes_on_first_finished(next, rest, k - 1);
    }
}

/// A schedule-creation response with a non-created status moves straight
/// to `Failed`, and the run then performs no poll at all.
pub proof fn lemma_rejection_polls_nothing(detail: String, resps: Seq<PollResponse>)
    ensures
        ({
            let s = spec_on_schedule_response(ScheduleResponse::Rejected { detail });
            s is Failed && spec_run_polls(s, resps) == (s, 0int)
        }),
{
    let s = spec_on_schedule_response(ScheduleResponse::Rejected { detail });
    assert(spec_run_polls(s, resps) == (s, 0int));
}

/// An empty job list on the very first poll fails the run after exactly
/// one poll. The machine went `Scheduled` directly to `Failed` and was
/// never in `Polling`, the only state whose action sleeps: no sleep ever
/// occurred.
pub proof fn lemma_empty_first_poll_fails(resps: Seq<PollResponse>)
    requires
        resps.len() >= 1,
        (match resps[0] {
            PollResponse::Jobs { jobs } => jobs@.len() == 0,
            PollResponse::TransportError { .. } => false,
        }),
    ensures
        spec_run_polls(GcState::Scheduled, resps) == (
            GcState::Failed { failure: GcFailure::EmptyJobList },
            1int,
        ),
{
    let next = spec_on_poll(GcState::Scheduled, resps[0]);
    assert(next == (GcState::Failed { failure: GcFailure::EmptyJobList }));
    assert(spec_run_polls(next, resps.subrange(1, resps.len() as int)) == (next, 0int));
}

/// Whether a job status string is the terminal label.
fn status_is_finished(status: &String) -> (r: bool)
    ensures
        r == (status@ == "finished"@),
{
    let fin = String::from_str("finished");
    *status == fin
}

} // verus!
