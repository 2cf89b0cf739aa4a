//! Errors that workflows and activities report, and the decisions the
//! engine takes around a run: duplicate detection, claiming the run, and
//! folding the run's result (or an activity's result) back into the state.
use vstd::prelude::*;

use crate::json::{
    debug_text, error_object, error_object_text, json_error_is_io, json_error_message, json_error_text,
};
use crate::keyed::{find_key, has_key, lookup};
use crate::workflow_state::{
    backoff_delay, retried, Closed, WorkflowError, WorkflowState, WorkflowStateView, WorkflowStatus,
    MAX_BACKOFF_EXPONENT,
};

verus! {

/// What the engine does with a run whose instance already has an earlier
/// running run.
#[derive(Clone, Copy, Debug, PartialEq, Eq, Structural)]
pub enum DuplicateStrategy {
    /// Fail the later run.
    Reject,
    /// Reschedule the later run one claim duration from now.
    Enqueue,
    /// Let the later run replace the earlier ones: they are cancelled and
    /// the later run goes ahead.
    Cancel,
}

/// How a workflow run or an activity failed. Times are milliseconds since
/// the UNIX epoch; `content` holds a JSON document as text.
#[derive(Debug, PartialEq)]
pub enum WorkflowErrorType {
    /// Not done yet: run again at `schedule_time`.
    Pending { schedule_time: u64 },
    /// A failure worth retrying.
    TransientError { message: String, content: Option<String> },
    /// A failure that ends the run.
    PermanentError { message: String, content: Option<String> },
}

impl Clone for WorkflowErrorType {
    fn clone(&self) -> (res: Self)
        ensures
            res == *self,
    {
        match self {
            WorkflowErrorType::Pending { schedule_time } => WorkflowErrorType::Pending {
                schedule_time: *schedule_time,
            },
            WorkflowErrorType::TransientError { message, content } => {
                WorkflowErrorType::TransientError {
                    message: message.clone(),
                    content: clone_opt_string(content),
                }
            },
            WorkflowErrorType::PermanentError { message, content } => {
                WorkflowErrorType::PermanentError {
                    message: message.clone(),
                    content: clone_opt_string(content),
                }
            },
        }
    }
}

/// Copies an optional string.
pub fn clone_opt_string(s: &Option<String>) -> (res: Option<String>)
    ensures
        res == *s,
{
    match s {
        Some(t) => Some(t.clone()),
        None => None,
    }
}

impl WorkflowErrorType {
    /// A permanent error without content.
    pub fn perm(message: String) -> (e: Self)
        ensures
            e == (WorkflowErrorType::PermanentError { message, content: None }),
    {
        WorkflowErrorType::PermanentError { message, content: None }
    }

    /// A permanent error with JSON content.
    pub fn perm_detailed(message: String, content: String) -> (e: Self)
        ensures
            e == (WorkflowErrorType::PermanentError { message, content: Some(content) }),
    {
        WorkflowErrorType::PermanentError { message, content: Some(content) }
    }

    /// A transient error without content.
    pub fn transient(message: String) -> (e: Self)
        ensures
            e == (WorkflowErrorType::TransientError { message, content: None }),
    {
        WorkflowErrorType::TransientError { message, content: None }
    }

    /// A permanent error whose content is `{"error": error_text}`.
    pub fn perm_from_text(message: &str, error_text: &str) -> (e: Self)
        ensures
            e matches WorkflowErrorType::PermanentError { message: m, content: Some(c) }
                && m@ == message@ && c@ == error_object_text(error_text@),
    {
        WorkflowErrorType::PermanentError {
            message: String::from_str(message),
            content: Some(error_object(error_text)),
        }
    }

    /// A transient error whose content is `{"error": error_text}`.
    pub fn transient_from_text(message: &str, error_text: &str) -> (e: Self)
        ensures
            e matches WorkflowErrorType::TransientError { message: m, content: Some(c) }
                && m@ == message@ && c@ == error_object_text(error_text@),
    {
        WorkflowErrorType::TransientError {
            message: String::from_str(message),
            content: Some(error_object(error_text)),
        }
    }

    /// A permanent error whose content is `{"error": <Debug text of error>}`.
    pub fn perm_from_error<E: core::fmt::Debug>(message: &str, error: E) -> (e: Self)
        ensures
            e matches WorkflowErrorType::PermanentError { message: m, content: Some(c) }
                && m@ == message@ && exists|t: Seq<char>| c@ == error_object_text(t),
    {
        let text = debug_text(&error);
        Self::perm_from_text(message, text.as_str())
    }

    /// A transient error whose content is `{"error": <Debug text of error>}`.
    pub fn transient_from_error<E: core::fmt::Debug>(message: &str, error: E) -> (e: Self)
        ensures
            e matches WorkflowErrorType::TransientError { message: m, content: Some(c) }
                && m@ == message@ && exists|t: Seq<char>| c@ == error_object_text(t),
    {
        let text = debug_text(&error);
        Self::transient_from_text(message, text.as_str())
    }

    /// A permanent error carrying the message of a JSON error: the error's
    /// `Display` text as serde_json writes it (see [`json_error_text`]; the
    /// text of an I/O error, which comes from the operating system, is not
    /// stated).
    pub fn from_json_error(err: &serde_json::Error) -> (e: Self)
        ensures
            e matches WorkflowErrorType::PermanentError { message, content: None } && (
            !json_error_is_io(*err) ==> message@ == json_error_text(*err)),
    {
        WorkflowErrorType::PermanentError { message: json_error_message(err), content: None }
    }
}

/// A JSON error becomes a permanent error (see
/// [`WorkflowErrorType::from_json_error`]), so that `?` converts the errors
/// of serde_json.
impl From<serde_json::Error> for WorkflowErrorType {
    fn from(err: serde_json::Error) -> (e: Self)
        ensures
            e matches WorkflowErrorType::PermanentError { message, content: None } && (
            !json_error_is_io(err) ==> message@ == json_error_text(err)),
    {
        Self::from_json_error(&err)
    }
}

/// `from` is not described by a spec function: the message of an I/O
/// error is the operating system's text, which nothing here names, so the
/// conversion does not claim to follow `from_spec` (its own `ensures` says
/// what it returns).
impl vstd::std_specs::convert::FromSpecImpl<serde_json::Error> for WorkflowErrorType {
    open spec fn obeys_from_spec() -> bool {
        false
    }

    open spec fn from_spec(v: serde_json::Error) -> Self {
        vstd::pervasive::arbitrary()
    }
}

/// `e` is a permanent error with message `message` and no content.
pub open spec fn is_permanent_error(e: WorkflowErrorType, message: Seq<char>) -> bool {
    e matches WorkflowErrorType::PermanentError { message: m, content: None } && m@ == message
}

/// A start time, or `now` when there is none.
pub open spec fn time_or(t: Option<u64>, now: u64) -> u64 {
    match t {
        Some(x) => x,
        None => now,
    }
}

/// `other` is a different run of the instance that counts as earlier than
/// `current`: it started strictly before `current` did (or before `now`,
/// when `current` has not started); or, when neither has started, it was
/// created strictly before `current` (or before `now`). Equal times hold no
/// run back.
pub open spec fn started_earlier(other: WorkflowState, current: WorkflowState, now: u64) -> bool {
    other.run_id@ != current.run_id@ && match other.start_time {
        Some(t) => t < time_or(current.start_time, now),
        None => match other.created_at {
            Some(c) => current.start_time is None && c < time_or(current.created_at, now),
            None => false,
        },
    }
}

/// `current` may go ahead: its instance has at most one running run, or no
/// other running run counts as earlier.
pub open spec fn is_earliest_run(current: WorkflowState, running: Seq<WorkflowState>, now: u64) -> bool {
    running.len() <= 1 || !exists|i: int|
        0 <= i < running.len() && #[trigger] started_earlier(running[i], current, now)
}

/// Whether `other` counts as earlier than `current` (see
/// [`started_earlier`]).
fn is_started_earlier(other: &WorkflowState, current: &WorkflowState, now: u64) -> (r: bool)
    ensures
        r == started_earlier(*other, *current, now),
{
    if crate::keyed::str_eq(other.run_id.as_str(), current.run_id.as_str()) {
        return false;
    }
    let current_start = match current.start_time {
        Some(t) => t,
        None => now,
    };
    let current_created = match current.created_at {
        Some(t) => t,
        None => now,
    };
    match other.start_time {
        Some(t) => t < current_start,
        None => match other.created_at {
            Some(c) => current.start_time.is_none() && c < current_created,
            None => false,
        },
    }
}

/// Whether `current` may go ahead of the other running runs of its
/// instance (see [`is_earliest_run`]).
pub fn is_earliest(current: &WorkflowState, running: &Vec<WorkflowState>, now: u64) -> (r: bool)
    ensures
        r == is_earliest_run(*current, running@, now),
{
    if running.len() <= 1 {
        return true;
    }
    let mut i: usize = 0;
    while i < running.len()
        invariant
            i <= running@.len(),
            running@.len() > 1,
            forall|j: int| 0 <= j < i ==> !#[trigger] started_earlier(running@[j], *current, now),
        decreases running@.len() - i,
    {
        if is_started_earlier(&running[i], current, now) {
            return false;
        }
        i = i + 1;
    }
    true
}

/// What the engine does with a run it has picked up.
#[derive(Clone, Copy, Debug, PartialEq, Eq, Structural)]
pub enum ExecutionPlan {
    /// An earlier run of the instance is going and duplicates are rejected:
    /// the run has been failed.
    Rejected,
    /// An earlier run of the instance is going and duplicates wait: the run
    /// has been rescheduled.
    Requeued,
    /// The run is claimed for one claim duration and is to be run now.
    Claimed,
    /// An earlier run of the instance is going and duplicates replace it:
    /// the run is claimed as for `Claimed`, and the earlier runs are to be
    /// cancelled (see [`cancel_earlier`]).
    Replacing,
}

/// The run claimed at `now` for `claim_ms`: rescheduled to the end of the
/// claim, and started at `now` unless it had started before.
pub open spec fn claimed(s: WorkflowStateView, claim_ms: u64, now: u64) -> WorkflowStateView {
    WorkflowStateView {
        scheduled_at: (now + claim_ms) as u64,
        start_time: Some(time_or(s.start_time, now)),
        ..s
    }
}

/// Decides, at `now`, what happens to `state` given the running runs of its
/// instance, and applies the decision to `state`: a later duplicate is
/// failed (`Reject`), pushed back by the claim duration (`Enqueue`), or
/// claimed to replace the earlier runs (`Cancel`); the earliest run is
/// claimed (see [`claimed`]).
pub fn plan_execution(
    state: &mut WorkflowState,
    running: &Vec<WorkflowState>,
    strategy: DuplicateStrategy,
    claim_ms: u64,
    now: u64,
) -> (plan: ExecutionPlan)
    requires
        now + claim_ms <= u64::MAX,
    ensures
        is_earliest_run(*old(state), running@, now) ==> plan == ExecutionPlan::Claimed && final(state)@
            == claimed(old(state)@, claim_ms, now),
        !is_earliest_run(*old(state), running@, now) && strategy == DuplicateStrategy::Reject
            ==> plan == ExecutionPlan::Rejected && (final(state).status matches WorkflowStatus::Closed(
            Closed::Failed { error },
        ) && is_permanent_error(error, "Duplicate workflow detected"@) && final(state)@
            == old(state)@.with_status(final(state).status)),
        !is_earliest_run(*old(state), running@, now) && strategy == DuplicateStrategy::Enqueue
            ==> plan == ExecutionPlan::Requeued && final(state)@ == (WorkflowStateView {
            scheduled_at: (now + claim_ms) as u64,
            ..old(state)@
        }),
        !is_earliest_run(*old(state), running@, now) && strategy == DuplicateStrategy::Cancel
            ==> plan == ExecutionPlan::Replacing && final(state)@ == claimed(old(state)@, claim_ms, now),
{
    let mut replacing = false;
    if !is_earliest(state, running, now) {
        match strategy {
            DuplicateStrategy::Reject => {
                let error = WorkflowErrorType::perm(String::from_str("Duplicate workflow detected"));
                state.mark_failed(error);
                return ExecutionPlan::Rejected;
            },
            DuplicateStrategy::Enqueue => {
                state.scheduled_at = now + claim_ms;
                return ExecutionPlan::Requeued;
            },
            DuplicateStrategy::Cancel => {
                replacing = true;
            },
        }
    }
    state.scheduled_at = now + claim_ms;
    if state.start_time.is_none() {
        state.start_time = Some(now);
    }
    if replacing {
        ExecutionPlan::Replacing
    } else {
        ExecutionPlan::Claimed
    }
}

/// A run as it is once cancelled at `now`: closed as cancelled, ended at
/// `now`.
pub open spec fn cancelled(w: WorkflowStateView, now: u64) -> WorkflowStateView {
    WorkflowStateView { status: WorkflowStatus::Closed(Closed::Cancelled), end_time: Some(now), ..w }
}

/// The runs among the first `n` of `running` that count as earlier than
/// `current` at `now`, each cancelled at `now`, in the order listed.
pub open spec fn cancellations(running: Seq<WorkflowState>, current: WorkflowState, now: u64, n: int) -> Seq<
    WorkflowStateView,
>
    decreases n,
{
    if n <= 0 {
        Seq::empty()
    } else if started_earlier(running[n - 1], current, now) {
        cancellations(running, current, now, n - 1).push(cancelled(running[n - 1]@, now))
    } else {
        cancellations(running, current, now, n - 1)
    }
}

/// The runs of `running` that count as earlier than `current` at `now` (see
/// [`started_earlier`]), cancelled at `now`: what a replacing run writes
/// back.
pub fn cancel_earlier(current: &WorkflowState, running: &Vec<WorkflowState>, now: u64) -> (out: Vec<
    WorkflowState,
>)
    ensures
        crate::db_trait::state_views(out@) == cancellations(running@, *current, now, running@.len() as int),
{
    let mut out: Vec<WorkflowState> = Vec::new();
    let mut i: usize = 0;
    while i < running.len()
        invariant
            i <= running@.len(),
            crate::db_trait::state_views(out@) == cancellations(running@, *current, now, i as int),
        decreases running@.len() - i,
    {
        if is_started_earlier(&running[i], current, now) {
            let mut c = running[i].clone();
            c.mark_cancelled(now);
            proof {
                crate::db_trait::lemma_state_views_push(out@, c);
            }
            out.push(c);
        }
        i = i + 1;
    }
    out
}

/// Whether the stored copy of a run shows it cancelled, so that the
/// outcome of the attempt that was going is not written over it.
pub fn was_cancelled(stored: &Result<Option<WorkflowState>, WorkflowErrorType>) -> (r: bool)
    ensures
        r == (stored matches Ok(Some(w)) && w.status == WorkflowStatus::Closed(Closed::Cancelled)),
{
    match stored {
        Ok(Some(w)) => match &w.status {
            WorkflowStatus::Closed(Closed::Cancelled) => true,
            _ => false,
        },
        _ => false,
    }
}

/// What a failed attempt may ask of [`WorkflowState::retry`]: the delay of
/// the next retry must be computable and must not overflow the clock.
pub open spec fn retry_fits(s: WorkflowStateView, now: u64) -> bool {
    s.retries < s.max_retries && s.retries + 1 < s.max_retries ==> s.retries + 1
        <= MAX_BACKOFF_EXPONENT && now + backoff_delay((s.retries + 1) as nat) <= u64::MAX
}

/// Whether a failed attempt at `now` may be counted (see [`retry_fits`]).
pub fn can_retry(state: &WorkflowState, now: u64) -> (r: bool)
    ensures
        r == retry_fits(state@, now),
{
    if state.retries < state.max_retries && state.retries + 1 < state.max_retries {
        if state.retries + 1 > MAX_BACKOFF_EXPONENT {
            return false;
        }
        let delay = crate::workflow_state::backoff_delay_ms(state.retries + 1);
        now <= u64::MAX - delay
    } else {
        true
    }
}

/// The state after a run that ended with `result` at `now`; a run failed
/// by a permanent error gets `error_json` (the error as JSON text) as its
/// output.
pub open spec fn after_run(
    s: WorkflowStateView,
    result: Result<Option<String>, WorkflowErrorType>,
    error_json: Option<String>,
    now: u64,
) -> WorkflowStateView {
    match result {
        Ok(_) => WorkflowStateView {
            status: WorkflowStatus::Closed(Closed::Completed),
            end_time: Some(now),
            ..s
        },
        Err(WorkflowErrorType::Pending { schedule_time }) => WorkflowStateView {
            scheduled_at: schedule_time,
            updated_at: Some(now),
            ..s
        },
        Err(WorkflowErrorType::TransientError { message, content }) => WorkflowStateView {
            updated_at: Some(now),
            ..retried(s, WorkflowErrorType::TransientError { message, content }, now)
        },
        Err(WorkflowErrorType::PermanentError { message, content }) => WorkflowStateView {
            updated_at: Some(now),
            output: error_json,
            ..s.with_status(
                WorkflowStatus::Closed(
                    Closed::Failed { error: WorkflowErrorType::PermanentError { message, content } },
                ),
            )
        },
    }
}

/// Folds the result of a run into its state at `now`: success completes
/// the run; `Pending` reschedules it; a transient error counts a retry; a
/// permanent error fails the run and makes `error_json` (the error as
/// JSON text, which the caller writes) its output. Returns the error for
/// the two failure cases and `Ok` otherwise.
pub fn finish_execution(
    state: &mut WorkflowState,
    result: Result<Option<String>, WorkflowErrorType>,
    error_json: Option<String>,
    now: u64,
) -> (r: Result<(), WorkflowErrorType>)
    requires
        result matches Err(WorkflowErrorType::TransientError { .. }) ==> retry_fits(old(state)@, now),
    ensures
        final(state)@ == after_run(old(state)@, result, error_json, now),
        match result {
            Ok(_) => r is Ok,
            Err(WorkflowErrorType::Pending { .. }) => r is Ok,
            Err(e) => r == Err::<(), WorkflowErrorType>(e),
        },
{
    match result {
        Ok(_) => {
            state.mark_completed(now);
            Ok(())
        },
        Err(WorkflowErrorType::Pending { schedule_time }) => {
            state.scheduled_at = schedule_time;
            state.updated_at = Some(now);
            Ok(())
        },
        Err(e) => {
            match &e {
                WorkflowErrorType::TransientError { .. } => {
                    state.retry(e.clone(), now);
                },
                _ => {
                    state.mark_failed(e.clone());
                    state.output = error_json;
                },
            }
            state.updated_at = Some(now);
            Err(e)
        },
    }
}

/// What to do when a run reaches an activity.
#[derive(Debug)]
pub enum ActivityStep {
    /// The activity already completed: its cached JSON result.
    Cached(String),
    /// The activity's deadline has passed.
    TimedOut(WorkflowErrorType),
    /// Run the activity.
    Run,
}

/// Decides, at `now`, what a run does at the activity `name` that has an
/// optional deadline: replay a cached result, give up past the deadline, or
/// run it.
pub fn begin_activity(state: &WorkflowState, name: &str, timeout: Option<u64>, now: u64) -> (step:
    ActivityStep)
    ensures
        has_key(state.results@, name@) ==> (step matches ActivityStep::Cached(data) && (lookup(
            state.results@,
            name@,
        ) matches Some(a) && data == a.data)),
        !has_key(state.results@, name@) && (timeout matches Some(t) && now > t) ==> (step matches ActivityStep::TimedOut(e)
            && is_permanent_error(e, "Activity timeout"@)),
        !has_key(state.results@, name@) && !(timeout matches Some(t) && now > t) ==> step is Run,
{
    match find_key(&state.results, name) {
        Some(i) => {
            return ActivityStep::Cached(state.results[i].data.clone());
        },
        None => {},
    }
    if let Some(t) = timeout {
        if now > t {
            return ActivityStep::TimedOut(WorkflowErrorType::perm(String::from_str("Activity timeout")));
        }
    }
    ActivityStep::Run
}

/// Records the outcome of the activity `name` at `now`: a result (JSON
/// text) is cached under the name; an error is appended to the run's
/// errors, attributed to the activity. The error is handed back.
pub fn finish_activity(
    state: &mut WorkflowState,
    name: &str,
    outcome: Result<String, WorkflowErrorType>,
    now: u64,
) -> (r: Result<(), WorkflowErrorType>)
    ensures
        old(state)@.wf() ==> final(state)@.wf(),
        outcome matches Ok(data) ==> r is Ok && exists|n: String|
            n@ == name@ && final(state)@ == #[trigger] old(state)@.with_result(n, data, now),
        outcome matches Err(e) ==> r == Err::<(), WorkflowErrorType>(e) && exists|n: String|
            n@ == name@ && final(state)@ == #[trigger] old(state)@.with_error(
                WorkflowError { error_type: e, activity_name: Some(n), timestamp: now },
            ),
{
    match outcome {
        Ok(data) => {
            state.add_activity_result(name, data, now);
            Ok(())
        },
        Err(e) => {
            state.errors.push(
                WorkflowError {
                    error_type: e.clone(),
                    activity_name: Some(String::from_str(name)),
                    timestamp: now,
                },
            );
            let ghost entry = state.errors@.last();
            assert(state@ == old(state)@.with_error(entry));
            Err(e)
        },
    }
}

/// The error for an input that cannot be decoded into what the workflow
/// expects.
pub fn input_decode_error() -> (e: WorkflowErrorType)
    ensures
        is_permanent_error(e, "Failed to deserialize input"@),
{
    WorkflowErrorType::perm(String::from_str("Failed to deserialize input"))
}

/// The error for a run that could not be scheduled.
pub fn schedule_error() -> (e: WorkflowErrorType)
    ensures
        is_permanent_error(e, "Cant schedule wf"@),
{
    WorkflowErrorType::perm(String::from_str("Cant schedule wf"))
}

/// The run's input (JSON text), or the permanent error
/// `No input provided` when it has none.
pub fn required_input(state: &WorkflowState) -> (r: Result<String, WorkflowErrorType>)
    ensures
        state.input matches Some(i) ==> r == Ok::<String, WorkflowErrorType>(i),
        state.input is None ==> (r matches Err(e) && is_permanent_error(e, "No input provided"@)),
{
    match &state.input {
        Some(i) => Ok(i.clone()),
        None => Err(WorkflowErrorType::perm(String::from_str("No input provided"))),
    }
}

/// Two different runs whose times tell them apart: both started, at
/// different times; neither started, both created, at different times; or
/// one started before `now` and the other not started.
pub open spec fn told_apart(a: WorkflowState, b: WorkflowState, now: u64) -> bool {
    match (a.start_time, b.start_time) {
        (Some(x), Some(y)) => x != y,
        (None, None) => match (a.created_at, b.created_at) {
            (Some(x), Some(y)) => x != y,
            _ => false,
        },
        (Some(x), None) => x < now,
        (None, Some(y)) => y < now,
    }
}

/// Of two different runs that their times tell apart, exactly one counts as
/// earlier than the other.
pub proof fn lemma_duplicate_order_is_strict(a: WorkflowState, b: WorkflowState, now: u64)
    requires
        a.run_id@ != b.run_id@,
        told_apart(a, b, now),
    ensures
        started_earlier(a, b, now) != started_earlier(b, a, now),
{
}

/// Of two different running runs of an instance that their times tell
/// apart, at most one may go ahead.
pub proof fn lemma_at_most_one_goes_ahead(running: Seq<WorkflowState>, i: int, j: int, now: u64)
    requires
        0 <= i < running.len(),
        0 <= j < running.len(),
        running[i].run_id@ != running[j].run_id@,
        told_apart(running[i], running[j], now),
    ensures
        !(is_earliest_run(running[i], running, now) && is_earliest_run(running[j], running, now)),
{
    lemma_duplicate_order_is_strict(running[i], running[j], now);
    if started_earlier(running[i], running[j], now) {
        assert(!is_earliest_run(running[j], running, now));
    } else {
        assert(started_earlier(running[j], running[i], now));
        assert(!is_earliest_run(running[i], running, now));
    }
}

/// Where a run stands among the runs of its instance: runs that have
/// started first, by start time; then runs not started, by creation time;
/// then runs with neither time.
pub open spec fn run_rank(w: WorkflowState) -> (int, int) {
    match w.start_time {
        Some(t) => (0, t as int),
        None => match w.created_at {
            Some(c) => (1, c as int),
            None => (2, 0),
        },
    }
}

/// Rank `a` comes strictly before rank `b`.
pub open spec fn rank_less(a: (int, int), b: (int, int)) -> bool {
    a.0 < b.0 || (a.0 == b.0 && a.1 < b.1)
}

/// A run that counts as earlier than another has a strictly lower rank.
proof fn lemma_earlier_has_lower_rank(other: WorkflowState, current: WorkflowState, now: u64)
    requires
        started_earlier(other, current, now),
    ensures
        rank_less(run_rank(other), run_rank(current)),
{
}

/// A run among the first `n` listed whose rank no other run among them
/// undercuts.
proof fn lowest_ranked(running: Seq<WorkflowState>, n: int) -> (m: int)
    requires
        0 < n <= running.len(),
    ensures
        0 <= m < n,
        forall|k: int| 0 <= k < n ==> !rank_less(run_rank(#[trigger] running[k]), run_rank(running[m])),
    decreases n,
{
    if n == 1 {
        0
    } else {
        let m0 = lowest_ranked(running, n - 1);
        if rank_less(run_rank(running[n - 1]), run_rank(running[m0])) {
            n - 1
        } else {
            m0
        }
    }
}

/// Among an instance's running runs some run may always go ahead, so runs
/// held back as duplicates never all wait on one another.
pub proof fn lemma_some_run_goes_ahead(running: Seq<WorkflowState>, now: u64)
    requires
        running.len() > 0,
    ensures
        exists|i: int| 0 <= i < running.len() && #[trigger] is_earliest_run(running[i], running, now),
{
    let m = lowest_ranked(running, running.len() as int);
    assert forall|k: int| 0 <= k < running.len() implies !#[trigger] started_earlier(
        running[k],
        running[m],
        now,
    ) by {
        if started_earlier(running[k], running[m], now) {
            lemma_earlier_has_lower_rank(running[k], running[m], now);
        }
    }
    assert(is_earliest_run(running[m], running, now));
}

/// A run with no other running run of its instance is never held back.
pub proof fn lemma_single_run_goes_ahead(current: WorkflowState, running: Seq<WorkflowState>, now: u64)
    requires
        forall|i: int| 0 <= i < running.len() ==> #[trigger] running[i].run_id@ == current.run_id@,
    ensures
        is_earliest_run(current, running, now),
{
    assert forall|i: int| 0 <= i < running.len() implies !#[trigger] started_earlier(
        running[i],
        current,
        now,
    ) by {
        assert(running[i].run_id@ == current.run_id@);
    }
}

/// A claimed run keeps its first start time: claiming it again (as a
/// retry or a rescheduled run is) moves its schedule but not its start.
pub proof fn lemma_claim_keeps_start(s: WorkflowStateView, claim_ms: u64, now1: u64, now2: u64)
    ensures
        claimed(claimed(s, claim_ms, now1), claim_ms, now2).start_time == claimed(
            s,
            claim_ms,
            now1,
        ).start_time,
{
}

/// A run that asks to be run later keeps its status and retry count.
pub proof fn lemma_pending_keeps_run_open(s: WorkflowStateView, t: u64, error_json: Option<String>, now: u64)
    ensures
        after_run(s, Err(WorkflowErrorType::Pending { schedule_time: t }), error_json, now).status == s.status,
        after_run(s, Err(WorkflowErrorType::Pending { schedule_time: t }), error_json, now).retries
            == s.retries,
        after_run(s, Err(WorkflowErrorType::Pending { schedule_time: t }), error_json, now).scheduled_at
            == t,
{
}

/// A transient error while retries are left keeps the run open as it was:
/// it only counts one more retry (rescheduled after its backoff unless it
/// was the last), keeps its output, and is handed back as the error. Only
/// once the retries are used up does a transient error fail the run.
pub proof fn lemma_transient_error_retries_the_run(
    s: WorkflowStateView,
    message: String,
    content: Option<String>,
    error_json: Option<String>,
    now: u64,
)
    ensures
        s.retries < s.max_retries ==> {
            let after = after_run(
                s,
                Err(WorkflowErrorType::TransientError { message, content }),
                error_json,
                now,
            );
            &&& after.status == s.status
            &&& after.retries == s.retries + 1
            &&& after.output == s.output
            &&& after.results == s.results
            &&& after.errors == s.errors
            &&& after.end_time == s.end_time
            &&& after.updated_at == Some(now)
            &&& (s.retries + 1 < s.max_retries ==> after.scheduled_at == (now + backoff_delay(
                (s.retries + 1) as nat,
            )) as u64)
            &&& (s.retries + 1 == s.max_retries ==> after.scheduled_at == s.scheduled_at)
        },
        s.retries >= s.max_retries ==> after_run(
            s,
            Err(WorkflowErrorType::TransientError { message, content }),
            error_json,
            now,
        ).status == WorkflowStatus::Closed(
            Closed::Failed { error: WorkflowErrorType::TransientError { message, content } },
        ),
{
}

/// The runs cancelled for `current` among the first `n` listed are exactly
/// those that count as earlier than it, each once, cancelled at `now`.
proof fn lemma_cancellations_prefix(running: Seq<WorkflowState>, current: WorkflowState, now: u64, n: int)
    requires
        0 <= n <= running.len(),
    ensures
        forall|i: int|
            0 <= i < n && started_earlier(running[i], current, now) ==> #[trigger] cancellations(
                running,
                current,
                now,
                n,
            ).contains(cancelled(running[i]@, now)),
        forall|k: int|
            0 <= k < cancellations(running, current, now, n).len() ==> exists|i: int|
                0 <= i < n && started_earlier(running[i], current, now) && #[trigger] cancellations(
                    running,
                    current,
                    now,
                    n,
                )[k] == cancelled(running[i]@, now),
    decreases n,
{
    if n > 0 {
        lemma_cancellations_prefix(running, current, now, n - 1);
        let prev = cancellations(running, current, now, n - 1);
        let cur = cancellations(running, current, now, n);
        if started_earlier(running[n - 1], current, now) {
            assert(cur == prev.push(cancelled(running[n - 1]@, now)));
            assert forall|i: int| 0 <= i < n && started_earlier(running[i], current, now) implies #[trigger] cancellations(
                running,
                current,
                now,
                n,
            ).contains(cancelled(running[i]@, now)) by {
                if i == n - 1 {
                    assert(cur[cur.len() - 1] == cancelled(running[i]@, now));
                } else {
                    assert(prev.contains(cancelled(running[i]@, now)));
                    let k = choose|k: int| 0 <= k < prev.len() && prev[k] == cancelled(running[i]@, now);
                    assert(cur[k] == prev[k]);
                }
            }
            assert forall|k: int| 0 <= k < cur.len() implies exists|i: int|
                0 <= i < n && started_earlier(running[i], current, now) && #[trigger] cancellations(
                    running,
                    current,
                    now,
                    n,
                )[k] == cancelled(running[i]@, now) by {
                if k == cur.len() - 1 {
                    assert(cur[k] == cancelled(running[n - 1]@, now));
                } else {
                    assert(cur[k] == prev[k]);
                    assert(exists|i: int|
                        0 <= i < n - 1 && started_earlier(running[i], current, now) && #[trigger] cancellations(
                            running,
                            current,
                            now,
                            n - 1,
                        )[k] == cancelled(running[i]@, now));
                }
            }
        } else {
            assert(cur == prev);
        }
    }
}

/// What `cancel_earlier` writes back is exactly the runs that hold `current`
/// back: every run that counts as earlier than it (by start time, or by
/// creation time while neither has started) is cancelled, nothing else is,
/// and nothing is cancelled precisely when `current` may go ahead.
pub proof fn lemma_cancel_earlier_cancels_what_holds_back(
    running: Seq<WorkflowState>,
    current: WorkflowState,
    now: u64,
)
    ensures
        forall|i: int|
            0 <= i < running.len() && started_earlier(running[i], current, now) ==> #[trigger] cancellations(
                running,
                current,
                now,
                running.len() as int,
            ).contains(cancelled(running[i]@, now)),
        forall|k: int|
            0 <= k < cancellations(running, current, now, running.len() as int).len() ==> exists|i: int|
                0 <= i < running.len() && started_earlier(running[i], current, now)
                    && #[trigger] cancellations(running, current, now, running.len() as int)[k]
                    == cancelled(running[i]@, now),
        running.len() > 1 ==> (cancellations(running, current, now, running.len() as int).len() == 0
            <==> is_earliest_run(current, running, now)),
{
    let n = running.len() as int;
    lemma_cancellations_prefix(running, current, now, n);
    let c = cancellations(running, current, now, n);
    if running.len() > 1 {
        if c.len() == 0 {
            assert forall|i: int| 0 <= i < n implies !#[trigger] started_earlier(running[i], current, now) by {
                if started_earlier(running[i], current, now) {
                    assert(c.contains(cancelled(running[i]@, now)));
                }
            }
        } else {
            assert(c[0] == c[0]);
            let i = choose|i: int|
                0 <= i < n && started_earlier(running[i], current, now) && #[trigger] cancellations(
                    running,
                    current,
                    now,
                    n,
                )[0] == cancelled(running[i]@, now);
            assert(started_earlier(running[i], current, now));
        }
    }
}

/// A run not yet started that was created before `current` (which has not
/// started either) holds `current` back and is cancelled when `current`
/// replaces it.
pub proof fn lemma_run_created_earlier_is_cancelled(
    running: Seq<WorkflowState>,
    i: int,
    current: WorkflowState,
    now: u64,
)
    requires
        0 <= i < running.len(),
        running.len() > 1,
        running[i].run_id@ != current.run_id@,
        running[i].start_time is None,
        current.start_time is None,
        running[i].created_at matches Some(c) && c < (match current.created_at {
            Some(d) => d,
            None => now,
        }),
    ensures
        !is_earliest_run(current, running, now),
        cancellations(running, current, now, running.len() as int).contains(cancelled(running[i]@, now)),
{
    assert(started_earlier(running[i], current, now));
    lemma_cancel_earlier_cancels_what_holds_back(running, current, now);
}

} // verus!
