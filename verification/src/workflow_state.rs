//! The persisted state of one workflow run: its status, the results of the
//! activities it has completed, its errors, and its retry bookkeeping.
//! Times are milliseconds since the UNIX epoch.
use vstd::prelude::*;

use vstd::arithmetic::power2::{lemma2_to64, lemma_pow2_strictly_increases};
use vstd::bits::{lemma_u32_pow2_no_overflow, lemma_u32_shl_is_mul};

use crate::keyed::{find_key, has_key, lookup, unique_keys, upsert, upsert_vec, Keyed};
use crate::workflow::{clone_opt_string, WorkflowErrorType};

verus! {

/// A run that is still going.
#[derive(Clone, Copy, Debug, PartialEq, Eq, Structural)]
pub enum Open {
    Running,
}

/// How a run ended.
#[derive(Debug, PartialEq)]
pub enum Closed {
    Completed,
    Cancelled,
    Failed { error: WorkflowErrorType },
}

/// Whether a run is open or closed.
#[derive(Debug, PartialEq)]
pub enum WorkflowStatus {
    Open(Open),
    Closed(Closed),
}

impl Clone for Closed {
    fn clone(&self) -> (res: Self)
        ensures
            res == *self,
    {
        match self {
            Closed::Completed => Closed::Completed,
            Closed::Cancelled => Closed::Cancelled,
            Closed::Failed { error } => Closed::Failed { error: error.clone() },
        }
    }
}

impl Clone for WorkflowStatus {
    fn clone(&self) -> (res: Self)
        ensures
            res == *self,
    {
        match self {
            WorkflowStatus::Open(o) => WorkflowStatus::Open(*o),
            WorkflowStatus::Closed(c) => WorkflowStatus::Closed(c.clone()),
        }
    }
}

impl WorkflowStatus {
    /// The run is open and running.
    pub open spec fn spec_is_running(&self) -> bool {
        *self == WorkflowStatus::Open(Open::Running)
    }

    /// Whether the run is open and running.
    #[verifier::when_used_as_spec(spec_is_running)]
    pub fn is_running(&self) -> (r: bool)
        ensures
            r == self.spec_is_running(),
    {
        match self {
            WorkflowStatus::Open(Open::Running) => true,
            _ => false,
        }
    }

    /// The text shown for a status: `Running`, `Completed`, `Cancelled`,
    /// or `Failed ` followed by the `Debug` text of the error.
    pub fn to_string(&self) -> (s: String)
        ensures
            shows_status(s@, *self),
    {
        match self {
            WorkflowStatus::Open(Open::Running) => String::from_str("Running"),
            WorkflowStatus::Closed(Closed::Completed) => String::from_str("Completed"),
            WorkflowStatus::Closed(Closed::Cancelled) => String::from_str("Cancelled"),
            WorkflowStatus::Closed(Closed::Failed { error }) => {
                let detail = error_debug_text(error);
                let mut s = String::from_str("Failed ");
                s.append(detail.as_str());
                proof {
                    reveal_strlit("Failed ");
                    assert(s@ =~= "Failed "@ + error_debug_form(*error));
                }
                s
            },
        }
    }
}

/// The text that the derived `Debug` impl of [`WorkflowErrorType`] writes
/// for `e` (with `format!("{:?}")`).
pub uninterp spec fn error_debug_form(e: WorkflowErrorType) -> Seq<char>;

/// Writes an error with its derived `Debug` impl (`format!("{:?}")`). The
/// contract claims only that the text is the named `Debug` text of `e`; what
/// that text holds is left to the derived impl.
#[verifier::external_body]
fn error_debug_text(e: &WorkflowErrorType) -> (s: String)
    ensures
        s@ == error_debug_form(*e),
{
    format!("{:?}", e)
}

/// `text` is how `status` is shown: `Running`, `Completed`, `Cancelled`,
/// or, for a failure, `Failed ` followed by the error's `Debug` text.
pub open spec fn shows_status(text: Seq<char>, status: WorkflowStatus) -> bool {
    match status {
        WorkflowStatus::Open(_) => text == "Running"@,
        WorkflowStatus::Closed(Closed::Completed) => text == "Completed"@,
        WorkflowStatus::Closed(Closed::Cancelled) => text == "Cancelled"@,
        WorkflowStatus::Closed(Closed::Failed { error }) => text == "Failed "@ + error_debug_form(error),
    }
}

/// An error recorded against a run, with the activity that raised it.
#[derive(Debug, PartialEq)]
pub struct WorkflowError {
    pub error_type: WorkflowErrorType,
    pub activity_name: Option<String>,
    pub timestamp: u64,
}

impl Clone for WorkflowError {
    fn clone(&self) -> (res: Self)
        ensures
            res == *self,
    {
        WorkflowError {
            error_type: self.error_type.clone(),
            activity_name: clone_opt_string(&self.activity_name),
            timestamp: self.timestamp,
        }
    }
}

/// The cached result of a completed activity: its JSON text and when it was
/// recorded.
#[derive(Debug, PartialEq)]
pub struct ActivityResult {
    pub name: String,
    pub data: String,
    pub timestamp: u64,
}

impl Clone for ActivityResult {
    fn clone(&self) -> (res: Self)
        ensures
            res == *self,
    {
        ActivityResult { name: self.name.clone(), data: self.data.clone(), timestamp: self.timestamp }
    }
}

impl Keyed for ActivityResult {
    open spec fn key_of(&self) -> Seq<char> {
        self.name@
    }

    fn key(&self) -> (k: &str) {
        self.name.as_str()
    }
}

/// The creation time a new run gets at `now` when the last creation time
/// handed out was `last`: `now`, or the millisecond after `last` when `now`
/// is not past it, so that runs created one after another are told apart
/// by time.
pub fn next_creation_ms(last: u64, now: u64) -> (t: u64)
    requires
        last < u64::MAX,
    ensures
        t == if now > last {
            now
        } else {
            (last + 1) as u64
        },
        t > last,
        t >= now,
{
    if now > last {
        now
    } else {
        last + 1
    }
}

/// The abstract value of a [`WorkflowState`]: its fields, with the vectors
/// seen as sequences.
pub struct WorkflowStateView {
    pub workflow_type: String,
    pub instance_id: String,
    pub run_id: String,
    pub results: Seq<ActivityResult>,
    pub scheduled_at: u64,
    pub status: WorkflowStatus,
    pub retries: u32,
    pub max_retries: u32,
    pub output: Option<String>,
    pub errors: Seq<WorkflowError>,
    pub start_time: Option<u64>,
    pub end_time: Option<u64>,
    pub input: Option<String>,
    pub created_at: Option<u64>,
    pub updated_at: Option<u64>,
}

/// The number of retries a new run is allowed: with exponential backoff
/// they span about three days (see [`lemma_default_retries_span_three_days`]).
pub const DEFAULT_MAX_RETRIES: u32 = 17;

/// The base of the backoff, in milliseconds: the delay is this times two
/// to the power of the retries made so far.
pub const BASE_RETRY_DELAY_MS: u64 = 2000;

/// The largest retry count whose backoff delay is defined; a run is never
/// retried that often, and the delay `2^retries` is computed in 32 bits.
pub const MAX_BACKOFF_EXPONENT: u32 = 22;

/// The delay, in milliseconds, before the retry that follows `retries`
/// earlier ones: exponential backoff from [`BASE_RETRY_DELAY_MS`].
pub open spec fn backoff_delay(retries: nat) -> nat {
    (BASE_RETRY_DELAY_MS as nat) * vstd::arithmetic::power2::pow2(retries)
}

/// The state after a failed attempt: see [`WorkflowState::retry`].
pub open spec fn retried(s: WorkflowStateView, error: WorkflowErrorType, now: u64) -> WorkflowStateView {
    if s.retries < s.max_retries {
        let retries = (s.retries + 1) as u32;
        WorkflowStateView {
            retries,
            scheduled_at: if retries < s.max_retries {
                (now + backoff_delay(retries as nat)) as u64
            } else {
                s.scheduled_at
            },
            ..s
        }
    } else {
        s.with_status(WorkflowStatus::Closed(Closed::Failed { error }))
    }
}

/// The backoff delay for `retries` earlier retries: the base delay times
/// two to the power of `retries`.
pub fn backoff_delay_ms(retries: u32) -> (delay: u64)
    requires
        retries <= MAX_BACKOFF_EXPONENT,
    ensures
        delay == backoff_delay(retries as nat),
{
    proof {
        lemma_u32_pow2_no_overflow(retries as nat);
        lemma_u32_shl_is_mul(1, retries);
        lemma2_to64();
        if retries < MAX_BACKOFF_EXPONENT {
            lemma_pow2_strictly_increases(retries as nat, MAX_BACKOFF_EXPONENT as nat);
        }
    }
    let factor: u32 = 1u32 << retries;
    BASE_RETRY_DELAY_MS * (factor as u64)
}

/// One run of a workflow, as the engine stores it.
#[derive(Debug, PartialEq)]
pub struct WorkflowState {
    pub workflow_type: String,
    pub instance_id: String,
    pub run_id: String,
    /// Results of completed activities, at most one per activity name.
    pub results: Vec<ActivityResult>,
    pub scheduled_at: u64,
    pub status: WorkflowStatus,
    pub retries: u32,
    pub max_retries: u32,
    /// JSON text of the run's output.
    pub output: Option<String>,
    pub errors: Vec<WorkflowError>,
    pub start_time: Option<u64>,
    pub end_time: Option<u64>,
    /// JSON text of the run's input.
    pub input: Option<String>,
    pub created_at: Option<u64>,
    pub updated_at: Option<u64>,
}

impl View for WorkflowState {
    type V = WorkflowStateView;

    open spec fn view(&self) -> WorkflowStateView {
        WorkflowStateView {
            workflow_type: self.workflow_type,
            instance_id: self.instance_id,
            run_id: self.run_id,
            results: self.results@,
            scheduled_at: self.scheduled_at,
            status: self.status,
            retries: self.retries,
            max_retries: self.max_retries,
            output: self.output,
            errors: self.errors@,
            start_time: self.start_time,
            end_time: self.end_time,
            input: self.input,
            created_at: self.created_at,
            updated_at: self.updated_at,
        }
    }
}

impl Keyed for WorkflowState {
    open spec fn key_of(&self) -> Seq<char> {
        self.run_id@
    }

    fn key(&self) -> (k: &str) {
        self.run_id.as_str()
    }
}

impl WorkflowStateView {
    /// Activity names are unique among the results.
    pub open spec fn wf(self) -> bool {
        unique_keys(self.results)
    }

    /// The view with the result of activity `name` cached.
    pub open spec fn with_result(self, name: String, data: String, timestamp: u64) -> WorkflowStateView {
        WorkflowStateView {
            results: upsert(self.results, ActivityResult { name, data, timestamp }),
            ..self
        }
    }

    /// The view with `error` appended to the errors.
    pub open spec fn with_error(self, error: WorkflowError) -> WorkflowStateView {
        WorkflowStateView { errors: self.errors.push(error), ..self }
    }

    /// The view with a new status.
    pub open spec fn with_status(self, status: WorkflowStatus) -> WorkflowStateView {
        WorkflowStateView { status, ..self }
    }
}

/// Copies an optional time.
fn clone_opt_u64(t: &Option<u64>) -> (r: Option<u64>)
    ensures
        r == *t,
{
    match t {
        Some(x) => Some(*x),
        None => None,
    }
}

/// Copies a vector of records whose copies are equal to them.
fn clone_results(v: &Vec<ActivityResult>) -> (r: Vec<ActivityResult>)
    ensures
        r@ == v@,
{
    let mut r: Vec<ActivityResult> = Vec::new();
    let mut i: usize = 0;
    while i < v.len()
        invariant
            i <= v.len(),
            r@ == v@.take(i as int),
        decreases v.len() - i,
    {
        r.push(v[i].clone());
        i = i + 1;
        assert(r@ =~= v@.take(i as int));
    }
    assert(v@.take(i as int) =~= v@);
    r
}

/// Copies a vector of errors.
fn clone_errors(v: &Vec<WorkflowError>) -> (r: Vec<WorkflowError>)
    ensures
        r@ == v@,
{
    let mut r: Vec<WorkflowError> = Vec::new();
    let mut i: usize = 0;
    while i < v.len()
        invariant
            i <= v.len(),
            r@ == v@.take(i as int),
        decreases v.len() - i,
    {
        r.push(v[i].clone());
        i = i + 1;
        assert(r@ =~= v@.take(i as int));
    }
    assert(v@.take(i as int) =~= v@);
    r
}

impl Clone for WorkflowState {
    fn clone(&self) -> (res: Self)
        ensures
            res@ == self@,
    {
        WorkflowState {
            workflow_type: self.workflow_type.clone(),
            instance_id: self.instance_id.clone(),
            run_id: self.run_id.clone(),
            results: clone_results(&self.results),
            scheduled_at: self.scheduled_at,
            status: self.status.clone(),
            retries: self.retries,
            max_retries: self.max_retries,
            output: clone_opt_string(&self.output),
            errors: clone_errors(&self.errors),
            start_time: clone_opt_u64(&self.start_time),
            end_time: clone_opt_u64(&self.end_time),
            input: clone_opt_string(&self.input),
            created_at: clone_opt_u64(&self.created_at),
            updated_at: clone_opt_u64(&self.updated_at),
        }
    }
}

impl WorkflowState {
    /// `workflow_type` and `instance_id` joined by a hyphen.
    pub fn unique_id(&self) -> (id: String)
        ensures
            id@ == self.workflow_type@ + "-"@ + self.instance_id@,
    {
        let mut id = self.workflow_type.clone();
        id.append("-");
        id.append(self.instance_id.as_str());
        id
    }

    /// A new open run with the given run id, no results, no errors, no
    /// retries so far and the default retry allowance.
    pub fn with_run_id(
        workflow_type: &str,
        instance_id: &str,
        scheduled_at: u64,
        input: Option<String>,
        run_id: String,
    ) -> (s: Self)
        ensures
            s.workflow_type@ == workflow_type@,
            s.instance_id@ == instance_id@,
            s.run_id == run_id,
            s.results@ == Seq::<ActivityResult>::empty(),
            s.scheduled_at == scheduled_at,
            s.status == WorkflowStatus::Open(Open::Running),
            s.retries == 0,
            s.max_retries == DEFAULT_MAX_RETRIES,
            s.output is None,
            s.errors@ == Seq::<WorkflowError>::empty(),
            s.start_time is None,
            s.end_time is None,
            s.input == input,
            s.created_at is None,
            s.updated_at is None,
            s@.wf(),
    {
        WorkflowState {
            workflow_type: String::from_str(workflow_type),
            instance_id: String::from_str(instance_id),
            run_id,
            results: Vec::new(),
            scheduled_at,
            status: WorkflowStatus::Open(Open::Running),
            retries: 0,
            max_retries: DEFAULT_MAX_RETRIES,
            output: None,
            errors: Vec::new(),
            start_time: None,
            end_time: None,
            input,
            created_at: None,
            updated_at: None,
        }
    }

    /// A new open run under the run id `run_id`, created at `now`, with no
    /// results, no errors, no retries so far and the default retry
    /// allowance. The run id is made by the caller (a fresh CUID).
    pub fn new(
        workflow_type: &str,
        instance_id: &str,
        scheduled_at: u64,
        input: Option<String>,
        run_id: String,
        now: u64,
    ) -> (s: Self)
        ensures
            s.workflow_type@ == workflow_type@,
            s.instance_id@ == instance_id@,
            s.run_id == run_id,
            s.results@ == Seq::<ActivityResult>::empty(),
            s.scheduled_at == scheduled_at,
            s.status == WorkflowStatus::Open(Open::Running),
            s.retries == 0,
            s.max_retries == DEFAULT_MAX_RETRIES,
            s.output is None,
            s.errors@ == Seq::<WorkflowError>::empty(),
            s.start_time is None,
            s.end_time is None,
            s.input == input,
            s.created_at == Some(now),
            s.updated_at is None,
            s@.wf(),
    {
        let mut s = Self::with_run_id(workflow_type, instance_id, scheduled_at, input, run_id);
        s.created_at = Some(now);
        s
    }

    /// Closes the run as completed at `now`.
    pub fn mark_completed(&mut self, now: u64)
        ensures
            final(self)@ == (WorkflowStateView {
                status: WorkflowStatus::Closed(Closed::Completed),
                end_time: Some(now),
                ..old(self)@
            }),
    {
        self.status = WorkflowStatus::Closed(Closed::Completed);
        self.end_time = Some(now);
    }

    /// Closes the run as cancelled at `now`: another run of its instance
    /// has replaced it.
    pub fn mark_cancelled(&mut self, now: u64)
        ensures
            final(self)@ == (WorkflowStateView {
                status: WorkflowStatus::Closed(Closed::Cancelled),
                end_time: Some(now),
                ..old(self)@
            }),
    {
        self.status = WorkflowStatus::Closed(Closed::Cancelled);
        self.end_time = Some(now);
    }

    /// Closes the run as failed with `error`.
    pub fn mark_failed(&mut self, error: WorkflowErrorType)
        ensures
            final(self)@ == old(self)@.with_status(WorkflowStatus::Closed(Closed::Failed { error })),
    {
        self.status = WorkflowStatus::Closed(Closed::Failed { error });
    }

    /// Whether no two cached results share an activity name.
    pub fn results_unique(&self) -> (r: bool)
        ensures
            r == self@.wf(),
    {
        let n = self.results.len();
        let mut i: usize = 0;
        while i < n
            invariant
                n == self.results@.len(),
                i <= n,
                forall|a: int, b: int|
                    0 <= a < i && 0 <= b < n && a != b ==> #[trigger] self.results@[a].key_of()
                        != #[trigger] self.results@[b].key_of(),
            decreases n - i,
        {
            let mut j: usize = 0;
            while j < n
                invariant
                    n == self.results@.len(),
                    i < n,
                    j <= n,
                    forall|a: int, b: int|
                        0 <= a < i && 0 <= b < n && a != b ==> #[trigger] self.results@[a].key_of()
                            != #[trigger] self.results@[b].key_of(),
                    forall|b: int|
                        0 <= b < j && b != i ==> self.results@[i as int].key_of()
                            != #[trigger] self.results@[b].key_of(),
                decreases n - j,
            {
                if j != i && crate::keyed::str_eq(self.results[i].name.as_str(), self.results[j].name.as_str()) {
                    assert(self.results@[i as int].key_of() == self.results@[j as int].key_of());
                    return false;
                }
                j = j + 1;
            }
            i = i + 1;
        }
        true
    }

    /// Whether an activity of this name has a cached result.
    pub fn has_activity_result(&self, activity_name: &str) -> (r: bool)
        ensures
            r == has_key(self.results@, activity_name@),
    {
        find_key(&self.results, activity_name).is_some()
    }

    /// The cached JSON result of the activity of this name.
    pub fn get_activity_result(&self, activity_name: &str) -> (r: Option<&String>)
        ensures
            r is None <==> !has_key(self.results@, activity_name@),
            r == match lookup(self.results@, activity_name@) {
                Some(a) => Some(&a.data),
                None => None,
            },
    {
        match find_key(&self.results, activity_name) {
            Some(i) => Some(&self.results[i].data),
            None => None,
        }
    }

    /// Caches `result` (JSON text) as the result of the activity of this
    /// name, recorded at `timestamp`; an earlier result of that name is
    /// replaced.
    pub fn add_activity_result(&mut self, activity_name: &str, result: String, timestamp: u64)
        ensures
            exists|name: String|
                name@ == activity_name@ && final(self)@ == #[trigger] old(self)@.with_result(
                    name,
                    result,
                    timestamp,
                ),
            old(self)@.wf() ==> final(self)@.wf(),
    {
        let entry = ActivityResult { name: String::from_str(activity_name), data: result, timestamp };
        let ghost name = entry.name;
        upsert_vec(&mut self.results, entry);
        assert(self@ == old(self)@.with_result(name, result, timestamp));
    }

    /// When the next retry is due: `now` plus the backoff for the retries
    /// made so far, or `None` once no retries are left.
    pub fn calculate_next_retry(&self, now: u64) -> (next: Option<u64>)
        requires
            self.retries < self.max_retries ==> self.retries <= MAX_BACKOFF_EXPONENT && now
                + backoff_delay(self.retries as nat) <= u64::MAX,
        ensures
            next == if self.retries >= self.max_retries {
                None
            } else {
                Some((now + backoff_delay(self.retries as nat)) as u64)
            },
    {
        if self.retries >= self.max_retries {
            return None;
        }
        let delay = backoff_delay_ms(self.retries);
        Some(now + delay)
    }

    /// Counts a failed attempt. While retries are left, the count goes up
    /// and the run is rescheduled by the backoff (unless that was the last
    /// retry, which leaves the schedule as it was); otherwise the run is
    /// closed as failed with `error`.
    pub fn retry(&mut self, error: WorkflowErrorType, now: u64)
        requires
            old(self).retries < old(self).max_retries && old(self).retries + 1 < old(self).max_retries
                ==> old(self).retries + 1 <= MAX_BACKOFF_EXPONENT && now + backoff_delay(
                (old(self).retries + 1) as nat,
            ) <= u64::MAX,
        ensures
            final(self)@ == retried(old(self)@, error, now),
    {
        if self.retries < self.max_retries {
            self.retries = self.retries + 1;
            if let Some(next_time) = self.calculate_next_retry(now) {
                self.scheduled_at = next_time;
            }
        } else {
            self.status = WorkflowStatus::Closed(Closed::Failed { error });
        }
    }
}

/// The delays a run's retries schedule while it has `max` retries in all:
/// the retry counts 1 to `max - 1` each wait their backoff (the last retry
/// schedules nothing; the failure after it fails the run).
pub open spec fn backoff_total(max: nat) -> nat
    decreases max,
{
    if max <= 1 {
        0
    } else {
        backoff_total((max - 1) as nat) + backoff_delay((max - 1) as nat)
    }
}

/// A new run retried each time it falls due waits 262,140 seconds in all
/// before it fails: about three days (259,200 seconds) and a bit.
pub proof fn lemma_default_retries_span_three_days()
    ensures
        backoff_total(DEFAULT_MAX_RETRIES as nat) == 262_140_000,
        backoff_total(DEFAULT_MAX_RETRIES as nat) >= 3 * 24 * 60 * 60 * 1000,
{
    lemma2_to64();
    reveal_with_fuel(backoff_total, 18);
}

/// Each retry doubles the backoff delay.
pub proof fn lemma_backoff_doubles(retries: nat)
    ensures
        backoff_delay(retries + 1) == 2 * backoff_delay(retries),
{
    vstd::arithmetic::power2::lemma_pow2_unfold(retries + 1);
    let p = vstd::arithmetic::power2::pow2(retries);
    assert(backoff_delay(retries + 1) == BASE_RETRY_DELAY_MS * (2 * p));
    assert(BASE_RETRY_DELAY_MS * (2 * p) == 2 * (BASE_RETRY_DELAY_MS * p)) by (nonlinear_arith);
}

/// A failed attempt never takes the retry count past the allowance, and
/// once the allowance is used up it fails the run with the error.
pub proof fn lemma_retry_bounded(s: WorkflowStateView, error: WorkflowErrorType, now: u64)
    requires
        s.retries <= s.max_retries,
    ensures
        retried(s, error, now).retries <= s.max_retries,
        retried(s, error, now).max_retries == s.max_retries,
        s.retries == s.max_retries ==> retried(s, error, now).status == WorkflowStatus::Closed(
            Closed::Failed { error },
        ),
        s.retries < s.max_retries ==> retried(s, error, now).status == s.status
            && retried(s, error, now).retries == s.retries + 1,
{
}

/// Once an activity's result is recorded, it is the cached result found
/// under the activity's name, and the results of other activities are
/// untouched.
pub proof fn lemma_recorded_result_is_cached(
    s: WorkflowStateView,
    name: String,
    data: String,
    timestamp: u64,
    other: Seq<char>,
)
    ensures
        s.wf() ==> s.with_result(name, data, timestamp).wf(),
        lookup(s.with_result(name, data, timestamp).results, name@) == Some(
            ActivityResult { name, data, timestamp },
        ),
        other != name@ ==> lookup(s.with_result(name, data, timestamp).results, other) == lookup(
            s.results,
            other,
        ),
{
    let entry = ActivityResult { name, data, timestamp };
    if s.wf() {
        crate::keyed::lemma_upsert_unique(s.results, entry);
    }
    crate::keyed::lemma_upsert_lookup_same(s.results, entry);
    if other != name@ {
        crate::keyed::lemma_upsert_lookup_other(s.results, entry, other);
    }
}

} // verus!
