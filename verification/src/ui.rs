//! What the web pages show of a run: its activities, errors and signals as
//! one list of actions ordered by their displayed times.
use vstd::prelude::*;

use crate::worker::lemma_filter_insert;
use crate::db_trait::lemma_filter_take_push;
use crate::workflow::clone_opt_string;
use crate::workflow_signal::{Signal, SignalDirection};
use crate::workflow_state::{ActivityResult, WorkflowError, WorkflowState};

verus! {

/// `a` comes no later than `b` in character-by-character order.
pub open spec fn text_le(a: Seq<char>, b: Seq<char>) -> bool
    decreases a.len(),
{
    if a.len() == 0 {
        true
    } else if b.len() == 0 {
        false
    } else if (a[0] as u32) != (b[0] as u32) {
        (a[0] as u32) < (b[0] as u32)
    } else {
        text_le(a.drop_first(), b.drop_first())
    }
}

/// Any two texts are ordered one way or the other.
pub proof fn lemma_text_le_total(a: Seq<char>, b: Seq<char>)
    ensures
        text_le(a, b) || text_le(b, a),
    decreases a.len(),
{
    if a.len() > 0 && b.len() > 0 && (a[0] as u32) == (b[0] as u32) {
        lemma_text_le_total(a.drop_first(), b.drop_first());
    }
}

/// Every text comes no later than itself.
pub proof fn lemma_text_le_reflexive(a: Seq<char>)
    ensures
        text_le(a, a),
    decreases a.len(),
{
    if a.len() > 0 {
        lemma_text_le_reflexive(a.drop_first());
    }
}

/// The order is transitive.
pub proof fn lemma_text_le_transitive(a: Seq<char>, b: Seq<char>, c: Seq<char>)
    requires
        text_le(a, b),
        text_le(b, c),
    ensures
        text_le(a, c),
    decreases a.len(),
{
    if a.len() > 0 && b.len() > 0 && c.len() > 0 && (a[0] as u32) == (b[0] as u32) && (b[0] as u32) == (
    c[0] as u32) {
        lemma_text_le_transitive(a.drop_first(), b.drop_first(), c.drop_first());
    }
}

/// Whether `a` comes no later than `b` in character-by-character order.
pub fn text_le_exec(a: &str, b: &str) -> (r: bool)
    ensures
        r == text_le(a@, b@),
{
    let n = a.unicode_len();
    let m = b.unicode_len();
    let mut i: usize = 0;
    assert(a@.skip(0) =~= a@ && b@.skip(0) =~= b@);
    while i < n && i < m
        invariant
            n == a@.len(),
            m == b@.len(),
            i <= n,
            i <= m,
            text_le(a@, b@) == text_le(a@.skip(i as int), b@.skip(i as int)),
        decreases n - i,
    {
        let x = a.get_char(i);
        let y = b.get_char(i);
        assert(a@.skip(i as int)[0] == x && b@.skip(i as int)[0] == y);
        if (x as u32) != (y as u32) {
            return (x as u32) < (y as u32);
        }
        assert(a@.skip(i as int).drop_first() =~= a@.skip(i + 1));
        assert(b@.skip(i as int).drop_first() =~= b@.skip(i + 1));
        i = i + 1;
    }
    i == n
}

/// The time `ms` (milliseconds since the UNIX epoch) as chrono writes it in
/// UTC with the format `%Y-%m-%d %H:%M:%S`.
pub uninterp spec fn displayed_time(ms: u64) -> Seq<char>;

/// The time `ms` as chrono writes it in UTC in RFC 3339 form.
pub uninterp spec fn rfc3339_time(ms: u64) -> Seq<char>;

/// The pretty-printed form `serde_json` gives the JSON document `text`, or
/// `None` when `text` is not JSON.
pub uninterp spec fn pretty_json_text(text: Seq<char>) -> Option<Seq<char>>;

/// The last millisecond chrono can represent: the end of the year 262142.
pub const LATEST_DISPLAYABLE_MS: u64 = 8_210_266_876_799_999;

/// Formats `ms` with `chrono::DateTime::<Utc>::from_timestamp_millis` and
/// `format("%Y-%m-%d %H:%M:%S")`. The contract claims that the text is the
/// named display of `ms`, and that chrono represents every time up to
/// [`LATEST_DISPLAYABLE_MS`] (its documented range ends in the year 262142).
#[verifier::external_body]
fn format_utc(ms: u64) -> (text: Option<String>)
    requires
        ms <= LATEST_DISPLAYABLE_MS,
    ensures
        text is Some,
        text->0@ == displayed_time(ms),
{
    chrono::DateTime::from_timestamp_millis(ms as i64).map(
        |t| t.format("%Y-%m-%d %H:%M:%S").to_string(),
    )
}

/// Formats `ms` with `chrono::DateTime::<Utc>::from_timestamp_millis` and
/// `to_rfc3339`. The contract claims that the text is the named RFC 3339
/// form of `ms`, available for every time up to [`LATEST_DISPLAYABLE_MS`].
#[verifier::external_body]
fn format_rfc3339(ms: u64) -> (text: Option<String>)
    requires
        ms <= LATEST_DISPLAYABLE_MS,
    ensures
        text is Some,
        text->0@ == rfc3339_time(ms),
{
    chrono::DateTime::from_timestamp_millis(ms as i64).map(|t| t.to_rfc3339())
}

/// Pretty-prints the JSON document `text` with `serde_json::to_string_pretty`
/// after reading it with `serde_json::from_str`. The contract claims that the
/// outcome is the named pretty form of `text`.
#[verifier::external_body]
fn pretty_json(text: &str) -> (pretty: Option<String>)
    ensures
        match pretty {
            Some(p) => pretty_json_text(text@) == Some(p@),
            None => pretty_json_text(text@) is None,
        },
{
    serde_json::from_str::<serde_json::Value>(text).ok().and_then(
        |v| serde_json::to_string_pretty(&v).ok(),
    )
}

/// How a time is shown on the pages.
pub fn system_time_to_string(ms: u64) -> (text: String)
    requires
        ms <= LATEST_DISPLAYABLE_MS,
    ensures
        text@ == displayed_time(ms),
{
    match format_utc(ms) {
        Some(t) => t,
        None => String::new(),
    }
}

/// A time as an RFC 3339 text, as used for paging cursors.
pub fn system_time_to_rfc3339(ms: u64) -> (text: String)
    requires
        ms <= LATEST_DISPLAYABLE_MS,
    ensures
        text@ == rfc3339_time(ms),
{
    match format_rfc3339(ms) {
        Some(t) => t,
        None => String::new(),
    }
}

/// A JSON document as shown on the pages: pretty-printed, or `{}` when it
/// cannot be read.
pub open spec fn displayed_json(text: Seq<char>) -> Seq<char> {
    match pretty_json_text(text) {
        Some(p) => p,
        None => "{}"@,
    }
}

/// Shows a JSON document (see [`displayed_json`]).
pub fn display_json(text: &str) -> (shown: String)
    ensures
        shown@ == displayed_json(text@),
{
    match pretty_json(text) {
        Some(p) => p,
        None => {
            proof {
                reveal_strlit("{}");
            }
            String::from_str("{}")
        },
    }
}

/// A notice shown at the top of a page.
#[derive(Debug)]
pub struct Toast {
    pub variant: String,
    pub title: String,
}

/// What every page shows: its title and an optional notice.
#[derive(Debug)]
pub struct BaseContext {
    pub title: String,
    pub toast: Option<Toast>,
}

/// An activity result as shown.
#[derive(Debug)]
pub struct ActivityView {
    pub name: String,
    pub data: String,
    pub timestamp: String,
}

/// A signal as shown.
#[derive(Debug)]
pub struct SignalView {
    pub signal_name: String,
    pub direction: SignalDirection,
    pub payload: String,
    pub sent_at: String,
    pub processed_at: Option<String>,
}

/// The times of a result can be shown.
pub open spec fn activity_displayable(a: ActivityResult) -> bool {
    a.timestamp <= LATEST_DISPLAYABLE_MS
}

/// The times of a signal can be shown.
pub open spec fn signal_displayable(s: Signal) -> bool {
    s.sent_at <= LATEST_DISPLAYABLE_MS && (s.processed_at matches Some(t) ==> t
        <= LATEST_DISPLAYABLE_MS)
}

/// `v` shows the activity result `a`.
pub open spec fn shows_activity(v: ActivityView, a: ActivityResult) -> bool {
    v.name == a.name && v.data@ == displayed_json(a.data@) && v.timestamp@ == displayed_time(
        a.timestamp,
    )
}

/// `v` shows the signal `s`.
pub open spec fn shows_signal(v: SignalView, s: Signal) -> bool {
    &&& v.signal_name == s.signal_name
    &&& v.direction == s.direction
    &&& v.payload@ == displayed_json(s.data@)
    &&& v.sent_at@ == displayed_time(s.sent_at)
    &&& match s.processed_at {
        Some(t) => v.processed_at matches Some(p) && p@ == displayed_time(t),
        None => v.processed_at is None,
    }
}

impl ActivityView {
    /// How an activity result is shown.
    pub fn new(activity: &ActivityResult) -> (v: ActivityView)
        requires
            activity_displayable(*activity),
        ensures
            shows_activity(v, *activity),
    {
        ActivityView {
            name: activity.name.clone(),
            data: display_json(activity.data.as_str()),
            timestamp: system_time_to_string(activity.timestamp),
        }
    }
}

impl SignalView {
    /// How a signal is shown.
    pub fn new(signal: &Signal) -> (v: SignalView)
        requires
            signal_displayable(*signal),
        ensures
            shows_signal(v, *signal),
    {
        SignalView {
            signal_name: signal.signal_name.clone(),
            direction: signal.direction,
            payload: display_json(signal.data.as_str()),
            sent_at: system_time_to_string(signal.sent_at),
            processed_at: match signal.processed_at {
                Some(t) => Some(system_time_to_string(t)),
                None => None,
            },
        }
    }
}

/// One entry of a run's history.
#[derive(Debug)]
pub enum WorkflowAction {
    SentSignal(SignalView),
    ReceivedSignal(SignalView),
    Activity(ActivityView),
    Error(WorkflowError),
}

/// What an entry of a run's history is made from.
#[derive(Debug)]
pub enum ActionSource {
    Signal(Signal),
    Activity(ActivityResult),
    Error(WorkflowError),
}

impl Clone for ActionSource {
    fn clone(&self) -> (res: Self)
        ensures
            res == *self,
    {
        match self {
            ActionSource::Signal(s) => ActionSource::Signal(s.clone()),
            ActionSource::Activity(a) => ActionSource::Activity(a.clone()),
            ActionSource::Error(e) => ActionSource::Error(e.clone()),
        }
    }
}

/// The displayed time an entry is ordered by: when a signal from the run
/// was sent, when a signal to the run was processed (or sent, if it has not
/// been), when a result was recorded, when an error happened.
pub open spec fn source_key(s: ActionSource) -> Seq<char> {
    match s {
        ActionSource::Signal(sig) => match sig.direction {
            SignalDirection::FromWorkflow => displayed_time(sig.sent_at),
            SignalDirection::ToWorkflow => displayed_time(
                match sig.processed_at {
                    Some(t) => t,
                    None => sig.sent_at,
                },
            ),
        },
        ActionSource::Activity(a) => displayed_time(a.timestamp),
        ActionSource::Error(e) => displayed_time(e.timestamp),
    }
}

/// The times of an entry can be shown.
pub open spec fn source_displayable(s: ActionSource) -> bool {
    match s {
        ActionSource::Signal(sig) => signal_displayable(sig),
        ActionSource::Activity(a) => activity_displayable(a),
        ActionSource::Error(e) => e.timestamp <= LATEST_DISPLAYABLE_MS,
    }
}

/// `a` shows the entry made from `s`.
pub open spec fn shows_source(a: WorkflowAction, s: ActionSource) -> bool {
    match s {
        ActionSource::Signal(sig) => match sig.direction {
            SignalDirection::FromWorkflow => a matches WorkflowAction::SentSignal(v) && shows_signal(
                v,
                sig,
            ),
            SignalDirection::ToWorkflow => a matches WorkflowAction::ReceivedSignal(v)
                && shows_signal(v, sig),
        },
        ActionSource::Activity(r) => a matches WorkflowAction::Activity(v) && shows_activity(v, r),
        ActionSource::Error(e) => a == WorkflowAction::Error(e),
    }
}

/// The ordering key of an entry.
fn source_key_text(s: &ActionSource) -> (k: String)
    requires
        source_displayable(*s),
    ensures
        k@ == source_key(*s),
{
    match s {
        ActionSource::Signal(sig) => match sig.direction {
            SignalDirection::FromWorkflow => system_time_to_string(sig.sent_at),
            SignalDirection::ToWorkflow => system_time_to_string(
                match sig.processed_at {
                    Some(t) => t,
                    None => sig.sent_at,
                },
            ),
        },
        ActionSource::Activity(a) => system_time_to_string(a.timestamp),
        ActionSource::Error(e) => system_time_to_string(e.timestamp),
    }
}

/// How an entry is shown.
fn show_source(s: ActionSource) -> (a: WorkflowAction)
    requires
        source_displayable(s),
    ensures
        shows_source(a, s),
{
    match s {
        ActionSource::Signal(sig) => match sig.direction {
            SignalDirection::FromWorkflow => WorkflowAction::SentSignal(SignalView::new(&sig)),
            SignalDirection::ToWorkflow => WorkflowAction::ReceivedSignal(SignalView::new(&sig)),
        },
        ActionSource::Activity(r) => WorkflowAction::Activity(ActivityView::new(&r)),
        ActionSource::Error(e) => WorkflowAction::Error(e),
    }
}

/// The predicate "ordered by the text `k`".
pub open spec fn key_is(k: Seq<char>) -> spec_fn(ActionSource) -> bool {
    |s: ActionSource| source_key(s) == k
}

/// Entries in order of their keys.
pub open spec fn sorted_by_key(s: Seq<ActionSource>) -> bool {
    forall|i: int, j: int| 0 <= i <= j < s.len() ==> text_le(
        source_key(#[trigger] s[i]),
        source_key(#[trigger] s[j]),
    )
}

/// `out` holds the entries of `inp`, and entries with the same key keep
/// their order from `inp` (with [`sorted_by_key`], `out` is the stable sort
/// of `inp`).
pub open spec fn stable_by_key(out: Seq<ActionSource>, inp: Seq<ActionSource>) -> bool {
    forall|k: Seq<char>| #[trigger] out.filter(key_is(k)) == inp.filter(key_is(k))
}

/// Inserting `x` after every entry whose key comes no later than its own.
proof fn lemma_insert_by_key(r: Seq<ActionSource>, p: int, x: ActionSource)
    requires
        sorted_by_key(r),
        0 <= p <= r.len(),
        forall|j: int| 0 <= j < p ==> text_le(source_key(#[trigger] r[j]), source_key(x)),
        p < r.len() ==> !text_le(source_key(r[p]), source_key(x)),
    ensures
        sorted_by_key(r.insert(p, x)),
        forall|k: Seq<char>|
            #[trigger] r.insert(p, x).filter(key_is(k)) == if k == source_key(x) {
                r.filter(key_is(k)).push(x)
            } else {
                r.filter(key_is(k))
            },
{
    let r2 = r.insert(p, x);
    // Every entry from `p` on has a key strictly after that of `x`.
    assert forall|j: int| p <= j < r.len() implies !text_le(source_key(#[trigger] r[j]), source_key(x))
        && text_le(source_key(x), source_key(r[j])) by {
        if text_le(source_key(r[j]), source_key(x)) {
            lemma_text_le_transitive(source_key(r[p]), source_key(r[j]), source_key(x));
        }
        lemma_text_le_total(source_key(r[j]), source_key(x));
    }
    assert forall|i: int, j: int| 0 <= i <= j < r2.len() implies text_le(
        source_key(#[trigger] r2[i]),
        source_key(#[trigger] r2[j]),
    ) by {
        lemma_text_le_reflexive(source_key(x));
        if i < p && j == p {
        } else if i == p && j > p {
        } else if i < p && j > p {
            lemma_text_le_transitive(source_key(r[i]), source_key(x), source_key(r[j - 1]));
        } else if i < p && j < p {
        } else if i > p && j > p {
            assert(r2[i] == r[i - 1] && r2[j] == r[j - 1]);
        }
    }
    assert forall|k: Seq<char>|
        #[trigger] r.insert(p, x).filter(key_is(k)) == if k == source_key(x) {
            r.filter(key_is(k)).push(x)
        } else {
            r.filter(key_is(k))
        } by {
        lemma_text_le_reflexive(source_key(x));
        lemma_filter_insert(r, p, x, key_is(k));
    }
}

/// The entries ordered by their keys; entries with the same key keep their
/// order.
fn sort_by_key(items: &Vec<ActionSource>) -> (sorted: Vec<ActionSource>)
    requires
        forall|i: int| 0 <= i < items@.len() ==> source_displayable(#[trigger] items@[i]),
    ensures
        sorted_by_key(sorted@),
        stable_by_key(sorted@, items@),
        forall|i: int| 0 <= i < sorted@.len() ==> source_displayable(#[trigger] sorted@[i]),
{
    let mut sorted: Vec<ActionSource> = Vec::new();
    let mut i: usize = 0;
    while i < items.len()
        invariant
            i <= items@.len(),
            forall|i: int| 0 <= i < items@.len() ==> source_displayable(#[trigger] items@[i]),
            forall|i: int| 0 <= i < sorted@.len() ==> source_displayable(#[trigger] sorted@[i]),
            sorted_by_key(sorted@),
            forall|k: Seq<char>| #[trigger] sorted@.filter(key_is(k)) == items@.take(i as int).filter(
                key_is(k),
            ),
        decreases items@.len() - i,
    {
        let x = items[i].clone();
        let xk = source_key_text(&x);
        let mut p: usize = 0;
        while p < sorted.len() && text_le_exec(source_key_text(&sorted[p]).as_str(), xk.as_str())
            invariant
                p <= sorted@.len(),
                xk@ == source_key(x),
                forall|i: int| 0 <= i < sorted@.len() ==> source_displayable(#[trigger] sorted@[i]),
                forall|j: int| 0 <= j < p ==> text_le(source_key(#[trigger] sorted@[j]), source_key(x)),
            decreases sorted@.len() - p,
        {
            p = p + 1;
        }
        proof {
            lemma_insert_by_key(sorted@, p as int, x);
            assert forall|k: Seq<char>|
                #[trigger] sorted@.insert(p as int, x).filter(key_is(k)) == items@.take(i + 1).filter(
                    key_is(k),
                ) by {
                lemma_filter_take_push(items@, key_is(k), i as int);
            }
        }
        sorted.insert(p, x);
        i = i + 1;
    }
    assert(items@.take(i as int) =~= items@);
    sorted
}

/// The entries of a run's history before ordering: the signals, then the
/// run's activity results, then its errors.
pub open spec fn action_sources(w: WorkflowState, signals: Seq<Signal>) -> Seq<ActionSource> {
    signals.map_values(|s: Signal| ActionSource::Signal(s)) + w.results@.map_values(
        |a: ActivityResult| ActionSource::Activity(a),
    ) + w.errors@.map_values(|e: WorkflowError| ActionSource::Error(e))
}

/// An optional time can be shown.
pub open spec fn opt_displayable(t: Option<u64>) -> bool {
    t matches Some(x) ==> x <= LATEST_DISPLAYABLE_MS
}

/// Every time of a run and of its signals can be shown.
pub open spec fn workflow_displayable(w: WorkflowState, signals: Seq<Signal>) -> bool {
    &&& w.scheduled_at <= LATEST_DISPLAYABLE_MS
    &&& opt_displayable(w.start_time)
    &&& opt_displayable(w.end_time)
    &&& opt_displayable(w.updated_at)
    &&& forall|i: int| 0 <= i < signals.len() ==> signal_displayable(#[trigger] signals[i])
    &&& forall|i: int| 0 <= i < w.results@.len() ==> activity_displayable(#[trigger] w.results@[i])
    &&& forall|i: int| 0 <= i < w.errors@.len() ==> (#[trigger] w.errors@[i]).timestamp
        <= LATEST_DISPLAYABLE_MS
}

/// Whether an optional time can be shown.
fn opt_displayable_exec(t: Option<u64>) -> (r: bool)
    ensures
        r == opt_displayable(t),
{
    match t {
        Some(x) => x <= LATEST_DISPLAYABLE_MS,
        None => true,
    }
}

/// Whether every time of a run and of its signals can be shown.
pub fn is_workflow_displayable(w: &WorkflowState, signals: &[Signal]) -> (r: bool)
    ensures
        r == workflow_displayable(*w, signals@),
{
    if !(w.scheduled_at <= LATEST_DISPLAYABLE_MS && opt_displayable_exec(w.start_time)
        && opt_displayable_exec(w.end_time) && opt_displayable_exec(w.updated_at)) {
        return false;
    }
    let mut i: usize = 0;
    while i < signals.len()
        invariant
            i <= signals@.len(),
            forall|j: int| 0 <= j < i ==> signal_displayable(#[trigger] signals@[j]),
        decreases signals@.len() - i,
    {
        let s = &signals[i];
        if !(s.sent_at <= LATEST_DISPLAYABLE_MS && opt_displayable_exec(s.processed_at)) {
            return false;
        }
        i = i + 1;
    }
    let mut i: usize = 0;
    while i < w.results.len()
        invariant
            i <= w.results@.len(),
            forall|j: int| 0 <= j < i ==> activity_displayable(#[trigger] w.results@[j]),
        decreases w.results@.len() - i,
    {
        if w.results[i].timestamp > LATEST_DISPLAYABLE_MS {
            return false;
        }
        i = i + 1;
    }
    let mut i: usize = 0;
    while i < w.errors.len()
        invariant
            i <= w.errors@.len(),
            forall|j: int| 0 <= j < i ==> (#[trigger] w.errors@[j]).timestamp <= LATEST_DISPLAYABLE_MS,
        decreases w.errors@.len() - i,
    {
        if w.errors[i].timestamp > LATEST_DISPLAYABLE_MS {
            return false;
        }
        i = i + 1;
    }
    true
}

/// An optional time as shown.
pub open spec fn shows_opt_time(v: Option<String>, t: Option<u64>) -> bool {
    match t {
        Some(x) => v matches Some(s) && s@ == displayed_time(x),
        None => v is None,
    }
}

/// Shows an optional time.
fn opt_time_to_string(t: Option<u64>) -> (v: Option<String>)
    requires
        opt_displayable(t),
    ensures
        shows_opt_time(v, t),
{
    match t {
        Some(x) => Some(system_time_to_string(x)),
        None => None,
    }
}

/// A run as its page shows it.
#[derive(Debug)]
pub struct WorkflowView {
    pub run_id: String,
    pub instance_id: String,
    pub name: String,
    pub status: String,
    pub start_time: Option<String>,
    pub end_time: Option<String>,
    pub actions: Vec<WorkflowAction>,
    pub updated_at: Option<String>,
    pub scheduled_at: Option<String>,
}

impl WorkflowView {
    /// How a run is shown, with its signals: its history is its signals,
    /// results and errors, each shown, ordered by displayed time (entries
    /// shown at the same time keep that order).
    pub fn new(workflow: &WorkflowState, filtered_signals: &[Signal]) -> (v: WorkflowView)
        requires
            workflow_displayable(*workflow, filtered_signals@),
        ensures
            v.name == workflow.workflow_type,
            v.run_id == workflow.run_id,
            v.instance_id == workflow.instance_id,
            crate::workflow_state::shows_status(v.status@, workflow.status),
            shows_opt_time(v.start_time, workflow.start_time),
            shows_opt_time(v.end_time, workflow.end_time),
            shows_opt_time(v.updated_at, workflow.updated_at),
            v.scheduled_at matches Some(t) && t@ == displayed_time(workflow.scheduled_at),
            exists|sorted: Seq<ActionSource>|
                sorted_by_key(sorted) && #[trigger] stable_by_key(
                    sorted,
                    action_sources(*workflow, filtered_signals@),
                ) && v.actions@.len() == sorted.len() && forall|i: int|
                    0 <= i < sorted.len() ==> shows_source(#[trigger] v.actions@[i], sorted[i]),
    {
        let ghost sources = action_sources(*workflow, filtered_signals@);
        let ghost sigs = filtered_signals@.map_values(|s: Signal| ActionSource::Signal(s));
        let ghost acts = workflow.results@.map_values(|a: ActivityResult| ActionSource::Activity(a));
        let ghost errs = workflow.errors@.map_values(|e: WorkflowError| ActionSource::Error(e));
        let mut items: Vec<ActionSource> = Vec::new();
        let mut i: usize = 0;
        while i < filtered_signals.len()
            invariant
                i <= filtered_signals@.len(),
                workflow_displayable(*workflow, filtered_signals@),
                sigs == filtered_signals@.map_values(|s: Signal| ActionSource::Signal(s)),
                items@ == sigs.take(i as int),
                forall|j: int| 0 <= j < items@.len() ==> source_displayable(#[trigger] items@[j]),
            decreases filtered_signals@.len() - i,
        {
            items.push(ActionSource::Signal(filtered_signals[i].clone()));
            i = i + 1;
            assert(items@ =~= sigs.take(i as int));
        }
        assert(sigs.take(i as int) =~= sigs);
        let mut i: usize = 0;
        while i < workflow.results.len()
            invariant
                i <= workflow.results@.len(),
                workflow_displayable(*workflow, filtered_signals@),
                acts == workflow.results@.map_values(|a: ActivityResult| ActionSource::Activity(a)),
                items@ == sigs + acts.take(i as int),
                forall|j: int| 0 <= j < items@.len() ==> source_displayable(#[trigger] items@[j]),
            decreases workflow.results@.len() - i,
        {
            items.push(ActionSource::Activity(workflow.results[i].clone()));
            i = i + 1;
            assert(items@ =~= sigs + acts.take(i as int));
        }
        assert(acts.take(i as int) =~= acts);
        let mut i: usize = 0;
        while i < workflow.errors.len()
            invariant
                i <= workflow.errors@.len(),
                workflow_displayable(*workflow, filtered_signals@),
                errs == workflow.errors@.map_values(|e: WorkflowError| ActionSource::Error(e)),
                items@ == sigs + acts + errs.take(i as int),
                forall|j: int| 0 <= j < items@.len() ==> source_displayable(#[trigger] items@[j]),
            decreases workflow.errors@.len() - i,
        {
            items.push(ActionSource::Error(workflow.errors[i].clone()));
            i = i + 1;
            assert(items@ =~= sigs + acts + errs.take(i as int));
        }
        assert(errs.take(i as int) =~= errs);
        assert(items@ =~= sources);
        let sorted = sort_by_key(&items);
        let mut actions: Vec<WorkflowAction> = Vec::new();
        let mut i: usize = 0;
        while i < sorted.len()
            invariant
                i <= sorted@.len(),
                forall|j: int| 0 <= j < sorted@.len() ==> source_displayable(#[trigger] sorted@[j]),
                actions@.len() == i,
                forall|j: int| 0 <= j < i ==> shows_source(#[trigger] actions@[j], sorted@[j]),
            decreases sorted@.len() - i,
        {
            actions.push(show_source(sorted[i].clone()));
            i = i + 1;
        }
        WorkflowView {
            name: workflow.workflow_type.clone(),
            run_id: workflow.run_id.clone(),
            instance_id: workflow.instance_id.clone(),
            status: workflow.status.to_string(),
            start_time: opt_time_to_string(workflow.start_time),
            end_time: opt_time_to_string(workflow.end_time),
            actions,
            updated_at: opt_time_to_string(workflow.updated_at),
            scheduled_at: Some(system_time_to_string(workflow.scheduled_at)),
        }
    }
}

/// The whole seconds since the UNIX epoch (rounded down) of the RFC 3339
/// time `text`, as chrono reads it; `None` when chrono cannot read it.
pub uninterp spec fn rfc3339_seconds(text: Seq<char>) -> Option<int>;

#[verifier::external_type_specification]
#[verifier::external_body]
pub struct ExChronoParseError(chrono::ParseError);

/// Reads an RFC 3339 time with `chrono::DateTime::parse_from_rfc3339` and
/// takes its `timestamp()`. The contract claims that the outcome is the
/// named reading of `text`.
#[verifier::external_body]
fn parse_rfc3339_seconds(text: &str) -> (secs: Result<i64, chrono::ParseError>)
    ensures
        match secs {
            Ok(s) => rfc3339_seconds(text@) == Some(s as int),
            Err(_) => rfc3339_seconds(text@) is None,
        },
{
    let t = chrono::DateTime::parse_from_rfc3339(text)?;
    Ok(t.timestamp())
}

/// `text` with every space turned into `+` (a `+` in a query string
/// arrives as a space).
pub open spec fn spaces_to_plus(text: Seq<char>) -> Seq<char> {
    text.map_values(|c: char| if c == ' ' { '+' } else { c })
}

/// The paging cursor `cursor` (an RFC 3339 time whose `+` may have become a
/// space) as whole seconds since the UNIX epoch. An unreadable cursor is a
/// permanent error whose message begins `cant parse rfc to datetime `; a
/// time before the epoch is a transient error whose message begins
/// `Invalid SystemTime: `.
pub fn cursor_seconds(cursor: &str) -> (secs: Result<u64, crate::workflow::WorkflowErrorType>)
    ensures
        match rfc3339_seconds(spaces_to_plus(cursor@)) {
            None => secs matches Err(crate::workflow::WorkflowErrorType::PermanentError { message, content: None })
                && message@.len() >= 27 && message@.subrange(0, 27) == "cant parse rfc to datetime "@,
            Some(s) => if s < 0 {
                secs matches Err(crate::workflow::WorkflowErrorType::TransientError { message, content: None })
                    && message@.len() >= 20 && message@.subrange(0, 20) == "Invalid SystemTime: "@
            } else {
                secs == Ok::<u64, crate::workflow::WorkflowErrorType>(s as u64)
            },
        },
{
    let n = cursor.unicode_len();
    let mut fixed = String::new();
    let mut i: usize = 0;
    while i < n
        invariant
            n == cursor@.len(),
            i <= n,
            fixed@ == spaces_to_plus(cursor@.take(i as int)),
        decreases n - i,
    {
        let c = cursor.get_char(i);
        if c == ' ' {
            fixed.append("+");
        } else {
            fixed.append(cursor.substring_char(i, i + 1));
        }
        proof {
            reveal_strlit("+");
            assert(cursor@.subrange(i as int, i + 1) =~= seq![c]);
        }
        i = i + 1;
        assert(fixed@ =~= spaces_to_plus(cursor@.take(i as int)));
    }
    assert(cursor@.take(i as int) =~= cursor@);
    match parse_rfc3339_seconds(fixed.as_str()) {
        Err(e) => {
            let mut message = String::from_str("cant parse rfc to datetime ");
            message.append(crate::json::debug_text(&e).as_str());
            proof {
                reveal_strlit("cant parse rfc to datetime ");
                assert(message@.subrange(0, 27) =~= "cant parse rfc to datetime "@);
            }
            Err(crate::workflow::WorkflowErrorType::PermanentError { message, content: None })
        },
        Ok(s) => {
            if s < 0 {
                let message = String::from_str("Invalid SystemTime: second time provided was later than self");
                proof {
                    reveal_strlit("Invalid SystemTime: second time provided was later than self");
                    reveal_strlit("Invalid SystemTime: ");
                    assert(message@.subrange(0, 20) =~= "Invalid SystemTime: "@);
                }
                Err(crate::workflow::WorkflowErrorType::TransientError { message, content: None })
            } else {
                Ok(s as u64)
            }
        },
    }
}

/// How many runs a page holds unless the query says otherwise.
pub const DEFAULT_PAGE_LIMIT: usize = 10;

/// The query of the run list and table: where the page starts (an RFC 3339
/// cursor), how many runs it holds and whether it runs oldest first.
#[derive(Debug)]
pub struct TableQueryParams {
    pub cursor: Option<String>,
    pub limit: Option<usize>,
    pub reverse: Option<bool>,
}

impl TableQueryParams {
    /// The first page, newest first, of the default size: the page shown
    /// after a run has been created.
    pub fn first_page() -> (p: Self)
        ensures
            p.cursor is None,
            p.limit == Some(DEFAULT_PAGE_LIMIT),
            p.reverse == Some(false),
    {
        TableQueryParams { cursor: None, limit: Some(DEFAULT_PAGE_LIMIT), reverse: Some(false) }
    }

    /// The number of runs asked for, or [`DEFAULT_PAGE_LIMIT`].
    pub fn page_limit(&self) -> (n: usize)
        ensures
            n == match self.limit {
                Some(l) => l,
                None => DEFAULT_PAGE_LIMIT,
            },
    {
        match self.limit {
            Some(l) => l,
            None => DEFAULT_PAGE_LIMIT,
        }
    }

    /// Whether the page runs oldest first; it runs newest first unless the
    /// query asks otherwise.
    pub fn page_reverse(&self) -> (r: bool)
        ensures
            r == (self.reverse == Some(true)),
    {
        match self.reverse {
            Some(b) => b,
            None => false,
        }
    }
}

/// The form that creates a run: the workflow's name, the instance id and
/// the input as JSON text.
#[derive(Debug)]
pub struct CreateWorfklowParams {
    pub name: String,
    pub id: String,
    pub input: Option<String>,
}

/// The query of a page component: the notice to show after a success.
#[derive(Debug)]
pub struct ComponentQuery {
    pub sucess_message: Option<String>,
}

/// The cursor `run` gives to the page next to it: when the run was last
/// updated, in RFC 3339 form; none for no run or a run never updated.
pub open spec fn gives_cursor(c: Option<String>, run: Option<WorkflowState>) -> bool {
    match run {
        Some(w) => match w.updated_at {
            Some(t) => c matches Some(s) && s@ == rfc3339_time(t),
            None => c is None,
        },
        None => c is None,
    }
}

/// The paging cursor `run` gives (see [`gives_cursor`]).
pub fn page_cursor(run: Option<&WorkflowState>) -> (c: Option<String>)
    requires
        run matches Some(w) ==> opt_displayable(w.updated_at),
    ensures
        gives_cursor(
            c,
            match run {
                Some(w) => Some(*w),
                None => None,
            },
        ),
{
    match run {
        Some(w) => match w.updated_at {
            Some(t) => Some(system_time_to_rfc3339(t)),
            None => None,
        },
        None => None,
    }
}

/// The last run of a page, if any.
pub open spec fn last_run(runs: Seq<WorkflowState>) -> Option<WorkflowState> {
    if runs.len() > 0 {
        Some(runs.last())
    } else {
        None
    }
}

/// The first run of a page, if any.
pub open spec fn first_run(runs: Seq<WorkflowState>) -> Option<WorkflowState> {
    if runs.len() > 0 {
        Some(runs[0])
    } else {
        None
    }
}

/// The paging cursors of a page's runs can be shown.
pub open spec fn page_displayable(runs: Seq<WorkflowState>) -> bool {
    runs.len() > 0 ==> opt_displayable(runs[0].updated_at) && opt_displayable(runs.last().updated_at)
}

/// The links of a page of runs: where the next and the previous page start,
/// and how many runs a page holds.
#[derive(Debug)]
pub struct PageLinks {
    pub next_cursor: Option<String>,
    pub prev_cursor: Option<String>,
    pub limit: usize,
}

impl PageLinks {
    /// The links of the run list: the next page starts at the last run's
    /// update and the previous one at the first run's, with the default
    /// page size.
    pub fn for_list(runs: &Vec<WorkflowState>) -> (links: PageLinks)
        requires
            page_displayable(runs@),
        ensures
            gives_cursor(links.next_cursor, last_run(runs@)),
            gives_cursor(links.prev_cursor, first_run(runs@)),
            links.limit == DEFAULT_PAGE_LIMIT,
    {
        let n = runs.len();
        if n == 0 {
            PageLinks { next_cursor: None, prev_cursor: None, limit: DEFAULT_PAGE_LIMIT }
        } else {
            PageLinks {
                next_cursor: page_cursor(Some(&runs[n - 1])),
                prev_cursor: page_cursor(Some(&runs[0])),
                limit: DEFAULT_PAGE_LIMIT,
            }
        }
    }

    /// The links of the run table: the next page starts at the last run's
    /// update, the previous one at the cursor the table was asked for, with
    /// the page size asked for.
    pub fn for_table(runs: &Vec<WorkflowState>, cursor: Option<String>, limit: usize) -> (links: PageLinks)
        requires
            page_displayable(runs@),
        ensures
            gives_cursor(links.next_cursor, last_run(runs@)),
            links.prev_cursor == cursor,
            links.limit == limit,
    {
        let n = runs.len();
        let next_cursor = if n == 0 {
            None
        } else {
            page_cursor(Some(&runs[n - 1]))
        };
        PageLinks { next_cursor, prev_cursor: cursor, limit }
    }
}

/// The signals tied to the run `run_id`, in the order given.
pub fn signals_of_run(signals: &Vec<Signal>, run_id: &str) -> (found: Vec<Signal>)
    ensures
        found@ == signals@.filter(
            |s: Signal| s.target_or_source_run_id matches Some(r) && r@ == run_id@,
        ),
{
    let ghost pred = |s: Signal| s.target_or_source_run_id matches Some(r) && r@ == run_id@;
    let mut found: Vec<Signal> = Vec::new();
    let mut i: usize = 0;
    while i < signals.len()
        invariant
            i <= signals@.len(),
            pred == (|s: Signal| s.target_or_source_run_id matches Some(r) && r@ == run_id@),
            found@ == signals@.take(i as int).filter(pred),
        decreases signals@.len() - i,
    {
        proof {
            lemma_filter_take_push(signals@, pred, i as int);
        }
        let s = &signals[i];
        let tied = match &s.target_or_source_run_id {
            Some(r) => crate::keyed::str_eq(r.as_str(), run_id),
            None => false,
        };
        if tied {
            found.push(s.clone());
        }
        i = i + 1;
    }
    assert(signals@.take(i as int) =~= signals@);
    found
}

/// A signal sent from a run stands in the run's history at the time it
/// was sent, whenever (and whether) its receiver processed it; a signal sent
/// to the run stands at the time it was processed, or sent while it waits.
pub proof fn lemma_signal_history_time(sig: Signal, processed_at: Option<u64>)
    ensures
        sig.direction == SignalDirection::FromWorkflow ==> source_key(ActionSource::Signal(sig))
            == displayed_time(sig.sent_at) && source_key(ActionSource::Signal(Signal { processed_at, ..sig }))
            == source_key(ActionSource::Signal(sig)),
        sig.direction == SignalDirection::ToWorkflow ==> source_key(ActionSource::Signal(sig))
            == displayed_time(
            match sig.processed_at {
                Some(t) => t,
                None => sig.sent_at,
            },
        ),
{
}

/// In a run's history a signal sent from the run comes before an activity
/// result whose shown time comes strictly later than the signal's send time,
/// and after one whose shown time comes strictly earlier, however late the
/// signal was processed.
pub proof fn lemma_sent_signal_placed_by_send_time(sorted: Seq<ActionSource>, i: int, j: int)
    requires
        sorted_by_key(sorted),
        0 <= i < sorted.len(),
        0 <= j < sorted.len(),
        sorted[i] matches ActionSource::Signal(sig) && sig.direction == SignalDirection::FromWorkflow,
        sorted[j] is Activity,
    ensures
        ({
            let sent = displayed_time(sorted[i]->Signal_0.sent_at);
            let shown = displayed_time(sorted[j]->Activity_0.timestamp);
            &&& (!text_le(shown, sent) ==> i < j)
            &&& (!text_le(sent, shown) ==> j < i)
        }),
{
    let sig = sorted[i]->Signal_0;
    let a = sorted[j]->Activity_0;
    assert(source_key(sorted[i]) == displayed_time(sig.sent_at));
    assert(source_key(sorted[j]) == displayed_time(a.timestamp));
    if j < i {
        assert(text_le(source_key(sorted[j]), source_key(sorted[i])));
    }
    if i < j {
        assert(text_le(source_key(sorted[i]), source_key(sorted[j])));
    }
}

} // verus!
