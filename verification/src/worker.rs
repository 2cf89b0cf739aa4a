//! The decisions of the worker that drives workflow runs: which workflows
//! are registered, which due runs it can start, when a wait for a run's
//! outcome ends, and how waiting signals are consumed.
use vstd::prelude::*;

use crate::db_trait::{is_pending_signal, lemma_filter_take_push, lemma_state_views_push, state_views};
use crate::keyed::{find_key, has_key, key_index, lemma_key_index, unique_keys, upsert, upsert_vec, Keyed};
use crate::workflow::{clone_opt_string, is_permanent_error, WorkflowErrorType};
use crate::workflow_signal::{Signal, SignalDirection};
use crate::workflow_state::{Closed, WorkflowState, WorkflowStatus};

verus! {

impl Keyed for String {
    open spec fn key_of(&self) -> Seq<char> {
        self@
    }

    fn key(&self) -> (k: &str) {
        self.as_str()
    }
}

/// The names of the workflows a worker can run, each at most once, in the
/// order they were first registered.
pub struct WorkflowRegistry {
    names: Vec<String>,
}

/// A due run can be started when its workflow is registered.
pub open spec fn is_registered_run(names: Seq<String>, w: WorkflowState) -> bool {
    has_key(names, w.workflow_type@)
}

impl WorkflowRegistry {
    /// The registered names.
    pub closed spec fn names(&self) -> Seq<String> {
        self.names@
    }

    #[verifier::type_invariant]
    closed spec fn names_unique(&self) -> bool {
        unique_keys(self.names@)
    }

    /// No workflow registered.
    pub fn new() -> (r: Self)
        ensures
            r.names() == Seq::<String>::empty(),
    {
        WorkflowRegistry { names: Vec::new() }
    }

    /// Registers the workflow `name`; registering it again changes nothing.
    pub fn register(&mut self, name: &str)
        ensures
            exists|n: String| n@ == name@ && final(self).names() == upsert(old(self).names(), n),
            has_key(final(self).names(), name@),
            unique_keys(final(self).names()),
    {
        proof {
            use_type_invariant(&*self);
        }
        let n = String::from_str(name);
        let mut names = Vec::new();
        std::mem::swap(&mut names, &mut self.names);
        let ghost old_names = names@;
        upsert_vec(&mut names, n);
        proof {
            crate::keyed::lemma_upsert_lookup_same(old_names, n);
        }
        self.names = names;
    }

    /// Whether the workflow `name` is registered.
    pub fn contains(&self, name: &str) -> (r: bool)
        ensures
            r == has_key(self.names(), name@),
    {
        find_key(&self.names, name).is_some()
    }

    /// The registered names.
    pub fn workflow_names(&self) -> (names: Vec<String>)
        ensures
            names@ == self.names(),
    {
        let mut names: Vec<String> = Vec::new();
        let mut i: usize = 0;
        while i < self.names.len()
            invariant
                i <= self.names@.len(),
                names@ == self.names@.take(i as int),
            decreases self.names@.len() - i,
        {
            names.push(self.names[i].clone());
            i = i + 1;
            assert(names@ =~= self.names@.take(i as int));
        }
        assert(self.names@.take(i as int) =~= self.names@);
        names
    }

    /// `Ok` when the workflow `name` is registered, else the error
    /// `Workflow not found` that scheduling reports.
    pub fn check_registered(&self, name: &str) -> (r: Result<(), &'static str>)
        ensures
            has_key(self.names(), name@) <==> r is Ok,
            r matches Err(msg) ==> msg@ == "Workflow not found"@,
    {
        if self.contains(name) {
            Ok(())
        } else {
            Err("Workflow not found")
        }
    }

    /// Copies of the due runs whose workflow is registered, in the order
    /// given.
    pub fn select_runnable(&self, due: &Vec<WorkflowState>) -> (runnable: Vec<WorkflowState>)
        ensures
            state_views(runnable@) == state_views(
                due@.filter(|w: WorkflowState| is_registered_run(self.names(), w)),
            ),
    {
        let ghost pred = |w: WorkflowState| is_registered_run(self.names(), w);
        let mut kept: Vec<WorkflowState> = Vec::new();
        let mut i: usize = 0;
        while i < due.len()
            invariant
                i <= due@.len(),
                pred == (|w: WorkflowState| is_registered_run(self.names(), w)),
                state_views(kept@) == state_views(due@.take(i as int).filter(pred)),
            decreases due@.len() - i,
        {
            proof {
                lemma_filter_take_push(due@, pred, i as int);
            }
            let w = &due[i];
            if self.contains(w.workflow_type.as_str()) {
                let c = w.clone();
                proof {
                    lemma_state_views_push(kept@, c);
                    lemma_state_views_push(due@.take(i as int).filter(pred), *w);
                }
                kept.push(c);
            }
            i = i + 1;
        }
        assert(due@.take(i as int) =~= due@);
        kept
    }
}

/// Where a wait for a run's outcome stands after one look at the store.
#[derive(Debug)]
pub enum PollStep {
    /// Look again later.
    Wait,
    /// The wait is over, with the run (completed) or an error.
    Finished(Result<WorkflowState, WorkflowErrorType>),
}

/// Decides the next step of a wait for a run's outcome, `elapsed_ms` into a
/// wait of at most `timeout_ms`, given what the store returned for the run:
/// past the timeout the wait ends with the transient error `Timeout waiting
/// for result`; a completed or cancelled run ends it with the run, a failed
/// one with its error; anything else (still open, not found, or a store error) waits.
pub fn poll_workflow(
    fetched: Result<Option<WorkflowState>, WorkflowErrorType>,
    elapsed_ms: u64,
    timeout_ms: u64,
) -> (step: PollStep)
    ensures
        elapsed_ms >= timeout_ms ==> (step matches PollStep::Finished(Err(
            WorkflowErrorType::TransientError { message, content: None },
        )) && message@ == "Timeout waiting for result"@),
        elapsed_ms < timeout_ms ==> match fetched {
            Ok(Some(w)) => match w.status {
                WorkflowStatus::Closed(Closed::Completed) => (step matches PollStep::Finished(Ok(r))
                    && r@ == w@),
                WorkflowStatus::Closed(Closed::Cancelled) => (step matches PollStep::Finished(Ok(r))
                    && r@ == w@),
                WorkflowStatus::Closed(Closed::Failed { error }) => (step matches PollStep::Finished(Err(e))
                    && e == error),
                _ => step is Wait,
            },
            _ => step is Wait,
        },
{
    if elapsed_ms >= timeout_ms {
        return PollStep::Finished(Err(WorkflowErrorType::TransientError {
            message: String::from_str("Timeout waiting for result"),
            content: None,
        }));
    }
    match fetched {
        Ok(Some(w)) => match &w.status {
            WorkflowStatus::Closed(Closed::Completed) => PollStep::Finished(Ok(w.clone())),
            WorkflowStatus::Closed(Closed::Cancelled) => PollStep::Finished(Ok(w.clone())),
            WorkflowStatus::Closed(Closed::Failed { error }) => PollStep::Finished(Err(error.clone())),
            _ => PollStep::Wait,
        },
        _ => PollStep::Wait,
    }
}

/// The predicate "sent at time `t`".
pub open spec fn sent_at_is(t: u64) -> spec_fn(Signal) -> bool {
    |s: Signal| s.sent_at == t
}

/// Signals in order of the time they were sent.
pub open spec fn sorted_by_sent_at(s: Seq<Signal>) -> bool {
    forall|i: int, j: int| 0 <= i <= j < s.len() ==> #[trigger] s[i].sent_at <= #[trigger] s[j].sent_at
}

/// `out` holds the signals of `inp`, and the signals sent at any one time
/// keep their order from `inp` (together with [`sorted_by_sent_at`], this
/// makes `out` the stable sort of `inp` by send time).
pub open spec fn stable_reordering(out: Seq<Signal>, inp: Seq<Signal>) -> bool {
    forall|t: u64| #[trigger] out.filter(sent_at_is(t)) == inp.filter(sent_at_is(t))
}

/// Nothing in `s` satisfies `pred`, so filtering leaves nothing.
pub proof fn lemma_filter_none<A>(s: Seq<A>, pred: spec_fn(A) -> bool)
    requires
        forall|j: int| 0 <= j < s.len() ==> !pred(#[trigger] s[j]),
    ensures
        s.filter(pred) == Seq::<A>::empty(),
    decreases s.len(),
{
    reveal_with_fuel(Seq::filter, 1);
    if s.len() > 0 {
        lemma_filter_none(s.drop_last(), pred);
    }
    assert(s.filter(pred) =~= Seq::<A>::empty());
}

/// Filtering a one-element sequence.
pub proof fn lemma_filter_single<A>(x: A, pred: spec_fn(A) -> bool)
    ensures
        seq![x].filter(pred) == if pred(x) {
            seq![x]
        } else {
            Seq::<A>::empty()
        },
{
    reveal_with_fuel(Seq::filter, 2);
    assert(seq![x].drop_last() =~= Seq::<A>::empty());
    assert(Seq::<A>::empty().push(x) =~= seq![x]);
}

/// Inserting `x` at `p` into `r`, where, if `x` satisfies `pred`, nothing
/// from `p` on does: filtering by `pred` gains `x` at the end when it
/// satisfies `pred`, and is unchanged otherwise.
pub proof fn lemma_filter_insert<A>(r: Seq<A>, p: int, x: A, pred: spec_fn(A) -> bool)
    requires
        0 <= p <= r.len(),
        pred(x) ==> forall|j: int| p <= j < r.len() ==> !pred(#[trigger] r[j]),
    ensures
        r.insert(p, x).filter(pred) == if pred(x) {
            r.filter(pred).push(x)
        } else {
            r.filter(pred)
        },
{
    assert(r.insert(p, x) =~= r.take(p) + seq![x] + r.skip(p));
    assert(r =~= r.take(p) + r.skip(p));
    Seq::filter_distributes_over_add(r.take(p) + seq![x], r.skip(p), pred);
    Seq::filter_distributes_over_add(r.take(p), seq![x], pred);
    Seq::filter_distributes_over_add(r.take(p), r.skip(p), pred);
    lemma_filter_single(x, pred);
    if pred(x) {
        assert forall|j: int| 0 <= j < r.skip(p).len() implies !pred(#[trigger] r.skip(p)[j]) by {
            assert(r.skip(p)[j] == r[p + j]);
        }
        lemma_filter_none(r.skip(p), pred);
        assert(r.skip(p).filter(pred) + Seq::<A>::empty() =~= r.skip(p).filter(pred));
        assert(r.take(p).filter(pred) + Seq::<A>::empty() =~= r.take(p).filter(pred));
    } else {
        assert(r.take(p).filter(pred) + Seq::<A>::empty() =~= r.take(p).filter(pred));
    }
}

/// Inserting `x` after every signal sent no later than it keeps a sorted
/// sequence sorted and appends `x` to the signals sent at its time.
proof fn lemma_insert_sorted(r: Seq<Signal>, p: int, x: Signal)
    requires
        sorted_by_sent_at(r),
        0 <= p <= r.len(),
        forall|j: int| 0 <= j < p ==> #[trigger] r[j].sent_at <= x.sent_at,
        forall|j: int| p <= j < r.len() ==> #[trigger] r[j].sent_at > x.sent_at,
    ensures
        sorted_by_sent_at(r.insert(p, x)),
        forall|t: u64|
            #[trigger] r.insert(p, x).filter(sent_at_is(t)) == if t == x.sent_at {
                r.filter(sent_at_is(t)).push(x)
            } else {
                r.filter(sent_at_is(t))
            },
{
    assert forall|t: u64|
        #[trigger] r.insert(p, x).filter(sent_at_is(t)) == if t == x.sent_at {
            r.filter(sent_at_is(t)).push(x)
        } else {
            r.filter(sent_at_is(t))
        } by {
        lemma_filter_insert(r, p, x, sent_at_is(t));
    }
}

/// The signals ordered by the time they were sent; signals sent at the
/// same time keep their order.
pub fn sort_by_sent_at(signals: &Vec<Signal>) -> (sorted: Vec<Signal>)
    ensures
        sorted_by_sent_at(sorted@),
        stable_reordering(sorted@, signals@),
{
    let mut sorted: Vec<Signal> = Vec::new();
    let mut i: usize = 0;
    while i < signals.len()
        invariant
            i <= signals@.len(),
            sorted_by_sent_at(sorted@),
            forall|t: u64| #[trigger] sorted@.filter(sent_at_is(t)) == signals@.take(i as int).filter(
                sent_at_is(t),
            ),
        decreases signals@.len() - i,
    {
        let x = signals[i].clone();
        let mut p: usize = 0;
        while p < sorted.len() && sorted[p].sent_at <= x.sent_at
            invariant
                p <= sorted@.len(),
                forall|j: int| 0 <= j < p ==> #[trigger] sorted@[j].sent_at <= x.sent_at,
            decreases sorted@.len() - p,
        {
            p = p + 1;
        }
        proof {
            assert forall|j: int| p <= j < sorted@.len() implies #[trigger] sorted@[j].sent_at
                > x.sent_at by {
                assert(sorted@[p as int].sent_at > x.sent_at);
                assert(sorted@[p as int].sent_at <= sorted@[j].sent_at);
            }
            lemma_insert_sorted(sorted@, p as int, x);
            assert forall|t: u64|
                #[trigger] sorted@.insert(p as int, x).filter(sent_at_is(t)) == signals@.take(
                    i + 1,
                ).filter(sent_at_is(t)) by {
                lemma_filter_take_push(signals@, sent_at_is(t), i as int);
            }
        }
        sorted.insert(p, x);
        i = i + 1;
    }
    assert(signals@.take(i as int) =~= signals@);
    sorted
}

/// A signal as it is once consumed at `now`: processed, with the time, and
/// tied to `run_id` when one is given.
pub open spec fn consumed(s: Signal, run_id: Option<String>, now: u64) -> Signal {
    Signal {
        target_or_source_run_id: if run_id is Some {
            run_id
        } else {
            s.target_or_source_run_id
        },
        processed: true,
        processed_at: Some(now),
        ..s
    }
}

/// Every signal of `s` consumed at `now`.
pub open spec fn consume_all(s: Seq<Signal>, run_id: Option<String>, now: u64) -> Seq<Signal> {
    s.map_values(|x: Signal| consumed(x, run_id, now))
}

/// Marks the signals as consumed at `now` (see [`consumed`]).
pub fn mark_consumed(signals: &Vec<Signal>, run_id: &Option<String>, now: u64) -> (out: Vec<Signal>)
    ensures
        out@ == consume_all(signals@, *run_id, now),
{
    let mut out: Vec<Signal> = Vec::new();
    let mut i: usize = 0;
    while i < signals.len()
        invariant
            i <= signals@.len(),
            out@ == consume_all(signals@.take(i as int), *run_id, now),
        decreases signals@.len() - i,
    {
        let mut s = signals[i].clone();
        if run_id.is_some() {
            s.target_or_source_run_id = clone_opt_string(run_id);
        }
        s.processed = true;
        s.processed_at = Some(now);
        out.push(s);
        i = i + 1;
        assert(out@ =~= consume_all(signals@.take(i as int), *run_id, now));
    }
    assert(signals@.take(i as int) =~= signals@);
    out
}

/// Where a wait for a signal stands after one look at the store.
#[derive(Debug)]
pub enum SignalPoll {
    /// The wait ran out.
    TimedOut(WorkflowErrorType),
    /// Look again later.
    Wait,
    /// The waiting signals, consumed and ordered by send time; the last is
    /// the one delivered, and all are to be written back.
    Deliver(Vec<Signal>),
}

/// Decides the next step of a wait for a signal, `elapsed_ms` into a wait
/// of at most `timeout_ms`, given the unprocessed signals the store
/// returned: past the timeout the wait ends with the permanent error
/// `Signal timeout reached`; when signals wait they are ordered by send
/// time and consumed at `now` (tied to `run_id` when given); otherwise
/// (none waiting, or a store error) the wait goes on.
pub fn poll_signals(
    fetched: Result<Option<Vec<Signal>>, WorkflowErrorType>,
    run_id: &Option<String>,
    elapsed_ms: u64,
    timeout_ms: u64,
    now: u64,
) -> (step: SignalPoll)
    ensures
        elapsed_ms >= timeout_ms ==> (step matches SignalPoll::TimedOut(e) && is_permanent_error(
            e,
            "Signal timeout reached"@,
        )),
        elapsed_ms < timeout_ms ==> match fetched {
            Ok(Some(found)) => if found@.len() == 0 {
                step is Wait
            } else {
                step matches SignalPoll::Deliver(out) && exists|sorted: Seq<Signal>|
                    sorted_by_sent_at(sorted) && stable_reordering(sorted, found@) && out@
                        == #[trigger] consume_all(sorted, *run_id, now)
            },
            _ => step is Wait,
        },
{
    if elapsed_ms >= timeout_ms {
        return SignalPoll::TimedOut(WorkflowErrorType::perm(String::from_str("Signal timeout reached")));
    }
    match fetched {
        Ok(Some(found)) => {
            if found.len() == 0 {
                SignalPoll::Wait
            } else {
                let sorted = sort_by_sent_at(&found);
                let out = mark_consumed(&sorted, run_id, now);
                SignalPoll::Deliver(out)
            }
        },
        _ => SignalPoll::Wait,
    }
}

/// The error a wait for a run's outcome ends with when the task that
/// watches the run goes away.
pub fn await_failed_error() -> (e: WorkflowErrorType)
    ensures
        e matches WorkflowErrorType::TransientError { message, content: None } && message@
            == "Failed to await workflow"@,
{
    WorkflowErrorType::TransientError { message: String::from_str("Failed to await workflow"), content: None }
}

/// The error a wait for a signal ends with when the delivered signal's
/// data cannot be decoded.
pub fn signal_decode_error() -> (e: WorkflowErrorType)
    ensures
        is_permanent_error(e, "Failed to deserialize signal"@),
{
    WorkflowErrorType::perm(String::from_str("Failed to deserialize signal"))
}

/// Reordering this way keeps every signal: what is in one sequence is in
/// the other.
pub proof fn lemma_stable_reordering_keeps_signals(out: Seq<Signal>, inp: Seq<Signal>, x: Signal)
    requires
        stable_reordering(out, inp),
    ensures
        inp.contains(x) <==> out.contains(x),
{
    let pred = sent_at_is(x.sent_at);
    assert(out.filter(pred) == inp.filter(pred));
    if inp.contains(x) {
        let j = choose|j: int| 0 <= j < inp.len() && inp[j] == x;
        inp.lemma_filter_contains(pred, j);
        out.lemma_filter_contains_rev(pred, x);
    }
    if out.contains(x) {
        let j = choose|j: int| 0 <= j < out.len() && out[j] == x;
        out.lemma_filter_contains(pred, j);
        inp.lemma_filter_contains_rev(pred, x);
    }
}

/// The signal a wait delivers (the last of the consumed signals) is one of
/// the waiting signals, consumed, and was sent no earlier than any waiting
/// signal; every waiting signal is among those written back as consumed.
pub proof fn lemma_delivered_signal_is_newest(
    found: Seq<Signal>,
    sorted: Seq<Signal>,
    run_id: Option<String>,
    now: u64,
)
    requires
        found.len() > 0,
        sorted_by_sent_at(sorted),
        stable_reordering(sorted, found),
    ensures
        consume_all(sorted, run_id, now).len() > 0,
        exists|j: int|
            0 <= j < found.len() && consume_all(sorted, run_id, now).last() == consumed(
                #[trigger] found[j],
                run_id,
                now,
            ),
        forall|j: int|
            0 <= j < found.len() ==> #[trigger] found[j].sent_at <= consume_all(
                sorted,
                run_id,
                now,
            ).last().sent_at,
        forall|j: int|
            0 <= j < found.len() ==> consume_all(sorted, run_id, now).contains(
                consumed(#[trigger] found[j], run_id, now),
            ),
        forall|k: int|
            0 <= k < sorted.len() ==> (#[trigger] consume_all(sorted, run_id, now)[k]).processed
                && consume_all(sorted, run_id, now)[k].processed_at == Some(now),
{
    let out = consume_all(sorted, run_id, now);
    lemma_stable_reordering_keeps_signals(sorted, found, found[0]);
    assert(sorted.len() > 0);
    let last = sorted.last();
    lemma_stable_reordering_keeps_signals(sorted, found, last);
    assert(sorted.contains(last));
    let j0 = choose|j: int| 0 <= j < found.len() && found[j] == last;
    assert(out.last() == consumed(found[j0], run_id, now));
    assert forall|j: int| 0 <= j < found.len() implies #[trigger] found[j].sent_at
        <= out.last().sent_at && out.contains(consumed(found[j], run_id, now)) by {
        lemma_stable_reordering_keeps_signals(sorted, found, found[j]);
        let k = choose|k: int| 0 <= k < sorted.len() && sorted[k] == found[j];
        assert(sorted[k].sent_at <= sorted[sorted.len() - 1].sent_at);
        assert(out[k] == consumed(found[j], run_id, now));
    }
}


/// Everything in `s` satisfies `pred`, so filtering keeps all of it.
pub proof fn lemma_filter_all<A>(s: Seq<A>, pred: spec_fn(A) -> bool)
    requires
        forall|j: int| 0 <= j < s.len() ==> pred(#[trigger] s[j]),
    ensures
        s.filter(pred) == s,
    decreases s.len(),
{
    reveal_with_fuel(Seq::filter, 1);
    if s.len() > 0 {
        lemma_filter_all(s.drop_last(), pred);
        assert(s.drop_last().push(s.last()) =~= s);
    }
    assert(s.filter(pred) =~= s);
}

/// Filtering a sequence in which only the element at `m` satisfies `pred`.
proof fn lemma_filter_only<A>(t: Seq<A>, pred: spec_fn(A) -> bool, m: int)
    requires
        0 <= m < t.len(),
        pred(t[m]),
        forall|j: int| 0 <= j < t.len() && j != m ==> !pred(#[trigger] t[j]),
    ensures
        t.filter(pred) == seq![t[m]],
{
    let a = t.take(m);
    let b = t.skip(m + 1);
    assert(t =~= a + seq![t[m]] + b);
    assert forall|j: int| 0 <= j < a.len() implies !pred(#[trigger] a[j]) by {
        assert(a[j] == t[j]);
    }
    assert forall|j: int| 0 <= j < b.len() implies !pred(#[trigger] b[j]) by {
        assert(b[j] == t[m + 1 + j]);
    }
    lemma_filter_none(a, pred);
    lemma_filter_none(b, pred);
    lemma_filter_single(t[m], pred);
    Seq::filter_distributes_over_add(a + seq![t[m]], b, pred);
    Seq::filter_distributes_over_add(a, seq![t[m]], pred);
    assert(Seq::<A>::empty() + seq![t[m]] + Seq::<A>::empty() =~= seq![t[m]]);
}

/// The predicate "an unprocessed signal with these names and direction".
pub open spec fn pending_pred(
    workflow_name: Seq<char>,
    instance_id: Seq<char>,
    signal_name: Seq<char>,
    direction: SignalDirection,
) -> spec_fn(Signal) -> bool {
    |x: Signal| is_pending_signal(x, workflow_name, instance_id, signal_name, direction)
}

/// A sent signal is the one a wait receives: when the stored signals hold
/// no other unprocessed signal of its names and direction, the signals a
/// wait for it finds after it is stored are exactly it, and however they
/// are ordered by send time, what the wait writes back and delivers is it,
/// consumed.
pub proof fn lemma_sent_signal_is_delivered(signals: Seq<Signal>, s: Signal, run_id: Option<String>, now: u64)
    requires
        !s.processed,
        forall|i: int|
            0 <= i < signals.len() ==> !is_pending_signal(
                #[trigger] signals[i],
                s.workflow_name@,
                s.instance_id@,
                s.signal_name@,
                s.direction,
            ),
    ensures
        upsert(signals, s).filter(pending_pred(s.workflow_name@, s.instance_id@, s.signal_name@, s.direction))
            == seq![s],
        forall|sorted: Seq<Signal>|
            sorted_by_sent_at(sorted) && stable_reordering(sorted, seq![s]) ==> #[trigger] consume_all(
                sorted,
                run_id,
                now,
            ) == seq![consumed(s, run_id, now)],
{
    let pred = pending_pred(s.workflow_name@, s.instance_id@, s.signal_name@, s.direction);
    let t = upsert(signals, s);
    if has_key(signals, s.key_of()) {
        lemma_key_index(signals, s.key_of());
        let k = key_index(signals, s.key_of());
        assert forall|j: int| 0 <= j < t.len() && j != k implies !pred(#[trigger] t[j]) by {
            assert(t[j] == signals[j]);
        }
        lemma_filter_only(t, pred, k);
    } else {
        let m = signals.len() as int;
        assert forall|j: int| 0 <= j < t.len() && j != m implies !pred(#[trigger] t[j]) by {
            assert(t[j] == signals[j]);
        }
        lemma_filter_only(t, pred, m);
    }
    assert forall|sorted: Seq<Signal>|
        sorted_by_sent_at(sorted) && stable_reordering(sorted, seq![s]) implies #[trigger] consume_all(
            sorted,
            run_id,
            now,
        ) == seq![consumed(s, run_id, now)] by {
        assert forall|j: int| 0 <= j < sorted.len() implies #[trigger] sorted[j] == s by {
            let x = sorted[j];
            assert(sorted.contains(x));
            lemma_stable_reordering_keeps_signals(sorted, seq![s], x);
            assert(seq![s].contains(x));
            let q = choose|q: int| 0 <= q < 1 && seq![s][q] == x;
            assert(q == 0);
        }
        let tp = sent_at_is(s.sent_at);
        assert(sorted.filter(tp) == seq![s].filter(tp));
        lemma_filter_single(s, tp);
        lemma_filter_all(sorted, tp);
        assert(sorted =~= seq![s]);
        assert(consume_all(sorted, run_id, now) =~= seq![consumed(s, run_id, now)]);
    }
}

} // verus!
