//! The in-memory store of workflow runs and signals. Runs are found by
//! their run id and signals by their id; each id occurs at most once.
use vstd::prelude::*;

use crate::keyed::{find_key, has_key, lemma_lookup_at, lookup, unique_keys, upsert, upsert_vec, Keyed};
use crate::worker::{lemma_filter_insert, pending_pred};
use crate::workflow::WorkflowErrorType;
use crate::workflow_signal::{Signal, SignalDirection};
use crate::workflow_state::{Open, WorkflowState, WorkflowStateView, WorkflowStatus};

verus! {

/// `filter` over a prefix grown by one element.
pub proof fn lemma_filter_take_push<A>(s: Seq<A>, pred: spec_fn(A) -> bool, i: int)
    requires
        0 <= i < s.len(),
    ensures
        s.take(i + 1).filter(pred) == if pred(s[i]) {
            s.take(i).filter(pred).push(s[i])
        } else {
            s.take(i).filter(pred)
        },
{
    reveal_with_fuel(Seq::filter, 1);
    assert(s.take(i + 1).drop_last() =~= s.take(i));
}

/// The views of a sequence of runs.
pub open spec fn state_views(s: Seq<WorkflowState>) -> Seq<WorkflowStateView> {
    s.map_values(|w: WorkflowState| w@)
}

/// The views of a sequence grown by one run.
pub proof fn lemma_state_views_push(s: Seq<WorkflowState>, x: WorkflowState)
    ensures
        state_views(s.push(x)) == state_views(s).push(x@),
{
    assert(state_views(s.push(x)) =~= state_views(s).push(x@));
}

/// A run is due at `now`: it is scheduled no later than `now` and still
/// running.
pub open spec fn is_due(w: WorkflowState, now: u64) -> bool {
    w.scheduled_at <= now && w.status.spec_is_running()
}

/// A run is a running run of the given workflow instance.
pub open spec fn is_running_instance(w: WorkflowState, workflow_name: Seq<char>, instance_id: Seq<char>) -> bool {
    w.workflow_type@ == workflow_name && w.instance_id@ == instance_id && w.status.spec_is_running()
}

/// The predicate "due at `now`".
pub open spec fn due_pred(now: u64) -> spec_fn(WorkflowState) -> bool {
    |w: WorkflowState| is_due(w, now)
}

/// The predicate "a running run of this workflow instance".
pub open spec fn running_instance_pred(workflow_name: Seq<char>, instance_id: Seq<char>) -> spec_fn(
    WorkflowState,
) -> bool {
    |w: WorkflowState| is_running_instance(w, workflow_name, instance_id)
}

/// A signal is an unprocessed signal with the given names and direction.
pub open spec fn is_pending_signal(
    s: Signal,
    workflow_name: Seq<char>,
    instance_id: Seq<char>,
    signal_name: Seq<char>,
    direction: SignalDirection,
) -> bool {
    s.workflow_name@ == workflow_name && s.instance_id@ == instance_id && s.signal_name@ == signal_name
        && s.direction == direction && !s.processed
}

/// The whole seconds of a time in milliseconds.
pub open spec fn seconds(ms: u64) -> u64 {
    ms / 1000
}

/// Where a run stands when runs are listed by when they were last updated:
/// runs never updated first, then by the second of their last update.
pub open spec fn updated_rank(w: WorkflowStateView) -> u64 {
    match w.updated_at {
        None => 0,
        Some(ms) => (seconds(ms) + 1) as u64,
    }
}

/// The position key of a run in a page: by [`updated_rank`], oldest first
/// when `reverse`, newest first otherwise.
pub open spec fn page_key(w: WorkflowStateView, reverse: bool) -> u64 {
    if reverse {
        updated_rank(w)
    } else {
        (u64::MAX - updated_rank(w)) as u64
    }
}

/// A run belongs to the page that follows `cursor` (in seconds): with no
/// cursor every run does; otherwise only updated runs, updated after the
/// cursor when `reverse`, at or before it otherwise.
pub open spec fn in_page(w: WorkflowStateView, cursor: Option<u64>, reverse: bool) -> bool {
    match cursor {
        None => true,
        Some(c) => match w.updated_at {
            None => false,
            Some(ms) => if reverse {
                seconds(ms) > c
            } else {
                seconds(ms) <= c
            },
        },
    }
}

/// The predicate "belongs to the page after `cursor`".
pub open spec fn in_page_pred(cursor: Option<u64>, reverse: bool) -> spec_fn(WorkflowStateView) -> bool {
    |w: WorkflowStateView| in_page(w, cursor, reverse)
}

/// The predicate "has page key `k`".
pub open spec fn page_key_is(k: u64, reverse: bool) -> spec_fn(WorkflowStateView) -> bool {
    |w: WorkflowStateView| page_key(w, reverse) == k
}

/// Runs in order of their page keys.
pub open spec fn sorted_by_page_key(s: Seq<WorkflowStateView>, reverse: bool) -> bool {
    forall|i: int, j: int|
        0 <= i <= j < s.len() ==> page_key(#[trigger] s[i], reverse) <= page_key(#[trigger] s[j], reverse)
}

/// `out` holds the runs of `inp`, runs with the same page key in the same
/// order (with [`sorted_by_page_key`], `out` is the stable sort of `inp`).
pub open spec fn stable_by_page_key(out: Seq<WorkflowStateView>, inp: Seq<WorkflowStateView>, reverse: bool) -> bool {
    forall|k: u64| #[trigger] out.filter(page_key_is(k, reverse)) == inp.filter(page_key_is(k, reverse))
}

/// Inserting `x` after every run whose key is no larger than its own.
proof fn lemma_insert_by_page_key(r: Seq<WorkflowStateView>, p: int, x: WorkflowStateView, reverse: bool)
    requires
        sorted_by_page_key(r, reverse),
        0 <= p <= r.len(),
        forall|j: int| 0 <= j < p ==> page_key(#[trigger] r[j], reverse) <= page_key(x, reverse),
        forall|j: int| p <= j < r.len() ==> page_key(#[trigger] r[j], reverse) > page_key(x, reverse),
    ensures
        sorted_by_page_key(r.insert(p, x), reverse),
        forall|k: u64|
            #[trigger] r.insert(p, x).filter(page_key_is(k, reverse)) == if k == page_key(x, reverse) {
                r.filter(page_key_is(k, reverse)).push(x)
            } else {
                r.filter(page_key_is(k, reverse))
            },
{
    assert forall|k: u64|
        #[trigger] r.insert(p, x).filter(page_key_is(k, reverse)) == if k == page_key(x, reverse) {
            r.filter(page_key_is(k, reverse)).push(x)
        } else {
            r.filter(page_key_is(k, reverse))
        } by {
        lemma_filter_insert(r, p, x, page_key_is(k, reverse));
    }
}

/// The position key of a run in a page (see [`page_key`]).
fn page_key_of(w: &WorkflowState, reverse: bool) -> (k: u64)
    ensures
        k == page_key(w@, reverse),
{
    let rank: u64 = match w.updated_at {
        None => 0,
        Some(ms) => ms / 1000 + 1,
    };
    if reverse {
        rank
    } else {
        u64::MAX - rank
    }
}

/// Whether a run belongs to the page that follows `cursor`.
fn in_page_exec(w: &WorkflowState, cursor: Option<u64>, reverse: bool) -> (r: bool)
    ensures
        r == in_page(w@, cursor, reverse),
{
    match cursor {
        None => true,
        Some(c) => match w.updated_at {
            None => false,
            Some(ms) => if reverse {
                ms / 1000 > c
            } else {
                ms / 1000 <= c
            },
        },
    }
}

/// The runs ordered by page key, runs with the same key in their order.
fn sort_by_page_key(runs: Vec<WorkflowState>, reverse: bool) -> (sorted: Vec<WorkflowState>)
    ensures
        sorted_by_page_key(state_views(sorted@), reverse),
        stable_by_page_key(state_views(sorted@), state_views(runs@), reverse),
{
    let ghost all = state_views(runs@);
    let mut runs = runs;
    let mut sorted: Vec<WorkflowState> = Vec::new();
    let ghost mut i: int = 0;
    while runs.len() > 0
        invariant
            0 <= i <= all.len(),
            i + runs@.len() == all.len(),
            state_views(runs@) == all.skip(i),
            sorted_by_page_key(state_views(sorted@), reverse),
            forall|k: u64| #[trigger] state_views(sorted@).filter(page_key_is(k, reverse)) == all.take(
                i,
            ).filter(page_key_is(k, reverse)),
        decreases runs.len(),
    {
        let ghost before_runs = runs@;
        let x = runs.remove(0);
        proof {
            assert(state_views(before_runs)[0] == all.skip(i)[0]);
            assert(x@ == all[i]);
            assert(runs@ =~= before_runs.subrange(1, before_runs.len() as int));
            assert forall|k: int| 0 <= k < runs@.len() implies #[trigger] state_views(runs@)[k] == all.skip(
                i + 1,
            )[k] by {
                assert(state_views(runs@)[k] == before_runs[k + 1]@);
                assert(state_views(before_runs)[k + 1] == all.skip(i)[k + 1]);
            }
            assert(state_views(runs@) =~= all.skip(i + 1));
        }
        let xk = page_key_of(&x, reverse);
        let mut p: usize = 0;
        while p < sorted.len() && page_key_of(&sorted[p], reverse) <= xk
            invariant
                p <= sorted@.len(),
                xk == page_key(x@, reverse),
                forall|j: int| 0 <= j < p ==> page_key(#[trigger] state_views(sorted@)[j], reverse) <= xk,
            decreases sorted@.len() - p,
        {
            p = p + 1;
        }
        proof {
            let sv = state_views(sorted@);
            assert forall|j: int| p <= j < sv.len() implies page_key(#[trigger] sv[j], reverse) > xk by {
                assert(page_key(sv[p as int], reverse) > xk);
                assert(page_key(sv[p as int], reverse) <= page_key(sv[j], reverse));
            }
            lemma_insert_by_page_key(sv, p as int, x@, reverse);
            assert forall|k: u64|
                #[trigger] sv.insert(p as int, x@).filter(page_key_is(k, reverse)) == all.take(i + 1).filter(
                    page_key_is(k, reverse),
                ) by {
                lemma_filter_take_push(all, page_key_is(k, reverse), i);
            }
        }
        let ghost before = sorted@;
        sorted.insert(p, x);
        proof {
            assert(state_views(sorted@) =~= state_views(before).insert(p as int, x@));
            i = i + 1;
        }
    }
    assert(all.take(i) =~= all);
    sorted
}

/// Runs and signals held in memory.
pub struct InMemoryDB {
    workflows: Vec<WorkflowState>,
    signals: Vec<Signal>,
}

impl InMemoryDB {
    /// The stored runs, in the order their run ids were first stored.
    pub closed spec fn workflows(&self) -> Seq<WorkflowState> {
        self.workflows@
    }

    /// The stored signals, in the order their ids were first stored.
    pub closed spec fn signals(&self) -> Seq<Signal> {
        self.signals@
    }

    #[verifier::type_invariant]
    closed spec fn ids_unique(&self) -> bool {
        unique_keys(self.workflows@) && unique_keys(self.signals@)
    }

    /// Run ids and signal ids are each unique in the store.
    pub fn ids_are_unique(&self)
        ensures
            unique_keys(self.workflows()),
            unique_keys(self.signals()),
    {
        proof {
            use_type_invariant(self);
        }
    }

    /// An empty store.
    pub fn new() -> (db: Self)
        ensures
            db.workflows() == Seq::<WorkflowState>::empty(),
            db.signals() == Seq::<Signal>::empty(),
    {
        InMemoryDB { workflows: Vec::new(), signals: Vec::new() }
    }

    /// Copies of all stored runs.
    pub fn get_all(&self) -> (all: Vec<WorkflowState>)
        ensures
            state_views(all@) == state_views(self.workflows()),
    {
        let mut all: Vec<WorkflowState> = Vec::new();
        let mut i: usize = 0;
        while i < self.workflows.len()
            invariant
                i <= self.workflows@.len(),
                state_views(all@) == state_views(self.workflows@.take(i as int)),
            decreases self.workflows@.len() - i,
        {
            proof {
                lemma_state_views_push(all@, self.workflows@[i as int]);
                lemma_state_views_push(self.workflows@.take(i as int), self.workflows@[i as int]);
                assert(self.workflows@.take(i + 1) =~= self.workflows@.take(i as int).push(
                    self.workflows@[i as int],
                ));
            }
            let c = self.workflows[i].clone();
            proof {
                lemma_state_views_push(all@, c);
            }
            all.push(c);
            i = i + 1;
        }
        assert(self.workflows@.take(i as int) =~= self.workflows@);
        all
    }

    /// Stores `state` under its run id, replacing a run with that id, and
    /// returns the run id.
    pub fn insert(&mut self, state: WorkflowState) -> (run_id: String)
        ensures
            final(self).workflows() == upsert(old(self).workflows(), state),
            final(self).signals() == old(self).signals(),
            run_id == state.run_id,
    {
        let run_id = state.run_id.clone();
        self.update(state);
        run_id
    }

    /// A copy of the run with this run id, if one is stored.
    pub fn get_workflow_state(&self, run_id: &str) -> (r: Result<Option<WorkflowState>, WorkflowErrorType>)
        ensures
            r matches Ok(found) && match lookup(self.workflows(), run_id@) {
                Some(w) => found matches Some(f) && f@ == w@,
                None => found is None,
            },
    {
        proof {
            use_type_invariant(self);
        }
        match find_key(&self.workflows, run_id) {
            Some(i) => {
                proof {
                    lemma_lookup_at(self.workflows@, i as int);
                }
                Ok(Some(self.workflows[i].clone()))
            },
            None => Ok(None),
        }
    }

    /// Stores `state` under its run id, replacing a run with that id.
    pub fn update(&mut self, state: WorkflowState)
        ensures
            final(self).workflows() == upsert(old(self).workflows(), state),
            final(self).signals() == old(self).signals(),
    {
        proof {
            use_type_invariant(&*self);
        }
        let mut workflows = Vec::new();
        std::mem::swap(&mut workflows, &mut self.workflows);
        upsert_vec(&mut workflows, state);
        self.workflows = workflows;
    }

    /// Copies of the runs that are due at `now`, in store order.
    pub fn query_due(&self, now: u64) -> (due: Vec<WorkflowState>)
        ensures
            state_views(due@) == state_views(self.workflows().filter(due_pred(now))),
    {
        let ghost pred = due_pred(now);
        let mut due: Vec<WorkflowState> = Vec::new();
        let mut i: usize = 0;
        while i < self.workflows.len()
            invariant
                i <= self.workflows@.len(),
                pred == due_pred(now),
                state_views(due@) == state_views(self.workflows@.take(i as int).filter(pred)),
            decreases self.workflows@.len() - i,
        {
            proof {
                lemma_filter_take_push(self.workflows@, pred, i as int);
            }
            let w = &self.workflows[i];
            if w.scheduled_at <= now && w.status.is_running() {
                let c = w.clone();
                proof {
                    lemma_state_views_push(due@, c);
                    lemma_state_views_push(self.workflows@.take(i as int).filter(pred), *w);
                }
                due.push(c);
            }
            i = i + 1;
        }
        assert(self.workflows@.take(i as int) =~= self.workflows@);
        due
    }

    /// Copies of the running runs of a workflow instance, in store order.
    pub fn get_running_workflows(&self, workflow_name: &str, instance_id: &str) -> (r: Result<
        Vec<WorkflowState>,
        WorkflowErrorType,
    >)
        ensures
            r matches Ok(running) && state_views(running@) == state_views(
                self.workflows().filter(running_instance_pred(workflow_name@, instance_id@)),
            ),
    {
        let ghost pred = running_instance_pred(workflow_name@, instance_id@);
        let mut running: Vec<WorkflowState> = Vec::new();
        let mut i: usize = 0;
        while i < self.workflows.len()
            invariant
                i <= self.workflows@.len(),
                pred == running_instance_pred(workflow_name@, instance_id@),
                state_views(running@) == state_views(self.workflows@.take(i as int).filter(pred)),
            decreases self.workflows@.len() - i,
        {
            proof {
                lemma_filter_take_push(self.workflows@, pred, i as int);
            }
            let w = &self.workflows[i];
            if crate::keyed::str_eq(w.workflow_type.as_str(), workflow_name) && crate::keyed::str_eq(
                w.instance_id.as_str(),
                instance_id,
            ) && w.status.is_running() {
                let c = w.clone();
                proof {
                    lemma_state_views_push(running@, c);
                    lemma_state_views_push(self.workflows@.take(i as int).filter(pred), *w);
                }
                running.push(c);
            }
            i = i + 1;
        }
        assert(self.workflows@.take(i as int) =~= self.workflows@);
        Ok(running)
    }

    /// One page of runs listed by last update: those in the page after
    /// `cursor` (seconds since the UNIX epoch; see [`in_page`]), ordered by
    /// [`page_key`] (newest first, or oldest first when `reverse`), at most
    /// `limit` of them; a `limit` of 0 sets no bound.
    pub fn get_by_cursor(&self, cursor: Option<u64>, limit: usize, reverse: bool) -> (page: Vec<WorkflowState>)
        ensures
            exists|sorted: Seq<WorkflowStateView>|
                sorted_by_page_key(sorted, reverse) && #[trigger] stable_by_page_key(
                    sorted,
                    state_views(self.workflows()).filter(in_page_pred(cursor, reverse)),
                    reverse,
                ) && state_views(page@) == sorted.take(
                    if limit != 0 && limit < sorted.len() {
                        limit as int
                    } else {
                        sorted.len() as int
                    },
                ),
    {
        let ghost pred = in_page_pred(cursor, reverse);
        let ghost views = state_views(self.workflows@);
        let mut chosen: Vec<WorkflowState> = Vec::new();
        let mut i: usize = 0;
        while i < self.workflows.len()
            invariant
                i <= self.workflows@.len(),
                views == state_views(self.workflows@),
                pred == in_page_pred(cursor, reverse),
                state_views(chosen@) == views.take(i as int).filter(pred),
            decreases self.workflows@.len() - i,
        {
            proof {
                lemma_filter_take_push(views, pred, i as int);
            }
            if in_page_exec(&self.workflows[i], cursor, reverse) {
                let c = self.workflows[i].clone();
                proof {
                    lemma_state_views_push(chosen@, c);
                }
                chosen.push(c);
            }
            i = i + 1;
        }
        assert(views.take(i as int) =~= views);
        let sorted = sort_by_page_key(chosen, reverse);
        let ghost sv = state_views(sorted@);
        let mut page: Vec<WorkflowState> = Vec::new();
        let mut j: usize = 0;
        while j < sorted.len() && (limit == 0 || j < limit)
            invariant
                j <= sorted@.len(),
                limit != 0 ==> j <= limit,
                sv == state_views(sorted@),
                state_views(page@) == sv.take(j as int),
            decreases sorted@.len() - j,
        {
            let c = sorted[j].clone();
            proof {
                lemma_state_views_push(page@, c);
                assert(sv.take(j + 1) =~= sv.take(j as int).push(c@));
            }
            page.push(c);
            j = j + 1;
        }
        assert(j == if limit != 0 && limit < sv.len() {
            limit as int
        } else {
            sv.len() as int
        });
        assert(stable_by_page_key(sv, state_views(self.workflows()).filter(in_page_pred(cursor, reverse)), reverse));
        page
    }

    /// Copies of the signals whose instance id is one of `workflow_ids`,
    /// in store order.
    pub fn get_signals_for_workflows(&self, workflow_ids: Vec<String>) -> (r: Result<Vec<Signal>, WorkflowErrorType>)
        ensures
            r matches Ok(found) && found@ == self.signals().filter(
                |s: Signal| has_key(workflow_ids@, s.instance_id@),
            ),
    {
        let ghost pred = |s: Signal| has_key(workflow_ids@, s.instance_id@);
        let mut found: Vec<Signal> = Vec::new();
        let mut i: usize = 0;
        while i < self.signals.len()
            invariant
                i <= self.signals@.len(),
                pred == (|s: Signal| has_key(workflow_ids@, s.instance_id@)),
                found@ == self.signals@.take(i as int).filter(pred),
            decreases self.signals@.len() - i,
        {
            proof {
                lemma_filter_take_push(self.signals@, pred, i as int);
            }
            let s = &self.signals[i];
            if find_key(&workflow_ids, s.instance_id.as_str()).is_some() {
                found.push(s.clone());
            }
            i = i + 1;
        }
        assert(self.signals@.take(i as int) =~= self.signals@);
        Ok(found)
    }

    /// Stores `signal` under its id, replacing a signal with that id.
    pub fn insert_signal(&mut self, signal: Signal) -> (r: Result<(), WorkflowErrorType>)
        ensures
            r is Ok,
            final(self).signals() == upsert(old(self).signals(), signal),
            final(self).workflows() == old(self).workflows(),
    {
        proof {
            use_type_invariant(&*self);
        }
        let mut signals = Vec::new();
        std::mem::swap(&mut signals, &mut self.signals);
        upsert_vec(&mut signals, signal);
        self.signals = signals;
        Ok(())
    }

    /// Stores `signal` under its id, replacing a signal with that id.
    pub fn update_signal(&mut self, signal: Signal) -> (r: Result<(), WorkflowErrorType>)
        ensures
            r is Ok,
            final(self).signals() == upsert(old(self).signals(), signal),
            final(self).workflows() == old(self).workflows(),
    {
        self.insert_signal(signal)
    }

    /// Copies of all stored signals.
    pub fn get_all_signals(&self) -> (r: Result<Vec<Signal>, WorkflowErrorType>)
        ensures
            r matches Ok(all) && all@ == self.signals(),
    {
        let mut all: Vec<Signal> = Vec::new();
        let mut i: usize = 0;
        while i < self.signals.len()
            invariant
                i <= self.signals@.len(),
                all@ == self.signals@.take(i as int),
            decreases self.signals@.len() - i,
        {
            all.push(self.signals[i].clone());
            i = i + 1;
            assert(all@ =~= self.signals@.take(i as int));
        }
        assert(self.signals@.take(i as int) =~= self.signals@);
        Ok(all)
    }

    /// Copies of the unprocessed signals with the given names and
    /// direction, in store order.
    pub fn get_signals(
        &self,
        workflow_name: &str,
        instance_id: &str,
        signal_name: &str,
        direction: SignalDirection,
    ) -> (r: Result<Option<Vec<Signal>>, WorkflowErrorType>)
        ensures
            r matches Ok(Some(found)) && found@ == self.signals().filter(
                pending_pred(workflow_name@, instance_id@, signal_name@, direction),
            ),
    {
        let ghost pred = pending_pred(workflow_name@, instance_id@, signal_name@, direction);
        let mut found: Vec<Signal> = Vec::new();
        let mut i: usize = 0;
        while i < self.signals.len()
            invariant
                i <= self.signals@.len(),
                pred == pending_pred(workflow_name@, instance_id@, signal_name@, direction),
                found@ == self.signals@.take(i as int).filter(pred),
            decreases self.signals@.len() - i,
        {
            proof {
                lemma_filter_take_push(self.signals@, pred, i as int);
            }
            let s = &self.signals[i];
            if crate::keyed::str_eq(s.workflow_name.as_str(), workflow_name) && crate::keyed::str_eq(
                s.instance_id.as_str(),
                instance_id,
            ) && crate::keyed::str_eq(s.signal_name.as_str(), signal_name) && s.direction
                == direction && !s.processed {
                found.push(s.clone());
            }
            i = i + 1;
        }
        assert(self.signals@.take(i as int) =~= self.signals@);
        Ok(Some(found))
    }
}

/// A run that is closed is never due.
pub proof fn lemma_closed_run_never_due(w: WorkflowState, now: u64)
    requires
        w.status is Closed,
    ensures
        !is_due(w, now),
{
}

/// After a run is stored, looking up its run id finds it, and the runs
/// under every other run id are as they were.
pub proof fn lemma_update_then_get(db: Seq<WorkflowState>, state: WorkflowState, other: Seq<char>)
    requires
        unique_keys(db),
    ensures
        unique_keys(upsert(db, state)),
        lookup(upsert(db, state), state.run_id@) == Some(state),
        other != state.run_id@ ==> lookup(upsert(db, state), other) == lookup(db, other),
{
    crate::keyed::lemma_upsert_unique(db, state);
    crate::keyed::lemma_upsert_lookup_same(db, state);
    if other != state.run_id@ {
        crate::keyed::lemma_upsert_lookup_other(db, state, other);
    }
}

/// After a signal is stored, looking up its id finds it, and the signals
/// under every other id are as they were.
pub proof fn lemma_signal_update_then_get(signals: Seq<Signal>, signal: Signal, other: Seq<char>)
    requires
        unique_keys(signals),
    ensures
        unique_keys(upsert(signals, signal)),
        lookup(upsert(signals, signal), signal.id@) == Some(signal),
        other != signal.id@ ==> lookup(upsert(signals, signal), other) == lookup(signals, other),
{
    crate::keyed::lemma_upsert_unique(signals, signal);
    crate::keyed::lemma_upsert_lookup_same(signals, signal);
    if other != signal.id@ {
        crate::keyed::lemma_upsert_lookup_other(signals, signal, other);
    }
}

/// Storing a run whose run id is already stored keeps the number of runs.
pub proof fn lemma_update_existing_keeps_count(db: Seq<WorkflowState>, state: WorkflowState)
    requires
        crate::keyed::has_key(db, state.run_id@),
    ensures
        upsert(db, state).len() == db.len(),
{
    crate::keyed::lemma_key_index(db, state.run_id@);
}

/// The runs `query_due` gives at `now` are exactly the stored runs that are
/// still running (open, not closed) and scheduled no later than `now`,
/// whether or not they have started before: a run claimed, retried or
/// rescheduled is picked up again once its time comes.
pub proof fn lemma_due_runs_are_running_runs_scheduled_by_now(db: Seq<WorkflowState>, now: u64)
    ensures
        forall|i: int|
            0 <= i < db.len() && db[i].scheduled_at <= now && db[i].status == WorkflowStatus::Open(
                Open::Running,
            ) ==> #[trigger] db.filter(due_pred(now)).contains(db[i]),
        forall|w: WorkflowState|
            #[trigger] db.filter(due_pred(now)).contains(w) ==> db.contains(w)
                && w.scheduled_at <= now && w.status == WorkflowStatus::Open(Open::Running),
{
    let pred = due_pred(now);
    db.filter_lemma(pred);
    assert forall|w: WorkflowState| #[trigger] db.filter(pred).contains(w) implies db.contains(w)
        && w.scheduled_at <= now && w.status == WorkflowStatus::Open(Open::Running) by {
        db.lemma_filter_contains_rev(pred, w);
        let k = choose|k: int| 0 <= k < db.filter(pred).len() && db.filter(pred)[k] == w;
        assert(pred(db.filter(pred)[k]));
    }
}

/// The runs `get_running_workflows` gives for a workflow and an instance
/// are exactly the stored runs of that workflow and instance that are still
/// running, whether or not they have started: a later duplicate always
/// sees the runs already going.
pub proof fn lemma_running_runs_are_all_open_runs_of_the_instance(
    db: Seq<WorkflowState>,
    workflow_name: Seq<char>,
    instance_id: Seq<char>,
)
    ensures
        forall|i: int|
            0 <= i < db.len() && db[i].workflow_type@ == workflow_name && db[i].instance_id@
                == instance_id && db[i].status == WorkflowStatus::Open(Open::Running)
                ==> #[trigger] db.filter(running_instance_pred(workflow_name, instance_id)).contains(db[i]),
        forall|w: WorkflowState|
            #[trigger] db.filter(running_instance_pred(workflow_name, instance_id)).contains(w) ==> db.contains(w) && w.workflow_type@ == workflow_name && w.instance_id@
                == instance_id && w.status == WorkflowStatus::Open(Open::Running),
{
    let pred = running_instance_pred(workflow_name, instance_id);
    db.filter_lemma(pred);
    assert forall|w: WorkflowState| #[trigger] db.filter(pred).contains(w) implies db.contains(w)
        && w.workflow_type@ == workflow_name && w.instance_id@ == instance_id && w.status
        == WorkflowStatus::Open(Open::Running) by {
        db.lemma_filter_contains_rev(pred, w);
        let k = choose|k: int| 0 <= k < db.filter(pred).len() && db.filter(pred)[k] == w;
        assert(pred(db.filter(pred)[k]));
    }
}

} // verus!
