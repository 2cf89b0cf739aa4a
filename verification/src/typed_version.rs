//! A typed variant of the engine's state, whose open status can carry the
//! signal a run waits for, with a small key-value store and an example
//! workflow that creates users.
#![allow(non_camel_case_types)]
use vstd::prelude::*;

use crate::keyed::{find_key, has_key, lemma_lookup_at, lookup, unique_keys, upsert, upsert_vec, Keyed};

verus! {

/// A JSON document (as text) stored under a string key.
#[derive(Debug, PartialEq)]
pub struct JsonEntry {
    pub key: String,
    pub value: String,
}

impl Clone for JsonEntry {
    fn clone(&self) -> (res: Self)
        ensures
            res == *self,
    {
        JsonEntry { key: self.key.clone(), value: self.value.clone() }
    }
}

impl Keyed for JsonEntry {
    open spec fn key_of(&self) -> Seq<char> {
        self.key@
    }

    fn key(&self) -> (k: &str) {
        self.key.as_str()
    }
}

/// Whether a typed run is open or closed.
#[derive(Debug, Clone)]
pub enum WorkflowStatus_2<S> {
    Open(Open_2<S>),
    Closed(Closed_2),
}

/// An open typed run: running, or waiting for a signal of type `S`.
#[derive(Debug, Clone)]
pub enum Open_2<S> {
    Running,
    AwaitingSignal(S),
}

/// How a typed run ended.
#[derive(Debug, Clone, Copy, PartialEq, Eq, Structural)]
pub enum Closed_2 {
    Completed,
    Cancelled,
    Failed,
}

/// An error recorded against a typed run. `timestamp` is in milliseconds
/// since the UNIX epoch.
#[derive(Debug)]
pub struct WorkflowError_2 {
    pub message: String,
    pub activity_name: String,
    pub timestamp: u64,
}

/// The claim duration of a new typed run, in milliseconds (one minute).
pub const TYPED_CLAIM_DURATION_MS: u64 = 60_000;

/// The state of a typed run. Times are milliseconds since the UNIX epoch;
/// results, output and input are JSON text.
#[derive(Debug)]
pub struct WorkflowState_2<S> {
    pub workflow_type: String,
    pub instance_id: String,
    pub results: Vec<JsonEntry>,
    pub scheduled_at: u64,
    pub status: WorkflowStatus_2<S>,
    pub retries: u32,
    pub max_retries: u32,
    pub output: Option<String>,
    pub errors: Vec<WorkflowError_2>,
    pub claim_duration: u64,
    pub start_time: Option<u64>,
    pub end_time: Option<u64>,
    pub input: Option<String>,
}

impl<S> WorkflowState_2<S> {
    /// A new running typed run with no results, no errors, no retries so far,
    /// the default retry allowance and a one-minute claim.
    pub fn new(workflow_type: &str, instance_id: &str, scheduled_at: u64, input: Option<String>) -> (s:
        Self)
        ensures
            s.workflow_type@ == workflow_type@,
            s.instance_id@ == instance_id@,
            s.results@ == Seq::<JsonEntry>::empty(),
            s.scheduled_at == scheduled_at,
            s.status matches WorkflowStatus_2::Open(Open_2::Running),
            s.retries == 0,
            s.max_retries == crate::workflow_state::DEFAULT_MAX_RETRIES,
            s.output is None,
            s.errors@.len() == 0,
            s.claim_duration == TYPED_CLAIM_DURATION_MS,
            s.start_time is None,
            s.end_time is None,
            s.input == input,
    {
        WorkflowState_2 {
            workflow_type: String::from_str(workflow_type),
            instance_id: String::from_str(instance_id),
            results: Vec::new(),
            scheduled_at,
            status: WorkflowStatus_2::Open(Open_2::Running),
            retries: 0,
            max_retries: crate::workflow_state::DEFAULT_MAX_RETRIES,
            output: None,
            errors: Vec::new(),
            claim_duration: TYPED_CLAIM_DURATION_MS,
            start_time: None,
            end_time: None,
            input,
        }
    }

    /// Marks the run as waiting for `signal`; nothing else changes.
    pub fn mark_awaiting_signal(&mut self, signal: S)
        ensures
            final(self).status == WorkflowStatus_2::Open(Open_2::AwaitingSignal(signal)),
            final(self).workflow_type == old(self).workflow_type,
            final(self).instance_id == old(self).instance_id,
            final(self).results == old(self).results,
            final(self).scheduled_at == old(self).scheduled_at,
            final(self).retries == old(self).retries,
            final(self).max_retries == old(self).max_retries,
            final(self).output == old(self).output,
            final(self).errors == old(self).errors,
            final(self).claim_duration == old(self).claim_duration,
            final(self).start_time == old(self).start_time,
            final(self).end_time == old(self).end_time,
            final(self).input == old(self).input,
    {
        self.status = WorkflowStatus_2::Open(Open_2::AwaitingSignal(signal));
    }

    /// Closes the run as completed at `now`; nothing else changes.
    pub fn mark_completed(&mut self, now: u64)
        ensures
            final(self).status == WorkflowStatus_2::<S>::Closed(Closed_2::Completed),
            final(self).end_time == Some(now),
            final(self).workflow_type == old(self).workflow_type,
            final(self).instance_id == old(self).instance_id,
            final(self).results == old(self).results,
            final(self).scheduled_at == old(self).scheduled_at,
            final(self).retries == old(self).retries,
            final(self).max_retries == old(self).max_retries,
            final(self).output == old(self).output,
            final(self).errors == old(self).errors,
            final(self).claim_duration == old(self).claim_duration,
            final(self).start_time == old(self).start_time,
            final(self).input == old(self).input,
    {
        self.status = WorkflowStatus_2::Closed(Closed_2::Completed);
        self.end_time = Some(now);
    }
}

/// A store of typed run states (as JSON text), by instance id.
pub trait DB_2 {
    /// Stores `state` under `instance_id`, replacing what was there.
    fn insert_workflow_state(&mut self, instance_id: String, state: String);

    /// The state stored under `instance_id`, if any.
    fn get_workflow_state(&self, instance_id: &str) -> Option<String>;
}

/// An in-memory [`DB_2`].
pub struct MockDB_2 {
    states: Vec<JsonEntry>,
}

impl MockDB_2 {
    /// The stored states, one per instance id.
    pub closed spec fn states(&self) -> Seq<JsonEntry> {
        self.states@
    }

    #[verifier::type_invariant]
    closed spec fn keys_unique(&self) -> bool {
        unique_keys(self.states@)
    }

    /// An empty store.
    pub fn new() -> (db: Self)
        ensures
            db.states() == Seq::<JsonEntry>::empty(),
    {
        MockDB_2 { states: Vec::new() }
    }

    /// Instance ids are unique in the store.
    pub fn keys_are_unique(&self)
        ensures
            unique_keys(self.states()),
    {
        proof {
            use_type_invariant(self);
        }
    }
}

impl DB_2 for MockDB_2 {
    fn insert_workflow_state(&mut self, instance_id: String, state: String)
        ensures
            final(self).states() == upsert(old(self).states(), JsonEntry { key: instance_id, value: state }),
    {
        proof {
            use_type_invariant(&*self);
        }
        let mut states = Vec::new();
        std::mem::swap(&mut states, &mut self.states);
        upsert_vec(&mut states, JsonEntry { key: instance_id, value: state });
        self.states = states;
    }

    fn get_workflow_state(&self, instance_id: &str) -> (r: Option<String>)
        ensures
            r == match lookup(self.states(), instance_id@) {
                Some(e) => Some(e.value),
                None => None::<String>,
            },
    {
        proof {
            use_type_invariant(self);
        }
        match find_key(&self.states, instance_id) {
            Some(i) => {
                proof {
                    lemma_lookup_at(self.states@, i as int);
                }
                Some(self.states[i].value.clone())
            },
            None => None,
        }
    }
}

/// The input of the user-creation workflow.
#[derive(Debug)]
pub struct CreateUserInput_2 {
    pub name: String,
}

/// The output of the user-creation workflow.
#[derive(Debug)]
pub struct UserCreated_2 {
    pub user_id: String,
    pub name: String,
}

/// The verification code the user-creation workflow waits for.
#[derive(Debug)]
pub struct VerificationCode_2 {
    pub code: String,
}

/// A workflow that creates a user and then waits for a verification code.
#[derive(Debug, Clone, Copy)]
pub struct CreateUserWorkflow_2;

impl CreateUserWorkflow_2 {
    /// The workflow's name.
    pub fn name(&self) -> (n: &'static str)
        ensures
            n@ == "CreateUserWorkflow_2"@,
    {
        "CreateUserWorkflow_2"
    }

    /// The user the workflow creates for `instance_id`: id `user_` followed
    /// by the instance id, with the input's name.
    pub fn create_user(&self, instance_id: &str, input: CreateUserInput_2) -> (user: UserCreated_2)
        ensures
            user.user_id@ == "user_"@ + instance_id@,
            user.name == input.name,
    {
        let mut user_id = String::from_str("user_");
        user_id.append(instance_id);
        proof {
            reveal_strlit("user_");
        }
        UserCreated_2 { user_id, name: input.name }
    }

    /// The verification code the workflow receives once its wait is over.
    pub fn verification_code(&self) -> (code: VerificationCode_2)
        ensures
            code.code@ == "1234"@,
    {
        VerificationCode_2 { code: String::from_str("1234") }
    }
}

} // verus!
