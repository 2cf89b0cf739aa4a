//! A durable workflow engine: workflow runs, their activities, retries,
//! duplicate detection and signals, with an in-memory store.
use vstd::prelude::*;

pub mod db_trait;
pub mod json;
pub mod keyed;
pub mod typed_version;
pub mod ui;
pub mod worker;
pub mod workflow;
pub mod workflow_signal;
pub mod workflow_state;

verus! {

/// Adds two numbers.
pub fn add(left: u64, right: u64) -> (sum: u64)
    requires
        left + right <= u64::MAX,
    ensures
        sum == left + right,
{
    left + right
}

} // verus!
