use ask_workflow::workflow::WorkflowErrorType;
use ask_workflow::workflow_state::{
    backoff_delay_ms, next_creation_ms, Closed, Open, WorkflowState, WorkflowStatus,
    DEFAULT_MAX_RETRIES,
};

fn state(run_id: &str) -> WorkflowState {
    WorkflowState::with_run_id("Billing", "inst-1", 1_000, Some("{\"x\":1}".to_string()), run_id.to_string())
}

#[test]
fn new_state_is_open_and_empty() {
    let s = state("r1");
    assert_eq!(s.workflow_type, "Billing");
    assert_eq!(s.instance_id, "inst-1");
    assert_eq!(s.run_id, "r1");
    assert_eq!(s.status, WorkflowStatus::Open(Open::Running));
    assert_eq!(s.retries, 0);
    assert_eq!(s.max_retries, DEFAULT_MAX_RETRIES);
    assert_eq!(s.max_retries, 17);
    assert!(s.results.is_empty());
    assert!(s.errors.is_empty());
    assert_eq!(s.input, Some("{\"x\":1}".to_string()));
    assert_eq!(s.scheduled_at, 1_000);
    assert!(s.results_unique());
}

#[test]
fn new_state_gets_a_cuid_run_id() {
    let a = WorkflowState::new("Billing", "inst-1", 5, None, cuid::cuid1().unwrap(), 3);
    let b = WorkflowState::new("Billing", "inst-1", 5, None, cuid::cuid1().unwrap(), 4);
    assert_eq!(a.created_at, Some(3));
    assert_eq!(b.created_at, Some(4));
    assert!(a.run_id.starts_with('c'));
    assert!(a.run_id.len() > 1);
    assert_ne!(a.run_id, b.run_id);
    assert_eq!(a.scheduled_at, 5);
    assert_eq!(a.status, WorkflowStatus::Open(Open::Running));
    assert_eq!(a.max_retries, DEFAULT_MAX_RETRIES);
    assert!(a.results.is_empty());
}

#[test]
fn unique_id_joins_type_and_instance() {
    assert_eq!(state("r1").unique_id(), "Billing-inst-1");
}

#[test]
fn mark_completed_sets_end_time() {
    let mut s = state("r1");
    s.mark_completed(42);
    assert_eq!(s.status, WorkflowStatus::Closed(Closed::Completed));
    assert_eq!(s.end_time, Some(42));
}

#[test]
fn mark_failed_keeps_the_error() {
    let mut s = state("r1");
    s.mark_failed(WorkflowErrorType::perm("bad".to_string()));
    assert_eq!(
        s.status,
        WorkflowStatus::Closed(Closed::Failed { error: WorkflowErrorType::perm("bad".to_string()) })
    );
    assert_eq!(s.end_time, None);
}

#[test]
fn activity_results_are_cached_by_name() {
    let mut s = state("r1");
    assert!(!s.has_activity_result("fetch"));
    assert_eq!(s.get_activity_result("fetch"), None);
    s.add_activity_result("fetch", "\"one\"".to_string(), 7);
    s.add_activity_result("other", "2".to_string(), 8);
    assert!(s.has_activity_result("fetch"));
    assert_eq!(s.get_activity_result("fetch"), Some(&"\"one\"".to_string()));
    s.add_activity_result("fetch", "\"two\"".to_string(), 9);
    assert_eq!(s.get_activity_result("fetch"), Some(&"\"two\"".to_string()));
    assert_eq!(s.get_activity_result("other"), Some(&"2".to_string()));
    assert_eq!(s.results.len(), 2);
    assert!(s.results_unique());
}

#[test]
fn duplicate_result_names_are_detected() {
    let mut s = state("r1");
    s.add_activity_result("a", "1".to_string(), 1);
    s.results.push(s.results[0].clone());
    assert!(!s.results_unique());
}

#[test]
fn backoff_delays_double() {
    assert_eq!(backoff_delay_ms(0), 2_000);
    assert_eq!(backoff_delay_ms(1), 4_000);
    assert_eq!(backoff_delay_ms(3), 16_000);
    assert_eq!(backoff_delay_ms(17), 262_144_000);
    assert_eq!(backoff_delay_ms(22), 8_388_608_000);
    for n in 0..22 {
        assert_eq!(backoff_delay_ms(n + 1), 2 * backoff_delay_ms(n));
    }
}

#[test]
fn next_retry_uses_backoff_until_exhausted() {
    let mut s = state("r1");
    assert_eq!(s.calculate_next_retry(10_000), Some(12_000));
    s.retries = 4;
    assert_eq!(s.calculate_next_retry(10_000), Some(42_000));
    s.retries = 17;
    assert_eq!(s.calculate_next_retry(10_000), None);
}

#[test]
fn default_retries_wait_about_three_days() {
    // retry counts 1 to 16 each wait their backoff; the 17th schedules nothing
    let mut s = state("r1");
    let e = WorkflowErrorType::transient("flaky".to_string());
    let mut now: u64 = 0;
    let mut waited: u64 = 0;
    while s.status == WorkflowStatus::Open(Open::Running) {
        let before = s.scheduled_at;
        s.retry(e.clone(), now);
        if s.scheduled_at != before {
            waited += s.scheduled_at - now;
            now = s.scheduled_at;
        }
    }
    assert_eq!(waited, 262_140_000);
    assert!(waited >= 3 * 24 * 60 * 60 * 1000);
    assert_eq!(s.retries, DEFAULT_MAX_RETRIES);
}

#[test]
fn retry_counts_and_reschedules() {
    let mut s = state("r1");
    let e = WorkflowErrorType::transient("flaky".to_string());
    s.retry(e.clone(), 100);
    assert_eq!(s.retries, 1);
    assert_eq!(s.scheduled_at, 100 + 4_000);
    assert_eq!(s.status, WorkflowStatus::Open(Open::Running));
    // the last allowed retry leaves the schedule as it was
    s.retries = 16;
    s.scheduled_at = 5;
    s.retry(e.clone(), 100);
    assert_eq!(s.retries, 17);
    assert_eq!(s.scheduled_at, 5);
    // once the allowance is used up the run fails
    s.retry(e.clone(), 100);
    assert_eq!(s.retries, 17);
    assert_eq!(s.status, WorkflowStatus::Closed(Closed::Failed { error: e }));
}

#[test]
fn status_text() {
    assert_eq!(WorkflowStatus::Open(Open::Running).to_string(), "Running");
    assert_eq!(WorkflowStatus::Closed(Closed::Completed).to_string(), "Completed");
    assert_eq!(WorkflowStatus::Closed(Closed::Cancelled).to_string(), "Cancelled");
    let failed = WorkflowStatus::Closed(Closed::Failed {
        error: WorkflowErrorType::perm("bad".to_string()),
    });
    let text = failed.to_string();
    assert!(text.starts_with("Failed "));
    assert_eq!(text, format!("Failed {:?}", WorkflowErrorType::perm("bad".to_string())));
    let x = WorkflowStatus::Closed(Closed::Failed { error: WorkflowErrorType::perm("x".to_string()) });
    assert_eq!(x.to_string(), r#"Failed PermanentError { message: "x", content: None }"#);
}

#[test]
fn results_can_be_recorded_over_repeated_names() {
    let mut s = state("r1");
    s.results.push(ask_workflow::workflow_state::ActivityResult {
        name: "a".to_string(),
        data: "1".to_string(),
        timestamp: 1,
    });
    s.results.push(ask_workflow::workflow_state::ActivityResult {
        name: "a".to_string(),
        data: "2".to_string(),
        timestamp: 2,
    });
    assert!(!s.results_unique());
    assert_eq!(s.get_activity_result("a"), Some(&"1".to_string()));
    s.add_activity_result("a", "3".to_string(), 3);
    assert_eq!(s.results.len(), 2);
    assert_eq!(s.get_activity_result("a"), Some(&"3".to_string()));
    assert_eq!(s.results[1].data, "2");
}

#[test]
fn clone_keeps_everything() {
    let mut s = state("r1");
    s.add_activity_result("a", "1".to_string(), 3);
    s.mark_failed(WorkflowErrorType::transient("x".to_string()));
    let c = s.clone();
    assert_eq!(c, s);
}

#[test]
fn creation_times_move_past_the_last() {
    assert_eq!(next_creation_ms(5, 9), 9);
    assert_eq!(next_creation_ms(9, 9), 10);
    assert_eq!(next_creation_ms(12, 9), 13);
    assert_eq!(next_creation_ms(0, 0), 1);
}
