use ask_workflow::json::error_object;
use ask_workflow::workflow::{
    begin_activity, can_retry, cancel_earlier, finish_activity, finish_execution, input_decode_error,
    is_earliest, plan_execution, required_input, schedule_error, was_cancelled, ActivityStep,
    DuplicateStrategy, ExecutionPlan,
    WorkflowErrorType,
};
use ask_workflow::workflow_state::{Closed, Open, WorkflowState, WorkflowStatus};

fn run(run_id: &str, start: Option<u64>, created: Option<u64>) -> WorkflowState {
    let mut s = WorkflowState::with_run_id("W", "i", 0, None, run_id.to_string());
    s.start_time = start;
    s.created_at = created;
    s
}

#[test]
fn error_constructors() {
    assert_eq!(
        WorkflowErrorType::perm("m".to_string()),
        WorkflowErrorType::PermanentError { message: "m".to_string(), content: None }
    );
    assert_eq!(
        WorkflowErrorType::transient("m".to_string()),
        WorkflowErrorType::TransientError { message: "m".to_string(), content: None }
    );
    assert_eq!(
        WorkflowErrorType::perm_detailed("m".to_string(), "[1]".to_string()),
        WorkflowErrorType::PermanentError { message: "m".to_string(), content: Some("[1]".to_string()) }
    );
}

#[test]
fn errors_from_other_errors_carry_their_debug_text() {
    assert_eq!(
        WorkflowErrorType::perm_from_error("lookup failed", Some(3)),
        WorkflowErrorType::PermanentError {
            message: "lookup failed".to_string(),
            content: Some("{\"error\":\"Some(3)\"}".to_string()),
        }
    );
    assert_eq!(
        WorkflowErrorType::transient_from_error("io", "a\"b"),
        WorkflowErrorType::TransientError {
            message: "io".to_string(),
            content: Some("{\"error\":\"\\\"a\\\\\\\"b\\\"\"}".to_string()),
        }
    );
}

#[test]
fn json_helpers_escape() {
    assert_eq!(error_object("a\"b\n"), "{\"error\":\"a\\\"b\\n\"}");
    assert_eq!(error_object("x"), "{\"error\":\"x\"}");
    assert_eq!(error_object("\u{1}\u{8}\t\\/\u{7f}é"), "{\"error\":\"\\u0001\\b\\t\\\\/\u{7f}é\"}");
    let parsed: serde_json::Value = serde_json::from_str(&error_object("q\"uote")).unwrap();
    assert_eq!(parsed["error"], "q\"uote");
}

#[test]
fn json_errors_become_permanent_errors() {
    let err = serde_json::from_str::<u32>("nope").unwrap_err();
    let expected = err.to_string();
    match WorkflowErrorType::from_json_error(&err) {
        WorkflowErrorType::PermanentError { message, content } => {
            assert_eq!(message, expected);
            assert_eq!(content, None);
        }
        other => panic!("unexpected {:?}", other),
    }
}

fn parse_number(text: &str) -> Result<u32, WorkflowErrorType> {
    let n: u32 = serde_json::from_str(text)?;
    Ok(n)
}

#[test]
fn json_error_message_is_its_display_text() {
    let err = serde_json::from_str::<Vec<u32>>("[1,\n  x]").unwrap_err();
    assert_eq!(err.to_string(), "expected value at line 2 column 3");
    match WorkflowErrorType::from_json_error(&err) {
        WorkflowErrorType::PermanentError { message, content } => {
            assert_eq!(message, "expected value at line 2 column 3");
            assert_eq!(content, None);
        }
        other => panic!("unexpected {:?}", other),
    }
}

#[test]
fn json_errors_convert_with_question_mark() {
    assert_eq!(parse_number("12"), Ok(12));
    let err = serde_json::from_str::<u32>("x").unwrap_err();
    assert_eq!(
        parse_number("x"),
        Err(WorkflowErrorType::PermanentError { message: err.to_string(), content: None })
    );
    assert!(!err.is_io());
    assert_eq!(WorkflowErrorType::from(err), WorkflowErrorType::from_json_error(
        &serde_json::from_str::<u32>("x").unwrap_err()
    ));
}

#[test]
fn earliest_run_detection() {
    let me = run("b", Some(200), None);
    assert!(is_earliest(&me, &vec![], 1_000));
    assert!(is_earliest(&me, &vec![me.clone()], 1_000));
    // another run started earlier
    assert!(!is_earliest(&me, &vec![me.clone(), run("a", Some(100), None)], 1_000));
    // another run started later
    assert!(is_earliest(&me, &vec![me.clone(), run("c", Some(300), None)], 1_000));
    // creation times count only while this run has not started
    let fresh = run("b", None, Some(50));
    assert!(!is_earliest(&fresh, &vec![fresh.clone(), run("a", None, Some(10))], 1_000));
    assert!(is_earliest(&me, &vec![me.clone(), run("a", None, Some(10))], 1_000));
    // runs with neither time never count
    assert!(is_earliest(&fresh, &vec![fresh.clone(), run("a", None, None)], 1_000));
    // a run that has not started compares against now
    let unstarted = run("b", None, None);
    assert!(!is_earliest(&unstarted, &vec![unstarted.clone(), run("a", Some(999), None)], 1_000));
    assert!(is_earliest(&unstarted, &vec![unstarted.clone(), run("a", Some(1_000), None)], 1_000));
}

#[test]
fn equal_times_hold_no_run_back() {
    let p = run("p", Some(5), None);
    let q = run("q", Some(5), None);
    let both = vec![p.clone(), q.clone()];
    assert!(is_earliest(&p, &both, 10));
    assert!(is_earliest(&q, &both, 10));
    let mut later = q.clone();
    assert_eq!(
        plan_execution(&mut later, &both, DuplicateStrategy::Enqueue, 4_000, 10),
        ExecutionPlan::Claimed
    );
    let x = run("x", None, Some(7));
    let y = run("y", None, Some(7));
    let both = vec![x.clone(), y.clone()];
    assert!(is_earliest(&x, &both, 10));
    assert!(is_earliest(&y, &both, 10));
    // runs created one after the other are ordered by creation
    let z = run("z", None, Some(8));
    assert!(!is_earliest(&z, &vec![x.clone(), z.clone()], 10));
}

#[test]
fn later_duplicate_replaces_earlier_runs() {
    let first = run("a", Some(100), None);
    let other = run("c", None, None);
    let mut later = run("b", None, Some(500));
    let running = vec![first.clone(), later.clone(), other.clone()];
    let cancelled = cancel_earlier(&later, &running, 600);
    assert_eq!(cancelled.len(), 1);
    assert_eq!(cancelled[0].run_id, "a");
    assert_eq!(cancelled[0].status, WorkflowStatus::Closed(Closed::Cancelled));
    assert_eq!(cancelled[0].end_time, Some(600));
    assert_eq!(
        plan_execution(&mut later, &running, DuplicateStrategy::Cancel, 300_000, 600),
        ExecutionPlan::Replacing
    );
    assert_eq!(later.start_time, Some(600));
    assert_eq!(later.scheduled_at, 300_600);
    assert_eq!(later.status, WorkflowStatus::Open(Open::Running));
    // the earliest run is claimed as usual, whatever the strategy
    let mut earliest = first.clone();
    assert_eq!(
        plan_execution(&mut earliest, &running, DuplicateStrategy::Cancel, 300_000, 600),
        ExecutionPlan::Claimed
    );
    assert!(cancel_earlier(&first, &running, 600).is_empty());
}

#[test]
fn cancelled_runs_are_recognised() {
    let mut w = run("a", Some(1), None);
    assert!(!was_cancelled(&Ok(Some(w.clone()))));
    w.mark_cancelled(9);
    assert_eq!(w.status, WorkflowStatus::Closed(Closed::Cancelled));
    assert_eq!(w.end_time, Some(9));
    assert!(was_cancelled(&Ok(Some(w))));
    assert!(!was_cancelled(&Ok(None)));
    assert!(!was_cancelled(&Err(WorkflowErrorType::transient("db".to_string()))));
}

#[test]
fn duplicate_is_rejected_or_requeued() {
    let others = vec![run("b", Some(200), None), run("a", Some(100), None)];

    let mut rejected = run("b", Some(200), None);
    assert_eq!(
        plan_execution(&mut rejected, &others, DuplicateStrategy::Reject, 300_000, 1_000),
        ExecutionPlan::Rejected
    );
    assert_eq!(
        rejected.status,
        WorkflowStatus::Closed(Closed::Failed {
            error: WorkflowErrorType::perm("Duplicate workflow detected".to_string())
        })
    );

    let mut requeued = run("b", Some(200), None);
    assert_eq!(
        plan_execution(&mut requeued, &others, DuplicateStrategy::Enqueue, 4_000, 1_000),
        ExecutionPlan::Requeued
    );
    assert_eq!(requeued.scheduled_at, 5_000);
    assert_eq!(requeued.status, WorkflowStatus::Open(Open::Running));
    assert_eq!(requeued.start_time, Some(200));
}

#[test]
fn earliest_run_is_claimed() {
    let mut s = run("a", None, None);
    assert_eq!(
        plan_execution(&mut s, &vec![], DuplicateStrategy::Reject, 300_000, 1_000),
        ExecutionPlan::Claimed
    );
    assert_eq!(s.scheduled_at, 301_000);
    assert_eq!(s.start_time, Some(1_000));
    // a second claim keeps the first start time
    assert_eq!(
        plan_execution(&mut s, &vec![], DuplicateStrategy::Reject, 300_000, 2_000),
        ExecutionPlan::Claimed
    );
    assert_eq!(s.start_time, Some(1_000));
    assert_eq!(s.scheduled_at, 302_000);
}

#[test]
fn run_results_are_folded_into_the_state() {
    let mut done = run("a", Some(1), None);
    assert_eq!(finish_execution(&mut done, Ok(Some("1".to_string())), None, 50), Ok(()));
    assert_eq!(done.status, WorkflowStatus::Closed(Closed::Completed));
    assert_eq!(done.end_time, Some(50));

    let mut pending = run("a", Some(1), None);
    assert_eq!(
        finish_execution(&mut pending, Err(WorkflowErrorType::Pending { schedule_time: 900 }), None, 50),
        Ok(())
    );
    assert_eq!(pending.scheduled_at, 900);
    assert_eq!(pending.updated_at, Some(50));
    assert_eq!(pending.status, WorkflowStatus::Open(Open::Running));

    let mut flaky = run("a", Some(1), None);
    let t = WorkflowErrorType::transient("flaky".to_string());
    assert_eq!(finish_execution(&mut flaky, Err(t.clone()), None, 50), Err(t.clone()));
    assert_eq!(flaky.retries, 1);
    assert_eq!(flaky.scheduled_at, 4_050);
    assert_eq!(flaky.updated_at, Some(50));

    let mut broken = run("a", Some(1), None);
    let p = WorkflowErrorType::perm("broken".to_string());
    let p_json = "{\"PermanentError\":{\"message\":\"broken\",\"content\":null}}".to_string();
    assert_eq!(
        finish_execution(&mut broken, Err(p.clone()), Some(p_json.clone()), 50),
        Err(p.clone())
    );
    assert_eq!(broken.status, WorkflowStatus::Closed(Closed::Failed { error: p }));
    assert_eq!(broken.updated_at, Some(50));
    assert_eq!(broken.output, Some(p_json));
    assert_eq!(broken.retries, 0);
}

#[test]
fn retry_bounds_are_checked() {
    let mut s = run("a", None, None);
    assert!(can_retry(&s, 0));
    s.max_retries = 40;
    s.retries = 21;
    assert!(can_retry(&s, 0));
    s.retries = 22;
    assert!(!can_retry(&s, 0));
    s.retries = 1;
    assert!(!can_retry(&s, u64::MAX));
    s.retries = 40;
    assert!(can_retry(&s, u64::MAX));
}

#[test]
fn activities_replay_their_results() {
    let mut s = run("a", None, None);
    assert!(matches!(begin_activity(&s, "fetch", None, 10), ActivityStep::Run));
    assert_eq!(finish_activity(&mut s, "fetch", Ok("{\"v\":3}".to_string()), 10), Ok(()));
    match begin_activity(&s, "fetch", Some(0), 10) {
        ActivityStep::Cached(data) => assert_eq!(data, "{\"v\":3}"),
        other => panic!("unexpected {:?}", other),
    }
    assert_eq!(s.results[0].timestamp, 10);
}

#[test]
fn activities_time_out() {
    let s = run("a", None, None);
    match begin_activity(&s, "poll", Some(99), 100) {
        ActivityStep::TimedOut(e) => assert_eq!(e, WorkflowErrorType::perm("Activity timeout".to_string())),
        other => panic!("unexpected {:?}", other),
    }
    assert!(matches!(begin_activity(&s, "poll", Some(100), 100), ActivityStep::Run));
}

#[test]
fn failed_activities_are_recorded() {
    let mut s = run("a", None, None);
    let e = WorkflowErrorType::transient("down".to_string());
    assert_eq!(finish_activity(&mut s, "send", Err(e.clone()), 77), Err(e.clone()));
    assert_eq!(s.errors.len(), 1);
    assert_eq!(s.errors[0].error_type, e);
    assert_eq!(s.errors[0].activity_name, Some("send".to_string()));
    assert_eq!(s.errors[0].timestamp, 77);
    assert!(s.results.is_empty());
}

#[test]
fn input_is_required() {
    let mut s = run("a", None, None);
    assert_eq!(required_input(&s), Err(WorkflowErrorType::perm("No input provided".to_string())));
    s.input = Some("{\"name\":\"Aksel\"}".to_string());
    assert_eq!(required_input(&s), Ok("{\"name\":\"Aksel\"}".to_string()));
    assert_eq!(input_decode_error(), WorkflowErrorType::perm("Failed to deserialize input".to_string()));
    assert_eq!(schedule_error(), WorkflowErrorType::perm("Cant schedule wf".to_string()));
}
