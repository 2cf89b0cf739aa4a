use ask_workflow::db_trait::InMemoryDB;
use ask_workflow::workflow::WorkflowErrorType;
use ask_workflow::workflow_signal::{Signal, SignalDirection};
use ask_workflow::workflow_state::{Closed, WorkflowState};

fn run(workflow: &str, instance: &str, run_id: &str, scheduled_at: u64) -> WorkflowState {
    WorkflowState::with_run_id(workflow, instance, scheduled_at, None, run_id.to_string())
}

fn updated(run_id: &str, updated_at: Option<u64>) -> WorkflowState {
    let mut w = run("W", "i", run_id, 0);
    w.updated_at = updated_at;
    w
}

fn signal(id: &str, instance: &str, name: &str, direction: SignalDirection, sent_at: u64) -> Signal {
    Signal {
        id: id.to_string(),
        workflow_name: "W".to_string(),
        instance_id: instance.to_string(),
        signal_name: name.to_string(),
        sent_at,
        processed_at: None,
        data: "{}".to_string(),
        processed: false,
        target_or_source_run_id: None,
        direction,
    }
}

fn run_ids(runs: &[WorkflowState]) -> Vec<&str> {
    runs.iter().map(|w| w.run_id.as_str()).collect()
}

#[test]
fn new_store_is_empty() {
    let db = InMemoryDB::new();
    assert!(db.get_all().is_empty());
    assert!(db.get_all_signals().unwrap().is_empty());
    assert_eq!(db.get_workflow_state("r1").unwrap(), None);
}

#[test]
fn insert_then_get_returns_the_run() {
    let mut db = InMemoryDB::new();
    let id = db.insert(run("W", "i", "r1", 10));
    assert_eq!(id, "r1");
    let got = db.get_workflow_state("r1").unwrap().unwrap();
    assert_eq!(got, run("W", "i", "r1", 10));
    assert_eq!(db.get_workflow_state("r2").unwrap(), None);
}

#[test]
fn update_replaces_the_run_with_the_same_id() {
    let mut db = InMemoryDB::new();
    db.insert(run("W", "i", "r1", 10));
    db.insert(run("W", "i", "r2", 20));
    let mut changed = run("W", "i", "r1", 10);
    changed.mark_completed(50);
    db.update(changed);
    let all = db.get_all();
    assert_eq!(run_ids(&all), vec!["r1", "r2"]);
    assert_eq!(all[0].end_time, Some(50));
    assert!(matches!(
        db.get_workflow_state("r1").unwrap().unwrap().status,
        ask_workflow::workflow_state::WorkflowStatus::Closed(Closed::Completed)
    ));
}

#[test]
fn update_of_an_unknown_run_stores_it() {
    let mut db = InMemoryDB::new();
    db.update(run("W", "i", "r9", 1));
    assert_eq!(run_ids(&db.get_all()), vec!["r9"]);
}

#[test]
fn query_due_keeps_running_runs_scheduled_by_now() {
    let mut db = InMemoryDB::new();
    db.insert(run("W", "i", "early", 5));
    db.insert(run("W", "i", "late", 50));
    let mut done = run("W", "i", "done", 1);
    done.mark_completed(2);
    db.insert(done);
    db.insert(run("W", "i", "exact", 10));
    assert_eq!(run_ids(&db.query_due(10)), vec!["early", "exact"]);
    assert!(db.query_due(0).is_empty());
    assert_eq!(run_ids(&db.query_due(100)), vec!["early", "late", "exact"]);
}

#[test]
fn running_workflows_of_an_instance() {
    let mut db = InMemoryDB::new();
    db.insert(run("W", "a", "r1", 0));
    db.insert(run("W", "b", "r2", 0));
    db.insert(run("V", "a", "r3", 0));
    let mut failed = run("W", "a", "r4", 0);
    failed.mark_failed(WorkflowErrorType::perm("x".to_string()));
    db.insert(failed);
    db.insert(run("W", "a", "r5", 0));
    let found = db.get_running_workflows("W", "a").unwrap();
    assert_eq!(run_ids(&found), vec!["r1", "r5"]);
    assert!(db.get_running_workflows("Z", "a").unwrap().is_empty());
}

#[test]
fn cursor_pages_newest_first() {
    let mut db = InMemoryDB::new();
    db.insert(updated("never", None));
    db.insert(updated("t5", Some(5_000)));
    db.insert(updated("t9", Some(9_999)));
    db.insert(updated("t5b", Some(5_500)));
    db.insert(updated("t2", Some(2_000)));
    let first = db.get_by_cursor(None, 10, false);
    assert_eq!(run_ids(&first), vec!["t9", "t5", "t5b", "t2", "never"]);
    let limited = db.get_by_cursor(None, 2, false);
    assert_eq!(run_ids(&limited), vec!["t9", "t5"]);
    let after = db.get_by_cursor(Some(5), 10, false);
    assert_eq!(run_ids(&after), vec!["t5", "t5b", "t2"]);
}

#[test]
fn cursor_pages_oldest_first_when_reversed() {
    let mut db = InMemoryDB::new();
    db.insert(updated("never", None));
    db.insert(updated("t5", Some(5_000)));
    db.insert(updated("t9", Some(9_999)));
    db.insert(updated("t2", Some(2_000)));
    let all = db.get_by_cursor(None, 10, true);
    assert_eq!(run_ids(&all), vec!["never", "t2", "t5", "t9"]);
    let after = db.get_by_cursor(Some(5), 10, true);
    assert_eq!(run_ids(&after), vec!["t9"]);
    assert!(db.get_by_cursor(Some(9), 10, true).is_empty());
    // a limit of 0 sets no bound
    assert_eq!(run_ids(&db.get_by_cursor(None, 0, true)), vec!["never", "t2", "t5", "t9"]);
}

#[test]
fn signals_are_stored_by_id() {
    let mut db = InMemoryDB::new();
    db.insert_signal(signal("s1", "a", "go", SignalDirection::ToWorkflow, 1)).unwrap();
    db.insert_signal(signal("s2", "b", "go", SignalDirection::ToWorkflow, 2)).unwrap();
    let mut again = signal("s1", "a", "go", SignalDirection::ToWorkflow, 1);
    again.processed = true;
    db.update_signal(again.clone()).unwrap();
    let all = db.get_all_signals().unwrap();
    assert_eq!(all.len(), 2);
    assert_eq!(all[0], again);
    assert_eq!(all[1].id, "s2");
}

#[test]
fn signals_for_workflows_by_instance() {
    let mut db = InMemoryDB::new();
    db.insert_signal(signal("s1", "a", "go", SignalDirection::ToWorkflow, 1)).unwrap();
    db.insert_signal(signal("s2", "b", "go", SignalDirection::ToWorkflow, 2)).unwrap();
    db.insert_signal(signal("s3", "c", "go", SignalDirection::FromWorkflow, 3)).unwrap();
    let found = db.get_signals_for_workflows(vec!["c".to_string(), "a".to_string()]).unwrap();
    let ids: Vec<&str> = found.iter().map(|s| s.id.as_str()).collect();
    assert_eq!(ids, vec!["s1", "s3"]);
    assert!(db.get_signals_for_workflows(vec![]).unwrap().is_empty());
}

#[test]
fn pending_signals_match_names_direction_and_state() {
    let mut db = InMemoryDB::new();
    db.insert_signal(signal("s1", "a", "go", SignalDirection::ToWorkflow, 1)).unwrap();
    db.insert_signal(signal("s2", "a", "stop", SignalDirection::ToWorkflow, 2)).unwrap();
    db.insert_signal(signal("s3", "a", "go", SignalDirection::FromWorkflow, 3)).unwrap();
    let mut done = signal("s4", "a", "go", SignalDirection::ToWorkflow, 4);
    done.processed = true;
    db.insert_signal(done).unwrap();
    db.insert_signal(signal("s5", "a", "go", SignalDirection::ToWorkflow, 5)).unwrap();
    let found = db.get_signals("W", "a", "go", SignalDirection::ToWorkflow).unwrap().unwrap();
    let ids: Vec<&str> = found.iter().map(|s| s.id.as_str()).collect();
    assert_eq!(ids, vec!["s1", "s5"]);
    let none = db.get_signals("W", "b", "go", SignalDirection::ToWorkflow).unwrap().unwrap();
    assert!(none.is_empty());
}

#[test]
fn closed_run_is_never_due() {
    let mut db = InMemoryDB::new();
    let mut w = run("W", "i", "r1", 0);
    w.mark_completed(1);
    db.insert(w);
    assert!(db.query_due(u64::MAX).is_empty());
}

#[test]
fn ids_stay_unique_after_repeated_inserts() {
    let mut db = InMemoryDB::new();
    for _ in 0..3 {
        db.insert(run("W", "i", "same", 0));
        db.insert_signal(signal("sig", "i", "go", SignalDirection::ToWorkflow, 0)).unwrap();
    }
    db.ids_are_unique();
    assert_eq!(db.get_all().len(), 1);
    assert_eq!(db.get_all_signals().unwrap().len(), 1);
}
