use ask_workflow::ui::{
    cursor_seconds, display_json, is_workflow_displayable, page_cursor, signals_of_run,
    system_time_to_rfc3339, system_time_to_string, text_le_exec, ActivityView, SignalView,
    PageLinks, TableQueryParams, WorkflowAction, WorkflowView, DEFAULT_PAGE_LIMIT,
    LATEST_DISPLAYABLE_MS,
};
use ask_workflow::workflow::WorkflowErrorType;
use ask_workflow::workflow_signal::{Signal, SignalDirection};
use ask_workflow::workflow_state::{ActivityResult, WorkflowError, WorkflowState};

fn signal(id: &str, direction: SignalDirection, sent_at: u64, processed_at: Option<u64>) -> Signal {
    Signal {
        id: id.to_string(),
        workflow_name: "W".to_string(),
        instance_id: "i".to_string(),
        signal_name: id.to_string(),
        sent_at,
        processed_at,
        data: "{\"k\":1}".to_string(),
        processed: processed_at.is_some(),
        target_or_source_run_id: Some("r1".to_string()),
        direction,
    }
}

#[test]
fn times_are_shown_in_utc() {
    assert_eq!(system_time_to_string(0), "1970-01-01 00:00:00");
    assert_eq!(system_time_to_string(86_400_000 + 3_661_999), "1970-01-02 01:01:01");
    assert_eq!(system_time_to_string(LATEST_DISPLAYABLE_MS), "+262142-12-31 23:59:59");
}

#[test]
fn cursor_times_are_rfc3339() {
    assert_eq!(system_time_to_rfc3339(0), "1970-01-01T00:00:00+00:00");
    assert_eq!(system_time_to_rfc3339(1_500), "1970-01-01T00:00:01.500+00:00");
}

#[test]
fn json_is_pretty_printed_or_replaced() {
    assert_eq!(display_json("{\"a\":1}"), "{\n  \"a\": 1\n}");
    assert_eq!(display_json("[1,2]"), "[\n  1,\n  2\n]");
    assert_eq!(display_json("not json"), "{}");
    assert_eq!(display_json(""), "{}");
}

#[test]
fn text_order_is_by_characters() {
    assert!(text_le_exec("", ""));
    assert!(text_le_exec("abc", "abd"));
    assert!(text_le_exec("ab", "abc"));
    assert!(!text_le_exec("abc", "ab"));
    assert!(text_le_exec("1970-01-01 00:00:09", "1970-01-01 00:00:10"));
    assert!(!text_le_exec("b", "a"));
}

#[test]
fn activity_and_signal_views() {
    let a = ActivityResult { name: "charge".to_string(), data: "{\"x\":2}".to_string(), timestamp: 1_000 };
    let v = ActivityView::new(&a);
    assert_eq!(v.name, "charge");
    assert_eq!(v.data, "{\n  \"x\": 2\n}");
    assert_eq!(v.timestamp, "1970-01-01 00:00:01");

    let s = signal("go", SignalDirection::ToWorkflow, 2_000, Some(3_000));
    let sv = SignalView::new(&s);
    assert_eq!(sv.signal_name, "go");
    assert_eq!(sv.direction, SignalDirection::ToWorkflow);
    assert_eq!(sv.payload, "{\n  \"k\": 1\n}");
    assert_eq!(sv.sent_at, "1970-01-01 00:00:02");
    assert_eq!(sv.processed_at, Some("1970-01-01 00:00:03".to_string()));
    let pending = SignalView::new(&signal("p", SignalDirection::ToWorkflow, 0, None));
    assert_eq!(pending.processed_at, None);
}

#[test]
fn workflow_view_orders_history_by_time() {
    let mut w = WorkflowState::with_run_id("Billing", "inst", 0, None, "r1".to_string());
    w.start_time = Some(0);
    w.add_activity_result("first", "1".to_string(), 4_000);
    w.add_activity_result("second", "2".to_string(), 1_000);
    w.errors.push(WorkflowError {
        error_type: WorkflowErrorType::transient("t".to_string()),
        activity_name: None,
        timestamp: 2_000,
    });
    let signals = vec![
        signal("out", SignalDirection::FromWorkflow, 3_000, None),
        signal("in", SignalDirection::ToWorkflow, 500, Some(5_000)),
        signal("same", SignalDirection::FromWorkflow, 1_000, None),
    ];
    assert!(is_workflow_displayable(&w, &signals));
    let v = WorkflowView::new(&w, &signals);
    assert_eq!(v.name, "Billing");
    assert_eq!(v.run_id, "r1");
    assert_eq!(v.instance_id, "inst");
    assert_eq!(v.status, "Running");
    assert_eq!(v.start_time, Some("1970-01-01 00:00:00".to_string()));
    assert_eq!(v.end_time, None);
    assert_eq!(v.updated_at, None);
    assert_eq!(v.scheduled_at, Some("1970-01-01 00:00:00".to_string()));
    let order: Vec<String> = v
        .actions
        .iter()
        .map(|a| match a {
            WorkflowAction::SentSignal(s) => format!("sent:{}", s.signal_name),
            WorkflowAction::ReceivedSignal(s) => format!("received:{}", s.signal_name),
            WorkflowAction::Activity(a) => format!("activity:{}", a.name),
            WorkflowAction::Error(_) => "error".to_string(),
        })
        .collect();
    assert_eq!(
        order,
        vec![
            "sent:same",
            "activity:second",
            "error",
            "sent:out",
            "activity:first",
            "received:in"
        ]
    );
}

#[test]
fn failed_status_text() {
    let mut w = WorkflowState::with_run_id("B", "i", 0, None, "r".to_string());
    w.mark_failed(WorkflowErrorType::perm("bad".to_string()));
    let v = WorkflowView::new(&w, &[]);
    assert!(v.status.starts_with("Failed "));
    assert!(v.actions.is_empty());
}

#[test]
fn displayable_rejects_far_future_times() {
    let mut w = WorkflowState::with_run_id("B", "i", 0, None, "r".to_string());
    assert!(is_workflow_displayable(&w, &[]));
    w.end_time = Some(LATEST_DISPLAYABLE_MS + 1);
    assert!(!is_workflow_displayable(&w, &[]));
    let w2 = WorkflowState::with_run_id("B", "i", 0, None, "r".to_string());
    let far = signal("x", SignalDirection::ToWorkflow, u64::MAX, None);
    assert!(!is_workflow_displayable(&w2, &[far]));
}

#[test]
fn cursor_is_read_as_seconds() {
    assert_eq!(cursor_seconds("1970-01-01T00:00:10+00:00"), Ok(10));
    assert_eq!(cursor_seconds("1970-01-01T00:00:10.900 00:00"), Ok(10));
    assert_eq!(cursor_seconds("1970-01-01T01:00:00+01:00"), Ok(0));
    match cursor_seconds("yesterday") {
        Err(WorkflowErrorType::PermanentError { message, content: None }) => {
            assert!(message.starts_with("cant parse rfc to datetime "))
        }
        other => panic!("unexpected {:?}", other),
    }
    match cursor_seconds("1969-12-31T23:59:59+00:00") {
        Err(WorkflowErrorType::TransientError { message, content: None }) => {
            assert!(message.starts_with("Invalid SystemTime: "))
        }
        other => panic!("unexpected {:?}", other),
    }
}

#[test]
fn signals_of_a_run() {
    let mut other = signal("b", SignalDirection::ToWorkflow, 0, None);
    other.target_or_source_run_id = Some("r2".to_string());
    let mut untied = signal("c", SignalDirection::ToWorkflow, 0, None);
    untied.target_or_source_run_id = None;
    let all = vec![signal("a", SignalDirection::ToWorkflow, 0, None), other, untied,
        signal("d", SignalDirection::FromWorkflow, 0, None)];
    let found = signals_of_run(&all, "r1");
    let ids: Vec<&str> = found.iter().map(|s| s.id.as_str()).collect();
    assert_eq!(ids, vec!["a", "d"]);
}

#[test]
fn page_query_defaults() {
    let first = TableQueryParams::first_page();
    assert_eq!(first.cursor, None);
    assert_eq!(first.limit, Some(10));
    assert_eq!(first.reverse, Some(false));
    let empty = TableQueryParams { cursor: None, limit: None, reverse: None };
    assert_eq!(empty.page_limit(), DEFAULT_PAGE_LIMIT);
    assert_eq!(DEFAULT_PAGE_LIMIT, 10);
    assert!(!empty.page_reverse());
    let asked = TableQueryParams { cursor: Some("c".to_string()), limit: Some(3), reverse: Some(true) };
    assert_eq!(asked.page_limit(), 3);
    assert!(asked.page_reverse());
}

#[test]
fn page_cursor_is_the_update_time() {
    let mut w = WorkflowState::with_run_id("B", "i", 0, None, "r".to_string());
    assert_eq!(page_cursor(Some(&w)), None);
    w.updated_at = Some(10_000);
    assert_eq!(page_cursor(Some(&w)), Some("1970-01-01T00:00:10+00:00".to_string()));
    assert_eq!(page_cursor(None), None);
    let back = page_cursor(Some(&w)).unwrap();
    assert_eq!(cursor_seconds(&back), Ok(10));
}

#[test]
fn page_links_of_list_and_table() {
    let mut a = WorkflowState::with_run_id("B", "i", 0, None, "a".to_string());
    a.updated_at = Some(20_000);
    let mut b = WorkflowState::with_run_id("B", "i", 0, None, "b".to_string());
    b.updated_at = Some(10_000);
    let runs = vec![a, b];
    let list = PageLinks::for_list(&runs);
    assert_eq!(list.next_cursor, Some("1970-01-01T00:00:10+00:00".to_string()));
    assert_eq!(list.prev_cursor, Some("1970-01-01T00:00:20+00:00".to_string()));
    assert_eq!(list.limit, 10);
    let table = PageLinks::for_table(&runs, Some("c".to_string()), 3);
    assert_eq!(table.next_cursor, Some("1970-01-01T00:00:10+00:00".to_string()));
    assert_eq!(table.prev_cursor, Some("c".to_string()));
    assert_eq!(table.limit, 3);
    let empty = PageLinks::for_list(&vec![]);
    assert_eq!(empty.next_cursor, None);
    assert_eq!(empty.prev_cursor, None);
}
