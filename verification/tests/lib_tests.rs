use ask_workflow::add;
use ask_workflow::typed_version::{
    CreateUserInput_2, CreateUserWorkflow_2, MockDB_2, WorkflowState_2, WorkflowStatus_2, Open_2,
    Closed_2, DB_2,
};

#[test]
fn it_works() {
    let result = add(2, 2);
    assert_eq!(result, 4);
}

#[test]
fn test_create_user_workflow() {
    let mut db = MockDB_2::new();
    let workflow = CreateUserWorkflow_2;
    assert_eq!(workflow.name(), "CreateUserWorkflow_2");

    let input = CreateUserInput_2 { name: "Alice".to_string() };
    let output = workflow.create_user("instance_1", input);
    assert_eq!(output.name, "Alice");
    assert_eq!(output.user_id, "user_instance_1");

    let signal = workflow.verification_code();
    assert_eq!(signal.code, "1234");

    db.insert_workflow_state("instance_1".to_string(), "{\"step\":1}".to_string());
    assert_eq!(db.get_workflow_state("instance_1"), Some("{\"step\":1}".to_string()));
    db.insert_workflow_state("instance_1".to_string(), "{\"step\":2}".to_string());
    assert_eq!(db.get_workflow_state("instance_1"), Some("{\"step\":2}".to_string()));
    assert_eq!(db.get_workflow_state("instance_2"), None);
}

#[test]
fn typed_state_transitions() {
    let mut state: WorkflowState_2<String> = WorkflowState_2::new("Typed", "i1", 10, None);
    assert!(matches!(state.status, WorkflowStatus_2::Open(Open_2::Running)));
    assert_eq!(state.claim_duration, 60_000);
    assert_eq!(state.max_retries, 17);
    state.mark_awaiting_signal("code".to_string());
    assert!(matches!(&state.status, WorkflowStatus_2::Open(Open_2::AwaitingSignal(s)) if s == "code"));
    state.mark_completed(99);
    assert!(matches!(state.status, WorkflowStatus_2::Closed(Closed_2::Completed)));
    assert_eq!(state.end_time, Some(99));
}
