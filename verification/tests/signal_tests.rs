use ask_workflow::workflow_signal::{
    create_signal_id, last_segment_start, short_type_name, signal_id_for_type, Signal,
    SignalDirection,
};

#[test]
fn signal_id_joins_names_with_hyphens() {
    assert_eq!(create_signal_id("approve", "Billing", "inst-1"), "approve-Billing-inst-1");
    assert_eq!(create_signal_id("", "", ""), "--");
}

#[test]
fn short_type_name_drops_the_module_path() {
    assert_eq!(short_type_name("my_crate::signals::Approve"), "Approve");
    assert_eq!(short_type_name("Approve"), "Approve");
    assert_eq!(short_type_name(""), "");
    assert_eq!(short_type_name("a::"), "");
    assert_eq!(short_type_name("a:::b"), ":b");
    assert_eq!(short_type_name("a:b::c:d"), "c:d");
    assert_eq!(last_segment_start("ab::cd"), 4);
    assert_eq!(last_segment_start("abc"), 0);
}

#[test]
fn short_type_name_agrees_with_split() {
    for name in ["x::y::z", "::lead", "trail::", "a::::b", "é::ü", "no_sep", ":::"] {
        assert_eq!(short_type_name(name), name.split("::").last().unwrap(), "{}", name);
    }
}

#[test]
fn direction_names() {
    assert_eq!(SignalDirection::FromWorkflow.to_string(), "FromWorkflow");
    assert_eq!(SignalDirection::ToWorkflow.to_string(), "ToWorkflow");
}

#[test]
fn signal_with_given_id() {
    let s = Signal::with_id(
        "cid".to_string(),
        "inst",
        "approve",
        "Billing",
        SignalDirection::FromWorkflow,
        "1".to_string(),
        None,
        9,
    );
    assert_eq!(s.id, "cid");
    assert_eq!(s.instance_id, "inst");
    assert_eq!(s.signal_name, "approve");
    assert_eq!(s.workflow_name, "Billing");
    assert_eq!(s.direction, SignalDirection::FromWorkflow);
    assert_eq!(s.data, "1");
    assert_eq!(s.sent_at, 9);
    assert_eq!(s.processed_at, None);
    assert!(!s.processed);
    assert_eq!(s.target_or_source_run_id, None);
}

#[test]
fn signal_id_from_type_or_value_agree() {
    let full = "my_app::signals::VerificationCodeSignal";
    let by_type = signal_id_for_type(full, "CreateUserWorkflow", "inst-7");
    assert_eq!(by_type, "VerificationCodeSignal-CreateUserWorkflow-inst-7");
    let by_value = create_signal_id(&short_type_name(full), "CreateUserWorkflow", "inst-7");
    assert_eq!(by_type, by_value);
}

#[test]
fn signal_with_a_fresh_cuid() {
    let s = Signal::with_id(
        cuid::cuid1().unwrap(),
        "inst-1",
        "approve",
        "Billing",
        SignalDirection::ToWorkflow,
        "{}".to_string(),
        Some("run-1".to_string()),
        123,
    );
    assert!(s.id.starts_with('c'));
    assert!(!s.processed);
}
