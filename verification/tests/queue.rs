use isq::cache::pending::{count_pending_ops, load_pending_ops, queue_op};
use isq::cache::{Cache, PendingOp};
use isq::queue::{
    describe_done, describe_queued, is_conflict_error, is_offline_error, is_offline_message,
    is_throttle_error, payload_text, plan_op, plan_pending_op, process_pending_ops, read_payload,
    settle_pending_op, settle_write, ForgeCall, OpError, PayloadFields, Receipt, WriteError,
};

const NOW: &str = "2024-01-01T00:00:00Z";

fn op(op_type: &str, payload: &str) -> PendingOp {
    PendingOp {
        id: 1,
        repo: "owner/repo".to_string(),
        op_type: op_type.to_string(),
        payload: payload.to_string(),
        created_at: NOW.to_string(),
    }
}

fn no_fields() -> PayloadFields {
    PayloadFields {
        title: None,
        body: None,
        labels: None,
        goal_id: None,
        issue_number: None,
        label: None,
        assignee: None,
        name: None,
        description: None,
        target_date: None,
    }
}

#[test]
fn network_class_is_seven_phrases_in_any_case() {
    for message in [
        "Connection refused (os error 111)",
        "Network is unreachable",
        "No route to host",
        "error sending request: dns error: failed to lookup address",
        "CONNECTION RESET by peer",
        "operation timed out",
        "Could not resolve host: api.github.com",
    ] {
        assert!(is_offline_error(message), "{}", message);
    }
    assert!(!is_offline_error("GitHub API error 404: Not Found"));
    assert!(!is_offline_error("connection closed"));
    assert!(!is_offline_error(""));
    // the phrase list is matched against the message in lower case
    assert!(is_offline_message("request timed out"));
    assert!(!is_offline_message("request Timed Out"));
}

#[test]
fn conflict_class_is_three_status_codes() {
    assert!(is_conflict_error("GitHub API error 404: Not Found"));
    assert!(is_conflict_error("GitHub API error 409: Conflict"));
    assert!(is_conflict_error("GitHub API error 422: Unprocessable"));
    assert!(!is_conflict_error("GitHub API error 500: Server Error"));
    assert!(!is_conflict_error("connection refused"));
    assert!(is_throttle_error("GitHub API error 403: Forbidden"));
    assert!(is_throttle_error("API rate limit exceeded"));
    assert!(!is_throttle_error("Rate Limit"));
}

#[test]
fn queued_operations_are_read_back_as_writes() {
    let call = plan_pending_op(&op(
        "create",
        r#"{"title":"x","body":"why","labels":["bug",7,"ui"],"goal_id":"g1"}"#,
    ))
    .unwrap();
    match call {
        ForgeCall::CreateIssue { title, body, labels, goal_id } => {
            assert_eq!(title, "x");
            assert_eq!(body, Some("why".to_string()));
            assert_eq!(labels, vec!["bug", "ui"]);
            assert_eq!(goal_id, Some("g1".to_string()));
        }
        other => panic!("not a create: {:?}", other),
    }
    let call = plan_pending_op(&op("comment", r#"{"issue_number":12,"body":"hello"}"#)).unwrap();
    assert!(matches!(call, ForgeCall::CreateComment { issue_number: 12, body } if body == "hello"));
    let call = plan_pending_op(&op("close", r#"{"issue_number":9999999}"#)).unwrap();
    assert!(matches!(call, ForgeCall::CloseIssue { issue_number: 9999999 }));
    let call = plan_pending_op(&op("reopen", r#"{"issue_number":3}"#)).unwrap();
    assert!(matches!(call, ForgeCall::ReopenIssue { issue_number: 3 }));
    let call = plan_pending_op(&op("label_add", r#"{"issue_number":3,"label":"bug"}"#)).unwrap();
    assert!(matches!(call, ForgeCall::AddLabel { issue_number: 3, label } if label == "bug"));
    let call = plan_pending_op(&op("label_remove", r#"{"issue_number":3,"label":"bug"}"#)).unwrap();
    assert!(matches!(call, ForgeCall::RemoveLabel { issue_number: 3, label } if label == "bug"));
    let call = plan_pending_op(&op("assign", r#"{"issue_number":3,"assignee":"ann"}"#)).unwrap();
    assert!(matches!(call, ForgeCall::AssignIssue { issue_number: 3, assignee } if assignee == "ann"));
    let call = plan_pending_op(&op(
        "create_goal",
        r#"{"name":"v1","target_date":"2025-01-01","description":null}"#,
    ))
    .unwrap();
    assert!(matches!(call, ForgeCall::CreateGoal { name, description: None, target_date: Some(t) } if name == "v1" && t == "2025-01-01"));
    let call = plan_pending_op(&op("assign_goal", r#"{"issue_number":3,"goal_id":"g"}"#)).unwrap();
    assert!(matches!(call, ForgeCall::AssignToGoal { issue_number: 3, goal_id } if goal_id == "g"));
    let call = plan_pending_op(&op("close_goal", r#"{"goal_id":"g"}"#)).unwrap();
    assert!(matches!(call, ForgeCall::CloseGoal { goal_id } if goal_id == "g"));
}

#[test]
fn missing_members_count_as_empty_or_zero() {
    let call = plan_pending_op(&op("comment", "{}")).unwrap();
    assert!(matches!(call, ForgeCall::CreateComment { issue_number: 0, body } if body.is_empty()));
    let call = plan_pending_op(&op("close", r#"{"issue_number":-4}"#)).unwrap();
    assert!(matches!(call, ForgeCall::CloseIssue { issue_number: 0 }));
    let call = plan_pending_op(&op("close", r#"{"issue_number":"7"}"#)).unwrap();
    assert!(matches!(call, ForgeCall::CloseIssue { issue_number: 0 }));
    let call = plan_pending_op(&op("create", "[1,2]")).unwrap();
    assert!(matches!(call, ForgeCall::CreateIssue { title, body: None, labels, goal_id: None } if title.is_empty() && labels.is_empty()));
    let call = plan_op("close", &no_fields()).unwrap();
    assert!(matches!(call, ForgeCall::CloseIssue { issue_number: 0 }));
}

#[test]
fn unknown_kinds_and_bad_payloads_stand_for_no_write() {
    let err = plan_pending_op(&op("rename", "{}")).unwrap_err();
    assert!(matches!(&err, OpError::UnknownKind(k) if k == "rename"));
    assert_eq!(err.message(), "Unknown op type: rename");
    let err = plan_pending_op(&op("close", "first")).unwrap_err();
    assert!(matches!(&err, OpError::Malformed(_)));
    assert!(err.message().contains("line 1"));
    // a payload that is no JSON is refused whatever the kind
    assert!(matches!(plan_pending_op(&op("rename", "{")), Err(OpError::Malformed(_))));
    assert!(read_payload("").is_err());
    let fields = read_payload(r#"{"label":"a","issue_number":18446744073709551615}"#).unwrap();
    assert_eq!(fields.label, Some("a".to_string()));
    assert_eq!(fields.issue_number, Some(u64::MAX));
    assert_eq!(fields.title, None);
}

#[test]
fn payloads_are_compact_json_with_sorted_members() {
    let create = ForgeCall::CreateIssue {
        title: "x".to_string(),
        body: None,
        labels: vec![],
        goal_id: None,
    };
    assert_eq!(
        payload_text(&create).unwrap(),
        r#"{"body":null,"goal_id":null,"labels":[],"title":"x"}"#
    );
    assert!(payload_text(&create).unwrap().contains(r#""title":"x""#));
    let create = ForgeCall::CreateIssue {
        title: "say \"hi\"\n".to_string(),
        body: Some("b\\c".to_string()),
        labels: vec!["bug".to_string(), "ü".to_string()],
        goal_id: Some("g".to_string()),
    };
    assert_eq!(
        payload_text(&create).unwrap(),
        r#"{"body":"b\\c","goal_id":"g","labels":["bug","ü"],"title":"say \"hi\"\n"}"#
    );
    let comment = ForgeCall::CreateComment { issue_number: 12, body: "hello".to_string() };
    assert_eq!(payload_text(&comment).unwrap(), r#"{"body":"hello","issue_number":12}"#);
    let close = ForgeCall::CloseIssue { issue_number: 0 };
    assert_eq!(payload_text(&close).unwrap(), r#"{"issue_number":0}"#);
    let reopen = ForgeCall::ReopenIssue { issue_number: u64::MAX };
    assert_eq!(payload_text(&reopen).unwrap(), r#"{"issue_number":18446744073709551615}"#);
    let add = ForgeCall::AddLabel { issue_number: 3, label: "bug".to_string() };
    assert_eq!(payload_text(&add).unwrap(), r#"{"issue_number":3,"label":"bug"}"#);
    let assign = ForgeCall::AssignIssue { issue_number: 3, assignee: "ann".to_string() };
    assert_eq!(payload_text(&assign).unwrap(), r#"{"assignee":"ann","issue_number":3}"#);
    let goal = ForgeCall::CreateGoal {
        name: "v1".to_string(),
        description: None,
        target_date: Some("2025-01-01".to_string()),
    };
    assert_eq!(
        payload_text(&goal).unwrap(),
        r#"{"description":null,"name":"v1","target_date":"2025-01-01"}"#
    );
    let to_goal = ForgeCall::AssignToGoal { issue_number: 3, goal_id: "g".to_string() };
    assert_eq!(payload_text(&to_goal).unwrap(), r#"{"goal_id":"g","issue_number":3}"#);
    let close_goal = ForgeCall::CloseGoal { goal_id: "g".to_string() };
    assert_eq!(payload_text(&close_goal).unwrap(), r#"{"goal_id":"g"}"#);
}

#[test]
fn a_queued_write_replays_as_itself() {
    let calls = vec![
        ForgeCall::CreateIssue {
            title: "say \"hi\"\n\u{1F600}".to_string(),
            body: Some("b\\c".to_string()),
            labels: vec!["bug".to_string(), "ü".to_string()],
            goal_id: Some("g".to_string()),
        },
        ForgeCall::CreateComment { issue_number: 12, body: "hello\tworld".to_string() },
        ForgeCall::CloseIssue { issue_number: 9999999 },
        ForgeCall::ReopenIssue { issue_number: u64::MAX },
        ForgeCall::AddLabel { issue_number: 3, label: "a/b".to_string() },
        ForgeCall::RemoveLabel { issue_number: 3, label: String::new() },
        ForgeCall::AssignIssue { issue_number: 3, assignee: "ann".to_string() },
        ForgeCall::CreateGoal {
            name: "v1".to_string(),
            description: Some("first".to_string()),
            target_date: None,
        },
        ForgeCall::AssignToGoal { issue_number: 3, goal_id: "g".to_string() },
        ForgeCall::CloseGoal { goal_id: "g".to_string() },
    ];
    for call in calls {
        let queued = op(call.op_kind(), &payload_text(&call).unwrap());
        let replayed = plan_pending_op(&queued).unwrap();
        assert_eq!(format!("{:?}", replayed), format!("{:?}", call));
    }
}

#[test]
fn offline_create_is_queued() {
    let mut cache = Cache::new();
    let call = ForgeCall::CreateIssue {
        title: "x".to_string(),
        body: None,
        labels: vec![],
        goal_id: None,
    };
    let answer = Err("error sending request: connection refused".to_string());
    let result = settle_write(&mut cache, "owner/repo", &call, "", &answer, 17, NOW).unwrap();
    assert!(result.success);
    assert!(result.queued);
    assert_eq!(result.issue_number, None);
    assert!(result.message.contains("Queued"));
    assert_eq!(result.message, "Queued: x");
    assert_eq!(result.elapsed_ms, 17);
    assert!(result.elapsed_ms < 5000);

    let ops = load_pending_ops(&cache, "owner/repo");
    assert_eq!(ops.len(), 1);
    assert_eq!(ops[0].op_type, "create");
    assert!(ops[0].payload.contains(r#""title":"x""#));
    assert_eq!(ops[0].created_at, NOW);
}

#[test]
fn a_write_that_is_taken_is_reported_and_not_queued() {
    let mut cache = Cache::new();
    let call = ForgeCall::CreateIssue {
        title: "x".to_string(),
        body: None,
        labels: vec![],
        goal_id: None,
    };
    let answer = Ok(Receipt { issue_number: Some(41), title: Some("x!".to_string()) });
    let result = settle_write(&mut cache, "owner/repo", &call, "", &answer, 230, NOW).unwrap();
    assert!(result.success && !result.queued);
    assert_eq!(result.issue_number, Some(41));
    assert_eq!(result.message, "Created #41 x!");
    assert_eq!(count_pending_ops(&cache, "owner/repo"), 0);

    let close = ForgeCall::CloseIssue { issue_number: 7 };
    let answer = Ok(Receipt { issue_number: None, title: None });
    let result = settle_write(&mut cache, "owner/repo", &close, "", &answer, 1, NOW).unwrap();
    assert_eq!(result.issue_number, Some(7));
    assert_eq!(result.message, "Closed #7");
}

#[test]
fn any_other_failure_is_passed_on_and_not_queued() {
    let mut cache = Cache::new();
    let call = ForgeCall::CloseIssue { issue_number: 7 };
    let answer = Err("GitHub API error 401: Bad credentials".to_string());
    let err = settle_write(&mut cache, "owner/repo", &call, "", &answer, 5, NOW).unwrap_err();
    assert!(matches!(&err, WriteError::Remote(m) if m == "GitHub API error 401: Bad credentials"));
    assert_eq!(err.message(), "GitHub API error 401: Bad credentials");
    assert_eq!(count_pending_ops(&cache, "owner/repo"), 0);
}

#[test]
fn every_kind_has_its_sentences() {
    let none = Receipt { issue_number: None, title: None };
    let cases: Vec<(ForgeCall, &str, &str)> = vec![
        (
            ForgeCall::CreateComment { issue_number: 5, body: "b".to_string() },
            "Comment added to #5",
            "Queued: comment on #5",
        ),
        (ForgeCall::CloseIssue { issue_number: 5 }, "Closed #5", "Queued: close #5"),
        (ForgeCall::ReopenIssue { issue_number: 5 }, "Reopened #5", "Queued: reopen #5"),
        (
            ForgeCall::AddLabel { issue_number: 5, label: "bug".to_string() },
            "Added label 'bug' to #5",
            "Queued: add label 'bug' to #5",
        ),
        (
            ForgeCall::RemoveLabel { issue_number: 5, label: "bug".to_string() },
            "Removed label 'bug' from #5",
            "Queued: remove label 'bug' from #5",
        ),
        (
            ForgeCall::AssignIssue { issue_number: 5, assignee: "ann".to_string() },
            "Assigned @ann to #5",
            "Queued: assign @ann to #5",
        ),
        (
            ForgeCall::CreateGoal { name: "v1".to_string(), description: None, target_date: None },
            "Created goal: v1",
            "Queued: create goal v1",
        ),
        (
            ForgeCall::AssignToGoal { issue_number: 5, goal_id: "g".to_string() },
            "Assigned #5 to goal 'Launch'",
            "Queued: assign #5 to 'Launch'",
        ),
        (
            ForgeCall::CloseGoal { goal_id: "g".to_string() },
            "Closed goal 'Launch'",
            "Queued: close goal 'Launch'",
        ),
    ];
    for (call, done, queued) in cases {
        assert_eq!(describe_done(&call, &none, "Launch"), done);
        assert_eq!(describe_queued(&call, "Launch"), queued);
    }
}

#[test]
fn conflicts_are_dropped_and_other_failures_stay() {
    let mut cache = Cache::new();
    let a = queue_op(&mut cache, "owner/repo", "close", r#"{"issue_number":9999999}"#, NOW).unwrap();
    let b = queue_op(&mut cache, "owner/repo", "close", r#"{"issue_number":2}"#, NOW).unwrap();
    let c = queue_op(&mut cache, "owner/repo", "close", r#"{"issue_number":3}"#, NOW).unwrap();
    let d = queue_op(&mut cache, "other/repo", "close", r#"{"issue_number":4}"#, NOW).unwrap();
    let before = count_pending_ops(&cache, "owner/repo");

    let ops = load_pending_ops(&cache, "owner/repo");
    let outcomes = vec![
        Err("GitHub API error 404: Not Found".to_string()),
        Err("GitHub API error 500: oops".to_string()),
        Ok(()),
    ];
    assert_eq!(process_pending_ops(&mut cache, &ops, &outcomes), 2);
    let left = load_pending_ops(&cache, "owner/repo");
    assert_eq!(left.len(), 1);
    assert_eq!(left[0].id, b);
    assert_eq!(count_pending_ops(&cache, "owner/repo"), before - 2);
    assert!(left.iter().all(|o| o.id != a && o.id != c));
    assert_eq!(load_pending_ops(&cache, "other/repo")[0].id, d);
}

#[test]
fn one_operation_is_settled_by_its_outcome() {
    let mut cache = Cache::new();
    let a = queue_op(&mut cache, "owner/repo", "close", "{}", NOW).unwrap();
    assert!(!settle_pending_op(&mut cache, a, &Err("timed out".to_string())));
    assert_eq!(count_pending_ops(&cache, "owner/repo"), 1);
    assert!(settle_pending_op(&mut cache, a, &Err("422 Unprocessable".to_string())));
    assert_eq!(count_pending_ops(&cache, "owner/repo"), 0);
    assert!(settle_pending_op(&mut cache, a, &Ok(())));
    assert_eq!(count_pending_ops(&cache, "owner/repo"), 0);
}
