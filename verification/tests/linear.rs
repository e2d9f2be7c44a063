use isq::forge::GoalState;
use isq::linear::{
    count_finished, finished, flatten_comments, issue_state, next_reopen_type, rate_limit_from,
    IssueWithComments, LinearComment, LinearIssue, LinearOrganization, LinearProject, LinearTeam,
    CLOSE_STATE_TYPE,
};

fn project(state: &str, progress: u32, states: Option<Vec<&str>>) -> LinearProject {
    LinearProject {
        id: "proj-1".to_string(),
        name: "Launch".to_string(),
        description: None,
        state: state.to_string(),
        target_date: Some("2025-01-01".to_string()),
        created_at: "2024-01-01T00:00:00Z".to_string(),
        updated_at: "2024-01-02T00:00:00Z".to_string(),
        url: "https://linear.app/acme/project/launch".to_string(),
        progress,
        issue_state_types: states.map(|s| s.into_iter().map(|t| t.to_string()).collect()),
    }
}

#[test]
fn finished_states_mean_closed() {
    assert_eq!(issue_state("completed"), "closed");
    assert_eq!(issue_state("canceled"), "closed");
    assert_eq!(issue_state("started"), "open");
    assert_eq!(issue_state("backlog"), "open");
    assert_eq!(issue_state("Completed"), "open");
    assert_eq!(issue_state(""), "open");
    assert!(finished("canceled"));
    assert!(!finished("cancelled"));
    assert_eq!(CLOSE_STATE_TYPE, "completed");
}

#[test]
fn team_issues_come_into_the_common_shape() {
    let issue = LinearIssue {
        identifier: "ENG-12".to_string(),
        number: 12,
        title: "Crash".to_string(),
        description: Some("at start".to_string()),
        state_type: "canceled".to_string(),
        creator: None,
        labels: vec!["bug".to_string()],
        project: Some("Launch".to_string()),
        created_at: "2024-01-01T00:00:00Z".to_string(),
        updated_at: "2024-01-02T00:00:00Z".to_string(),
    };
    let common = issue.to_issue("acme");
    assert_eq!(common.number, 12);
    assert_eq!(common.title, "ENG-12 Crash");
    assert_eq!(common.body, Some("at start".to_string()));
    assert_eq!(common.state, "closed");
    assert_eq!(common.author, "unknown");
    assert_eq!(common.labels, vec!["bug"]);
    assert_eq!(common.url, Some("https://linear.app/acme/issue/ENG-12".to_string()));
    assert_eq!(common.milestone, Some("Launch".to_string()));
}

#[test]
fn projects_become_goals() {
    let goal = project("started", 400, Some(vec!["completed", "started", "canceled", "backlog", "triage"]))
        .to_goal();
    assert_eq!(goal.id, "proj-1");
    assert_eq!(goal.name, "Launch");
    assert_eq!(goal.state, GoalState::Open);
    assert_eq!(goal.progress, 400);
    assert_eq!(goal.open_count, Some(3));
    assert_eq!(goal.closed_count, Some(2));
    assert_eq!(goal.target_date, Some("2025-01-01".to_string()));
    assert_eq!(goal.html_url, Some("https://linear.app/acme/project/launch".to_string()));

    let goal = project("completed", 5000, None).to_goal();
    assert_eq!(goal.state, GoalState::Closed);
    assert_eq!(goal.progress, 1000);
    assert_eq!(goal.open_count, Some(0));
    assert_eq!(goal.closed_count, Some(0));
    assert_eq!(project("canceled", 0, Some(vec![])).to_goal().state, GoalState::Closed);
    assert_eq!(count_finished(&vec!["completed".to_string(), "x".to_string()]), 1);
}

#[test]
fn reopening_tries_three_state_types() {
    assert_eq!(next_reopen_type(0), Some("backlog"));
    assert_eq!(next_reopen_type(1), Some("unstarted"));
    assert_eq!(next_reopen_type(2), Some("started"));
    assert_eq!(next_reopen_type(3), None);
    assert_eq!(next_reopen_type(usize::MAX), None);
}

#[test]
fn the_budget_is_read_from_two_headers() {
    let info = rate_limit_from(Some("1499"), Some("1704067200")).unwrap();
    assert_eq!(info.remaining, 1499);
    assert_eq!(info.reset_at, 1704067200);
    let info = rate_limit_from(Some("0"), Some("-5")).unwrap();
    assert_eq!((info.remaining, info.reset_at), (0, -5));
    let info = rate_limit_from(Some("4294967295"), Some("-9223372036854775808")).unwrap();
    assert_eq!((info.remaining, info.reset_at), (u32::MAX, i64::MIN));
    let info = rate_limit_from(Some("+1"), Some("+9223372036854775807")).unwrap();
    assert_eq!((info.remaining, info.reset_at), (1, i64::MAX));
    assert!(rate_limit_from(None, Some("1704067200")).is_none());
    assert!(rate_limit_from(Some("1499"), None).is_none());
    assert!(rate_limit_from(Some("4294967296"), Some("1")).is_none());
    assert!(rate_limit_from(Some("1"), Some("9223372036854775808")).is_none());
    assert!(rate_limit_from(Some("1"), Some("-9223372036854775809")).is_none());
    assert!(rate_limit_from(Some("1"), Some("-")).is_none());
    assert!(rate_limit_from(Some("1"), Some("-+5")).is_none());
    assert!(rate_limit_from(Some("-1"), Some("5")).is_none());
    assert!(rate_limit_from(Some("1 "), Some("5")).is_none());
}

#[test]
fn comments_are_listed_issue_after_issue() {
    let c = |id: &str, user: Option<&str>| LinearComment {
        id: id.to_string(),
        body: format!("body of {}", id),
        user: user.map(|u| u.to_string()),
        created_at: "2024-01-01T00:00:00Z".to_string(),
    };
    let issues = vec![
        IssueWithComments { number: 7, comments: vec![c("a", Some("ann")), c("b", None)] },
        IssueWithComments { number: 8, comments: vec![] },
        IssueWithComments { number: 9, comments: vec![c("c", Some("bob"))] },
    ];
    let comments = flatten_comments(&issues);
    let got: Vec<(&str, u64, &str)> = comments
        .iter()
        .map(|x| (x.comment_id.as_str(), x.issue_number, x.author.as_str()))
        .collect();
    assert_eq!(got, vec![("a", 7, "ann"), ("b", 7, "unknown"), ("c", 9, "bob")]);
    assert_eq!(comments[0].body, "body of a");
    assert!(flatten_comments(&[]).is_empty());
}

#[test]
fn teams_and_organizations_are_plain_records() {
    let team = LinearTeam { id: "t1".to_string(), name: "Engineering".to_string(), key: "ENG".to_string() };
    let org = LinearOrganization { url_key: "acme".to_string(), name: "Acme".to_string() };
    assert_eq!(format!("{}/{}", team.key, team.id), "ENG/t1");
    assert_eq!(org.url_key, "acme");
}
