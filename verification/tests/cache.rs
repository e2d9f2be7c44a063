use isq::cache::issues::{get_sync_state, load_issue, load_issues, load_issues_filtered, save_issues};
use isq::cache::pending::{complete_op, count_pending_ops, load_pending_ops, queue_op};
use isq::cache::sources::{
    add_watched_repo, cleanup_stale_repos, get_repo_link, list_repo_links, list_watched_repos,
    remove_repo_link, remove_watched_repo, set_repo_link, touch_repo,
};
use isq::cache::comments::{count_comments, count_comments_by_issue, load_comments, save_comments};
use isq::cache::goals::{count_goals, load_goal_by_name, load_goals, save_goal, save_goals};
use isq::cache::limits::{get_rate_limit_state, set_rate_limit_state, update_rate_limit_budget};
use isq::cache::{Cache, CacheError};
use isq::forge::{Comment, Goal, GoalState};
use isq::forge::Issue;

const NOW: &str = "2024-01-01T00:00:00Z";
const LATER: &str = "2024-01-01T00:00:02Z";

fn test_db() -> Cache {
    Cache::new()
}

fn make_issue(number: u64, title: &str, state: &str, labels: Vec<&str>) -> Issue {
    Issue {
        number,
        title: title.to_string(),
        body: None,
        state: state.to_string(),
        author: "testuser".to_string(),
        labels: labels.into_iter().map(|name| name.to_string()).collect(),
        created_at: "2024-01-01T00:00:00Z".to_string(),
        updated_at: "2024-01-01T00:00:00Z".to_string(),
        url: None,
        milestone: None,
    }
}

#[test]
fn test_queue_and_load_pending_ops() {
    let mut conn = test_db();

    let id = queue_op(&mut conn, "owner/repo", "create", r#"{"title":"test"}"#, NOW).unwrap();
    assert!(id > 0);

    let ops = load_pending_ops(&conn, "owner/repo");
    assert_eq!(ops.len(), 1);
    assert_eq!(ops[0].op_type, "create");
    assert_eq!(ops[0].payload, r#"{"title":"test"}"#);
}

#[test]
fn test_pending_ops_ordered_by_id() {
    let mut conn = test_db();

    queue_op(&mut conn, "owner/repo", "create", "first", NOW).unwrap();
    queue_op(&mut conn, "owner/repo", "comment", "second", NOW).unwrap();
    queue_op(&mut conn, "owner/repo", "close", "third", NOW).unwrap();

    let ops = load_pending_ops(&conn, "owner/repo");
    assert_eq!(ops.len(), 3);
    assert_eq!(ops[0].op_type, "create");
    assert_eq!(ops[1].op_type, "comment");
    assert_eq!(ops[2].op_type, "close");
    assert!(ops[0].id < ops[1].id && ops[1].id < ops[2].id);
}

#[test]
fn test_pending_ops_isolated_by_repo() {
    let mut conn = test_db();

    queue_op(&mut conn, "repo-a", "create", "a", NOW).unwrap();
    queue_op(&mut conn, "repo-b", "create", "b", NOW).unwrap();

    let ops_a = load_pending_ops(&conn, "repo-a");
    let ops_b = load_pending_ops(&conn, "repo-b");

    assert_eq!(ops_a.len(), 1);
    assert_eq!(ops_b.len(), 1);
    assert_eq!(ops_a[0].payload, "a");
    assert_eq!(ops_b[0].payload, "b");
}

#[test]
fn test_complete_op_removes_from_queue() {
    let mut conn = test_db();

    let id1 = queue_op(&mut conn, "owner/repo", "create", "first", NOW).unwrap();
    let id2 = queue_op(&mut conn, "owner/repo", "comment", "second", NOW).unwrap();

    complete_op(&mut conn, id1);

    let ops = load_pending_ops(&conn, "owner/repo");
    assert_eq!(ops.len(), 1);
    assert_eq!(ops[0].id, id2);
}

#[test]
fn complete_op_twice_is_complete_op_once() {
    let mut conn = test_db();
    let id1 = queue_op(&mut conn, "owner/repo", "create", "first", NOW).unwrap();
    queue_op(&mut conn, "owner/repo", "comment", "second", NOW).unwrap();
    complete_op(&mut conn, id1);
    complete_op(&mut conn, id1);
    assert_eq!(count_pending_ops(&conn, "owner/repo"), 1);
    complete_op(&mut conn, 999);
    assert_eq!(count_pending_ops(&conn, "owner/repo"), 1);
}

#[test]
fn queue_ids_are_never_handed_out_twice() {
    let mut conn = test_db();
    let id1 = queue_op(&mut conn, "owner/repo", "create", "first", NOW).unwrap();
    assert_eq!(id1, 1);
    complete_op(&mut conn, id1);
    let id2 = queue_op(&mut conn, "owner/repo", "create", "second", NOW).unwrap();
    assert_eq!(id2, 2);
}

#[test]
fn test_count_pending_ops() {
    let mut conn = test_db();

    assert_eq!(count_pending_ops(&conn, "owner/repo"), 0);

    queue_op(&mut conn, "owner/repo", "create", "1", NOW).unwrap();
    assert_eq!(count_pending_ops(&conn, "owner/repo"), 1);

    queue_op(&mut conn, "owner/repo", "create", "2", NOW).unwrap();
    assert_eq!(count_pending_ops(&conn, "owner/repo"), 2);

    queue_op(&mut conn, "other/repo", "create", "3", NOW).unwrap();
    assert_eq!(count_pending_ops(&conn, "owner/repo"), 2);
    assert_eq!(count_pending_ops(&conn, "other/repo"), 1);
}

#[test]
fn test_save_and_load_issues() {
    let mut conn = test_db();

    let issues = vec![
        make_issue(1, "First", "open", vec![]),
        make_issue(2, "Second", "open", vec!["bug"]),
    ];

    save_issues(&mut conn, "owner/repo", &issues, NOW).unwrap();

    let loaded = load_issues(&conn, "owner/repo");
    assert_eq!(loaded.len(), 2);
    // Ordered by number DESC
    assert_eq!(loaded[0].number, 2);
    assert_eq!(loaded[1].number, 1);
}

#[test]
fn load_issues_sorts_whatever_the_order_saved() {
    let mut conn = test_db();
    let issues = vec![
        make_issue(5, "five", "open", vec![]),
        make_issue(40, "forty", "open", vec![]),
        make_issue(7, "seven", "closed", vec![]),
        make_issue(1, "one", "open", vec![]),
    ];
    save_issues(&mut conn, "owner/repo", &issues, NOW).unwrap();
    save_issues(&mut conn, "other/repo", &[make_issue(9, "nine", "open", vec![])], NOW).unwrap();
    let numbers: Vec<u64> = load_issues(&conn, "owner/repo").iter().map(|i| i.number).collect();
    assert_eq!(numbers, vec![40, 7, 5, 1]);
    assert_eq!(get_sync_state(&conn, "owner/repo"), Some((NOW.to_string(), 4)));
}

#[test]
fn save_issues_refuses_a_number_twice() {
    let mut conn = test_db();
    save_issues(&mut conn, "owner/repo", &[make_issue(1, "Old", "open", vec![])], NOW).unwrap();
    let twice = vec![make_issue(3, "a", "open", vec![]), make_issue(3, "b", "open", vec![])];
    assert_eq!(
        save_issues(&mut conn, "owner/repo", &twice, LATER),
        Err(CacheError::DuplicateIssue)
    );
    let loaded = load_issues(&conn, "owner/repo");
    assert_eq!(loaded.len(), 1);
    assert_eq!(loaded[0].title, "Old");
    assert_eq!(get_sync_state(&conn, "owner/repo"), Some((NOW.to_string(), 1)));
}

#[test]
fn test_save_issues_replaces_existing() {
    let mut conn = test_db();

    save_issues(&mut conn, "owner/repo", &[make_issue(1, "Old", "open", vec![])], NOW).unwrap();
    save_issues(&mut conn, "owner/repo", &[make_issue(2, "New", "open", vec![])], NOW).unwrap();

    let loaded = load_issues(&conn, "owner/repo");
    assert_eq!(loaded.len(), 1);
    assert_eq!(loaded[0].title, "New");
}

#[test]
fn test_filter_by_state() {
    let mut conn = test_db();

    let issues = vec![
        make_issue(1, "Open issue", "open", vec![]),
        make_issue(2, "Closed issue", "closed", vec![]),
    ];
    save_issues(&mut conn, "owner/repo", &issues, NOW).unwrap();

    let open = load_issues_filtered(&conn, "owner/repo", None, Some("open"));
    assert_eq!(open.len(), 1);
    assert_eq!(open[0].title, "Open issue");

    let closed = load_issues_filtered(&conn, "owner/repo", None, Some("closed"));
    assert_eq!(closed.len(), 1);
    assert_eq!(closed[0].title, "Closed issue");
}

#[test]
fn test_filter_by_label() {
    let mut conn = test_db();

    let issues = vec![
        make_issue(1, "Bug", "open", vec!["bug"]),
        make_issue(2, "Feature", "open", vec!["enhancement"]),
        make_issue(3, "Bug and feature", "open", vec!["bug", "enhancement"]),
    ];
    save_issues(&mut conn, "owner/repo", &issues, NOW).unwrap();

    let bugs = load_issues_filtered(&conn, "owner/repo", Some("bug"), None);
    assert_eq!(bugs.len(), 2);

    let enhancements = load_issues_filtered(&conn, "owner/repo", Some("enhancement"), None);
    assert_eq!(enhancements.len(), 2);
}

#[test]
fn label_filter_matches_a_part_of_the_serialized_labels() {
    let mut conn = test_db();
    let issues = vec![
        make_issue(1, "a", "open", vec!["bugfix"]),
        make_issue(2, "b", "open", vec!["say \"hi\""]),
        make_issue(3, "c", "open", vec![]),
    ];
    save_issues(&mut conn, "owner/repo", &issues, NOW).unwrap();
    // a label that shares a beginning is found too
    assert_eq!(load_issues_filtered(&conn, "owner/repo", Some("bug"), None).len(), 1);
    // the labels are searched as they are serialized, with quotes escaped
    assert_eq!(load_issues_filtered(&conn, "owner/repo", Some("\\\"hi\\\""), None).len(), 1);
    assert_eq!(load_issues_filtered(&conn, "owner/repo", Some("say \"hi\""), None).len(), 0);
    // every serialized list holds its brackets
    assert_eq!(load_issues_filtered(&conn, "owner/repo", Some("["), None).len(), 3);
    assert_eq!(load_issues_filtered(&conn, "owner/repo", Some("[]"), None).len(), 1);
}

#[test]
fn test_load_single_issue() {
    let mut conn = test_db();

    save_issues(&mut conn, "owner/repo", &[make_issue(42, "The answer", "open", vec![])], NOW)
        .unwrap();

    let issue = load_issue(&conn, "owner/repo", 42);
    assert!(issue.is_some());
    assert_eq!(issue.unwrap().title, "The answer");

    let missing = load_issue(&conn, "owner/repo", 999);
    assert!(missing.is_none());
}

#[test]
fn test_sync_state() {
    let mut conn = test_db();

    // No sync state initially
    assert!(get_sync_state(&conn, "owner/repo").is_none());

    // After saving issues, sync state is recorded
    save_issues(&mut conn, "owner/repo", &[make_issue(1, "Test", "open", vec![])], NOW).unwrap();

    let state = get_sync_state(&conn, "owner/repo");
    assert!(state.is_some());
    let (_, count) = state.unwrap();
    assert_eq!(count, 1);
}

#[test]
fn test_add_watched_repo() {
    let mut conn = test_db();

    add_watched_repo(&mut conn, "owner/repo", NOW);

    let repos = list_watched_repos(&conn);
    assert_eq!(repos.len(), 1);
    assert_eq!(repos[0].repo, "owner/repo");
}

#[test]
fn test_add_watched_repo_is_idempotent() {
    let mut conn = test_db();

    add_watched_repo(&mut conn, "owner/repo", NOW);
    add_watched_repo(&mut conn, "owner/repo", NOW);

    let repos = list_watched_repos(&conn);
    assert_eq!(repos.len(), 1);
}

#[test]
fn test_touch_repo_adds_if_not_exists() {
    let mut conn = test_db();

    touch_repo(&mut conn, "owner/repo", NOW);

    let repos = list_watched_repos(&conn);
    assert_eq!(repos.len(), 1);
    assert_eq!(repos[0].repo, "owner/repo");
}

#[test]
fn test_touch_repo_updates_last_accessed() {
    let mut conn = test_db();

    add_watched_repo(&mut conn, "owner/repo", NOW);
    let repos_before = list_watched_repos(&conn);
    let accessed_before = repos_before[0].last_accessed.clone();

    touch_repo(&mut conn, "owner/repo", LATER);

    let repos_after = list_watched_repos(&conn);
    assert!(repos_after[0].last_accessed > accessed_before);
    assert_eq!(repos_after[0].added_at, NOW);
}

#[test]
fn test_list_watched_repos_ordered_by_last_accessed() {
    let mut conn = test_db();

    add_watched_repo(&mut conn, "old/repo", NOW);
    add_watched_repo(&mut conn, "new/repo", LATER);

    let repos = list_watched_repos(&conn);
    assert_eq!(repos.len(), 2);
    // Most recently accessed first
    assert_eq!(repos[0].repo, "new/repo");
    assert_eq!(repos[1].repo, "old/repo");
}

#[test]
fn watched_repos_accessed_at_one_time_come_by_path() {
    let mut conn = test_db();
    add_watched_repo(&mut conn, "/b", NOW);
    add_watched_repo(&mut conn, "/c", LATER);
    add_watched_repo(&mut conn, "/a", NOW);
    touch_repo(&mut conn, "/b", NOW);
    let paths: Vec<String> = list_watched_repos(&conn).into_iter().map(|w| w.repo).collect();
    assert_eq!(paths, vec!["/c", "/a", "/b"]);
}

#[test]
fn test_remove_watched_repo() {
    let mut conn = test_db();

    add_watched_repo(&mut conn, "owner/repo", NOW);
    add_watched_repo(&mut conn, "other/repo", NOW);

    remove_watched_repo(&mut conn, "owner/repo");

    let repos = list_watched_repos(&conn);
    assert_eq!(repos.len(), 1);
    assert_eq!(repos[0].repo, "other/repo");
}

#[test]
fn test_remove_watched_repo_nonexistent() {
    let mut conn = test_db();

    // Should not error
    remove_watched_repo(&mut conn, "nonexistent/repo");
    assert!(list_watched_repos(&conn).is_empty());
}

#[test]
fn test_set_and_get_repo_link() {
    let mut conn = test_db();

    set_repo_link(&mut conn, "/path/to/repo", "github", "owner/repo", None, NOW);

    let link = get_repo_link(&conn, "/path/to/repo");
    assert!(link.is_some());
    let link = link.unwrap();
    assert_eq!(link.repo_path, "/path/to/repo");
    assert_eq!(link.forge_type, "github");
    assert_eq!(link.forge_repo, "owner/repo");
}

#[test]
fn test_get_repo_link_not_found() {
    let conn = test_db();

    let link = get_repo_link(&conn, "/nonexistent/path");
    assert!(link.is_none());
}

#[test]
fn test_set_repo_link_updates_existing() {
    let mut conn = test_db();

    set_repo_link(&mut conn, "/path/to/repo", "github", "owner/repo", None, NOW);
    set_repo_link(&mut conn, "/path/to/repo", "linear", "team-id", Some("Team"), LATER);

    let link = get_repo_link(&conn, "/path/to/repo").unwrap();
    assert_eq!(link.forge_type, "linear");
    assert_eq!(link.forge_repo, "team-id");
    assert_eq!(link.display_name, Some("Team".to_string()));
    assert_eq!(link.created_at, NOW);
    assert_eq!(list_repo_links(&conn).len(), 1);
}

#[test]
fn test_remove_repo_link() {
    let mut conn = test_db();

    set_repo_link(&mut conn, "/path/to/repo", "github", "owner/repo", None, NOW);
    remove_repo_link(&mut conn, "/path/to/repo");

    let link = get_repo_link(&conn, "/path/to/repo");
    assert!(link.is_none());
}

#[test]
fn test_remove_repo_link_nonexistent() {
    let mut conn = test_db();

    // Should not error
    remove_repo_link(&mut conn, "/nonexistent/path");
    assert!(list_repo_links(&conn).is_empty());
}

#[test]
fn test_list_repo_links() {
    let mut conn = test_db();

    set_repo_link(&mut conn, "/path/a", "github", "owner/a", None, NOW);
    set_repo_link(&mut conn, "/path/b", "linear", "team-b", None, LATER);

    let links = list_repo_links(&conn);
    assert_eq!(links.len(), 2);
    assert_eq!(links[0].repo_path, "/path/b");
    assert_eq!(links[1].repo_path, "/path/a");
}

#[test]
fn test_list_repo_links_empty() {
    let conn = test_db();

    let links = list_repo_links(&conn);
    assert!(links.is_empty());
}

#[test]
fn cleanup_drops_missing_directories_and_their_links() {
    let mut conn = test_db();
    add_watched_repo(&mut conn, "/here", NOW);
    add_watched_repo(&mut conn, "/gone", NOW);
    set_repo_link(&mut conn, "/here", "github", "o/here", None, NOW);
    set_repo_link(&mut conn, "/gone", "github", "o/gone", None, NOW);
    // a link of a directory that is not watched is not looked at
    set_repo_link(&mut conn, "/unwatched", "linear", "t/x", None, NOW);

    let present = vec!["/here".to_string()];
    assert_eq!(cleanup_stale_repos(&mut conn, &present), 1);
    let paths: Vec<String> = list_watched_repos(&conn).into_iter().map(|w| w.repo).collect();
    assert_eq!(paths, vec!["/here"]);
    assert!(get_repo_link(&conn, "/gone").is_none());
    assert!(get_repo_link(&conn, "/here").is_some());
    assert!(get_repo_link(&conn, "/unwatched").is_some());
}

#[test]
fn cleanup_twice_removes_nothing_the_second_time() {
    let mut conn = test_db();
    add_watched_repo(&mut conn, "/here", NOW);
    add_watched_repo(&mut conn, "/gone", NOW);
    add_watched_repo(&mut conn, "/gone-too", NOW);
    let present = vec!["/here".to_string()];
    assert_eq!(cleanup_stale_repos(&mut conn, &present), 2);
    assert_eq!(cleanup_stale_repos(&mut conn, &present), 0);
    assert_eq!(list_watched_repos(&conn).len(), 1);
}

fn comment(id: &str, issue_number: u64) -> Comment {
    Comment {
        comment_id: id.to_string(),
        issue_number,
        body: format!("body of {}", id),
        author: "testuser".to_string(),
        created_at: NOW.to_string(),
    }
}

fn goal(id: &str, name: &str, state: GoalState) -> Goal {
    Goal {
        id: id.to_string(),
        name: name.to_string(),
        description: None,
        target_date: None,
        state,
        progress: 250,
        open_count: Some(3),
        closed_count: Some(1),
        created_at: NOW.to_string(),
        updated_at: NOW.to_string(),
        html_url: None,
    }
}

#[test]
fn comments_are_replaced_whole_and_read_by_issue() {
    let mut conn = test_db();
    save_comments(&mut conn, "other/repo", &[comment("x", 1)]).unwrap();
    save_comments(&mut conn, "owner/repo", &[comment("old", 1)]).unwrap();
    let fresh = vec![comment("a", 2), comment("b", 1), comment("c", 2), comment("d", 7)];
    save_comments(&mut conn, "owner/repo", &fresh).unwrap();

    let on_two: Vec<String> =
        load_comments(&conn, "owner/repo", 2).into_iter().map(|c| c.comment_id).collect();
    assert_eq!(on_two, vec!["a", "c"]);
    assert_eq!(load_comments(&conn, "owner/repo", 1)[0].body, "body of b");
    assert!(load_comments(&conn, "owner/repo", 3).is_empty());
    assert_eq!(count_comments(&conn, "owner/repo", 2), 2);
    assert_eq!(count_comments(&conn, "owner/repo", 3), 0);
    assert_eq!(count_comments_by_issue(&conn, "owner/repo"), vec![(2, 2), (1, 1), (7, 1)]);
    assert_eq!(count_comments_by_issue(&conn, "other/repo"), vec![(1, 1)]);
    assert!(count_comments_by_issue(&conn, "none/repo").is_empty());

    let twice = vec![comment("a", 2), comment("a", 3)];
    assert_eq!(save_comments(&mut conn, "owner/repo", &twice), Err(CacheError::DuplicateComment));
    assert_eq!(count_comments(&conn, "owner/repo", 2), 2);
}

#[test]
fn goals_are_saved_whole_or_one_by_one() {
    let mut conn = test_db();
    let goals =
        vec![goal("1", "v1", GoalState::Closed), goal("2", "v2", GoalState::Open), goal("3", "v2", GoalState::Open)];
    save_goals(&mut conn, "owner/repo", &goals).unwrap();
    save_goals(&mut conn, "other/repo", &[goal("1", "theirs", GoalState::Open)]).unwrap();
    assert_eq!(count_goals(&conn, "owner/repo"), 3);
    let open: Vec<String> =
        load_goals(&conn, "owner/repo", Some(GoalState::Open)).into_iter().map(|g| g.id).collect();
    assert_eq!(open, vec!["2", "3"]);
    assert_eq!(load_goals(&conn, "owner/repo", Some(GoalState::Closed)).len(), 1);
    assert_eq!(load_goals(&conn, "owner/repo", None).len(), 3);
    // of two goals with one name the first in the table is found
    assert_eq!(load_goal_by_name(&conn, "owner/repo", "v2").unwrap().id, "2");
    assert!(load_goal_by_name(&conn, "owner/repo", "v3").is_none());
    assert!(load_goal_by_name(&conn, "other/repo", "v1").is_none());

    // one goal takes the place of the goal with its id
    save_goal(&mut conn, "owner/repo", &goal("2", "v2 again", GoalState::Closed));
    assert_eq!(count_goals(&conn, "owner/repo"), 3);
    assert_eq!(load_goal_by_name(&conn, "owner/repo", "v2").unwrap().id, "3");
    assert_eq!(load_goal_by_name(&conn, "owner/repo", "v2 again").unwrap().state, GoalState::Closed);
    save_goal(&mut conn, "owner/repo", &goal("9", "new", GoalState::Open));
    assert_eq!(count_goals(&conn, "owner/repo"), 4);
    assert_eq!(count_goals(&conn, "other/repo"), 1);

    let twice = vec![goal("1", "a", GoalState::Open), goal("1", "b", GoalState::Open)];
    assert_eq!(save_goals(&mut conn, "owner/repo", &twice), Err(CacheError::DuplicateGoal));
    assert_eq!(count_goals(&conn, "owner/repo"), 4);
}

#[test]
fn rate_limit_states_are_kept_per_forge() {
    let mut conn = test_db();
    assert!(get_rate_limit_state(&conn, "github").is_none());
    update_rate_limit_budget(&mut conn, "github", Some(5000), 4990, 1_700_000_000, NOW);
    set_rate_limit_state(&mut conn, "linear", Some(50), Some("slow down"), NOW);
    // a backoff signal keeps the budget that was known
    set_rate_limit_state(&mut conn, "github", Some(1_700_000_045), Some("403"), LATER);
    let state = get_rate_limit_state(&conn, "github").unwrap();
    assert_eq!(state.limit, Some(5000));
    assert_eq!(state.remaining, Some(4990));
    assert_eq!(state.reset_at, Some(1_700_000_045));
    assert_eq!(state.last_error, Some("403".to_string()));
    assert_eq!(state.updated_at, LATER);
    // a budget report clears the error
    update_rate_limit_budget(&mut conn, "github", None, 10, 1_700_000_100, LATER);
    let state = get_rate_limit_state(&conn, "github").unwrap();
    assert_eq!((state.limit, state.remaining, state.last_error), (None, Some(10), None));
    assert_eq!(get_rate_limit_state(&conn, "linear").unwrap().reset_at, Some(50));
}

#[test]
fn the_cache_is_handed_over_and_back_whole() {
    let mut conn = test_db();
    save_issues(&mut conn, "owner/repo", &[make_issue(2, "b", "open", vec!["x"]), make_issue(1, "a", "open", vec![])], NOW).unwrap();
    save_comments(&mut conn, "owner/repo", &[comment("c", 1)]).unwrap();
    save_goal(&mut conn, "owner/repo", &goal("1", "v1", GoalState::Open));
    let id = queue_op(&mut conn, "owner/repo", "close", "{}", NOW).unwrap();
    complete_op(&mut conn, id);
    queue_op(&mut conn, "owner/repo", "close", "{}", NOW).unwrap();
    add_watched_repo(&mut conn, "/src/app", NOW);
    set_repo_link(&mut conn, "/src/app", "github", "owner/repo", None, NOW);
    set_rate_limit_state(&mut conn, "github", Some(5), None, NOW);

    let rows = conn.to_rows();
    assert_eq!(rows.next_op_id, 3);
    assert_eq!(rows.pending.len(), 1);
    assert_eq!(rows.issues.len(), 2);
    let again = Cache::from_rows(rows).unwrap();
    assert_eq!(format!("{:?}", again.to_rows()), format!("{:?}", conn.to_rows()));
    assert_eq!(load_issues(&again, "owner/repo").len(), 2);

    // rows that contradict each other are refused
    let mut rows = conn.to_rows();
    let copy = conn.to_rows().watched.pop().unwrap();
    rows.watched.push(copy);
    assert!(Cache::from_rows(rows).is_none());
    let mut rows = conn.to_rows();
    rows.next_op_id = 2;
    assert!(Cache::from_rows(rows).is_none());
    let mut rows = conn.to_rows();
    rows.pending.reverse();
    rows.pending.push(conn.to_rows().pending.pop().unwrap());
    assert!(Cache::from_rows(rows).is_none());
}
