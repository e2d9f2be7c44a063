use isq::cache::issues::{get_sync_state, load_issue, load_issues, save_issues};
use isq::cache::limits::{get_rate_limit_state, is_rate_limited, set_rate_limit_state};
use isq::cache::pending::{count_pending_ops, load_pending_ops, queue_op};
use isq::cache::sources::{add_watched_repo, list_watched_repos, set_repo_link, touch_repo};
use isq::cache::comments::{count_comments, load_comments};
use isq::cache::Cache;
use isq::daemon::{
    begin_sync, not_linked_error, plan_cycle, settle_sync, settle_sync_with_roll, sync_step,
    SyncAction, SyncEvent, SyncOutcome, SyncPhase, SyncRun,
};
use isq::forge::{Comment, ForgeType, Issue, RateLimitInfo};
use isq::governor::BackoffTable;
use isq::queue::ForgeCall;

const NOW: &str = "2024-01-01T00:00:00Z";
const NOW_UNIX: i64 = 1_704_067_200;

fn issue(number: u64, title: &str) -> Issue {
    Issue {
        number,
        title: title.to_string(),
        body: None,
        state: "open".to_string(),
        author: "testuser".to_string(),
        labels: vec![],
        created_at: NOW.to_string(),
        updated_at: NOW.to_string(),
        url: None,
        milestone: None,
    }
}

fn comment(id: &str, issue_number: u64) -> Comment {
    Comment {
        comment_id: id.to_string(),
        issue_number,
        body: "text".to_string(),
        author: "testuser".to_string(),
        created_at: NOW.to_string(),
    }
}

fn linked() -> Cache {
    let mut cache = Cache::new();
    set_repo_link(&mut cache, "/src/app", "github", "owner/repo", Some("owner/repo"), NOW);
    add_watched_repo(&mut cache, "/src/app", NOW);
    cache
}

fn step(cache: &mut Cache, run: Option<SyncRun>, event: SyncEvent) -> (Option<SyncRun>, SyncAction) {
    sync_step(cache, run.unwrap(), event, NOW_UNIX, NOW)
}

#[test]
fn fresh_link_then_cache_read() {
    let mut cache = linked();
    assert!(get_sync_state(&cache, "owner/repo").is_none());

    let (run, action) = begin_sync(&mut cache, "/src/app", NOW_UNIX);
    assert!(matches!(action, SyncAction::ListIssues));
    let run_ref = run.as_ref().unwrap();
    assert_eq!(run_ref.forge, ForgeType::GitHub);
    assert_eq!(run_ref.repo.owner, "owner");
    assert_eq!(run_ref.repo.name, "repo");
    assert_eq!(run_ref.phase, SyncPhase::Issues);

    let issues = vec![issue(1, "one"), issue(3, "three"), issue(2, "two")];
    let (run, action) = step(&mut cache, run, SyncEvent::Issues(Ok(issues)));
    assert!(matches!(action, SyncAction::ListComments));
    let comments = vec![comment("c1", 3), comment("c2", 3), comment("c3", 1)];
    let (run, action) = step(&mut cache, run, SyncEvent::Comments(Ok(comments)));
    assert!(matches!(action, SyncAction::ProbeRateLimit));
    let info = RateLimitInfo { remaining: 4990, reset_at: NOW_UNIX - 10 };
    let (run, action) = step(&mut cache, run, SyncEvent::RateLimit(Some(info)));
    assert!(run.is_none());
    assert!(matches!(
        action,
        SyncAction::Finished(SyncOutcome::Synced { issues: 3, comments: 3, replayed: 0 })
    ));

    // the read that follows is served by the cache
    let started = std::time::Instant::now();
    touch_repo(&mut cache, "/src/app", NOW);
    let listed: Vec<u64> = load_issues(&cache, "owner/repo").iter().map(|i| i.number).collect();
    assert!(started.elapsed() < std::time::Duration::from_millis(100));
    assert!(!listed.is_empty());
    assert_eq!(listed, vec![3, 2, 1]);
    assert_eq!(get_sync_state(&cache, "owner/repo"), Some((NOW.to_string(), 3)));
    assert_eq!(list_watched_repos(&cache).len(), 1);
    assert_eq!(count_comments(&cache, "owner/repo", 3), 2);
    assert_eq!(load_comments(&cache, "owner/repo", 1)[0].comment_id, "c3");
    let state = get_rate_limit_state(&cache, "github").unwrap();
    assert_eq!(state.remaining, Some(4990));
    assert_eq!(state.last_error, None);
}

#[test]
fn replay_on_recovery() {
    let mut cache = linked();
    queue_op(&mut cache, "owner/repo", "create", r#"{"title":"x","body":null,"labels":[]}"#, NOW)
        .unwrap();
    queue_op(&mut cache, "owner/repo", "comment", r#"{"issue_number":1,"body":"hi"}"#, NOW)
        .unwrap();

    let (run, action) = begin_sync(&mut cache, "/src/app", NOW_UNIX);
    assert!(matches!(&action, SyncAction::Replay(ForgeCall::CreateIssue { title, .. }) if title == "x"));
    let (run, action) = step(&mut cache, run, SyncEvent::Replayed(Ok(())));
    // the operations are replayed in the order in which they were queued
    assert!(matches!(&action, SyncAction::Replay(ForgeCall::CreateComment { issue_number: 1, .. })));
    assert_eq!(count_pending_ops(&cache, "owner/repo"), 1);
    let (run, action) = step(&mut cache, run, SyncEvent::Replayed(Ok(())));
    assert!(matches!(action, SyncAction::ListIssues));
    assert_eq!(count_pending_ops(&cache, "owner/repo"), 0);

    let (run, _) = step(&mut cache, run, SyncEvent::Issues(Ok(vec![issue(8, "x")])));
    let (run, _) = step(&mut cache, run, SyncEvent::Comments(Ok(vec![])));
    let (_, action) = step(&mut cache, run, SyncEvent::RateLimit(None));
    assert!(matches!(
        action,
        SyncAction::Finished(SyncOutcome::Synced { issues: 1, comments: 0, replayed: 2 })
    ));
    assert_eq!(load_issue(&cache, "owner/repo", 8).unwrap().title, "x");
}

#[test]
fn conflict_discard() {
    let mut cache = linked();
    queue_op(&mut cache, "owner/repo", "close", r#"{"issue_number":9999999}"#, NOW).unwrap();
    let before = count_pending_ops(&cache, "owner/repo");

    let (run, action) = begin_sync(&mut cache, "/src/app", NOW_UNIX);
    assert!(matches!(&action, SyncAction::Replay(ForgeCall::CloseIssue { issue_number: 9999999 })));
    let refused = Err("GitHub API error 404: Not Found".to_string());
    let (run, action) = step(&mut cache, run, SyncEvent::Replayed(refused));
    assert!(matches!(action, SyncAction::ListIssues));
    assert_eq!(count_pending_ops(&cache, "owner/repo"), before - 1);
    assert!(load_pending_ops(&cache, "owner/repo").is_empty());
    assert_eq!(run.as_ref().unwrap().replayed, 1);
    assert!(load_issue(&cache, "owner/repo", 9999999).is_none());
}

#[test]
fn a_failed_replay_stays_queued() {
    let mut cache = linked();
    let id = queue_op(&mut cache, "owner/repo", "close", r#"{"issue_number":5}"#, NOW).unwrap();
    let (run, _) = begin_sync(&mut cache, "/src/app", NOW_UNIX);
    let (run, action) =
        step(&mut cache, run, SyncEvent::Replayed(Err("connection reset".to_string())));
    assert!(matches!(action, SyncAction::ListIssues));
    assert_eq!(run.as_ref().unwrap().replayed, 0);
    assert_eq!(load_pending_ops(&cache, "owner/repo")[0].id, id);
}

#[test]
fn operations_that_stand_for_no_write_are_settled_without_the_forge() {
    let mut cache = linked();
    // malformed: stays, since its error tells of no conflict
    let a = queue_op(&mut cache, "owner/repo", "close", "first", NOW).unwrap();
    // unknown kind whose name holds a conflict code: dropped
    queue_op(&mut cache, "owner/repo", "op404", "{}", NOW).unwrap();
    let c = queue_op(&mut cache, "owner/repo", "close", r#"{"issue_number":5}"#, NOW).unwrap();
    let (run, action) = begin_sync(&mut cache, "/src/app", NOW_UNIX);
    assert!(matches!(&action, SyncAction::Replay(ForgeCall::CloseIssue { issue_number: 5 })));
    let run_ref = run.as_ref().unwrap();
    assert_eq!(run_ref.next_op, 2);
    assert_eq!(run_ref.replayed, 1);
    let left: Vec<i64> = load_pending_ops(&cache, "owner/repo").iter().map(|o| o.id).collect();
    assert_eq!(left, vec![a, c]);
}

#[test]
fn rate_limit_backoff() {
    let mut cache = linked();
    let (run, _) = begin_sync(&mut cache, "/src/app", NOW_UNIX);
    let error = "GitHub API error 403: API rate limit exceeded".to_string();
    let (run, action) = step(&mut cache, run, SyncEvent::Issues(Err(error.clone())));
    assert!(matches!(action, SyncAction::ProbeRateLimit));
    assert_eq!(run.as_ref().unwrap().phase, SyncPhase::IssuesFailed);
    let info = RateLimitInfo { remaining: 0, reset_at: NOW_UNIX + 45 };
    let (run, action) = step(&mut cache, run, SyncEvent::RateLimit(Some(info)));
    assert!(run.is_none());
    assert!(matches!(&action, SyncAction::Finished(SyncOutcome::Failed(e)) if *e == error));

    let state = get_rate_limit_state(&cache, "github").unwrap();
    assert_eq!(state.reset_at, Some(NOW_UNIX + 45));
    assert_eq!(state.last_error, Some(error));
    assert!(is_rate_limited(&cache, "github", NOW_UNIX + 44));
    assert!(!is_rate_limited(&cache, "github", NOW_UNIX + 45));

    // within the 45 seconds the next sync ends before it asks the forge for anything
    let (run, action) = begin_sync(&mut cache, "/src/app", NOW_UNIX + 10);
    assert!(run.is_none());
    assert!(matches!(action, SyncAction::Finished(SyncOutcome::Skipped { wait_secs: 35 })));
    // after them it goes on
    let (_, action) = begin_sync(&mut cache, "/src/app", NOW_UNIX + 45);
    assert!(matches!(action, SyncAction::ListIssues));
}

#[test]
fn a_forge_that_names_no_reset_is_left_alone_for_a_minute() {
    let mut cache = linked();
    let (run, _) = begin_sync(&mut cache, "/src/app", NOW_UNIX);
    let (run, _) = step(&mut cache, run, SyncEvent::Issues(Ok(vec![issue(1, "one")])));
    let error = "secondary rate limit".to_string();
    let (run, action) = step(&mut cache, run, SyncEvent::Comments(Err(error.clone())));
    assert!(matches!(action, SyncAction::ProbeRateLimit));
    let (_, action) = step(&mut cache, run, SyncEvent::RateLimit(None));
    assert!(matches!(&action, SyncAction::Finished(SyncOutcome::Failed(e)) if *e == error));
    assert_eq!(get_rate_limit_state(&cache, "github").unwrap().reset_at, Some(NOW_UNIX + 60));
    // what was saved before the failure stays saved
    assert_eq!(load_issues(&cache, "owner/repo").len(), 1);
}

#[test]
fn other_errors_end_the_sync_at_once() {
    let mut cache = linked();
    let (run, _) = begin_sync(&mut cache, "/src/app", NOW_UNIX);
    let (run, action) =
        step(&mut cache, run, SyncEvent::Issues(Err("GitHub API error 500: oops".to_string())));
    assert!(run.is_none());
    assert!(matches!(&action, SyncAction::Finished(SyncOutcome::Failed(e)) if e == "GitHub API error 500: oops"));
    assert!(get_rate_limit_state(&cache, "github").is_none());
}

#[test]
fn a_sync_needs_a_usable_link() {
    let mut cache = Cache::new();
    let (run, action) = begin_sync(&mut cache, "/src/app", NOW_UNIX);
    assert!(run.is_none());
    assert!(matches!(&action, SyncAction::Finished(SyncOutcome::Failed(e)) if *e == not_linked_error()));
    assert_eq!(
        not_linked_error(),
        "This repo is not linked to an issue tracker.\n\nRun one of:\n  isq link github\n  isq link linear"
    );

    set_repo_link(&mut cache, "/src/app", "gitea", "owner/repo", None, NOW);
    let (_, action) = begin_sync(&mut cache, "/src/app", NOW_UNIX);
    assert!(matches!(&action, SyncAction::Finished(SyncOutcome::Failed(e)) if e == "Unknown forge type: gitea"));

    set_repo_link(&mut cache, "/src/app", "Linear", "team-only", None, NOW);
    let (_, action) = begin_sync(&mut cache, "/src/app", NOW_UNIX);
    assert!(matches!(&action, SyncAction::Finished(SyncOutcome::Failed(e)) if e == "Invalid forge_repo format: team-only"));

    set_repo_link(&mut cache, "/src/app", "Linear", "ENG/team-id", None, NOW);
    let (run, action) = begin_sync(&mut cache, "/src/app", NOW_UNIX);
    assert!(matches!(action, SyncAction::ListIssues));
    assert_eq!(run.unwrap().forge, ForgeType::Linear);
}

#[test]
fn an_answer_that_was_not_asked_for_ends_the_sync() {
    let mut cache = linked();
    save_issues(&mut cache, "owner/repo", &[issue(1, "kept")], NOW).unwrap();
    let (run, _) = begin_sync(&mut cache, "/src/app", NOW_UNIX);
    let (run, action) = step(&mut cache, run, SyncEvent::Comments(Ok(vec![])));
    assert!(run.is_none());
    assert!(matches!(&action, SyncAction::Finished(SyncOutcome::Failed(e)) if e == "unexpected answer"));
    assert_eq!(load_issues(&cache, "owner/repo")[0].title, "kept");
}

#[test]
fn issues_with_one_number_twice_are_not_saved() {
    let mut cache = linked();
    save_issues(&mut cache, "owner/repo", &[issue(1, "kept")], NOW).unwrap();
    let (run, _) = begin_sync(&mut cache, "/src/app", NOW_UNIX);
    let twice = vec![issue(4, "a"), issue(4, "b")];
    let (run, action) = step(&mut cache, run, SyncEvent::Issues(Ok(twice)));
    assert!(run.is_none());
    assert!(matches!(&action, SyncAction::Finished(SyncOutcome::Failed(e)) if e == "two issues to save have the same number"));
    assert_eq!(load_issues(&cache, "owner/repo")[0].title, "kept");
}

#[test]
fn a_cycle_visits_the_watched_sources_by_recency() {
    let mut cache = Cache::new();
    add_watched_repo(&mut cache, "/old", "2024-01-01T00:00:00Z");
    add_watched_repo(&mut cache, "/new", "2024-01-03T00:00:00Z");
    add_watched_repo(&mut cache, "/mid", "2024-01-02T00:00:00Z");
    let mut table = BackoffTable::new();
    let entry = table.record_failure_with_roll("/mid", 1000, 0);

    let steps = plan_cycle(&cache, &table, 2000);
    let order: Vec<(&str, bool)> =
        steps.iter().map(|s| (s.source.repo.as_str(), s.skip)).collect();
    assert_eq!(order, vec![("/new", false), ("/mid", true), ("/old", false)]);

    let steps = plan_cycle(&cache, &table, entry.next_attempt);
    assert!(steps.iter().all(|s| !s.skip));
    assert!(plan_cycle(&Cache::new(), &table, 0).is_empty());
}

#[test]
fn the_end_of_a_sync_moves_the_backoff() {
    let mut table = BackoffTable::new();
    let failed = SyncOutcome::Failed("boom".to_string());
    let first = settle_sync(&mut table, "/a", &failed, 1000).unwrap();
    assert_eq!(first.consecutive_failures, 1);
    assert!(first.next_attempt >= 1000 + 22_500 && first.next_attempt <= 1000 + 37_500);
    let second = settle_sync_with_roll(&mut table, "/a", &failed, 50_000, 0).unwrap();
    assert_eq!(second.consecutive_failures, 2);
    assert_eq!(second.next_attempt, 50_000 + 45_000);

    let skipped = SyncOutcome::Skipped { wait_secs: 10 };
    assert!(settle_sync(&mut table, "/a", &skipped, 60_000).is_none());
    assert!(table.entry("/a").is_none());

    settle_sync(&mut table, "/a", &failed, 70_000);
    let synced = SyncOutcome::Synced { issues: 1, comments: 0, replayed: 0 };
    assert!(settle_sync(&mut table, "/a", &synced, 80_000).is_none());
    assert!(!table.should_skip("/a", 80_001));
}

#[test]
fn a_cooldown_is_kept_per_forge() {
    let mut cache = Cache::new();
    set_rate_limit_state(&mut cache, "github", Some(100), Some("slow down"), NOW);
    assert!(is_rate_limited(&cache, "github", 99));
    assert!(!is_rate_limited(&cache, "github", 100));
    assert!(!is_rate_limited(&cache, "linear", 99));
    set_rate_limit_state(&mut cache, "github", None, None, NOW);
    assert!(!is_rate_limited(&cache, "github", 0));
}
