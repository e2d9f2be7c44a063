//! The reconciliation loop, as far as it decides: which sources a cycle
//! visits, and what one sync of a source does with every answer it gets. The
//! loop that waits for those answers runs outside; it hands each answer in and
//! is told what to ask for next.

use vstd::prelude::*;
use vstd::seq_lib::*;
use vstd::string::StringExecFns;
use crate::cache::comments::{save_comments, with_comments};
use crate::cache::issues::{save_issues, with_issues};
use crate::cache::limits::{
    after_budget, after_signal, cooling_down, get_rate_limit_state, limit_of,
    set_rate_limit_state, update_rate_limit_budget, with_limit,
};
use crate::cache::pending::{load_pending_ops, ops_of, without_op};
use crate::cache::sources::{get_repo_link, link_of, list_watched_repos, more_recent};
use crate::cache::{Cache, CacheView, PendingOp, PendingOpView, WatchedRepo, WatchedRepoView};
use crate::forge::{
    forge_named, Comment, CommentView, ForgeType, Issue, IssueView, RateLimitInfo,
};
use crate::governor::{
    failed_entry, sits_out, with_failure, with_success, BackoffTable, SourceBackoff,
    SourceBackoffView, FALLBACK_COOLDOWN_SECS,
};
use crate::queue::{
    conflict_class, is_throttle_error, op_error_text, outcome_view, plan_pending_op, replayed,
    settle_pending_op, settled, throttle_class, ForgeCall, ForgeCallView,
};
use crate::repo::{split_remote, two_parts, Repo, RepoView};
use crate::rows::{sorted_by, views};
use crate::text::unicode_lower;

verus! {

/// What a sync waits for.
#[derive(Debug, Clone, Copy, PartialEq, Eq, Structural)]
pub enum SyncPhase {
    /// The outcome of the replayed operation `ops[next_op]`.
    Draining,
    /// The issues of the source.
    Issues,
    /// The budget of the forge, after listing the issues was throttled.
    IssuesFailed,
    /// The comments of the source.
    Comments,
    /// The budget of the forge, after listing the comments was throttled.
    CommentsFailed,
    /// The budget of the forge, after everything was read.
    Budget,
}

/// One sync of one source, between two answers.
#[derive(Debug)]
pub struct SyncRun {
    pub forge: ForgeType,
    pub repo: Repo,
    /// The forge as the link names it.
    pub forge_type: String,
    /// The remote container as the link names it.
    pub forge_repo: String,
    pub phase: SyncPhase,
    /// The operations that were queued when the sync began.
    pub ops: Vec<PendingOp>,
    pub next_op: usize,
    /// How many operations are done with.
    pub replayed: usize,
    pub issue_count: usize,
    pub comment_count: usize,
    /// The error that ends the sync, once the budget is known.
    pub error: String,
}

/// What a sync holds.
pub struct SyncRunView {
    pub forge: ForgeType,
    pub repo: RepoView,
    pub forge_type: Seq<char>,
    pub forge_repo: Seq<char>,
    pub phase: SyncPhase,
    pub ops: Seq<PendingOpView>,
    pub next_op: int,
    pub replayed: int,
    pub issue_count: int,
    pub comment_count: int,
    pub error: Seq<char>,
}

impl View for SyncRun {
    type V = SyncRunView;

    open spec fn view(&self) -> SyncRunView {
        SyncRunView {
            forge: self.forge,
            repo: self.repo@,
            forge_type: self.forge_type@,
            forge_repo: self.forge_repo@,
            phase: self.phase,
            ops: views(self.ops@),
            next_op: self.next_op as int,
            replayed: self.replayed as int,
            issue_count: self.issue_count as int,
            comment_count: self.comment_count as int,
            error: self.error@,
        }
    }
}

/// The counters of a sync are in step: no more operations are done with than
/// were looked at, and no more were looked at than there are.
pub open spec fn run_wf(run: SyncRunView) -> bool {
    0 <= run.replayed <= run.next_op <= run.ops.len()
}

impl SyncRun {
    /// Whether the counters of the sync are in step.
    pub open spec fn well_formed(&self) -> bool {
        run_wf(self@)
    }
}

/// An answer that a sync was waiting for.
#[derive(Debug)]
pub enum SyncEvent {
    /// What the remote made of the replayed operation.
    Replayed(Result<(), String>),
    /// The issues of the source, or why they could not be listed.
    Issues(Result<Vec<Issue>, String>),
    /// The comments of the source, or why they could not be listed.
    Comments(Result<Vec<Comment>, String>),
    /// The budget of the forge, where it reports one.
    RateLimit(Option<RateLimitInfo>),
}

/// What an answer holds.
pub enum SyncEventView {
    Replayed(Result<(), Seq<char>>),
    Issues(Result<Seq<IssueView>, Seq<char>>),
    Comments(Result<Seq<CommentView>, Seq<char>>),
    RateLimit(Option<RateLimitInfo>),
}

impl View for SyncEvent {
    type V = SyncEventView;

    open spec fn view(&self) -> SyncEventView {
        match self {
            SyncEvent::Replayed(o) => SyncEventView::Replayed(outcome_view(*o)),
            SyncEvent::Issues(Ok(list)) => SyncEventView::Issues(Ok(views(list@))),
            SyncEvent::Issues(Err(e)) => SyncEventView::Issues(Err(e@)),
            SyncEvent::Comments(Ok(list)) => SyncEventView::Comments(Ok(views(list@))),
            SyncEvent::Comments(Err(e)) => SyncEventView::Comments(Err(e@)),
            SyncEvent::RateLimit(info) => SyncEventView::RateLimit(*info),
        }
    }
}

/// How a sync ended.
#[derive(Debug)]
pub enum SyncOutcome {
    /// Everything was read and saved.
    Synced { issues: usize, comments: usize, replayed: usize },
    /// The forge is to be left alone for so many seconds; nothing was asked
    /// of it, and this is no failure.
    Skipped { wait_secs: i64 },
    /// The sync failed with this error.
    Failed(String),
}

/// What the end of a sync holds.
pub enum SyncOutcomeView {
    Synced { issues: int, comments: int, replayed: int },
    Skipped { wait_secs: i64 },
    Failed(Seq<char>),
}

impl View for SyncOutcome {
    type V = SyncOutcomeView;

    open spec fn view(&self) -> SyncOutcomeView {
        match self {
            SyncOutcome::Synced { issues, comments, replayed } => SyncOutcomeView::Synced {
                issues: *issues as int,
                comments: *comments as int,
                replayed: *replayed as int,
            },
            SyncOutcome::Skipped { wait_secs } => SyncOutcomeView::Skipped { wait_secs: *wait_secs },
            SyncOutcome::Failed(e) => SyncOutcomeView::Failed(e@),
        }
    }
}

/// What a sync asks for next.
#[derive(Debug)]
pub enum SyncAction {
    /// Send this write to the forge and hand back what it made of it.
    Replay(ForgeCall),
    /// List the issues of the source.
    ListIssues,
    /// List the comments of the source.
    ListComments,
    /// Ask the forge for its budget.
    ProbeRateLimit,
    /// Nothing: the sync is over.
    Finished(SyncOutcome),
}

/// What an action holds.
pub enum SyncActionView {
    Replay(ForgeCallView),
    ListIssues,
    ListComments,
    ProbeRateLimit,
    Finished(SyncOutcomeView),
}

impl View for SyncAction {
    type V = SyncActionView;

    open spec fn view(&self) -> SyncActionView {
        match self {
            SyncAction::Replay(call) => SyncActionView::Replay(call@),
            SyncAction::ListIssues => SyncActionView::ListIssues,
            SyncAction::ListComments => SyncActionView::ListComments,
            SyncAction::ProbeRateLimit => SyncActionView::ProbeRateLimit,
            SyncAction::Finished(o) => SyncActionView::Finished(o@),
        }
    }
}

/// Where a sync stands after a step: the store, the sync if it goes on, and
/// what it asks for.
pub struct SyncStepView {
    pub cache: CacheView,
    pub run: Option<SyncRunView>,
    pub action: SyncActionView,
}

/// What an optional sync holds.
pub open spec fn opt_run(run: Option<SyncRun>) -> Option<SyncRunView> {
    match run {
        Some(r) => Some(r@),
        None => None,
    }
}

/// A sync that ends here with a failure.
pub open spec fn fails(c: CacheView, error: Seq<char>) -> SyncStepView {
    SyncStepView {
        cache: c,
        run: None,
        action: SyncActionView::Finished(SyncOutcomeView::Failed(error)),
    }
}

/// The error for a directory that has no link.
pub open spec fn not_linked_text() -> Seq<char> {
    "This repo is not linked to an issue tracker.\n\nRun one of:\n  isq link github\n  isq link linear"@
}

/// The drain from the operation `run.next_op` on: every operation that
/// stands for no write is settled by its own error, without the remote, until
/// one stands for a write, which is asked for; after the last operation the
/// sync goes on to list the issues.
pub open spec fn drain_on(c: CacheView, run: SyncRunView) -> SyncStepView
    decreases run.ops.len() - run.next_op,
{
    if run.next_op < 0 || run.next_op >= run.ops.len() {
        SyncStepView {
            cache: c,
            run: Some(SyncRunView { phase: SyncPhase::Issues, ..run }),
            action: SyncActionView::ListIssues,
        }
    } else {
        match replayed(run.ops[run.next_op]) {
            Ok(call) => SyncStepView {
                cache: c,
                run: Some(SyncRunView { phase: SyncPhase::Draining, ..run }),
                action: SyncActionView::Replay(call),
            },
            Err(e) => if conflict_class(op_error_text(e)) {
                drain_on(
                    CacheView { pending: without_op(c.pending, run.ops[run.next_op].id), ..c },
                    SyncRunView { next_op: run.next_op + 1, replayed: run.replayed + 1, ..run },
                )
            } else {
                drain_on(c, SyncRunView { next_op: run.next_op + 1, ..run })
            },
        }
    }
}

/// The seconds from `now_unix` to `reset_at`, as far as they can be counted.
pub open spec fn seconds_until(reset_at: i64, now_unix: i64) -> i64 {
    if reset_at - now_unix > i64::MAX {
        i64::MAX
    } else if reset_at - now_unix < i64::MIN {
        i64::MIN
    } else {
        (reset_at - now_unix) as i64
    }
}

/// The first step of a sync of the directory `repo_path` at the time
/// `now_unix`. A directory without a link, a link to a forge that is not
/// known, and a remote id that is not two parts with a slash between them
/// end the sync with an error. A forge that is to be left alone ends it
/// without one, and without a word to the forge. Else the queue of the
/// remote container is drained first.
pub open spec fn sync_begun(c: CacheView, repo_path: Seq<char>, now_unix: i64) -> SyncStepView {
    match link_of(c.links, repo_path) {
        None => fails(c, not_linked_text()),
        Some(link) => match forge_named(unicode_lower(link.forge_type)) {
            None => fails(c, "Unknown forge type: "@ + link.forge_type),
            Some(forge) => if cooling_down(c.rate_limits, link.forge_type, now_unix) {
                SyncStepView {
                    cache: c,
                    run: None,
                    action: SyncActionView::Finished(
                        SyncOutcomeView::Skipped {
                            wait_secs: seconds_until(
                                limit_of(c.rate_limits, link.forge_type)->0.reset_at->0,
                                now_unix,
                            ),
                        },
                    ),
                }
            } else {
                match two_parts(link.forge_repo) {
                    None => fails(c, "Invalid forge_repo format: "@ + link.forge_repo),
                    Some(repo) => drain_on(
                        c,
                        SyncRunView {
                            forge,
                            repo,
                            forge_type: link.forge_type,
                            forge_repo: link.forge_repo,
                            phase: SyncPhase::Draining,
                            ops: ops_of(c.pending, link.forge_repo),
                            next_op: 0,
                            replayed: 0,
                            issue_count: 0,
                            comment_count: 0,
                            error: Seq::empty(),
                        },
                    ),
                }
            },
        },
    }
}

/// The time at which a throttling forge may be asked again: what it reports,
/// or a minute from now where it reports nothing.
pub open spec fn cooldown_end(info: Option<RateLimitInfo>, now_unix: i64) -> i64 {
    match info {
        Some(i) => i.reset_at,
        None => if now_unix + FALLBACK_COOLDOWN_SECS <= i64::MAX {
            (now_unix + FALLBACK_COOLDOWN_SECS) as i64
        } else {
            i64::MAX
        },
    }
}

/// The step that the answer `event` leads to. An answer that the sync was
/// not waiting for ends it with an error and changes nothing.
pub open spec fn sync_stepped(
    c: CacheView,
    run: SyncRunView,
    event: SyncEventView,
    now_unix: i64,
    now: Seq<char>,
) -> SyncStepView {
    match (run.phase, event) {
        (SyncPhase::Draining, SyncEventView::Replayed(outcome)) => if run.next_op
            >= run.ops.len() {
            fails(c, "unexpected answer"@)
        } else if settled(outcome) {
            drain_on(
                CacheView { pending: without_op(c.pending, run.ops[run.next_op].id), ..c },
                SyncRunView { next_op: run.next_op + 1, replayed: run.replayed + 1, ..run },
            )
        } else {
            drain_on(c, SyncRunView { next_op: run.next_op + 1, ..run })
        },
        (SyncPhase::Issues, SyncEventView::Issues(Ok(issues))) => if issues.len() > i64::MAX {
            fails(c, "too many issues"@)
        } else if !crate::cache::issues::distinct_numbers(issues) {
            fails(c, crate::cache::cache_error_text(crate::cache::CacheError::DuplicateIssue))
        } else {
            SyncStepView {
                cache: with_issues(c, run.forge_repo, issues, now),
                run: Some(
                    SyncRunView {
                        phase: SyncPhase::Comments,
                        issue_count: issues.len() as int,
                        ..run
                    },
                ),
                action: SyncActionView::ListComments,
            }
        },
        (SyncPhase::Issues, SyncEventView::Issues(Err(e))) => if throttle_class(e) {
            SyncStepView {
                cache: c,
                run: Some(SyncRunView { phase: SyncPhase::IssuesFailed, error: e, ..run }),
                action: SyncActionView::ProbeRateLimit,
            }
        } else {
            fails(c, e)
        },
        (SyncPhase::Comments, SyncEventView::Comments(Ok(comments))) => if !crate::cache::comments::distinct_ids(
            comments,
        ) {
            fails(c, crate::cache::cache_error_text(crate::cache::CacheError::DuplicateComment))
        } else {
            SyncStepView {
                cache: with_comments(c, run.forge_repo, comments),
                run: Some(
                    SyncRunView {
                        phase: SyncPhase::Budget,
                        comment_count: comments.len() as int,
                        ..run
                    },
                ),
                action: SyncActionView::ProbeRateLimit,
            }
        },
        (SyncPhase::Comments, SyncEventView::Comments(Err(e))) => if throttle_class(e) {
            SyncStepView {
                cache: c,
                run: Some(SyncRunView { phase: SyncPhase::CommentsFailed, error: e, ..run }),
                action: SyncActionView::ProbeRateLimit,
            }
        } else {
            fails(c, e)
        },
        (SyncPhase::IssuesFailed, SyncEventView::RateLimit(info)) => throttled(
            c,
            run,
            info,
            now_unix,
            now,
        ),
        (SyncPhase::CommentsFailed, SyncEventView::RateLimit(info)) => throttled(
            c,
            run,
            info,
            now_unix,
            now,
        ),
        (SyncPhase::Budget, SyncEventView::RateLimit(info)) => SyncStepView {
            cache: match info {
                Some(i) => CacheView {
                    rate_limits: with_limit(
                        c.rate_limits,
                        after_budget(run.forge_type, None, i.remaining, i.reset_at, now),
                    ),
                    ..c
                },
                None => c,
            },
            run: None,
            action: SyncActionView::Finished(
                SyncOutcomeView::Synced {
                    issues: run.issue_count,
                    comments: run.comment_count,
                    replayed: run.replayed,
                },
            ),
        },
        _ => fails(c, "unexpected answer"@),
    }
}

/// The end of a sync that was throttled: the forge is left alone until the
/// end of the cooldown, and the sync fails with the error that told of the
/// throttling.
pub open spec fn throttled(
    c: CacheView,
    run: SyncRunView,
    info: Option<RateLimitInfo>,
    now_unix: i64,
    now: Seq<char>,
) -> SyncStepView {
    SyncStepView {
        cache: CacheView {
            rate_limits: with_limit(
                c.rate_limits,
                after_signal(
                    c.rate_limits,
                    run.forge_type,
                    Some(cooldown_end(info, now_unix)),
                    Some(run.error),
                    now,
                ),
            ),
            ..c
        },
        run: None,
        action: SyncActionView::Finished(SyncOutcomeView::Failed(run.error)),
    }
}

/// The error for a directory that has no link.
pub fn not_linked_error() -> (text: String)
    ensures
        text@ == not_linked_text(),
{
    String::from_str(
        "This repo is not linked to an issue tracker.\n\nRun one of:\n  isq link github\n  isq link linear",
    )
}

/// A sync that ends here with the failure `error`.
fn failed(error: String) -> (r: (Option<SyncRun>, SyncAction))
    ensures
        r.0 is None,
        r.1@ == SyncActionView::Finished(SyncOutcomeView::Failed(error@)),
{
    (None, SyncAction::Finished(SyncOutcome::Failed(error)))
}

/// Goes on with the drain from the operation `run.next_op`.
pub fn advance_drain(cache: &mut Cache, run: SyncRun) -> (r: (Option<SyncRun>, SyncAction))
    requires
        old(cache).well_formed(),
        run.well_formed(),
    ensures
        final(cache).well_formed(),
        (SyncStepView { cache: final(cache)@, run: opt_run(r.0), action: r.1@ }) == drain_on(
            old(cache)@,
            run@,
        ),
        r.0 matches Some(next) ==> next.well_formed(),
{
    let ghost goal = drain_on(cache@, run@);
    let mut cur = run;
    while cur.next_op < cur.ops.len()
        invariant
            cache.well_formed(),
            cur.well_formed(),
            goal == drain_on(old(cache)@, run@),
            goal == drain_on(cache@, cur@),
        decreases cur.ops.len() - cur.next_op,
    {
        let ghost before = cur@;
        let ghost op = before.ops[before.next_op];
        proof {
            assert(cur.ops@[cur.next_op as int]@ == op);
        }
        match plan_pending_op(&cur.ops[cur.next_op]) {
            Ok(call) => {
                cur.phase = SyncPhase::Draining;
                proof {
                    assert(cur@ == (SyncRunView { phase: SyncPhase::Draining, ..before }));
                }
                return (Some(cur), SyncAction::Replay(call));
            },
            Err(e) => {
                let outcome: Result<(), String> = Err(e.message());
                let id = cur.ops[cur.next_op].id;
                let done = settle_pending_op(cache, id, &outcome);
                cur.next_op = cur.next_op + 1;
                if done {
                    cur.replayed = cur.replayed + 1;
                }
                proof {
                    if done {
                        assert(cur@ == (SyncRunView {
                            next_op: before.next_op + 1,
                            replayed: before.replayed + 1,
                            ..before
                        }));
                    } else {
                        assert(cur@ == (SyncRunView { next_op: before.next_op + 1, ..before }));
                    }
                }
            },
        }
    }
    let ghost before = cur@;
    cur.phase = SyncPhase::Issues;
    proof {
        assert(cur@ == (SyncRunView { phase: SyncPhase::Issues, ..before }));
    }
    (Some(cur), SyncAction::ListIssues)
}

/// The seconds from `now_unix` to `reset_at`.
fn wait_for(reset_at: i64, now_unix: i64) -> (secs: i64)
    ensures
        secs == seconds_until(reset_at, now_unix),
{
    match reset_at.checked_sub(now_unix) {
        Some(secs) => secs,
        None => if reset_at > now_unix {
            i64::MAX
        } else {
            i64::MIN
        },
    }
}

/// Begins a sync of the directory `repo_path` at the time `now_unix`, in
/// seconds since the Unix epoch, and says what to ask of the forge first, or
/// how the sync has ended already.
pub fn begin_sync(cache: &mut Cache, repo_path: &str, now_unix: i64) -> (r: (
    Option<SyncRun>,
    SyncAction,
))
    requires
        old(cache).well_formed(),
    ensures
        final(cache).well_formed(),
        (SyncStepView { cache: final(cache)@, run: opt_run(r.0), action: r.1@ }) == sync_begun(
            old(cache)@,
            repo_path@,
            now_unix,
        ),
        r.0 matches Some(next) ==> next.well_formed(),
{
    let link = match get_repo_link(cache, repo_path) {
        Some(link) => link,
        None => {
            return failed(not_linked_error());
        },
    };
    let forge = match ForgeType::from_str(link.forge_type.as_str()) {
        Some(forge) => forge,
        None => {
            let mut text = String::from_str("Unknown forge type: ");
            text.append(link.forge_type.as_str());
            return failed(text);
        },
    };
    match get_rate_limit_state(cache, link.forge_type.as_str()) {
        Some(state) => match state.reset_at {
            Some(reset_at) => {
                if now_unix < reset_at {
                    return (
                        None,
                        SyncAction::Finished(
                            SyncOutcome::Skipped { wait_secs: wait_for(reset_at, now_unix) },
                        ),
                    );
                }
            },
            None => {},
        },
        None => {},
    }
    let repo = match split_remote(link.forge_repo.as_str()) {
        Some(repo) => repo,
        None => {
            let mut text = String::from_str("Invalid forge_repo format: ");
            text.append(link.forge_repo.as_str());
            return failed(text);
        },
    };
    let ops = load_pending_ops(cache, link.forge_repo.as_str());
    let run = SyncRun {
        forge,
        repo,
        forge_type: link.forge_type,
        forge_repo: link.forge_repo,
        phase: SyncPhase::Draining,
        ops,
        next_op: 0,
        replayed: 0,
        issue_count: 0,
        comment_count: 0,
        error: String::new(),
    };
    advance_drain(cache, run)
}

/// The time at which a throttling forge may be asked again.
fn end_of_cooldown(info: Option<RateLimitInfo>, now_unix: i64) -> (reset_at: i64)
    ensures
        reset_at == cooldown_end(info, now_unix),
{
    match info {
        Some(i) => i.reset_at,
        None => match now_unix.checked_add(FALLBACK_COOLDOWN_SECS) {
            Some(t) => t,
            None => i64::MAX,
        },
    }
}

/// Ends a throttled sync: notes until when the forge is to be left alone and
/// fails with the error that told of the throttling.
fn end_throttled(
    cache: &mut Cache,
    run: SyncRun,
    info: Option<RateLimitInfo>,
    now_unix: i64,
    now: &str,
) -> (r: (Option<SyncRun>, SyncAction))
    requires
        old(cache).well_formed(),
    ensures
        final(cache).well_formed(),
        (SyncStepView { cache: final(cache)@, run: opt_run(r.0), action: r.1@ }) == throttled(
            old(cache)@,
            run@,
            info,
            now_unix,
            now@,
        ),
        r.0 is None,
{
    let reset_at = end_of_cooldown(info, now_unix);
    set_rate_limit_state(
        cache,
        run.forge_type.as_str(),
        Some(reset_at),
        Some(run.error.as_str()),
        now,
    );
    failed(run.error)
}

/// Takes the next step of a sync: `event` is the answer to what the last
/// step asked for, `now_unix` the time in seconds since the Unix epoch and
/// `now` the same time as it is written into the cache.
pub fn sync_step(cache: &mut Cache, run: SyncRun, event: SyncEvent, now_unix: i64, now: &str) -> (r:
    (Option<SyncRun>, SyncAction))
    requires
        old(cache).well_formed(),
        run.well_formed(),
    ensures
        final(cache).well_formed(),
        (SyncStepView { cache: final(cache)@, run: opt_run(r.0), action: r.1@ }) == sync_stepped(
            old(cache)@,
            run@,
            event@,
            now_unix,
            now@,
        ),
        r.0 matches Some(next) ==> next.well_formed(),
{
    let ghost before = run@;
    let mut run = run;
    match (run.phase, event) {
        (SyncPhase::Draining, SyncEvent::Replayed(outcome)) => {
            if run.next_op >= run.ops.len() {
                return failed(String::from_str("unexpected answer"));
            }
            proof {
                assert(run.ops@[run.next_op as int]@ == before.ops[before.next_op]);
            }
            let id = run.ops[run.next_op].id;
            let done = settle_pending_op(cache, id, &outcome);
            run.next_op = run.next_op + 1;
            if done {
                run.replayed = run.replayed + 1;
            }
            proof {
                if done {
                    assert(run@ == (SyncRunView {
                        next_op: before.next_op + 1,
                        replayed: before.replayed + 1,
                        ..before
                    }));
                } else {
                    assert(run@ == (SyncRunView { next_op: before.next_op + 1, ..before }));
                }
            }
            advance_drain(cache, run)
        },
        (SyncPhase::Issues, SyncEvent::Issues(Ok(issues))) => {
            if issues.len() as u64 > 0x7fff_ffff_ffff_ffff {
                return failed(String::from_str("too many issues"));
            }
            match save_issues(cache, run.forge_repo.as_str(), issues.as_slice(), now) {
                Ok(()) => {
                    run.phase = SyncPhase::Comments;
                    run.issue_count = issues.len();
                    proof {
                        assert(run@ == (SyncRunView {
                            phase: SyncPhase::Comments,
                            issue_count: views(issues@).len() as int,
                            ..before
                        }));
                    }
                    (Some(run), SyncAction::ListComments)
                },
                Err(e) => failed(String::from_str(e.message())),
            }
        },
        (SyncPhase::Issues, SyncEvent::Issues(Err(e))) => {
            if is_throttle_error(e.as_str()) {
                run.phase = SyncPhase::IssuesFailed;
                run.error = e;
                proof {
                    assert(run@ == (SyncRunView {
                        phase: SyncPhase::IssuesFailed,
                        error: e@,
                        ..before
                    }));
                }
                (Some(run), SyncAction::ProbeRateLimit)
            } else {
                failed(e)
            }
        },
        (SyncPhase::Comments, SyncEvent::Comments(Ok(comments))) => {
            match save_comments(cache, run.forge_repo.as_str(), comments.as_slice()) {
                Ok(()) => {
                    run.phase = SyncPhase::Budget;
                    run.comment_count = comments.len();
                    proof {
                        assert(run@ == (SyncRunView {
                            phase: SyncPhase::Budget,
                            comment_count: views(comments@).len() as int,
                            ..before
                        }));
                    }
                    (Some(run), SyncAction::ProbeRateLimit)
                },
                Err(e) => failed(String::from_str(e.message())),
            }
        },
        (SyncPhase::Comments, SyncEvent::Comments(Err(e))) => {
            if is_throttle_error(e.as_str()) {
                run.phase = SyncPhase::CommentsFailed;
                run.error = e;
                proof {
                    assert(run@ == (SyncRunView {
                        phase: SyncPhase::CommentsFailed,
                        error: e@,
                        ..before
                    }));
                }
                (Some(run), SyncAction::ProbeRateLimit)
            } else {
                failed(e)
            }
        },
        (SyncPhase::IssuesFailed, SyncEvent::RateLimit(info)) => end_throttled(
            cache,
            run,
            info,
            now_unix,
            now,
        ),
        (SyncPhase::CommentsFailed, SyncEvent::RateLimit(info)) => end_throttled(
            cache,
            run,
            info,
            now_unix,
            now,
        ),
        (SyncPhase::Budget, SyncEvent::RateLimit(info)) => {
            match info {
                Some(i) => {
                    update_rate_limit_budget(
                        cache,
                        run.forge_type.as_str(),
                        None,
                        i.remaining,
                        i.reset_at,
                        now,
                    );
                },
                None => {},
            }
            (
                None,
                SyncAction::Finished(
                    SyncOutcome::Synced {
                        issues: run.issue_count,
                        comments: run.comment_count,
                        replayed: run.replayed,
                    },
                ),
            )
        },
        _ => failed(String::from_str("unexpected answer")),
    }
}

/// One watched source in a cycle, and whether the cycle passes it over.
#[derive(Debug)]
pub struct CycleStep {
    pub source: WatchedRepo,
    /// The source failed before and its next attempt has not come.
    pub skip: bool,
}

/// What a cycle step holds.
pub struct CycleStepView {
    pub source: WatchedRepoView,
    pub skip: bool,
}

impl View for CycleStep {
    type V = CycleStepView;

    open spec fn view(&self) -> CycleStepView {
        CycleStepView { source: self.source@, skip: self.skip }
    }
}

/// The sources of the steps of a cycle.
pub open spec fn step_sources(steps: Seq<CycleStepView>) -> Seq<WatchedRepoView> {
    steps.map_values(|s: CycleStepView| s.source)
}

/// Whether `steps` is the plan of the cycle that runs at `now`: every
/// watched source once, the most recently accessed first, and passed over
/// exactly if it sits out.
pub open spec fn is_cycle_plan(
    steps: Seq<CycleStepView>,
    c: CacheView,
    entries: Seq<SourceBackoffView>,
    now: u64,
) -> bool {
    &&& sorted_by(
        step_sources(steps),
        c.watched,
        |a: WatchedRepoView, b: WatchedRepoView| more_recent(a, b),
    )
    &&& forall|i: int|
        0 <= i < steps.len() ==> (#[trigger] steps[i]).skip == sits_out(
            entries,
            steps[i].source.repo,
            now,
        )
}

/// The plan of the cycle that runs at `now`, in milliseconds on the clock of
/// the loop: the watched sources in the order in which they are visited, each
/// with the word whether it is passed over.
pub fn plan_cycle(cache: &Cache, table: &BackoffTable, now: u64) -> (steps: Vec<CycleStep>)
    requires
        cache.well_formed(),
        table.well_formed(),
    ensures
        is_cycle_plan(views(steps@), cache@, table@, now),
{
    let list = list_watched_repos(cache);
    let mut steps: Vec<CycleStep> = Vec::new();
    let mut i: usize = 0;
    while i < list.len()
        invariant
            i <= list.len(),
            table.well_formed(),
            step_sources(views(steps@)) == views(list@).take(i as int),
            forall|k: int|
                0 <= k < steps.len() ==> (#[trigger] views(steps@)[k]).skip == sits_out(
                    table@,
                    views(steps@)[k].source.repo,
                    now,
                ),
        decreases list.len() - i,
    {
        let ghost before = steps@;
        let source = list[i].copy();
        let skip = table.should_skip(source.repo.as_str(), now);
        let step = CycleStep { source, skip };
        steps.push(step);
        proof {
            assert(views(steps@) =~= views(before).push(step@));
            assert(step_sources(views(steps@)) =~= step_sources(views(before)).push(step@.source));
            assert(views(list@).take(i + 1) =~= views(list@).take(i as int).push(
                views(list@)[i as int],
            ));
        }
        i += 1;
    }
    proof {
        assert(views(list@).take(i as int) =~= views(list@));
    }
    steps
}

/// The backoff table after the sync of a source has ended: a sync that
/// failed puts the source into backoff; a sync that did not fail takes it
/// out.
pub open spec fn after_sync(
    entries: Seq<SourceBackoffView>,
    remote: Seq<char>,
    outcome: SyncOutcomeView,
    now: u64,
    roll: u32,
) -> Seq<SourceBackoffView> {
    match outcome {
        SyncOutcomeView::Failed(_) => with_failure(entries, remote, now, roll),
        _ => with_success(entries, remote),
    }
}

/// What an optional backoff entry holds.
pub open spec fn opt_entry(entry: Option<SourceBackoff>) -> Option<SourceBackoffView> {
    match entry {
        Some(e) => Some(e@),
        None => None,
    }
}

/// The entry that a source has right after its sync has ended, if the sync
/// failed.
pub open spec fn entry_after_sync(
    entries: Seq<SourceBackoffView>,
    remote: Seq<char>,
    outcome: SyncOutcomeView,
    now: u64,
    roll: u32,
) -> Option<SourceBackoffView> {
    match outcome {
        SyncOutcomeView::Failed(_) => Some(failed_entry(entries, remote, now, roll)),
        _ => None,
    }
}

/// Whether a table and an entry are what the end of a sync leaves, for the
/// jitter that `roll` picks.
pub open spec fn sync_settled(
    entries: Seq<SourceBackoffView>,
    remote: Seq<char>,
    outcome: SyncOutcomeView,
    now: u64,
    roll: u32,
    left: Seq<SourceBackoffView>,
    entry: Option<SourceBackoffView>,
) -> bool {
    left == after_sync(entries, remote, outcome, now, roll) && entry == entry_after_sync(
        entries,
        remote,
        outcome,
        now,
        roll,
    )
}

/// Notes in the backoff table how the sync of `remote` has ended at `now`,
/// with the jitter that `roll` picks.
pub fn settle_sync_with_roll(
    table: &mut BackoffTable,
    remote: &str,
    outcome: &SyncOutcome,
    now: u64,
    roll: u32,
) -> (entry: Option<SourceBackoff>)
    requires
        old(table).well_formed(),
    ensures
        final(table).well_formed(),
        sync_settled(
            old(table)@,
            remote@,
            outcome@,
            now,
            roll,
            final(table)@,
            opt_entry(entry),
        ),
{
    match outcome {
        SyncOutcome::Failed(_) => {
            let entry = table.record_failure_with_roll(remote, now, roll);
            Some(entry)
        },
        _ => {
            table.record_success(remote);
            None
        },
    }
}

/// Notes in the backoff table how the sync of `remote` has ended at `now`,
/// and says until when the source sits out, if it failed.
pub fn settle_sync(table: &mut BackoffTable, remote: &str, outcome: &SyncOutcome, now: u64) -> (entry:
    Option<SourceBackoff>)
    requires
        old(table).well_formed(),
    ensures
        final(table).well_formed(),
        exists|roll: u32| #[trigger]
            sync_settled(
                old(table)@,
                remote@,
                outcome@,
                now,
                roll,
                final(table)@,
                opt_entry(entry),
            ),
{
    let roll = crate::governor::random_roll();
    settle_sync_with_roll(table, remote, outcome, now, roll)
}

} // verus!
