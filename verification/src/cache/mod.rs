//! The local cache: every table of the store as a value, with the operations
//! that read and replace its rows. The cache is the single owner of all rows;
//! what persists it hands it over whole and takes it back whole.

pub mod comments;
pub mod goals;
pub mod issues;
pub mod limits;
pub mod pending;
pub mod sources;

use vstd::prelude::*;
use crate::forge::{Comment, CommentView, Goal, GoalView, Issue, IssueView};
use crate::rows::{all_apart, copy_rows, pairwise, views, Row};
use crate::text::same_text;
use crate::text::opt_text;

verus! {

/// Why a change of the cache was refused. A refused change leaves every table
/// as it was.
#[derive(Debug, Clone, Copy, PartialEq, Eq, Structural)]
pub enum CacheError {
    /// Two of the issues to save have the same number.
    DuplicateIssue,
    /// Two of the comments to save have the same id.
    DuplicateComment,
    /// Two of the goals to save have the same id.
    DuplicateGoal,
    /// The queue has handed out its last id.
    QueueFull,
}

impl CacheError {
    /// The error as a sentence.
    pub fn message(&self) -> (text: &'static str)
        ensures
            text@ == cache_error_text(*self),
    {
        match self {
            CacheError::DuplicateIssue => "two issues to save have the same number",
            CacheError::DuplicateComment => "two comments to save have the same id",
            CacheError::DuplicateGoal => "two goals to save have the same id",
            CacheError::QueueFull => "the operation queue has no id left",
        }
    }
}

/// The sentence for each error.
pub open spec fn cache_error_text(e: CacheError) -> Seq<char> {
    match e {
        CacheError::DuplicateIssue => "two issues to save have the same number"@,
        CacheError::DuplicateComment => "two comments to save have the same id"@,
        CacheError::DuplicateGoal => "two goals to save have the same id"@,
        CacheError::QueueFull => "the operation queue has no id left"@,
    }
}

/// An issue together with the remote container it was read from.
#[derive(Debug)]
pub struct IssueRow {
    pub remote: String,
    pub issue: Issue,
}

/// What an issue row holds.
pub struct IssueRowView {
    pub remote: Seq<char>,
    pub issue: IssueView,
}

impl View for IssueRow {
    type V = IssueRowView;

    open spec fn view(&self) -> IssueRowView {
        IssueRowView { remote: self.remote@, issue: self.issue@ }
    }
}

/// A comment together with the remote container it was read from.
#[derive(Debug)]
pub struct CommentRow {
    pub remote: String,
    pub comment: Comment,
}

/// What a comment row holds.
pub struct CommentRowView {
    pub remote: Seq<char>,
    pub comment: CommentView,
}

impl View for CommentRow {
    type V = CommentRowView;

    open spec fn view(&self) -> CommentRowView {
        CommentRowView { remote: self.remote@, comment: self.comment@ }
    }
}

/// A goal together with the remote container it was read from.
#[derive(Debug)]
pub struct GoalRow {
    pub remote: String,
    pub goal: Goal,
}

/// What a goal row holds.
pub struct GoalRowView {
    pub remote: Seq<char>,
    pub goal: GoalView,
}

impl View for GoalRow {
    type V = GoalRowView;

    open spec fn view(&self) -> GoalRowView {
        GoalRowView { remote: self.remote@, goal: self.goal@ }
    }
}

/// When a remote container was last read in full, and how many issues it had.
#[derive(Debug)]
pub struct SyncState {
    pub repo: String,
    pub last_sync: String,
    pub issue_count: i64,
}

/// What a sync state holds.
pub struct SyncStateView {
    pub repo: Seq<char>,
    pub last_sync: Seq<char>,
    pub issue_count: i64,
}

impl View for SyncState {
    type V = SyncStateView;

    open spec fn view(&self) -> SyncStateView {
        SyncStateView {
            repo: self.repo@,
            last_sync: self.last_sync@,
            issue_count: self.issue_count,
        }
    }
}

/// A write that waits to be sent to its remote container.
#[derive(Debug)]
pub struct PendingOp {
    pub id: i64,
    pub repo: String,
    pub op_type: String,
    pub payload: String,
    pub created_at: String,
}

/// What a pending operation holds.
pub struct PendingOpView {
    pub id: i64,
    pub repo: Seq<char>,
    pub op_type: Seq<char>,
    pub payload: Seq<char>,
    pub created_at: Seq<char>,
}

impl View for PendingOp {
    type V = PendingOpView;

    open spec fn view(&self) -> PendingOpView {
        PendingOpView {
            id: self.id,
            repo: self.repo@,
            op_type: self.op_type@,
            payload: self.payload@,
            created_at: self.created_at@,
        }
    }
}

impl PendingOp {
    /// A copy of the operation.
    pub fn copy(&self) -> (r: PendingOp)
        ensures
            r@ == self@,
    {
        PendingOp {
            id: self.id,
            repo: self.repo.clone(),
            op_type: self.op_type.clone(),
            payload: self.payload.clone(),
            created_at: self.created_at.clone(),
        }
    }
}

/// A local directory that the background loop keeps current.
#[derive(Debug)]
pub struct WatchedRepo {
    pub repo: String,
    pub last_accessed: String,
    pub added_at: String,
}

/// What a watched source holds.
pub struct WatchedRepoView {
    pub repo: Seq<char>,
    pub last_accessed: Seq<char>,
    pub added_at: Seq<char>,
}

impl View for WatchedRepo {
    type V = WatchedRepoView;

    open spec fn view(&self) -> WatchedRepoView {
        WatchedRepoView {
            repo: self.repo@,
            last_accessed: self.last_accessed@,
            added_at: self.added_at@,
        }
    }
}

impl WatchedRepo {
    /// A copy of the row.
    pub fn copy(&self) -> (r: WatchedRepo)
        ensures
            r@ == self@,
    {
        WatchedRepo {
            repo: self.repo.clone(),
            last_accessed: self.last_accessed.clone(),
            added_at: self.added_at.clone(),
        }
    }
}

/// The link between a local directory and its remote container.
#[derive(Debug)]
pub struct RepoLink {
    pub repo_path: String,
    pub forge_type: String,
    pub forge_repo: String,
    pub display_name: Option<String>,
    pub created_at: String,
}

/// What a link holds.
pub struct RepoLinkView {
    pub repo_path: Seq<char>,
    pub forge_type: Seq<char>,
    pub forge_repo: Seq<char>,
    pub display_name: Option<Seq<char>>,
    pub created_at: Seq<char>,
}

impl View for RepoLink {
    type V = RepoLinkView;

    open spec fn view(&self) -> RepoLinkView {
        RepoLinkView {
            repo_path: self.repo_path@,
            forge_type: self.forge_type@,
            forge_repo: self.forge_repo@,
            display_name: opt_text(self.display_name),
            created_at: self.created_at@,
        }
    }
}

impl RepoLink {
    /// A copy of the link.
    pub fn copy(&self) -> (r: RepoLink)
        ensures
            r@ == self@,
    {
        RepoLink {
            repo_path: self.repo_path.clone(),
            forge_type: self.forge_type.clone(),
            forge_repo: self.forge_repo.clone(),
            display_name: crate::text::copy_opt(&self.display_name),
            created_at: self.created_at.clone(),
        }
    }
}

/// What is known of one forge's request budget.
#[derive(Debug)]
pub struct RateLimitState {
    pub forge_type: String,
    pub limit: Option<u32>,
    pub remaining: Option<u32>,
    /// Seconds since the Unix epoch.
    pub reset_at: Option<i64>,
    pub last_error: Option<String>,
    pub updated_at: String,
}

/// What a rate-limit state holds.
pub struct RateLimitStateView {
    pub forge_type: Seq<char>,
    pub limit: Option<u32>,
    pub remaining: Option<u32>,
    pub reset_at: Option<i64>,
    pub last_error: Option<Seq<char>>,
    pub updated_at: Seq<char>,
}

impl View for RateLimitState {
    type V = RateLimitStateView;

    open spec fn view(&self) -> RateLimitStateView {
        RateLimitStateView {
            forge_type: self.forge_type@,
            limit: self.limit,
            remaining: self.remaining,
            reset_at: self.reset_at,
            last_error: opt_text(self.last_error),
            updated_at: self.updated_at@,
        }
    }
}

impl RateLimitState {
    /// A copy of the state.
    pub fn copy(&self) -> (r: RateLimitState)
        ensures
            r@ == self@,
    {
        RateLimitState {
            forge_type: self.forge_type.clone(),
            limit: self.limit,
            remaining: self.remaining,
            reset_at: self.reset_at,
            last_error: crate::text::copy_opt(&self.last_error),
            updated_at: self.updated_at.clone(),
        }
    }
}

impl Row for PendingOp {
    fn duplicate(&self) -> (r: PendingOp) {
        self.copy()
    }
}

impl Row for WatchedRepo {
    fn duplicate(&self) -> (r: WatchedRepo) {
        self.copy()
    }
}

impl Row for RepoLink {
    fn duplicate(&self) -> (r: RepoLink) {
        self.copy()
    }
}

impl Row for RateLimitState {
    fn duplicate(&self) -> (r: RateLimitState) {
        self.copy()
    }
}

impl Row for SyncState {
    fn duplicate(&self) -> (r: SyncState) {
        SyncState {
            repo: self.repo.clone(),
            last_sync: self.last_sync.clone(),
            issue_count: self.issue_count,
        }
    }
}

impl Row for IssueRow {
    fn duplicate(&self) -> (r: IssueRow) {
        IssueRow { remote: self.remote.clone(), issue: self.issue.copy() }
    }
}

impl Row for CommentRow {
    fn duplicate(&self) -> (r: CommentRow) {
        CommentRow { remote: self.remote.clone(), comment: self.comment.copy() }
    }
}

impl Row for GoalRow {
    fn duplicate(&self) -> (r: GoalRow) {
        GoalRow { remote: self.remote.clone(), goal: self.goal.copy() }
    }
}

/// Every table of the store.
pub struct Cache {
    pub(crate) issues: Vec<IssueRow>,
    pub(crate) comments: Vec<CommentRow>,
    pub(crate) goals: Vec<GoalRow>,
    pub(crate) sync_states: Vec<SyncState>,
    pub(crate) pending: Vec<PendingOp>,
    pub(crate) next_op_id: i64,
    pub(crate) rate_limits: Vec<RateLimitState>,
    pub(crate) watched: Vec<WatchedRepo>,
    pub(crate) links: Vec<RepoLink>,
}

/// What the cache holds: the rows of each table, in table order.
pub struct CacheView {
    pub issues: Seq<IssueRowView>,
    pub comments: Seq<CommentRowView>,
    pub goals: Seq<GoalRowView>,
    pub sync_states: Seq<SyncStateView>,
    pub pending: Seq<PendingOpView>,
    pub next_op_id: i64,
    pub rate_limits: Seq<RateLimitStateView>,
    pub watched: Seq<WatchedRepoView>,
    pub links: Seq<RepoLinkView>,
}

impl View for Cache {
    type V = CacheView;

    closed spec fn view(&self) -> CacheView {
        CacheView {
            issues: views(self.issues@),
            comments: views(self.comments@),
            goals: views(self.goals@),
            sync_states: views(self.sync_states@),
            pending: views(self.pending@),
            next_op_id: self.next_op_id,
            rate_limits: views(self.rate_limits@),
            watched: views(self.watched@),
            links: views(self.links@),
        }
    }
}

/// No two issues of one remote container have the same number.
pub open spec fn issue_keys_unique(rows: Seq<IssueRowView>) -> bool {
    pairwise(
        rows,
        |a: IssueRowView, b: IssueRowView| !(a.remote == b.remote && a.issue.number == b.issue.number),
    )
}

/// No two comments of one remote container have the same id.
pub open spec fn comment_keys_unique(rows: Seq<CommentRowView>) -> bool {
    pairwise(
        rows,
        |a: CommentRowView, b: CommentRowView|
            !(a.remote == b.remote && a.comment.comment_id == b.comment.comment_id),
    )
}

/// No two goals of one remote container have the same id.
pub open spec fn goal_keys_unique(rows: Seq<GoalRowView>) -> bool {
    pairwise(rows, |a: GoalRowView, b: GoalRowView| !(a.remote == b.remote && a.goal.id == b.goal.id))
}

/// Each remote container has at most one sync state.
pub open spec fn sync_keys_unique(rows: Seq<SyncStateView>) -> bool {
    pairwise(rows, |a: SyncStateView, b: SyncStateView| a.repo != b.repo)
}

/// The ids of a sequence of operations grow strictly along it.
pub open spec fn ids_increasing(rows: Seq<PendingOpView>) -> bool {
    pairwise(rows, |a: PendingOpView, b: PendingOpView| a.id < b.id)
}

/// Every id of the queue is at least 1 and under the next id to hand out.
pub open spec fn ids_handed_out(rows: Seq<PendingOpView>, next_op_id: i64) -> bool {
    forall|i: int| 0 <= i < rows.len() ==> 1 <= (#[trigger] rows[i]).id < next_op_id
}

/// The ids in the queue grow along the table, start at 1 and lie under the
/// next id to hand out.
pub open spec fn queue_ordered(rows: Seq<PendingOpView>, next_op_id: i64) -> bool {
    &&& next_op_id >= 1
    &&& ids_handed_out(rows, next_op_id)
    &&& ids_increasing(rows)
}

/// Each forge has at most one rate-limit state.
pub open spec fn limit_keys_unique(rows: Seq<RateLimitStateView>) -> bool {
    pairwise(rows, |a: RateLimitStateView, b: RateLimitStateView| a.forge_type != b.forge_type)
}

/// Each directory is watched at most once.
pub open spec fn watched_keys_unique(rows: Seq<WatchedRepoView>) -> bool {
    pairwise(rows, |a: WatchedRepoView, b: WatchedRepoView| a.repo != b.repo)
}

/// Each directory has at most one link.
pub open spec fn link_keys_unique(rows: Seq<RepoLinkView>) -> bool {
    pairwise(rows, |a: RepoLinkView, b: RepoLinkView| a.repo_path != b.repo_path)
}

/// The invariant of the store: the keys of every table are unique and the
/// queue is ordered by id.
pub open spec fn cache_wf(c: CacheView) -> bool {
    &&& issue_keys_unique(c.issues)
    &&& comment_keys_unique(c.comments)
    &&& goal_keys_unique(c.goals)
    &&& sync_keys_unique(c.sync_states)
    &&& queue_ordered(c.pending, c.next_op_id)
    &&& limit_keys_unique(c.rate_limits)
    &&& watched_keys_unique(c.watched)
    &&& link_keys_unique(c.links)
}

/// The store with no row in any table.
pub open spec fn empty_cache() -> CacheView {
    CacheView {
        issues: Seq::empty(),
        comments: Seq::empty(),
        goals: Seq::empty(),
        sync_states: Seq::empty(),
        pending: Seq::empty(),
        next_op_id: 1,
        rate_limits: Seq::empty(),
        watched: Seq::empty(),
        links: Seq::empty(),
    }
}

impl Cache {
    /// The view lists the rows of each table in table order.
    pub(crate) proof fn lemma_view(&self)
        ensures
            self@ == (CacheView {
                issues: views(self.issues@),
                comments: views(self.comments@),
                goals: views(self.goals@),
                sync_states: views(self.sync_states@),
                pending: views(self.pending@),
                next_op_id: self.next_op_id,
                rate_limits: views(self.rate_limits@),
                watched: views(self.watched@),
                links: views(self.links@),
            }),
    {
    }

    /// Whether the store keeps its invariant.
    pub open spec fn well_formed(&self) -> bool {
        cache_wf(self@)
    }

    /// A store without rows.
    pub fn new() -> (cache: Cache)
        ensures
            cache@ == empty_cache(),
            cache.well_formed(),
    {
        let cache = Cache {
            issues: Vec::new(),
            comments: Vec::new(),
            goals: Vec::new(),
            sync_states: Vec::new(),
            pending: Vec::new(),
            next_op_id: 1,
            rate_limits: Vec::new(),
            watched: Vec::new(),
            links: Vec::new(),
        };
        proof {
            assert(cache@.issues =~= Seq::empty());
            assert(cache@.comments =~= Seq::empty());
            assert(cache@.goals =~= Seq::empty());
            assert(cache@.sync_states =~= Seq::empty());
            assert(cache@.pending =~= Seq::empty());
            assert(cache@.rate_limits =~= Seq::empty());
            assert(cache@.watched =~= Seq::empty());
            assert(cache@.links =~= Seq::empty());
        }
        cache
    }
}

/// The rows of every table, as they are handed over by what persists the
/// store and handed back to it.
#[derive(Debug)]
pub struct CacheRows {
    pub issues: Vec<IssueRow>,
    pub comments: Vec<CommentRow>,
    pub goals: Vec<GoalRow>,
    pub sync_states: Vec<SyncState>,
    pub pending: Vec<PendingOp>,
    /// The id that the next queued operation gets.
    pub next_op_id: i64,
    pub rate_limits: Vec<RateLimitState>,
    pub watched: Vec<WatchedRepo>,
    pub links: Vec<RepoLink>,
}

impl View for CacheRows {
    type V = CacheView;

    open spec fn view(&self) -> CacheView {
        CacheView {
            issues: views(self.issues@),
            comments: views(self.comments@),
            goals: views(self.goals@),
            sync_states: views(self.sync_states@),
            pending: views(self.pending@),
            next_op_id: self.next_op_id,
            rate_limits: views(self.rate_limits@),
            watched: views(self.watched@),
            links: views(self.links@),
        }
    }
}

/// Whether every id of the queue is at least 1 and under `next_op_id`.
fn ids_in_range(pending: &Vec<PendingOp>, next_op_id: i64) -> (b: bool)
    ensures
        b == ids_handed_out(views(pending@), next_op_id),
{
    let mut i: usize = 0;
    while i < pending.len()
        invariant
            i <= pending.len(),
            forall|k: int| 0 <= k < i ==> 1 <= (#[trigger] views(pending@)[k]).id < next_op_id,
        decreases pending.len() - i,
    {
        if !(1 <= pending[i].id && pending[i].id < next_op_id) {
            assert(!(1 <= views(pending@)[i as int].id < next_op_id));
            return false;
        }
        i += 1;
    }
    true
}

impl Cache {
    /// The store that holds the given rows, where they keep the invariant of
    /// the store: the keys of every table unique, the queue ordered by id.
    pub fn from_rows(rows: CacheRows) -> (cache: Option<Cache>)
        ensures
            match cache {
                Some(c) => c.well_formed() && c@ == rows@,
                None => !cache_wf(rows@),
            },
    {
        let issues_apart = |a: &IssueRow, b: &IssueRow| -> (r: bool)
            ensures
                r == !(a@.remote == b@.remote && a@.issue.number == b@.issue.number),
            {
                !(a.issue.number == b.issue.number && same_text(
                    a.remote.as_str(),
                    b.remote.as_str(),
                ))
            };
        let comments_apart = |a: &CommentRow, b: &CommentRow| -> (r: bool)
            ensures
                r == !(a@.remote == b@.remote && a@.comment.comment_id == b@.comment.comment_id),
            {
                !(same_text(a.remote.as_str(), b.remote.as_str()) && same_text(
                    a.comment.comment_id.as_str(),
                    b.comment.comment_id.as_str(),
                ))
            };
        let goals_apart = |a: &GoalRow, b: &GoalRow| -> (r: bool)
            ensures
                r == !(a@.remote == b@.remote && a@.goal.id == b@.goal.id),
            {
                !(same_text(a.remote.as_str(), b.remote.as_str()) && same_text(
                    a.goal.id.as_str(),
                    b.goal.id.as_str(),
                ))
            };
        let syncs_apart = |a: &SyncState, b: &SyncState| -> (r: bool)
            ensures
                r == (a@.repo != b@.repo),
            {
                !same_text(a.repo.as_str(), b.repo.as_str())
            };
        let ids_grow = |a: &PendingOp, b: &PendingOp| -> (r: bool)
            ensures
                r == (a@.id < b@.id),
            {
                a.id < b.id
            };
        let limits_apart = |a: &RateLimitState, b: &RateLimitState| -> (r: bool)
            ensures
                r == (a@.forge_type != b@.forge_type),
            {
                !same_text(a.forge_type.as_str(), b.forge_type.as_str())
            };
        let watched_apart = |a: &WatchedRepo, b: &WatchedRepo| -> (r: bool)
            ensures
                r == (a@.repo != b@.repo),
            {
                !same_text(a.repo.as_str(), b.repo.as_str())
            };
        let links_apart = |a: &RepoLink, b: &RepoLink| -> (r: bool)
            ensures
                r == (a@.repo_path != b@.repo_path),
            {
                !same_text(a.repo_path.as_str(), b.repo_path.as_str())
            };
        let ok = all_apart(
            rows.issues.as_slice(),
            issues_apart,
            Ghost(
                |a: IssueRowView, b: IssueRowView|
                    !(a.remote == b.remote && a.issue.number == b.issue.number),
            ),
        ) && all_apart(
            rows.comments.as_slice(),
            comments_apart,
            Ghost(
                |a: CommentRowView, b: CommentRowView|
                    !(a.remote == b.remote && a.comment.comment_id == b.comment.comment_id),
            ),
        ) && all_apart(
            rows.goals.as_slice(),
            goals_apart,
            Ghost(|a: GoalRowView, b: GoalRowView| !(a.remote == b.remote && a.goal.id == b.goal.id)),
        ) && all_apart(
            rows.sync_states.as_slice(),
            syncs_apart,
            Ghost(|a: SyncStateView, b: SyncStateView| a.repo != b.repo),
        ) && rows.next_op_id >= 1 && ids_in_range(&rows.pending, rows.next_op_id) && all_apart(
            rows.pending.as_slice(),
            ids_grow,
            Ghost(|a: PendingOpView, b: PendingOpView| a.id < b.id),
        ) && all_apart(
            rows.rate_limits.as_slice(),
            limits_apart,
            Ghost(|a: RateLimitStateView, b: RateLimitStateView| a.forge_type != b.forge_type),
        ) && all_apart(
            rows.watched.as_slice(),
            watched_apart,
            Ghost(|a: WatchedRepoView, b: WatchedRepoView| a.repo != b.repo),
        ) && all_apart(
            rows.links.as_slice(),
            links_apart,
            Ghost(|a: RepoLinkView, b: RepoLinkView| a.repo_path != b.repo_path),
        );
        if !ok {
            return None;
        }
        let cache = Cache {
            issues: rows.issues,
            comments: rows.comments,
            goals: rows.goals,
            sync_states: rows.sync_states,
            pending: rows.pending,
            next_op_id: rows.next_op_id,
            rate_limits: rows.rate_limits,
            watched: rows.watched,
            links: rows.links,
        };
        Some(cache)
    }

    /// A copy of the rows of every table.
    pub fn to_rows(&self) -> (rows: CacheRows)
        ensures
            rows@ == self@,
    {
        CacheRows {
            issues: copy_rows(&self.issues),
            comments: copy_rows(&self.comments),
            goals: copy_rows(&self.goals),
            sync_states: copy_rows(&self.sync_states),
            pending: copy_rows(&self.pending),
            next_op_id: self.next_op_id,
            rate_limits: copy_rows(&self.rate_limits),
            watched: copy_rows(&self.watched),
            links: copy_rows(&self.links),
        }
    }
}

} // verus!
